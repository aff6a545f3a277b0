use netstack::ipv4::{ip_to_u32, parse_ipv4, Ipv4Address};
use netstack::subnet::{
    cidr_prefix_to_mask, compute_broadcast_address, compute_host_range, compute_network_address,
    compute_subnet_info, unwrap_cidr, CidrError, SubnetInfo,
};
use netstack::text::{decimal_text, parse_u8, IntParseError};

fn info(cidr: &str) -> SubnetInfo {
    compute_subnet_info(cidr.to_string()).expect("a valid CIDR")
}

fn err(cidr: &str) -> CidrError {
    compute_subnet_info(cidr.to_string()).expect_err("an invalid CIDR")
}

fn text(ip: Ipv4Address) -> String {
    ip.to_text()
}

#[test]
fn subnet_of_a_slash_24() {
    let i = info("192.168.1.10/24");
    assert_eq!(i.ip.octets, [192, 168, 1, 10]);
    assert_eq!(i.prefix, 24);
    assert_eq!(text(i.mask), "255.255.255.0");
    assert_eq!(text(i.network_address), "192.168.1.0");
    assert_eq!(text(i.broadcast_address), "192.168.1.255");
    assert_eq!(text(i.host_range.first_usable), "192.168.1.1");
    assert_eq!(text(i.host_range.last_usable), "192.168.1.254");
    assert_eq!(i.host_range.host_count, 254);
}

#[test]
fn subnet_of_a_slash_12() {
    let i = info("172.16.5.4/12");
    assert_eq!(text(i.mask), "255.240.0.0");
    assert_eq!(text(i.network_address), "172.16.0.0");
    assert_eq!(text(i.broadcast_address), "172.31.255.255");
    assert_eq!(text(i.host_range.first_usable), "172.16.0.1");
    assert_eq!(text(i.host_range.last_usable), "172.31.255.254");
    assert_eq!(i.host_range.host_count, (1u32 << 20) - 2);
}

#[test]
fn subnet_of_a_slash_32_is_the_address() {
    let i = info("10.0.0.5/32");
    assert_eq!(text(i.mask), "255.255.255.255");
    assert_eq!(text(i.network_address), "10.0.0.5");
    assert_eq!(text(i.broadcast_address), "10.0.0.5");
    assert_eq!(text(i.host_range.first_usable), "10.0.0.5");
    assert_eq!(text(i.host_range.last_usable), "10.0.0.5");
    assert_eq!(i.host_range.host_count, 1);
}

#[test]
fn subnet_of_a_slash_31_has_two_hosts() {
    let i = info("10.0.0.5/31");
    assert_eq!(text(i.mask), "255.255.255.254");
    assert_eq!(text(i.network_address), "10.0.0.4");
    assert_eq!(text(i.broadcast_address), "10.0.0.5");
    assert_eq!(text(i.host_range.first_usable), "10.0.0.4");
    assert_eq!(text(i.host_range.last_usable), "10.0.0.5");
    assert_eq!(i.host_range.host_count, 2);
}

#[test]
fn subnet_of_a_slash_30() {
    let i = info("10.0.0.6/30");
    assert_eq!(text(i.network_address), "10.0.0.4");
    assert_eq!(text(i.broadcast_address), "10.0.0.7");
    assert_eq!(i.host_range.host_count, 2);
}

#[test]
fn subnet_of_everything() {
    let i = info("8.8.8.8/0");
    assert_eq!(text(i.mask), "0.0.0.0");
    assert_eq!(text(i.network_address), "0.0.0.0");
    assert_eq!(text(i.broadcast_address), "255.255.255.255");
    assert_eq!(text(i.host_range.first_usable), "0.0.0.1");
    assert_eq!(text(i.host_range.last_usable), "255.255.255.254");
    assert_eq!(i.host_range.host_count, 4294967294);
}

#[test]
fn plus_sign_on_the_prefix_is_accepted() {
    assert_eq!(info("10.1.2.3/+8").prefix, 8);
    assert_eq!(info("10.1.2.3/008").prefix, 8);
}

#[test]
fn cidr_without_slash() {
    assert_eq!(err("192.168.1.10"), CidrError::MissingSlash);
    assert_eq!(err(""), CidrError::MissingSlash);
}

#[test]
fn cidr_with_a_bad_address() {
    assert_eq!(err("192.168.1/24"), CidrError::InvalidAddress);
    assert_eq!(err("256.1.1.1/8"), CidrError::InvalidAddress);
    assert_eq!(err("01.2.3.4/8"), CidrError::InvalidAddress);
    assert_eq!(err("1.2.3.4.5/8"), CidrError::InvalidAddress);
    assert_eq!(err(" 1.2.3.4/8"), CidrError::InvalidAddress);
    assert_eq!(err("1.2.3.-4/8"), CidrError::InvalidAddress);
    assert_eq!(err("/8"), CidrError::InvalidAddress);
}

#[test]
fn cidr_with_a_bad_prefix() {
    assert_eq!(err("1.2.3.4/"), CidrError::InvalidPrefix(IntParseError::Empty));
    assert_eq!(err("1.2.3.4/x"), CidrError::InvalidPrefix(IntParseError::InvalidDigit));
    assert_eq!(err("1.2.3.4/+"), CidrError::InvalidPrefix(IntParseError::InvalidDigit));
    assert_eq!(err("1.2.3.4/-1"), CidrError::InvalidPrefix(IntParseError::InvalidDigit));
    assert_eq!(err("1.2.3.4/24/5"), CidrError::InvalidPrefix(IntParseError::InvalidDigit));
    assert_eq!(err("1.2.3.4/300"), CidrError::InvalidPrefix(IntParseError::PosOverflow));
    assert_eq!(err("1.2.3.4/2999x"), CidrError::InvalidPrefix(IntParseError::PosOverflow));
}

#[test]
fn cidr_with_a_prefix_over_32() {
    assert_eq!(err("1.2.3.4/33"), CidrError::PrefixTooLong);
    assert_eq!(err("1.2.3.4/255"), CidrError::PrefixTooLong);
}

#[test]
fn error_messages() {
    assert_eq!(CidrError::MissingSlash.message(), "Invalid CIDR format");
    assert_eq!(
        CidrError::InvalidAddress.message(),
        "Invalid IP address: invalid IPv4 address syntax"
    );
    assert_eq!(
        CidrError::InvalidPrefix(IntParseError::Empty).message(),
        "Invalid prefix: cannot parse integer from empty string"
    );
    assert_eq!(
        CidrError::InvalidPrefix(IntParseError::InvalidDigit).message(),
        "Invalid prefix: invalid digit found in string"
    );
    assert_eq!(
        CidrError::InvalidPrefix(IntParseError::PosOverflow).message(),
        "Invalid prefix: number too large to fit in target type"
    );
    assert_eq!(CidrError::PrefixTooLong.message(), "prefix must be <= 32");
}

#[test]
fn unwrap_cidr_reads_both_parts() {
    let u = unwrap_cidr("10.20.30.40/16".to_string()).unwrap();
    assert_eq!(u.ip.octets, [10, 20, 30, 40]);
    assert_eq!(u.prefix, 16);
}

#[test]
fn prefix_masks() {
    assert_eq!(text(cidr_prefix_to_mask(0)), "0.0.0.0");
    assert_eq!(text(cidr_prefix_to_mask(1)), "128.0.0.0");
    assert_eq!(text(cidr_prefix_to_mask(8)), "255.0.0.0");
    assert_eq!(text(cidr_prefix_to_mask(20)), "255.255.240.0");
    assert_eq!(text(cidr_prefix_to_mask(31)), "255.255.255.254");
    assert_eq!(text(cidr_prefix_to_mask(32)), "255.255.255.255");
}

#[test]
fn network_and_broadcast_by_bits() {
    let ip = Ipv4Address::new(10, 11, 12, 13);
    let mask = Ipv4Address::new(255, 255, 0, 255);
    assert_eq!(text(compute_network_address(ip, mask)), "10.11.0.13");
    assert_eq!(text(compute_broadcast_address(ip, mask)), "10.11.255.13");
}

#[test]
fn host_range_between_two_addresses() {
    let r = compute_host_range(Ipv4Address::new(10, 0, 0, 0), Ipv4Address::new(10, 0, 0, 9));
    assert_eq!(text(r.first_usable), "10.0.0.1");
    assert_eq!(text(r.last_usable), "10.0.0.8");
    assert_eq!(r.host_count, 8);
}

#[test]
fn address_values() {
    assert_eq!(ip_to_u32(Ipv4Address::new(192, 168, 1, 2)), 0xc0a8_0102);
    assert_eq!(Ipv4Address::from_u32(0x0a00_00ff).octets, [10, 0, 0, 255]);
    for v in [0u32, 1, 255, 256, 0x7f00_0001, 0xdead_beef, u32::MAX] {
        assert_eq!(Ipv4Address::from_u32(v).to_u32(), v);
    }
}

#[test]
fn dotted_text_round_trip() {
    for o in [[0u8, 0, 0, 0], [255, 255, 255, 255], [10, 0, 100, 9], [1, 20, 199, 250]] {
        let ip = Ipv4Address::new(o[0], o[1], o[2], o[3]);
        let t = ip.to_text();
        assert_eq!(parse_ipv4(t.as_bytes()).unwrap().octets, o);
    }
    assert_eq!(Ipv4Address::new(10, 0, 100, 9).to_text(), "10.0.100.9");
}

#[test]
fn cidr_text_round_trip() {
    for p in 0u8..=32 {
        let ip = Ipv4Address::new(172, 16, 254, 3);
        let cidr = format!("{}/{}", ip.to_text(), decimal_text(p as u32));
        let u = unwrap_cidr(cidr).unwrap();
        assert_eq!(u.ip.octets, [172, 16, 254, 3]);
        assert_eq!(u.prefix, p);
    }
}

#[test]
fn network_lies_in_block_and_is_shared() {
    let i = info("192.168.77.200/26");
    let net = i.network_address.to_u32();
    let bc = i.broadcast_address.to_u32();
    assert!(net <= 0xc0a8_4dc8 && 0xc0a8_4dc8 <= bc);
    assert_eq!(bc - net + 1, 64);
    assert_eq!(net % 64, 0);
    let other = info(&format!("{}/26", i.host_range.last_usable.to_text()));
    assert_eq!(other.network_address.octets, i.network_address.octets);
    assert_eq!(other.broadcast_address.octets, i.broadcast_address.octets);
    assert_eq!(i.host_range.host_count + 2, 64);
}

#[test]
fn u8_parsing_as_std_does() {
    for s in ["0", "7", "42", "255", "+9", "007", "", "+", "-", "-3", "256", "1a", "a1", "99999", " 1"] {
        let mine = parse_u8(s.as_bytes());
        let std = s.parse::<u8>();
        match (mine, std) {
            (Ok(a), Ok(b)) => assert_eq!(a, b, "{s:?}"),
            (Err(IntParseError::Empty), Err(e)) => {
                assert_eq!(*e.kind(), std::num::IntErrorKind::Empty, "{s:?}")
            }
            (Err(IntParseError::InvalidDigit), Err(e)) => {
                assert_eq!(*e.kind(), std::num::IntErrorKind::InvalidDigit, "{s:?}")
            }
            (Err(IntParseError::PosOverflow), Err(e)) => {
                assert_eq!(*e.kind(), std::num::IntErrorKind::PosOverflow, "{s:?}")
            }
            (a, b) => panic!("{s:?}: {a:?} versus {b:?}"),
        }
    }
}

#[test]
fn ipv4_parsing_of_edge_cases() {
    let cases: [(&str, Option<[u8; 4]>); 16] = [
        ("1.2.3.4", Some([1, 2, 3, 4])),
        ("0.0.0.0", Some([0, 0, 0, 0])),
        ("255.255.255.255", Some([255, 255, 255, 255])),
        ("1.2.3.0", Some([1, 2, 3, 0])),
        ("256.0.0.1", None),
        ("1.2.3", None),
        ("1.2.3.4.", None),
        (".1.2.3.4", None),
        ("01.2.3.4", None),
        ("1.2.3.04", None),
        ("1..3.4", None),
        ("1.2.3.4 ", None),
        ("+1.2.3.4", None),
        ("1234.1.1.1", None),
        ("a.b.c.d", None),
        ("", None),
    ];
    for (s, want) in cases {
        assert_eq!(parse_ipv4(s.as_bytes()).map(|a| a.octets), want, "{s:?}");
    }
}

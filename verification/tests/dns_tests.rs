use netstack::dns::{
    build_dns_query, build_dns_query_with_id, dig, header_to_bytes, hostname_to_bytes,
    question_to_bytes, DnsError, DnsHeader, QCLASS_IN, QTYPE_A,
};
use netstack::udp_client::{UdpAction, UdpStage};

fn header(id: u16) -> DnsHeader {
    DnsHeader {
        id,
        qr: false,
        opcode: 0,
        aa: false,
        tc: false,
        rd: true,
        ra: false,
        z: 0,
        rcode: 0,
        qdcount: 1,
        ancount: 0,
        nscount: 0,
        arcount: 0,
    }
}

/// Reads length-prefixed labels up to the final zero byte.
fn read_labels(w: &[u8]) -> Option<Vec<Vec<u8>>> {
    let mut out = Vec::new();
    let mut i = 0;
    loop {
        let n = *w.get(i)? as usize;
        if n == 0 {
            return if i + 1 == w.len() { Some(out) } else { None };
        }
        if i + 1 + n > w.len() {
            return None;
        }
        out.push(w[i + 1..i + 1 + n].to_vec());
        i += 1 + n;
    }
}

#[test]
fn header_of_a_standard_query() {
    assert_eq!(
        header_to_bytes(&header(0x1234)),
        vec![0x12, 0x34, 0x01, 0x00, 0x00, 0x01, 0x00, 0x00, 0x00, 0x00, 0x00, 0x00]
    );
}

#[test]
fn header_with_every_flag() {
    let h = DnsHeader {
        id: 0xffee,
        qr: true,
        opcode: 2,
        aa: true,
        tc: true,
        rd: true,
        ra: true,
        z: 5,
        rcode: 3,
        qdcount: 0x0102,
        ancount: 0x0304,
        nscount: 0x0506,
        arcount: 0x0708,
    };
    let b = header_to_bytes(&h);
    assert_eq!(b, vec![0xff, 0xee, 0x97, 0xd3, 1, 2, 3, 4, 5, 6, 7, 8]);
    let flags = u16::from_be_bytes([b[2], b[3]]);
    assert_eq!(flags >> 15 & 1, 1);
    assert_eq!(flags >> 11 & 15, 2);
    assert_eq!(flags >> 4 & 7, 5);
    assert_eq!(flags & 15, 3);
}

#[test]
fn header_with_wide_fields_spills_over() {
    let mut h = header(0);
    h.rd = false;
    h.opcode = 0x1f;
    h.z = 0xff;
    h.rcode = 0xff;
    let b = header_to_bytes(&h);
    assert_eq!(u16::from_be_bytes([b[2], b[3]]), (0x1fu16 << 11) | (0xffu16 << 4) | 0xff);
}

#[test]
fn name_of_a_host() {
    let mut want = vec![3];
    want.extend_from_slice(b"www");
    want.push(7);
    want.extend_from_slice(b"example");
    want.push(3);
    want.extend_from_slice(b"com");
    want.push(0);
    assert_eq!(hostname_to_bytes("www.example.com").unwrap(), want);
}

#[test]
fn names_with_empty_labels() {
    assert_eq!(hostname_to_bytes("").unwrap(), vec![0, 0]);
    assert_eq!(hostname_to_bytes("a.").unwrap(), vec![1, b'a', 0, 0]);
    assert_eq!(hostname_to_bytes("a..b").unwrap(), vec![1, b'a', 0, 1, b'b', 0]);
    assert_eq!(hostname_to_bytes(".").unwrap(), vec![0, 0, 0]);
}

#[test]
fn label_length_limit() {
    let ok = "a".repeat(63);
    let w = hostname_to_bytes(&format!("{ok}.com")).unwrap();
    assert_eq!(w[0], 63);
    assert_eq!(w.len(), 63 + 4 + 2);
    let long = "b".repeat(64);
    assert_eq!(hostname_to_bytes(&format!("x.{long}.com")), Err(DnsError::LabelTooLong));
    assert_eq!(DnsError::LabelTooLong.message(), "Label is too long");
}

#[test]
fn labels_count_bytes_not_characters() {
    let w = hostname_to_bytes("é.de").unwrap();
    assert_eq!(w, vec![2, 0xc3, 0xa9, 2, b'd', b'e', 0]);
    let many = "é".repeat(32);
    assert_eq!(hostname_to_bytes(&many), Err(DnsError::LabelTooLong));
}

#[test]
fn name_is_two_bytes_longer_and_reads_back() {
    for name in ["example.com", "a.b.c.d.e", "localhost", "x", "mail.google.co.uk"] {
        let w = hostname_to_bytes(name).unwrap();
        assert_eq!(w.len(), name.len() + 2);
        assert_eq!(*w.last().unwrap(), 0);
        let labels = read_labels(&w).unwrap();
        let joined: Vec<&str> = labels.iter().map(|l| std::str::from_utf8(l).unwrap()).collect();
        assert_eq!(joined.join("."), name);
    }
}

#[test]
fn question_for_a_name() {
    assert_eq!(
        question_to_bytes("a.b", 28, 3).unwrap(),
        vec![1, b'a', 1, b'b', 0, 0, 28, 0, 3]
    );
    assert_eq!(question_to_bytes(&"c".repeat(70), 1, 1), Err(DnsError::LabelTooLong));
}

#[test]
fn query_with_a_given_id() {
    let q = build_dns_query_with_id("example.com", 0xabcd).unwrap();
    let mut want = vec![0xab, 0xcd, 0x01, 0x00, 0, 1, 0, 0, 0, 0, 0, 0];
    want.extend(hostname_to_bytes("example.com").unwrap());
    want.extend([0, QTYPE_A as u8, 0, QCLASS_IN as u8]);
    assert_eq!(q, want);
    assert_eq!(q.len(), "example.com".len() + 18);
}

#[test]
fn query_with_the_clock_as_id() {
    let q = build_dns_query("example.com").unwrap();
    let id = u16::from_be_bytes([q[0], q[1]]);
    assert_eq!(q, build_dns_query_with_id("example.com", id).unwrap());
    assert_eq!(build_dns_query(&"d".repeat(64)), Err(DnsError::LabelTooLong));
}

#[test]
fn dig_asks_the_public_resolver() {
    let (q, x, a) = dig("example.org".to_string()).unwrap();
    assert_eq!(q.len(), "example.org".len() + 18);
    assert_eq!(&q[2..], &build_dns_query_with_id("example.org", 0).unwrap()[2..]);
    assert_eq!(x.host, "8.8.8.8");
    assert_eq!(x.port, 53);
    assert_eq!(x.message, q);
    assert!(x.setup_failure_is_fatal);
    assert_eq!(x.stage, UdpStage::Opening);
    assert!(matches!(a, UdpAction::OpenSocket));
    assert_eq!(dig("e".repeat(80)).unwrap_err(), DnsError::LabelTooLong);
}

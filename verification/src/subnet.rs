//! Subnet arithmetic for an IPv4 address in CIDR notation (`a.b.c.d/p`):
//! netmask, network and broadcast addresses, and the usable host range.
use vstd::prelude::*;
use vstd::arithmetic::power2::{pow2, lemma2_to64, lemma_pow2_pos, lemma_pow2_strictly_increases};
use vstd::bits::{low_bits_mask, lemma_u64_low_bits_mask_is_mod, lemma_u64_shl_is_mul};
use vstd::utf8::{encode_utf8, is_ascii_chars};
use vstd::arithmetic::div_mod::{lemma_fundamental_div_mod, lemma_fundamental_div_mod_converse_mod};
use vstd::arithmetic::power2::lemma_pow2_adds;
use crate::ipv4::{dotted, law_dotted_text_parses_back, parse_ipv4, parse_ipv4_spec, ip_to_u32, Ipv4Address};
use crate::text::{
    ascii_bytes, decimal, decimal_bytes, is_ascii_digit, law_decimal_parses_back, lemma_decimal_shape,
    lemma_encode_ascii, lemma_split_concat, lemma_split_first_piece, lemma_split_without_separator,
    parse_u8, parse_u8_spec, split_bytes, split_on, views, IntParseError, SLASH,
};

verus! {

/// Why a text is not an IPv4 address in CIDR notation.
#[derive(Clone, Copy, Debug, PartialEq, Eq, Structural)]
pub enum CidrError {
    /// The text has no `/`.
    MissingSlash,
    /// The part before the first `/` is not a dotted-decimal IPv4 address.
    InvalidAddress,
    /// The part after the first `/` is not a `u8` in decimal notation.
    InvalidPrefix(IntParseError),
    /// The prefix length is larger than 32.
    PrefixTooLong,
}

/// The text that reports `e`.
pub open spec fn cidr_error_message(e: CidrError) -> Seq<char> {
    match e {
        CidrError::MissingSlash => "Invalid CIDR format"@,
        CidrError::InvalidAddress => "Invalid IP address: invalid IPv4 address syntax"@,
        CidrError::InvalidPrefix(IntParseError::Empty) =>
            "Invalid prefix: cannot parse integer from empty string"@,
        CidrError::InvalidPrefix(IntParseError::InvalidDigit) =>
            "Invalid prefix: invalid digit found in string"@,
        CidrError::InvalidPrefix(IntParseError::PosOverflow) =>
            "Invalid prefix: number too large to fit in target type"@,
        CidrError::PrefixTooLong => "prefix must be <= 32"@,
    }
}

impl CidrError {
    /// The text that reports this error.
    pub fn message(&self) -> (r: String)
        ensures
            r@ == cidr_error_message(*self),
    {
        match self {
            CidrError::MissingSlash => String::from_str("Invalid CIDR format"),
            CidrError::InvalidAddress => String::from_str(
                "Invalid IP address: invalid IPv4 address syntax",
            ),
            CidrError::InvalidPrefix(IntParseError::Empty) => String::from_str(
                "Invalid prefix: cannot parse integer from empty string",
            ),
            CidrError::InvalidPrefix(IntParseError::InvalidDigit) => String::from_str(
                "Invalid prefix: invalid digit found in string",
            ),
            CidrError::InvalidPrefix(IntParseError::PosOverflow) => String::from_str(
                "Invalid prefix: number too large to fit in target type",
            ),
            CidrError::PrefixTooLong => String::from_str("prefix must be <= 32"),
        }
    }
}

/// An address and a prefix length read from CIDR notation.
#[derive(Clone, Copy, Debug)]
pub struct UnwrappedCidr {
    pub ip: Ipv4Address,
    pub prefix: u8,
}

/// CIDR notation: the text before the first `/` is a dotted-decimal address
/// (see `parse_ipv4_spec`), the text after it a `u8` (see `parse_u8_spec`)
/// of at most 32. The errors are checked in that order.
pub open spec fn unwrap_cidr_spec(s: Seq<u8>) -> Result<UnwrappedCidr, CidrError> {
    let parts = split_on(s, SLASH);
    if parts.len() < 2 {
        Err(CidrError::MissingSlash)
    } else {
        let address = parts[0];
        let prefix = s.skip(address.len() + 1 as int);
        match parse_ipv4_spec(address) {
            None => Err(CidrError::InvalidAddress),
            Some(ip) => match parse_u8_spec(prefix) {
                Err(e) => Err(CidrError::InvalidPrefix(e)),
                Ok(p) => if p > 32 {
                    Err(CidrError::PrefixTooLong)
                } else {
                    Ok(UnwrappedCidr { ip, prefix: p })
                },
            },
        }
    }
}

/// Reads an address and a prefix length from CIDR notation.
pub fn unwrap_cidr(cidr: String) -> (r: Result<UnwrappedCidr, CidrError>)
    ensures
        r == unwrap_cidr_spec(encode_utf8(cidr@)),
{
    let bytes = cidr.as_str().as_bytes();
    let parts = split_bytes(bytes, SLASH);
    if parts.len() < 2 {
        return Err(CidrError::MissingSlash);
    }
    let n = parts[0].len();
    let total = bytes.len();
    proof {
        lemma_split_first_piece(bytes@, SLASH);
        assert(views(parts@)[0] == parts[0]@);
        assert(n < bytes@.len());
    }
    let (_, rest) = bytes.split_at(n + 1);
    assert(rest@ =~= bytes@.skip(n + 1));
    let ip = match parse_ipv4(parts[0].as_slice()) {
        Some(ip) => ip,
        None => return Err(CidrError::InvalidAddress),
    };
    let prefix = match parse_u8(rest) {
        Ok(p) => p,
        Err(e) => return Err(CidrError::InvalidPrefix(e)),
    };
    if prefix > 32 {
        return Err(CidrError::PrefixTooLong);
    }
    Ok(UnwrappedCidr { ip, prefix })
}

/// The number of addresses in a block with the given prefix length.
pub open spec fn block_size(prefix: nat) -> nat {
    pow2((32 - prefix) as nat)
}

/// The netmask of a prefix length: the 32-bit number whose `prefix` leading
/// bits are ones and whose other bits are zeros.
pub open spec fn mask_value(prefix: nat) -> int {
    pow2(32) - block_size(prefix)
}

/// The network address of `ip`: the first address of the aligned block of
/// `block_size(prefix)` addresses that holds `ip`.
pub open spec fn network_of(ip: nat, prefix: nat) -> int {
    ip - ip % block_size(prefix)
}

/// The broadcast address of `ip`: the last address of that block.
pub open spec fn broadcast_of(ip: nat, prefix: nat) -> int {
    network_of(ip, prefix) + block_size(prefix) - 1
}

/// The netmask of a prefix length as an address.
pub fn cidr_prefix_to_mask(prefix: u8) -> (r: Ipv4Address)
    requires
        prefix <= 32,
    ensures
        r.value() == mask_value(prefix as nat),
{
    proof {
        lemma2_to64();
    }
    if prefix == 0 {
        return Ipv4Address::from_u32(0);
    }
    let k: u32 = (32 - prefix) as u32;
    let mask: u32 = u32::MAX << k;
    proof {
        let kk = k as u64;
        assert((mask as u64) + (1u64 << kk) == 0x1_0000_0000u64) by (bit_vector)
            requires
                kk < 32,
                mask == 0xffff_ffffu32 << (kk as u32),
        ;
        vstd::bits::lemma_u64_pow2_no_overflow(kk as nat);
        lemma_u64_shl_is_mul(1u64, kk);
    }
    Ipv4Address::from_u32(mask)
}

/// Law: bit `i` of the netmask of `prefix` is set exactly when `i` is one of
/// the `prefix` most significant bits.
pub proof fn law_mask_bits(prefix: nat, i: u32)
    requires
        prefix <= 32,
        i < 32,
    ensures
        ((mask_value(prefix) as u32 >> i) & 1 == 1) <==> i + prefix >= 32,
{
    lemma2_to64();
    let k = (32 - prefix) as nat;
    lemma_pow2_pos(k);
    if k < 32 {
        lemma_pow2_strictly_increases(k, 32);
    }
    let kk = k as u64;
    vstd::bits::lemma_u64_pow2_no_overflow(k);
    lemma_u64_shl_is_mul(1u64, kk);
    let m: u32 = mask_value(prefix) as u32;
    assert(m as u64 + (1u64 << kk) == 0x1_0000_0000u64);
    let ii = i as u64;
    assert(((m >> i) & 1 == 1) <==> ii >= kk) by (bit_vector)
        requires
            kk <= 32,
            ii < 32,
            ii == i as u64,
            m as u64 + (1u64 << kk) == 0x1_0000_0000u64,
    ;
}

/// The facts of bit arithmetic behind the network and broadcast addresses:
/// with the netmask of `prefix`, the bitwise and of `ip` is the start of
/// its block, and the bitwise or of that with the inverted mask is the end.
pub proof fn lemma_mask_arithmetic(ip: u32, prefix: nat)
    requires
        prefix <= 32,
    ensures
        mask_value(prefix) < pow2(32),
        block_size(prefix) >= 1,
        (ip & (mask_value(prefix) as u32)) as nat == network_of(ip as nat, prefix),
        ((ip & (mask_value(prefix) as u32)) | !(mask_value(prefix) as u32)) as nat
            == broadcast_of(ip as nat, prefix),
{
    lemma2_to64();
    let k = (32 - prefix) as nat;
    lemma_pow2_pos(k);
    if k < 32 {
        lemma_pow2_strictly_increases(k, 32);
    }
    let kk = k as u64;
    vstd::bits::lemma_u64_pow2_no_overflow(k);
    lemma_u64_shl_is_mul(1u64, kk);
    let b: u64 = 1u64 << kk;
    assert(b as nat == pow2(k));
    let m: u32 = mask_value(prefix) as u32;
    assert(m as u64 == 0x1_0000_0000u64 - b);
    let x: u64 = ip as u64;
    let lm: u64 = (b - 1) as u64;
    let net: u32 = ip & m;
    let bc: u32 = net | !m;
    assert(net as u64 == x - (x & lm) && bc as u64 == (x - (x & lm)) + lm)
        by (bit_vector)
        requires
            kk <= 32,
            b == 1u64 << kk,
            lm + 1 == b,
            m as u64 == 0x1_0000_0000u64 - b,
            x == ip as u64,
            net == ip & m,
            bc == net | !m,
    ;
    lemma_u64_low_bits_mask_is_mod(x, k);
    assert(low_bits_mask(k) == pow2(k) - 1);
    assert(lm == low_bits_mask(k) as u64);
    assert(x & lm == x % (pow2(k) as u64));
}

/// The network address of `ip` under `mask`: their bitwise and.
pub fn compute_network_address(ip: Ipv4Address, mask: Ipv4Address) -> (r: Ipv4Address)
    ensures
        r.value() == (ip.value() as u32 & mask.value() as u32) as nat,
{
    let ip_u32: u32 = ip_to_u32(ip);
    let mask_u32: u32 = ip_to_u32(mask);
    let network_u32: u32 = ip_u32 & mask_u32;
    Ipv4Address::from_u32(network_u32)
}

/// The broadcast address of a network under `mask`: the network address
/// with every bit outside the mask set.
pub fn compute_broadcast_address(network_address: Ipv4Address, mask: Ipv4Address) -> (r:
    Ipv4Address)
    ensures
        r.value() == (network_address.value() as u32 | !(mask.value() as u32)) as nat,
{
    let network_u32: u32 = ip_to_u32(network_address);
    let mask_u32: u32 = ip_to_u32(mask);
    let broadcast_u32: u32 = network_u32 | !mask_u32;
    Ipv4Address::from_u32(broadcast_u32)
}

/// The addresses of a network that can be given to hosts.
#[derive(Clone, Copy, Debug)]
pub struct HostRange {
    pub first_usable: Ipv4Address,
    pub last_usable: Ipv4Address,
    pub host_count: u32,
}

/// The addresses strictly between the network and the broadcast address.
pub fn compute_host_range(network_address: Ipv4Address, broadcast_address: Ipv4Address) -> (r:
    HostRange)
    requires
        network_address.value() + 2 <= broadcast_address.value(),
    ensures
        r.first_usable.value() == network_address.value() + 1,
        r.last_usable.value() == broadcast_address.value() - 1,
        r.host_count == broadcast_address.value() - network_address.value() - 1,
{
    let network_u32: u32 = ip_to_u32(network_address);
    let broadcast_u32: u32 = ip_to_u32(broadcast_address);
    let first_usable_u32: u32 = network_u32 + 1;
    let last_usable_u32: u32 = broadcast_u32 - 1;
    let host_count: u32 = (last_usable_u32 - first_usable_u32 + 1) as u32;
    HostRange {
        first_usable: Ipv4Address::from_u32(first_usable_u32),
        last_usable: Ipv4Address::from_u32(last_usable_u32),
        host_count,
    }
}

/// Everything that is worked out of an address in CIDR notation.
#[derive(Clone, Copy, Debug)]
pub struct SubnetInfo {
    pub ip: Ipv4Address,
    pub prefix: u8,
    pub mask: Ipv4Address,
    pub network_address: Ipv4Address,
    pub broadcast_address: Ipv4Address,
    pub host_range: HostRange,
}

/// `info` is the subnet information of `ip` with the prefix length `prefix`:
/// its netmask, network and broadcast addresses, and host range; a `/32`
/// network holds the address itself as its one host, a `/31` network both
/// of its addresses, a wider network all but its first and last address.
pub open spec fn describes(info: SubnetInfo, ip: Ipv4Address, prefix: nat) -> bool {
    let net = network_of(ip.value(), prefix);
    let bc = broadcast_of(ip.value(), prefix);
    &&& info.ip == ip
    &&& info.prefix == prefix
    &&& info.mask.value() == mask_value(prefix)
    &&& info.network_address.value() == net
    &&& info.broadcast_address.value() == bc
    &&& if prefix == 32 {
        &&& info.host_range.first_usable == ip
        &&& info.host_range.last_usable == ip
        &&& info.host_range.host_count == 1
    } else if prefix == 31 {
        &&& info.host_range.first_usable.value() == net
        &&& info.host_range.last_usable.value() == bc
        &&& info.host_range.host_count == 2
    } else {
        &&& info.host_range.first_usable.value() == net + 1
        &&& info.host_range.last_usable.value() == bc - 1
        &&& info.host_range.host_count == bc - net - 1
    }
}

/// The subnet information of an address in CIDR notation, or why the text
/// is not one.
pub fn compute_subnet_info(cidr: String) -> (r: Result<SubnetInfo, CidrError>)
    ensures
        match unwrap_cidr_spec(encode_utf8(cidr@)) {
            Err(e) => r == Err::<SubnetInfo, CidrError>(e),
            Ok(u) => r is Ok && describes(r->Ok_0, u.ip, u.prefix as nat),
        },
{
    let unwrapped: UnwrappedCidr = unwrap_cidr(cidr)?;
    let cidr_mask: Ipv4Address = cidr_prefix_to_mask(unwrapped.prefix);
    let network_address: Ipv4Address = compute_network_address(unwrapped.ip, cidr_mask);
    let broadcast_address: Ipv4Address = compute_broadcast_address(network_address, cidr_mask);
    proof {
        let ipv = unwrapped.ip.value();
        assert(ipv < pow2(32)) by {
            lemma2_to64();
        }
        lemma_mask_arithmetic(ipv as u32, unwrapped.prefix as nat);
        assert(cidr_mask.value() as u32 == mask_value(unwrapped.prefix as nat) as u32);
        assert(network_address.value() == network_of(ipv, unwrapped.prefix as nat));
    }
    let host_range: HostRange = if unwrapped.prefix == 32 {
        HostRange { first_usable: unwrapped.ip, last_usable: unwrapped.ip, host_count: 1 }
    } else if unwrapped.prefix == 31 {
        HostRange { first_usable: network_address, last_usable: broadcast_address, host_count: 2 }
    } else {
        proof {
            lemma2_to64();
            if unwrapped.prefix < 30 {
                lemma_pow2_strictly_increases(2, (32 - unwrapped.prefix) as nat);
            }
        }
        compute_host_range(network_address, broadcast_address)
    };
    Ok(
        SubnetInfo {
            ip: unwrapped.ip,
            prefix: unwrapped.prefix,
            mask: cidr_mask,
            network_address,
            broadcast_address,
            host_range,
        },
    )
}

/// The value of every address is below 2^32.
pub proof fn lemma_address_fits(ip: Ipv4Address)
    ensures
        ip.value() < pow2(32),
{
    lemma2_to64();
}

/// Law: an address lies in its block, which starts at a multiple of the
/// block size and ends within the 32-bit address space.
pub proof fn law_block_holds_address(ip: nat, prefix: nat)
    requires
        prefix <= 32,
        ip < pow2(32),
    ensures
        0 <= network_of(ip, prefix) <= ip <= broadcast_of(ip, prefix) < pow2(32),
        network_of(ip, prefix) % (block_size(prefix) as int) == 0,
        broadcast_of(ip, prefix) - network_of(ip, prefix) + 1 == block_size(prefix),
{
    let k = (32 - prefix) as nat;
    let b = block_size(prefix) as int;
    lemma_pow2_pos(k);
    lemma_pow2_pos(prefix);
    lemma_pow2_adds(k, prefix);
    assert(k + prefix == 32);
    let big = pow2(prefix) as int;
    assert(pow2(32) == b * big);
    lemma_fundamental_div_mod(ip as int, b);
    let q = (ip as int) / b;
    let r = (ip as int) % b;
    assert(0 <= r < b);
    assert(network_of(ip, prefix) == b * q);
    assert(0 <= q && q + 1 <= big) by (nonlinear_arith)
        requires
            b > 0,
            0 <= r < b,
            ip as int == b * q + r,
            0 <= ip,
            ip < b * big,
    ;
    assert(b * (q + 1) <= b * big) by (nonlinear_arith)
        requires
            b > 0,
            q + 1 <= big,
    ;
    assert(b * (q + 1) == b * q + b) by (nonlinear_arith);
    assert(b * q == q * b + 0) by (nonlinear_arith);
    lemma_fundamental_div_mod_converse_mod(b * q, b, q, 0);
}

/// Law: every address between the network and the broadcast address of
/// `ip` has the same network address; in particular the network address is
/// its own network address.
pub proof fn law_same_block(ip: nat, other: nat, prefix: nat)
    requires
        prefix <= 32,
        ip < pow2(32),
        network_of(ip, prefix) <= other <= broadcast_of(ip, prefix),
    ensures
        network_of(other, prefix) == network_of(ip, prefix),
        broadcast_of(other, prefix) == broadcast_of(ip, prefix),
{
    let k = (32 - prefix) as nat;
    let b = block_size(prefix) as int;
    lemma_pow2_pos(k);
    lemma_fundamental_div_mod(ip as int, b);
    let q = (ip as int) / b;
    let r = other - b * q;
    assert(network_of(ip, prefix) == b * q);
    assert(0 <= r < b);
    assert(other == q * b + r) by (nonlinear_arith)
        requires
            r == other - b * q,
    ;
    lemma_fundamental_div_mod_converse_mod(other as int, b, q, r);
}

/// Law: the usable hosts of a subnet lie between its network and broadcast
/// addresses and are counted exactly: all but those two addresses for a
/// prefix of at most 30, every address of the block for `/31` and `/32`.
pub proof fn law_host_range(info: SubnetInfo, ip: Ipv4Address, prefix: nat)
    requires
        prefix <= 32,
        describes(info, ip, prefix),
    ensures
        info.network_address.value() <= info.host_range.first_usable.value(),
        info.host_range.first_usable.value() <= info.host_range.last_usable.value(),
        info.host_range.last_usable.value() <= info.broadcast_address.value(),
        info.host_range.host_count == info.host_range.last_usable.value()
            - info.host_range.first_usable.value() + 1,
        prefix <= 30 ==> info.host_range.host_count + 2 == block_size(prefix),
        prefix <= 30 ==> info.network_address.value() < info.host_range.first_usable.value(),
        prefix <= 30 ==> info.host_range.last_usable.value() < info.broadcast_address.value(),
        prefix >= 31 ==> info.host_range.host_count == block_size(prefix),
        info.mask.value() + block_size(prefix) == pow2(32),
{
    lemma_address_fits(ip);
    law_block_holds_address(ip.value(), prefix);
    lemma2_to64();
    if prefix <= 29 {
        lemma_pow2_strictly_increases(2, (32 - prefix) as nat);
    }
}

/// Law: the text of an address, a `/` and a prefix length of at most 32 in
/// decimal reads back as that address and prefix length.
pub proof fn law_cidr_text_parses_back(ip: Ipv4Address, prefix: u8)
    requires
        prefix <= 32,
    ensures
        unwrap_cidr_spec(encode_utf8(dotted(ip) + seq!['/'] + decimal(prefix as nat)))
            == Ok::<UnwrappedCidr, CidrError>(UnwrappedCidr { ip, prefix }),
{
    let d = dotted(ip);
    let p = decimal(prefix as nat);
    law_dotted_text_parses_back(ip);
    lemma_decimal_shape(prefix as nat);
    law_decimal_parses_back(prefix as nat);
    let t = d + seq!['/'];
    assert(is_ascii_chars(t));
    vstd::utf8::is_ascii_chars_concat(t + p, t, p);
    lemma_encode_ascii(t + p);
    let a = ascii_bytes(d);
    let pb = decimal_bytes(prefix as nat);
    let bytes = a.push(SLASH) + pb;
    assert(ascii_bytes(t + p) =~= bytes);
    assert forall|i: int| 0 <= i < a.len() implies a[i] != SLASH by {
        assert(a[i] == crate::text::DOT || is_ascii_digit(a[i]));
    }
    assert forall|i: int| 0 <= i < pb.len() implies pb[i] != SLASH by {
        assert(is_ascii_digit(pb[i]));
    }
    lemma_split_without_separator(a, SLASH);
    lemma_split_without_separator(pb, SLASH);
    lemma_split_concat(a, pb, SLASH);
    assert(split_on(bytes, SLASH) =~= seq![a, pb]);
    assert(bytes.skip(a.len() + 1 as int) =~= pb);
}


/// Law: the subnet information places the given address in its block: the
/// network address is at most the address and a multiple of the block size
/// 2^(32 - prefix), the broadcast address is at least the address and closes
/// a block of that size, and the netmask and the block size add up to 2^32.
pub proof fn law_subnet_holds_address(info: SubnetInfo, ip: Ipv4Address, prefix: nat)
    requires
        prefix <= 32,
        describes(info, ip, prefix),
    ensures
        info.ip == ip,
        info.network_address.value() <= ip.value() <= info.broadcast_address.value(),
        info.network_address.value() % pow2((32 - prefix) as nat) == 0,
        info.broadcast_address.value() - info.network_address.value() + 1 == pow2(
            (32 - prefix) as nat,
        ),
        info.mask.value() + pow2((32 - prefix) as nat) == pow2(32),
{
    lemma_address_fits(ip);
    law_block_holds_address(ip.value(), prefix);
}

} // verus!

//! IPv4 addresses: their 32-bit value, their dotted-decimal text, and the
//! dotted-decimal grammar of `Ipv4Addr::from_str`.
use vstd::prelude::*;
use vstd::utf8::{encode_utf8, is_ascii_chars};
use crate::text::{
    accumulate_digits, accumulate_u8, ascii_bytes, decimal, decimal_bytes, decimal_text,
    law_decimal_parses_back, lemma_decimal_shape, lemma_encode_ascii, lemma_split_concat,
    lemma_split_without_separator, split_bytes, split_on, views, is_ascii_digit, DOT, ZERO,
};

verus! {

/// An IPv4 address as its four octets, most significant first.
#[derive(Clone, Copy, Debug)]
pub struct Ipv4Address {
    pub octets: [u8; 4],
}

impl Ipv4Address {
    /// The address as a number: its octets read as a big-endian base-256 numeral.
    pub open spec fn value(self) -> nat {
        self.octets[0] as nat * 16777216 + self.octets[1] as nat * 65536 + self.octets[2] as nat
            * 256 + self.octets[3] as nat
    }

    /// The address with the given octets.
    pub fn new(a: u8, b: u8, c: u8, d: u8) -> (r: Self)
        ensures
            r.octets[0] == a,
            r.octets[1] == b,
            r.octets[2] == c,
            r.octets[3] == d,
    {
        Ipv4Address { octets: [a, b, c, d] }
    }

    /// The 32-bit value of the address (what `u32::from(Ipv4Addr)` gives).
    pub fn to_u32(&self) -> (r: u32)
        ensures
            r as nat == self.value(),
    {
        let a = self.octets[0] as u32;
        let b = self.octets[1] as u32;
        let c = self.octets[2] as u32;
        let d = self.octets[3] as u32;
        let r = (a << 24) | (b << 16) | (c << 8) | d;
        assert(r == a * 16777216 + b * 65536 + c * 256 + d) by (bit_vector)
            requires
                a < 256,
                b < 256,
                c < 256,
                d < 256,
                r == (a << 24) | (b << 16) | (c << 8) | d,
        ;
        r
    }

    /// The address whose 32-bit value is `v` (what `Ipv4Addr::from(u32)` gives).
    pub fn from_u32(v: u32) -> (r: Self)
        ensures
            r.value() == v as nat,
    {
        let a = v >> 24;
        let b = (v >> 16) & 0xff;
        let c = (v >> 8) & 0xff;
        let d = v & 0xff;
        assert(a < 256 && b < 256 && c < 256 && d < 256 && v == a * 16777216 + b * 65536 + c
            * 256 + d) by (bit_vector)
            requires
                a == v >> 24,
                b == (v >> 16) & 0xff,
                c == (v >> 8) & 0xff,
                d == v & 0xff,
        ;
        Ipv4Address { octets: [a as u8, b as u8, c as u8, d as u8] }
    }

    /// The dotted-decimal text of the address (what `Ipv4Addr`'s `Display` prints).
    pub fn to_text(&self) -> (r: String)
        ensures
            r@ == dotted(*self),
    {
        proof {
            reveal_strlit(".");
        }
        let mut s = decimal_text(self.octets[0] as u32);
        s.append(".");
        s.append(decimal_text(self.octets[1] as u32).as_str());
        s.append(".");
        s.append(decimal_text(self.octets[2] as u32).as_str());
        s.append(".");
        s.append(decimal_text(self.octets[3] as u32).as_str());
        assert(s@ =~= dotted(*self));
        s
    }
}

/// The dotted-decimal text of `ip`: its four octets in decimal, separated by dots.
pub open spec fn dotted(ip: Ipv4Address) -> Seq<char> {
    decimal(ip.octets[0] as nat) + seq!['.'] + decimal(ip.octets[1] as nat) + seq!['.']
        + decimal(ip.octets[2] as nat) + seq!['.'] + decimal(ip.octets[3] as nat)
}

/// The value of an address given by its 32 bits.
pub fn ip_to_u32(ip: Ipv4Address) -> (r: u32)
    ensures
        r as nat == ip.value(),
{
    ip.to_u32()
}

/// One octet of a dotted-decimal address: one to three digits, no leading
/// zero unless the octet is `0`, and a value of at most 255.
pub open spec fn octet_spec(s: Seq<u8>) -> Option<u8> {
    if 1 <= s.len() <= 3 && (s.len() == 1 || s[0] != ZERO) {
        match accumulate_u8(0, s) {
            Ok(v) => Some(v),
            Err(_) => None,
        }
    } else {
        None
    }
}

/// The grammar of `Ipv4Addr::from_str`: exactly four octets separated by dots.
pub open spec fn parse_ipv4_spec(s: Seq<u8>) -> Option<Ipv4Address> {
    let parts = split_on(s, DOT);
    if parts.len() == 4 && octet_spec(parts[0]) is Some && octet_spec(parts[1]) is Some
        && octet_spec(parts[2]) is Some && octet_spec(parts[3]) is Some {
        Some(
            Ipv4Address {
                octets: [
                    octet_spec(parts[0])->0,
                    octet_spec(parts[1])->0,
                    octet_spec(parts[2])->0,
                    octet_spec(parts[3])->0,
                ],
            },
        )
    } else {
        None
    }
}

/// Reads one octet (see `octet_spec`).
fn parse_octet(s: &[u8]) -> (r: Option<u8>)
    ensures
        r == octet_spec(s@),
{
    if s.len() < 1 || s.len() > 3 || (s.len() > 1 && s[0] == ZERO) {
        return None;
    }
    assert(s@.skip(0) =~= s@);
    match accumulate_digits(s, 0) {
        Ok(v) => Some(v),
        Err(_) => None,
    }
}

/// Parses a dotted-decimal IPv4 address from the bytes of a text.
pub fn parse_ipv4(s: &[u8]) -> (r: Option<Ipv4Address>)
    ensures
        r == parse_ipv4_spec(s@),
{
    let parts = split_bytes(s, DOT);
    if parts.len() != 4 {
        return None;
    }
    let ghost p = views(parts@);
    let a = parse_octet(parts[0].as_slice());
    let b = parse_octet(parts[1].as_slice());
    let c = parse_octet(parts[2].as_slice());
    let d = parse_octet(parts[3].as_slice());
    match (a, b, c, d) {
        (Some(a), Some(b), Some(c), Some(d)) => Some(Ipv4Address { octets: [a, b, c, d] }),
        _ => None,
    }
}

/// Two addresses with the same value are the same address.
pub proof fn law_value_identifies_address(x: Ipv4Address, y: Ipv4Address)
    requires
        x.value() == y.value(),
    ensures
        x == y,
{
    let (a0, a1, a2, a3) = (x.octets[0] as int, x.octets[1] as int, x.octets[2] as int, x.octets[3] as int);
    let (b0, b1, b2, b3) = (y.octets[0] as int, y.octets[1] as int, y.octets[2] as int, y.octets[3] as int);
    assert(a0 == b0 && a1 == b1 && a2 == b2 && a3 == b3) by (nonlinear_arith)
        requires
            0 <= a0 < 256, 0 <= a1 < 256, 0 <= a2 < 256, 0 <= a3 < 256,
            0 <= b0 < 256, 0 <= b1 < 256, 0 <= b2 < 256, 0 <= b3 < 256,
            a0 * 16777216 + a1 * 65536 + a2 * 256 + a3 == b0 * 16777216 + b1 * 65536 + b2 * 256 + b3,
    ;
    assert(x.octets =~= y.octets);
}

/// The ASCII bytes of a concatenation are the concatenation of the ASCII bytes.
proof fn lemma_ascii_bytes_concat(a: Seq<char>, b: Seq<char>)
    ensures
        ascii_bytes(a + b) == ascii_bytes(a) + ascii_bytes(b),
{
    assert(ascii_bytes(a + b) =~= ascii_bytes(a) + ascii_bytes(b));
}

/// The text of one octet followed by a dot, as bytes.
proof fn lemma_octet_then_dot(prefix: Seq<char>, o: u8)
    requires
        is_ascii_chars(prefix),
    ensures
        is_ascii_chars(prefix + seq!['.'] + decimal(o as nat)),
        ascii_bytes(prefix + seq!['.'] + decimal(o as nat)) == ascii_bytes(prefix).push(DOT)
            + decimal_bytes(o as nat),
{
    lemma_decimal_shape(o as nat);
    let t = prefix + seq!['.'];
    assert(is_ascii_chars(t));
    vstd::utf8::is_ascii_chars_concat(t + decimal(o as nat), t, decimal(o as nat));
    lemma_ascii_bytes_concat(prefix, seq!['.']);
    assert(ascii_bytes(seq!['.']) =~= seq![DOT]);
    assert(ascii_bytes(prefix) + seq![DOT] =~= ascii_bytes(prefix).push(DOT));
    lemma_ascii_bytes_concat(t, decimal(o as nat));
}

/// The digits of an octet read back as that octet.
proof fn lemma_octet_text_parses(o: u8)
    ensures
        octet_spec(decimal_bytes(o as nat)) == Some(o),
        forall|i: int| 0 <= i < decimal_bytes(o as nat).len() ==> is_ascii_digit(
            #[trigger] decimal_bytes(o as nat)[i],
        ),
{
    lemma_decimal_shape(o as nat);
    law_decimal_parses_back(o as nat);
}

/// Every byte of `s` is a digit or a dot.
pub open spec fn digits_and_dots(s: Seq<u8>) -> bool {
    forall|i: int| 0 <= i < s.len() ==> #[trigger] s[i] == DOT || is_ascii_digit(s[i])
}

/// Joining two texts of digits and dots with a dot gives one.
proof fn lemma_digits_and_dots(a: Seq<u8>, b: Seq<u8>)
    requires
        digits_and_dots(a),
        digits_and_dots(b),
    ensures
        digits_and_dots(a.push(DOT) + b),
{
    let x = a.push(DOT) + b;
    assert forall|i: int| 0 <= i < x.len() implies #[trigger] x[i] == DOT || is_ascii_digit(x[i]) by {
        if i < a.len() {
            assert(x[i] == a[i]);
        } else if i == a.len() {
            assert(x[i] == DOT);
        } else {
            assert(x[i] == b[i - a.len() - 1]);
        }
    }
}

/// Law: the dotted-decimal text of an address parses back to that address.
pub proof fn law_dotted_text_parses_back(ip: Ipv4Address)
    ensures
        is_ascii_chars(dotted(ip)),
        encode_utf8(dotted(ip)) == ascii_bytes(dotted(ip)),
        parse_ipv4_spec(encode_utf8(dotted(ip))) == Some(ip),
        digits_and_dots(ascii_bytes(dotted(ip))),
{
    let (o0, o1, o2, o3) = (ip.octets[0], ip.octets[1], ip.octets[2], ip.octets[3]);
    let (b0, b1, b2, b3) = (
        decimal_bytes(o0 as nat),
        decimal_bytes(o1 as nat),
        decimal_bytes(o2 as nat),
        decimal_bytes(o3 as nat),
    );
    lemma_decimal_shape(o0 as nat);
    let t1 = decimal(o0 as nat) + seq!['.'] + decimal(o1 as nat);
    lemma_octet_then_dot(decimal(o0 as nat), o1);
    let t2 = t1 + seq!['.'] + decimal(o2 as nat);
    lemma_octet_then_dot(t1, o2);
    let t3 = t2 + seq!['.'] + decimal(o3 as nat);
    lemma_octet_then_dot(t2, o3);
    assert(t3 == dotted(ip));
    lemma_encode_ascii(t3);
    let x1 = b0.push(DOT) + b1;
    let x2 = x1.push(DOT) + b2;
    let x3 = x2.push(DOT) + b3;
    assert(ascii_bytes(t3) == x3);
    lemma_octet_text_parses(o0);
    lemma_octet_text_parses(o1);
    lemma_octet_text_parses(o2);
    lemma_octet_text_parses(o3);
    lemma_digits_and_dots(b0, b1);
    lemma_digits_and_dots(x1, b2);
    lemma_digits_and_dots(x2, b3);
    lemma_split_without_separator(b0, DOT);
    lemma_split_without_separator(b1, DOT);
    lemma_split_without_separator(b2, DOT);
    lemma_split_without_separator(b3, DOT);
    lemma_split_concat(b0, b1, DOT);
    lemma_split_concat(x1, b2, DOT);
    lemma_split_concat(x2, b3, DOT);
    let parts = split_on(x3, DOT);
    assert(parts =~= seq![b0, b1, b2, b3]);
    let parsed = Ipv4Address { octets: [o0, o1, o2, o3] };
    assert(parsed.octets =~= ip.octets);
    assert(parse_ipv4_spec(x3) == Some(parsed));
}

} // verus!

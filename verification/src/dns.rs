//! DNS queries in the wire format of RFC 1035, section 4.1: the twelve-byte
//! header, the question (a name as length-prefixed labels, a type and a
//! class), and the query for the `A` record of a host name.
use vstd::prelude::*;
use vstd::utf8::encode_utf8;
use crate::udp_client::{UdpAction, UdpExchange, UdpStage};
use crate::text::{join_with, lemma_split_join, split_bytes, split_on, views, lemma_split_on_nonempty, DOT};

verus! {

/// The header of a DNS message (RFC 1035, 4.1.1).
#[derive(Clone, Copy, Debug)]
pub struct DnsHeader {
    pub id: u16,
    pub qr: bool,
    pub opcode: u8,
    pub aa: bool,
    pub tc: bool,
    pub rd: bool,
    pub ra: bool,
    pub z: u8,
    pub rcode: u8,
    pub qdcount: u16,
    pub ancount: u16,
    pub nscount: u16,
    pub arcount: u16,
}

/// Why a host name cannot be written as a DNS name.
#[derive(Clone, Copy, Debug, PartialEq, Eq, Structural)]
pub enum DnsError {
    /// A label (a piece between dots) is longer than 63 bytes.
    LabelTooLong,
}

impl DnsError {
    /// The text that reports this error.
    pub fn message(&self) -> (r: String)
        ensures
            r@ == "Label is too long"@,
    {
        String::from_str("Label is too long")
    }
}

/// The bit of a flag: 1 when it is set.
pub open spec fn bit(b: bool) -> u16 {
    if b {
        1
    } else {
        0
    }
}

/// The second word of the header: QR in bit 15, OPCODE from bit 11, AA in
/// bit 10, TC in bit 9, RD in bit 8, RA in bit 7, Z from bit 4 and RCODE
/// from bit 0, or-ed together (bits of a field wider than its slot spill
/// into the slots above it).
pub open spec fn flags_word(h: DnsHeader) -> u16 {
    (bit(h.qr) << 15u16) | ((h.opcode as u16) << 11u16) | (bit(h.aa) << 10u16) | (bit(h.tc)
        << 9u16) | (bit(h.rd) << 8u16) | (bit(h.ra) << 7u16) | ((h.z as u16) << 4u16)
        | (h.rcode as u16)
}

/// The two bytes of `x`, most significant first.
pub open spec fn be16(x: u16) -> Seq<u8> {
    seq![(x / 256) as u8, (x % 256) as u8]
}

/// The twelve bytes of a header: ID, the flags word, QDCOUNT, ANCOUNT,
/// NSCOUNT and ARCOUNT, each as two big-endian bytes.
pub open spec fn header_bytes(h: DnsHeader) -> Seq<u8> {
    be16(h.id) + be16(flags_word(h)) + be16(h.qdcount) + be16(h.ancount) + be16(h.nscount)
        + be16(h.arcount)
}

/// Appends the two big-endian bytes of `x`.
fn push_be16(out: &mut Vec<u8>, x: u16)
    ensures
        final(out)@ == old(out)@ + be16(x),
{
    let hi = (x >> 8) as u8;
    let lo = (x & 0xff) as u8;
    assert(x >> 8 == x / 256 && x & 0xff == x % 256) by (bit_vector);
    out.push(hi);
    out.push(lo);
    assert(final(out)@ =~= old(out)@ + be16(x)) by {
        assert(out@ =~= old(out)@ + be16(x));
    }
}

/// The bit of a flag as a number.
fn flag_bit(b: bool) -> (r: u16)
    ensures
        r == bit(b),
{
    if b {
        1
    } else {
        0
    }
}

/// The wire form of a header.
pub fn header_to_bytes(header: &DnsHeader) -> (r: Vec<u8>)
    ensures
        r@ == header_bytes(*header),
{
    let mut bytes: Vec<u8> = Vec::with_capacity(12);
    push_be16(&mut bytes, header.id);
    let flags: u16 = (flag_bit(header.qr) << 15u16) | ((header.opcode as u16) << 11u16) | (
    flag_bit(header.aa) << 10u16) | (flag_bit(header.tc) << 9u16) | (flag_bit(header.rd)
        << 8u16) | (flag_bit(header.ra) << 7u16) | ((header.z as u16) << 4u16)
        | (header.rcode as u16);
    push_be16(&mut bytes, flags);
    push_be16(&mut bytes, header.qdcount);
    push_be16(&mut bytes, header.ancount);
    push_be16(&mut bytes, header.nscount);
    push_be16(&mut bytes, header.arcount);
    assert(bytes@ =~= header_bytes(*header));
    bytes
}

/// Labels written one after another, each preceded by its length.
pub open spec fn encode_labels(labels: Seq<Seq<u8>>) -> Seq<u8>
    decreases labels.len(),
{
    if labels.len() == 0 {
        Seq::<u8>::empty()
    } else {
        encode_labels(labels.drop_last()).push(labels.last().len() as u8) + labels.last()
    }
}

/// Every label is at most 63 bytes long.
pub open spec fn labels_fit(labels: Seq<Seq<u8>>) -> bool {
    forall|i: int| 0 <= i < labels.len() ==> #[trigger] labels[i].len() <= 63
}

/// The DNS name of a host name given by its bytes (RFC 1035, 4.1.2): its
/// labels (the pieces between dots, empty ones included) each preceded by
/// its length, then a zero byte; an error when a label is longer than 63
/// bytes.
pub open spec fn wire_name(s: Seq<u8>) -> Result<Seq<u8>, DnsError> {
    let labels = split_on(s, DOT);
    if labels_fit(labels) {
        Ok(encode_labels(labels).push(0u8))
    } else {
        Err(DnsError::LabelTooLong)
    }
}

/// Appends `src` to `out`.
fn append_bytes(out: &mut Vec<u8>, src: &[u8])
    ensures
        final(out)@ == old(out)@ + src@,
{
    let mut i: usize = 0;
    while i < src.len()
        invariant
            i <= src@.len(),
            out@ == old(out)@ + src@.take(i as int),
        decreases src@.len() - i,
    {
        out.push(src[i]);
        i = i + 1;
        assert(out@ =~= old(out)@ + src@.take(i as int));
    }
    assert(src@.take(i as int) =~= src@);
}

/// The DNS name of a host name.
pub fn hostname_to_bytes(string: &str) -> (r: Result<Vec<u8>, DnsError>)
    ensures
        match wire_name(encode_utf8(string@)) {
            Ok(w) => r is Ok && r->Ok_0@ == w,
            Err(e) => r == Err::<Vec<u8>, DnsError>(e),
        },
{
    let raw: &[u8] = string.as_bytes();
    assert(raw@ == encode_utf8(string@));
    let labels: Vec<Vec<u8>> = split_bytes(raw, DOT);
    let ghost ls = views(labels@);
    assert(ls == split_on(encode_utf8(string@), DOT));
    let mut bytes: Vec<u8> = Vec::new();
    let mut k: usize = 0;
    while k < labels.len()
        invariant
            k <= labels@.len(),
            ls == views(labels@),
            ls == split_on(encode_utf8(string@), DOT),
            bytes@ == encode_labels(ls.take(k as int)),
            forall|i: int| 0 <= i < k ==> #[trigger] ls[i].len() <= 63,
        decreases labels@.len() - k,
    {
        let label: &Vec<u8> = &labels[k];
        assert(ls[k as int] == label@);
        if label.len() > 63 {
            assert(ls[k as int].len() > 63);
            assert(!labels_fit(ls));
            return Err(DnsError::LabelTooLong);
        }
        bytes.push(label.len() as u8);
        append_bytes(&mut bytes, label.as_slice());
        assert(ls.take(k + 1).drop_last() =~= ls.take(k as int));
        k = k + 1;
    }
    assert(ls.take(k as int) =~= ls);
    bytes.push(0);
    Ok(bytes)
}

/// The question of a query: the DNS name, then the type and the class as
/// two big-endian bytes each.
pub open spec fn question_bytes(s: Seq<u8>, qtype: u16, qclass: u16) -> Result<
    Seq<u8>,
    DnsError,
> {
    match wire_name(s) {
        Ok(w) => Ok(w + be16(qtype) + be16(qclass)),
        Err(e) => Err(e),
    }
}

/// The wire form of a question for `hostname`.
pub fn question_to_bytes(hostname: &str, qtype: u16, qclass: u16) -> (r: Result<
    Vec<u8>,
    DnsError,
>)
    ensures
        match question_bytes(encode_utf8(hostname@), qtype, qclass) {
            Ok(q) => r is Ok && r->Ok_0@ == q,
            Err(e) => r == Err::<Vec<u8>, DnsError>(e),
        },
{
    let mut bytes = hostname_to_bytes(hostname)?;
    push_be16(&mut bytes, qtype);
    push_be16(&mut bytes, qclass);
    Ok(bytes)
}

/// The record type `A` (a host address).
pub const QTYPE_A: u16 = 1;

/// The class `IN` (the Internet).
pub const QCLASS_IN: u16 = 1;

/// The header of a standard query for one question with recursion desired.
pub open spec fn query_header(id: u16) -> DnsHeader {
    DnsHeader {
        id,
        qr: false,
        opcode: 0,
        aa: false,
        tc: false,
        rd: true,
        ra: false,
        z: 0,
        rcode: 0,
        qdcount: 1,
        ancount: 0,
        nscount: 0,
        arcount: 0,
    }
}

/// The query with transaction ID `id` for the `A` record, class `IN`, of
/// the host name given by its bytes.
pub open spec fn dns_query_bytes(id: u16, s: Seq<u8>) -> Result<Seq<u8>, DnsError> {
    match question_bytes(s, QTYPE_A, QCLASS_IN) {
        Ok(q) => Ok(header_bytes(query_header(id)) + q),
        Err(e) => Err(e),
    }
}

/// The query with the given transaction ID for the address of `hostname`.
pub fn build_dns_query_with_id(hostname: &str, id: u16) -> (r: Result<Vec<u8>, DnsError>)
    ensures
        match dns_query_bytes(id, encode_utf8(hostname@)) {
            Ok(q) => r is Ok && r->Ok_0@ == q,
            Err(e) => r == Err::<Vec<u8>, DnsError>(e),
        },
{
    let header = DnsHeader {
        id,
        qr: false,
        opcode: 0,
        aa: false,
        tc: false,
        rd: true,
        ra: false,
        z: 0,
        rcode: 0,
        qdcount: 1,
        ancount: 0,
        nscount: 0,
        arcount: 0,
    };
    let mut query = header_to_bytes(&header);
    let question = question_to_bytes(hostname, QTYPE_A, QCLASS_IN)?;
    append_bytes(&mut query, question.as_slice());
    Ok(query)
}

/// The clock's time, as std's `SystemTime`.
#[verifier::external_type_specification]
#[verifier::external_body]
pub struct ExSystemTime(std::time::SystemTime);

/// Reads the system clock (`SystemTime::now`). Nothing is promised of the
/// value: it is the time.
#[verifier::external_body]
fn current_time() -> std::time::SystemTime {
    std::time::SystemTime::now()
}

/// The time elapsed from the Unix epoch to `t`, or nothing when `t` is
/// earlier (`SystemTime::duration_since(UNIX_EPOCH)`, its error dropped).
/// Nothing is promised of the value: `t` is opaque here.
#[verifier::external_body]
fn elapsed_since_epoch(t: &std::time::SystemTime) -> Option<core::time::Duration> {
    t.duration_since(std::time::UNIX_EPOCH).ok()
}

/// The whole nanoseconds of a duration (`Duration::as_nanos`). Nothing is
/// promised of the value: `d` is opaque here.
#[verifier::external_body]
fn whole_nanos(d: &core::time::Duration) -> u128 {
    d.as_nanos()
}

/// The nanoseconds since the Unix epoch by the system clock, or 0 when the
/// clock stands before the epoch.
fn nanos_since_epoch() -> u128 {
    match elapsed_since_epoch(&current_time()) {
        Some(d) => whole_nanos(&d),
        None => 0,
    }
}

/// The transaction ID that starts a query: the two bytes at its front.
pub open spec fn query_id(q: Seq<u8>) -> u16 {
    (q[0] as int * 256 + q[1] as int) as u16
}

/// The query for the address of `hostname`, with the low 16 bits of the
/// clock's nanoseconds as its transaction ID.
pub fn build_dns_query(hostname: &str) -> (r: Result<Vec<u8>, DnsError>)
    ensures
        r is Err <==> wire_name(encode_utf8(hostname@)) is Err,
        r matches Err(e) ==> wire_name(encode_utf8(hostname@)) == Err::<Seq<u8>, DnsError>(e),
        r matches Ok(q) ==> q@.len() >= 2 && Ok::<Seq<u8>, DnsError>(q@) == dns_query_bytes(
            query_id(q@),
            encode_utf8(hostname@),
        ),
{
    let id_from_time: u16 = (nanos_since_epoch() % 0x10000) as u16;
    let r = build_dns_query_with_id(hostname, id_from_time);
    proof {
        if r is Ok {
            let q = r->Ok_0@;
            let h = header_bytes(query_header(id_from_time));
            assert(q[0] == h[0] && q[1] == h[1]);
            assert(query_id(q) == id_from_time);
        }
    }
    r
}

/// The name server that is asked.
pub open spec fn resolver_host() -> Seq<char> {
    "8.8.8.8"@
}

/// The port of the DNS service.
pub const DNS_PORT: u16 = 53;

/// A lookup of the address of `hostname`: the query, and the exchange that
/// sends it to the name server `8.8.8.8` on port 53 and receives the
/// answer. A socket or address failure of that exchange stops the program.
pub fn dig(hostname: String) -> (r: Result<(Vec<u8>, UdpExchange, UdpAction), DnsError>)
    ensures
        r is Err <==> wire_name(encode_utf8(hostname@)) is Err,
        r matches Err(e) ==> wire_name(encode_utf8(hostname@)) == Err::<Seq<u8>, DnsError>(e),
        r matches Ok((q, x, a)) ==> {
            &&& q@.len() >= 2
            &&& Ok::<Seq<u8>, DnsError>(q@) == dns_query_bytes(query_id(q@), encode_utf8(hostname@))
            &&& x.host@ == resolver_host()
            &&& x.port == DNS_PORT
            &&& x.message@ == q@
            &&& x.setup_failure_is_fatal
            &&& x.stage == UdpStage::Opening
            &&& a is OpenSocket
        },
{
    let query = build_dns_query(hostname.as_str())?;
    proof {
        reveal_strlit("8.8.8.8");
    }
    let (exchange, first) = UdpExchange::new(String::from_str("8.8.8.8"), DNS_PORT, query.clone(), true);
    Ok((query, exchange, first))
}

/// Law: with OPCODE and RCODE below 16 and Z below 8, every field of the
/// header can be read back from its slot of the flags word.
pub proof fn law_flags_fields(h: DnsHeader)
    requires
        h.opcode < 16,
        h.z < 8,
        h.rcode < 16,
    ensures
        (flags_word(h) >> 15u16) & 1 == bit(h.qr),
        (flags_word(h) >> 11u16) & 15 == h.opcode as u16,
        (flags_word(h) >> 10u16) & 1 == bit(h.aa),
        (flags_word(h) >> 9u16) & 1 == bit(h.tc),
        (flags_word(h) >> 8u16) & 1 == bit(h.rd),
        (flags_word(h) >> 7u16) & 1 == bit(h.ra),
        (flags_word(h) >> 4u16) & 7 == h.z as u16,
        flags_word(h) & 15 == h.rcode as u16,
{
    let (qr, aa, tc, rd, ra) = (bit(h.qr), bit(h.aa), bit(h.tc), bit(h.rd), bit(h.ra));
    let (op, z, rc) = (h.opcode as u16, h.z as u16, h.rcode as u16);
    let f = flags_word(h);
    assert({
        &&& (f >> 15u16) & 1 == qr
        &&& (f >> 11u16) & 15 == op
        &&& (f >> 10u16) & 1 == aa
        &&& (f >> 9u16) & 1 == tc
        &&& (f >> 8u16) & 1 == rd
        &&& (f >> 7u16) & 1 == ra
        &&& (f >> 4u16) & 7 == z
        &&& f & 15 == rc
    }) by (bit_vector)
        requires
            qr <= 1,
            aa <= 1,
            tc <= 1,
            rd <= 1,
            ra <= 1,
            op < 16,
            z < 8,
            rc < 16,
            f == (qr << 15u16) | (op << 11u16) | (aa << 10u16) | (tc << 9u16) | (rd << 8u16) | (ra
                << 7u16) | (z << 4u16) | rc,
    ;
}

/// The encoded labels of a host name are one byte longer than its text.
proof fn lemma_encoded_labels_len(s: Seq<u8>)
    ensures
        encode_labels(split_on(s, DOT)).len() == s.len() + 1,
    decreases s.len(),
{
    if s.len() == 0 {
        let l = split_on(s, DOT);
        assert(l.drop_last() =~= Seq::<Seq<u8>>::empty());
        assert(l.last() =~= Seq::<u8>::empty());
        assert(encode_labels(l) == encode_labels(l.drop_last()).push(0u8) + l.last());
    } else {
        let init = s.drop_last();
        let p = split_on(init, DOT);
        lemma_split_on_nonempty(init, DOT);
        lemma_encoded_labels_len(init);
        if s.last() == DOT {
            let q = p.push(Seq::<u8>::empty());
            assert(q.drop_last() =~= p);
            assert(encode_labels(q) == encode_labels(p).push(0u8) + q.last());
        } else {
            let q = p.update(p.len() - 1, p.last().push(s.last()));
            assert(q.drop_last() =~= p.drop_last());
            assert(encode_labels(q) == encode_labels(p.drop_last()).push(q.last().len() as u8)
                + q.last());
            assert(encode_labels(p) == encode_labels(p.drop_last()).push(p.last().len() as u8)
                + p.last());
        }
    }
}

/// Law: the DNS name of a host name is two bytes longer than the host name
/// and ends with a zero byte.
pub proof fn law_wire_name_length(s: Seq<u8>)
    ensures
        wire_name(s) matches Ok(w) ==> w.len() == s.len() + 2 && w.last() == 0,
{
    lemma_encoded_labels_len(s);
}

/// What a reader of a DNS name finds: length-prefixed labels up to the
/// zero byte that ends the name, which must be the last byte; nothing when
/// the bytes are not such a name.
pub open spec fn read_labels(w: Seq<u8>) -> Option<Seq<Seq<u8>>>
    decreases w.len(),
{
    if w.len() == 0 {
        None
    } else if w[0] == 0 {
        if w.len() == 1 {
            Some(Seq::<Seq<u8>>::empty())
        } else {
            None
        }
    } else if w.len() < 1 + w[0] {
        None
    } else {
        match read_labels(w.skip(1 + w[0] as int)) {
            Some(rest) => Some(seq![w.subrange(1, 1 + w[0] as int)] + rest),
            None => None,
        }
    }
}

/// Writing a label in front of other labels puts its length and bytes first.
proof fn lemma_encode_labels_front(l: Seq<u8>, ls: Seq<Seq<u8>>)
    ensures
        encode_labels(seq![l] + ls) == seq![l.len() as u8] + l + encode_labels(ls),
    decreases ls.len(),
{
    if ls.len() == 0 {
        assert(seq![l] + ls =~= seq![l]);
        assert(seq![l].drop_last() =~= Seq::<Seq<u8>>::empty());
        assert(seq![l].last() == l);
        assert(encode_labels(seq![l]) == encode_labels(seq![l].drop_last()).push(l.len() as u8) + l);
        assert(encode_labels(seq![l] + ls) =~= seq![l.len() as u8] + l + encode_labels(ls));
    } else {
        lemma_encode_labels_front(l, ls.drop_last());
        assert((seq![l] + ls).drop_last() =~= seq![l] + ls.drop_last());
        assert(encode_labels(seq![l] + ls) =~= seq![l.len() as u8] + l + encode_labels(ls));
    }
}

/// Labels of 1 to 63 bytes, written and ended with a zero byte, read back as
/// themselves.
proof fn lemma_read_back_labels(ls: Seq<Seq<u8>>)
    requires
        forall|i: int| 0 <= i < ls.len() ==> 1 <= #[trigger] ls[i].len() <= 63,
    ensures
        read_labels(encode_labels(ls).push(0u8)) == Some(ls),
    decreases ls.len(),
{
    if ls.len() == 0 {
        assert(encode_labels(ls).push(0u8) =~= seq![0u8]);
        assert(Seq::<Seq<u8>>::empty() =~= ls);
    } else {
        let l = ls[0];
        let rest = ls.drop_first();
        assert(ls =~= seq![l] + rest);
        lemma_encode_labels_front(l, rest);
        lemma_read_back_labels(rest);
        let w = encode_labels(ls).push(0u8);
        let n = l.len() as u8;
        assert(w =~= seq![n] + l + encode_labels(rest).push(0u8));
        assert(w[0] == n);
        assert(w.skip(1 + n as int) =~= encode_labels(rest).push(0u8));
        assert(w.subrange(1, 1 + n as int) =~= l);
    }
}

/// Law: when a host name has no empty label (it is not empty and has no
/// leading, trailing or doubled dot), a reader of its DNS name finds its
/// labels, and those labels joined with dots are the host name again.
pub proof fn law_wire_name_reads_back(s: Seq<u8>)
    requires
        forall|i: int|
            0 <= i < split_on(s, DOT).len() ==> #[trigger] split_on(s, DOT)[i].len() >= 1,
    ensures
        wire_name(s) matches Ok(w) ==> read_labels(w) == Some(split_on(s, DOT)),
        join_with(split_on(s, DOT), DOT) == s,
{
    lemma_split_join(s, DOT);
    if wire_name(s) is Ok {
        lemma_read_back_labels(split_on(s, DOT));
    }
}


/// Law: a host name is refused exactly when one of its labels (the pieces
/// between dots) is longer than 63 bytes; every other host name is written.
pub proof fn law_refused_only_for_long_labels(s: Seq<u8>)
    ensures
        (forall|i: int|
            0 <= i < split_on(s, DOT).len() ==> #[trigger] split_on(s, DOT)[i].len() <= 63)
            <==> wire_name(s) is Ok,
        wire_name(s) is Err ==> wire_name(s) == Err::<Seq<u8>, DnsError>(DnsError::LabelTooLong),
{
}

} // verus!

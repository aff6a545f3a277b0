//! Pieces shared by the clients and servers: the `host:port` text that is
//! resolved, the reports of a failed resolution, lossy UTF-8 decoding of
//! received bytes, and trimming of typed lines.
use vstd::prelude::*;
use vstd::string::StrSliceExecFns;
use vstd::utf8::{decode_utf8, valid_utf8};
use crate::text::{all_digits, decimal, decimal_text, digits_value, law_decimal_reads_back};

verus! {

/// The text `host:port` that names a service to resolve.
pub open spec fn host_port(host: Seq<char>, port: u16) -> Seq<char> {
    host + seq![':'] + decimal(port as nat)
}

/// Builds `host:port`.
pub fn host_port_text(host: &str, port: u16) -> (r: String)
    ensures
        r@ == host_port(host@, port),
{
    let mut s = String::from_str(host);
    s.append(":");
    proof {
        reveal_strlit(":");
    }
    s.append(decimal_text(port as u32).as_str());
    assert(s@ =~= host_port(host@, port));
    s
}

/// The report when `host:port` resolves to no address.
pub open spec fn no_address_message(host: Seq<char>, port: u16) -> Seq<char> {
    "No valid address found for "@ + host_port(host, port)
}

/// The report when `host:port` cannot be resolved, with the resolver's error.
pub open spec fn unresolvable_message(host: Seq<char>, port: u16, error: Seq<char>) -> Seq<
    char,
> {
    "Failed to parse address "@ + host + " on port "@ + decimal(port as nat) + ": "@ + error
}

/// Builds the report when `host:port` resolves to no address.
pub fn no_address_text(host: &str, port: u16) -> (r: String)
    ensures
        r@ == no_address_message(host@, port),
{
    let s = String::from_str("No valid address found for ");
    let r = s.concat(host_port_text(host, port).as_str());
    assert(r@ =~= no_address_message(host@, port));
    r
}

/// Builds the report when `host:port` cannot be resolved.
pub fn unresolvable_text(host: &str, port: u16, error: &str) -> (r: String)
    ensures
        r@ == unresolvable_message(host@, port, error@),
{
    let r = String::from_str("Failed to parse address ").concat(host).concat(" on port ").concat(
        decimal_text(port as u32).as_str(),
    ).concat(": ").concat(error);
    assert(r@ =~= unresolvable_message(host@, port, error@));
    r
}

/// `prefix` followed by `tail`.
pub fn joined(prefix: &str, tail: &str) -> (r: String)
    ensures
        r@ == prefix@ + tail@,
{
    String::from_str(prefix).concat(tail)
}

/// What `String::from_utf8_lossy` makes of the bytes: the text they encode,
/// with U+FFFD in place of each invalid sequence.
pub uninterp spec fn utf8_lossy(bytes: Seq<u8>) -> Seq<char>;

/// Decodes received bytes as UTF-8, replacing invalid sequences
/// (`String::from_utf8_lossy`). The contract names the result; it states only
/// that valid UTF-8 decodes to the text it encodes, as the documentation says.
#[verifier::external_body]
pub(crate) fn decode_lossy(bytes: &[u8]) -> (r: String)
    ensures
        r@ == utf8_lossy(bytes@),
        valid_utf8(bytes@) ==> r@ == decode_utf8(bytes@),
{
    String::from_utf8_lossy(bytes).into_owned()
}

/// Whether `c` has the Unicode property `White_Space` (`char::is_whitespace`).
pub open spec fn is_white_space(c: char) -> bool {
    let v = c as u32;
    ||| 9 <= v <= 13
    ||| v == 32
    ||| v == 0x85
    ||| v == 0xa0
    ||| v == 0x1680
    ||| 0x2000 <= v <= 0x200a
    ||| v == 0x2028
    ||| v == 0x2029
    ||| v == 0x202f
    ||| v == 0x205f
    ||| v == 0x3000
}

/// Tests `is_white_space`.
pub fn white_space(c: char) -> (r: bool)
    ensures
        r == is_white_space(c),
{
    let v = c as u32;
    (9 <= v && v <= 13) || v == 32 || v == 0x85 || v == 0xa0 || v == 0x1680 || (0x2000 <= v && v
        <= 0x200a) || v == 0x2028 || v == 0x2029 || v == 0x202f || v == 0x205f || v == 0x3000
}

/// The text without its leading white space.
pub open spec fn trim_start(s: Seq<char>) -> Seq<char>
    decreases s.len(),
{
    if s.len() > 0 && is_white_space(s[0]) {
        trim_start(s.drop_first())
    } else {
        s
    }
}

/// The text without its trailing white space.
pub open spec fn trim_end(s: Seq<char>) -> Seq<char>
    decreases s.len(),
{
    if s.len() > 0 && is_white_space(s.last()) {
        trim_end(s.drop_last())
    } else {
        s
    }
}

/// The text without leading and trailing white space (`str::trim`).
pub open spec fn trimmed(s: Seq<char>) -> Seq<char> {
    trim_end(trim_start(s))
}

/// Removes leading and trailing white space.
pub fn trim(s: &str) -> (r: &str)
    ensures
        r@ == trimmed(s@),
{
    let n = s.unicode_len();
    let mut i: usize = 0;
    assert(s@.subrange(0, n as int) =~= s@);
    while i < n && white_space(s.get_char(i))
        invariant
            n == s@.len(),
            i <= n,
            trim_start(s@) == trim_start(s@.subrange(i as int, n as int)),
        decreases n - i,
    {
        assert(s@.subrange(i as int, n as int).drop_first() =~= s@.subrange(i + 1, n as int));
        i = i + 1;
    }
    let ghost front = s@.subrange(i as int, n as int);
    assert(trim_start(s@) == front);
    let mut j: usize = n;
    assert(front.subrange(0, (j - i) as int) =~= front);
    while j > i && white_space(s.get_char(j - 1))
        invariant
            n == s@.len(),
            i <= j <= n,
            front == s@.subrange(i as int, n as int),
            trim_end(front) == trim_end(s@.subrange(i as int, j as int)),
        decreases j - i,
    {
        assert(s@.subrange(i as int, j as int).drop_last() =~= s@.subrange(i as int, j - 1));
        j = j - 1;
    }
    s.substring_char(i, j)
}

/// Whether the text is exactly `close`.
pub fn is_close_command(s: &str) -> (r: bool)
    ensures
        r == (s@ == "close"@),
{
    proof {
        reveal_strlit("close");
    }
    if s.unicode_len() != 5 {
        return false;
    }
    let r = s.get_char(0) == 'c' && s.get_char(1) == 'l' && s.get_char(2) == 'o' && s.get_char(3)
        == 's' && s.get_char(4) == 'e';
    if r {
        assert(s@ =~= "close"@);
    }
    r
}


/// Law: the text that is resolved is the host, a colon, and digits that
/// denote the port.
pub proof fn law_host_port_names_port(host: Seq<char>, port: u16)
    ensures
        host_port(host, port).len() > host.len() + 1,
        host_port(host, port).take(host.len() as int) == host,
        host_port(host, port)[host.len() as int] == ':',
        all_digits(host_port(host, port).skip(host.len() + 1 as int)),
        digits_value(host_port(host, port).skip(host.len() + 1 as int)) == port as int,
{
    law_decimal_reads_back(port as nat);
    let t = host_port(host, port);
    assert(t.take(host.len() as int) =~= host);
    assert(t.skip(host.len() + 1 as int) =~= decimal(port as nat));
}

/// Law: white space is the Unicode `White_Space` set: its code points are
/// white space, no printable ASCII character is, and the only ASCII white
/// space is the tab, line feed, vertical tab, form feed, carriage return and
/// the space.
pub proof fn law_white_space_is_unicode_white_space(c: char)
    ensures
        33 <= (c as u32) <= 126 ==> !is_white_space(c),
        ((c as u32) < 128 && is_white_space(c)) ==> (9 <= (c as u32) <= 13 || c as u32 == 32),
        (9 <= (c as u32) <= 13 || c as u32 == 32 || c as u32 == 0x85 || c as u32 == 0xa0
            || c as u32 == 0x1680 || (0x2000 <= (c as u32) <= 0x200a) || c as u32 == 0x2028
            || c as u32 == 0x2029 || c as u32 == 0x202f || c as u32 == 0x205f || c as u32
            == 0x3000) ==> is_white_space(c),
{
}

/// What `trim_start` removes is white space, and what it keeps starts with a
/// character that is not.
proof fn lemma_trim_start_cut(s: Seq<char>) -> (i: int)
    ensures
        0 <= i <= s.len(),
        trim_start(s) == s.skip(i),
        forall|k: int| 0 <= k < i ==> is_white_space(#[trigger] s[k]),
        i < s.len() ==> !is_white_space(s[i]),
    decreases s.len(),
{
    if s.len() > 0 && is_white_space(s[0]) {
        let j = lemma_trim_start_cut(s.drop_first());
        assert(s.drop_first().skip(j) =~= s.skip(j + 1));
        assert forall|k: int| 0 <= k < j + 1 implies is_white_space(#[trigger] s[k]) by {
            if k > 0 {
                assert(s[k] == s.drop_first()[k - 1]);
            }
        }
        j + 1
    } else {
        assert(s.skip(0) =~= s);
        0
    }
}

/// What `trim_end` removes is white space, and what it keeps ends with a
/// character that is not.
proof fn lemma_trim_end_cut(s: Seq<char>) -> (j: int)
    ensures
        0 <= j <= s.len(),
        trim_end(s) == s.take(j),
        forall|k: int| j <= k < s.len() ==> is_white_space(#[trigger] s[k]),
        j > 0 ==> !is_white_space(s[j - 1]),
    decreases s.len(),
{
    if s.len() > 0 && is_white_space(s.last()) {
        let j = lemma_trim_end_cut(s.drop_last());
        assert(s.drop_last().take(j) =~= s.take(j));
        assert forall|k: int| j <= k < s.len() implies is_white_space(#[trigger] s[k]) by {
            if k < s.len() - 1 {
                assert(s[k] == s.drop_last()[k]);
            }
        }
        j
    } else {
        assert(s.take(s.len() as int) =~= s);
        s.len() as int
    }
}

/// Law: trimming keeps one stretch of the text and removes only white space
/// around it; what it keeps neither starts nor ends with white space.
pub proof fn law_trim_removes_only_white_space(s: Seq<char>)
    ensures
        exists|i: int, j: int|
            0 <= i <= j <= s.len() && trimmed(s) == s.subrange(i, j) && (forall|k: int|
                0 <= k < i ==> is_white_space(#[trigger] s[k])) && (forall|k: int|
                j <= k < s.len() ==> is_white_space(#[trigger] s[k])) && (i < j ==> !is_white_space(
                s[i],
            ) && !is_white_space(s[j - 1])),
{
    let i = lemma_trim_start_cut(s);
    let t = s.skip(i);
    let m = lemma_trim_end_cut(t);
    let j = i + m;
    assert(t.take(m) =~= s.subrange(i, j));
    assert forall|k: int| j <= k < s.len() implies is_white_space(#[trigger] s[k]) by {
        assert(s[k] == t[k - i]);
    }
    if i < j {
        assert(s[i] == t[0]);
        assert(s[j - 1] == t[m - 1]);
    }
    assert(0 <= i <= j <= s.len() && trimmed(s) == s.subrange(i, j) && (forall|k: int|
        0 <= k < i ==> is_white_space(#[trigger] s[k])) && (forall|k: int|
        j <= k < s.len() ==> is_white_space(#[trigger] s[k])) && (i < j ==> !is_white_space(s[i])
        && !is_white_space(s[j - 1])));
}

} // verus!

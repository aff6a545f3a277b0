//! Byte-level text helpers shared by the parsers and formatters: splitting on
//! a separator byte, decimal numbers (parsing as `u8::from_str` does, and
//! printing), and ASCII digits.
use vstd::prelude::*;

verus! {

/// The byte of `'.'`.
pub const DOT: u8 = 46;

/// The byte of `'/'`.
pub const SLASH: u8 = 47;

/// The byte of `'+'`.
pub const PLUS: u8 = 43;

/// The byte of `'0'`.
pub const ZERO: u8 = 48;

/// The pieces of `s` between occurrences of `sep`, in order, empty pieces
/// included; a sequence without `sep` is one piece (the behaviour of
/// `str::split` with a one-byte pattern).
pub open spec fn split_on(s: Seq<u8>, sep: u8) -> Seq<Seq<u8>>
    decreases s.len(),
{
    if s.len() == 0 {
        seq![Seq::<u8>::empty()]
    } else {
        let init = split_on(s.drop_last(), sep);
        if s.last() == sep {
            init.push(Seq::<u8>::empty())
        } else {
            init.update(init.len() - 1, init.last().push(s.last()))
        }
    }
}

/// The pieces joined back with `sep` between consecutive ones.
pub open spec fn join_with(parts: Seq<Seq<u8>>, sep: u8) -> Seq<u8>
    decreases parts.len(),
{
    if parts.len() == 0 {
        Seq::<u8>::empty()
    } else if parts.len() == 1 {
        parts[0]
    } else {
        join_with(parts.drop_last(), sep).push(sep) + parts.last()
    }
}

/// Splitting yields at least one piece.
pub proof fn lemma_split_on_nonempty(s: Seq<u8>, sep: u8)
    ensures
        split_on(s, sep).len() >= 1,
    decreases s.len(),
{
    if s.len() > 0 {
        lemma_split_on_nonempty(s.drop_last(), sep);
    }
}

/// Splitting on `sep` and joining with `sep` gives the input back, and no
/// piece holds `sep`.
pub proof fn lemma_split_join(s: Seq<u8>, sep: u8)
    ensures
        join_with(split_on(s, sep), sep) == s,
        forall|i: int, j: int|
            0 <= i < split_on(s, sep).len() && 0 <= j < split_on(s, sep)[i].len()
                ==> #[trigger] split_on(s, sep)[i][j] != sep,
    decreases s.len(),
{
    if s.len() == 0 {
        assert(join_with(split_on(s, sep), sep) =~= s);
    } else {
        let init = s.drop_last();
        let p = split_on(init, sep);
        lemma_split_on_nonempty(init, sep);
        lemma_split_join(init, sep);
        if s.last() == sep {
            let q = p.push(Seq::<u8>::empty());
            assert(q.drop_last() =~= p);
            assert(join_with(q, sep) =~= s);
        } else {
            let q = p.update(p.len() - 1, p.last().push(s.last()));
            if p.len() == 1 {
                assert(join_with(q, sep) =~= s);
            } else {
                assert(q.drop_last() =~= p.drop_last());
                let head = join_with(p.drop_last(), sep).push(sep);
                assert(join_with(p, sep) == head + p.last());
                assert(join_with(q, sep) == head + p.last().push(s.last()));
                assert(head + p.last().push(s.last()) =~= (head + p.last()).push(s.last()));
                assert(init.push(s.last()) =~= s);
            }
            assert forall|i: int, j: int|
                0 <= i < q.len() && 0 <= j < q[i].len() implies #[trigger] q[i][j] != sep by {
                if i == p.len() - 1 && j == p.last().len() {
                } else {
                    assert(q[i][j] == p[i][j]);
                }
            }
        }
    }
}

/// A sequence that holds `sep` splits into a first piece, the separator and
/// the rest.
pub proof fn lemma_split_first_piece(s: Seq<u8>, sep: u8)
    requires
        split_on(s, sep).len() >= 2,
    ensures
        split_on(s, sep)[0].len() < s.len(),
        s[split_on(s, sep)[0].len() as int] == sep,
        s.take(split_on(s, sep)[0].len() as int) == split_on(s, sep)[0],
    decreases s.len(),
{
    let init = s.drop_last();
    let p = split_on(init, sep);
    lemma_split_on_nonempty(init, sep);
    if p.len() >= 2 {
        lemma_split_first_piece(init, sep);
        if s.last() != sep {
            assert(split_on(s, sep)[0] == p[0]);
        }
        assert(s.take(p[0].len() as int) =~= init.take(p[0].len() as int));
    } else {
        // `init` holds no separator, so the last byte is the first one.
        lemma_split_join(init, sep);
        assert(join_with(p, sep) == p[0]);
        if s.last() != sep {
            assert(split_on(s, sep).len() == 1);
        }
        assert(split_on(s, sep)[0] == p[0]);
        assert(s.take(init.len() as int) =~= init);
    }
}

/// The contents of each vector of bytes.
pub open spec fn views(vs: Seq<Vec<u8>>) -> Seq<Seq<u8>> {
    vs.map_values(|v: Vec<u8>| v@)
}

/// Splits `s` at every `sep` (see `split_on`).
pub fn split_bytes(s: &[u8], sep: u8) -> (r: Vec<Vec<u8>>)
    ensures
        views(r@) == split_on(s@, sep),
{
    let mut done: Vec<Vec<u8>> = Vec::new();
    let mut cur: Vec<u8> = Vec::new();
    let mut i: usize = 0;
    assert(s@.take(0) =~= Seq::<u8>::empty());
    assert(views(done@).push(cur@) =~= split_on(s@.take(0), sep));
    while i < s.len()
        invariant
            i <= s@.len(),
            split_on(s@.take(i as int), sep) == views(done@).push(cur@),
        decreases s@.len() - i,
    {
        let b = s[i];
        let ghost before = views(done@).push(cur@);
        assert(s@.take(i + 1).drop_last() =~= s@.take(i as int));
        assert(s@.take(i + 1).last() == b);
        if b == sep {
            let finished = cur;
            done.push(finished);
            cur = Vec::new();
            assert(views(done@).push(cur@) =~= before.push(Seq::<u8>::empty()));
        } else {
            cur.push(b);
            assert(views(done@).push(cur@) =~= before.update(
                before.len() - 1,
                before.last().push(b),
            ));
        }
        i = i + 1;
    }
    assert(s@.take(i as int) =~= s@);
    let ghost before = views(done@).push(cur@);
    done.push(cur);
    assert(views(done@) =~= before);
    done
}

/// Whether `b` is one of the ASCII digits `0`..`9`.
pub open spec fn is_ascii_digit(b: u8) -> bool {
    ZERO <= b <= ZERO + 9
}

/// Why a text is not a `u8` in decimal notation (the kinds of
/// `std::num::IntErrorKind` that `u8::from_str` reports).
#[derive(Clone, Copy, Debug, PartialEq, Eq, Structural)]
pub enum IntParseError {
    /// The text is empty.
    Empty,
    /// The text holds a byte that is not a digit, or is a lone sign.
    InvalidDigit,
    /// The number is larger than 255.
    PosOverflow,
}

/// Reading the digits of `s` from the left onto the value `acc`, failing at
/// the first byte that is not a digit or that takes the value past 255.
pub open spec fn accumulate_u8(acc: nat, s: Seq<u8>) -> Result<u8, IntParseError>
    decreases s.len(),
{
    if s.len() == 0 {
        Ok(acc as u8)
    } else if !is_ascii_digit(s[0]) {
        Err(IntParseError::InvalidDigit)
    } else if acc * 10 + (s[0] - ZERO) > 255 {
        Err(IntParseError::PosOverflow)
    } else {
        accumulate_u8((acc * 10 + (s[0] - ZERO)) as nat, s.drop_first())
    }
}

/// `u8::from_str`: an optional `+` followed by at least one digit, with a
/// value of at most 255.
pub open spec fn parse_u8_spec(s: Seq<u8>) -> Result<u8, IntParseError> {
    if s.len() == 0 {
        Err(IntParseError::Empty)
    } else if s == seq![PLUS] {
        Err(IntParseError::InvalidDigit)
    } else if s[0] == PLUS {
        accumulate_u8(0, s.drop_first())
    } else {
        accumulate_u8(0, s)
    }
}

/// Reads `s[start..]` as decimal digits (see `accumulate_u8`).
pub fn accumulate_digits(s: &[u8], start: usize) -> (r: Result<u8, IntParseError>)
    requires
        start <= s@.len(),
    ensures
        r == accumulate_u8(0, s@.skip(start as int)),
{
    let mut acc: u8 = 0;
    let mut i: usize = start;
    while i < s.len()
        invariant
            start <= i <= s@.len(),
            accumulate_u8(0, s@.skip(start as int)) == accumulate_u8(acc as nat, s@.skip(i as int)),
        decreases s@.len() - i,
    {
        let b = s[i];
        assert(s@.skip(i as int)[0] == b);
        assert(s@.skip(i as int).drop_first() =~= s@.skip(i + 1));
        if b < ZERO || b > ZERO + 9 {
            return Err(IntParseError::InvalidDigit);
        }
        let d = b - ZERO;
        if acc > 25 || (acc == 25 && d > 5) {
            return Err(IntParseError::PosOverflow);
        }
        acc = acc * 10 + d;
        i = i + 1;
    }
    assert(s@.skip(i as int).len() == 0);
    Ok(acc)
}

/// `u8::from_str` on the bytes of a text.
pub fn parse_u8(s: &[u8]) -> (r: Result<u8, IntParseError>)
    ensures
        r == parse_u8_spec(s@),
{
    if s.len() == 0 {
        return Err(IntParseError::Empty);
    }
    if s[0] == PLUS {
        if s.len() == 1 {
            assert(s@ =~= seq![PLUS]);
            return Err(IntParseError::InvalidDigit);
        }
        assert(s@.drop_first() =~= s@.skip(1));
        accumulate_digits(s, 1)
    } else {
        assert(s@ != seq![PLUS]);
        assert(s@ =~= s@.skip(0));
        accumulate_digits(s, 0)
    }
}

/// The character of the decimal digit `d`.
pub open spec fn digit_char(d: nat) -> char {
    ((ZERO as nat) + d) as char
}

/// The decimal notation of `n`, without sign or leading zeros.
pub open spec fn decimal(n: nat) -> Seq<char>
    decreases n,
{
    if n < 10 {
        seq![digit_char(n)]
    } else {
        decimal(n / 10).push(digit_char(n % 10))
    }
}

/// The one-character text of the digit `d`.
pub fn digit_text(d: u32) -> (r: &'static str)
    requires
        d < 10,
    ensures
        r@ == seq![digit_char(d as nat)],
{
    if d == 0 {
        proof { reveal_strlit("0"); }
        assert("0"@ =~= seq![digit_char(0)]);
        "0"
    } else if d == 1 {
        proof { reveal_strlit("1"); }
        assert("1"@ =~= seq![digit_char(1)]);
        "1"
    } else if d == 2 {
        proof { reveal_strlit("2"); }
        assert("2"@ =~= seq![digit_char(2)]);
        "2"
    } else if d == 3 {
        proof { reveal_strlit("3"); }
        assert("3"@ =~= seq![digit_char(3)]);
        "3"
    } else if d == 4 {
        proof { reveal_strlit("4"); }
        assert("4"@ =~= seq![digit_char(4)]);
        "4"
    } else if d == 5 {
        proof { reveal_strlit("5"); }
        assert("5"@ =~= seq![digit_char(5)]);
        "5"
    } else if d == 6 {
        proof { reveal_strlit("6"); }
        assert("6"@ =~= seq![digit_char(6)]);
        "6"
    } else if d == 7 {
        proof { reveal_strlit("7"); }
        assert("7"@ =~= seq![digit_char(7)]);
        "7"
    } else if d == 8 {
        proof { reveal_strlit("8"); }
        assert("8"@ =~= seq![digit_char(8)]);
        "8"
    } else {
        proof { reveal_strlit("9"); }
        assert("9"@ =~= seq![digit_char(9)]);
        "9"
    }
}

/// The decimal notation of `n` (what `n.to_string()` gives).
pub fn decimal_text(n: u32) -> (r: String)
    ensures
        r@ == decimal(n as nat),
    decreases n,
{
    if n < 10 {
        String::from_str(digit_text(n))
    } else {
        let mut s = decimal_text(n / 10);
        s.append(digit_text(n % 10));
        s
    }
}

} // verus!

verus! {

/// The bytes of characters below 128, one byte per character.
pub open spec fn ascii_bytes(cs: Seq<char>) -> Seq<u8> {
    cs.map_values(|c: char| c as u8)
}

/// The bytes of the decimal notation of `n`.
pub open spec fn decimal_bytes(n: nat) -> Seq<u8> {
    ascii_bytes(decimal(n))
}

/// Splitting at a separator that stands between two texts splits each of them.
pub proof fn lemma_split_concat(a: Seq<u8>, b: Seq<u8>, sep: u8)
    ensures
        split_on(a.push(sep) + b, sep) == split_on(a, sep) + split_on(b, sep),
    decreases b.len(),
{
    if b.len() == 0 {
        assert(a.push(sep) + b =~= a.push(sep));
        assert(a.push(sep).drop_last() =~= a);
        assert(split_on(a, sep).push(Seq::<u8>::empty()) =~= split_on(a, sep) + split_on(b, sep));
    } else {
        let b0 = b.drop_last();
        lemma_split_concat(a, b0, sep);
        lemma_split_on_nonempty(b0, sep);
        lemma_split_on_nonempty(a, sep);
        let whole = a.push(sep) + b;
        assert(whole.drop_last() =~= a.push(sep) + b0);
        assert(whole.last() == b.last());
        let pa = split_on(a, sep);
        let pb = split_on(b0, sep);
        if b.last() == sep {
            assert((pa + pb).push(Seq::<u8>::empty()) =~= pa + pb.push(Seq::<u8>::empty()));
        } else {
            let p = pa + pb;
            assert(p.update(p.len() - 1, p.last().push(b.last())) =~= pa + pb.update(
                pb.len() - 1,
                pb.last().push(b.last()),
            ));
        }
    }
}

/// A text without the separator is one piece.
pub proof fn lemma_split_without_separator(s: Seq<u8>, sep: u8)
    requires
        forall|i: int| 0 <= i < s.len() ==> s[i] != sep,
    ensures
        split_on(s, sep) == seq![s],
    decreases s.len(),
{
    if s.len() == 0 {
        assert(s =~= Seq::<u8>::empty());
        assert(split_on(s, sep) =~= seq![s]);
    } else {
        assert(s[s.len() - 1] != sep);
        assert forall|i: int| 0 <= i < s.drop_last().len() implies s.drop_last()[i] != sep by {
            assert(s.drop_last()[i] == s[i]);
        }
        lemma_split_without_separator(s.drop_last(), sep);
        let p = split_on(s.drop_last(), sep);
        assert(p == seq![s.drop_last()]);
        assert(split_on(s, sep) == p.update(0, p[0].push(s.last())));
        assert(s.drop_last().push(s.last()) =~= s);
        assert(split_on(s, sep) =~= seq![s]);
    }
}

/// The ASCII bytes of a text of characters below 128 are its UTF-8 encoding.
pub proof fn lemma_encode_ascii(cs: Seq<char>)
    requires
        vstd::utf8::is_ascii_chars(cs),
    ensures
        vstd::utf8::encode_utf8(cs) == ascii_bytes(cs),
{
    vstd::utf8::is_ascii_chars_encode_utf8(cs);
    assert(vstd::utf8::encode_utf8(cs) =~= ascii_bytes(cs));
}

/// The decimal notation of a number: ASCII digits, one to three of them
/// below 1000, and a leading digit other than `0` unless the number is 0.
pub proof fn lemma_decimal_shape(n: nat)
    ensures
        decimal(n).len() >= 1,
        vstd::utf8::is_ascii_chars(decimal(n)),
        forall|i: int| 0 <= i < decimal(n).len() ==> is_ascii_digit(#[trigger] decimal_bytes(n)[i]),
        n < 10 ==> decimal(n).len() == 1,
        n < 100 ==> decimal(n).len() <= 2,
        n < 1000 ==> decimal(n).len() <= 3,
        n >= 1 ==> decimal_bytes(n)[0] != ZERO,
    decreases n,
{
    let last = digit_char(n % 10);
    assert(last as u8 == ZERO + n % 10);
    assert('\0' <= last <= '\u{7f}');
    if n >= 10 {
        lemma_decimal_shape(n / 10);
        let d = decimal(n / 10);
        assert(decimal(n)[0] == d[0]);
        assert(decimal_bytes(n)[0] == decimal_bytes(n / 10)[0]);
        assert forall|i: int| 0 <= i < decimal(n).len() implies is_ascii_digit(
            #[trigger] decimal_bytes(n)[i],
        ) by {
            if i < d.len() {
                assert(decimal_bytes(n)[i] == decimal_bytes(n / 10)[i]);
            }
        }
        assert forall|i: int| 0 <= i < decimal(n).len() implies '\0' <= #[trigger] decimal(n)[i]
            <= '\u{7f}' by {
            if i < d.len() {
                assert(decimal(n)[i] == d[i]);
            }
        }
    }
}

/// Law: the decimal notation of a number up to 255 reads back as that number,
/// both as digits and as `u8::from_str` reads it.
pub proof fn law_decimal_parses_back(n: nat)
    requires
        n <= 255,
    ensures
        accumulate_u8(0, decimal_bytes(n)) == Ok::<u8, IntParseError>(n as u8),
        parse_u8_spec(decimal_bytes(n)) == Ok::<u8, IntParseError>(n as u8),
    decreases n,
{
    lemma_decimal_shape(n);
    if n < 10 {
        let s = decimal_bytes(n);
        assert(s[0] == ZERO + n);
        assert(s.drop_first() =~= Seq::<u8>::empty());
        assert(accumulate_u8(n, s.drop_first()) == Ok::<u8, IntParseError>(n as u8));
    } else {
        law_decimal_parses_back(n / 10);
        lemma_decimal_shape(n / 10);
        let digit: u8 = (ZERO + n % 10) as u8;
        assert(decimal_bytes(n) =~= decimal_bytes(n / 10).push(digit));
        lemma_accumulate_push(0, decimal_bytes(n / 10), digit);
        assert(seq![digit].drop_first() =~= Seq::<u8>::empty());
        assert(accumulate_u8(n, seq![digit].drop_first()) == Ok::<u8, IntParseError>(n as u8));
        assert(accumulate_u8((n / 10) as nat, seq![digit]) == Ok::<u8, IntParseError>(n as u8));
    }
    let s = decimal_bytes(n);
    assert(is_ascii_digit(s[0]));
    assert(s[0] != PLUS);
    assert(s != seq![PLUS]);
}

/// Reading one more byte at the end continues from what the digits before
/// it gave.
pub proof fn lemma_accumulate_push(acc: nat, s: Seq<u8>, b: u8)
    requires
        acc <= 255,
    ensures
        accumulate_u8(acc, s.push(b)) == match accumulate_u8(acc, s) {
            Err(e) => Err(e),
            Ok(v) => accumulate_u8(v as nat, seq![b]),
        },
    decreases s.len(),
{
    if s.len() == 0 {
        assert(s.push(b) =~= seq![b]);
    } else {
        assert(s.push(b)[0] == s[0]);
        assert(s.push(b).drop_first() =~= s.drop_first().push(b));
        if is_ascii_digit(s[0]) && acc * 10 + (s[0] - ZERO) <= 255 {
            lemma_accumulate_push((acc * 10 + (s[0] - ZERO)) as nat, s.drop_first(), b);
        }
    }
}


/// Every character is one of the ASCII digits `0`..`9`.
pub open spec fn all_digits(s: Seq<char>) -> bool {
    forall|i: int| 0 <= i < s.len() ==> ZERO <= #[trigger] (s[i] as u32) <= ZERO + 9
}

/// The number that a text of digits denotes, read as a base-ten numeral.
pub open spec fn digits_value(s: Seq<char>) -> int
    decreases s.len(),
{
    if s.len() == 0 {
        0
    } else {
        digits_value(s.drop_last()) * 10 + (s.last() as u32 - ZERO)
    }
}

/// Law: the decimal notation of a number is a nonempty text of digits that
/// denotes that number.
pub proof fn law_decimal_reads_back(n: nat)
    ensures
        decimal(n).len() >= 1,
        all_digits(decimal(n)),
        digits_value(decimal(n)) == n,
    decreases n,
{
    let last = digit_char(n % 10);
    assert(last as u32 == ZERO + n % 10);
    if n < 10 {
        assert(decimal(n).drop_last() =~= Seq::<char>::empty());
        assert(decimal(n).last() == last);
        assert(digits_value(decimal(n)) == digits_value(decimal(n).drop_last()) * 10 + (last as u32
            - ZERO));
    } else {
        law_decimal_reads_back(n / 10);
        let d = decimal(n / 10);
        assert(decimal(n).drop_last() =~= d);
        assert(decimal(n).last() == last);
        assert(digits_value(decimal(n)) == digits_value(d) * 10 + (last as u32 - ZERO));
        assert forall|i: int| 0 <= i < decimal(n).len() implies ZERO <= #[trigger] (decimal(
            n,
        )[i] as u32) <= ZERO + 9 by {
            if i < d.len() {
                assert(decimal(n)[i] == d[i]);
            }
        }
    }
}

} // verus!

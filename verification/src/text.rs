//! Byte-level text utilities for the level-file format and the score
//! report: splitting into lines and whitespace-separated tokens, reading
//! and writing decimal numbers, and decoding bytes into owned text.

use vstd::prelude::*;
use vstd::slice::{slice_subrange, slice_to_vec};
use vstd::utf8::{decode_utf8, valid_utf8};

verus! {

/// ASCII whitespace, the token separators of the level format.
pub open spec fn spec_is_ws(b: u8) -> bool {
    b == 32 || b == 9 || b == 10 || b == 13 || b == 11 || b == 12
}

pub fn is_ws(b: u8) -> (r: bool)
    ensures
        r == spec_is_ws(b),
{
    b == 32 || b == 9 || b == 10 || b == 13 || b == 11 || b == 12
}

/// How many leading bytes fail the stopping test: the length of the run a
/// scan takes before `stop` first holds (or the whole sequence).
pub open spec fn scan_len(s: Seq<u8>, stop: spec_fn(u8) -> bool) -> int
    decreases s.len(),
{
    if s.len() == 0 || stop(s[0]) {
        0
    } else {
        1 + scan_len(s.drop_first(), stop)
    }
}

/// A scan stops somewhere within the sequence.
proof fn lemma_scan_len_bounds(s: Seq<u8>, stop: spec_fn(u8) -> bool)
    ensures
        0 <= scan_len(s, stop) <= s.len(),
    decreases s.len(),
{
    if !(s.len() == 0 || stop(s[0])) {
        lemma_scan_len_bounds(s.drop_first(), stop);
    }
}

/// A scan that sees `j` bytes failing the stopping test, then its end or a
/// stopping byte, takes exactly `j` bytes.
pub proof fn lemma_scan_len(s: Seq<u8>, stop: spec_fn(u8) -> bool, j: int)
    requires
        0 <= j <= s.len(),
        forall|t: int| 0 <= t < j ==> !stop(s[t]),
        j == s.len() || stop(s[j]),
    ensures
        scan_len(s, stop) == j,
    decreases j,
{
    if j > 0 {
        lemma_scan_len(s.drop_first(), stop, j - 1);
    }
}

/// The whitespace-separated tokens of a byte sequence, in order, with no
/// empty tokens.
pub open spec fn spec_tokens(s: Seq<u8>) -> Seq<Seq<u8>>
    decreases s.len(),
    via spec_tokens_decreases
{
    if s.len() == 0 {
        Seq::empty()
    } else if spec_is_ws(s[0]) {
        spec_tokens(s.drop_first())
    } else {
        let k = scan_len(s, |b: u8| spec_is_ws(b));
        seq![s.take(k)] + spec_tokens(s.skip(k))
    }
}

#[via_fn]
proof fn spec_tokens_decreases(s: Seq<u8>) {
    if s.len() > 0 && !spec_is_ws(s[0]) {
        lemma_scan_len_bounds(s, |b: u8| spec_is_ws(b));
        lemma_scan_len_bounds(s.drop_first(), |b: u8| spec_is_ws(b));
        assert(scan_len(s, |b: u8| spec_is_ws(b)) >= 1);
    }
}

/// Splits a byte sequence on whitespace.
pub fn tokenize(s: &[u8]) -> (r: Vec<Vec<u8>>)
    ensures
        r.deep_view() == spec_tokens(s@),
{
    let mut out: Vec<Vec<u8>> = Vec::new();
    let mut i: usize = 0;
    proof {
        assert(s@.skip(0) =~= s@);
        assert(out.deep_view() + spec_tokens(s@) =~~= spec_tokens(s@));
    }
    while i < s.len()
        invariant
            i <= s@.len(),
            spec_tokens(s@) == out.deep_view() + spec_tokens(s@.skip(i as int)),
        decreases s@.len() - i,
    {
        if is_ws(s[i]) {
            proof {
                assert(s@.skip(i as int).drop_first() =~= s@.skip(i + 1));
            }
            i = i + 1;
        } else {
            let start = i;
            let mut j = i + 1;
            while j < s.len() && !is_ws(s[j])
                invariant
                    start < j <= s@.len(),
                    forall|t: int| start <= t < j ==> !spec_is_ws(s@[t]),
                decreases s@.len() - j,
            {
                j = j + 1;
            }
            let token: Vec<u8> = slice_to_vec(slice_subrange(s, start, j));
            let ghost pre = out.deep_view();
            proof {
                let rest = s@.skip(start as int);
                lemma_scan_len(rest, |b: u8| spec_is_ws(b), j - start);
                assert(rest.take(j - start) =~= s@.subrange(start as int, j as int));
                assert(rest.skip(j - start) =~= s@.skip(j as int));
                assert((out.deep_view().push(token@)) =~~= (out.deep_view() + seq![token@]));
                assert(spec_tokens(s@) =~~= out.deep_view().push(token@) + spec_tokens(
                    s@.skip(j as int),
                ));
            }
            out.push(token);
            proof {
                assert(out.deep_view() =~~= pre.push(out@.last()@));
            }
            i = j;
        }
    }
    proof {
        assert(s@.skip(i as int) =~= Seq::<u8>::empty());
        assert(out.deep_view() + spec_tokens(s@.skip(i as int)) =~~= out.deep_view());
    }
    out
}

/// A line with a trailing carriage return loses it.
pub open spec fn spec_strip_cr(l: Seq<u8>) -> Seq<u8> {
    if l.len() > 0 && l.last() == 13 {
        l.drop_last()
    } else {
        l
    }
}

/// The lines of a byte sequence: split at each newline, a trailing carriage
/// return stripped from each line, and no phantom line after a final
/// newline.
pub open spec fn spec_lines(s: Seq<u8>) -> Seq<Seq<u8>>
    decreases s.len(),
    via spec_lines_decreases
{
    if s.len() == 0 {
        Seq::empty()
    } else {
        let k = scan_len(s, |b: u8| b == 10);
        seq![spec_strip_cr(s.take(k))] + spec_lines(
            if k < s.len() {
                s.skip(k + 1)
            } else {
                s.skip(k)
            },
        )
    }
}

#[via_fn]
proof fn spec_lines_decreases(s: Seq<u8>) {
    if s.len() > 0 {
        lemma_scan_len_bounds(s, |b: u8| b == 10);
    }
}

/// Splits a byte sequence into its lines.
pub fn split_lines(s: &[u8]) -> (r: Vec<Vec<u8>>)
    ensures
        r.deep_view() == spec_lines(s@),
{
    let mut out: Vec<Vec<u8>> = Vec::new();
    let mut i: usize = 0;
    proof {
        assert(s@.skip(0) =~= s@);
        assert(out.deep_view() + spec_lines(s@) =~~= spec_lines(s@));
    }
    while i < s.len()
        invariant
            i <= s@.len(),
            spec_lines(s@) == out.deep_view() + spec_lines(s@.skip(i as int)),
        decreases s@.len() - i,
    {
        let start = i;
        let mut j = i;
        while j < s.len() && s[j] != 10
            invariant
                start <= j <= s@.len(),
                forall|t: int| start <= t < j ==> s@[t] != 10,
            decreases s@.len() - j,
        {
            j = j + 1;
        }
        let end = if j > start && s[j - 1] == 13 {
            j - 1
        } else {
            j
        };
        let line: Vec<u8> = slice_to_vec(slice_subrange(s, start, end));
        let ghost pre = out.deep_view();
        proof {
            let rest = s@.skip(start as int);
            lemma_scan_len(rest, |b: u8| b == 10, j - start);
            assert(rest.take(j - start) =~= s@.subrange(start as int, j as int));
            assert(line@ =~= spec_strip_cr(rest.take(j - start)));
            if j < s@.len() {
                assert(rest.skip(j - start + 1) =~= s@.skip(j + 1));
            } else {
                assert(rest.skip(j - start) =~= s@.skip(j as int));
            }
            assert((out.deep_view().push(line@)) =~~= (out.deep_view() + seq![line@]));
            assert(spec_lines(s@) =~~= out.deep_view().push(line@) + spec_lines(
                if j < s@.len() {
                    s@.skip(j + 1)
                } else {
                    s@.skip(j as int)
                },
            ));
        }
        out.push(line);
        proof {
            assert(out.deep_view() =~~= pre.push(out@.last()@));
        }
        i = if j < s.len() {
            j + 1
        } else {
            j
        };
    }
    proof {
        assert(s@.skip(i as int) =~= Seq::<u8>::empty());
        assert(out.deep_view() + spec_lines(s@.skip(i as int)) =~~= out.deep_view());
    }
    out
}

/// ASCII decimal digits.
pub open spec fn spec_is_digit(b: u8) -> bool {
    48 <= b <= 57
}

pub open spec fn spec_all_digits(s: Seq<u8>) -> bool {
    forall|i: int| 0 <= i < s.len() ==> spec_is_digit(#[trigger] s[i])
}

/// The value a sequence of decimal digits denotes.
pub open spec fn spec_digits_val(s: Seq<u8>) -> int
    decreases s.len(),
{
    if s.len() == 0 {
        0
    } else {
        spec_digits_val(s.drop_last()) * 10 + (s.last() - 48)
    }
}

/// A longer digit run never denotes a smaller value.
proof fn lemma_digits_val_monotone(s: Seq<u8>, i: int)
    requires
        0 <= i <= s.len(),
        spec_all_digits(s),
    ensures
        spec_digits_val(s) >= spec_digits_val(s.take(i)),
        spec_digits_val(s.take(i)) >= 0,
    decreases s.len() - i,
{
    if i == s.len() {
        assert(s.take(i) =~= s);
        lemma_digits_val_nonneg(s);
    } else {
        lemma_digits_val_monotone(s, i + 1);
        assert(s.take(i + 1).drop_last() =~= s.take(i));
        lemma_digits_val_nonneg(s.take(i));
    }
}

proof fn lemma_digits_val_nonneg(s: Seq<u8>)
    requires
        spec_all_digits(s),
    ensures
        spec_digits_val(s) >= 0,
    decreases s.len(),
{
    if s.len() > 0 {
        assert(spec_all_digits(s.drop_last()));
        lemma_digits_val_nonneg(s.drop_last());
    }
}

/// What an optionally signed decimal token denotes: one leading `+` or `-`
/// then at least one digit, or nothing.
pub open spec fn spec_parse_int(s: Seq<u8>) -> Option<int> {
    if s.len() > 0 && (s[0] == 43 || s[0] == 45) {
        match spec_parse_uint(s.drop_first()) {
            Some(v) => if s[0] == 45 {
                Some(-v)
            } else {
                Some(v)
            },
            None => None,
        }
    } else {
        spec_parse_uint(s)
    }
}

/// What an unsigned decimal token (digits only) denotes.
pub open spec fn spec_parse_uint(s: Seq<u8>) -> Option<int> {
    if s.len() > 0 && spec_all_digits(s) {
        Some(spec_digits_val(s))
    } else {
        None
    }
}

/// Reads the digits of `s` from position `from` on: their value when they
/// are at least one, all digits, and fit a `u64`.
fn parse_digits_u64(s: &[u8], from: usize) -> (r: Option<u64>)
    requires
        from <= s@.len(),
    ensures
        match r {
            Some(v) => spec_parse_uint(s@.skip(from as int)) == Some(v as int),
            None => spec_parse_uint(s@.skip(from as int)) is None || spec_parse_uint(
                s@.skip(from as int),
            ).unwrap() > u64::MAX,
        },
{
    let ghost rest = s@.skip(from as int);
    if from == s.len() {
        return None;
    }
    let mut acc: u64 = 0;
    let mut i: usize = from;
    while i < s.len()
        invariant
            from <= i <= s@.len(),
            rest == s@.skip(from as int),
            s@.len() > from,
            forall|t: int| from <= t < i ==> spec_is_digit(#[trigger] s@[t]),
            acc as int == spec_digits_val(rest.take(i - from)),
        decreases s@.len() - i,
    {
        let b = s[i];
        if !(48 <= b && b <= 57) {
            proof {
                assert(rest[i - from] == s@[i as int]);
                assert(!spec_all_digits(rest));
            }
            return None;
        }
        let d = (b - 48) as u64;
        if acc > u64::MAX / 10 || (acc == u64::MAX / 10 && d > u64::MAX % 10) {
            proof {
                assert(rest.take(i - from + 1).drop_last() =~= rest.take(i - from));
                assert(rest.take(i - from + 1).last() == s@[i as int]);
                assert(spec_digits_val(rest.take(i - from + 1)) > u64::MAX);
                if spec_all_digits(rest) {
                    lemma_digits_val_monotone(rest, i - from + 1);
                }
            }
            return None;
        }
        proof {
            assert(rest.take(i - from + 1).drop_last() =~= rest.take(i - from));
            assert(rest.take(i - from + 1).last() == s@[i as int]);
        }
        acc = acc * 10 + d;
        i = i + 1;
    }
    proof {
        assert(rest.take(i - from) =~= rest);
        assert(spec_all_digits(rest));
    }
    Some(acc)
}

/// Reads an optionally signed decimal token as an `i32`; `None` for bad
/// syntax or a value out of range, exactly as the token's denotation says.
pub fn parse_i32(s: &[u8]) -> (r: Option<i32>)
    ensures
        match r {
            Some(v) => spec_parse_int(s@) == Some(v as int),
            None => match spec_parse_int(s@) {
                Some(v) => v < i32::MIN || v > i32::MAX,
                None => true,
            },
        },
{
    let (neg, from): (bool, usize) = if s.len() > 0 && (s[0] == 43 || s[0] == 45) {
        (s[0] == 45, 1)
    } else {
        (false, 0)
    };
    proof {
        if from == 1 {
            assert(s@.skip(1) =~= s@.drop_first());
        } else {
            assert(s@.skip(0) =~= s@);
        }
    }
    match parse_digits_u64(s, from) {
        Some(m) => {
            if neg {
                if m > 0x8000_0000u64 {
                    None
                } else if m == 0x8000_0000u64 {
                    Some(i32::MIN)
                } else {
                    Some(-(m as i32))
                }
            } else {
                if m > 0x7fff_ffffu64 {
                    None
                } else {
                    Some(m as i32)
                }
            }
        },
        None => None,
    }
}

/// Reads an unsigned decimal token (a leading `+` allowed) as a `usize`;
/// `None` for bad syntax or a value out of range.
pub fn parse_usize(s: &[u8]) -> (r: Option<usize>)
    ensures
        match r {
            Some(v) => spec_parse_plus_uint(s@) == Some(v as int),
            None => match spec_parse_plus_uint(s@) {
                Some(v) => v > usize::MAX,
                None => true,
            },
        },
{
    let from: usize = if s.len() > 0 && s[0] == 43 {
        1
    } else {
        0
    };
    proof {
        if from == 1 {
            assert(s@.skip(1) =~= s@.drop_first());
        } else {
            assert(s@.skip(0) =~= s@);
        }
    }
    match parse_digits_u64(s, from) {
        Some(m) => {
            if m <= usize::MAX as u64 {
                Some(m as usize)
            } else {
                None
            }
        },
        None => None,
    }
}

/// What an unsigned decimal token with one optional leading `+` denotes.
pub open spec fn spec_parse_plus_uint(s: Seq<u8>) -> Option<int> {
    if s.len() > 0 && s[0] == 43 {
        spec_parse_uint(s.drop_first())
    } else {
        spec_parse_uint(s)
    }
}

/// The decimal digit characters.
pub open spec fn spec_digit_char(d: int) -> char {
    if d == 0 {
        '0'
    } else if d == 1 {
        '1'
    } else if d == 2 {
        '2'
    } else if d == 3 {
        '3'
    } else if d == 4 {
        '4'
    } else if d == 5 {
        '5'
    } else if d == 6 {
        '6'
    } else if d == 7 {
        '7'
    } else if d == 8 {
        '8'
    } else {
        '9'
    }
}

/// The decimal rendering of a number, most significant digit first.
pub open spec fn spec_dec(n: nat) -> Seq<char>
    decreases n,
{
    if n < 10 {
        seq![spec_digit_char(n as int)]
    } else {
        spec_dec(n / 10).push(spec_digit_char((n % 10) as int))
    }
}

fn digit_str(d: u64) -> (r: &'static str)
    requires
        d < 10,
    ensures
        r@ =~= seq![spec_digit_char(d as int)],
{
    proof {
        reveal_strlit("0");
        reveal_strlit("1");
        reveal_strlit("2");
        reveal_strlit("3");
        reveal_strlit("4");
        reveal_strlit("5");
        reveal_strlit("6");
        reveal_strlit("7");
        reveal_strlit("8");
        reveal_strlit("9");
    }
    match d {
        0 => "0",
        1 => "1",
        2 => "2",
        3 => "3",
        4 => "4",
        5 => "5",
        6 => "6",
        7 => "7",
        8 => "8",
        _ => "9",
    }
}

/// Renders a number in decimal.
pub fn u64_to_string(n: u64) -> (r: String)
    ensures
        r@ == spec_dec(n as nat),
    decreases n,
{
    if n < 10 {
        digit_str(n).to_owned()
    } else {
        let mut s = u64_to_string(n / 10);
        s.append(digit_str(n % 10));
        proof {
            assert(spec_dec((n / 10) as nat) + seq![
                spec_digit_char((n % 10) as int),
            ] =~= spec_dec(n as nat));
        }
        s
    }
}

/// The text that decoding a byte sequence yields, replacement characters
/// and all; a function of the bytes alone.
pub uninterp spec fn decoded_text(v: Seq<u8>) -> Seq<char>;

/// Relies on String::from_utf8_lossy: the result depends on the bytes
/// alone, and on well-formed UTF-8 it is exactly their decoding.
#[verifier::external_body]
pub(crate) fn bytes_to_string(v: &[u8]) -> (r: String)
    ensures
        r@ == decoded_text(v@),
        valid_utf8(v@) ==> r@ == decode_utf8(v@),
{
    String::from_utf8_lossy(v).into_owned()
}

} // verus!

//! Character classes and decimal numbers over the characters of a string.
use vstd::prelude::*;

verus! {

/// An ASCII decimal digit.
pub open spec fn is_digit(c: char) -> bool {
    '0' <= c && c <= '9'
}

/// One of the characters that may separate the parts of a version.
pub open spec fn is_separator(c: char) -> bool {
    c == '-' || c == '_' || c == '.'
}

/// An ASCII letter or digit.
pub open spec fn is_alphanumeric(c: char) -> bool {
    is_digit(c) || ('a' <= c && c <= 'z') || ('A' <= c && c <= 'Z')
}

/// White space as Unicode's White_Space property defines it: tab, line feed,
/// vertical tab, form feed, carriage return, space, next line, no-break space,
/// ogham space mark, the spaces U+2000 to U+200A, line and paragraph
/// separators, narrow no-break space, medium mathematical space and
/// ideographic space.
pub open spec fn is_space(c: char) -> bool {
    ('\u{9}' <= c && c <= '\u{d}') || c == ' ' || c == '\u{85}' || c == '\u{a0}' || c
        == '\u{1680}' || ('\u{2000}' <= c && c <= '\u{200a}') || c == '\u{2028}' || c
        == '\u{2029}' || c == '\u{202f}' || c == '\u{205f}' || c == '\u{3000}'
}

/// Whether `c` is white space.
pub fn space(c: char) -> (r: bool)
    ensures
        r == is_space(c),
{
    ('\u{9}' <= c && c <= '\u{d}') || c == ' ' || c == '\u{85}' || c == '\u{a0}' || c
        == '\u{1680}' || ('\u{2000}' <= c && c <= '\u{200a}') || c == '\u{2028}' || c
        == '\u{2029}' || c == '\u{202f}' || c == '\u{205f}' || c == '\u{3000}'
}

/// The value of one decimal digit.
pub open spec fn digit_value(c: char) -> int {
    c as int - '0' as int
}

/// The number that the decimal digits `d` write, most significant first.
pub open spec fn digits_value(d: Seq<char>) -> int
    decreases d.len(),
{
    if d.len() == 0 {
        0
    } else {
        digits_value(d.drop_last()) * 10 + digit_value(d.last())
    }
}

/// A prefix of a run of digits never writes a larger number than the whole run.
pub proof fn lemma_digits_value_prefix(d: Seq<char>, j: int)
    requires
        0 <= j <= d.len(),
        forall|k: int| 0 <= k < d.len() ==> is_digit(#[trigger] d[k]),
    ensures
        0 <= digits_value(d.subrange(0, j)) <= digits_value(d),
    decreases d.len(),
{
    if d.len() > 0 {
        let front = d.drop_last();
        assert(forall|k: int| 0 <= k < front.len() ==> #[trigger] front[k] == d[k]);
        if j < d.len() {
            lemma_digits_value_prefix(front, j);
            assert(front.subrange(0, j) =~= d.subrange(0, j));
        } else {
            lemma_digits_value_prefix(front, front.len() as int);
            assert(front.subrange(0, front.len() as int) =~= front);
            assert(d.subrange(0, j) =~= d);
        }
    }
}

/// The characters of `s`, one element each.
pub fn chars_of(s: &str) -> (r: Vec<char>)
    ensures
        r@ == s@,
{
    let mut v: Vec<char> = Vec::new();
    for c in it: s.chars()
        invariant
            v@ == it.seq().take(it.index() as int),
            it.seq() == s@,
    {
        v.push(c);
    }
    v
}

/// Whether `t[i]` exists and satisfies the digit class.
pub fn digit_at(t: &[char], i: usize) -> (r: bool)
    ensures
        r == (i < t@.len() && is_digit(t@[i as int])),
{
    i < t.len() && '0' <= t[i] && t[i] <= '9'
}

/// Whether `t[i]` exists and is a separator.
pub fn separator_at(t: &[char], i: usize) -> (r: bool)
    ensures
        r == (i < t@.len() && is_separator(t@[i as int])),
{
    i < t.len() && (t[i] == '-' || t[i] == '_' || t[i] == '.')
}

/// Whether `t[i]` exists and is an ASCII letter or digit.
pub fn alphanumeric_at(t: &[char], i: usize) -> (r: bool)
    ensures
        r == (i < t@.len() && is_alphanumeric(t@[i as int])),
{
    i < t.len() && (('0' <= t[i] && t[i] <= '9') || ('a' <= t[i] && t[i] <= 'z') || ('A' <= t[i]
        && t[i] <= 'Z'))
}

/// Reads the digits `t[start..end]` as a `u32`, or `None` where the number exceeds `u32::MAX`.
pub fn parse_u32(t: &[char], start: usize, end: usize) -> (r: Option<u32>)
    requires
        start <= end <= t@.len(),
        forall|k: int| start <= k < end ==> is_digit(#[trigger] t@[k]),
    ensures
        match r {
            Some(n) => n as int == digits_value(t@.subrange(start as int, end as int)),
            None => digits_value(t@.subrange(start as int, end as int)) > u32::MAX,
        },
{
    let ghost whole = t@.subrange(start as int, end as int);
    let mut n: u32 = 0;
    let mut k: usize = start;
    assert(t@.subrange(start as int, start as int) =~= Seq::<char>::empty());
    while k < end
        invariant
            start <= k <= end <= t@.len(),
            whole == t@.subrange(start as int, end as int),
            forall|j: int| start <= j < end ==> is_digit(#[trigger] t@[j]),
            n as int == digits_value(t@.subrange(start as int, k as int)),
        decreases end - k,
    {
        let c = t[k];
        assert(is_digit(t@[k as int]));
        let d: u32 = (c as u32) - ('0' as u32);
        let next: u64 = n as u64 * 10 + d as u64;
        let ghost upto = t@.subrange(start as int, k + 1);
        assert(upto.drop_last() =~= t@.subrange(start as int, k as int));
        assert(digits_value(upto) == n as int * 10 + d as int);
        if next > u32::MAX as u64 {
            proof {
                assert(whole.subrange(0, k + 1 - start) =~= upto);
                lemma_digits_value_prefix(whole, k + 1 - start);
            }
            return None;
        }
        n = next as u32;
        k = k + 1;
    }
    assert(t@.subrange(start as int, k as int) =~= whole);
    Some(n)
}

} // verus!

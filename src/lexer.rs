//! Tokens: whitespace splitting, exact string comparison, decimal integers and
//! case folding.

use vstd::prelude::*;
use vstd::string::*;
use crate::isa::views;

verus! {

/// Unicode White_Space, the property that `char::is_whitespace` tests.
pub open spec fn is_space(c: char) -> bool {
    ('\u{9}' <= c && c <= '\u{d}') || c == ' ' || c == '\u{85}' || c == '\u{a0}'
        || c == '\u{1680}' || ('\u{2000}' <= c && c <= '\u{200a}') || c == '\u{2028}'
        || c == '\u{2029}' || c == '\u{202f}' || c == '\u{205f}' || c == '\u{3000}'
}

pub fn space(c: char) -> (r: bool)
    ensures
        r == is_space(c),
{
    ('\u{9}' <= c && c <= '\u{d}') || c == ' ' || c == '\u{85}' || c == '\u{a0}'
        || c == '\u{1680}' || ('\u{2000}' <= c && c <= '\u{200a}') || c == '\u{2028}'
        || c == '\u{2029}' || c == '\u{202f}' || c == '\u{205f}' || c == '\u{3000}'
}

/// The words of `s` after the partial word `cur`: maximal runs of
/// non-whitespace characters, in order.
pub open spec fn words_from(s: Seq<char>, cur: Seq<char>) -> Seq<Seq<char>>
    decreases s.len(),
{
    if s.len() == 0 {
        if cur.len() == 0 {
            seq![]
        } else {
            seq![cur]
        }
    } else if is_space(s[0]) {
        if cur.len() == 0 {
            words_from(s.skip(1), cur)
        } else {
            seq![cur] + words_from(s.skip(1), seq![])
        }
    } else {
        words_from(s.skip(1), cur.push(s[0]))
    }
}

/// The whitespace-separated words of `s`.
pub open spec fn words(s: Seq<char>) -> Seq<Seq<char>> {
    words_from(s, seq![])
}

/// Splits `line` into its whitespace-separated words.
pub fn split_words(line: &str) -> (r: Vec<String>)
    ensures
        views(r@) == words(line@),
{
    let n = line.unicode_len();
    let mut out: Vec<String> = Vec::new();
    let mut start: usize = 0;
    let mut i: usize = 0;
    proof {
        assert(line@.skip(0) =~= line@);
        assert(line@.subrange(0, 0) =~= seq![]);
        assert(views(out@) =~= seq![]);
        assert(views(out@) + words(line@) =~= words(line@));
    }
    while i < n
        invariant
            n == line@.len(),
            start <= i <= n,
            views(out@) + words_from(line@.skip(i as int), line@.subrange(start as int, i as int))
                == words(line@),
        decreases n - i,
    {
        let c = line.get_char(i);
        let ghost s = line@.skip(i as int);
        let ghost cur = line@.subrange(start as int, i as int);
        assert(s[0] == c);
        assert(s.skip(1) =~= line@.skip(i + 1));
        if space(c) {
            if start < i {
                let w = line.substring_char(start, i).to_owned();
                proof {
                    assert(views(out@.push(w)) =~= views(out@).push(cur));
                    assert(line@.subrange(i + 1, i + 1) =~= seq![]);
                    assert(seq![cur] + words_from(s.skip(1), seq![]) =~= seq![cur].add(
                        words_from(s.skip(1), seq![]),
                    ));
                    assert(views(out@).push(cur) + words_from(s.skip(1), seq![]) =~= views(out@)
                        + (seq![cur] + words_from(s.skip(1), seq![])));
                }
                out.push(w);
            } else {
                assert(cur =~= line@.subrange(i + 1, i + 1));
            }
            start = i + 1;
        } else {
            assert(cur.push(c) =~= line@.subrange(start as int, i + 1));
        }
        i = i + 1;
    }
    if start < n {
        let w = line.substring_char(start, n).to_owned();
        proof {
            assert(views(out@.push(w)) =~= views(out@) + seq![line@.subrange(start as int, n as int)]);
        }
        out.push(w);
    } else {
        assert(views(out@) + seq![] =~= views(out@));
    }
    out
}

/// Exact comparison of two strings.
pub fn same_text(a: &str, b: &str) -> (r: bool)
    ensures
        r == (a@ == b@),
{
    let n = a.unicode_len();
    if n != b.unicode_len() {
        return false;
    }
    let mut i: usize = 0;
    while i < n
        invariant
            n == a@.len(),
            n == b@.len(),
            i <= n,
            forall|k: int| 0 <= k < i ==> a@[k] == b@[k],
        decreases n - i,
    {
        if a.get_char(i) != b.get_char(i) {
            return false;
        }
        i = i + 1;
    }
    assert(a@ =~= b@);
    true
}

pub open spec fn is_digit(c: char) -> bool {
    '0' <= c && c <= '9'
}

/// A non-empty run of ASCII decimal digits.
pub open spec fn all_digits(s: Seq<char>) -> bool {
    s.len() > 0 && forall|i: int| 0 <= i < s.len() ==> is_digit(#[trigger] s[i])
}

/// The value of a run of decimal digits.
pub open spec fn digits_value(s: Seq<char>) -> int
    decreases s.len(),
{
    if s.len() == 0 {
        0
    } else {
        10 * digits_value(s.drop_last()) + ((s.last() as u32) - ('0' as u32))
    }
}

/// The integer that `s` writes in decimal: an optional `+` or `-`, then digits.
pub open spec fn decimal_value(s: Seq<char>) -> Option<int> {
    if s.len() > 0 && s[0] == '-' {
        if all_digits(s.skip(1)) {
            Some(-digits_value(s.skip(1)))
        } else {
            None
        }
    } else if s.len() > 0 && s[0] == '+' {
        if all_digits(s.skip(1)) {
            Some(digits_value(s.skip(1)))
        } else {
            None
        }
    } else if all_digits(s) {
        Some(digits_value(s))
    } else {
        None
    }
}

/// Relies on `str::parse::<i32>` (`i32::from_str`): it accepts an optional sign
/// followed by decimal digits whose value fits in an `i32`, and nothing else.
#[verifier::external_body]
pub(crate) fn parse_i32(s: &str) -> (r: Option<i32>)
    ensures
        r matches Some(v) ==> decimal_value(s@) == Some(v as int),
        r is None ==> !(decimal_value(s@) matches Some(v) && i32::MIN <= v <= i32::MAX),
{
    s.parse::<i32>().ok()
}

/// Unicode upper-case mapping of a string, as `str::to_uppercase` computes it.
pub uninterp spec fn upper_of(s: Seq<char>) -> Seq<char>;

/// Relies on `str::to_uppercase`: the Unicode upper-case mapping, which depends
/// on the characters alone.
#[verifier::external_body]
pub(crate) fn to_upper(s: &str) -> (r: String)
    ensures
        r@ == upper_of(s@),
{
    s.to_uppercase()
}

} // verus!

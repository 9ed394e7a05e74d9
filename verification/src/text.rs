//! Small operations on text that the rest of the crate shares.

use vstd::prelude::*;
use vstd::string::StringExecFns;

verus! {

/// The character appended to a text that was cut short.
pub const ELLIPSIS: char = '…';

/// `pattern` occurs in `text` starting at character `i`.
pub open spec fn occurs_at(text: Seq<char>, pattern: Seq<char>, i: int) -> bool {
    &&& 0 <= i
    &&& i + pattern.len() <= text.len()
    &&& text.subrange(i, i + pattern.len()) == pattern
}

/// `pattern` occurs somewhere in `text`.
pub open spec fn has_substring(text: Seq<char>, pattern: Seq<char>) -> bool {
    exists|i: int| occurs_at(text, pattern, i)
}

/// `text` cut to at most `max_len` characters, with the ellipsis appended
/// when something was cut off.
pub open spec fn truncated(text: Seq<char>, max_len: nat) -> Seq<char> {
    if text.len() <= max_len {
        text
    } else {
        text.subrange(0, max_len as int).push(ELLIPSIS)
    }
}

/// The decimal digit for `d`, for `d` below ten.
pub open spec fn digit_char(d: nat) -> char {
    if d == 0 {
        '0'
    } else if d == 1 {
        '1'
    } else if d == 2 {
        '2'
    } else if d == 3 {
        '3'
    } else if d == 4 {
        '4'
    } else if d == 5 {
        '5'
    } else if d == 6 {
        '6'
    } else if d == 7 {
        '7'
    } else if d == 8 {
        '8'
    } else {
        '9'
    }
}

/// `n` written in decimal, without sign or leading zeros.
pub open spec fn decimal_text(n: nat) -> Seq<char>
    decreases n,
{
    if n < 10 {
        seq![digit_char(n)]
    } else {
        decimal_text(n / 10).push(digit_char(n % 10))
    }
}

/// Compares two string slices with `str`'s own `==`: true exactly when they
/// hold the same characters.
#[verifier::external_body]
pub(crate) fn same_text(a: &str, b: &str) -> (r: bool)
    ensures
        r == (a@ == b@),
{
    a == b
}

/// Calls `str::contains` with a string pattern: true exactly when the
/// pattern matches a sub-slice of the text.
#[verifier::external_body]
pub(crate) fn text_contains(text: &str, pattern: &str) -> (r: bool)
    ensures
        r == has_substring(text@, pattern@),
{
    text.contains(pattern)
}

/// A new string holding `a` followed by `b`.
pub fn join(a: &str, b: &str) -> (r: String)
    ensures
        r@ == a@ + b@,
{
    let mut out = String::from_str(a);
    out.append(b);
    out
}

/// Cuts `s` to at most `max_len` characters (not bytes) and marks the cut
/// with a single ellipsis character.
pub fn truncate_string(s: &str, max_len: usize) -> (r: String)
    ensures
        r@ == truncated(s@, max_len as nat),
{
    if s.unicode_len() <= max_len {
        String::from_str(s)
    } else {
        let mut out = String::from_str(s.substring_char(0, max_len));
        proof {
            reveal_strlit("…");
        }
        out.append("…");
        assert(out@ =~= s@.subrange(0, max_len as int).push(ELLIPSIS));
        out
    }
}

fn digit_str(d: u64) -> (r: &'static str)
    requires
        d < 10,
    ensures
        r@ == seq![digit_char(d as nat)],
{
    proof {
        reveal_strlit("0");
        reveal_strlit("1");
        reveal_strlit("2");
        reveal_strlit("3");
        reveal_strlit("4");
        reveal_strlit("5");
        reveal_strlit("6");
        reveal_strlit("7");
        reveal_strlit("8");
        reveal_strlit("9");
    }
    let r = if d == 0 {
        "0"
    } else if d == 1 {
        "1"
    } else if d == 2 {
        "2"
    } else if d == 3 {
        "3"
    } else if d == 4 {
        "4"
    } else if d == 5 {
        "5"
    } else if d == 6 {
        "6"
    } else if d == 7 {
        "7"
    } else if d == 8 {
        "8"
    } else {
        "9"
    };
    assert(r@ =~= seq![digit_char(d as nat)]);
    r
}

/// Writes `n` in decimal.
pub fn decimal_string(n: u64) -> (r: String)
    ensures
        r@ == decimal_text(n as nat),
    decreases n,
{
    if n < 10 {
        String::from_str(digit_str(n))
    } else {
        let mut out = decimal_string(n / 10);
        out.append(digit_str(n % 10));
        assert(out@ =~= decimal_text((n / 10) as nat).push(digit_char((n % 10) as nat)));
        out
    }
}

/// The truncation keeps a text that fits and otherwise keeps exactly the
/// first `max_len` characters, followed by one ellipsis.
pub proof fn truncation_law(text: Seq<char>, max_len: nat)
    ensures
        text.len() <= max_len ==> truncated(text, max_len) == text,
        text.len() > max_len ==> truncated(text, max_len).len() == max_len + 1,
        text.len() > max_len ==> truncated(text, max_len).last() == ELLIPSIS,
        text.len() > max_len ==> forall|i: int|
            0 <= i < max_len ==> truncated(text, max_len)[i] == text[i],
{
}

/// A text into which `pattern` was spliced contains it; so does the
/// pattern alone.
pub proof fn substring_of_embedding(before: Seq<char>, pattern: Seq<char>, after: Seq<char>)
    ensures
        has_substring(before + pattern + after, pattern),
        has_substring(pattern, pattern),
{
    let text = before + pattern + after;
    let start = before.len() as int;
    assert(text.subrange(start, start + pattern.len()) =~= pattern);
    assert(occurs_at(text, pattern, before.len() as int));
    assert(pattern.subrange(0int, 0int + pattern.len()) =~= pattern);
    assert(occurs_at(pattern, pattern, 0));
}

/// A text shorter than the pattern does not contain it.
pub proof fn substring_needs_room(text: Seq<char>, pattern: Seq<char>)
    requires
        text.len() < pattern.len(),
    ensures
        !has_substring(text, pattern),
{
}

} // verus!

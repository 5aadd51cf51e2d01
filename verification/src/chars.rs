//! Character properties and string building that the editor takes from the
//! standard library.

use vstd::prelude::*;

verus! {

/// The lowercase mapping of `c` (possibly several characters long).
pub uninterp spec fn lowercase_of(c: char) -> Seq<char>;

/// Whether `c` has the Unicode `White_Space` property.
pub uninterp spec fn is_unicode_whitespace(c: char) -> bool;

/// Whether `c` is Unicode alphabetic or numeric.
pub uninterp spec fn is_unicode_alphanumeric(c: char) -> bool;

/// `c` is an ASCII character.
pub open spec fn is_ascii_char(c: char) -> bool {
    (c as u32) < 0x80
}

/// The ASCII lowercase of `c`: `A`..`Z` become `a`..`z`, anything else
/// stays.
pub open spec fn ascii_lower(c: char) -> char {
    if 0x41 <= (c as u32) && (c as u32) <= 0x5A {
        ((c as u32) + 32) as char
    } else {
        c
    }
}

/// The ASCII characters with the `White_Space` property: tab, line feed,
/// vertical tab, form feed, carriage return and space.
pub open spec fn is_ascii_white_space(c: char) -> bool {
    (0x09 <= (c as u32) && (c as u32) <= 0x0D) || (c as u32) == 0x20
}

/// ASCII letters and digits.
pub open spec fn is_ascii_letter_or_digit(c: char) -> bool {
    ||| (0x30 <= (c as u32) && (c as u32) <= 0x39)
    ||| (0x41 <= (c as u32) && (c as u32) <= 0x5A)
    ||| (0x61 <= (c as u32) && (c as u32) <= 0x7A)
}

/// Calls `char::to_lowercase` and collects the characters it yields.
/// Claims that they are the named lowercase mapping of `c`; that (as the
/// documentation says) there is at least one of them; and that an ASCII
/// character maps to its ASCII lowercase alone.
#[verifier::external_body]
pub(crate) fn to_lowercase(c: char) -> (r: Vec<char>)
    ensures
        r@ == lowercase_of(c),
        r@.len() >= 1,
        is_ascii_char(c) ==> r@ == seq![ascii_lower(c)],
{
    c.to_lowercase().collect()
}

/// Calls `char::is_whitespace`. Claims that the answer is the named
/// `White_Space` property of `c`, which among ASCII characters holds of
/// exactly tab, line feed, vertical tab, form feed, carriage return and
/// space.
#[verifier::external_body]
pub(crate) fn is_whitespace(c: char) -> (r: bool)
    ensures
        r == is_unicode_whitespace(c),
        is_ascii_char(c) ==> (r <==> is_ascii_white_space(c)),
{
    c.is_whitespace()
}

/// Calls `char::is_alphanumeric`. Claims that the answer is the named
/// alphanumeric property of `c`, which among ASCII characters holds of
/// exactly the letters and digits.
#[verifier::external_body]
pub(crate) fn is_alphanumeric(c: char) -> (r: bool)
    ensures
        r == is_unicode_alphanumeric(c),
        is_ascii_char(c) ==> (r <==> is_ascii_letter_or_digit(c)),
{
    c.is_alphanumeric()
}

/// Calls `String::push`, which appends one character.
#[verifier::external_body]
pub(crate) fn push_char(s: &mut String, c: char)
    ensures
        final(s)@ == old(s)@.push(c),
{
    s.push(c)
}

/// Calls `String::pop`, which removes and returns the last character, if
/// there is one.
#[verifier::external_body]
pub(crate) fn pop_char(s: &mut String) -> (r: Option<char>)
    ensures
        old(s)@.len() > 0 ==> r == Some(old(s)@.last()) && final(s)@ == old(s)@.drop_last(),
        old(s)@.len() == 0 ==> r is None && final(s)@ == old(s)@,
{
    s.pop()
}

/// Whether two characters are equal, comparing lowercase mappings when the
/// comparison ignores case.
pub open spec fn chars_match(a: char, b: char, case_sensitive: bool) -> bool {
    if case_sensitive {
        a == b
    } else {
        lowercase_of(a) == lowercase_of(b)
    }
}

fn same_chars(a: &Vec<char>, b: &Vec<char>) -> (r: bool)
    ensures
        r == (a@ == b@),
{
    if a.len() != b.len() {
        return false;
    }
    let mut i: usize = 0;
    while i < a.len()
        invariant
            a@.len() == b@.len(),
            i <= a@.len(),
            forall|k: int| 0 <= k < i ==> a@[k] == b@[k],
        decreases a@.len() - i,
    {
        if a[i] != b[i] {
            return false;
        }
        i = i + 1;
    }
    assert(a@ =~= b@);
    true
}

/// Compares two characters, ignoring case unless `case_sensitive`. Two
/// ASCII characters match ignoring case when their ASCII lowercases agree.
pub fn char_matches(a: char, b: char, case_sensitive: bool) -> (r: bool)
    ensures
        r == chars_match(a, b, case_sensitive),
        !case_sensitive && is_ascii_char(a) && is_ascii_char(b) ==> (r <==> ascii_lower(a)
            == ascii_lower(b)),
{
    if case_sensitive {
        a == b
    } else {
        let la = to_lowercase(a);
        let lb = to_lowercase(b);
        let r = same_chars(&la, &lb);
        proof {
            if is_ascii_char(a) && is_ascii_char(b) && r {
                assert(la@[0] == lb@[0]);
            }
        }
        r
    }
}

/// Builds a `String` holding exactly the characters of `chars`.
pub fn string_from_chars(chars: &[char]) -> (r: String)
    ensures
        r@ == chars@,
{
    let mut s = String::new();
    let mut i: usize = 0;
    while i < chars.len()
        invariant
            i <= chars@.len(),
            s@ == chars@.take(i as int),
        decreases chars@.len() - i,
    {
        push_char(&mut s, chars[i]);
        assert(chars@.take(i + 1) =~= chars@.take(i as int).push(chars@[i as int]));
        i = i + 1;
    }
    assert(chars@.take(chars@.len() as int) =~= chars@);
    s
}

/// Collects the characters of `text`.
pub fn chars_of(text: &str) -> (r: Vec<char>)
    ensures
        r@ == text@,
{
    let mut v: Vec<char> = Vec::new();
    for c in it: text.chars()
        invariant
            v@ == it.seq().take(it.index() as int),
    {
        v.push(c);
    }
    v
}

} // verus!

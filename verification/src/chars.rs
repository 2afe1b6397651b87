//! Character classes and string conversions.
//!
//! The scanner's heuristics are stated over four character classes
//! (whitespace, uppercase, alphabetic, alphanumeric) and one string
//! transformation (lowercasing). All five come from the standard library;
//! their results on arbitrary Unicode input are named by uninterpreted spec
//! functions, with the plainly documented ASCII behaviour stated alongside.

use vstd::prelude::*;

verus! {

/// What `char::is_whitespace` returns: the Unicode `White_Space` property.
pub uninterp spec fn white_char(c: char) -> bool;

/// What `char::is_uppercase` returns: the Unicode `Uppercase` property.
pub uninterp spec fn upper_char(c: char) -> bool;

/// What `char::is_alphabetic` returns: the Unicode `Alphabetic` property.
pub uninterp spec fn alpha_char(c: char) -> bool;

/// What `char::is_alphanumeric` returns: `Alphabetic` or a decimal/letter/other number.
pub uninterp spec fn alnum_char(c: char) -> bool;

/// What `str::to_lowercase` returns: the full Unicode lowercasing of a
/// sequence of characters. It depends on the characters alone.
pub uninterp spec fn lower_of(s: Seq<char>) -> Seq<char>;

/// Relies on `char::is_whitespace`; its documentation gives the ASCII cases.
pub assume_specification[ char::is_whitespace ](c: char) -> (r: bool)
    ensures
        r == white_char(c),
        (c == ' ' || c == '\t' || c == '\n' || c == '\r') ==> r,
        (('a' <= c && c <= 'z') || ('A' <= c && c <= 'Z') || ('0' <= c && c <= '9')) ==> !r,
;

/// Relies on `char::is_uppercase`; uppercase ASCII is exactly `A`-`Z`.
pub assume_specification[ char::is_uppercase ](c: char) -> (r: bool)
    ensures
        r == upper_char(c),
        ('A' <= c && c <= 'Z') ==> r,
        (('a' <= c && c <= 'z') || ('0' <= c && c <= '9') || c == '_') ==> !r,
;

/// Relies on `char::is_alphabetic`; alphabetic ASCII is exactly `A`-`Z` and `a`-`z`.
pub assume_specification[ char::is_alphabetic ](c: char) -> (r: bool)
    ensures
        r == alpha_char(c),
        (('a' <= c && c <= 'z') || ('A' <= c && c <= 'Z')) ==> r,
        (('0' <= c && c <= '9') || c == '_' || c == ' ' || c == '"' || c == '\'') ==> !r,
;

/// Relies on `char::is_alphanumeric`; alphanumeric ASCII is exactly `A`-`Z`,
/// `a`-`z` and `0`-`9`.
pub assume_specification[ char::is_alphanumeric ](c: char) -> (r: bool)
    ensures
        r == alnum_char(c),
        (('a' <= c && c <= 'z') || ('A' <= c && c <= 'Z') || ('0' <= c && c <= '9')) ==> r,
        (c == '_' || c == ' ' || c == '"' || c == '\'' || c == '(' || c == ')' || c == ','
            || c == '=' || c == '.' || c == '#' || c == '+') ==> !r,
;

/// Relies on `str::to_lowercase`: the result is a function of the characters
/// alone, and an empty string lowercases to an empty string.
#[verifier::external_body]
pub fn lowercase_chars(v: &Vec<char>) -> (r: Vec<char>)
    ensures
        r@ == lower_of(v@),
        v@.len() == 0 ==> r@.len() == 0,
{
    let s: String = v.iter().collect();
    s.to_lowercase().chars().collect()
}

/// Relies on `String::from_iter` (via `Iterator::collect`): collecting
/// characters yields the string of exactly those characters.
#[verifier::external_body]
pub fn chars_to_string(v: &Vec<char>) -> (r: String)
    ensures
        r@ == v@,
{
    v.iter().collect()
}

/// The characters of a string slice, in order.
pub fn str_to_chars(s: &str) -> (r: Vec<char>)
    ensures
        r@ == s@,
{
    let n = s.unicode_len();
    let mut r: Vec<char> = Vec::new();
    let mut i: usize = 0;
    while i < n
        invariant
            i <= n,
            n == s@.len(),
            r@ == s@.take(i as int),
        decreases n - i,
    {
        r.push(s.get_char(i));
        assert(r@ =~= s@.take(i + 1 as int));
        i = i + 1;
    }
    assert(r@ =~= s@);
    r
}

/// Whether two character vectors hold the same characters.
pub fn chars_eq(a: &Vec<char>, b: &Vec<char>) -> (r: bool)
    ensures
        r == (a@ == b@),
{
    if a.len() != b.len() {
        assert(a@ != b@);
        return false;
    }
    let mut i: usize = 0;
    while i < a.len()
        invariant
            i <= a.len(),
            a.len() == b.len(),
            forall|j: int| 0 <= j < i ==> a@[j] == b@[j],
        decreases a.len() - i,
    {
        if a[i] != b[i] {
            return false;
        }
        i = i + 1;
    }
    assert(a@ =~= b@);
    true
}

} // verus!

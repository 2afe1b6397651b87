//! Low-level scanning primitives over sequences of characters: skipping
//! character classes, finding characters, matching fixed patterns, and
//! trimming. Every exec function returns exactly what the corresponding spec
//! function denotes.

use vstd::prelude::*;

use crate::chars::{alnum_char, white_char};

verus! {

/// The deep view of a character vector is its view.
pub broadcast proof fn lemma_vec_char_deep_view(v: Vec<char>)
    ensures
        #[trigger] v.deep_view() == v@,
{
    assert(v.deep_view() =~= v@);
}

/// An identifier character: alphanumeric or underscore.
pub open spec fn word_char(c: char) -> bool {
    alnum_char(c) || c == '_'
}

/// A quote character: double or single quote.
pub open spec fn quote_char(c: char) -> bool {
    c == '"' || c == '\''
}

/// The first position at or after `i` holding a non-whitespace character
/// (`s.len()` if there is none).
pub open spec fn skip_white(s: Seq<char>, i: int) -> int
    decreases s.len() - i
        when 0 <= i <= s.len()
{
    if i < s.len() && white_char(s[i]) {
        skip_white(s, i + 1)
    } else {
        i
    }
}

/// The first position at or after `i` holding a non-identifier character
/// (`s.len()` if there is none).
pub open spec fn skip_word(s: Seq<char>, i: int) -> int
    decreases s.len() - i
        when 0 <= i <= s.len()
{
    if i < s.len() && word_char(s[i]) {
        skip_word(s, i + 1)
    } else {
        i
    }
}

/// The first position at or after `i` holding `c` (`s.len()` if there is none).
pub open spec fn find_from(s: Seq<char>, i: int, c: char) -> int
    decreases s.len() - i
        when 0 <= i <= s.len()
{
    if i >= s.len() {
        i
    } else if s[i] == c {
        i
    } else {
        find_from(s, i + 1, c)
    }
}

/// The first position at or after `i` holding a quote character
/// (`s.len()` if there is none).
pub open spec fn find_quote(s: Seq<char>, i: int) -> int
    decreases s.len() - i
        when 0 <= i <= s.len()
{
    if i >= s.len() {
        i
    } else if quote_char(s[i]) {
        i
    } else {
        find_quote(s, i + 1)
    }
}

/// Whether `pat` occurs in `s` starting at position `i`.
pub open spec fn matches_at(s: Seq<char>, i: int, pat: Seq<char>) -> bool {
    0 <= i && i + pat.len() <= s.len() && s.subrange(i, i + pat.len()) == pat
}

/// Whether `pat` occurs anywhere in `s`.
pub open spec fn contains_seq(s: Seq<char>, pat: Seq<char>) -> bool {
    exists|i: int| matches_at(s, i, pat)
}

/// The position that ends the run of trailing whitespace of `s[0..j]`:
/// the least `b` such that everything in `s[b..j]` is whitespace.
pub open spec fn white_end(s: Seq<char>, j: int) -> int
    decreases j
        when 0 <= j <= s.len()
{
    if j > 0 && white_char(s[j - 1]) {
        white_end(s, j - 1)
    } else {
        j
    }
}

/// `s` with leading and trailing whitespace removed.
pub open spec fn trim_spec(s: Seq<char>) -> Seq<char> {
    let a = skip_white(s, 0);
    let b = white_end(s, s.len() as int);
    if a < b {
        s.subrange(a, b)
    } else {
        Seq::empty()
    }
}

/// A line is blank when it holds only whitespace.
pub open spec fn blank_line(s: Seq<char>) -> bool {
    skip_white(s, 0) == s.len()
}

/// The indentation width of a line: the number of leading whitespace characters.
pub open spec fn indent_of(s: Seq<char>) -> int {
    skip_white(s, 0)
}

pub proof fn lemma_find_from(s: Seq<char>, i: int, c: char)
    requires
        0 <= i <= s.len(),
    ensures
        i <= find_from(s, i, c) <= s.len(),
        forall|k: int| i <= k < find_from(s, i, c) ==> s[k] != c,
        find_from(s, i, c) < s.len() ==> s[find_from(s, i, c)] == c,
    decreases s.len() - i,
{
    if i < s.len() && s[i] != c {
        lemma_find_from(s, i + 1, c);
    }
}

pub fn skip_white_idx(s: &Vec<char>, i: usize) -> (r: usize)
    requires
        i <= s@.len(),
    ensures
        r as int == skip_white(s@, i as int),
        i <= r <= s@.len(),
{
    let mut j: usize = i;
    while j < s.len() && s[j].is_whitespace()
        invariant
            i <= j <= s@.len(),
            skip_white(s@, i as int) == skip_white(s@, j as int),
        decreases s@.len() - j,
    {
        j = j + 1;
    }
    j
}

pub fn skip_word_idx(s: &Vec<char>, i: usize) -> (r: usize)
    requires
        i <= s@.len(),
    ensures
        r as int == skip_word(s@, i as int),
        i <= r <= s@.len(),
{
    let mut j: usize = i;
    while j < s.len() && (s[j].is_alphanumeric() || s[j] == '_')
        invariant
            i <= j <= s@.len(),
            skip_word(s@, i as int) == skip_word(s@, j as int),
        decreases s@.len() - j,
    {
        j = j + 1;
    }
    j
}

pub fn find_from_idx(s: &Vec<char>, i: usize, c: char) -> (r: usize)
    requires
        i <= s@.len(),
    ensures
        r as int == find_from(s@, i as int, c),
        i <= r <= s@.len(),
{
    let mut j: usize = i;
    while j < s.len() && s[j] != c
        invariant
            i <= j <= s@.len(),
            find_from(s@, i as int, c) == find_from(s@, j as int, c),
        decreases s@.len() - j,
    {
        j = j + 1;
    }
    j
}

pub fn find_quote_idx(s: &Vec<char>, i: usize) -> (r: usize)
    requires
        i <= s@.len(),
    ensures
        r as int == find_quote(s@, i as int),
        i <= r <= s@.len(),
{
    let mut j: usize = i;
    while j < s.len() && s[j] != '"' && s[j] != '\''
        invariant
            i <= j <= s@.len(),
            find_quote(s@, i as int) == find_quote(s@, j as int),
        decreases s@.len() - j,
    {
        j = j + 1;
    }
    j
}

pub fn white_end_idx(s: &Vec<char>) -> (r: usize)
    ensures
        r as int == white_end(s@, s@.len() as int),
        r <= s@.len(),
{
    let mut j: usize = s.len();
    while j > 0 && s[j - 1].is_whitespace()
        invariant
            j <= s@.len(),
            white_end(s@, s@.len() as int) == white_end(s@, j as int),
        decreases j,
    {
        j = j - 1;
    }
    j
}

/// A copy of `s[a..b]`.
pub fn sub_vec(s: &Vec<char>, a: usize, b: usize) -> (r: Vec<char>)
    requires
        a <= b <= s@.len(),
    ensures
        r@ == s@.subrange(a as int, b as int),
{
    let mut r: Vec<char> = Vec::new();
    let mut k: usize = a;
    while k < b
        invariant
            a <= k <= b <= s@.len(),
            r@ == s@.subrange(a as int, k as int),
        decreases b - k,
    {
        r.push(s[k]);
        assert(r@ =~= s@.subrange(a as int, k + 1 as int));
        k = k + 1;
    }
    r
}

pub fn trim_vec(s: &Vec<char>) -> (r: Vec<char>)
    ensures
        r@ == trim_spec(s@),
{
    let a = skip_white_idx(s, 0);
    let b = white_end_idx(s);
    if a < b {
        sub_vec(s, a, b)
    } else {
        Vec::new()
    }
}

pub fn matches_at_idx(s: &Vec<char>, i: usize, pat: &Vec<char>) -> (r: bool)
    ensures
        r == matches_at(s@, i as int, pat@),
{
    if i > s.len() || pat.len() > s.len() - i {
        return false;
    }
    let n: usize = s.len();
    let mut k: usize = 0;
    while k < pat.len()
        invariant
            k <= pat@.len(),
            i + pat@.len() <= n,
            n == s@.len(),
            forall|j: int| 0 <= j < k ==> s@[i + j] == pat@[j],
        decreases pat@.len() - k,
    {
        if s[i + k] != pat[k] {
            assert(s@.subrange(i as int, i + pat@.len())[k as int] != pat@[k as int]);
            return false;
        }
        k = k + 1;
    }
    assert(s@.subrange(i as int, i + pat@.len()) =~= pat@);
    true
}

pub fn contains_seq_idx(s: &Vec<char>, pat: &Vec<char>) -> (r: bool)
    ensures
        r == contains_seq(s@, pat@),
{
    let mut i: usize = 0;
    while i < s.len()
        invariant
            i <= s@.len(),
            forall|j: int| 0 <= j < i ==> !matches_at(s@, j, pat@),
        decreases s@.len() - i,
    {
        if matches_at_idx(s, i, pat) {
            return true;
        }
        i = i + 1;
    }
    if matches_at_idx(s, i, pat) {
        return true;
    }
    false
}

} // verus!

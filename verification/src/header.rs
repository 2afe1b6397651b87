//! Class-header detection.
//!
//! A line is a candidate enumeration-class header when, at some position, it
//! holds the keyword `class`, whitespace, an identifier (the enumeration
//! name), and a parenthesised base list in which `StrEnum` — optionally
//! qualified as `enum.StrEnum`, optionally preceded and followed by further
//! bases — appears as a base. The match is leftmost: the name comes from the
//! first position where the whole pattern goes through. This is a textual
//! heuristic, not a parser: it also fires inside longer words such as
//! `subclass`, a documented trade-off for speed over arbitrary source text.

use vstd::prelude::*;

use crate::chars::{str_to_chars, white_char};
use crate::text::{
    find_from, find_from_idx, matches_at, matches_at_idx, skip_white, skip_white_idx, skip_word,
    skip_word_idx, word_char,
};

verus! {

/// After `StrEnum`: optional whitespace, then either the closing parenthesis
/// or a comma with a closing parenthesis somewhere after it.
pub open spec fn strenum_tail_ok(s: Seq<char>, q0: int) -> bool {
    let q = skip_white(s, q0);
    q < s.len() && (s[q] == ')' || (s[q] == ',' && find_from(s, q + 1, ')') < s.len()))
}

/// `StrEnum` as a base, starting at `p`.
pub open spec fn strenum_at(s: Seq<char>, p: int) -> bool {
    matches_at(s, p, "StrEnum"@) && strenum_tail_ok(s, p + 7)
}

/// A base reference to `StrEnum`, possibly qualified as `enum.StrEnum`.
pub open spec fn base_at(s: Seq<char>, p: int) -> bool {
    strenum_at(s, p) || (matches_at(s, p, "enum."@) && strenum_at(s, p + 5))
}

/// Inside the parentheses, starting at `j`: `StrEnum` is the first base, or
/// follows some comma.
pub open spec fn bases_ok(s: Seq<char>, j: int) -> bool {
    base_at(s, j) || exists|c: int|
        j <= c < s.len() && s[c] == ',' && base_at(s, skip_white(s, c + 1))
}

/// The enumeration name of a header match starting exactly at `i`.
pub open spec fn header_name_at(s: Seq<char>, i: int) -> Option<Seq<char>> {
    if !matches_at(s, i, "class"@) {
        None
    } else {
        let j0 = i + 5;
        if !(j0 < s.len() && white_char(s[j0])) {
            None
        } else {
            let j1 = skip_white(s, j0);
            if !(j1 < s.len() && word_char(s[j1])) {
                None
            } else {
                let j2 = skip_word(s, j1);
                let j3 = skip_white(s, j2);
                if !(j3 < s.len() && s[j3] == '(') {
                    None
                } else {
                    let j4 = skip_white(s, j3 + 1);
                    if bases_ok(s, j4) {
                        Some(s.subrange(j1, j2))
                    } else {
                        None
                    }
                }
            }
        }
    }
}

/// The name of the leftmost header match at or after `i`.
pub open spec fn find_header_from(s: Seq<char>, i: int) -> Option<Seq<char>>
    decreases s.len() - i
        when 0 <= i <= s.len()
{
    if i >= s.len() {
        None
    } else if header_name_at(s, i) is Some {
        header_name_at(s, i)
    } else {
        find_header_from(s, i + 1)
    }
}

/// The enumeration name of the leftmost header match of the line, if any.
pub open spec fn header_match(s: Seq<char>) -> Option<Seq<char>> {
    find_header_from(s, 0)
}

fn strenum_tail_idx(s: &Vec<char>, q0: usize) -> (r: bool)
    requires
        q0 <= s@.len(),
    ensures
        r == strenum_tail_ok(s@, q0 as int),
{
    let q = skip_white_idx(s, q0);
    if q >= s.len() {
        return false;
    }
    if s[q] == ')' {
        return true;
    }
    if s[q] == ',' {
        return find_from_idx(s, q + 1, ')') < s.len();
    }
    false
}

fn strenum_at_idx(s: &Vec<char>, p: usize) -> (r: bool)
    requires
        p <= s@.len(),
    ensures
        r == strenum_at(s@, p as int),
{
    let pat = str_to_chars("StrEnum");
    if !matches_at_idx(s, p, &pat) {
        return false;
    }
    proof {
        reveal_strlit("StrEnum");
    }
    let n: usize = s.len();
    assert(p + 7 <= n);
    strenum_tail_idx(s, p + 7)
}

fn base_at_idx(s: &Vec<char>, p: usize) -> (r: bool)
    requires
        p <= s@.len(),
    ensures
        r == base_at(s@, p as int),
{
    if strenum_at_idx(s, p) {
        return true;
    }
    let qual = str_to_chars("enum.");
    if matches_at_idx(s, p, &qual) {
        proof {
            reveal_strlit("enum.");
        }
        let n: usize = s.len();
        assert(p + 5 <= n);
        return strenum_at_idx(s, p + 5);
    }
    false
}

fn bases_ok_idx(s: &Vec<char>, j: usize) -> (r: bool)
    requires
        j <= s@.len(),
    ensures
        r == bases_ok(s@, j as int),
{
    if base_at_idx(s, j) {
        return true;
    }
    let mut c: usize = j;
    while c < s.len()
        invariant
            j <= c <= s@.len(),
            forall|k: int|
                #![trigger s@[k]]
                j <= k < c ==> !(s@[k] == ',' && base_at(s@, skip_white(s@, k + 1))),
        decreases s@.len() - c,
    {
        if s[c] == ',' {
            let p = skip_white_idx(s, c + 1);
            if base_at_idx(s, p) {
                return true;
            }
        }
        c = c + 1;
    }
    false
}

/// Whether a header match starts exactly at `i`, and with which name.
fn header_name_at_idx(s: &Vec<char>, i: usize) -> (r: Option<Vec<char>>)
    requires
        i <= s@.len(),
    ensures
        match r {
            Some(name) => header_name_at(s@, i as int) == Some(name@),
            None => header_name_at(s@, i as int) is None,
        },
{
    let kw = str_to_chars("class");
    if !matches_at_idx(s, i, &kw) {
        return None;
    }
    proof {
        reveal_strlit("class");
    }
    let n: usize = s.len();
    assert(i + 5 <= n);
    let j0 = i + 5;
    if j0 >= s.len() || !s[j0].is_whitespace() {
        return None;
    }
    let j1 = skip_white_idx(s, j0);
    if j1 >= s.len() || !(s[j1].is_alphanumeric() || s[j1] == '_') {
        return None;
    }
    let j2 = skip_word_idx(s, j1);
    let j3 = skip_white_idx(s, j2);
    if j3 >= s.len() || s[j3] != '(' {
        return None;
    }
    let j4 = skip_white_idx(s, j3 + 1);
    if bases_ok_idx(s, j4) {
        Some(crate::text::sub_vec(s, j1, j2))
    } else {
        None
    }
}

/// The enumeration name of the leftmost header match of the line, if any.
pub fn find_class_header(line: &Vec<char>) -> (r: Option<Vec<char>>)
    ensures
        match r {
            Some(name) => header_match(line@) == Some(name@),
            None => header_match(line@) is None,
        },
{
    let mut i: usize = 0;
    while i < line.len()
        invariant
            i <= line@.len(),
            find_header_from(line@, 0) == find_header_from(line@, i as int),
        decreases line@.len() - i,
    {
        let m = header_name_at_idx(line, i);
        if let Some(name) = m {
            return Some(name);
        }
        i = i + 1;
    }
    None
}

} // verus!

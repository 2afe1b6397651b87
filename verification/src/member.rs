//! Member-line parsing.
//!
//! A body line yields a member when it is an assignment: the text before the
//! first `=` (trimmed) is the member name, and the right-hand side gives the
//! value. A right-hand side holding the auto-sentinel token `auto()` is
//! value-absent. Otherwise a right-hand side that begins with a quote yields
//! the literal up to the matching closing quote of the same kind; failing
//! that, the single alphabetic character after the first quote stands in as a
//! casing proxy for an expression that cannot be evaluated statically.
//! Escaped quotes are not recognised: a literal containing an escaped instance
//! of its own delimiter parses short (a documented limitation of the
//! heuristic).

use vstd::prelude::*;

use crate::chars::alpha_char;
use crate::text::{
    contains_seq, contains_seq_idx, find_from, find_from_idx, find_quote, find_quote_idx,
    quote_char, sub_vec, trim_spec, trim_vec,
};

verus! {

broadcast use crate::text::lemma_vec_char_deep_view;

/// One parsed member of an enumeration class body.
pub struct Member {
    /// The 0-based index of the line the member was parsed from.
    pub line: usize,
    /// The identifier on the left of the assignment.
    pub name: Vec<char>,
    /// The extracted value, absent for auto-sentinel members.
    pub value: Option<Vec<char>>,
    /// Whether the right-hand side is an auto-sentinel call.
    pub is_auto: bool,
}

/// The mathematical image of a `Member`.
pub ghost struct MemberData {
    pub line: int,
    pub name: Seq<char>,
    pub value: Option<Seq<char>>,
    pub is_auto: bool,
}

impl View for Member {
    type V = MemberData;

    open spec fn view(&self) -> MemberData {
        MemberData {
            line: self.line as int,
            name: self.name@,
            value: match self.value {
                Some(v) => Some(v@),
                None => None,
            },
            is_auto: self.is_auto,
        }
    }
}

impl DeepView for Member {
    type V = MemberData;

    open spec fn deep_view(&self) -> MemberData {
        self.view()
    }
}

/// The value extracted from a (trimmed) non-auto right-hand side.
pub open spec fn value_of_rhs(rhs: Seq<char>) -> Option<Seq<char>> {
    if rhs.len() > 0 && quote_char(rhs[0]) && find_from(rhs, 1, rhs[0]) < rhs.len() {
        Some(rhs.subrange(1, find_from(rhs, 1, rhs[0])))
    } else {
        let fq = find_quote(rhs, 0);
        if fq + 1 < rhs.len() && alpha_char(rhs[fq + 1]) {
            Some(seq![rhs[fq + 1]])
        } else {
            None
        }
    }
}

/// What parsing the body line at index `idx` yields.
pub open spec fn parse_member_spec(s: Seq<char>, idx: int) -> Option<MemberData> {
    let t = trim_spec(s);
    if find_from(s, 0, '=') == s.len() || (t.len() > 0 && t[0] == '#') {
        None
    } else {
        let eq = find_from(s, 0, '=');
        let name = trim_spec(s.subrange(0, eq));
        if name.len() == 0 {
            None
        } else {
            let rhs = trim_spec(s.subrange(eq + 1, s.len() as int));
            if contains_seq(rhs, "auto()"@) {
                Some(MemberData { line: idx, name, value: None, is_auto: true })
            } else {
                match value_of_rhs(rhs) {
                    Some(v) => Some(
                        MemberData { line: idx, name, value: Some(v), is_auto: false },
                    ),
                    None => None,
                }
            }
        }
    }
}

/// Parse one body line into a member record, if it is classifiable.
pub fn parse_member_line(s: &Vec<char>, idx: usize) -> (r: Option<Member>)
    ensures
        match r {
            Some(m) => parse_member_spec(s@, idx as int) == Some(m@),
            None => parse_member_spec(s@, idx as int) is None,
        },
{
    let eq = find_from_idx(s, 0, '=');
    if eq == s.len() {
        return None;
    }
    let t = trim_vec(s);
    if t.len() > 0 && t[0] == '#' {
        return None;
    }
    let left = sub_vec(s, 0, eq);
    let name = trim_vec(&left);
    if name.len() == 0 {
        return None;
    }
    let right = sub_vec(s, eq + 1, s.len());
    let rhs = trim_vec(&right);
    let auto_pat = crate::chars::str_to_chars("auto()");
    if contains_seq_idx(&rhs, &auto_pat) {
        return Some(Member { line: idx, name, value: None, is_auto: true });
    }
    if rhs.len() > 0 && (rhs[0] == '"' || rhs[0] == '\'') {
        let close = find_from_idx(&rhs, 1, rhs[0]);
        if close < rhs.len() {
            let v = sub_vec(&rhs, 1, close);
            return Some(Member { line: idx, name, value: Some(v), is_auto: false });
        }
    }
    let fq = find_quote_idx(&rhs, 0);
    if fq < rhs.len() && fq + 1 < rhs.len() && rhs[fq + 1].is_alphabetic() {
        let mut v: Vec<char> = Vec::new();
        v.push(rhs[fq + 1]);
        assert(v@ =~= seq![rhs@[fq + 1]]);
        return Some(Member { line: idx, name, value: Some(v), is_auto: false });
    }
    None
}

} // verus!

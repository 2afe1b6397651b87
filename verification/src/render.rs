//! Rendering violation records as report lines.
//!
//! Each violation renders as one line,
//! `<file>:<line>:1: StrEnum '<enum>' has <kind-specific message>`,
//! with one message shape per violation kind.

use vstd::prelude::*;

use crate::chars::chars_to_string;
use crate::classify::{Violation, ViolationData, ViolationKind};

verus! {

/// The decimal digit character for `d`.
pub open spec fn dec_digit(d: int) -> char {
    if d == 0 {
        '0'
    } else if d == 1 {
        '1'
    } else if d == 2 {
        '2'
    } else if d == 3 {
        '3'
    } else if d == 4 {
        '4'
    } else if d == 5 {
        '5'
    } else if d == 6 {
        '6'
    } else if d == 7 {
        '7'
    } else if d == 8 {
        '8'
    } else {
        '9'
    }
}

/// The decimal representation of `n`, most significant digit first.
pub open spec fn dec_rep(n: int) -> Seq<char>
    decreases n
        when n >= 0
{
    if n < 10 {
        seq![dec_digit(n)]
    } else {
        dec_rep(n / 10) + seq![dec_digit(n % 10)]
    }
}

fn digit_char(d: u64) -> (c: char)
    requires
        d < 10,
    ensures
        c == dec_digit(d as int),
{
    match d {
        0 => '0',
        1 => '1',
        2 => '2',
        3 => '3',
        4 => '4',
        5 => '5',
        6 => '6',
        7 => '7',
        8 => '8',
        _ => '9',
    }
}

/// The decimal digits of `n`.
pub fn u64_to_dec(n: u64) -> (r: Vec<char>)
    ensures
        r@ == dec_rep(n as int),
{
    let mut r: Vec<char> = Vec::new();
    let mut m: u64 = n;
    let c0 = digit_char(m % 10);
    r.insert(0, c0);
    assert(r@ =~= seq![dec_digit(n as int % 10)]);
    m = m / 10;
    while m > 0
        invariant
            m > 0 ==> dec_rep(n as int) == dec_rep(m as int) + r@,
            m == 0 ==> dec_rep(n as int) == r@,
        decreases m,
    {
        let ghost old_r = r@;
        let c = digit_char(m % 10);
        r.insert(0, c);
        assert(r@ =~= seq![dec_digit(m as int % 10)] + old_r);
        proof {
            if m >= 10 {
                assert(dec_rep(m as int) == dec_rep(m as int / 10) + seq![
                    dec_digit(m as int % 10),
                ]);
                assert(dec_rep(m as int / 10) + (seq![dec_digit(m as int % 10)] + old_r)
                    =~= (dec_rep(m as int / 10) + seq![dec_digit(m as int % 10)]) + old_r);
            }
        }
        m = m / 10;
    }
    r
}

/// The report line for one violation.
pub open spec fn violation_message(v: ViolationData) -> Seq<char> {
    v.file + ":"@ + dec_rep(v.line) + ":1: StrEnum '"@ + v.enum_name + "' has "@ + match v.kind {
        ViolationKind::NameValueMismatch => "member '"@ + v.member_name
            + "' with inconsistent casing: value is '"@ + v.detail + "'"@,
        ViolationKind::InconsistentNaming => "inconsistent member naming: '"@ + v.member_name
            + "' differs from predominant style ("@ + v.detail + ")"@,
        ViolationKind::InvalidAutoCase => "uppercase member '"@ + v.member_name
            + "' with auto() value which should be lowercase"@,
    }
}

/// Render one violation as its report line.
pub fn render_violation(v: &Violation) -> (r: String)
    ensures
        r@ == violation_message(v@),
{
    let mut out = String::new();
    out.append(v.file.as_str());
    out.append(":");
    let line_digits = u64_to_dec(v.line as u64);
    let line_str = chars_to_string(&line_digits);
    out.append(line_str.as_str());
    out.append(":1: StrEnum '");
    out.append(v.enum_name.as_str());
    out.append("' has ");
    match v.kind {
        ViolationKind::NameValueMismatch => {
            out.append("member '");
            out.append(v.member_name.as_str());
            out.append("' with inconsistent casing: value is '");
            out.append(v.detail.as_str());
            out.append("'");
        },
        ViolationKind::InconsistentNaming => {
            out.append("inconsistent member naming: '");
            out.append(v.member_name.as_str());
            out.append("' differs from predominant style (");
            out.append(v.detail.as_str());
            out.append(")");
        },
        ViolationKind::InvalidAutoCase => {
            out.append("uppercase member '");
            out.append(v.member_name.as_str());
            out.append("' with auto() value which should be lowercase");
        },
    }
    assert(out@ =~= violation_message(v@));
    out
}

} // verus!

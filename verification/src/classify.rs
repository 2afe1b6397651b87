//! The casing classifier.
//!
//! Given the ordered members of one enumeration class, three passes emit the
//! violation records:
//! - pass 1 walks the members in order, counting uppercase- and
//!   lowercase-initialled names (among names whose first character is
//!   alphabetic), remembering the casing of the first non-auto member as the
//!   established case state, flagging every auto-sentinel member with an
//!   uppercase initial (`InvalidAutoCase`), and flagging every later non-auto
//!   member whose initial casing differs from the established state
//!   (`InconsistentNaming`, reporting the style predominant so far — ties
//!   favour lowercase);
//! - pass 2 flags every non-auto member whose name and value are equal under
//!   lowercasing but differ as literals (`NameValueMismatch`);
//! - pass 3 flags every auto-sentinel member whose initial casing disagrees
//!   with the established case state (`InvalidAutoCase` again — deliberately
//!   not deduplicated against pass 1).

use vstd::prelude::*;

use crate::chars::{alpha_char, chars_eq, chars_to_string, lower_of, lowercase_chars, upper_char};
use crate::member::{Member, MemberData};

verus! {

/// The kind of an emitted violation.
#[derive(Clone, Copy, PartialEq, Eq, Structural, Debug)]
pub enum ViolationKind {
    /// A member name and its string value are equal up to case but differ as literals.
    NameValueMismatch,
    /// A member name's initial casing differs from the enumeration's established style.
    InconsistentNaming,
    /// An auto-sentinel member is named against the expected (or established) casing.
    InvalidAutoCase,
}

/// One violation record.
#[derive(PartialEq, Eq, Debug)]
pub struct Violation {
    /// The scanned file the violation was found in.
    pub file: String,
    /// The 1-based line number of the offending member.
    pub line: usize,
    /// The name of the enumeration class.
    pub enum_name: String,
    /// The offending member's name.
    pub member_name: String,
    /// Kind-specific detail: the literal value, the predominant style, or the
    /// auto-sentinel token.
    pub detail: String,
    /// The violation kind.
    pub kind: ViolationKind,
}

/// The mathematical image of a `Violation`.
pub ghost struct ViolationData {
    pub file: Seq<char>,
    pub line: int,
    pub enum_name: Seq<char>,
    pub member_name: Seq<char>,
    pub detail: Seq<char>,
    pub kind: ViolationKind,
}

impl View for Violation {
    type V = ViolationData;

    open spec fn view(&self) -> ViolationData {
        ViolationData {
            file: self.file@,
            line: self.line as int,
            enum_name: self.enum_name@,
            member_name: self.member_name@,
            detail: self.detail@,
            kind: self.kind,
        }
    }
}

impl DeepView for Violation {
    type V = ViolationData;

    open spec fn deep_view(&self) -> ViolationData {
        self.view()
    }
}

/// Whether a member name begins with an uppercase character.
pub open spec fn first_upper(name: Seq<char>) -> bool {
    name.len() > 0 && upper_char(name[0])
}

/// Whether a member counts towards the uppercase tally.
pub open spec fn counts_upper(m: MemberData) -> bool {
    m.name.len() > 0 && alpha_char(m.name[0]) && upper_char(m.name[0])
}

/// Whether a member counts towards the lowercase tally.
pub open spec fn counts_lower(m: MemberData) -> bool {
    m.name.len() > 0 && alpha_char(m.name[0]) && !upper_char(m.name[0])
}

/// How many of the first `i` members count as uppercase-initialled.
pub open spec fn upper_count(ms: Seq<MemberData>, i: int) -> int
    decreases i
        when 0 <= i <= ms.len()
{
    if i <= 0 {
        0
    } else {
        upper_count(ms, i - 1) + if counts_upper(ms[i - 1]) {
            1 as int
        } else {
            0 as int
        }
    }
}

/// How many of the first `i` members count as lowercase-initialled.
pub open spec fn lower_count(ms: Seq<MemberData>, i: int) -> int
    decreases i
        when 0 <= i <= ms.len()
{
    if i <= 0 {
        0
    } else {
        lower_count(ms, i - 1) + if counts_lower(ms[i - 1]) {
            1 as int
        } else {
            0 as int
        }
    }
}

/// The case state after the first `i` members: the initial casing of the
/// first non-auto member among them, if any.
pub open spec fn case_state_at(ms: Seq<MemberData>, i: int) -> Option<bool>
    decreases i
        when 0 <= i <= ms.len()
{
    if i <= 0 {
        None
    } else {
        match case_state_at(ms, i - 1) {
            Some(b) => Some(b),
            None => if !ms[i - 1].is_auto && ms[i - 1].value is Some {
                Some(first_upper(ms[i - 1].name))
            } else {
                None
            },
        }
    }
}

/// The predominant style over the first `i` members; a tie favours lowercase.
pub open spec fn predominant_at(ms: Seq<MemberData>, i: int) -> Seq<char> {
    if upper_count(ms, i) > lower_count(ms, i) {
        "UPPERCASE"@
    } else {
        "lowercase"@
    }
}

/// What pass 1 emits for member `i`.
pub open spec fn pass1_member(file: Seq<char>, en: Seq<char>, ms: Seq<MemberData>, i: int) -> Seq<
    ViolationData,
> {
    let m = ms[i];
    if m.is_auto && first_upper(m.name) {
        seq![
            ViolationData {
                file,
                line: m.line + 1,
                enum_name: en,
                member_name: m.name,
                detail: "auto()"@,
                kind: ViolationKind::InvalidAutoCase,
            },
        ]
    } else if !m.is_auto && m.value is Some {
        match case_state_at(ms, i) {
            Some(st) => if first_upper(m.name) != st {
                seq![
                    ViolationData {
                        file,
                        line: m.line + 1,
                        enum_name: en,
                        member_name: m.name,
                        detail: predominant_at(ms, i + 1),
                        kind: ViolationKind::InconsistentNaming,
                    },
                ]
            } else {
                Seq::empty()
            },
            None => Seq::empty(),
        }
    } else {
        Seq::empty()
    }
}

/// What pass 1 emits for the first `i` members, in order.
pub open spec fn pass1_upto(file: Seq<char>, en: Seq<char>, ms: Seq<MemberData>, i: int) -> Seq<
    ViolationData,
>
    decreases i
        when 0 <= i <= ms.len()
{
    if i <= 0 {
        Seq::empty()
    } else {
        pass1_upto(file, en, ms, i - 1) + pass1_member(file, en, ms, i - 1)
    }
}

/// What pass 2 emits for one member.
pub open spec fn pass2_member(file: Seq<char>, en: Seq<char>, m: MemberData) -> Seq<
    ViolationData,
> {
    if m.is_auto {
        Seq::empty()
    } else {
        match m.value {
            Some(v) => if lower_of(m.name) == lower_of(v) && m.name != v {
                seq![
                    ViolationData {
                        file,
                        line: m.line + 1,
                        enum_name: en,
                        member_name: m.name,
                        detail: v,
                        kind: ViolationKind::NameValueMismatch,
                    },
                ]
            } else {
                Seq::empty()
            },
            None => Seq::empty(),
        }
    }
}

/// What pass 2 emits for the first `i` members, in order.
pub open spec fn pass2_upto(file: Seq<char>, en: Seq<char>, ms: Seq<MemberData>, i: int) -> Seq<
    ViolationData,
>
    decreases i
        when 0 <= i <= ms.len()
{
    if i <= 0 {
        Seq::empty()
    } else {
        pass2_upto(file, en, ms, i - 1) + pass2_member(file, en, ms[i - 1])
    }
}

/// What pass 3 emits for member `i`, given the enumeration's final case state.
pub open spec fn pass3_member(file: Seq<char>, en: Seq<char>, ms: Seq<MemberData>, i: int) -> Seq<
    ViolationData,
> {
    let m = ms[i];
    if m.is_auto {
        match case_state_at(ms, ms.len() as int) {
            Some(st) => if first_upper(m.name) != st {
                seq![
                    ViolationData {
                        file,
                        line: m.line + 1,
                        enum_name: en,
                        member_name: m.name,
                        detail: "auto()"@,
                        kind: ViolationKind::InvalidAutoCase,
                    },
                ]
            } else {
                Seq::empty()
            },
            None => Seq::empty(),
        }
    } else {
        Seq::empty()
    }
}

/// What pass 3 emits for the first `i` members, in order.
pub open spec fn pass3_upto(file: Seq<char>, en: Seq<char>, ms: Seq<MemberData>, i: int) -> Seq<
    ViolationData,
>
    decreases i
        when 0 <= i <= ms.len()
{
    if i <= 0 {
        Seq::empty()
    } else {
        pass3_upto(file, en, ms, i - 1) + pass3_member(file, en, ms, i - 1)
    }
}

/// Everything the classifier emits for one enumeration class: pass 1, then
/// pass 2, then pass 3.
pub open spec fn classify_spec(file: Seq<char>, en: Seq<char>, ms: Seq<MemberData>) -> Seq<
    ViolationData,
> {
    pass1_upto(file, en, ms, ms.len() as int) + pass2_upto(file, en, ms, ms.len() as int)
        + pass3_upto(file, en, ms, ms.len() as int)
}

fn first_upper_exec(name: &Vec<char>) -> (r: bool)
    ensures
        r == first_upper(name@),
{
    name.len() > 0 && name[0].is_uppercase()
}

/// Classify the members of one enumeration class into violation records.
pub fn classify_members(file: &str, enum_name: &Vec<char>, members: &Vec<Member>) -> (r: Vec<
    Violation,
>)
    requires
        forall|k: int| 0 <= k < members@.len() ==> (#[trigger] members@[k])@.line < usize::MAX,
    ensures
        r.deep_view() == classify_spec(file@, enum_name@, members.deep_view()),
{
    let ghost gm = members.deep_view();
    let ghost gf = file@;
    let ghost gen = enum_name@;
    let n: usize = members.len();
    let mut out: Vec<Violation> = Vec::new();
    let mut upper: usize = 0;
    let mut lower: usize = 0;
    let mut state: Option<bool> = None;

    assert(out.deep_view() =~= pass1_upto(gf, gen, gm, 0));
    let mut i: usize = 0;
    while i < n
        invariant
            i <= n,
            upper <= i,
            lower <= i,
            upper as int == upper_count(gm, i as int),
            lower as int == lower_count(gm, i as int),
            state == case_state_at(gm, i as int),
            out.deep_view() == pass1_upto(gf, gen, gm, i as int),
        decreases n - i,
    {
        let m = &members[i];
        assert(gm[i as int] == members@[i as int]@);
        let is_up = first_upper_exec(&m.name);
        if m.name.len() > 0 && m.name[0].is_alphabetic() {
            if m.name[0].is_uppercase() {
                upper = upper + 1;
            } else {
                lower = lower + 1;
            }
        }
        assert(upper as int == upper_count(gm, i + 1 as int));
        assert(lower as int == lower_count(gm, i + 1 as int));
        if m.is_auto && is_up {
            let v = Violation {
                file: String::from_str(file),
                line: m.line + 1,
                enum_name: chars_to_string(enum_name),
                member_name: chars_to_string(&m.name),
                detail: String::from_str("auto()"),
                kind: ViolationKind::InvalidAutoCase,
            };
            let ghost old_out = out.deep_view();
            out.push(v);
            assert(out.deep_view() =~= old_out + pass1_member(gf, gen, gm, i as int));
        } else {
            if !m.is_auto && m.value.is_some() {
                match state {
                    None => {
                        state = Some(is_up);
                    },
                    Some(st) => {
                        if st != is_up {
                            let style = if upper > lower {
                                String::from_str("UPPERCASE")
                            } else {
                                String::from_str("lowercase")
                            };
                            let v = Violation {
                                file: String::from_str(file),
                                line: m.line + 1,
                                enum_name: chars_to_string(enum_name),
                                member_name: chars_to_string(&m.name),
                                detail: style,
                                kind: ViolationKind::InconsistentNaming,
                            };
                            let ghost old_out = out.deep_view();
                            out.push(v);
                            assert(out.deep_view() =~= old_out + pass1_member(
                                gf,
                                gen,
                                gm,
                                i as int,
                            ));
                        }
                    },
                }
            }
            assert(out.deep_view() == pass1_upto(gf, gen, gm, i + 1 as int));
        }
        i = i + 1;
    }
    let ghost p1 = pass1_upto(gf, gen, gm, gm.len() as int);
    assert(out.deep_view() == p1);

    let mut i: usize = 0;
    assert(out.deep_view() =~= p1 + pass2_upto(gf, gen, gm, 0));
    while i < n
        invariant
            i <= n,
            out.deep_view() == p1 + pass2_upto(gf, gen, gm, i as int),
        decreases n - i,
    {
        let m = &members[i];
        assert(gm[i as int] == members@[i as int]@);
        if !m.is_auto {
            if let Some(val) = &m.value {
                let low_name = lowercase_chars(&m.name);
                let low_val = lowercase_chars(val);
                if chars_eq(&low_name, &low_val) && !chars_eq(&m.name, val) {
                    let v = Violation {
                        file: String::from_str(file),
                        line: m.line + 1,
                        enum_name: chars_to_string(enum_name),
                        member_name: chars_to_string(&m.name),
                        detail: chars_to_string(val),
                        kind: ViolationKind::NameValueMismatch,
                    };
                    let ghost old_out = out.deep_view();
                    out.push(v);
                    assert(out.deep_view() =~= old_out + pass2_member(gf, gen, gm[i as int]));
                    assert(old_out + pass2_member(gf, gen, gm[i as int]) =~= p1 + (pass2_upto(
                        gf,
                        gen,
                        gm,
                        i as int,
                    ) + pass2_member(gf, gen, gm[i as int])));
                }
            }
        }
        assert(out.deep_view() == p1 + pass2_upto(gf, gen, gm, i + 1 as int)) by {
            assert(p1 + (pass2_upto(gf, gen, gm, i as int) + pass2_member(gf, gen, gm[i as int]))
                =~= (p1 + pass2_upto(gf, gen, gm, i as int)) + pass2_member(
                gf,
                gen,
                gm[i as int],
            ));
        }
        i = i + 1;
    }
    let ghost p2 = pass2_upto(gf, gen, gm, gm.len() as int);
    assert(out.deep_view() == p1 + p2);

    let mut i: usize = 0;
    assert(out.deep_view() =~= (p1 + p2) + pass3_upto(gf, gen, gm, 0));
    while i < n
        invariant
            i <= n,
            state == case_state_at(gm, gm.len() as int),
            out.deep_view() == (p1 + p2) + pass3_upto(gf, gen, gm, i as int),
        decreases n - i,
    {
        let m = &members[i];
        assert(gm[i as int] == members@[i as int]@);
        if m.is_auto {
            if let Some(st) = state {
                let is_up = first_upper_exec(&m.name);
                if is_up != st {
                    let v = Violation {
                        file: String::from_str(file),
                        line: m.line + 1,
                        enum_name: chars_to_string(enum_name),
                        member_name: chars_to_string(&m.name),
                        detail: String::from_str("auto()"),
                        kind: ViolationKind::InvalidAutoCase,
                    };
                    let ghost old_out = out.deep_view();
                    out.push(v);
                    assert(out.deep_view() =~= old_out + pass3_member(gf, gen, gm, i as int));
                }
            }
        }
        assert(out.deep_view() == (p1 + p2) + pass3_upto(gf, gen, gm, i + 1 as int)) by {
            assert((p1 + p2) + (pass3_upto(gf, gen, gm, i as int) + pass3_member(
                gf,
                gen,
                gm,
                i as int,
            )) =~= ((p1 + p2) + pass3_upto(gf, gen, gm, i as int)) + pass3_member(
                gf,
                gen,
                gm,
                i as int,
            ));
        }
        i = i + 1;
    }
    assert(out.deep_view() =~= classify_spec(gf, gen, gm)) by {
        assert((p1 + p2) + pass3_upto(gf, gen, gm, gm.len() as int) =~= p1 + p2 + pass3_upto(
            gf,
            gen,
            gm,
            gm.len() as int,
        ));
    }
    out
}

} // verus!

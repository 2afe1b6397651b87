//! Properties of the scanner, stated and proved over its specification.

use vstd::prelude::*;

use crate::chars::lower_of;
use crate::classify::{
    case_state_at, classify_spec, first_upper, pass1_member, pass1_upto, pass2_member, pass2_upto,
    pass3_member, pass3_upto, ViolationData, ViolationKind,
};
use crate::member::MemberData;
use crate::scan::{
    check_file_spec, file_violations_upto, line_violations, scan_spec, scan_upto, SourceFileData,
};

verus! {

/// Idempotence: the report is a function of the scanned files alone, so
/// running the scan twice on unchanged input yields the identical ordered
/// violation list.
pub proof fn lemma_scan_idempotent(
    files: Seq<SourceFileData>,
    first: Seq<ViolationData>,
    second: Seq<ViolationData>,
)
    requires
        first == scan_spec(files),
        second == scan_spec(files),
    ensures
        first == second,
{
}

/// The name/value discipline a `NameValueMismatch` violation reports.
pub open spec fn mismatch_ok(v: ViolationData) -> bool {
    v.kind == ViolationKind::NameValueMismatch ==> (lower_of(v.member_name) == lower_of(v.detail)
        && v.member_name != v.detail)
}

proof fn lemma_pass1_kinds(file: Seq<char>, en: Seq<char>, ms: Seq<MemberData>, i: int)
    requires
        0 <= i <= ms.len(),
    ensures
        forall|k: int|
            0 <= k < pass1_upto(file, en, ms, i).len() ==> (#[trigger] pass1_upto(
                file,
                en,
                ms,
                i,
            )[k]).kind != ViolationKind::NameValueMismatch,
    decreases i,
{
    if i > 0 {
        lemma_pass1_kinds(file, en, ms, i - 1);
        let prev = pass1_upto(file, en, ms, i - 1);
        let emitted = pass1_member(file, en, ms, i - 1);
        assert forall|k: int|
            0 <= k < pass1_upto(file, en, ms, i).len() implies (#[trigger] pass1_upto(
            file,
            en,
            ms,
            i,
        )[k]).kind != ViolationKind::NameValueMismatch by {
            if k >= prev.len() {
                assert(pass1_upto(file, en, ms, i)[k] == emitted[k - prev.len()]);
            }
        }
    }
}

proof fn lemma_pass2_elements(file: Seq<char>, en: Seq<char>, ms: Seq<MemberData>, i: int)
    requires
        0 <= i <= ms.len(),
    ensures
        forall|k: int|
            0 <= k < pass2_upto(file, en, ms, i).len() ==> ((#[trigger] pass2_upto(
                file,
                en,
                ms,
                i,
            )[k]).kind == ViolationKind::NameValueMismatch && mismatch_ok(
                pass2_upto(file, en, ms, i)[k],
            )),
    decreases i,
{
    if i > 0 {
        lemma_pass2_elements(file, en, ms, i - 1);
        let prev = pass2_upto(file, en, ms, i - 1);
        let emitted = pass2_member(file, en, ms[i - 1]);
        assert forall|k: int|
            0 <= k < pass2_upto(file, en, ms, i).len() implies ((#[trigger] pass2_upto(
            file,
            en,
            ms,
            i,
        )[k]).kind == ViolationKind::NameValueMismatch && mismatch_ok(
            pass2_upto(file, en, ms, i)[k],
        )) by {
            if k >= prev.len() {
                assert(pass2_upto(file, en, ms, i)[k] == emitted[k - prev.len()]);
            }
        }
    }
}

proof fn lemma_pass3_kinds(file: Seq<char>, en: Seq<char>, ms: Seq<MemberData>, i: int)
    requires
        0 <= i <= ms.len(),
    ensures
        forall|k: int|
            0 <= k < pass3_upto(file, en, ms, i).len() ==> (#[trigger] pass3_upto(
                file,
                en,
                ms,
                i,
            )[k]).kind == ViolationKind::InvalidAutoCase,
    decreases i,
{
    if i > 0 {
        lemma_pass3_kinds(file, en, ms, i - 1);
        let prev = pass3_upto(file, en, ms, i - 1);
        let emitted = pass3_member(file, en, ms, i - 1);
        assert forall|k: int|
            0 <= k < pass3_upto(file, en, ms, i).len() implies (#[trigger] pass3_upto(
            file,
            en,
            ms,
            i,
        )[k]).kind == ViolationKind::InvalidAutoCase by {
            if k >= prev.len() {
                assert(pass3_upto(file, en, ms, i)[k] == emitted[k - prev.len()]);
            }
        }
    }
}

/// Every violation the classifier emits respects the name/value discipline.
pub proof fn lemma_classify_mismatch_ok(file: Seq<char>, en: Seq<char>, ms: Seq<MemberData>)
    ensures
        forall|k: int|
            0 <= k < classify_spec(file, en, ms).len() ==> mismatch_ok(
                #[trigger] classify_spec(file, en, ms)[k],
            ),
{
    let n = ms.len() as int;
    lemma_pass1_kinds(file, en, ms, n);
    lemma_pass2_elements(file, en, ms, n);
    lemma_pass3_kinds(file, en, ms, n);
    let p1 = pass1_upto(file, en, ms, n);
    let p2 = pass2_upto(file, en, ms, n);
    let p3 = pass3_upto(file, en, ms, n);
    assert forall|k: int|
        0 <= k < classify_spec(file, en, ms).len() implies mismatch_ok(
        #[trigger] classify_spec(file, en, ms)[k],
    ) by {
        if k < p1.len() {
            assert(classify_spec(file, en, ms)[k] == p1[k]);
        } else if k < p1.len() + p2.len() {
            assert(classify_spec(file, en, ms)[k] == p2[k - p1.len()]);
        } else {
            assert(classify_spec(file, en, ms)[k] == p3[k - p1.len() - p2.len()]);
        }
    }
}

proof fn lemma_file_mismatch_ok(lines: Seq<Seq<char>>, path: Seq<char>, i: int)
    requires
        0 <= i <= lines.len(),
    ensures
        forall|k: int|
            0 <= k < file_violations_upto(lines, path, i).len() ==> mismatch_ok(
                #[trigger] file_violations_upto(lines, path, i)[k],
            ),
    decreases i,
{
    if i > 0 {
        lemma_file_mismatch_ok(lines, path, i - 1);
        let prev = file_violations_upto(lines, path, i - 1);
        let emitted = line_violations(lines, path, i - 1);
        match crate::header::header_match(lines[i - 1]) {
            Some(name) => {
                lemma_classify_mismatch_ok(path, name, crate::scan::class_members(lines, i - 1));
            },
            None => {},
        }
        assert forall|k: int|
            0 <= k < file_violations_upto(lines, path, i).len() implies mismatch_ok(
            #[trigger] file_violations_upto(lines, path, i)[k],
        ) by {
            if k >= prev.len() {
                assert(file_violations_upto(lines, path, i)[k] == emitted[k - prev.len()]);
            }
        }
    }
}

/// Order invariant: every `NameValueMismatch` violation `(name, value)` of a
/// scan has `lower_of(name) == lower_of(value)` and `name != value`.
pub proof fn lemma_mismatch_order_invariant(files: Seq<SourceFileData>, k: int)
    requires
        0 <= k < scan_spec(files).len(),
        scan_spec(files)[k].kind == ViolationKind::NameValueMismatch,
    ensures
        lower_of(scan_spec(files)[k].member_name) == lower_of(scan_spec(files)[k].detail),
        scan_spec(files)[k].member_name != scan_spec(files)[k].detail,
{
    lemma_scan_mismatch_ok(files, files.len() as int);
}

proof fn lemma_scan_mismatch_ok(files: Seq<SourceFileData>, i: int)
    requires
        0 <= i <= files.len(),
    ensures
        forall|k: int|
            0 <= k < scan_upto(files, i).len() ==> mismatch_ok(#[trigger] scan_upto(files, i)[k]),
    decreases i,
{
    if i > 0 {
        lemma_scan_mismatch_ok(files, i - 1);
        let prev = scan_upto(files, i - 1);
        let content = files[i - 1].text;
        let path = files[i - 1].path;
        let lines = crate::lines::split_lines_spec(content);
        lemma_file_mismatch_ok(lines, path, lines.len() as int);
        assert forall|k: int|
            0 <= k < scan_upto(files, i).len() implies mismatch_ok(
            #[trigger] scan_upto(files, i)[k],
        ) by {
            if k >= prev.len() {
                assert(scan_upto(files, i)[k] == check_file_spec(content, path)[k - prev.len()]);
            }
        }
    }
}

proof fn lemma_case_state_source(ms: Seq<MemberData>, i: int)
    requires
        0 <= i <= ms.len(),
    ensures
        match case_state_at(ms, i) {
            Some(st) => exists|j: int|
                0 <= j < i && !(#[trigger] ms[j]).is_auto && first_upper(ms[j].name) == st,
            None => true,
        },
    decreases i,
{
    if i > 0 {
        lemma_case_state_source(ms, i - 1);
        match case_state_at(ms, i - 1) {
            Some(st) => {
                let j = choose|j: int|
                    0 <= j < i - 1 && !(#[trigger] ms[j]).is_auto && first_upper(ms[j].name)
                        == st;
                assert(0 <= j < i && !ms[j].is_auto && first_upper(ms[j].name) == st);
            },
            None => {
                if !ms[i - 1].is_auto && ms[i - 1].value is Some {
                    assert(0 <= i - 1 < i && !ms[i - 1].is_auto);
                }
            },
        }
    }
}

proof fn lemma_pass1_no_inconsistent(file: Seq<char>, en: Seq<char>, ms: Seq<MemberData>, i: int)
    requires
        0 <= i <= ms.len(),
        forall|j: int, k: int|
            0 <= j < ms.len() && 0 <= k < ms.len() && !(#[trigger] ms[j]).is_auto
                && !(#[trigger] ms[k]).is_auto ==> first_upper(ms[j].name) == first_upper(
                ms[k].name,
            ),
    ensures
        forall|k: int|
            0 <= k < pass1_upto(file, en, ms, i).len() ==> (#[trigger] pass1_upto(
                file,
                en,
                ms,
                i,
            )[k]).kind != ViolationKind::InconsistentNaming,
    decreases i,
{
    if i > 0 {
        lemma_pass1_no_inconsistent(file, en, ms, i - 1);
        let prev = pass1_upto(file, en, ms, i - 1);
        let emitted = pass1_member(file, en, ms, i - 1);
        let m = ms[i - 1];
        if !m.is_auto && m.value is Some {
            match case_state_at(ms, i - 1) {
                Some(st) => {
                    lemma_case_state_source(ms, i - 1);
                    let j = choose|j: int|
                        0 <= j < i - 1 && !(#[trigger] ms[j]).is_auto && first_upper(ms[j].name)
                            == st;
                    assert(first_upper(ms[j].name) == first_upper(m.name));
                    assert(emitted =~= Seq::<ViolationData>::empty());
                },
                None => {},
            }
        }
        assert forall|k: int|
            0 <= k < pass1_upto(file, en, ms, i).len() implies (#[trigger] pass1_upto(
            file,
            en,
            ms,
            i,
        )[k]).kind != ViolationKind::InconsistentNaming by {
            if k >= prev.len() {
                assert(pass1_upto(file, en, ms, i)[k] == emitted[k - prev.len()]);
            }
        }
    }
}

/// Style consistency: for an enumeration whose non-auto members all share the
/// same first-character casing, the classifier emits no `InconsistentNaming`
/// violation.
pub proof fn lemma_style_consistent(file: Seq<char>, en: Seq<char>, ms: Seq<MemberData>)
    requires
        forall|j: int, k: int|
            0 <= j < ms.len() && 0 <= k < ms.len() && !(#[trigger] ms[j]).is_auto
                && !(#[trigger] ms[k]).is_auto ==> first_upper(ms[j].name) == first_upper(
                ms[k].name,
            ),
    ensures
        forall|k: int|
            0 <= k < classify_spec(file, en, ms).len() ==> (#[trigger] classify_spec(
                file,
                en,
                ms,
            )[k]).kind != ViolationKind::InconsistentNaming,
{
    let n = ms.len() as int;
    lemma_pass1_no_inconsistent(file, en, ms, n);
    lemma_pass2_elements(file, en, ms, n);
    lemma_pass3_kinds(file, en, ms, n);
    let p1 = pass1_upto(file, en, ms, n);
    let p2 = pass2_upto(file, en, ms, n);
    let p3 = pass3_upto(file, en, ms, n);
    assert forall|k: int|
        0 <= k < classify_spec(file, en, ms).len() implies (#[trigger] classify_spec(
        file,
        en,
        ms,
    )[k]).kind != ViolationKind::InconsistentNaming by {
        if k < p1.len() {
            assert(classify_spec(file, en, ms)[k] == p1[k]);
        } else if k < p1.len() + p2.len() {
            assert(classify_spec(file, en, ms)[k] == p2[k - p1.len()]);
        } else {
            assert(classify_spec(file, en, ms)[k] == p3[k - p1.len() - p2.len()]);
        }
    }
}

proof fn lemma_case_state_none(ms: Seq<MemberData>, i: int)
    requires
        0 <= i <= ms.len(),
        forall|k: int| 0 <= k < ms.len() ==> (#[trigger] ms[k]).is_auto,
    ensures
        case_state_at(ms, i) is None,
    decreases i,
{
    if i > 0 {
        lemma_case_state_none(ms, i - 1);
    }
}

proof fn lemma_auto_passes_empty(file: Seq<char>, en: Seq<char>, ms: Seq<MemberData>, i: int)
    requires
        0 <= i <= ms.len(),
        forall|k: int|
            0 <= k < ms.len() ==> ((#[trigger] ms[k]).is_auto && !first_upper(ms[k].name)),
    ensures
        pass1_upto(file, en, ms, i) == Seq::<ViolationData>::empty(),
        pass2_upto(file, en, ms, i) == Seq::<ViolationData>::empty(),
        pass3_upto(file, en, ms, i) == Seq::<ViolationData>::empty(),
    decreases i,
{
    if i > 0 {
        lemma_auto_passes_empty(file, en, ms, i - 1);
        lemma_case_state_none(ms, ms.len() as int);
        assert(pass1_member(file, en, ms, i - 1) =~= Seq::<ViolationData>::empty());
        assert(pass2_member(file, en, ms[i - 1]) =~= Seq::<ViolationData>::empty());
        assert(pass3_member(file, en, ms, i - 1) =~= Seq::<ViolationData>::empty());
        assert(pass1_upto(file, en, ms, i) =~= Seq::<ViolationData>::empty());
        assert(pass2_upto(file, en, ms, i) =~= Seq::<ViolationData>::empty());
        assert(pass3_upto(file, en, ms, i) =~= Seq::<ViolationData>::empty());
    }
}

/// Auto isolation: an enumeration consisting solely of lowercase-named
/// auto-sentinel members produces no violations at all.
pub proof fn lemma_auto_isolation(file: Seq<char>, en: Seq<char>, ms: Seq<MemberData>)
    requires
        forall|k: int|
            0 <= k < ms.len() ==> ((#[trigger] ms[k]).is_auto && !first_upper(ms[k].name)),
    ensures
        classify_spec(file, en, ms) == Seq::<ViolationData>::empty(),
{
    let n = ms.len() as int;
    lemma_auto_passes_empty(file, en, ms, n);
    assert(classify_spec(file, en, ms) =~= Seq::<ViolationData>::empty());
}

} // verus!

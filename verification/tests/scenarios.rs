use str_enum_case_check::scan::check_file;
use str_enum_case_check::ViolationKind;

#[test]
fn name_value_mismatch_single_member() {
    let content = "class Colors(StrEnum):\n    FOO = \"foo\"\n";
    let violations = check_file(content, "colors.py");
    assert_eq!(violations.len(), 1);
    let v = &violations[0];
    assert_eq!(v.kind, ViolationKind::NameValueMismatch);
    assert_eq!(v.file, "colors.py");
    assert_eq!(v.line, 2);
    assert_eq!(v.enum_name, "Colors");
    assert_eq!(v.member_name, "FOO");
    assert_eq!(v.detail, "foo");
}

#[test]
fn uppercase_auto_member_flagged() {
    let content = "class Flags(StrEnum):\n    foo = auto()\n    Bar = auto()\n";
    let violations = check_file(content, "flags.py");
    assert_eq!(violations.len(), 1);
    let v = &violations[0];
    assert_eq!(v.kind, ViolationKind::InvalidAutoCase);
    assert_eq!(v.line, 3);
    assert_eq!(v.member_name, "Bar");
    assert_eq!(v.detail, "auto()");
}

#[test]
fn inconsistent_naming_tie_favours_lowercase() {
    let content = "class Greek(StrEnum):\n    alpha = \"alpha\"\n    Beta = \"Beta\"\n";
    let violations = check_file(content, "greek.py");
    assert_eq!(violations.len(), 1);
    let v = &violations[0];
    assert_eq!(v.kind, ViolationKind::InconsistentNaming);
    assert_eq!(v.line, 3);
    assert_eq!(v.member_name, "Beta");
    assert_eq!(v.detail, "lowercase");
}

#[test]
fn single_member_mismatch_without_inconsistency() {
    let content = "class Single(StrEnum):\n    X = \"x\"\n";
    let violations = check_file(content, "single.py");
    assert_eq!(violations.len(), 1);
    let v = &violations[0];
    assert_eq!(v.kind, ViolationKind::NameValueMismatch);
    assert_eq!(v.member_name, "X");
    assert_eq!(v.detail, "x");
}

#[test]
fn consistent_casing_produces_no_naming_violation() {
    let content = "class Ok(StrEnum):\n    red = \"red\"\n    blue = \"blue\"\n";
    let violations = check_file(content, "ok.py");
    assert!(violations.is_empty());
}

#[test]
fn uppercase_members_consistent() {
    let content = "class Ok(StrEnum):\n    RED = \"RED\"\n    BLUE = \"BLUE\"\n";
    let violations = check_file(content, "ok.py");
    for v in &violations {
        assert_ne!(v.kind, ViolationKind::InconsistentNaming);
    }
    assert!(violations.is_empty());
}

#[test]
fn all_auto_lowercase_is_clean() {
    let content = "class Auto(StrEnum):\n    first = auto()\n    second = auto()\n";
    let violations = check_file(content, "auto.py");
    assert!(violations.is_empty());
}

#[test]
fn auto_against_established_style_flagged_twice() {
    let content = "class Mixed(StrEnum):\n    alpha = \"alpha\"\n    Bar = auto()\n";
    let violations = check_file(content, "mixed.py");
    let auto_violations: Vec<_> = violations
        .iter()
        .filter(|v| v.kind == ViolationKind::InvalidAutoCase)
        .collect();
    assert_eq!(auto_violations.len(), 2);
    assert_eq!(auto_violations[0].line, 3);
    assert_eq!(auto_violations[1].line, 3);
    assert_eq!(auto_violations[0].member_name, "Bar");
}

#[test]
fn lowercase_auto_under_uppercase_style_flagged_once() {
    let content = "class Mixed(StrEnum):\n    ALPHA = \"ALPHA\"\n    bar = auto()\n";
    let violations = check_file(content, "mixed.py");
    assert_eq!(violations.len(), 1);
    let v = &violations[0];
    assert_eq!(v.kind, ViolationKind::InvalidAutoCase);
    assert_eq!(v.member_name, "bar");
    assert_eq!(v.line, 3);
}

#[test]
fn scan_is_idempotent() {
    let content = "class Colors(StrEnum):\n    FOO = \"foo\"\n    Bar = \"bar\"\n    baz = auto()\n";
    let first = check_file(content, "colors.py");
    let second = check_file(content, "colors.py");
    assert_eq!(first, second);
}

#[test]
fn mismatch_reports_obey_order_invariant() {
    let content = "class M(StrEnum):\n    FOO = \"foo\"\n    h = \"H\" + \"ello\"\n    W = f\"w{orld}\"\n";
    let violations = check_file(content, "m.py");
    let mismatches: Vec<_> = violations
        .iter()
        .filter(|v| v.kind == ViolationKind::NameValueMismatch)
        .collect();
    assert!(!mismatches.is_empty());
    for v in mismatches {
        assert_eq!(v.member_name.to_lowercase(), v.detail.to_lowercase());
        assert_ne!(v.member_name, v.detail);
    }
}

use str_enum_case_check::scan::{check_file, scan_files, SourceFile};
use str_enum_case_check::ViolationKind;

#[test]
fn qualified_auto_sentinel_is_recognised() {
    let content = "class Flags(StrEnum):\n    foo = enum.auto()\n    Bar = enum.auto()\n";
    let violations = check_file(content, "flags.py");
    assert_eq!(violations.len(), 1);
    assert_eq!(violations[0].kind, ViolationKind::InvalidAutoCase);
    assert_eq!(violations[0].member_name, "Bar");
}

#[test]
fn empty_member_name_is_rejected() {
    let content = "class A(StrEnum):\n    = \"x\"\n    OK = \"OK\"\n";
    let violations = check_file(content, "a.py");
    assert!(violations.is_empty());
}

#[test]
fn unterminated_quote_falls_back_to_proxy() {
    let content = "class A(StrEnum):\n    H = \"hello\n";
    let violations = check_file(content, "a.py");
    assert_eq!(violations.len(), 1);
    assert_eq!(violations[0].kind, ViolationKind::NameValueMismatch);
    assert_eq!(violations[0].detail, "h");
}

#[test]
fn concatenation_extracts_first_quoted_literal() {
    let content = "class A(StrEnum):\n    h = \"H\" + ello\n";
    let violations = check_file(content, "a.py");
    assert_eq!(violations.len(), 1);
    assert_eq!(violations[0].kind, ViolationKind::NameValueMismatch);
    assert_eq!(violations[0].member_name, "h");
    assert_eq!(violations[0].detail, "H");
}

#[test]
fn interpolation_uses_leading_character_proxy() {
    let content = "class A(StrEnum):\n    W = f\"w{orld}\"\n";
    let violations = check_file(content, "a.py");
    assert_eq!(violations.len(), 1);
    assert_eq!(violations[0].kind, ViolationKind::NameValueMismatch);
    assert_eq!(violations[0].detail, "w");
}

#[test]
fn first_equals_sign_splits_the_assignment() {
    let content = "class A(StrEnum):\n    EXPR = \"a == b\"\n";
    let violations = check_file(content, "a.py");
    assert!(violations.is_empty());
}

#[test]
fn value_between_first_matching_quotes() {
    let content = "class A(StrEnum):\n    ab = \"AB\".lower()\n";
    let violations = check_file(content, "a.py");
    assert_eq!(violations.len(), 1);
    assert_eq!(violations[0].detail, "AB");
}

#[test]
fn header_without_strenum_base_is_not_a_candidate() {
    let content = "class A(StrEnumX):\n    FOO = \"foo\"\n";
    assert!(check_file(content, "a.py").is_empty());
}

#[test]
fn header_found_inside_longer_word() {
    let content = "subclass B(StrEnum):\n    FOO = \"foo\"\n";
    let violations = check_file(content, "b.py");
    assert_eq!(violations.len(), 1);
    assert_eq!(violations[0].enum_name, "B");
}

#[test]
fn class_with_no_body_yields_nothing() {
    let content = "class A(StrEnum):\n";
    assert!(check_file(content, "a.py").is_empty());
}

#[test]
fn scan_of_files_is_idempotent() {
    let files = vec![
        SourceFile {
            path: String::from("one.py"),
            text: String::from("class A(StrEnum):\n    FOO = \"foo\"\n    bar = auto()\n"),
        },
        SourceFile {
            path: String::from("two.py"),
            text: String::from("class B(StrEnum):\n    x = \"X\"\n    Y = \"Y\"\n"),
        },
    ];
    let first = scan_files(&files);
    let second = scan_files(&files);
    assert_eq!(first, second);
    assert!(!first.is_empty());
}

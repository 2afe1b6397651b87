use str_enum_case_check::render::render_violation;
use str_enum_case_check::scan::{check_file, scan_files, SourceFile};
use str_enum_case_check::ViolationKind;

#[test]
fn plain_class_is_ignored() {
    let content = "class Plain:\n    FOO = \"foo\"\n\nclass Other(Enum):\n    BAR = \"bar\"\n";
    assert!(check_file(content, "plain.py").is_empty());
}

#[test]
fn empty_content_yields_nothing() {
    assert!(check_file("", "empty.py").is_empty());
}

#[test]
fn qualified_base_is_recognised() {
    let content = "class Colors(enum.StrEnum):\n    FOO = \"foo\"\n";
    let violations = check_file(content, "colors.py");
    assert_eq!(violations.len(), 1);
    assert_eq!(violations[0].enum_name, "Colors");
}

#[test]
fn extra_bases_in_either_order() {
    let before = "class A(Mixin, StrEnum):\n    FOO = \"foo\"\n";
    let after = "class B(StrEnum, Mixin):\n    BAR = \"bar\"\n";
    assert_eq!(check_file(before, "a.py").len(), 1);
    assert_eq!(check_file(after, "b.py").len(), 1);
}

#[test]
fn indentation_ends_the_body() {
    let content = "class A(StrEnum):\n    FOO = \"foo\"\nBAR = \"bar\"\nclass B(StrEnum):\n    BAZ = \"baz\"\n";
    let violations = check_file(content, "two.py");
    assert_eq!(violations.len(), 2);
    assert_eq!(violations[0].enum_name, "A");
    assert_eq!(violations[0].line, 2);
    assert_eq!(violations[1].enum_name, "B");
    assert_eq!(violations[1].line, 5);
}

#[test]
fn blank_lines_do_not_end_the_body() {
    let content = "class A(StrEnum):\n    FOO = \"foo\"\n\n    BAR = \"bar\"\n";
    let violations = check_file(content, "a.py");
    assert_eq!(violations.len(), 2);
    assert_eq!(violations[0].line, 2);
    assert_eq!(violations[1].line, 4);
}

#[test]
fn comments_and_non_assignments_are_skipped() {
    let content = "class A(StrEnum):\n    # FOO = \"foo\"\n    def helper(self):\n        pass\n    COUNT = 3\n    BAD = \"bad\"\n";
    let violations = check_file(content, "a.py");
    assert_eq!(violations.len(), 1);
    assert_eq!(violations[0].member_name, "BAD");
    assert_eq!(violations[0].line, 6);
}

#[test]
fn single_quoted_values_are_extracted() {
    let content = "class A(StrEnum):\n    FOO = 'foo'\n";
    let violations = check_file(content, "a.py");
    assert_eq!(violations.len(), 1);
    assert_eq!(violations[0].detail, "foo");
}

#[test]
fn differing_content_is_not_a_mismatch() {
    let content = "class A(StrEnum):\n    FOO = \"bar\"\n";
    assert!(check_file(content, "a.py").is_empty());
}

#[test]
fn crlf_line_endings_are_handled() {
    let content = "class A(StrEnum):\r\n    FOO = \"foo\"\r\n";
    let violations = check_file(content, "a.py");
    assert_eq!(violations.len(), 1);
    assert_eq!(violations[0].line, 2);
}

#[test]
fn scan_concatenates_in_file_order() {
    let files = vec![
        SourceFile {
            path: String::from("one.py"),
            text: String::from("class A(StrEnum):\n    FOO = \"foo\"\n"),
        },
        SourceFile {
            path: String::from("two.py"),
            text: String::from("class B(StrEnum):\n    BAR = \"bar\"\n"),
        },
    ];
    let violations = scan_files(&files);
    assert_eq!(violations.len(), 2);
    assert_eq!(violations[0].file, "one.py");
    assert_eq!(violations[1].file, "two.py");
}

#[test]
fn rendered_mismatch_message() {
    let content = "class Colors(StrEnum):\n    FOO = \"foo\"\n";
    let violations = check_file(content, "colors.py");
    let line = render_violation(&violations[0]);
    assert_eq!(
        line,
        "colors.py:2:1: StrEnum 'Colors' has member 'FOO' with inconsistent casing: value is 'foo'"
    );
}

#[test]
fn rendered_naming_message() {
    let content = "class Greek(StrEnum):\n    alpha = \"alpha\"\n    Beta = \"Beta\"\n";
    let violations = check_file(content, "greek.py");
    let line = render_violation(&violations[0]);
    assert_eq!(
        line,
        "greek.py:3:1: StrEnum 'Greek' has inconsistent member naming: 'Beta' differs from predominant style (lowercase)"
    );
}

#[test]
fn rendered_auto_message() {
    let content = "class Flags(StrEnum):\n    foo = auto()\n    Bar = auto()\n";
    let violations = check_file(content, "flags.py");
    let line = render_violation(&violations[0]);
    assert_eq!(
        line,
        "flags.py:3:1: StrEnum 'Flags' has uppercase member 'Bar' with auto() value which should be lowercase"
    );
}

#[test]
fn uppercase_majority_reported_as_predominant() {
    let content = "class S(StrEnum):\n    AA = \"AA\"\n    BB = \"BB\"\n    cc = \"cc\"\n";
    let violations = check_file(content, "s.py");
    assert_eq!(violations.len(), 1);
    let v = &violations[0];
    assert_eq!(v.kind, ViolationKind::InconsistentNaming);
    assert_eq!(v.member_name, "cc");
    assert_eq!(v.detail, "UPPERCASE");
}

#[test]
fn nested_header_inside_body_is_scanned() {
    let content = "class Outer(StrEnum):\n    FOO = \"foo\"\n    class Inner(StrEnum):\n        BAR = \"bar\"\n";
    let violations = check_file(content, "nested.py");
    assert_eq!(violations.len(), 3);
}

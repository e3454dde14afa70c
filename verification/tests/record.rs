use tsv_grep::decimal::push_decimal;
use tsv_grep::pattern::{MatchResult, Pattern};
use tsv_grep::record::{format_match, process_line, Output};

fn decimal(n: usize) -> String {
    let mut text = String::new();
    push_decimal(&mut text, n);
    text
}

#[test]
fn decimal_digits() {
    assert_eq!(decimal(0), "0");
    assert_eq!(decimal(7), "7");
    assert_eq!(decimal(10), "10");
    assert_eq!(decimal(109), "109");
    assert_eq!(decimal(12345), "12345");
    assert_eq!(decimal(usize::MAX), format!("{}", usize::MAX));
}

#[test]
fn push_decimal_appends() {
    let mut text = String::from("n=");
    push_decimal(&mut text, 42);
    assert_eq!(text, "n=42");
}

#[test]
fn output_new_keeps_its_parts() {
    let output = Output::new(3, "data".to_string());
    assert_eq!(output.lineno, 3);
    assert_eq!(output.data, "data");
}

#[test]
fn output_renders_label_and_data() {
    assert_eq!(Output::new(0, "x".to_string()).render(), "lineno \x1b[32m0\x1b[0m:\nx");
    assert_eq!(Output::new(120, String::new()).render(), "lineno \x1b[32m120\x1b[0m:\n");
}

#[test]
fn format_match_marks_the_matched_text() {
    let found = MatchResult { start: 3, end: 6, text: "bar".to_string() };
    assert_eq!(
        format_match(1, "foobar", &found),
        "lineno \x1b[32m1\x1b[0m:\nfoo\x1b[31mbar\x1b[0m"
    );
}

#[test]
fn process_line_skips_a_line_without_match() {
    let pattern = Pattern::compile("ba.").unwrap();
    assert_eq!(process_line(0, "a\tb", &pattern), None);
    assert_eq!(process_line(5, "", &pattern), None);
}

#[test]
fn process_line_formats_a_matching_line() {
    let pattern = Pattern::compile("ba.").unwrap();
    assert_eq!(
        process_line(1, "foo\tbar", &pattern),
        Some("lineno \x1b[32m1\x1b[0m:\nfoo\x1b[31mbar\x1b[0m".to_string())
    );
}

#[test]
fn process_line_matches_on_the_stripped_text() {
    let pattern = Pattern::compile("^foo$").unwrap();
    assert_eq!(
        process_line(2, "\x1b[1mf\x1b[0moo", &pattern),
        Some("lineno \x1b[32m2\x1b[0m:\n\x1b[31mfoo\x1b[0m".to_string())
    );
}

#[test]
fn process_line_marks_the_first_occurrence_not_the_match() {
    let pattern = Pattern::compile(r"\bfoo").unwrap();
    assert_eq!(pattern.find("xfoo foo").map(|found| found.start), Some(5));
    assert_eq!(
        process_line(0, "xfoo foo", &pattern),
        Some("lineno \x1b[32m0\x1b[0m:\nx\x1b[31mfoo\x1b[0m foo".to_string())
    );
}

#[test]
fn process_line_marks_only_the_first_match() {
    let pattern = Pattern::compile("[0-9]+").unwrap();
    assert_eq!(
        process_line(0, "a1b22c1", &pattern),
        Some("lineno \x1b[32m0\x1b[0m:\na\x1b[31m1\x1b[0mb22c1".to_string())
    );
}

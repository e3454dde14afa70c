use tsv_grep::lines::split_lines;

fn owned(lines: &[&str]) -> Vec<String> {
    lines.iter().map(|line| line.to_string()).collect()
}

#[test]
fn empty_text_is_one_empty_line() {
    assert_eq!(split_lines(""), owned(&[""]));
}

#[test]
fn text_without_line_feed_is_one_line() {
    assert_eq!(split_lines("a\tb"), owned(&["a\tb"]));
}

#[test]
fn trailing_line_feed_gives_an_empty_last_line() {
    assert_eq!(split_lines("a\tb\nfoo\tbar\nbaz\n"), owned(&["a\tb", "foo\tbar", "baz", ""]));
}

#[test]
fn empty_lines_are_kept() {
    assert_eq!(split_lines("\n\nx\n\n"), owned(&["", "", "x", "", ""]));
}

#[test]
fn carriage_returns_are_not_trimmed() {
    assert_eq!(split_lines("a\r\nb\r\n"), owned(&["a\r", "b\r", ""]));
}

#[test]
fn split_agrees_with_std() {
    let text = "id\tname\n1\tα\n\n2\t\u{1f600}\n";
    let expected: Vec<String> = text.split('\n').map(String::from).collect();
    assert_eq!(split_lines(text), expected);
    assert_eq!(split_lines(text).join("\n"), text);
}

use tsv_grep::ansi::{clean, stripped_or_raw};
use tsv_grep::chars::chars_of;
use tsv_grep::highlight::{find_first, highlight};

fn chars(text: &str) -> Vec<char> {
    text.chars().collect()
}

#[test]
fn highlight_wraps_the_match_in_red() {
    assert_eq!(highlight("foobar", "bar"), "foo\x1b[31mbar\x1b[0m");
    assert_eq!(highlight("baz", "baz"), "\x1b[31mbaz\x1b[0m");
    assert_eq!(highlight("a bär c", "bär"), "a \x1b[31mbär\x1b[0m c");
}

#[test]
fn highlight_marks_the_first_textual_occurrence() {
    assert_eq!(highlight("xfoo foo", "foo"), "x\x1b[31mfoo\x1b[0m foo");
}

#[test]
fn highlight_marks_one_occurrence_only() {
    assert_eq!(highlight("aaaa", "a"), "\x1b[31ma\x1b[0maaa");
    assert_eq!(highlight("abab", "ab"), "\x1b[31mab\x1b[0mab");
}

#[test]
fn highlight_of_the_empty_match_stands_at_the_start() {
    assert_eq!(highlight("abc", ""), "\x1b[31m\x1b[0mabc");
    assert_eq!(highlight("", ""), "\x1b[31m\x1b[0m");
}

#[test]
fn highlight_leaves_a_line_without_the_text_alone() {
    assert_eq!(highlight("abc", "zzz"), "abc");
    assert_eq!(highlight("ab", "abc"), "ab");
}

#[test]
fn find_first_gives_the_least_index() {
    assert_eq!(find_first(&chars("xfoo foo"), &chars("foo")), Some(1));
    assert_eq!(find_first(&chars("foo"), &chars("foo")), Some(0));
    assert_eq!(find_first(&chars("a foo"), &chars("foo")), Some(2));
    assert_eq!(find_first(&chars("aab"), &chars("ab")), Some(1));
    assert_eq!(find_first(&chars("abc"), &chars("")), Some(0));
    assert_eq!(find_first(&chars(""), &chars("")), Some(0));
}

#[test]
fn find_first_finds_nothing_where_the_part_is_absent() {
    assert_eq!(find_first(&chars("abc"), &chars("abd")), None);
    assert_eq!(find_first(&chars("ab"), &chars("abc")), None);
    assert_eq!(find_first(&chars(""), &chars("a")), None);
}

#[test]
fn find_first_counts_characters() {
    assert_eq!(find_first(&chars("αβγ bar"), &chars("bar")), Some(4));
}

#[test]
fn chars_of_lists_the_characters() {
    assert_eq!(chars_of("aé\t😀"), vec!['a', 'é', '\t', '😀']);
    assert_eq!(chars_of(""), Vec::<char>::new());
}

#[test]
fn clean_strips_escape_sequences() {
    assert_eq!(clean("\x1b[32mfoo\x1b[m bar"), "foo bar");
    assert_eq!(clean("\x1b[1;31mx\x1b[0m"), "x");
    assert_eq!(clean("plain"), "plain");
    assert_eq!(clean(""), "");
    assert_eq!(clean("bär 😀"), "bär 😀");
}

#[test]
fn clean_drops_control_characters_but_line_feeds() {
    assert_eq!(clean("foo\tbar"), "foobar");
    assert_eq!(clean("a\r"), "a");
    assert_eq!(clean("a\n\nb"), "a\n\nb");
}

#[test]
fn failed_stripping_falls_back_to_the_raw_text() {
    assert_eq!(stripped_or_raw(None, "\x1b[1mraw"), "\x1b[1mraw");
    assert_eq!(stripped_or_raw(Some("clean".to_string()), "\x1b[1mraw"), "clean");
    assert_eq!(stripped_or_raw(Some(String::new()), "raw"), "");
}

#[test]
fn clean_leaves_no_escape_character() {
    for raw in ["abc\x1b", "\x1b", "\x1b\x1b[", "a\x1b[31", "é\x1bé", "\x1b]0;title\x07x", "x\x1b[0m\x1b"] {
        assert!(!clean(raw).contains('\x1b'), "escape left in {:?}", clean(raw));
    }
}

use nostratui::wrap::wrap_text;

#[test]
fn words_wrap_at_white_space() {
    assert_eq!(wrap_text("hello world foo", 11), vec!["hello", "world foo"]);
    assert_eq!(wrap_text("hello world foo", 12), vec!["hello world", "foo"]);
    assert_eq!(wrap_text("aa   bb", 3), vec!["aa", "bb"]);
}

#[test]
fn a_long_word_is_cut_at_the_width() {
    assert_eq!(wrap_text("abcdefghij", 4), vec!["abcd", "efgh", "ij"]);
}

#[test]
fn blank_lines_become_empty_lines() {
    assert_eq!(wrap_text("a\n\n   \nb", 10), vec!["a", "", "", "b"]);
}

#[test]
fn a_line_that_fits_is_kept_as_it_is() {
    assert_eq!(wrap_text("  hi  ", 10), vec!["  hi  "]);
    assert_eq!(wrap_text("one\r\ntwo\n", 10), vec!["one", "two"]);
}

#[test]
fn empty_text_gives_no_lines() {
    assert!(wrap_text("", 5).is_empty());
}

#[test]
fn wide_characters_count_once() {
    assert_eq!(wrap_text("ééé ààà", 3), vec!["ééé", "ààà"]);
}

#[test]
fn unicode_white_space_breaks_lines_and_others_do_not() {
    assert_eq!(wrap_text("ab\u{3000}cd", 3), vec!["ab", "cd"]);
    assert_eq!(wrap_text("ab\u{00A0}cd", 3), vec!["ab", "cd"]);
    assert_eq!(wrap_text("ab\u{200B}cd", 3), vec!["ab\u{200B}", "cd"]);
}

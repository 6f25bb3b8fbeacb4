use ams::cli::parse_port;
use ams::widgets::chat::wrap_text;

#[test]
fn short_text_is_one_line() {
    assert_eq!(wrap_text("hello world", 30), vec!["hello world".to_string()]);
}

#[test]
fn lines_break_greedily_and_pad_to_the_longest() {
    assert_eq!(
        wrap_text("aaa bb ccc", 7),
        vec!["aaa bb".to_string(), "ccc   ".to_string()]
    );
}

#[test]
fn a_long_word_gets_its_own_line() {
    assert_eq!(
        wrap_text("abcdefgh xy", 4),
        vec!["abcdefgh".to_string(), "xy      ".to_string()]
    );
}

#[test]
fn blanks_of_any_kind_separate_words() {
    assert_eq!(wrap_text("a\tb\nc\rd", 30), vec!["a b c d".to_string()]);
}

#[test]
fn empty_text_has_no_lines() {
    assert_eq!(wrap_text("", 10), Vec::<String>::new());
    assert_eq!(wrap_text("   \n\t ", 10), Vec::<String>::new());
}

#[test]
fn exact_fit_stays_on_one_line() {
    assert_eq!(wrap_text("ab cd", 5), vec!["ab cd".to_string()]);
    assert_eq!(wrap_text("ab cde", 5), vec!["ab ".to_string(), "cde".to_string()]);
}

#[test]
fn parse_port_accepts_digit_strings() {
    assert_eq!(parse_port("9000"), Some(9000));
    assert_eq!(parse_port("0"), Some(0));
    assert_eq!(parse_port("007"), Some(7));
    assert_eq!(parse_port("4294967295"), Some(u32::MAX));
}

#[test]
fn parse_port_rejects_everything_else() {
    assert_eq!(parse_port(""), None);
    assert_eq!(parse_port("12a"), None);
    assert_eq!(parse_port("-1"), None);
    assert_eq!(parse_port(" 1"), None);
    assert_eq!(parse_port("4294967296"), None);
}

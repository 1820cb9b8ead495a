use chess_pgn_parser::parser;
use chess_pgn_parser::scan::{any_char, read_one_or_more, read_zero_or_more, scan_class, CharClass};
use chess_pgn_parser::ParseError;

#[test]
fn any_char_takes_the_first_character() {
    assert_eq!(any_char("abc"), Ok(('a', "bc")));
    assert_eq!(any_char("a"), Ok(('a', "")));
}

#[test]
fn any_char_fails_on_empty_input() {
    assert_eq!(any_char(""), Err(ParseError));
}

#[test]
fn any_char_works_on_character_boundaries() {
    assert_eq!(any_char("éa"), Ok(('é', "a")));
    assert_eq!(any_char("越x"), Ok(('越', "x")));
}

#[test]
fn read_zero_or_more_may_match_nothing() {
    assert_eq!(read_zero_or_more("abc", |c| c == 'x'), Ok(("", "abc")));
    assert_eq!(read_zero_or_more("", |c| c == 'x'), Ok(("", "")));
}

#[test]
fn read_zero_or_more_takes_the_longest_prefix() {
    assert_eq!(read_zero_or_more("aaab", |c| c == 'a'), Ok(("aaa", "b")));
    assert_eq!(read_zero_or_more("aaa", |c| c == 'a'), Ok(("aaa", "")));
    assert_eq!(read_zero_or_more("aabaa", |c| c == 'a'), Ok(("aa", "baa")));
}

#[test]
fn read_zero_or_more_counts_characters_not_bytes() {
    assert_eq!(read_zero_or_more("ééé-é", |c| c == 'é'), Ok(("ééé", "-é")));
}

#[test]
fn read_one_or_more_fails_on_an_empty_match() {
    assert_eq!(read_one_or_more("abc", |c| c == 'x'), Err(ParseError));
    assert_eq!(read_one_or_more("", |c| c == 'x'), Err(ParseError));
}

#[test]
fn scan_class_splits_behind_the_run() {
    assert_eq!(scan_class("123abc", CharClass::Digit), ("123", "abc"));
    assert_eq!(scan_class("abc", CharClass::Digit), ("", "abc"));
    assert_eq!(scan_class("a_b+c rest", CharClass::Symbol), ("a_b+c", " rest"));
    assert_eq!(scan_class(" \t\n x", CharClass::Whitespace), (" \t\n ", "x"));
    assert_eq!(scan_class("text\nnext", CharClass::LineText), ("text", "\nnext"));
    assert_eq!(scan_class("text\rnext", CharClass::LineText), ("text", "\rnext"));
    assert_eq!(scan_class("a\nb}c", CharClass::BlockText), ("a\nb", "}c"));
    assert_eq!(scan_class("\n\r  \tx", CharClass::Blank), ("\n\r  ", "\tx"));
}

#[test]
fn char_classes_hold_what_they_name() {
    assert!(CharClass::Digit.has('0'));
    assert!(CharClass::Digit.has('9'));
    assert!(!CharClass::Digit.has('a'));
    assert!(!CharClass::Digit.has('٣'));
    assert!(CharClass::Symbol.has('a'));
    assert!(CharClass::Symbol.has('Z'));
    assert!(CharClass::Symbol.has('7'));
    assert!(CharClass::Symbol.has('é'));
    assert!(CharClass::Symbol.has('_'));
    assert!(CharClass::Symbol.has('+'));
    assert!(CharClass::Symbol.has('#'));
    assert!(CharClass::Symbol.has('='));
    assert!(CharClass::Symbol.has(':'));
    assert!(!CharClass::Symbol.has('-'));
    assert!(!CharClass::Symbol.has(' '));
    assert!(!CharClass::Symbol.has('"'));
    assert!(CharClass::Whitespace.has(' '));
    assert!(CharClass::Whitespace.has('\t'));
    assert!(CharClass::Whitespace.has('\n'));
    assert!(CharClass::Whitespace.has('\u{a0}'));
    assert!(!CharClass::Whitespace.has('x'));
    assert!(CharClass::LineText.has('x'));
    assert!(!CharClass::LineText.has('\n'));
    assert!(!CharClass::LineText.has('\r'));
    assert!(CharClass::BlockText.has('{'));
    assert!(!CharClass::BlockText.has('}'));
    assert!(CharClass::Blank.has(' '));
    assert!(CharClass::Blank.has('\n'));
    assert!(CharClass::Blank.has('\r'));
    assert!(!CharClass::Blank.has('\t'));
}

#[test]
fn expect_char_takes_one_given_character() {
    assert_eq!(parser::expect_char("[x", '['), Ok(((), "x")));
    assert_eq!(parser::expect_char("x[", '['), Err(ParseError));
    assert_eq!(parser::expect_char("", '['), Err(ParseError));
}

#[test]
fn literal_takes_a_whole_token_or_nothing() {
    assert_eq!(parser::literal("1-0 rest", "1-0"), Ok(((), " rest")));
    assert_eq!(parser::literal("1-0", "1-0"), Ok(((), "")));
    assert_eq!(parser::literal("1-", "1-0"), Err(ParseError));
    assert_eq!(parser::literal("1-1", "1-0"), Err(ParseError));
    assert_eq!(parser::literal("", "1-0"), Err(ParseError));
    assert_eq!(parser::literal("abc", ""), Ok(((), "abc")));
}

#[test]
fn skip_space_leaves_the_text_behind_white_space() {
    assert_eq!(parser::skip_space("  \r\n\tabc "), "abc ");
    assert_eq!(parser::skip_space("abc"), "abc");
    assert_eq!(parser::skip_space("   "), "");
    assert_eq!(parser::skip_space(""), "");
}

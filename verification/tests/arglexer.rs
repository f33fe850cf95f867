use pythia::arglexer::{
    command_arguments, command_word, find_command_end, lex_args, lex_classes, lex_sentence,
    lex_text, lex_word, LexError,
};
use pythia::charclass::CharClass::{Other, Quote, Space, Word};
use pythia::charclass::{char_class, char_classes, CharClass};

fn chars(text: &str) -> Vec<CharClass> {
    char_classes(text)
}

#[test]
fn every_character_has_one_class() {
    assert_eq!(char_class('"'), CharClass::Quote);
    assert_eq!(char_class(' '), CharClass::Space);
    assert_eq!(char_class('\t'), CharClass::Space);
    assert_eq!(char_class('\u{a0}'), CharClass::Space);
    assert_eq!(char_class('a'), CharClass::Word);
    assert_eq!(char_class('7'), CharClass::Word);
    assert_eq!(char_class('\u{e9}'), CharClass::Word);
    assert_eq!(char_class('\u{85cf}'), CharClass::Word);
    assert_eq!(char_class('-'), CharClass::Other);
    assert_eq!(char_class('!'), CharClass::Other);
    assert_eq!(char_class('\u{1f49d}'), CharClass::Other);
}

#[test]
fn classes_follow_the_characters() {
    assert_eq!(char_classes("a1 \"b-\""), vec![Word, Word, Space, Quote, Word, Other, Quote]);
    assert_eq!(char_classes(""), Vec::new());
}

#[test]
fn lex_classes_finds_words_and_sentences() {
    assert_eq!(lex_classes(&[]), Ok(Vec::new()));
    assert_eq!(lex_classes(&[Space, Other, Space]), Ok(Vec::new()));
    assert_eq!(lex_classes(&[Word, Word, Space, Word]), Ok(vec![(0, 2), (3, 4)]));
    assert_eq!(lex_classes(&[Word, Other, Word]), Ok(vec![(0, 1), (2, 3)]));
    assert_eq!(lex_classes(&[Quote, Word, Space, Other, Quote, Word]), Ok(vec![(1, 4), (5, 6)]));
    assert_eq!(lex_classes(&[Quote, Quote]), Ok(vec![(1, 1)]));
    assert_eq!(lex_classes(&[Word, Quote, Space, Quote, Word]), Ok(vec![(0, 1), (2, 3), (4, 5)]));
}

#[test]
fn lex_classes_rejects_an_open_sentence() {
    assert_eq!(lex_classes(&[Quote]), Err(LexError::MalformedInput));
    assert_eq!(lex_classes(&[Word, Space, Quote, Word]), Err(LexError::MalformedInput));
    assert_eq!(lex_classes(&[Quote, Word, Quote, Quote]), Err(LexError::MalformedInput));
}

#[test]
fn find_command_end_stops_at_the_first_space() {
    assert_eq!(find_command_end(&[Other, Word, Space, Word, Space]), 2);
    assert_eq!(find_command_end(&[Space]), 0);
    assert_eq!(find_command_end(&[Other, Word, Quote]), 3);
    assert_eq!(find_command_end(&[]), 0);
}

#[test]
fn basic_lexing() {
    let message = r#"!poll title arg1 arg2"#;
    let args = lex_args(message).unwrap();
    let expected = vec!["title", "arg1", "arg2"];

    assert_eq!(args, expected);
}

#[test]
fn quotation_marks() {
    let message = r#"!poll title "arg1" arg2"#;
    let args = lex_args(message).unwrap();
    let expected = vec!["title", "arg1", "arg2"];

    assert_eq!(args, expected);
}

#[test]
fn multi_word_quotations() {
    let message = r#"!poll title "arg1 arg2""#;
    let args = lex_args(message).unwrap();
    let expected = vec!["title", "arg1 arg2"];

    assert_eq!(args, expected);
}

#[test]
fn multiple_sentences() {
    let message = r#"!poll "longer title" "arg1 arg2""#;
    let args = lex_args(message).unwrap();
    let expected = vec!["longer title", "arg1 arg2"];

    assert_eq!(args, expected);
}

#[test]
fn unterminated_quote_is_malformed() {
    let message = r#"!poll "longer title "arg1 arg2""#;
    assert_eq!(lex_args(message), Err(LexError::MalformedInput));
}

#[test]
fn lone_quote_is_malformed() {
    assert_eq!(lex_args("!poll \""), Err(LexError::MalformedInput));
    assert_eq!(lex_args("!poll title \"arg1"), Err(LexError::MalformedInput));
}

#[test]
fn line_without_whitespace_has_no_arguments() {
    assert_eq!(lex_args("!poll"), Ok(Vec::new()));
    assert_eq!(lex_args(""), Ok(Vec::new()));
    assert_eq!(lex_args("\"open"), Ok(Vec::new()));
}

#[test]
fn command_word_alone_has_no_arguments() {
    assert_eq!(lex_args("!poll "), Ok(Vec::new()));
    assert_eq!(lex_args("!poll    "), Ok(Vec::new()));
}

#[test]
fn empty_sentence_is_an_argument() {
    assert_eq!(lex_args("!poll \"\" a"), Ok(vec!["", "a"]));
}

#[test]
fn punctuation_is_dropped() {
    assert_eq!(lex_args("!poll a-b, c!"), Ok(vec!["a", "b", "c"]));
    assert_eq!(lex_args("!poll ... ?"), Ok(Vec::new()));
}

#[test]
fn quote_after_a_word_opens_a_sentence() {
    assert_eq!(lex_args("!poll abc\"def ghi\"jkl"), Ok(vec!["abc", "def ghi", "jkl"]));
    assert_eq!(lex_args("!poll abc\"def"), Err(LexError::MalformedInput));
}

#[test]
fn sentence_keeps_its_whitespace_and_punctuation() {
    assert_eq!(lex_args("!poll \"  a,  b \""), Ok(vec!["  a,  b "]));
}

#[test]
fn words_follow_unicode() {
    assert_eq!(lex_args("!poll caf\u{e9} \u{85cf}\u{4e66} \u{663}"), Ok(vec!["caf\u{e9}", "\u{85cf}\u{4e66}", "\u{663}"]));
    assert_eq!(lex_args("!poll \u{e9}t\u{e9}\u{2014}hiver"), Ok(vec!["\u{e9}t\u{e9}", "hiver"]));
    assert_eq!(lex_args("!poll \"\u{1f49d} caf\u{e9}\" x"), Ok(vec!["\u{1f49d} caf\u{e9}", "x"]));
}

#[test]
fn command_word_ends_at_any_whitespace() {
    assert_eq!(lex_args("!poll\ttitle arg"), Ok(vec!["title", "arg"]));
    assert_eq!(lex_args("!poll\u{a0}title"), Ok(vec!["title"]));
    assert_eq!(lex_args("caf\u{e9} title"), Ok(vec!["title"]));
}

#[test]
fn leading_whitespace_ends_an_empty_command_word() {
    assert_eq!(lex_args(" poll a"), Ok(vec!["poll", "a"]));
}

#[test]
fn plain_line_equals_whitespace_split() {
    let line = "!poll  alpha beta\t gamma42  ";
    let rest = command_arguments(line).unwrap();
    let expected: Vec<&str> = rest.split(char::is_whitespace).filter(|piece| !piece.is_empty()).collect();
    assert_eq!(expected, vec!["alpha", "beta", "gamma42"]);
    assert_eq!(lex_args(line), Ok(expected));
}

#[test]
fn odd_number_of_quotes_is_malformed() {
    assert_eq!(lex_args("!p \"a\" \"b\" \"c"), Err(LexError::MalformedInput));
    assert_eq!(lex_args("!p \"a\" \"b\" \"c\""), Ok(vec!["a", "b", "c"]));
    assert_eq!(lex_args("!p\" \"a\""), Ok(vec!["a"]));
}

#[test]
fn command_arguments_cuts_the_command_word() {
    assert_eq!(command_arguments("!resource http://example.org a b"), Some("http://example.org a b"));
    assert_eq!(command_arguments("!resource "), Some(""));
    assert_eq!(command_arguments("!resource"), None);
    assert_eq!(command_arguments(""), None);
    assert_eq!(command_arguments("\u{e9}t\u{e9} \u{e9}"), Some("\u{e9}"));
}

#[test]
fn command_word_is_what_stands_before_the_whitespace() {
    assert_eq!(command_word("!resource http://example.org a b"), "!resource");
    assert_eq!(command_word("!resource"), "!resource");
    assert_eq!(command_word(" x"), "");
    assert_eq!(command_word(""), "");
    assert_eq!(command_word("\u{e9}t\u{e9}\tx"), "\u{e9}t\u{e9}");
}

#[test]
fn lex_text_splits_without_a_command_word() {
    assert_eq!(lex_text("title \"arg1 arg2\""), Ok(vec!["title", "arg1 arg2"]));
    assert_eq!(lex_text(""), Ok(Vec::new()));
    assert_eq!(lex_text("\""), Err(LexError::MalformedInput));
}

#[test]
fn lex_word_finds_the_end_of_the_run() {
    assert_eq!(lex_word(&chars("abc def"), 0), 3);
    assert_eq!(lex_word(&chars("abc def"), 1), 3);
    assert_eq!(lex_word(&chars("abc def"), 3), 3);
    assert_eq!(lex_word(&chars("abc def"), 4), 7);
    assert_eq!(lex_word(&chars("abc\"def"), 0), 3);
    assert_eq!(lex_word(&chars("abc"), 3), 3);
    assert_eq!(lex_word(&chars("abc"), 9), 3);
}

#[test]
fn lex_sentence_finds_the_closing_quote() {
    assert_eq!(lex_sentence(&chars("\"ab c\" d"), 0), Some(5));
    assert_eq!(lex_sentence(&chars("\"\""), 0), Some(1));
    assert_eq!(lex_sentence(&chars("\"ab c"), 0), None);
    assert_eq!(lex_sentence(&chars("\""), 0), None);
    assert_eq!(lex_sentence(&chars("\"a\""), 2), None);
    assert_eq!(lex_sentence(&chars("\"a\""), 7), None);
}

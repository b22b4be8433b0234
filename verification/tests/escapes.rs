use clexer::error::ParseError;
use clexer::escape::{escaped_to_char, map_character, map_characters};
use clexer::lit::Lit;
use clexer::strlit::string_literal;

fn decoded_value(input: &[u8]) -> String {
    match string_literal(input).unwrap().0 {
        Lit::Str { value, .. } => value,
        other => panic!("expected a string literal, got {:?}", other),
    }
}

#[test]
fn escape_round_trips() {
    assert_eq!(decoded_value(b"\"\\n\""), "\n");
    assert_eq!(decoded_value(b"\"\\t\""), "\t");
    assert_eq!(decoded_value(b"\"\\\\\""), "\\");
    assert_eq!(decoded_value(b"\"\\101\""), "A");
    assert_eq!(decoded_value(b"\"\\x41\""), "A");
    assert_eq!(decoded_value(b"\"\\u0041\""), "A");
    assert_eq!(decoded_value(b"\"\\U00000041\""), "A");
}

#[test]
fn escape_fixed_controls() {
    assert_eq!(decoded_value(b"\"\\a\\b\\f\\r\\v\\e\""), "\x07\x08\x0C\x0D\x0B\x1B");
    assert_eq!(decoded_value(b"\"\\'\\\"\\?\""), "'\"?");
}

#[test]
fn escape_unicode_short_run() {
    let err = string_literal(b"\"\\u004\"").unwrap_err();
    assert_eq!(
        err,
        vec![
            ParseError::InvalidEscapeSequenceDetail(String::from("\\u004")),
            ParseError::InvalidStringLiteral,
        ]
    );
}

#[test]
fn escape_hex_no_digits() {
    let err = string_literal(b"\"\\xZZ\"").unwrap_err();
    assert_eq!(
        err,
        vec![ParseError::InvalidEscapeSequence, ParseError::InvalidStringLiteral]
    );
}

#[test]
fn escape_surrogate_rejected() {
    let err = string_literal(b"\"\\uD800\"").unwrap_err();
    assert_eq!(
        err,
        vec![
            ParseError::InvalidUnicodeValueDetail(String::from("\\uD800")),
            ParseError::InvalidStringLiteral,
        ]
    );
}

#[test]
fn escape_hex_out_of_range() {
    let err = string_literal(b"\"\\x110000\"").unwrap_err();
    assert_eq!(
        err,
        vec![
            ParseError::InvalidUnicodeValueDetail(String::from("\\x110000")),
            ParseError::InvalidStringLiteral,
        ]
    );
}

#[test]
fn escape_hex_huge_run_no_panic() {
    let err = string_literal(b"\"\\xFFFFFFFFFFFFFFFF\"").unwrap_err();
    assert_eq!(
        err,
        vec![
            ParseError::InvalidUnicodeValueDetail(String::from("\\xFFFFFFFFFFFFFFFF")),
            ParseError::InvalidStringLiteral,
        ]
    );
}

#[test]
fn escape_hex_maximal_run() {
    // The hex rule takes every following hex digit, so a trailing digit
    // joins the escape instead of the body.
    assert_eq!(decoded_value(b"\"\\x412\""), "\u{412}");
}

#[test]
fn escape_unicode_exactly_four() {
    // The \u rule takes exactly four digits; the fifth stays in the body.
    assert_eq!(decoded_value(b"\"\\u00412\""), "A2");
}

#[test]
fn escape_octal_at_most_three() {
    assert_eq!(decoded_value(b"\"\\1234\""), "\u{53}4");
}

#[test]
fn escaped_to_char_positions() {
    let body: Vec<char> = "41x".chars().collect();
    let (c, next) = escaped_to_char('x', &body, 0).unwrap();
    assert_eq!(c, 'A');
    assert_eq!(next, 2);
}

#[test]
fn escaped_to_char_fixed_consumes_nothing_more() {
    let body: Vec<char> = "rest".chars().collect();
    let (c, next) = escaped_to_char('n', &body, 0).unwrap();
    assert_eq!(c, '\n');
    assert_eq!(next, 0);
}

#[test]
fn escaped_to_char_unknown_introducer() {
    let body: Vec<char> = Vec::new();
    let err = escaped_to_char('q', &body, 0).unwrap_err();
    assert_eq!(err, vec![ParseError::InvalidEscapeSequence]);
}

#[test]
fn map_character_plain_and_escaped() {
    assert_eq!(map_character(b"a").unwrap(), 'a');
    assert_eq!(map_character(b"\\x41tail").unwrap(), 'A');
    let err = map_character(b"").unwrap_err();
    assert_eq!(err, vec![ParseError::InvalidEscapeSequence]);
}

#[test]
fn map_character_wraps_decoder_error() {
    let err = map_character(b"\\u00").unwrap_err();
    assert_eq!(
        err,
        vec![
            ParseError::InvalidEscapeSequenceDetail(String::from("\\u00")),
            ParseError::InvalidEscapeSequence,
        ]
    );
}

#[test]
fn map_characters_decodes_whole_text() {
    assert_eq!(map_characters(b"ab\\tcd\\x21").unwrap(), "ab\tcd!");
    assert_eq!(map_characters(b"").unwrap(), "");
}

#[test]
fn map_characters_wraps_decoder_error() {
    let err = map_characters(b"ok\\q").unwrap_err();
    assert_eq!(
        err,
        vec![ParseError::InvalidEscapeSequence, ParseError::InvalidEscapeSequence]
    );
}

#[test]
fn map_characters_non_ascii_passthrough() {
    assert_eq!(map_characters("héllo \\u2154".as_bytes()).unwrap(), "héllo \u{2154}");
}

use clexer::error::ParseError;
use clexer::ident::Ident;
use clexer::lit::{CharLiteral, Lit};
use clexer::strlit::{char_literal, integer_like_literal, string, string_like_literal, string_literal};

fn str_lit(value: &str, unicode: bool, wide: bool) -> Lit {
    Lit::Str { value: String::from(value), unicode, wide }
}

#[test]
fn string_literal_with_escape() {
    let (lit, next) = string_literal(b"\"abc\\ndef\"").unwrap();
    assert_eq!(lit, str_lit("abc\ndef", false, false));
    assert_eq!(next, 10);
}

#[test]
fn string_literal_u8_prefix() {
    let (lit, _next) = string_literal(b"u8\"abc\"").unwrap();
    assert_eq!(lit, str_lit("abc", true, false));
}

#[test]
fn string_literal_wide_prefix() {
    let (lit, _next) = string_literal(b"L\"w\"").unwrap();
    assert_eq!(lit, str_lit("w", false, true));
}

#[test]
fn string_literal_both_prefixes() {
    let (lit, _next) = string_literal(b"u8 L \"x\"").unwrap();
    assert_eq!(lit, str_lit("x", true, true));
}

#[test]
fn string_literal_unterminated() {
    let err = string_literal(b"\"abc").unwrap_err();
    assert!(err.contains(&ParseError::InvalidStringLiteral));
    assert_eq!(
        err,
        vec![ParseError::InvalidPunctuation('"'), ParseError::InvalidStringLiteral]
    );
}

#[test]
fn string_literal_empty_body() {
    let (lit, next) = string_literal(b"\"\"").unwrap();
    assert_eq!(lit, str_lit("", false, false));
    assert_eq!(next, 2);
}

#[test]
fn string_literal_bad_prefix_chain() {
    let err = string_literal(b"h\"x\"").unwrap_err();
    assert_eq!(
        err,
        vec![
            ParseError::InvalidPunctuation('"'),
            ParseError::InvalidStringPrefix,
            ParseError::InvalidStringLiteral,
        ]
    );
}

#[test]
fn string_literal_newline_in_body() {
    let err = string_literal(b"\"ab\ncd\"").unwrap_err();
    assert_eq!(
        err,
        vec![ParseError::InvalidPunctuation('"'), ParseError::InvalidStringLiteral]
    );
}

#[test]
fn string_literal_non_ascii_body() {
    let (lit, next) = string_literal("\"héllo\"".as_bytes()).unwrap();
    assert_eq!(lit, str_lit("héllo", false, false));
    assert_eq!(next, 7);
}

#[test]
fn string_literal_escape_failure_wrapped() {
    let err = string_literal(b"\"a\\q\"").unwrap_err();
    assert_eq!(
        err,
        vec![ParseError::InvalidEscapeSequence, ParseError::InvalidStringLiteral]
    );
}

#[test]
fn string_like_file() {
    let (lit, next) = string_like_literal(b"__FILE__").unwrap();
    assert_eq!(lit, Lit::StringLike(Ident::new(String::from("__FILE__"))));
    assert_eq!(next, 8);
}

#[test]
fn string_like_no_prefix_match() {
    let err = string_like_literal(b"__FILEX__").unwrap_err();
    assert_eq!(err, vec![ParseError::InvalidStringLikeLiteral]);
}

#[test]
fn string_like_whole_word_only() {
    let err = string_like_literal(b"__FILE__X").unwrap_err();
    assert_eq!(err, vec![ParseError::InvalidStringLikeLiteral]);
}

#[test]
fn string_like_all_keywords() {
    for kw in ["__func__", "__FUNCTION__", "__DATE__", "__TIME__", "__FILE__"] {
        let (lit, _next) = string_like_literal(kw.as_bytes()).unwrap();
        assert_eq!(lit, Lit::StringLike(Ident::new(String::from(kw))));
    }
}

#[test]
fn integer_like_all_keywords() {
    for kw in [
        "__LINE__",
        "__STDC__",
        "__STDC_VERSION__",
        "__STDC_HOSTED__",
        "__cplusplus",
        "__OBJC__",
        "__ASSEMBLER__",
    ] {
        let (lit, _next) = integer_like_literal(kw.as_bytes()).unwrap();
        assert_eq!(lit, Lit::IntegerLike(Ident::new(String::from(kw))));
    }
}

#[test]
fn integer_like_rejects_others() {
    let err = integer_like_literal(b"__LINEAGE__").unwrap_err();
    assert_eq!(err, vec![ParseError::InvalidIntegerLikeLiteral]);
}

#[test]
fn string_takes_string_like_branch() {
    let (lit, _next) = string(b"__FILE__").unwrap();
    assert_eq!(lit, Lit::StringLike(Ident::new(String::from("__FILE__"))));
}

#[test]
fn string_backtracks_to_literal_branch() {
    // The string-like branch fails on a quoted literal; the literal branch
    // must then see the very same starting position.
    let (lit, next) = string(b"  \"ok\"").unwrap();
    assert_eq!(lit, str_lit("ok", false, false));
    assert_eq!(next, 6);
}

#[test]
fn string_both_branches_fail() {
    let err = string(b"12").unwrap_err();
    assert_eq!(err, vec![ParseError::InvalidString]);
}

#[test]
fn char_literal_plain() {
    let (lit, next) = char_literal(b"'a'").unwrap();
    assert_eq!(lit, Lit::Char(CharLiteral::Unicode('a')));
    assert_eq!(next, 3);
}

#[test]
fn char_literal_escape() {
    let (lit, _next) = char_literal(b"'\\n'").unwrap();
    assert_eq!(lit, Lit::Char(CharLiteral::Unicode('\n')));
}

#[test]
fn char_literal_two_chars_rejected() {
    let err = char_literal(b"'ab'").unwrap_err();
    assert_eq!(
        err,
        vec![ParseError::InvalidPunctuation('\''), ParseError::InvalidCharacterLiteral]
    );
}

#[test]
fn char_literal_empty_rejected() {
    let err = char_literal(b"''").unwrap_err();
    assert_eq!(
        err,
        vec![ParseError::InvalidEscapeSequence, ParseError::InvalidCharacterLiteral]
    );
}

#[test]
fn char_literal_missing_quote() {
    let err = char_literal(b"a'").unwrap_err();
    assert_eq!(
        err,
        vec![ParseError::InvalidPunctuation('\''), ParseError::InvalidCharacterLiteral]
    );
}

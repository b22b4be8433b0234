use clexer::error::ParseError;
use clexer::function::{function_specifier, FunctionSpecifier};
use clexer::misc::{storage_class_specifier, StorageClassSpecifier};
use clexer::operator::{assignment, operator, AssignmentOperator, Operator};
use clexer::types::{type_qualifier, TypeQualifier};

#[test]
fn test_storage_class_specifier() {
    assert_eq!(
        storage_class_specifier(b"thread_local"),
        Some((StorageClassSpecifier::ThreadLocal, 12))
    );
    assert_eq!(storage_class_specifier(b"auto"), Some((StorageClassSpecifier::Auto, 4)));
    assert_eq!(storage_class_specifier(b"static"), Some((StorageClassSpecifier::Static, 6)));
}

#[test]
fn storage_class_more() {
    assert_eq!(storage_class_specifier(b"typedef"), Some((StorageClassSpecifier::Typedef, 7)));
    assert_eq!(storage_class_specifier(b"extern"), Some((StorageClassSpecifier::Extern, 6)));
    assert_eq!(
        storage_class_specifier(b"register"),
        Some((StorageClassSpecifier::Register, 8))
    );
    assert_eq!(storage_class_specifier(b"other"), None);
    // No whitespace handling and no whole-word check: exact text only.
    assert_eq!(storage_class_specifier(b" auto"), None);
}

#[test]
fn function_specifier_keywords() {
    assert_eq!(function_specifier(b" inline "), Some((FunctionSpecifier::Inline, 8)));
    assert_eq!(function_specifier(b"_Noreturn"), Some((FunctionSpecifier::NoReturn, 9)));
    assert_eq!(function_specifier(b"inlined"), Some((FunctionSpecifier::Inline, 6)));
    assert_eq!(function_specifier(b"static"), None);
}

#[test]
fn operator_tokens() {
    assert_eq!(operator(b"*"), Some((Operator::MUL, 1)));
    assert_eq!(operator(b" + "), Some((Operator::ADD, 3)));
    assert_eq!(operator(b"<<"), Some((Operator::LEFT, 2)));
    assert_eq!(operator(b">>"), Some((Operator::RIGHT, 2)));
    assert_eq!(operator(b"^"), Some((Operator::XOR, 1)));
    assert_eq!(operator(b"="), None);
}

#[test]
fn assignment_tokens() {
    assert_eq!(assignment(b"="), Some((AssignmentOperator(None), 1)));
    assert_eq!(assignment(b"+="), Some((AssignmentOperator(Some(Operator::ADD)), 2)));
    assert_eq!(assignment(b"<<="), Some((AssignmentOperator(Some(Operator::LEFT)), 3)));
    assert_eq!(assignment(b"+"), None);
    assert_eq!(assignment(b"x"), None);
}

#[test]
fn type_qualifier_keywords() {
    assert_eq!(type_qualifier(b"const"), Some((TypeQualifier::Const, 5)));
    assert_eq!(type_qualifier(b" volatile "), Some((TypeQualifier::Volatile, 10)));
    assert_eq!(type_qualifier(b"restrict"), Some((TypeQualifier::Restrict, 8)));
    assert_eq!(type_qualifier(b"_Atomic"), Some((TypeQualifier::Atomic, 7)));
    assert_eq!(type_qualifier(b"int"), None);
}

#[test]
fn describe_renders_payloads() {
    assert_eq!(
        ParseError::InvalidKeyword(String::from("__func__")).describe(),
        "InvalidKeyword - Expected \"__func__\""
    );
    assert_eq!(
        ParseError::InvalidPunctuation('"').describe(),
        "InvalidPunctuation - Expected \""
    );
    assert_eq!(
        ParseError::InvalidEscapeSequenceDetail(String::from("\\u004")).describe(),
        "InvalidEscapeSequenceDetail - \"\\u004\""
    );
    assert_eq!(ParseError::InvalidIdentifier.describe(), "InvalidIdentifier");
}

#[test]
fn parse_error_equality() {
    assert_eq!(ParseError::InvalidIdentifier, ParseError::InvalidIdentifier);
    assert_ne!(ParseError::InvalidIdentifier, ParseError::InvalidString);
    assert_eq!(
        ParseError::InvalidUnicodeValueDetail(String::from("\\uD800")),
        ParseError::InvalidUnicodeValueDetail(String::from("\\uD800"))
    );
    assert_ne!(
        ParseError::InvalidUnicodeValueDetail(String::from("\\uD800")),
        ParseError::InvalidUnicodeValueDetail(String::from("\\uD801"))
    );
    assert_ne!(ParseError::InvalidPunctuation('"'), ParseError::InvalidPunctuation('\''));
}

use clexer::error::ParseError;
use clexer::ident::{identifier, identifier_list, typedef_name};

#[test]
fn identifier_simple() {
    let (id, next) = identifier(b"test4").unwrap();
    assert_eq!(id.as_str(), "test4");
    assert_eq!(next, 5);
}

#[test]
fn identifier_leading_digit_rejected() {
    let err = identifier(b"4test").unwrap_err();
    assert_eq!(err, vec![ParseError::InvalidIdentifier]);
}

#[test]
fn identifier_skips_whitespace() {
    let (id, next) = identifier(b"  foo_bar9  rest").unwrap();
    assert_eq!(id.as_str(), "foo_bar9");
    assert_eq!(next, 12);
}

#[test]
fn identifier_stops_at_non_ident() {
    let (id, next) = identifier(b"abc-def").unwrap();
    assert_eq!(id.as_str(), "abc");
    assert_eq!(next, 3);
}

#[test]
fn identifier_underscore_start() {
    let (id, _next) = identifier(b"_x1").unwrap();
    assert_eq!(id.as_str(), "_x1");
}

#[test]
fn identifier_empty_rejected() {
    let err = identifier(b"").unwrap_err();
    assert_eq!(err, vec![ParseError::InvalidIdentifier]);
}

#[test]
fn identifier_list_whitespace_tolerated() {
    let (ids, next) = identifier_list(b"a, b,c").unwrap();
    let texts: Vec<&str> = ids.iter().map(|i| i.as_str()).collect();
    assert_eq!(texts, vec!["a", "b", "c"]);
    assert_eq!(next, 6);
}

#[test]
fn identifier_list_many() {
    let (ids, _next) = identifier_list(b"test4, test, testing,sdfsdf, sdf, sdf_sdf3").unwrap();
    let texts: Vec<&str> = ids.iter().map(|i| i.as_str()).collect();
    assert_eq!(texts, vec!["test4", "test", "testing", "sdfsdf", "sdf", "sdf_sdf3"]);
}

#[test]
fn identifier_list_missing_element_fails() {
    let err = identifier_list(b"a, ,b").unwrap_err();
    assert_eq!(err, vec![ParseError::InvalidIdentifier]);
}

#[test]
fn identifier_list_first_missing_fails() {
    let err = identifier_list(b", b").unwrap_err();
    assert_eq!(err, vec![ParseError::InvalidIdentifier]);
}

#[test]
fn typedef_name_is_identifier() {
    let (id, next) = typedef_name(b"size_t x").unwrap();
    assert_eq!(id.as_str(), "size_t");
    assert_eq!(next, 7);
}

//! The typed-diagnostic model every recognizer participates in.
//!
//! A recognizer returns either a success — the parsed value together with the
//! position just past what it consumed — or a chain of typed failure causes.
//! The chain lists causes most specific first: a construct that wraps a
//! failed sub-recognizer appends its own tag at the back.

use vstd::prelude::*;
use vstd::string::StringExecFns;

verus! {

/// A typed failure kind. Some kinds carry the offending text so that a
/// diagnostic can reproduce it verbatim.
#[derive(Debug, Clone, Hash)]
pub enum ParseError {
    InvalidIdentifier,
    InvalidString,
    InvalidStringLiteral,
    InvalidEscapeSequence,
    InvalidEscapeSequenceDetail(String),
    InvalidUnicodeValue,
    InvalidUnicodeValueDetail(String),
    InvalidStringPrefix,
    InvalidPunctuation(char),
    InvalidKeyword(String),
    InvalidStringLikeLiteral,
    InvalidIntegerLikeLiteral,
    InvalidCharacterLiteral,
}

/// The mathematical form of a failure kind: text payloads are character
/// sequences.
pub ghost enum SpecParseError {
    InvalidIdentifier,
    InvalidString,
    InvalidStringLiteral,
    InvalidEscapeSequence,
    InvalidEscapeSequenceDetail(Seq<char>),
    InvalidUnicodeValue,
    InvalidUnicodeValueDetail(Seq<char>),
    InvalidStringPrefix,
    InvalidPunctuation(char),
    InvalidKeyword(Seq<char>),
    InvalidStringLikeLiteral,
    InvalidIntegerLikeLiteral,
    InvalidCharacterLiteral,
}

impl DeepView for ParseError {
    type V = SpecParseError;

    open spec fn deep_view(&self) -> SpecParseError {
        match self {
            ParseError::InvalidIdentifier => SpecParseError::InvalidIdentifier,
            ParseError::InvalidString => SpecParseError::InvalidString,
            ParseError::InvalidStringLiteral => SpecParseError::InvalidStringLiteral,
            ParseError::InvalidEscapeSequence => SpecParseError::InvalidEscapeSequence,
            ParseError::InvalidEscapeSequenceDetail(t) => SpecParseError::InvalidEscapeSequenceDetail(
                t@,
            ),
            ParseError::InvalidUnicodeValue => SpecParseError::InvalidUnicodeValue,
            ParseError::InvalidUnicodeValueDetail(t) => SpecParseError::InvalidUnicodeValueDetail(
                t@,
            ),
            ParseError::InvalidStringPrefix => SpecParseError::InvalidStringPrefix,
            ParseError::InvalidPunctuation(c) => SpecParseError::InvalidPunctuation(*c),
            ParseError::InvalidKeyword(t) => SpecParseError::InvalidKeyword(t@),
            ParseError::InvalidStringLikeLiteral => SpecParseError::InvalidStringLikeLiteral,
            ParseError::InvalidIntegerLikeLiteral => SpecParseError::InvalidIntegerLikeLiteral,
            ParseError::InvalidCharacterLiteral => SpecParseError::InvalidCharacterLiteral,
        }
    }
}

impl View for ParseError {
    type V = SpecParseError;

    open spec fn view(&self) -> SpecParseError {
        self.deep_view()
    }
}

impl ParseError {
    /// The human-readable rendering of this kind: payload-bearing kinds
    /// show their offending text; the rest show their bare name.
    pub open spec fn spec_describe(&self) -> Seq<char> {
        match self {
            ParseError::InvalidIdentifier => "InvalidIdentifier"@,
            ParseError::InvalidString => "InvalidString"@,
            ParseError::InvalidStringLiteral => "InvalidStringLiteral"@,
            ParseError::InvalidEscapeSequence => "InvalidEscapeSequence"@,
            ParseError::InvalidEscapeSequenceDetail(t) => "InvalidEscapeSequenceDetail - \""@
                + t@ + "\""@,
            ParseError::InvalidUnicodeValue => "InvalidUnicodeValue"@,
            ParseError::InvalidUnicodeValueDetail(t) => "InvalidUnicodeValueDetail - \""@ + t@
                + "\""@,
            ParseError::InvalidStringPrefix => "InvalidStringPrefix"@,
            ParseError::InvalidPunctuation(c) => "InvalidPunctuation - Expected "@ + seq![*c],
            ParseError::InvalidKeyword(t) => "InvalidKeyword - Expected \""@ + t@ + "\""@,
            ParseError::InvalidStringLikeLiteral => "InvalidStringLikeLiteral"@,
            ParseError::InvalidIntegerLikeLiteral => "InvalidIntegerLikeLiteral"@,
            ParseError::InvalidCharacterLiteral => "InvalidCharacterLiteral"@,
        }
    }

    /// Renders this failure kind for a diagnostic.
    pub fn describe(&self) -> (r: String)
        ensures
            r@ == self.spec_describe(),
    {
        match self {
            ParseError::InvalidIdentifier => String::from_str("InvalidIdentifier"),
            ParseError::InvalidString => String::from_str("InvalidString"),
            ParseError::InvalidStringLiteral => String::from_str("InvalidStringLiteral"),
            ParseError::InvalidEscapeSequence => String::from_str("InvalidEscapeSequence"),
            ParseError::InvalidEscapeSequenceDetail(t) => {
                let mut r = String::from_str("InvalidEscapeSequenceDetail - \"");
                r.append(t.as_str());
                r.append("\"");
                r
            },
            ParseError::InvalidUnicodeValue => String::from_str("InvalidUnicodeValue"),
            ParseError::InvalidUnicodeValueDetail(t) => {
                let mut r = String::from_str("InvalidUnicodeValueDetail - \"");
                r.append(t.as_str());
                r.append("\"");
                r
            },
            ParseError::InvalidStringPrefix => String::from_str("InvalidStringPrefix"),
            ParseError::InvalidPunctuation(c) => {
                let mut r = String::from_str("InvalidPunctuation - Expected ");
                let mut one: Vec<char> = Vec::new();
                one.push(*c);
                let tail = crate::text::string_from_chars(&one);
                r.append(tail.as_str());
                proof {
                    assert(one@ =~= seq![*c]);
                }
                r
            },
            ParseError::InvalidKeyword(t) => {
                let mut r = String::from_str("InvalidKeyword - Expected \"");
                r.append(t.as_str());
                r.append("\"");
                r
            },
            ParseError::InvalidStringLikeLiteral => String::from_str("InvalidStringLikeLiteral"),
            ParseError::InvalidIntegerLikeLiteral => String::from_str(
                "InvalidIntegerLikeLiteral",
            ),
            ParseError::InvalidCharacterLiteral => String::from_str("InvalidCharacterLiteral"),
        }
    }
}

impl PartialEq for ParseError {
    fn eq(&self, other: &ParseError) -> bool {
        match (self, other) {
            (ParseError::InvalidIdentifier, ParseError::InvalidIdentifier) => true,
            (ParseError::InvalidString, ParseError::InvalidString) => true,
            (ParseError::InvalidStringLiteral, ParseError::InvalidStringLiteral) => true,
            (ParseError::InvalidEscapeSequence, ParseError::InvalidEscapeSequence) => true,
            (
                ParseError::InvalidEscapeSequenceDetail(a),
                ParseError::InvalidEscapeSequenceDetail(b),
            ) => *a == *b,
            (ParseError::InvalidUnicodeValue, ParseError::InvalidUnicodeValue) => true,
            (
                ParseError::InvalidUnicodeValueDetail(a),
                ParseError::InvalidUnicodeValueDetail(b),
            ) => *a == *b,
            (ParseError::InvalidStringPrefix, ParseError::InvalidStringPrefix) => true,
            (ParseError::InvalidPunctuation(a), ParseError::InvalidPunctuation(b)) => *a == *b,
            (ParseError::InvalidKeyword(a), ParseError::InvalidKeyword(b)) => *a == *b,
            (ParseError::InvalidStringLikeLiteral, ParseError::InvalidStringLikeLiteral) => true,
            (
                ParseError::InvalidIntegerLikeLiteral,
                ParseError::InvalidIntegerLikeLiteral,
            ) => true,
            (ParseError::InvalidCharacterLiteral, ParseError::InvalidCharacterLiteral) => true,
            _ => false,
        }
    }
}

impl vstd::std_specs::cmp::PartialEqSpecImpl for ParseError {
    open spec fn obeys_eq_spec() -> bool {
        true
    }

    open spec fn eq_spec(&self, other: &ParseError) -> bool {
        self.deep_view() == other.deep_view()
    }
}

/// A chain holding a single leaf cause.
pub fn chain_one(e: ParseError) -> (r: Vec<ParseError>)
    ensures
        r.deep_view() == seq![e.deep_view()],
{
    let mut v: Vec<ParseError> = Vec::new();
    let ghost ev = e.deep_view();
    v.push(e);
    proof {
        assert(v.deep_view() =~= seq![ev]);
    }
    v
}

/// Wraps a failed sub-recognizer: the wrapping construct appends its own
/// tag behind the more specific causes already in the chain.
pub fn chain_wrap(ch: Vec<ParseError>, e: ParseError) -> (r: Vec<ParseError>)
    ensures
        r.deep_view() == ch.deep_view().push(e.deep_view()),
{
    let mut v = ch;
    let ghost pre = v.deep_view();
    let ghost ev = e.deep_view();
    v.push(e);
    proof {
        assert(v.deep_view() =~= pre.push(ev));
    }
    v
}

/// The mathematical reading of a recognizer's outcome: the abstract form of
/// the parsed value and the position just past what was consumed, or the
/// chain of failure causes, most specific first.
pub open spec fn lex_view<T: DeepView>(r: Result<(T, usize), Vec<ParseError>>) -> Result<
    (T::V, int),
    Seq<SpecParseError>,
> {
    match r {
        Ok((v, n)) => Ok((v.deep_view(), n as int)),
        Err(ch) => Err(ch.deep_view()),
    }
}

/// As `lex_view`, for recognizers that yield a value without a position.
pub open spec fn res_view<T: DeepView>(r: Result<T, Vec<ParseError>>) -> Result<
    T::V,
    Seq<SpecParseError>,
> {
    match r {
        Ok(v) => Ok(v.deep_view()),
        Err(ch) => Err(ch.deep_view()),
    }
}

} // verus!

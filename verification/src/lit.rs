//! The typed literal values a successful recognizer produces.

use vstd::prelude::*;
use crate::ident::Ident;

verus! {

#[derive(Debug, Clone, Copy, PartialEq, Eq, Structural, PartialOrd, Hash)]
pub enum SignedIntegerValue {
    Short(i32),
    Int(i32),
    Long(i64),
    LongLong(i64),
}

#[derive(Debug, Clone, Copy, PartialEq, Eq, Structural, PartialOrd, Hash)]
pub enum UnsignedIntegerValue {
    Short(u32),
    Int(u32),
    Long(u64),
    LongLong(u64),
}

#[derive(Debug, Clone, Copy, PartialEq, Eq, Structural, PartialOrd, Hash)]
pub enum IntegerLiteral {
    Signed(SignedIntegerValue),
    Unsigned(UnsignedIntegerValue),
}

/// A character literal's decoded value. The escape decoder always yields a
/// Unicode scalar, so recognizers build the `Unicode` form.
#[derive(Debug, Clone, Copy, PartialEq, Eq, Structural, PartialOrd, Hash)]
pub enum CharLiteral {
    Char(i8),
    UnsignedChar(u8),
    Unicode(char),
}

/// A typed literal token.
#[derive(Debug, Clone)]
pub enum Lit {
    /// A quote-delimited string literal: `value` holds the fully decoded
    /// scalars, with no residual escape syntax; the flags record which
    /// prefix tokens were seen.
    Str { value: String, unicode: bool, wide: bool },
    /// One of the string-like macro constants, such as `__FILE__`.
    StringLike(Ident),
    Integer(IntegerLiteral),
    /// One of the integer-like macro constants, such as `__LINE__`.
    IntegerLike(Ident),
    Char(CharLiteral),
}

/// The mathematical form of a literal: text is a character sequence.
pub ghost enum SpecLit {
    Str { value: Seq<char>, unicode: bool, wide: bool },
    StringLike(Seq<char>),
    Integer(IntegerLiteral),
    IntegerLike(Seq<char>),
    Char(CharLiteral),
}

impl DeepView for Lit {
    type V = SpecLit;

    open spec fn deep_view(&self) -> SpecLit {
        match self {
            Lit::Str { value, unicode, wide } => SpecLit::Str {
                value: value@,
                unicode: *unicode,
                wide: *wide,
            },
            Lit::StringLike(id) => SpecLit::StringLike(id@),
            Lit::Integer(i) => SpecLit::Integer(*i),
            Lit::IntegerLike(id) => SpecLit::IntegerLike(id@),
            Lit::Char(c) => SpecLit::Char(*c),
        }
    }
}

impl View for Lit {
    type V = SpecLit;

    open spec fn view(&self) -> SpecLit {
        self.deep_view()
    }
}

impl PartialEq for Lit {
    fn eq(&self, other: &Lit) -> bool {
        match (self, other) {
            (
                Lit::Str { value: a, unicode: ua, wide: wa },
                Lit::Str { value: b, unicode: ub, wide: wb },
            ) => *a == *b && *ua == *ub && *wa == *wb,
            (Lit::StringLike(a), Lit::StringLike(b)) => *a == *b,
            (Lit::Integer(a), Lit::Integer(b)) => *a == *b,
            (Lit::IntegerLike(a), Lit::IntegerLike(b)) => *a == *b,
            (Lit::Char(a), Lit::Char(b)) => *a == *b,
            _ => false,
        }
    }
}

impl vstd::std_specs::cmp::PartialEqSpecImpl for Lit {
    open spec fn obeys_eq_spec() -> bool {
        true
    }

    open spec fn eq_spec(&self, other: &Lit) -> bool {
        self.deep_view() == other.deep_view()
    }
}

} // verus!

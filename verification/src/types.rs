//! Type specifiers and qualifiers.

use vstd::prelude::*;
use crate::text::{spec_tag_bytes, match_tag_bytes, skip_ws_bytes, skip_whitespace_bytes};

verus! {

#[derive(Debug)]
pub enum TypeSpecifier {
    Void,
    Char,
    Short,
    Int,
    Long,
    Float,
    Double,
    Signed,
    Unsigned,
    Bool,
    Complex,
    Atomic(Box<TypeSpecifier>),
    Struct,
    Enum,
    Other(Box<TypeSpecifier>),
}

#[derive(Debug, Clone, Copy, PartialEq, Eq, Structural, Hash)]
pub enum TypeQualifier {
    Const,
    Restrict,
    Volatile,
    Atomic,
}

/// What `type_qualifier` recognizes from `pos`: one of the qualifier
/// keywords, with the whitespace around it consumed.
pub open spec fn spec_type_qualifier(s: Seq<u8>, pos: int) -> Option<(TypeQualifier, int)> {
    let p = skip_ws_bytes(s, pos);
    if spec_tag_bytes(s, p, "const"@) {
        Some((TypeQualifier::Const, skip_ws_bytes(s, p + "const"@.len())))
    } else if spec_tag_bytes(s, p, "restrict"@) {
        Some((TypeQualifier::Restrict, skip_ws_bytes(s, p + "restrict"@.len())))
    } else if spec_tag_bytes(s, p, "volatile"@) {
        Some((TypeQualifier::Volatile, skip_ws_bytes(s, p + "volatile"@.len())))
    } else if spec_tag_bytes(s, p, "_Atomic"@) {
        Some((TypeQualifier::Atomic, skip_ws_bytes(s, p + "_Atomic"@.len())))
    } else {
        None
    }
}

/// Recognizes a type qualifier keyword at `pos`.
pub fn type_qualifier_at(s: &Vec<u8>, pos: usize) -> (r: Option<(TypeQualifier, usize)>)
    requires
        pos <= s@.len(),
    ensures
        match r {
            Some((v, n)) => spec_type_qualifier(s@, pos as int) == Some((v, n as int)) && n
                <= s@.len(),
            None => spec_type_qualifier(s@, pos as int) is None,
        },
{
    let p = skip_whitespace_bytes(s, pos);
    if let Some(n) = match_tag_bytes(s, p, "const") {
        return Some((TypeQualifier::Const, skip_whitespace_bytes(s, n)));
    }
    if let Some(n) = match_tag_bytes(s, p, "restrict") {
        return Some((TypeQualifier::Restrict, skip_whitespace_bytes(s, n)));
    }
    if let Some(n) = match_tag_bytes(s, p, "volatile") {
        return Some((TypeQualifier::Volatile, skip_whitespace_bytes(s, n)));
    }
    if let Some(n) = match_tag_bytes(s, p, "_Atomic") {
        return Some((TypeQualifier::Atomic, skip_whitespace_bytes(s, n)));
    }
    None
}

/// Recognizes a type qualifier keyword at the start of the buffer.
pub fn type_qualifier(input: &[u8]) -> (r: Option<(TypeQualifier, usize)>)
    ensures
        match r {
            Some((v, n)) => spec_type_qualifier(input@, 0) == Some((v, n as int)),
            None => spec_type_qualifier(input@, 0) is None,
        },
{
    let v = vstd::slice::slice_to_vec(input);
    type_qualifier_at(&v, 0)
}

} // verus!

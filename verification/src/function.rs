//! Function specifiers: exact-text keyword matches with the whitespace
//! around them consumed.

use vstd::prelude::*;
use crate::text::{spec_tag_bytes, match_tag_bytes, skip_ws_bytes, skip_whitespace_bytes};

verus! {

#[derive(Debug, Clone, Copy, PartialEq, Eq, Structural, Hash)]
pub enum FunctionSpecifier {
    Inline,
    NoReturn,
}

/// What `function_specifier` recognizes from `pos`: `inline` or
/// `_Noreturn`, with the whitespace around it consumed.
pub open spec fn spec_function_specifier(s: Seq<u8>, pos: int) -> Option<
    (FunctionSpecifier, int),
> {
    let p = skip_ws_bytes(s, pos);
    if spec_tag_bytes(s, p, "inline"@) {
        Some((FunctionSpecifier::Inline, skip_ws_bytes(s, p + "inline"@.len())))
    } else if spec_tag_bytes(s, p, "_Noreturn"@) {
        Some((FunctionSpecifier::NoReturn, skip_ws_bytes(s, p + "_Noreturn"@.len())))
    } else {
        None
    }
}

/// Recognizes a function specifier keyword at `pos`.
pub fn function_specifier_at(s: &Vec<u8>, pos: usize) -> (r: Option<(FunctionSpecifier, usize)>)
    requires
        pos <= s@.len(),
    ensures
        match r {
            Some((v, n)) => spec_function_specifier(s@, pos as int) == Some((v, n as int)) && n
                <= s@.len(),
            None => spec_function_specifier(s@, pos as int) is None,
        },
{
    let p = skip_whitespace_bytes(s, pos);
    if let Some(n) = match_tag_bytes(s, p, "inline") {
        return Some((FunctionSpecifier::Inline, skip_whitespace_bytes(s, n)));
    }
    if let Some(n) = match_tag_bytes(s, p, "_Noreturn") {
        return Some((FunctionSpecifier::NoReturn, skip_whitespace_bytes(s, n)));
    }
    None
}

/// Recognizes a function specifier keyword at the start of the buffer.
pub fn function_specifier(input: &[u8]) -> (r: Option<(FunctionSpecifier, usize)>)
    ensures
        match r {
            Some((v, n)) => spec_function_specifier(input@, 0) == Some((v, n as int)),
            None => spec_function_specifier(input@, 0) is None,
        },
{
    let v = vstd::slice::slice_to_vec(input);
    function_specifier_at(&v, 0)
}

} // verus!

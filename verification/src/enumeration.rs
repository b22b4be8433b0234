//! Enumeration shapes: interface boundaries that consume `Ident` values
//! produced by the identifier matcher. Their grammar is not implemented.

use vstd::prelude::*;
use crate::ident::Ident;

verus! {

#[derive(Debug, Clone, PartialEq, Hash)]
pub struct Enumerator;

#[derive(Debug, Clone, PartialEq, Hash)]
pub struct Enum {
    ident: Ident,
    enumerators: Vec<Enumerator>,
}

} // verus!

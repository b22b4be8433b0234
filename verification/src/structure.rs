//! Struct and union shapes: interface boundaries that consume `Ident`
//! values produced by the identifier matcher. Their grammar is not
//! implemented.

use vstd::prelude::*;
use crate::ident::Ident;

verus! {

#[derive(Debug, Clone, PartialEq)]
pub struct Field {
    ident: Ident,
}

#[derive(Debug, Clone, PartialEq)]
pub struct VariantData {
    ident: Ident,
    fields: Vec<Field>,
}

#[derive(Debug, Clone, PartialEq)]
pub enum Variant {
    Struct(VariantData),
    Union(VariantData),
}

} // verus!

//! Storage-class specifiers: exact-text keyword matches.

use vstd::prelude::*;
use crate::text::{spec_tag_bytes, match_tag_bytes};

verus! {

#[derive(Debug, Clone, Copy, PartialEq, Eq, Structural, Hash)]
pub enum StorageClassSpecifier {
    Typedef,
    Extern,
    Static,
    ThreadLocal,
    Auto,
    Register,
}

/// What `storage_class_specifier` recognizes at `pos`: the first matching
/// keyword text, tried in a fixed order, with no whitespace handling.
pub open spec fn spec_storage_class_specifier(s: Seq<u8>, pos: int) -> Option<
    (StorageClassSpecifier, int),
> {
    if spec_tag_bytes(s, pos, "typedef"@) {
        Some((StorageClassSpecifier::Typedef, pos + "typedef"@.len()))
    } else if spec_tag_bytes(s, pos, "extern"@) {
        Some((StorageClassSpecifier::Extern, pos + "extern"@.len()))
    } else if spec_tag_bytes(s, pos, "static"@) {
        Some((StorageClassSpecifier::Static, pos + "static"@.len()))
    } else if spec_tag_bytes(s, pos, "thread_local"@) {
        Some((StorageClassSpecifier::ThreadLocal, pos + "thread_local"@.len()))
    } else if spec_tag_bytes(s, pos, "auto"@) {
        Some((StorageClassSpecifier::Auto, pos + "auto"@.len()))
    } else if spec_tag_bytes(s, pos, "register"@) {
        Some((StorageClassSpecifier::Register, pos + "register"@.len()))
    } else {
        None
    }
}

/// Recognizes a storage-class specifier keyword at `pos`.
pub fn storage_class_specifier_at(s: &Vec<u8>, pos: usize) -> (r: Option<
    (StorageClassSpecifier, usize),
>)
    requires
        pos <= s@.len(),
    ensures
        match r {
            Some((v, n)) => spec_storage_class_specifier(s@, pos as int) == Some((v, n as int))
                && n <= s@.len(),
            None => spec_storage_class_specifier(s@, pos as int) is None,
        },
{
    if let Some(n) = match_tag_bytes(s, pos, "typedef") {
        return Some((StorageClassSpecifier::Typedef, n));
    }
    if let Some(n) = match_tag_bytes(s, pos, "extern") {
        return Some((StorageClassSpecifier::Extern, n));
    }
    if let Some(n) = match_tag_bytes(s, pos, "static") {
        return Some((StorageClassSpecifier::Static, n));
    }
    if let Some(n) = match_tag_bytes(s, pos, "thread_local") {
        return Some((StorageClassSpecifier::ThreadLocal, n));
    }
    if let Some(n) = match_tag_bytes(s, pos, "auto") {
        return Some((StorageClassSpecifier::Auto, n));
    }
    if let Some(n) = match_tag_bytes(s, pos, "register") {
        return Some((StorageClassSpecifier::Register, n));
    }
    None
}

/// Recognizes a storage-class specifier keyword at the start of the
/// buffer.
pub fn storage_class_specifier(input: &[u8]) -> (r: Option<(StorageClassSpecifier, usize)>)
    ensures
        match r {
            Some((v, n)) => spec_storage_class_specifier(input@, 0) == Some((v, n as int)),
            None => spec_storage_class_specifier(input@, 0) is None,
        },
{
    let v = vstd::slice::slice_to_vec(input);
    storage_class_specifier_at(&v, 0)
}

} // verus!

//! A lexical front end for a C-like language.
//!
//! The library turns a raw byte buffer into typed tokens — identifiers and
//! literals (string, character, and the string-like / integer-like macro
//! constants) — and reports malformed input through an ordered chain of
//! typed failure causes instead of panicking. Every recognizer's behaviour
//! is stated against a mathematical model of the grammar and proved.

pub mod error;
pub mod text;
pub mod ident;
pub mod lit;
pub mod escape;
pub mod strlit;
pub mod misc;
pub mod function;
pub mod operator;
pub mod types;
pub mod structure;
pub mod enumeration;

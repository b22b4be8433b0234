//! Identifier recognition: the maximal run matching `[A-Za-z_][A-Za-z0-9_]*`,
//! and comma-separated identifier lists.
//!
//! Positions index the byte buffer. Every recognizer consumes the whitespace
//! around what it matches and, on failure, consumes nothing.

use vstd::prelude::*;
use vstd::slice::slice_to_vec;
use crate::error::{ParseError, SpecParseError, lex_view, chain_one};
use crate::text::{
    is_ident_start_byte,
    is_ident_byte,
    skip_ws_bytes,
    lemma_skip_ws_bytes_bounds,
    ident_start_byte,
    ident_byte,
    skip_whitespace_bytes,
    string_from_chars,
};

verus! {

/// Owned identifier text; equality is by exact content.
#[derive(Debug, Clone, Hash)]
pub struct Ident(String);

impl Ident {
    /// Construction validates nothing beyond what the matcher already
    /// guarantees.
    pub fn new(text: String) -> (r: Ident)
        ensures
            r@ == text@,
    {
        Ident(text)
    }

    pub fn as_str(&self) -> (r: &str)
        ensures
            r@ == self@,
    {
        self.0.as_str()
    }
}

impl View for Ident {
    type V = Seq<char>;

    closed spec fn view(&self) -> Seq<char> {
        self.0@
    }
}

impl DeepView for Ident {
    type V = Seq<char>;

    open spec fn deep_view(&self) -> Seq<char> {
        self@
    }
}

impl PartialEq for Ident {
    fn eq(&self, other: &Ident) -> bool {
        self.0 == other.0
    }
}

impl vstd::std_specs::cmp::PartialEqSpecImpl for Ident {
    open spec fn obeys_eq_spec() -> bool {
        true
    }

    open spec fn eq_spec(&self, other: &Ident) -> bool {
        self@ == other@
    }
}

impl From<String> for Ident {
    fn from(text: String) -> (r: Ident) {
        Ident(text)
    }
}

impl vstd::std_specs::convert::FromSpecImpl<String> for Ident {
    open spec fn obeys_from_spec() -> bool {
        true
    }

    closed spec fn from_spec(text: String) -> Ident {
        Ident(text)
    }
}

/// The end of the maximal run of identifier characters starting at `pos`.
pub open spec fn ident_run_end(s: Seq<u8>, pos: int) -> int
    decreases s.len() - pos,
{
    if 0 <= pos && pos < s.len() && is_ident_byte(s[pos]) {
        ident_run_end(s, pos + 1)
    } else {
        pos
    }
}

pub proof fn lemma_ident_run_end_bounds(s: Seq<u8>, pos: int)
    requires
        0 <= pos <= s.len(),
    ensures
        pos <= ident_run_end(s, pos) <= s.len(),
    decreases s.len() - pos,
{
    if pos < s.len() && is_ident_byte(s[pos]) {
        lemma_ident_run_end_bounds(s, pos + 1);
    }
}

/// What `identifier` recognizes from `pos`: after leading whitespace, the
/// maximal run `[A-Za-z_][A-Za-z0-9_]*`, then trailing whitespace; an empty
/// run fails with `InvalidIdentifier` and consumes nothing.
pub open spec fn spec_identifier(s: Seq<u8>, pos: int) -> Result<
    (Seq<char>, int),
    Seq<SpecParseError>,
> {
    let start = skip_ws_bytes(s, pos);
    if start < s.len() && is_ident_start_byte(s[start]) {
        let run_end = ident_run_end(s, start + 1);
        Ok(
            (
                s.subrange(start, run_end).map_values(|b: u8| b as char),
                skip_ws_bytes(s, run_end),
            ),
        )
    } else {
        Err(seq![SpecParseError::InvalidIdentifier])
    }
}

/// A successful identifier always consumes at least one byte and never runs
/// past the end of the buffer.
pub proof fn lemma_spec_identifier_advances(s: Seq<u8>, pos: int)
    requires
        0 <= pos <= s.len(),
    ensures
        spec_identifier(s, pos) matches Ok((text, n)) ==> pos < n <= s.len(),
{
    lemma_skip_ws_bytes_bounds(s, pos);
    let start = skip_ws_bytes(s, pos);
    if start < s.len() && is_ident_start_byte(s[start]) {
        lemma_ident_run_end_bounds(s, start + 1);
        lemma_skip_ws_bytes_bounds(s, ident_run_end(s, start + 1));
    }
}

/// The identifiers after the first: while a comma follows, another
/// identifier must follow it, and its failure fails the whole list.
pub open spec fn spec_identifier_list_more(s: Seq<u8>, pos: int) -> Result<
    (Seq<Seq<char>>, int),
    Seq<SpecParseError>,
>
    decreases s.len() - pos,
    when 0 <= pos <= s.len()
    via spec_identifier_list_more_decreases
{
    if pos < s.len() && s[pos] == (',' as u8) {
        match spec_identifier(s, pos + 1) {
            Err(ch) => Err(ch),
            Ok((text, p)) => match spec_identifier_list_more(s, p) {
                Err(ch) => Err(ch),
                Ok((rest, n)) => Ok((seq![text] + rest, n)),
            },
        }
    } else {
        Ok((seq![], pos))
    }
}

#[via_fn]
proof fn spec_identifier_list_more_decreases(s: Seq<u8>, pos: int) {
    if pos < s.len() && s[pos] == (',' as u8) {
        lemma_spec_identifier_advances(s, pos + 1);
    }
}

/// What `identifier_list` recognizes from `pos`: a non-empty,
/// comma-separated, whitespace-tolerant sequence of identifiers. A missing
/// identifier — first or after any comma — fails the list with that
/// identifier's error.
pub open spec fn spec_identifier_list(s: Seq<u8>, pos: int) -> Result<
    (Seq<Seq<char>>, int),
    Seq<SpecParseError>,
> {
    match spec_identifier(s, pos) {
        Err(ch) => Err(ch),
        Ok((first, p)) => match spec_identifier_list_more(s, p) {
            Err(ch) => Err(ch),
            Ok((rest, n)) => Ok((seq![first] + rest, n)),
        },
    }
}

/// Recognizes one identifier starting at `pos`.
pub fn identifier_at(s: &Vec<u8>, pos: usize) -> (r: Result<(Ident, usize), Vec<ParseError>>)
    requires
        pos <= s@.len(),
    ensures
        lex_view(r) == spec_identifier(s@, pos as int),
{
    let start = skip_whitespace_bytes(s, pos);
    if start < s.len() && ident_start_byte(s[start]) {
        let mut chars: Vec<char> = Vec::new();
        chars.push(s[start] as char);
        let mut i: usize = start + 1;
        while i < s.len() && ident_byte(s[i])
            invariant
                start < i <= s@.len(),
                chars@ == s@.subrange(start as int, i as int).map_values(|b: u8| b as char),
                ident_run_end(s@, start as int + 1) == ident_run_end(s@, i as int),
            decreases s@.len() - i,
        {
            chars.push(s[i] as char);
            proof {
                assert(s@.subrange(start as int, i + 1).drop_last() =~= s@.subrange(
                    start as int,
                    i as int,
                ));
                assert(chars@ =~= s@.subrange(start as int, i + 1).map_values(
                    |b: u8| b as char,
                ));
            }
            i = i + 1;
        }
        let next = skip_whitespace_bytes(s, i);
        let id = Ident::new(string_from_chars(&chars));
        Ok((id, next))
    } else {
        Err(chain_one(ParseError::InvalidIdentifier))
    }
}

/// Recognizes a non-empty, comma-separated identifier list starting at
/// `pos`.
pub fn identifier_list_at(s: &Vec<u8>, pos: usize) -> (r: Result<
    (Vec<Ident>, usize),
    Vec<ParseError>,
>)
    requires
        pos <= s@.len(),
    ensures
        lex_view(r) == spec_identifier_list(s@, pos as int),
{
    match identifier_at(s, pos) {
        Err(ch) => Err(ch),
        Ok((first, p)) => {
            let ghost firstv = first.deep_view();
            let mut ids: Vec<Ident> = Vec::new();
            ids.push(first);
            let mut cur: usize = p;
            proof {
                lemma_spec_identifier_advances(s@, pos as int);
                assert(ids.deep_view() =~= seq![firstv]);
            }
            loop
                invariant
                    cur <= s@.len(),
                    ids@.len() >= 1,
                    spec_identifier_list(s@, pos as int) == match spec_identifier_list_more(
                        s@,
                        cur as int,
                    ) {
                        Err(ch) => Err::<(Seq<Seq<char>>, int), Seq<SpecParseError>>(ch),
                        Ok((rest, n)) => Ok((ids.deep_view() + rest, n)),
                    },
                decreases s@.len() - cur,
            {
                if !(cur < s.len() && s[cur] == (',' as u8)) {
                    proof {
                        assert(ids.deep_view() + Seq::<Seq<char>>::empty() =~= ids.deep_view());
                    }
                    return Ok((ids, cur));
                }
                match identifier_at(s, cur + 1) {
                    Err(ch) => {
                        return Err(ch);
                    },
                    Ok((id, p2)) => {
                        proof {
                            lemma_spec_identifier_advances(s@, cur + 1);
                        }
                        let ghost pre = ids.deep_view();
                        let ghost idv = id.deep_view();
                        ids.push(id);
                        proof {
                            assert(ids.deep_view() =~= pre.push(idv));
                            assert forall|rest: Seq<Seq<char>>|
                                pre.push(idv) + rest =~= pre + (seq![idv] + rest) by {}
                        }
                        cur = p2;
                    },
                }
            }
        },
    }
}

/// Recognizes an identifier at the start of the buffer: the maximal run
/// matching `[A-Za-z_][A-Za-z0-9_]*`, with the whitespace around it
/// consumed. Fails with `InvalidIdentifier` when no start character is
/// found.
pub fn identifier(input: &[u8]) -> (r: Result<(Ident, usize), Vec<ParseError>>)
    ensures
        lex_view(r) == spec_identifier(input@, 0),
{
    let v = slice_to_vec(input);
    identifier_at(&v, 0)
}

/// Recognizes a non-empty, comma-separated, whitespace-tolerant sequence of
/// identifiers. Fails with the missing identifier's error if one is absent.
pub fn identifier_list(input: &[u8]) -> (r: Result<(Vec<Ident>, usize), Vec<ParseError>>)
    ensures
        lex_view(r) == spec_identifier_list(input@, 0),
{
    let v = slice_to_vec(input);
    identifier_list_at(&v, 0)
}

/// A typedef name is currently a plain identifier: a placeholder for future
/// symbol-table disambiguation.
pub fn typedef_name(input: &[u8]) -> (r: Result<(Ident, usize), Vec<ParseError>>)
    ensures
        lex_view(r) == spec_identifier(input@, 0),
{
    identifier(input)
}

} // verus!

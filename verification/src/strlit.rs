//! Quote-delimited string and character literals, their prefixes, and the
//! fixed macro-constant vocabularies.
//!
//! A string literal is `[prefix]* '"' (plain-char | escape)* '"'`, where a
//! plain character is anything but a backslash, a newline, or the closing
//! quote. The grammar deliberately accepts any number of prefix tokens
//! (`u8`, `u`, `l`, `L`), each optionally surrounded by whitespace; the
//! `unicode` and `wide` flags are OR-ed over every token matched, although
//! real C permits at most one prefix. A character literal is the same between single quotes and
//! must hold exactly one decoded scalar. Alternatives are transactional: a
//! failed branch consumes nothing, and the next branch starts from the
//! same position.

use vstd::prelude::*;
use vstd::string::StrSliceExecFns;
use vstd::string::StringExecFns;
use crate::error::{ParseError, SpecParseError, lex_view, chain_one, chain_wrap};
use crate::text::{
    is_ident_char,
    ident_char,
    skip_ws,
    lemma_skip_ws_bounds,
    skip_whitespace,
    decode_bytes,
    lossy_decode,
    string_from_chars,
};
use crate::ident::Ident;
use crate::lit::{Lit, SpecLit, CharLiteral};
use crate::escape::{spec_escaped_to_char, escaped_to_char, lemma_spec_escape_advances};

verus! {

/// Whole-word keyword recognition at `pos`: the keyword's characters must
/// be present and must not be followed by a further identifier character.
pub open spec fn spec_keyword(s: Seq<char>, pos: int, kw: Seq<char>) -> Option<int> {
    let end = pos + kw.len();
    if end <= s.len() && s.subrange(pos, end) == kw && (end == s.len() || !is_ident_char(
        s[end],
    )) {
        Some(end)
    } else {
        None
    }
}

/// Matches one whole-word keyword at `pos` (no whitespace handling).
pub fn match_keyword(s: &Vec<char>, pos: usize, kw: &str) -> (r: Option<usize>)
    requires
        pos <= s@.len(),
    ensures
        match r {
            Some(n) => spec_keyword(s@, pos as int, kw@) == Some(n as int) && n <= s@.len(),
            None => spec_keyword(s@, pos as int, kw@) is None,
        },
{
    let klen = kw.unicode_len();
    if klen > s.len() - pos {
        return None;
    }
    let mut j: usize = 0;
    while j < klen
        invariant
            j <= klen,
            klen == kw@.len(),
            pos + klen <= s@.len(),
            s@.len() <= usize::MAX,
            forall|t: int| 0 <= t < j ==> s@[pos + t] == kw@[t],
        decreases klen - j,
    {
        if s[pos + j] != kw.get_char(j) {
            proof {
                assert(s@.subrange(pos as int, pos + klen)[j as int] == s@[pos + j]);
            }
            return None;
        }
        j = j + 1;
    }
    proof {
        assert(s@.subrange(pos as int, pos + klen) =~= kw@);
    }
    if pos + klen < s.len() && ident_char(s[pos + klen]) {
        return None;
    }
    Some(pos + klen)
}

// --- String literal prefixes ---

/// The prefix tokens before a quoted literal, each with the whitespace
/// around it: `u8` and `u` set the unicode flag, `l` and `L` the wide
/// flag; the result's last component is the position after the final
/// token's trailing whitespace, or `pos` itself when no token matched.
pub open spec fn spec_prefixes(s: Seq<char>, pos: int) -> (bool, bool, int)
    decreases s.len() - pos,
    when 0 <= pos <= s.len()
    via spec_prefixes_decreases
{
    let p = skip_ws(s, pos);
    if p + 2 <= s.len() && s[p] == 'u' && s[p + 1] == '8' {
        let rest = spec_prefixes(s, skip_ws(s, p + 2));
        (true, rest.1, rest.2)
    } else if p < s.len() && s[p] == 'u' {
        let rest = spec_prefixes(s, skip_ws(s, p + 1));
        (true, rest.1, rest.2)
    } else if p < s.len() && (s[p] == 'l' || s[p] == 'L') {
        let rest = spec_prefixes(s, skip_ws(s, p + 1));
        (rest.0, true, rest.2)
    } else {
        (false, false, pos)
    }
}

#[via_fn]
proof fn spec_prefixes_decreases(s: Seq<char>, pos: int) {
    lemma_skip_ws_bounds(s, pos);
    let p = skip_ws(s, pos);
    if p + 2 <= s.len() && s[p] == 'u' && s[p + 1] == '8' {
        lemma_skip_ws_bounds(s, p + 2);
    } else if p < s.len() && s[p] == 'u' {
        lemma_skip_ws_bounds(s, p + 1);
    } else if p < s.len() && (s[p] == 'l' || s[p] == 'L') {
        lemma_skip_ws_bounds(s, p + 1);
    }
}

/// Accumulates the prefix tokens before a quoted literal.
fn prefixes(s: &Vec<char>, pos: usize) -> (r: (bool, bool, usize))
    requires
        pos <= s@.len(),
    ensures
        r.0 == spec_prefixes(s@, pos as int).0,
        r.1 == spec_prefixes(s@, pos as int).1,
        r.2 == spec_prefixes(s@, pos as int).2,
        pos <= r.2 <= s@.len(),
{
    let mut uni = false;
    let mut wide = false;
    let mut cur: usize = pos;
    loop
        invariant
            pos <= cur <= s@.len(),
            spec_prefixes(s@, pos as int).0 == (uni || spec_prefixes(s@, cur as int).0),
            spec_prefixes(s@, pos as int).1 == (wide || spec_prefixes(s@, cur as int).1),
            spec_prefixes(s@, pos as int).2 == spec_prefixes(s@, cur as int).2,
        decreases s@.len() - cur,
    {
        let p = skip_whitespace(s, cur);
        if p < s.len() && s[p] == 'u' && p + 1 < s.len() && s[p + 1] == '8' {
            uni = true;
            cur = skip_whitespace(s, p + 2);
        } else if p < s.len() && s[p] == 'u' {
            uni = true;
            cur = skip_whitespace(s, p + 1);
        } else if p < s.len() && (s[p] == 'l' || s[p] == 'L') {
            wide = true;
            cur = skip_whitespace(s, p + 1);
        } else {
            return (uni, wide, cur);
        }
    }
}

// --- String literal body ---

/// The decoded contents of a string-literal body starting just inside the
/// opening quote: plain characters are kept, escapes are decoded, and the
/// result ends just past the closing quote. A newline or the end of the
/// buffer before the closing quote fails as a missing quote; escape
/// failures keep their own causes.
pub open spec fn spec_string_body(s: Seq<char>, pos: int) -> Result<
    (Seq<char>, int),
    Seq<SpecParseError>,
>
    decreases s.len() - pos,
    when 0 <= pos <= s.len()
    via spec_string_body_decreases
{
    if pos == s.len() {
        Err(seq![SpecParseError::InvalidPunctuation('"')])
    } else if s[pos] == '"' {
        Ok((seq![], pos + 1))
    } else if s[pos] == '\n' {
        Err(seq![SpecParseError::InvalidPunctuation('"')])
    } else if s[pos] == '\\' {
        if pos + 1 == s.len() {
            Err(seq![SpecParseError::InvalidEscapeSequence])
        } else {
            match spec_escaped_to_char(s[pos + 1], s, pos + 2) {
                Err(ch) => Err(ch),
                Ok((decoded, n)) => match spec_string_body(s, n) {
                    Err(ch) => Err(ch),
                    Ok((rest, e)) => Ok((seq![decoded] + rest, e)),
                },
            }
        }
    } else {
        match spec_string_body(s, pos + 1) {
            Err(ch) => Err(ch),
            Ok((rest, e)) => Ok((seq![s[pos]] + rest, e)),
        }
    }
}

#[via_fn]
proof fn spec_string_body_decreases(s: Seq<char>, pos: int) {
    if pos < s.len() && s[pos] == '\\' && pos + 1 < s.len() {
        lemma_spec_escape_advances(s[pos + 1], s, pos + 2);
    }
}

/// Scans and decodes a string-literal body; on success the position is
/// just past the closing quote.
fn string_body(s: &Vec<char>, pos: usize) -> (r: Result<(Vec<char>, usize), Vec<ParseError>>)
    requires
        pos <= s@.len(),
    ensures
        lex_view(r) == spec_string_body(s@, pos as int),
        r matches Ok((v, n)) ==> n <= s@.len(),
{
    let mut out: Vec<char> = Vec::new();
    let mut i: usize = pos;
    loop
        invariant
            i <= s@.len(),
            spec_string_body(s@, pos as int) == match spec_string_body(s@, i as int) {
                Err(ch) => Err::<(Seq<char>, int), Seq<SpecParseError>>(ch),
                Ok((rest, e)) => Ok((out@ + rest, e)),
            },
        decreases s@.len() - i,
    {
        if i == s.len() {
            return Err(chain_one(ParseError::InvalidPunctuation('"')));
        }
        let c = s[i];
        if c == '"' {
            proof {
                assert(out@ + Seq::<char>::empty() =~= out@);
                assert(out.deep_view() =~= out@);
            }
            return Ok((out, i + 1));
        }
        if c == '\n' {
            return Err(chain_one(ParseError::InvalidPunctuation('"')));
        }
        if c == '\\' {
            if i + 1 == s.len() {
                return Err(chain_one(ParseError::InvalidEscapeSequence));
            }
            match escaped_to_char(s[i + 1], s, i + 2) {
                Err(ch) => {
                    return Err(ch);
                },
                Ok((decoded, n)) => {
                    proof {
                        lemma_spec_escape_advances(s@[i + 1], s@, i + 2);
                    }
                    let ghost pre = out@;
                    out.push(decoded);
                    proof {
                        assert forall|rest: Seq<char>| pre.push(decoded) + rest =~= pre + (
                        seq![decoded] + rest) by {}
                    }
                    i = n;
                },
            }
        } else {
            let ghost pre = out@;
            out.push(c);
            proof {
                assert forall|rest: Seq<char>| pre.push(c) + rest =~= pre + (seq![c] + rest) by {}
            }
            i = i + 1;
        }
    }
}

// --- String literals ---

/// A raw string literal at `pos`: prefix tokens, the opening quote, the
/// body, the closing quote — no whitespace handling outside the prefix
/// tokens. A missing opening quote means a prefix was mistaken, so the
/// failure carries `InvalidStringPrefix`; every failure is wrapped as
/// `InvalidStringLiteral`.
pub open spec fn spec_raw_string_literal(s: Seq<char>, pos: int) -> Result<
    (SpecLit, int),
    Seq<SpecParseError>,
> {
    let pr = spec_prefixes(s, pos);
    let p = pr.2;
    if !(p < s.len() && s[p] == '"') {
        Err(
            seq![
                SpecParseError::InvalidPunctuation('"'),
                SpecParseError::InvalidStringPrefix,
                SpecParseError::InvalidStringLiteral,
            ],
        )
    } else {
        match spec_string_body(s, p + 1) {
            Err(ch) => Err(ch.push(SpecParseError::InvalidStringLiteral)),
            Ok((value, e)) => Ok(
                (SpecLit::Str { value, unicode: pr.0, wide: pr.1 }, e),
            ),
        }
    }
}

/// What `string_literal` recognizes from `pos`: a raw string literal with
/// the whitespace around it consumed.
pub open spec fn spec_string_literal(s: Seq<char>, pos: int) -> Result<
    (SpecLit, int),
    Seq<SpecParseError>,
> {
    match spec_raw_string_literal(s, skip_ws(s, pos)) {
        Err(ch) => Err(ch),
        Ok((v, n)) => Ok((v, skip_ws(s, n))),
    }
}

/// Recognizes a raw string literal at `pos`.
fn raw_string_lit(s: &Vec<char>, pos: usize) -> (r: Result<(Lit, usize), Vec<ParseError>>)
    requires
        pos <= s@.len(),
    ensures
        lex_view(r) == spec_raw_string_literal(s@, pos as int),
        r matches Ok((v, n)) ==> n <= s@.len(),
{
    let (uni, wide, p) = prefixes(s, pos);
    if !(p < s.len() && s[p] == '"') {
        let ch = chain_wrap(
            chain_wrap(
                chain_one(ParseError::InvalidPunctuation('"')),
                ParseError::InvalidStringPrefix,
            ),
            ParseError::InvalidStringLiteral,
        );
        proof {
            assert(seq![SpecParseError::InvalidPunctuation('"')].push(
                SpecParseError::InvalidStringPrefix,
            ).push(SpecParseError::InvalidStringLiteral) =~= seq![
                SpecParseError::InvalidPunctuation('"'),
                SpecParseError::InvalidStringPrefix,
                SpecParseError::InvalidStringLiteral,
            ]);
        }
        Err(ch)
    } else {
        match string_body(s, p + 1) {
            Err(ch) => Err(chain_wrap(ch, ParseError::InvalidStringLiteral)),
            Ok((chars, e)) => {
                proof {
                    assert(chars.deep_view() =~= chars@);
                }
                let value = string_from_chars(&chars);
                Ok((Lit::Str { value, unicode: uni, wide }, e))
            },
        }
    }
}

/// Recognizes a string literal starting at `pos`, consuming the
/// whitespace around it.
pub fn string_literal_at(s: &Vec<char>, pos: usize) -> (r: Result<(Lit, usize), Vec<ParseError>>)
    requires
        pos <= s@.len(),
    ensures
        lex_view(r) == spec_string_literal(s@, pos as int),
        r matches Ok((v, n)) ==> n <= s@.len(),
{
    let p = skip_whitespace(s, pos);
    match raw_string_lit(s, p) {
        Err(ch) => Err(ch),
        Ok((v, n)) => Ok((v, skip_whitespace(s, n))),
    }
}

// --- Character literals ---

/// One character of a character-literal body: a plain character (not a
/// backslash, newline, or single quote) or one escape.
pub open spec fn spec_char_body(s: Seq<char>, pos: int) -> Result<
    (char, int),
    Seq<SpecParseError>,
> {
    if pos >= s.len() || s[pos] == '\n' || s[pos] == '\'' {
        Err(seq![SpecParseError::InvalidEscapeSequence])
    } else if s[pos] == '\\' {
        if pos + 1 == s.len() {
            Err(seq![SpecParseError::InvalidEscapeSequence])
        } else {
            spec_escaped_to_char(s[pos + 1], s, pos + 2)
        }
    } else {
        Ok((s[pos], pos + 1))
    }
}

/// A raw character literal at `pos`: an opening single quote, exactly one
/// decoded scalar, and the closing single quote; every failure is wrapped
/// as `InvalidCharacterLiteral`.
pub open spec fn spec_raw_char_literal(s: Seq<char>, pos: int) -> Result<
    (SpecLit, int),
    Seq<SpecParseError>,
> {
    if !(0 <= pos && pos < s.len() && s[pos] == '\'') {
        Err(
            seq![
                SpecParseError::InvalidPunctuation('\''),
                SpecParseError::InvalidCharacterLiteral,
            ],
        )
    } else {
        match spec_char_body(s, pos + 1) {
            Err(ch) => Err(ch.push(SpecParseError::InvalidCharacterLiteral)),
            Ok((decoded, n)) => if n < s.len() && s[n] == '\'' {
                Ok((SpecLit::Char(CharLiteral::Unicode(decoded)), n + 1))
            } else {
                Err(
                    seq![
                        SpecParseError::InvalidPunctuation('\''),
                        SpecParseError::InvalidCharacterLiteral,
                    ],
                )
            },
        }
    }
}

/// What `char_literal` recognizes from `pos`: a raw character literal
/// with the whitespace around it consumed.
pub open spec fn spec_char_literal(s: Seq<char>, pos: int) -> Result<
    (SpecLit, int),
    Seq<SpecParseError>,
> {
    match spec_raw_char_literal(s, skip_ws(s, pos)) {
        Err(ch) => Err(ch),
        Ok((v, n)) => Ok((v, skip_ws(s, n))),
    }
}

/// Recognizes a character literal starting at `pos`, consuming the
/// whitespace around it.
pub fn char_literal_at(s: &Vec<char>, pos: usize) -> (r: Result<(Lit, usize), Vec<ParseError>>)
    requires
        pos <= s@.len(),
    ensures
        lex_view(r) == spec_char_literal(s@, pos as int),
        r matches Ok((v, n)) ==> n <= s@.len(),
{
    let p = skip_whitespace(s, pos);
    if !(p < s.len() && s[p] == '\'') {
        let ch = chain_wrap(
            chain_one(ParseError::InvalidPunctuation('\'')),
            ParseError::InvalidCharacterLiteral,
        );
        proof {
            assert(seq![SpecParseError::InvalidPunctuation('\'')].push(
                SpecParseError::InvalidCharacterLiteral,
            ) =~= seq![
                SpecParseError::InvalidPunctuation('\''),
                SpecParseError::InvalidCharacterLiteral,
            ]);
        }
        return Err(ch);
    }
    let body = if p + 1 >= s.len() || s[p + 1] == '\n' || s[p + 1] == '\'' {
        Err(chain_one(ParseError::InvalidEscapeSequence))
    } else if s[p + 1] == '\\' {
        if p + 2 == s.len() {
            Err(chain_one(ParseError::InvalidEscapeSequence))
        } else {
            escaped_to_char(s[p + 2], s, p + 3)
        }
    } else {
        Ok((s[p + 1], p + 2))
    };
    match body {
        Err(ch) => Err(chain_wrap(ch, ParseError::InvalidCharacterLiteral)),
        Ok((decoded, n)) => {
            if n < s.len() && s[n] == '\'' {
                Ok((Lit::Char(CharLiteral::Unicode(decoded)), skip_whitespace(s, n + 1)))
            } else {
                let ch = chain_wrap(
                    chain_one(ParseError::InvalidPunctuation('\'')),
                    ParseError::InvalidCharacterLiteral,
                );
                proof {
                    assert(seq![SpecParseError::InvalidPunctuation('\'')].push(
                        SpecParseError::InvalidCharacterLiteral,
                    ) =~= seq![
                        SpecParseError::InvalidPunctuation('\''),
                        SpecParseError::InvalidCharacterLiteral,
                    ]);
                }
                Err(ch)
            }
        },
    }
}

// --- Macro-constant vocabularies ---

/// What `string_like_literal` recognizes from `pos`: one of the
/// string-like macro constants as a whole word, with the whitespace
/// around it consumed; when none matches, the whole group fails as
/// `InvalidStringLikeLiteral`.
pub open spec fn spec_string_like_literal(s: Seq<char>, pos: int) -> Result<
    (SpecLit, int),
    Seq<SpecParseError>,
> {
    let p = skip_ws(s, pos);
    if spec_keyword(s, p, "__func__"@) is Some {
        Ok((SpecLit::StringLike("__func__"@), skip_ws(s, spec_keyword(s, p, "__func__"@)->0)))
    } else if spec_keyword(s, p, "__FUNCTION__"@) is Some {
        Ok((SpecLit::StringLike("__FUNCTION__"@), skip_ws(s, spec_keyword(s, p, "__FUNCTION__"@)->0)))
    } else if spec_keyword(s, p, "__DATE__"@) is Some {
        Ok((SpecLit::StringLike("__DATE__"@), skip_ws(s, spec_keyword(s, p, "__DATE__"@)->0)))
    } else if spec_keyword(s, p, "__TIME__"@) is Some {
        Ok((SpecLit::StringLike("__TIME__"@), skip_ws(s, spec_keyword(s, p, "__TIME__"@)->0)))
    } else if spec_keyword(s, p, "__FILE__"@) is Some {
        Ok((SpecLit::StringLike("__FILE__"@), skip_ws(s, spec_keyword(s, p, "__FILE__"@)->0)))
    } else {
        Err(seq![SpecParseError::InvalidStringLikeLiteral])
    }
}

/// What `integer_like_literal` recognizes from `pos`: one of the
/// integer-like macro constants as a whole word, with the whitespace
/// around it consumed; when none matches, the whole group fails as
/// `InvalidIntegerLikeLiteral`.
pub open spec fn spec_integer_like_literal(s: Seq<char>, pos: int) -> Result<
    (SpecLit, int),
    Seq<SpecParseError>,
> {
    let p = skip_ws(s, pos);
    if spec_keyword(s, p, "__LINE__"@) is Some {
        Ok((SpecLit::IntegerLike("__LINE__"@), skip_ws(s, spec_keyword(s, p, "__LINE__"@)->0)))
    } else if spec_keyword(s, p, "__STDC__"@) is Some {
        Ok((SpecLit::IntegerLike("__STDC__"@), skip_ws(s, spec_keyword(s, p, "__STDC__"@)->0)))
    } else if spec_keyword(s, p, "__STDC_VERSION__"@) is Some {
        Ok((SpecLit::IntegerLike("__STDC_VERSION__"@), skip_ws(s, spec_keyword(s, p, "__STDC_VERSION__"@)->0)))
    } else if spec_keyword(s, p, "__STDC_HOSTED__"@) is Some {
        Ok((SpecLit::IntegerLike("__STDC_HOSTED__"@), skip_ws(s, spec_keyword(s, p, "__STDC_HOSTED__"@)->0)))
    } else if spec_keyword(s, p, "__cplusplus"@) is Some {
        Ok((SpecLit::IntegerLike("__cplusplus"@), skip_ws(s, spec_keyword(s, p, "__cplusplus"@)->0)))
    } else if spec_keyword(s, p, "__OBJC__"@) is Some {
        Ok((SpecLit::IntegerLike("__OBJC__"@), skip_ws(s, spec_keyword(s, p, "__OBJC__"@)->0)))
    } else if spec_keyword(s, p, "__ASSEMBLER__"@) is Some {
        Ok((SpecLit::IntegerLike("__ASSEMBLER__"@), skip_ws(s, spec_keyword(s, p, "__ASSEMBLER__"@)->0)))
    } else {
        Err(seq![SpecParseError::InvalidIntegerLikeLiteral])
    }
}

/// Builds the literal value for a matched string-like constant.
fn string_like_value(kw: &str) -> (r: Lit)
    ensures
        r.deep_view() == SpecLit::StringLike(kw@),
{
    Lit::StringLike(Ident::new(String::from_str(kw)))
}

/// Builds the literal value for a matched integer-like constant.
fn integer_like_value(kw: &str) -> (r: Lit)
    ensures
        r.deep_view() == SpecLit::IntegerLike(kw@),
{
    Lit::IntegerLike(Ident::new(String::from_str(kw)))
}

/// Recognizes a string-like macro constant starting at `pos`.
pub fn string_like_literal_at(s: &Vec<char>, pos: usize) -> (r: Result<
    (Lit, usize),
    Vec<ParseError>,
>)
    requires
        pos <= s@.len(),
    ensures
        lex_view(r) == spec_string_like_literal(s@, pos as int),
        r matches Ok((v, n)) ==> n <= s@.len(),
{
    let p = skip_whitespace(s, pos);
    if let Some(n) = match_keyword(s, p, "__func__") {
        return Ok((string_like_value("__func__"), skip_whitespace(s, n)));
    }
    if let Some(n) = match_keyword(s, p, "__FUNCTION__") {
        return Ok((string_like_value("__FUNCTION__"), skip_whitespace(s, n)));
    }
    if let Some(n) = match_keyword(s, p, "__DATE__") {
        return Ok((string_like_value("__DATE__"), skip_whitespace(s, n)));
    }
    if let Some(n) = match_keyword(s, p, "__TIME__") {
        return Ok((string_like_value("__TIME__"), skip_whitespace(s, n)));
    }
    if let Some(n) = match_keyword(s, p, "__FILE__") {
        return Ok((string_like_value("__FILE__"), skip_whitespace(s, n)));
    }
    Err(chain_one(ParseError::InvalidStringLikeLiteral))
}

/// Recognizes an integer-like macro constant starting at `pos`.
pub fn integer_like_literal_at(s: &Vec<char>, pos: usize) -> (r: Result<
    (Lit, usize),
    Vec<ParseError>,
>)
    requires
        pos <= s@.len(),
    ensures
        lex_view(r) == spec_integer_like_literal(s@, pos as int),
        r matches Ok((v, n)) ==> n <= s@.len(),
{
    let p = skip_whitespace(s, pos);
    if let Some(n) = match_keyword(s, p, "__LINE__") {
        return Ok((integer_like_value("__LINE__"), skip_whitespace(s, n)));
    }
    if let Some(n) = match_keyword(s, p, "__STDC__") {
        return Ok((integer_like_value("__STDC__"), skip_whitespace(s, n)));
    }
    if let Some(n) = match_keyword(s, p, "__STDC_VERSION__") {
        return Ok((integer_like_value("__STDC_VERSION__"), skip_whitespace(s, n)));
    }
    if let Some(n) = match_keyword(s, p, "__STDC_HOSTED__") {
        return Ok((integer_like_value("__STDC_HOSTED__"), skip_whitespace(s, n)));
    }
    if let Some(n) = match_keyword(s, p, "__cplusplus") {
        return Ok((integer_like_value("__cplusplus"), skip_whitespace(s, n)));
    }
    if let Some(n) = match_keyword(s, p, "__OBJC__") {
        return Ok((integer_like_value("__OBJC__"), skip_whitespace(s, n)));
    }
    if let Some(n) = match_keyword(s, p, "__ASSEMBLER__") {
        return Ok((integer_like_value("__ASSEMBLER__"), skip_whitespace(s, n)));
    }
    Err(chain_one(ParseError::InvalidIntegerLikeLiteral))
}

// --- String entry: string-like constant or string literal ---

/// What `string` recognizes from `pos`: a string-like constant, or else a
/// string literal from the same position; when both alternatives fail the
/// whole attempt fails as `InvalidString`.
pub open spec fn spec_string(s: Seq<char>, pos: int) -> Result<
    (SpecLit, int),
    Seq<SpecParseError>,
> {
    let p = skip_ws(s, pos);
    match spec_string_like_literal(s, p) {
        Ok((v, n)) => Ok((v, skip_ws(s, n))),
        Err(first_err) => match spec_raw_string_literal(s, p) {
            Ok((v, n)) => Ok((v, skip_ws(s, n))),
            Err(second_err) => Err(seq![SpecParseError::InvalidString]),
        },
    }
}

/// Alternatives are transactional: when the string-like branch fails, the
/// string-literal branch is tried from exactly the position the failed
/// branch observed — a failed alternative consumes nothing.
pub proof fn lemma_alternatives_transactional(s: Seq<char>, pos: int)
    requires
        0 <= pos <= s.len(),
    ensures
        ({
            let p = skip_ws(s, pos);
            spec_string_like_literal(s, p) is Err ==> spec_string(s, pos) == match spec_raw_string_literal(
                s,
                p,
            ) {
                Ok((v, n)) => Ok::<(SpecLit, int), Seq<SpecParseError>>((v, skip_ws(s, n))),
                Err(ch) => Err::<(SpecLit, int), Seq<SpecParseError>>(
                    seq![SpecParseError::InvalidString],
                ),
            }
        }),
{
}

/// Recognizes a string-like constant or a string literal starting at
/// `pos`.
pub fn string_at(s: &Vec<char>, pos: usize) -> (r: Result<(Lit, usize), Vec<ParseError>>)
    requires
        pos <= s@.len(),
    ensures
        lex_view(r) == spec_string(s@, pos as int),
        r matches Ok((v, n)) ==> n <= s@.len(),
{
    let p = skip_whitespace(s, pos);
    match string_like_literal_at(s, p) {
        Ok((v, n)) => Ok((v, skip_whitespace(s, n))),
        Err(_first) => match raw_string_lit(s, p) {
            Ok((v, n)) => Ok((v, skip_whitespace(s, n))),
            Err(_second) => Err(chain_one(ParseError::InvalidString)),
        },
    }
}

// --- Byte-buffer entry points ---
//
// Each entry point decodes the buffer as UTF-8 (lossily) and recognizes
// from the start of the text; the returned position indexes the decoded
// character sequence.

/// Recognizes a string literal at the start of the buffer: optional
/// prefix tokens, then a quote-delimited body whose escapes are fully
/// decoded. The `unicode` flag records a `u8` or `u` prefix, the `wide`
/// flag an `l` or `L` prefix.
pub fn string_literal(input: &[u8]) -> (r: Result<(Lit, usize), Vec<ParseError>>)
    ensures
        lex_view(r) == spec_string_literal(lossy_decode(input@), 0),
{
    let t = decode_bytes(input);
    string_literal_at(&t, 0)
}

/// Recognizes a character literal at the start of the buffer: exactly one
/// plain or escaped character between single quotes.
pub fn char_literal(input: &[u8]) -> (r: Result<(Lit, usize), Vec<ParseError>>)
    ensures
        lex_view(r) == spec_char_literal(lossy_decode(input@), 0),
{
    let t = decode_bytes(input);
    char_literal_at(&t, 0)
}

/// Recognizes a string-like macro constant (`__func__`, `__FUNCTION__`,
/// `__DATE__`, `__TIME__`, `__FILE__`) as a whole word.
pub fn string_like_literal(input: &[u8]) -> (r: Result<(Lit, usize), Vec<ParseError>>)
    ensures
        lex_view(r) == spec_string_like_literal(lossy_decode(input@), 0),
{
    let t = decode_bytes(input);
    string_like_literal_at(&t, 0)
}

/// Recognizes an integer-like macro constant (`__LINE__`, `__STDC__`,
/// `__STDC_VERSION__`, `__STDC_HOSTED__`, `__cplusplus`, `__OBJC__`,
/// `__ASSEMBLER__`) as a whole word.
pub fn integer_like_literal(input: &[u8]) -> (r: Result<(Lit, usize), Vec<ParseError>>)
    ensures
        lex_view(r) == spec_integer_like_literal(lossy_decode(input@), 0),
{
    let t = decode_bytes(input);
    integer_like_literal_at(&t, 0)
}

/// Recognizes a string-like constant or a string literal at the start of
/// the buffer.
pub fn string(input: &[u8]) -> (r: Result<(Lit, usize), Vec<ParseError>>)
    ensures
        lex_view(r) == spec_string(lossy_decode(input@), 0),
{
    let t = decode_bytes(input);
    string_at(&t, 0)
}

} // verus!

//! The escape-sequence decoder: one `\...` escape becomes exactly one
//! Unicode scalar, or a typed failure that carries enough text to reproduce
//! the offending escape verbatim.
//!
//! The decoder reads the character just after the backslash — the
//! introducer — plus a forward cursor over the remaining characters of the
//! literal body. Rules, in precedence order: the fixed single-character
//! escapes; `\x` with one or more hex digits; `\u` / `\U` with exactly four
//! or eight hex digits; an octal digit opening a run of at most three; and
//! anything else is `InvalidEscapeSequence`.

use vstd::prelude::*;
use crate::error::{ParseError, SpecParseError, lex_view, res_view, chain_one, chain_wrap};
use crate::text::{
    is_oct_digit,
    is_hex_digit,
    digit_value,
    hex_run_end,
    oct_run_end,
    lemma_hex_run_end_bounds,
    lemma_oct_run_end_bounds,
    radix_value,
    lemma_radix_value_nonneg,
    is_scalar_value,
    scalar_char,
    lemma_scalar_char_code,
    oct_digit,
    hex_digit,
    digit_val,
    decode_bytes,
    lossy_decode,
    string_from_chars,
    char_from_u32,
};

verus! {

/// The fixed single-character escapes: each consumes exactly its
/// introducer and decodes to one control or punctuation character.
pub open spec fn fixed_escape(c: char) -> Option<char> {
    if c == '\\' {
        Some('\x5C')
    } else if c == '\'' {
        Some('\x27')
    } else if c == 'a' {
        Some('\x07')
    } else if c == 'b' {
        Some('\x08')
    } else if c == 'f' {
        Some('\x0C')
    } else if c == 'n' {
        Some('\x0A')
    } else if c == 'r' {
        Some('\x0D')
    } else if c == 't' {
        Some('\x09')
    } else if c == 'v' {
        Some('\x0B')
    } else if c == '"' {
        Some('\x22')
    } else if c == '?' {
        Some('\x3F')
    } else if c == 'e' {
        Some('\x1B')
    } else {
        None
    }
}

/// The base a numeric escape's digits are read in.
pub open spec fn escape_base(c: char) -> int {
    if is_oct_digit(c) {
        8
    } else {
        16
    }
}

/// The escape text reconstructed for a diagnostic: the backslash, the
/// introducer (which for an octal escape is the first digit), and the
/// digits.
pub open spec fn escape_text(c: char, digits: Seq<char>) -> Seq<char> {
    if is_oct_digit(c) {
        seq!['\\'] + digits
    } else {
        seq!['\\', c] + digits
    }
}

/// The complete digit run of a numeric escape at `pos`: `None` when the
/// introducer opens no numeric escape or the run is too short. An octal
/// run includes its introducer.
pub open spec fn escape_digits(c: char, s: Seq<char>, pos: int) -> Option<Seq<char>> {
    if fixed_escape(c) is Some {
        None
    } else if c == 'x' {
        let run_end = hex_run_end(s, pos);
        if run_end == pos {
            None
        } else {
            Some(s.subrange(pos, run_end))
        }
    } else if c == 'u' || c == 'U' {
        let want: int = if c == 'u' {
            4
        } else {
            8
        };
        if hex_run_end(s, pos) < pos + want {
            None
        } else {
            Some(s.subrange(pos, pos + want))
        }
    } else if is_oct_digit(c) {
        Some(seq![c] + s.subrange(pos, oct_run_end(s, pos, 2)))
    } else {
        None
    }
}

/// What decoding one escape yields: the introducer `c` follows a
/// backslash, and `pos` indexes the character right after the introducer.
/// On success the position has moved exactly past the digits the matched
/// rule requires; on failure nothing meaningful is consumed.
pub open spec fn spec_escaped_to_char(c: char, s: Seq<char>, pos: int) -> Result<
    (char, int),
    Seq<SpecParseError>,
> {
    match fixed_escape(c) {
        Some(decoded) => Ok((decoded, pos)),
        None => if c == 'x' {
            let run_end = hex_run_end(s, pos);
            if run_end == pos {
                Err(seq![SpecParseError::InvalidEscapeSequence])
            } else {
                let digits = s.subrange(pos, run_end);
                let v = radix_value(digits, 16);
                if is_scalar_value(v) {
                    Ok((scalar_char(v), run_end))
                } else {
                    Err(seq![SpecParseError::InvalidUnicodeValueDetail(escape_text(c, digits))])
                }
            }
        } else if c == 'u' || c == 'U' {
            let want: int = if c == 'u' {
                4
            } else {
                8
            };
            let avail = hex_run_end(s, pos);
            let run_end = if avail < pos + want {
                avail
            } else {
                pos + want
            };
            let digits = s.subrange(pos, run_end);
            if run_end < pos + want {
                Err(seq![SpecParseError::InvalidEscapeSequenceDetail(escape_text(c, digits))])
            } else {
                let v = radix_value(digits, 16);
                if is_scalar_value(v) {
                    Ok((scalar_char(v), run_end))
                } else {
                    Err(seq![SpecParseError::InvalidUnicodeValueDetail(escape_text(c, digits))])
                }
            }
        } else if is_oct_digit(c) {
            let run_end = oct_run_end(s, pos, 2);
            let digits = seq![c] + s.subrange(pos, run_end);
            let v = radix_value(digits, 8);
            if is_scalar_value(v) {
                Ok((scalar_char(v), run_end))
            } else {
                Err(seq![SpecParseError::InvalidUnicodeValueDetail(escape_text(c, digits))])
            }
        } else {
            Err(seq![SpecParseError::InvalidEscapeSequence])
        },
    }
}

/// A successful escape never moves the cursor backwards or past the end.
pub proof fn lemma_spec_escape_advances(c: char, s: Seq<char>, pos: int)
    requires
        0 <= pos <= s.len(),
    ensures
        spec_escaped_to_char(c, s, pos) matches Ok((decoded, n)) ==> pos <= n <= s.len(),
{
    lemma_hex_run_end_bounds(s, pos);
    lemma_oct_run_end_bounds(s, pos, 2);
}

/// Every numeric escape whose complete digit run decodes to an integer
/// outside the Unicode scalar range — a surrogate, or a value past
/// 0x10FFFF — fails with `InvalidUnicodeValueDetail` carrying the original
/// escape text; it never yields a character.
pub proof fn lemma_escape_invalid_scalar(c: char, s: Seq<char>, pos: int)
    requires
        0 <= pos <= s.len(),
        escape_digits(c, s, pos) is Some,
        !is_scalar_value(radix_value(escape_digits(c, s, pos)->0, escape_base(c))),
    ensures
        spec_escaped_to_char(c, s, pos) == Err::<(char, int), Seq<SpecParseError>>(
            seq![
                SpecParseError::InvalidUnicodeValueDetail(
                    escape_text(c, escape_digits(c, s, pos)->0),
                ),
            ],
        ),
{
    lemma_hex_run_end_bounds(s, pos);
}

pub fn fixed_escape_char(c: char) -> (r: Option<char>)
    ensures
        r == fixed_escape(c),
{
    match c {
        '\\' => Some('\x5C'),
        '\'' => Some('\x27'),
        'a' => Some('\x07'),
        'b' => Some('\x08'),
        'f' => Some('\x0C'),
        'n' => Some('\x0A'),
        'r' => Some('\x0D'),
        't' => Some('\x09'),
        'v' => Some('\x0B'),
        '"' => Some('\x22'),
        '?' => Some('\x3F'),
        'e' => Some('\x1B'),
        _ => None,
    }
}

/// Builds the diagnostic text for a numeric escape.
fn build_escape_text(c: char, digits: &Vec<char>) -> (r: String)
    ensures
        r@ == escape_text(c, digits@),
{
    let mut tv: Vec<char> = Vec::new();
    tv.push('\\');
    if !oct_digit(c) {
        tv.push(c);
    }
    let ghost base = tv@;
    let mut j: usize = 0;
    while j < digits.len()
        invariant
            j <= digits@.len(),
            tv@ == base + digits@.take(j as int),
        decreases digits@.len() - j,
    {
        tv.push(digits[j]);
        proof {
            assert(digits@.take(j + 1).drop_last() =~= digits@.take(j as int));
            assert(tv@ =~= base + digits@.take(j + 1));
        }
        j = j + 1;
    }
    proof {
        assert(digits@.take(digits@.len() as int) =~= digits@);
        assert(tv@ =~= escape_text(c, digits@));
    }
    string_from_chars(&tv)
}

/// Scans up to `cap` hexadecimal digits from `pos`: the digit characters,
/// the end of the scanned run, and the digits' value, exact while it is
/// within the scalar range and otherwise held strictly above it.
fn scan_hex(s: &Vec<char>, pos: usize, cap: usize) -> (r: (Vec<char>, usize, u32))
    requires
        pos <= s@.len(),
    ensures
        ({
            let avail = hex_run_end(s@, pos as int);
            let end = if avail < pos + cap {
                avail
            } else {
                pos + cap
            };
            &&& r.1 == end
            &&& pos <= end <= s@.len()
            &&& r.0@ == s@.subrange(pos as int, end as int)
            &&& (radix_value(r.0@, 16) <= 0x10FFFF ==> r.2 == radix_value(r.0@, 16))
            &&& (radix_value(r.0@, 16) > 0x10FFFF ==> r.2 > 0x10FFFF)
        }),
{
    proof {
        lemma_hex_run_end_bounds(s@, pos as int);
    }
    let mut digits: Vec<char> = Vec::new();
    let mut val: u32 = 0;
    let mut i: usize = pos;
    while i < s.len() && i - pos < cap && hex_digit(s[i])
        invariant
            pos <= i <= s@.len(),
            i - pos <= cap,
            hex_run_end(s@, pos as int) == hex_run_end(s@, i as int),
            i <= hex_run_end(s@, pos as int),
            digits@ == s@.subrange(pos as int, i as int),
            forall|j: int| pos <= j < i ==> is_hex_digit(#[trigger] s@[j]),
            radix_value(digits@, 16) <= 0x10FFFF ==> val == radix_value(digits@, 16),
            radix_value(digits@, 16) > 0x10FFFF ==> val > 0x10FFFF,
        decreases s@.len() - i,
    {
        let ghost prev = digits@;
        let d = digit_val(s[i]);
        proof {
            lemma_radix_value_nonneg(prev, 16);
            assert(radix_value(prev, 16) * 16 >= radix_value(prev, 16)) by (nonlinear_arith)
                requires
                    radix_value(prev, 16) >= 0,
            ;
        }
        if val <= 0x10FFFF {
            val = val * 16 + d;
        }
        digits.push(s[i]);
        proof {
            assert(s@.subrange(pos as int, i + 1).drop_last() =~= s@.subrange(
                pos as int,
                i as int,
            ));
            assert(digits@ =~= s@.subrange(pos as int, i + 1));
            lemma_hex_run_end_bounds(s@, i + 1);
        }
        i = i + 1;
    }
    proof {
        lemma_hex_run_end_bounds(s@, i as int);
    }
    (digits, i, val)
}

/// Decodes one escape sequence. `c` is the character just after the
/// backslash; `pos` indexes the character after `c`. On success the
/// returned position lies exactly past the characters the matched rule
/// consumed; every failure carries the text needed to reproduce the
/// offending escape.
pub fn escaped_to_char(c: char, s: &Vec<char>, pos: usize) -> (r: Result<
    (char, usize),
    Vec<ParseError>,
>)
    requires
        pos <= s@.len(),
    ensures
        lex_view(r) == spec_escaped_to_char(c, s@, pos as int),
{
    match fixed_escape_char(c) {
        Some(decoded) => Ok((decoded, pos)),
        None => {
            if c == 'x' {
                let (digits, end, val) = scan_hex(s, pos, s.len());
                proof {
                    lemma_hex_run_end_bounds(s@, pos as int);
                }
                if end == pos {
                    Err(chain_one(ParseError::InvalidEscapeSequence))
                } else if val > 0x10FFFF {
                    Err(
                        chain_one(
                            ParseError::InvalidUnicodeValueDetail(build_escape_text(c, &digits)),
                        ),
                    )
                } else {
                    match char_from_u32(val) {
                        Some(decoded) => {
                            proof {
                                lemma_scalar_char_code(decoded, val as int);
                            }
                            Ok((decoded, end))
                        },
                        None => Err(
                            chain_one(
                                ParseError::InvalidUnicodeValueDetail(
                                    build_escape_text(c, &digits),
                                ),
                            ),
                        ),
                    }
                }
            } else if c == 'u' || c == 'U' {
                let want: usize = if c == 'u' {
                    4
                } else {
                    8
                };
                let (digits, end, val) = scan_hex(s, pos, want);
                if end - pos < want {
                    Err(
                        chain_one(
                            ParseError::InvalidEscapeSequenceDetail(build_escape_text(c, &digits)),
                        ),
                    )
                } else if val > 0x10FFFF {
                    Err(
                        chain_one(
                            ParseError::InvalidUnicodeValueDetail(build_escape_text(c, &digits)),
                        ),
                    )
                } else {
                    match char_from_u32(val) {
                        Some(decoded) => {
                            proof {
                                lemma_scalar_char_code(decoded, val as int);
                            }
                            Ok((decoded, end))
                        },
                        None => Err(
                            chain_one(
                                ParseError::InvalidUnicodeValueDetail(
                                    build_escape_text(c, &digits),
                                ),
                            ),
                        ),
                    }
                }
            } else if oct_digit(c) {
                let mut digits: Vec<char> = Vec::new();
                digits.push(c);
                proof {
                    assert(digits@ =~= seq![c] + s@.subrange(pos as int, pos as int));
                    let ghost one: Seq<char> = seq![c];
                    assert(one.len() == 1 && one.last() == c);
                    assert(one.drop_last() =~= Seq::<char>::empty());
                    assert(radix_value(one.drop_last(), 8) == 0);
                    assert(radix_value(one, 8) == digit_value(c));
                }
                let mut val: u32 = digit_val(c);
                let mut i: usize = pos;
                let mut count: usize = 0;
                while i < s.len() && count < 2 && oct_digit(s[i])
                    invariant
                        pos <= i <= s@.len(),
                        count == i - pos,
                        count <= 2,
                        oct_run_end(s@, pos as int, 2) == oct_run_end(s@, i as int, 2 - count),
                        digits@ == seq![c] + s@.subrange(pos as int, i as int),
                        val == radix_value(digits@, 8),
                        count == 0 ==> val < 8,
                        count == 1 ==> val < 64,
                        val < 512,
                    decreases s@.len() - i,
                {
                    let d = digit_val(s[i]);
                    val = val * 8 + d;
                    digits.push(s[i]);
                    proof {
                        assert(s@.subrange(pos as int, i + 1).drop_last() =~= s@.subrange(
                            pos as int,
                            i as int,
                        ));
                        assert(digits@ =~= seq![c] + s@.subrange(pos as int, i + 1));
                        assert((seq![c] + s@.subrange(pos as int, i + 1)).drop_last() =~= seq![c]
                            + s@.subrange(pos as int, i as int));
                    }
                    i = i + 1;
                    count = count + 1;
                }
                match char_from_u32(val) {
                    Some(decoded) => {
                        proof {
                            lemma_scalar_char_code(decoded, val as int);
                        }
                        Ok((decoded, i))
                    },
                    None => Err(
                        chain_one(
                            ParseError::InvalidUnicodeValueDetail(build_escape_text(c, &digits)),
                        ),
                    ),
                }
            } else {
                Err(chain_one(ParseError::InvalidEscapeSequence))
            }
        },
    }
}

/// What decoding the first character of a text yields: one leading escape
/// is resolved; a bare or dangling backslash fails, its cause wrapped as
/// `InvalidEscapeSequence`.
pub open spec fn spec_map_character(t: Seq<char>) -> Result<char, Seq<SpecParseError>> {
    if t.len() == 0 {
        Err(seq![SpecParseError::InvalidEscapeSequence])
    } else if t[0] == '\\' {
        if t.len() == 1 {
            Err(seq![SpecParseError::InvalidEscapeSequence])
        } else {
            match spec_escaped_to_char(t[1], t, 2) {
                Ok((decoded, n)) => Ok(decoded),
                Err(ch) => Err(ch.push(SpecParseError::InvalidEscapeSequence)),
            }
        }
    } else {
        Ok(t[0])
    }
}

/// Decodes the first character of the text, resolving one leading escape
/// sequence.
pub fn map_character_chars(t: &Vec<char>) -> (r: Result<char, Vec<ParseError>>)
    ensures
        res_view(r) == spec_map_character(t@),
{
    if t.len() == 0 {
        Err(chain_one(ParseError::InvalidEscapeSequence))
    } else if t[0] == '\\' {
        if t.len() == 1 {
            Err(chain_one(ParseError::InvalidEscapeSequence))
        } else {
            match escaped_to_char(t[1], t, 2) {
                Ok((decoded, _n)) => Ok(decoded),
                Err(ch) => Err(chain_wrap(ch, ParseError::InvalidEscapeSequence)),
            }
        }
    } else {
        Ok(t[0])
    }
}

/// Decodes the first character of the given bytes, resolving one leading
/// escape sequence.
pub fn map_character(bytes: &[u8]) -> (r: Result<char, Vec<ParseError>>)
    ensures
        res_view(r) == spec_map_character(lossy_decode(bytes@)),
{
    let t = decode_bytes(bytes);
    map_character_chars(&t)
}

/// What decoding a whole text yields: every escape resolved and every
/// plain character kept, or the first escape failure, wrapped as
/// `InvalidEscapeSequence`.
pub open spec fn spec_map_characters(t: Seq<char>, pos: int) -> Result<
    Seq<char>,
    Seq<SpecParseError>,
>
    decreases t.len() - pos,
    when 0 <= pos <= t.len()
    via spec_map_characters_decreases
{
    if pos >= t.len() {
        Ok(seq![])
    } else if t[pos] == '\\' {
        if pos + 1 >= t.len() {
            Err(seq![SpecParseError::InvalidEscapeSequence])
        } else {
            match spec_escaped_to_char(t[pos + 1], t, pos + 2) {
                Err(ch) => Err(ch.push(SpecParseError::InvalidEscapeSequence)),
                Ok((decoded, n)) => match spec_map_characters(t, n) {
                    Err(ch) => Err(ch),
                    Ok(rest) => Ok(seq![decoded] + rest),
                },
            }
        }
    } else {
        match spec_map_characters(t, pos + 1) {
            Err(ch) => Err(ch),
            Ok(rest) => Ok(seq![t[pos]] + rest),
        }
    }
}

#[via_fn]
proof fn spec_map_characters_decreases(t: Seq<char>, pos: int) {
    if pos < t.len() && t[pos] == '\\' && pos + 1 < t.len() {
        lemma_spec_escape_advances(t[pos + 1], t, pos + 2);
    }
}

/// Decodes a whole text: every escape resolved, every plain character
/// kept.
pub fn map_characters_chars(t: &Vec<char>) -> (r: Result<String, Vec<ParseError>>)
    ensures
        res_view(r) == spec_map_characters(t@, 0),
{
    let mut out: Vec<char> = Vec::new();
    let mut i: usize = 0;
    loop
        invariant
            i <= t@.len(),
            spec_map_characters(t@, 0) == match spec_map_characters(t@, i as int) {
                Err(ch) => Err::<Seq<char>, Seq<SpecParseError>>(ch),
                Ok(rest) => Ok(out@ + rest),
            },
        decreases t@.len() - i,
    {
        if i >= t.len() {
            proof {
                assert(out@ + Seq::<char>::empty() =~= out@);
            }
            return Ok(string_from_chars(&out));
        }
        let c = t[i];
        if c == '\\' {
            if i + 1 >= t.len() {
                return Err(chain_one(ParseError::InvalidEscapeSequence));
            }
            match escaped_to_char(t[i + 1], t, i + 2) {
                Err(ch) => {
                    return Err(chain_wrap(ch, ParseError::InvalidEscapeSequence));
                },
                Ok((decoded, n)) => {
                    proof {
                        lemma_spec_escape_advances(t@[i + 1], t@, i + 2);
                    }
                    let ghost pre = out@;
                    out.push(decoded);
                    proof {
                        assert forall|rest: Seq<char>| pre.push(decoded) + rest =~= pre + (
                        seq![decoded] + rest) by {}
                    }
                    i = n;
                },
            }
        } else {
            let ghost pre = out@;
            out.push(c);
            proof {
                assert forall|rest: Seq<char>| pre.push(c) + rest =~= pre + (seq![c] + rest) by {}
            }
            i = i + 1;
        }
    }
}

/// Decodes a whole text given as bytes: every escape resolved, every plain
/// character kept.
pub fn map_characters(bytes: &[u8]) -> (r: Result<String, Vec<ParseError>>)
    ensures
        res_view(r) == spec_map_characters(lossy_decode(bytes@), 0),
{
    let t = decode_bytes(bytes);
    map_characters_chars(&t)
}

} // verus!

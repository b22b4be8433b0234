//! Character classes, whitespace skipping, digit-run arithmetic, and the
//! narrow trusted boundary to std's text conversions.

use vstd::prelude::*;
use vstd::string::StrSliceExecFns;

verus! {

// --- Character classes ---

/// Insignificant whitespace between tokens.
pub open spec fn is_space_char(c: char) -> bool {
    c == ' ' || c == '\t' || c == '\n' || c == '\r'
}

pub open spec fn is_space_byte(b: u8) -> bool {
    b == (' ' as u8) || b == ('\t' as u8) || b == ('\n' as u8) || b == ('\r' as u8)
}

/// A character that may start an identifier: `[A-Za-z_]`.
pub open spec fn is_ident_start_byte(b: u8) -> bool {
    b == ('_' as u8) || (('a' as u8) <= b && b <= ('z' as u8)) || (('A' as u8) <= b && b <= ('Z'
        as u8))
}

/// A character that may continue an identifier: `[A-Za-z0-9_]`.
pub open spec fn is_ident_byte(b: u8) -> bool {
    is_ident_start_byte(b) || (('0' as u8) <= b && b <= ('9' as u8))
}

pub open spec fn is_ident_start_char(c: char) -> bool {
    c == '_' || ('a' <= c && c <= 'z') || ('A' <= c && c <= 'Z')
}

pub open spec fn is_ident_char(c: char) -> bool {
    is_ident_start_char(c) || ('0' <= c && c <= '9')
}

pub open spec fn is_oct_digit(c: char) -> bool {
    '0' <= c && c <= '7'
}

pub open spec fn is_hex_digit(c: char) -> bool {
    ('0' <= c && c <= '9') || ('a' <= c && c <= 'f') || ('A' <= c && c <= 'F')
}

/// The numeric value of a digit, in any base up to 16.
pub open spec fn digit_value(c: char) -> int
    recommends
        is_hex_digit(c),
{
    if '0' <= c && c <= '9' {
        c as u32 - '0' as u32
    } else if 'a' <= c && c <= 'f' {
        c as u32 - 'a' as u32 + 10
    } else {
        c as u32 - 'A' as u32 + 10
    }
}

pub fn space_char(c: char) -> (r: bool)
    ensures
        r == is_space_char(c),
{
    c == ' ' || c == '\t' || c == '\n' || c == '\r'
}

pub fn space_byte(b: u8) -> (r: bool)
    ensures
        r == is_space_byte(b),
{
    b == (' ' as u8) || b == ('\t' as u8) || b == ('\n' as u8) || b == ('\r' as u8)
}

pub fn ident_start_byte(b: u8) -> (r: bool)
    ensures
        r == is_ident_start_byte(b),
{
    b == ('_' as u8) || (('a' as u8) <= b && b <= ('z' as u8)) || (('A' as u8) <= b && b <= ('Z'
        as u8))
}

pub fn ident_byte(b: u8) -> (r: bool)
    ensures
        r == is_ident_byte(b),
{
    ident_start_byte(b) || (('0' as u8) <= b && b <= ('9' as u8))
}

pub fn ident_char(c: char) -> (r: bool)
    ensures
        r == is_ident_char(c),
{
    c == '_' || ('a' <= c && c <= 'z') || ('A' <= c && c <= 'Z') || ('0' <= c && c <= '9')
}

pub fn oct_digit(c: char) -> (r: bool)
    ensures
        r == is_oct_digit(c),
{
    '0' <= c && c <= '7'
}

pub fn hex_digit(c: char) -> (r: bool)
    ensures
        r == is_hex_digit(c),
{
    ('0' <= c && c <= '9') || ('a' <= c && c <= 'f') || ('A' <= c && c <= 'F')
}

/// The numeric value of a digit; the result is below 16.
pub fn digit_val(c: char) -> (r: u32)
    requires
        is_hex_digit(c),
    ensures
        r == digit_value(c),
        r < 16,
{
    if '0' <= c && c <= '9' {
        c as u32 - '0' as u32
    } else if 'a' <= c && c <= 'f' {
        c as u32 - 'a' as u32 + 10
    } else {
        c as u32 - 'A' as u32 + 10
    }
}

// --- Whitespace skipping ---

/// The first position at or after `pos` that does not hold whitespace.
pub open spec fn skip_ws(s: Seq<char>, pos: int) -> int
    decreases s.len() - pos,
{
    if 0 <= pos && pos < s.len() && is_space_char(s[pos]) {
        skip_ws(s, pos + 1)
    } else {
        pos
    }
}

pub proof fn lemma_skip_ws_bounds(s: Seq<char>, pos: int)
    requires
        0 <= pos <= s.len(),
    ensures
        pos <= skip_ws(s, pos) <= s.len(),
    decreases s.len() - pos,
{
    if pos < s.len() && is_space_char(s[pos]) {
        lemma_skip_ws_bounds(s, pos + 1);
    }
}

pub open spec fn skip_ws_bytes(s: Seq<u8>, pos: int) -> int
    decreases s.len() - pos,
{
    if 0 <= pos && pos < s.len() && is_space_byte(s[pos]) {
        skip_ws_bytes(s, pos + 1)
    } else {
        pos
    }
}

pub proof fn lemma_skip_ws_bytes_bounds(s: Seq<u8>, pos: int)
    requires
        0 <= pos <= s.len(),
    ensures
        pos <= skip_ws_bytes(s, pos) <= s.len(),
    decreases s.len() - pos,
{
    if pos < s.len() && is_space_byte(s[pos]) {
        lemma_skip_ws_bytes_bounds(s, pos + 1);
    }
}

/// Advances over insignificant whitespace.
pub fn skip_whitespace(s: &Vec<char>, pos: usize) -> (r: usize)
    requires
        pos <= s@.len(),
    ensures
        r == skip_ws(s@, pos as int),
        pos <= r <= s@.len(),
{
    let mut i: usize = pos;
    while i < s.len() && space_char(s[i])
        invariant
            pos <= i <= s@.len(),
            skip_ws(s@, pos as int) == skip_ws(s@, i as int),
        decreases s@.len() - i,
    {
        i = i + 1;
    }
    i
}

/// Advances over insignificant whitespace in a byte buffer.
pub fn skip_whitespace_bytes(s: &Vec<u8>, pos: usize) -> (r: usize)
    requires
        pos <= s@.len(),
    ensures
        r == skip_ws_bytes(s@, pos as int),
        pos <= r <= s@.len(),
{
    let mut i: usize = pos;
    while i < s.len() && space_byte(s[i])
        invariant
            pos <= i <= s@.len(),
            skip_ws_bytes(s@, pos as int) == skip_ws_bytes(s@, i as int),
        decreases s@.len() - i,
    {
        i = i + 1;
    }
    i
}

// --- Digit runs and their values ---

/// The end of the maximal run of hexadecimal digits starting at `pos`.
pub open spec fn hex_run_end(s: Seq<char>, pos: int) -> int
    decreases s.len() - pos,
{
    if 0 <= pos && pos < s.len() && is_hex_digit(s[pos]) {
        hex_run_end(s, pos + 1)
    } else {
        pos
    }
}

pub proof fn lemma_hex_run_end_bounds(s: Seq<char>, pos: int)
    requires
        0 <= pos <= s.len(),
    ensures
        pos <= hex_run_end(s, pos) <= s.len(),
        forall|j: int| pos <= j < hex_run_end(s, pos) ==> is_hex_digit(#[trigger] s[j]),
    decreases s.len() - pos,
{
    if pos < s.len() && is_hex_digit(s[pos]) {
        lemma_hex_run_end_bounds(s, pos + 1);
    }
}

/// The end of the run of octal digits starting at `pos`, at most `max`
/// digits long.
pub open spec fn oct_run_end(s: Seq<char>, pos: int, max: int) -> int
    decreases max,
{
    if max > 0 && 0 <= pos && pos < s.len() && is_oct_digit(s[pos]) {
        oct_run_end(s, pos + 1, max - 1)
    } else {
        pos
    }
}

pub proof fn lemma_oct_run_end_bounds(s: Seq<char>, pos: int, max: int)
    requires
        0 <= pos <= s.len(),
        0 <= max,
    ensures
        pos <= oct_run_end(s, pos, max) <= s.len(),
        oct_run_end(s, pos, max) <= pos + max,
        forall|j: int| pos <= j < oct_run_end(s, pos, max) ==> is_oct_digit(#[trigger] s[j]),
    decreases max,
{
    if max > 0 && pos < s.len() && is_oct_digit(s[pos]) {
        lemma_oct_run_end_bounds(s, pos + 1, max - 1);
    }
}

/// The value of a digit sequence read in the given base, most significant
/// digit first.
pub open spec fn radix_value(digits: Seq<char>, base: int) -> int
    decreases digits.len(),
{
    if digits.len() == 0 {
        0
    } else {
        radix_value(digits.drop_last(), base) * base + digit_value(digits.last())
    }
}

pub proof fn lemma_radix_value_nonneg(digits: Seq<char>, base: int)
    requires
        base >= 1,
        forall|i: int| 0 <= i < digits.len() ==> is_hex_digit(#[trigger] digits[i]),
    ensures
        radix_value(digits, base) >= 0,
    decreases digits.len(),
{
    if digits.len() > 0 {
        lemma_radix_value_nonneg(digits.drop_last(), base);
    }
}

// --- Unicode scalar values ---

/// The code points that `char` can hold: at most 0x10FFFF and not a
/// surrogate.
pub open spec fn is_scalar_value(v: int) -> bool {
    0 <= v <= 0x10FFFF && !(0xD800 <= v <= 0xDFFF)
}

/// The character with the given code, for codes in the scalar range.
pub open spec fn scalar_char(v: int) -> char
    recommends
        is_scalar_value(v),
{
    (v as u32) as char
}

pub proof fn lemma_scalar_char_code(c: char, v: int)
    requires
        is_scalar_value(v),
        c as u32 == v as u32,
    ensures
        c == scalar_char(v),
{
    vstd::utf8::char_u32_cast(c, v as u32);
}

// --- Exact-text matching on byte buffers ---

/// Whether the bytes at `pos` spell exactly the given text.
pub open spec fn spec_tag_bytes(s: Seq<u8>, pos: int, t: Seq<char>) -> bool {
    pos + t.len() <= s.len() && (forall|i: int|
        0 <= i < t.len() ==> #[trigger] s[pos + i] as u32 == t[i] as u32)
}

/// Matches the exact text `t` at `pos`, returning the position just past
/// it.
pub fn match_tag_bytes(s: &Vec<u8>, pos: usize, t: &str) -> (r: Option<usize>)
    requires
        pos <= s@.len(),
    ensures
        match r {
            Some(n) => spec_tag_bytes(s@, pos as int, t@) && n == pos + t@.len() && n
                <= s@.len(),
            None => !spec_tag_bytes(s@, pos as int, t@),
        },
{
    let tlen = t.unicode_len();
    if tlen > s.len() - pos {
        return None;
    }
    let mut j: usize = 0;
    while j < tlen
        invariant
            j <= tlen,
            tlen == t@.len(),
            pos + tlen <= s@.len(),
            s@.len() <= usize::MAX,
            forall|i: int| 0 <= i < j ==> #[trigger] s@[pos + i] as u32 == t@[i] as u32,
        decreases tlen - j,
    {
        if (s[pos + j] as u32) != (t.get_char(j) as u32) {
            return None;
        }
        j = j + 1;
    }
    Some(pos + tlen)
}

// --- Trusted conversions ---

/// What `String::from_utf8_lossy` decodes the given bytes to.
pub uninterp spec fn lossy_decode(bytes: Seq<u8>) -> Seq<char>;

/// Relies on `String::from_utf8_lossy`: the decoding depends on the bytes
/// alone, and a buffer of ASCII bytes decodes to exactly those characters.
#[verifier::external_body]
pub fn decode_bytes(bytes: &[u8]) -> (r: Vec<char>)
    ensures
        r@ == lossy_decode(bytes@),
        (forall|i: int| 0 <= i < bytes@.len() ==> bytes@[i] < 128) ==> r@ == bytes@.map_values(
            |b: u8| b as char,
        ),
{
    String::from_utf8_lossy(bytes).chars().collect()
}

/// Relies on `String`'s `FromIterator` over `char`: the collected string
/// holds exactly the given characters, in order.
#[verifier::external_body]
pub fn string_from_chars(v: &Vec<char>) -> (r: String)
    ensures
        r@ == v@,
{
    v.iter().collect()
}

/// Relies on `char::from_u32`: `Some` exactly on Unicode scalar values,
/// holding the character with that code.
#[verifier::external_body]
pub fn char_from_u32(v: u32) -> (r: Option<char>)
    ensures
        r is Some <==> is_scalar_value(v as int),
        r matches Some(c) ==> c as u32 == v,
{
    char::from_u32(v)
}

} // verus!

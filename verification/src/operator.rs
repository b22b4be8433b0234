//! Arithmetic, shift and bitwise operators, and assignment operators,
//! with the whitespace around them consumed.

use vstd::prelude::*;
use crate::text::{spec_tag_bytes, match_tag_bytes, skip_ws_bytes, skip_whitespace_bytes};

verus! {

#[derive(Debug, Clone, Copy, PartialEq, Eq, Structural, Hash)]
pub enum Operator {
    MUL,
    DIV,
    MOD,
    ADD,
    SUB,
    LEFT,
    RIGHT,
    AND,
    XOR,
    OR,
}

/// An assignment operator: `=` alone, or an operator directly compounded
/// with `=`, as in `+=`.
#[derive(Debug, Clone, Copy, PartialEq, Eq, Structural, Hash)]
pub struct AssignmentOperator(pub Option<Operator>);

/// What `operator` recognizes from `pos`: the first matching operator
/// text, tried in a fixed order, with the whitespace around it consumed.
pub open spec fn spec_operator(s: Seq<u8>, pos: int) -> Option<(Operator, int)> {
    let p = skip_ws_bytes(s, pos);
    if spec_tag_bytes(s, p, "*"@) {
        Some((Operator::MUL, skip_ws_bytes(s, p + "*"@.len())))
    } else if spec_tag_bytes(s, p, "/"@) {
        Some((Operator::DIV, skip_ws_bytes(s, p + "/"@.len())))
    } else if spec_tag_bytes(s, p, "%"@) {
        Some((Operator::MOD, skip_ws_bytes(s, p + "%"@.len())))
    } else if spec_tag_bytes(s, p, "+"@) {
        Some((Operator::ADD, skip_ws_bytes(s, p + "+"@.len())))
    } else if spec_tag_bytes(s, p, "-"@) {
        Some((Operator::SUB, skip_ws_bytes(s, p + "-"@.len())))
    } else if spec_tag_bytes(s, p, "<<"@) {
        Some((Operator::LEFT, skip_ws_bytes(s, p + "<<"@.len())))
    } else if spec_tag_bytes(s, p, ">>"@) {
        Some((Operator::RIGHT, skip_ws_bytes(s, p + ">>"@.len())))
    } else if spec_tag_bytes(s, p, "&"@) {
        Some((Operator::AND, skip_ws_bytes(s, p + "&"@.len())))
    } else if spec_tag_bytes(s, p, "^"@) {
        Some((Operator::XOR, skip_ws_bytes(s, p + "^"@.len())))
    } else if spec_tag_bytes(s, p, "|"@) {
        Some((Operator::OR, skip_ws_bytes(s, p + "|"@.len())))
    } else {
        None
    }
}

/// What `assignment` recognizes from `pos`: an optional operator, then
/// `=`; once an operator has matched, the `=` must follow.
pub open spec fn spec_assignment(s: Seq<u8>, pos: int) -> Option<(AssignmentOperator, int)> {
    match spec_operator(s, pos) {
        Some((op, n)) => {
            if spec_tag_bytes(s, n, "="@) {
                Some((AssignmentOperator(Some(op)), skip_ws_bytes(s, n + "="@.len())))
            } else {
                None
            }
        },
        None => {
            let p = skip_ws_bytes(s, pos);
            if spec_tag_bytes(s, p, "="@) {
                Some((AssignmentOperator(None), skip_ws_bytes(s, p + "="@.len())))
            } else {
                None
            }
        },
    }
}

/// Recognizes an operator at `pos`.
pub fn operator_at(s: &Vec<u8>, pos: usize) -> (r: Option<(Operator, usize)>)
    requires
        pos <= s@.len(),
    ensures
        match r {
            Some((v, n)) => spec_operator(s@, pos as int) == Some((v, n as int)) && n
                <= s@.len(),
            None => spec_operator(s@, pos as int) is None,
        },
{
    let p = skip_whitespace_bytes(s, pos);
    if let Some(n) = match_tag_bytes(s, p, "*") {
        return Some((Operator::MUL, skip_whitespace_bytes(s, n)));
    }
    if let Some(n) = match_tag_bytes(s, p, "/") {
        return Some((Operator::DIV, skip_whitespace_bytes(s, n)));
    }
    if let Some(n) = match_tag_bytes(s, p, "%") {
        return Some((Operator::MOD, skip_whitespace_bytes(s, n)));
    }
    if let Some(n) = match_tag_bytes(s, p, "+") {
        return Some((Operator::ADD, skip_whitespace_bytes(s, n)));
    }
    if let Some(n) = match_tag_bytes(s, p, "-") {
        return Some((Operator::SUB, skip_whitespace_bytes(s, n)));
    }
    if let Some(n) = match_tag_bytes(s, p, "<<") {
        return Some((Operator::LEFT, skip_whitespace_bytes(s, n)));
    }
    if let Some(n) = match_tag_bytes(s, p, ">>") {
        return Some((Operator::RIGHT, skip_whitespace_bytes(s, n)));
    }
    if let Some(n) = match_tag_bytes(s, p, "&") {
        return Some((Operator::AND, skip_whitespace_bytes(s, n)));
    }
    if let Some(n) = match_tag_bytes(s, p, "^") {
        return Some((Operator::XOR, skip_whitespace_bytes(s, n)));
    }
    if let Some(n) = match_tag_bytes(s, p, "|") {
        return Some((Operator::OR, skip_whitespace_bytes(s, n)));
    }
    None
}

/// Recognizes an assignment operator at `pos`.
pub fn assignment_at(s: &Vec<u8>, pos: usize) -> (r: Option<(AssignmentOperator, usize)>)
    requires
        pos <= s@.len(),
    ensures
        match r {
            Some((v, n)) => spec_assignment(s@, pos as int) == Some((v, n as int)) && n
                <= s@.len(),
            None => spec_assignment(s@, pos as int) is None,
        },
{
    match operator_at(s, pos) {
        Some((op, n)) => {
            if let Some(q) = match_tag_bytes(s, n, "=") {
                Some((AssignmentOperator(Some(op)), skip_whitespace_bytes(s, q)))
            } else {
                None
            }
        },
        None => {
            let p = skip_whitespace_bytes(s, pos);
            if let Some(q) = match_tag_bytes(s, p, "=") {
                Some((AssignmentOperator(None), skip_whitespace_bytes(s, q)))
            } else {
                None
            }
        },
    }
}

/// Recognizes an operator at the start of the buffer.
pub fn operator(input: &[u8]) -> (r: Option<(Operator, usize)>)
    ensures
        match r {
            Some((v, n)) => spec_operator(input@, 0) == Some((v, n as int)),
            None => spec_operator(input@, 0) is None,
        },
{
    let v = vstd::slice::slice_to_vec(input);
    operator_at(&v, 0)
}

/// Recognizes an assignment operator at the start of the buffer.
pub fn assignment(input: &[u8]) -> (r: Option<(AssignmentOperator, usize)>)
    ensures
        match r {
            Some((v, n)) => spec_assignment(input@, 0) == Some((v, n as int)),
            None => spec_assignment(input@, 0) is None,
        },
{
    let v = vstd::slice::slice_to_vec(input);
    assignment_at(&v, 0)
}

} // verus!

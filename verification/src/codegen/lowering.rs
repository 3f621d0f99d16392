use vstd::prelude::*;

use crate::disassembly::symbol::Symbol;
use crate::lifter::pattern::OperandOffset;
use crate::lifter::pattern::PatternExpression as LP;
use crate::sleigh::pattern::PatternExpression as SP;

verus! {

/// The pattern of symbol `s`, as `pattern_value` gives it: the local
/// expression of an operand, the pattern of a value, value map, name,
/// context, varnode list, start or end symbol, and none for the others.
pub open spec fn symbol_pattern(s: Symbol) -> Option<SP> {
    match s {
        Symbol::Value { pattern_value, .. } => Some(pattern_value),
        Symbol::ValueMap { pattern_value, .. } => Some(pattern_value),
        Symbol::Name { pattern_value, .. } => Some(pattern_value),
        Symbol::Context { pattern_value, .. } => Some(pattern_value),
        Symbol::VarnodeList { pattern_value, .. } => Some(pattern_value),
        Symbol::Start { pattern_value, .. } => Some(pattern_value),
        Symbol::End { pattern_value, .. } => Some(pattern_value),
        Symbol::Operand { local_expr, .. } => Some(local_expr),
        _ => None,
    }
}

/// The number by which a generated lifter knows constructor `id`: its
/// table and its index, the low 16 bits of each, packed.
pub open spec fn constructor_number(id: (usize, usize)) -> u32 {
    (((id.0 as u32) & 0xffffu32) << 16u32) | ((id.1 as u32) & 0xffffu32)
}

/// What operand `index` of constructor `constructor_id` of table
/// `table_id` stands for in a pattern: the constructor's number, where the
/// operand starts (at an offset from its constructor where it has no base,
/// else where the operand itself starts), and the expression for its value:
/// its defining expression, else the pattern of its sub-symbol, else none
/// (the value is then 0).  `None` where an id names no such table,
/// constructor, operand symbol or sub-symbol with a pattern.
pub open spec fn operand_parts(symbols: Seq<Symbol>, index: usize, table_id: usize, constructor_id: usize) -> Option<
    (u32, OperandOffset, Option<SP>),
> {
    if table_id >= symbols.len() {
        None
    } else {
        match symbols[table_id as int] {
            Symbol::Subtable { constructors, .. } => if constructor_id >= constructors@.len() {
                None
            } else {
                let c = constructors@[constructor_id as int]@;
                if index >= c.operands.len() || c.operands[index as int] >= symbols.len() {
                    None
                } else {
                    match symbols[c.operands[index as int] as int] {
                        Symbol::Operand { def_expr, subsym_id, offset, base, .. } => {
                            let number = constructor_number(c.id);
                            let at = if base is None {
                                OperandOffset::Relative(offset as u8)
                            } else {
                                OperandOffset::Operand(index as u8)
                            };
                            match def_expr {
                                Some(e) => Some((number, at, Some(e))),
                                None => match subsym_id {
                                    None => Some((number, at, None)),
                                    Some(s) => if s >= symbols.len() {
                                        None
                                    } else {
                                        match symbol_pattern(symbols[s as int]) {
                                            None => None,
                                            Some(e) => Some((number, at, Some(e))),
                                        }
                                    },
                                },
                            }
                        },
                        _ => None,
                    }
                }
            },
            _ => None,
        }
    }
}

/// A pattern of a processor description as the lifter evaluates it: each
/// operand is replaced by its constructor's number, where it starts and
/// the expression for its value (see `operand_parts`), looked up in
/// `symbols` to at most `depth` operands deep; an operand with no
/// expression is the constant 0.  `None` where a lookup fails or more than
/// `depth` operands are nested.
pub open spec fn lowered(p: SP, symbols: Seq<Symbol>, depth: nat) -> Option<LP>
    decreases depth, p,
{
    match p {
        SP::TokenField { big_endian, sign_bit, bit_start, bit_end, byte_start, byte_end, shift } => Some(
            LP::TokenField { big_endian, sign_bit, bit_start, bit_end, byte_start, byte_end, shift },
        ),
        SP::ContextField { sign_bit, bit_start, bit_end, byte_start, byte_end, shift } => Some(
            LP::ContextField { sign_bit, bit_start, bit_end, byte_start, byte_end, shift },
        ),
        SP::Constant { value } => Some(LP::Constant { value }),
        SP::StartInstruction => Some(LP::StartInstruction),
        SP::EndInstruction => Some(LP::EndInstruction),
        SP::Next2Instruction => Some(LP::Next2Instruction),
        SP::Operand { index, table_id, constructor_id } => if depth == 0 {
            None
        } else {
            match operand_parts(symbols, index, table_id, constructor_id) {
                None => None,
                Some((number, at, value)) => match value {
                    None => Some(LP::Constant { value: 0 }),
                    Some(e) => match lowered(e, symbols, (depth - 1) as nat) {
                        None => None,
                        Some(v) => Some(LP::Operand { constructor: number, offset: at, value: Box::new(v) }),
                    },
                },
            }
        },
        SP::Plus(a, b) => match (lowered(*a, symbols, depth), lowered(*b, symbols, depth)) {
            (Some(x), Some(y)) => Some(LP::Plus(Box::new(x), Box::new(y))),
            _ => None,
        },
        SP::Sub(a, b) => match (lowered(*a, symbols, depth), lowered(*b, symbols, depth)) {
            (Some(x), Some(y)) => Some(LP::Sub(Box::new(x), Box::new(y))),
            _ => None,
        },
        SP::Mult(a, b) => match (lowered(*a, symbols, depth), lowered(*b, symbols, depth)) {
            (Some(x), Some(y)) => Some(LP::Mult(Box::new(x), Box::new(y))),
            _ => None,
        },
        SP::LeftShift(a, b) => match (lowered(*a, symbols, depth), lowered(*b, symbols, depth)) {
            (Some(x), Some(y)) => Some(LP::LeftShift(Box::new(x), Box::new(y))),
            _ => None,
        },
        SP::RightShift(a, b) => match (lowered(*a, symbols, depth), lowered(*b, symbols, depth)) {
            (Some(x), Some(y)) => Some(LP::RightShift(Box::new(x), Box::new(y))),
            _ => None,
        },
        SP::And(a, b) => match (lowered(*a, symbols, depth), lowered(*b, symbols, depth)) {
            (Some(x), Some(y)) => Some(LP::And(Box::new(x), Box::new(y))),
            _ => None,
        },
        SP::Or(a, b) => match (lowered(*a, symbols, depth), lowered(*b, symbols, depth)) {
            (Some(x), Some(y)) => Some(LP::Or(Box::new(x), Box::new(y))),
            _ => None,
        },
        SP::Xor(a, b) => match (lowered(*a, symbols, depth), lowered(*b, symbols, depth)) {
            (Some(x), Some(y)) => Some(LP::Xor(Box::new(x), Box::new(y))),
            _ => None,
        },
        SP::Div(a, b) => match (lowered(*a, symbols, depth), lowered(*b, symbols, depth)) {
            (Some(x), Some(y)) => Some(LP::Div(Box::new(x), Box::new(y))),
            _ => None,
        },
        SP::Minus(a) => match lowered(*a, symbols, depth) {
            Some(x) => Some(LP::Minus(Box::new(x))),
            None => None,
        },
        SP::Not(a) => match lowered(*a, symbols, depth) {
            Some(x) => Some(LP::Not(Box::new(x))),
            None => None,
        },
    }
}

/// The pattern of `s` (see `symbol_pattern`).
fn pattern_of_symbol(s: &Symbol) -> (r: Option<&SP>)
    ensures
        match r {
            Some(e) => symbol_pattern(*s) == Some(*e),
            None => symbol_pattern(*s) is None,
        },
{
    match s {
        Symbol::Value { pattern_value, .. } => Some(pattern_value),
        Symbol::ValueMap { pattern_value, .. } => Some(pattern_value),
        Symbol::Name { pattern_value, .. } => Some(pattern_value),
        Symbol::Context { pattern_value, .. } => Some(pattern_value),
        Symbol::VarnodeList { pattern_value, .. } => Some(pattern_value),
        Symbol::Start { pattern_value, .. } => Some(pattern_value),
        Symbol::End { pattern_value, .. } => Some(pattern_value),
        Symbol::Operand { local_expr, .. } => Some(local_expr),
        _ => None,
    }
}

/// Looks up operand `index` of constructor `constructor_id` of table
/// `table_id` (see `operand_parts`).
pub fn operand_lookup<'a>(symbols: &'a Vec<Symbol>, index: usize, table_id: usize, constructor_id: usize) -> (r: Option<
    (u32, OperandOffset, Option<&'a SP>),
>)
    ensures
        match (operand_parts(symbols@, index, table_id, constructor_id), r) {
            (None, None) => true,
            (Some((n, at, v)), Some((m, at2, w))) => n == m && at == at2 && match (v, w) {
                (None, None) => true,
                (Some(e), Some(f)) => e == *f,
                _ => false,
            },
            _ => false,
        },
{
    if table_id >= symbols.len() {
        return None;
    }
    match &symbols[table_id] {
        Symbol::Subtable { constructors, .. } => {
            if constructor_id >= constructors.len() {
                return None;
            }
            let c = &constructors[constructor_id];
            if index >= c.operand_count() {
                return None;
            }
            let opid = c.operand(index);
            if opid >= symbols.len() {
                return None;
            }
            match &symbols[opid] {
                Symbol::Operand { def_expr, subsym_id, offset, base, .. } => {
                    let id = c.id();
                    let number: u32 = (((id.0 as u32) & 0xffff) << 16) | ((id.1 as u32) & 0xffff);
                    let at = if base.is_none() {
                        OperandOffset::Relative(*offset as u8)
                    } else {
                        OperandOffset::Operand(index as u8)
                    };
                    match def_expr {
                        Some(e) => Some((number, at, Some(e))),
                        None => match subsym_id {
                            None => Some((number, at, None)),
                            Some(s) => {
                                if *s >= symbols.len() {
                                    return None;
                                }
                                match pattern_of_symbol(&symbols[*s]) {
                                    None => None,
                                    Some(e) => Some((number, at, Some(e))),
                                }
                            },
                        },
                    }
                },
                _ => None,
            }
        },
        _ => None,
    }
}

/// Lowers a pattern of a processor description to the one the lifter
/// evaluates (see `lowered`); `generate_pattern_resolver` then gives its
/// code.
pub fn lower_pattern(pattern: &SP, symbols: &Vec<Symbol>, depth: usize) -> (r: Option<LP>)
    ensures
        r == lowered(*pattern, symbols@, depth as nat),
    decreases depth, pattern,
{
    match pattern {
        SP::TokenField { big_endian, sign_bit, bit_start, bit_end, byte_start, byte_end, shift } => Some(
            LP::TokenField {
                big_endian: *big_endian,
                sign_bit: *sign_bit,
                bit_start: *bit_start,
                bit_end: *bit_end,
                byte_start: *byte_start,
                byte_end: *byte_end,
                shift: *shift,
            },
        ),
        SP::ContextField { sign_bit, bit_start, bit_end, byte_start, byte_end, shift } => Some(
            LP::ContextField {
                sign_bit: *sign_bit,
                bit_start: *bit_start,
                bit_end: *bit_end,
                byte_start: *byte_start,
                byte_end: *byte_end,
                shift: *shift,
            },
        ),
        SP::Constant { value } => Some(LP::Constant { value: *value }),
        SP::StartInstruction => Some(LP::StartInstruction),
        SP::EndInstruction => Some(LP::EndInstruction),
        SP::Next2Instruction => Some(LP::Next2Instruction),
        SP::Operand { index, table_id, constructor_id } => {
            if depth == 0 {
                return None;
            }
            match operand_lookup(symbols, *index, *table_id, *constructor_id) {
                None => None,
                Some((number, at, value)) => match value {
                    None => Some(LP::Constant { value: 0 }),
                    Some(e) => match lower_pattern(e, symbols, depth - 1) {
                        None => None,
                        Some(v) => Some(LP::Operand { constructor: number, offset: at, value: Box::new(v) }),
                    },
                },
            }
        },
        SP::Plus(a, b) => match (lower_pattern(a, symbols, depth), lower_pattern(b, symbols, depth)) {
            (Some(x), Some(y)) => Some(LP::Plus(Box::new(x), Box::new(y))),
            _ => None,
        },
        SP::Sub(a, b) => match (lower_pattern(a, symbols, depth), lower_pattern(b, symbols, depth)) {
            (Some(x), Some(y)) => Some(LP::Sub(Box::new(x), Box::new(y))),
            _ => None,
        },
        SP::Mult(a, b) => match (lower_pattern(a, symbols, depth), lower_pattern(b, symbols, depth)) {
            (Some(x), Some(y)) => Some(LP::Mult(Box::new(x), Box::new(y))),
            _ => None,
        },
        SP::LeftShift(a, b) => match (lower_pattern(a, symbols, depth), lower_pattern(b, symbols, depth)) {
            (Some(x), Some(y)) => Some(LP::LeftShift(Box::new(x), Box::new(y))),
            _ => None,
        },
        SP::RightShift(a, b) => match (lower_pattern(a, symbols, depth), lower_pattern(b, symbols, depth)) {
            (Some(x), Some(y)) => Some(LP::RightShift(Box::new(x), Box::new(y))),
            _ => None,
        },
        SP::And(a, b) => match (lower_pattern(a, symbols, depth), lower_pattern(b, symbols, depth)) {
            (Some(x), Some(y)) => Some(LP::And(Box::new(x), Box::new(y))),
            _ => None,
        },
        SP::Or(a, b) => match (lower_pattern(a, symbols, depth), lower_pattern(b, symbols, depth)) {
            (Some(x), Some(y)) => Some(LP::Or(Box::new(x), Box::new(y))),
            _ => None,
        },
        SP::Xor(a, b) => match (lower_pattern(a, symbols, depth), lower_pattern(b, symbols, depth)) {
            (Some(x), Some(y)) => Some(LP::Xor(Box::new(x), Box::new(y))),
            _ => None,
        },
        SP::Div(a, b) => match (lower_pattern(a, symbols, depth), lower_pattern(b, symbols, depth)) {
            (Some(x), Some(y)) => Some(LP::Div(Box::new(x), Box::new(y))),
            _ => None,
        },
        SP::Minus(a) => match lower_pattern(a, symbols, depth) {
            Some(x) => Some(LP::Minus(Box::new(x))),
            None => None,
        },
        SP::Not(a) => match lower_pattern(a, symbols, depth) {
            Some(x) => Some(LP::Not(Box::new(x))),
            None => None,
        },
    }
}

/// Lowering with more depth gives the same result wherever lowering with
/// less succeeds: the depth only bounds how deep the lookups may go.
pub proof fn lemma_lowered_depth(p: SP, symbols: Seq<Symbol>, d: nat, e: nat)
    requires
        d <= e,
        lowered(p, symbols, d) is Some,
    ensures
        lowered(p, symbols, e) == lowered(p, symbols, d),
    decreases d, p,
{
    match p {
        SP::Operand { index, table_id, constructor_id } => {
            match operand_parts(symbols, index, table_id, constructor_id) {
                Some((_, _, Some(x))) => {
                    lemma_lowered_depth(x, symbols, (d - 1) as nat, (e - 1) as nat);
                },
                _ => {},
            }
        },
        SP::Plus(a, b) => {
            lemma_lowered_depth(*a, symbols, d, e);
            lemma_lowered_depth(*b, symbols, d, e);
        },
        SP::Sub(a, b) => {
            lemma_lowered_depth(*a, symbols, d, e);
            lemma_lowered_depth(*b, symbols, d, e);
        },
        SP::Mult(a, b) => {
            lemma_lowered_depth(*a, symbols, d, e);
            lemma_lowered_depth(*b, symbols, d, e);
        },
        SP::LeftShift(a, b) => {
            lemma_lowered_depth(*a, symbols, d, e);
            lemma_lowered_depth(*b, symbols, d, e);
        },
        SP::RightShift(a, b) => {
            lemma_lowered_depth(*a, symbols, d, e);
            lemma_lowered_depth(*b, symbols, d, e);
        },
        SP::And(a, b) => {
            lemma_lowered_depth(*a, symbols, d, e);
            lemma_lowered_depth(*b, symbols, d, e);
        },
        SP::Or(a, b) => {
            lemma_lowered_depth(*a, symbols, d, e);
            lemma_lowered_depth(*b, symbols, d, e);
        },
        SP::Xor(a, b) => {
            lemma_lowered_depth(*a, symbols, d, e);
            lemma_lowered_depth(*b, symbols, d, e);
        },
        SP::Div(a, b) => {
            lemma_lowered_depth(*a, symbols, d, e);
            lemma_lowered_depth(*b, symbols, d, e);
        },
        SP::Minus(a) => {
            lemma_lowered_depth(*a, symbols, d, e);
        },
        SP::Not(a) => {
            lemma_lowered_depth(*a, symbols, d, e);
        },
        _ => {},
    }
}

} // verus!

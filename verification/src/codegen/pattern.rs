use vstd::prelude::*;

use crate::bits::{as_i64_pattern, reversed_bytes};
use crate::lifter::input::context_bytes_spec;
use crate::lifter::pattern::{
    append_bytes, cleared_node, context_acc, eval, eval_placed, field_value, find_ctor, has_operand,
    lemma_eval_pure, operand_node, shl_spec, shr_spec, token_acc, token_read, zero_path, OperandOffset, Outcome, ParseState, PatternExpression, ReadOnly,
};

verus! {

/// The expression that a generated lifter evaluates for a pattern
/// expression.  The reads of a field are unrolled into the positions and
/// widths read, in order; `Negate` is `-(x)`, `Complement` is `!(x)`, and
/// `Div` evaluates its divisor first and fails on zero.
#[derive(Debug, PartialEq, Eq)]
pub enum PatternCode {
    Constant(i64),
    Address,
    NextAddress,
    Next2Address,
    Token { parts: Vec<(usize, usize)>, swap: Option<usize>, shift: u32, sign: bool, range: usize },
    Context { parts: Vec<(usize, usize)>, shift: u32, sign: bool, range: usize },
    Operand { constructor: u32, offset: OperandOffset, value: Box<PatternCode> },
    And(Box<PatternCode>, Box<PatternCode>),
    Or(Box<PatternCode>, Box<PatternCode>),
    Xor(Box<PatternCode>, Box<PatternCode>),
    Plus(Box<PatternCode>, Box<PatternCode>),
    Sub(Box<PatternCode>, Box<PatternCode>),
    Mult(Box<PatternCode>, Box<PatternCode>),
    LeftShift(Box<PatternCode>, Box<PatternCode>),
    RightShift(Box<PatternCode>, Box<PatternCode>),
    Div(Box<PatternCode>, Box<PatternCode>),
    Negate(Box<PatternCode>),
    Complement(Box<PatternCode>),
}

/// A generated expression as values.
pub enum CodeView {
    Constant(i64),
    Address,
    NextAddress,
    Next2Address,
    Token { parts: Seq<(usize, usize)>, swap: Option<usize>, shift: u32, sign: bool, range: usize },
    Context { parts: Seq<(usize, usize)>, shift: u32, sign: bool, range: usize },
    Operand { constructor: u32, offset: OperandOffset, value: Box<CodeView> },
    And(Box<CodeView>, Box<CodeView>),
    Or(Box<CodeView>, Box<CodeView>),
    Xor(Box<CodeView>, Box<CodeView>),
    Plus(Box<CodeView>, Box<CodeView>),
    Sub(Box<CodeView>, Box<CodeView>),
    Mult(Box<CodeView>, Box<CodeView>),
    LeftShift(Box<CodeView>, Box<CodeView>),
    RightShift(Box<CodeView>, Box<CodeView>),
    Div(Box<CodeView>, Box<CodeView>),
    Negate(Box<CodeView>),
    Complement(Box<CodeView>),
}

/// The generated expression `c` as values.
pub open spec fn code_view(c: PatternCode) -> CodeView
    decreases c,
{
    match c {
        PatternCode::Constant(v) => CodeView::Constant(v),
        PatternCode::Address => CodeView::Address,
        PatternCode::NextAddress => CodeView::NextAddress,
        PatternCode::Next2Address => CodeView::Next2Address,
        PatternCode::Token { parts, swap, shift, sign, range } => CodeView::Token {
            parts: parts@,
            swap,
            shift,
            sign,
            range,
        },
        PatternCode::Context { parts, shift, sign, range } => CodeView::Context { parts: parts@, shift, sign, range },
        PatternCode::Operand { constructor, offset, value } => CodeView::Operand {
            constructor,
            offset,
            value: Box::new(code_view(*value)),
        },
        PatternCode::And(l, r) => CodeView::And(Box::new(code_view(*l)), Box::new(code_view(*r))),
        PatternCode::Or(l, r) => CodeView::Or(Box::new(code_view(*l)), Box::new(code_view(*r))),
        PatternCode::Xor(l, r) => CodeView::Xor(Box::new(code_view(*l)), Box::new(code_view(*r))),
        PatternCode::Plus(l, r) => CodeView::Plus(Box::new(code_view(*l)), Box::new(code_view(*r))),
        PatternCode::Sub(l, r) => CodeView::Sub(Box::new(code_view(*l)), Box::new(code_view(*r))),
        PatternCode::Mult(l, r) => CodeView::Mult(Box::new(code_view(*l)), Box::new(code_view(*r))),
        PatternCode::LeftShift(l, r) => CodeView::LeftShift(Box::new(code_view(*l)), Box::new(code_view(*r))),
        PatternCode::RightShift(l, r) => CodeView::RightShift(Box::new(code_view(*l)), Box::new(code_view(*r))),
        PatternCode::Div(l, r) => CodeView::Div(Box::new(code_view(*l)), Box::new(code_view(*r))),
        PatternCode::Negate(x) => CodeView::Negate(Box::new(code_view(*x))),
        PatternCode::Complement(x) => CodeView::Complement(Box::new(code_view(*x))),
    }
}

impl View for PatternCode {
    type V = CodeView;

    open spec fn view(&self) -> CodeView {
        code_view(*self)
    }
}

/// The reads of a field from the position `start` to `e` (both as `isize`
/// values), four bytes at a time and then the rest, each as its position
/// (the `usize` pattern of `start`) and width; `None` where generating them
/// overflows an `isize`.
pub open spec fn parts_from(start: int, e: int) -> Option<Seq<(usize, usize)>>
    decreases e - start + 1,
{
    let t = e - start + 1;
    if e - start < isize::MIN || t > isize::MAX {
        None
    } else if t >= 4 {
        if start + 4 > isize::MAX {
            None
        } else {
            match parts_from(start + 4, e) {
                None => None,
                Some(rest) => Some(seq![((start as usize), 4usize)] + rest),
            }
        }
    } else if t > 0 {
        Some(seq![((start as usize), (t as usize))])
    } else {
        Some(Seq::empty())
    }
}

/// The reads of a token field of `size` bytes from `byte_start` to
/// `byte_end`: the count is first taken as the `isize` pattern of `size`,
/// later ones as `byte_end - start + 1` (see `parts_from`).
pub open spec fn token_parts(byte_start: usize, byte_end: usize, size: usize) -> Option<Seq<(usize, usize)>> {
    let s = (byte_start as isize) as int;
    let e = (byte_end as isize) as int;
    let t = (size as isize) as int;
    if t >= 4 {
        if s + 4 > isize::MAX {
            None
        } else {
            match parts_from(s + 4, e) {
                None => None,
                Some(rest) => Some(seq![((s as usize), 4usize)] + rest),
            }
        }
    } else if t > 0 {
        Some(seq![((s as usize), (t as usize))])
    } else {
        Some(Seq::empty())
    }
}

/// The expression generated for `p`; `None` where generating it panics (a
/// field whose bytes or bits are out of order, or whose reads overflow an
/// `isize`).  An operand keeps its constructor, its offset and the
/// expression generated for its value.
pub open spec fn gen_code(p: PatternExpression) -> Option<CodeView>
    decreases p,
{
    match p {
        PatternExpression::Constant { value } => Some(CodeView::Constant(value)),
        PatternExpression::StartInstruction => Some(CodeView::Address),
        PatternExpression::EndInstruction => Some(CodeView::NextAddress),
        PatternExpression::Next2Instruction => Some(CodeView::Next2Address),
        PatternExpression::TokenField { big_endian, sign_bit, bit_start, bit_end, byte_start, byte_end, shift } => {
            if byte_end < byte_start || byte_end - byte_start + 1 > usize::MAX || bit_end < bit_start {
                None
            } else {
                let size = (byte_end - byte_start + 1) as usize;
                match token_parts(byte_start, byte_end, size) {
                    None => None,
                    Some(parts) => Some(
                        CodeView::Token {
                            parts,
                            swap: if big_endian {
                                None
                            } else {
                                Some(size)
                            },
                            shift,
                            sign: sign_bit,
                            range: (bit_end - bit_start) as usize,
                        },
                    ),
                }
            }
        },
        PatternExpression::ContextField { sign_bit, bit_start, bit_end, byte_start, byte_end, shift } => {
            if bit_end < bit_start {
                None
            } else {
                match parts_from((byte_start as isize) as int, (byte_end as isize) as int) {
                    None => None,
                    Some(parts) => Some(
                        CodeView::Context { parts, shift, sign: sign_bit, range: (bit_end - bit_start) as usize },
                    ),
                }
            }
        },
        PatternExpression::Operand { constructor, offset, value } => match gen_code(*value) {
            None => None,
            Some(v) => Some(CodeView::Operand { constructor, offset, value: Box::new(v) }),
        },
        PatternExpression::And(l, r) => match (gen_code(*l), gen_code(*r)) {
            (Some(a), Some(b)) => Some(CodeView::And(Box::new(a), Box::new(b))),
            _ => None,
        },
        PatternExpression::Or(l, r) => match (gen_code(*l), gen_code(*r)) {
            (Some(a), Some(b)) => Some(CodeView::Or(Box::new(a), Box::new(b))),
            _ => None,
        },
        PatternExpression::Xor(l, r) => match (gen_code(*l), gen_code(*r)) {
            (Some(a), Some(b)) => Some(CodeView::Xor(Box::new(a), Box::new(b))),
            _ => None,
        },
        PatternExpression::Plus(l, r) => match (gen_code(*l), gen_code(*r)) {
            (Some(a), Some(b)) => Some(CodeView::Plus(Box::new(a), Box::new(b))),
            _ => None,
        },
        PatternExpression::Sub(l, r) => match (gen_code(*l), gen_code(*r)) {
            (Some(a), Some(b)) => Some(CodeView::Sub(Box::new(a), Box::new(b))),
            _ => None,
        },
        PatternExpression::Mult(l, r) => match (gen_code(*l), gen_code(*r)) {
            (Some(a), Some(b)) => Some(CodeView::Mult(Box::new(a), Box::new(b))),
            _ => None,
        },
        PatternExpression::LeftShift(l, r) => match (gen_code(*l), gen_code(*r)) {
            (Some(a), Some(b)) => Some(CodeView::LeftShift(Box::new(a), Box::new(b))),
            _ => None,
        },
        PatternExpression::RightShift(l, r) => match (gen_code(*l), gen_code(*r)) {
            (Some(a), Some(b)) => Some(CodeView::RightShift(Box::new(a), Box::new(b))),
            _ => None,
        },
        PatternExpression::Div(l, r) => match (gen_code(*l), gen_code(*r)) {
            (Some(a), Some(b)) => Some(CodeView::Div(Box::new(a), Box::new(b))),
            _ => None,
        },
        PatternExpression::Not(x) => match gen_code(*x) {
            None => None,
            Some(a) => Some(CodeView::Negate(Box::new(a))),
        },
        PatternExpression::Minus(x) => match gen_code(*x) {
            None => None,
            Some(a) => Some(CodeView::Complement(Box::new(a))),
        },
    }
}

/// Appends the reads of a field from `start` to `e` (see `parts_from`).
fn push_parts_from(parts: &mut Vec<(usize, usize)>, start: isize, e: isize)
    requires
        parts_from(start as int, e as int) is Some,
    ensures
        final(parts)@ == old(parts)@ + parts_from(start as int, e as int)->0,
{
    let ghost s0 = start as int;
    let ghost p0 = parts@;
    let mut start = start;
    loop
        invariant_except_break
            parts_from(start as int, e as int) is Some,
            p0 + parts_from(s0, e as int)->0 == parts@ + parts_from(start as int, e as int)->0,
        ensures
            p0 + parts_from(s0, e as int)->0 == parts@,
        decreases e - start + 1,
    {
        let ghost before = parts@;
        let ghost rest = parts_from(start as int, e as int)->0;
        let t = e - start + 1;
        if t >= 4 {
            parts.push((start as usize, 4));
            let ghost later = parts_from(start + 4, e as int)->0;
            proof {
                assert(rest == seq![((start as usize), 4usize)] + later);
                assert(before + rest == parts@ + later);
            }
            start = start + 4;
        } else {
            if t > 0 {
                parts.push((start as usize, t as usize));
                proof {
                    assert(before + rest == parts@);
                }
            } else {
                proof {
                    assert(parts@ + rest == parts@);
                }
            }
            proof {
                assert(p0 + parts_from(s0, e as int)->0 == parts@);
            }
            break;
        }
    }
}

/// Generates the expression that a lifter evaluates for `pattern` (see
/// `gen_code`): the reads of a field are unrolled, and the other
/// expressions keep their shape.
pub fn generate_pattern_resolver(pattern: &PatternExpression) -> (r: PatternCode)
    requires
        gen_code(*pattern) is Some,
    ensures
        r@ == gen_code(*pattern)->0,
    decreases pattern,
{
    match pattern {
        PatternExpression::Constant { value } => PatternCode::Constant(*value),
        PatternExpression::StartInstruction => PatternCode::Address,
        PatternExpression::EndInstruction => PatternCode::NextAddress,
        PatternExpression::Next2Instruction => PatternCode::Next2Address,
        PatternExpression::TokenField { big_endian, sign_bit, bit_start, bit_end, byte_start, byte_end, shift } => {
            let size = *byte_end - *byte_start + 1;
            let s = *byte_start as isize;
            let e = *byte_end as isize;
            let t = size as isize;
            let mut parts: Vec<(usize, usize)> = Vec::new();
            if t >= 4 {
                parts.push((s as usize, 4));
                push_parts_from(&mut parts, s + 4, e);
            } else if t > 0 {
                parts.push((s as usize, t as usize));
            }
            proof {
                assert(parts@ == token_parts(*byte_start, *byte_end, size)->0);
            }
            PatternCode::Token {
                parts,
                swap: if *big_endian {
                    None
                } else {
                    Some(size)
                },
                shift: *shift,
                sign: *sign_bit,
                range: *bit_end - *bit_start,
            }
        },
        PatternExpression::ContextField { sign_bit, bit_start, bit_end, byte_start, byte_end, shift } => {
            let s = *byte_start as isize;
            let e = *byte_end as isize;
            let mut parts: Vec<(usize, usize)> = Vec::new();
            push_parts_from(&mut parts, s, e);
            proof {
                assert(parts@ == parts_from(s as int, e as int)->0);
            }
            PatternCode::Context { parts, shift: *shift, sign: *sign_bit, range: *bit_end - *bit_start }
        },
        PatternExpression::Operand { constructor, offset, value } => PatternCode::Operand {
            constructor: *constructor,
            offset: *offset,
            value: Box::new(generate_pattern_resolver(value)),
        },
        PatternExpression::And(l, r) => PatternCode::And(
            Box::new(generate_pattern_resolver(l)),
            Box::new(generate_pattern_resolver(r)),
        ),
        PatternExpression::Or(l, r) => PatternCode::Or(
            Box::new(generate_pattern_resolver(l)),
            Box::new(generate_pattern_resolver(r)),
        ),
        PatternExpression::Xor(l, r) => PatternCode::Xor(
            Box::new(generate_pattern_resolver(l)),
            Box::new(generate_pattern_resolver(r)),
        ),
        PatternExpression::Plus(l, r) => PatternCode::Plus(
            Box::new(generate_pattern_resolver(l)),
            Box::new(generate_pattern_resolver(r)),
        ),
        PatternExpression::Sub(l, r) => PatternCode::Sub(
            Box::new(generate_pattern_resolver(l)),
            Box::new(generate_pattern_resolver(r)),
        ),
        PatternExpression::Mult(l, r) => PatternCode::Mult(
            Box::new(generate_pattern_resolver(l)),
            Box::new(generate_pattern_resolver(r)),
        ),
        PatternExpression::LeftShift(l, r) => PatternCode::LeftShift(
            Box::new(generate_pattern_resolver(l)),
            Box::new(generate_pattern_resolver(r)),
        ),
        PatternExpression::RightShift(l, r) => PatternCode::RightShift(
            Box::new(generate_pattern_resolver(l)),
            Box::new(generate_pattern_resolver(r)),
        ),
        PatternExpression::Div(l, r) => PatternCode::Div(
            Box::new(generate_pattern_resolver(l)),
            Box::new(generate_pattern_resolver(r)),
        ),
        PatternExpression::Not(x) => PatternCode::Negate(Box::new(generate_pattern_resolver(x))),
        PatternExpression::Minus(x) => PatternCode::Complement(Box::new(generate_pattern_resolver(x))),
    }
}

/// The reads of a token field at the positions and widths `parts` onto
/// `acc`: `Some(None)` where a read is past the buffer, `None` where its
/// position overflows (such a read panics).
pub open spec fn token_fold(buffer: Seq<u8>, offset: int, parts: Seq<(usize, usize)>, acc: i64) -> Option<
    Option<i64>,
>
    decreases parts.len(),
{
    if parts.len() == 0 {
        Some(Some(acc))
    } else {
        match token_read(buffer, offset, parts[0].0 as int, parts[0].1 as int) {
            None => None,
            Some(None) => Some(None),
            Some(Some(tmp)) => token_fold(buffer, offset, parts.drop_first(), append_bytes(acc, tmp, parts[0].1 as int)),
        }
    }
}

/// The reads of a context field at the positions and widths `parts` onto
/// `acc`; `None` where a read is past the context (such a read panics).
pub open spec fn context_fold(ctx: Seq<u32>, parts: Seq<(usize, usize)>, acc: i64) -> Option<i64>
    decreases parts.len(),
{
    if parts.len() == 0 {
        Some(acc)
    } else if parts[0].0 / 4 >= ctx.len() {
        None
    } else {
        context_fold(
            ctx,
            parts.drop_first(),
            append_bytes(acc, context_bytes_spec(ctx, parts[0].0 as int, parts[0].1 as int), parts[0].1 as int),
        )
    }
}

/// `a` shifted right by `b` taken as a byte; past 63 the sign of `a2` (the
/// left side evaluated again) is given.
pub open spec fn shr_code(a: i64, b: i64, a2: i64) -> i64 {
    let k = (b as u8) as u32;
    if k >= 64 {
        if a2 < 0 {
            -1i64
        } else {
            0i64
        }
    } else {
        a >> k
    }
}

/// Division rounding toward zero, `i64::MIN / -1` giving `i64::MIN`.
pub open spec fn wrapping_div_spec(a: i64, b: i64) -> i64 {
    if a == i64::MIN && b == -1 {
        i64::MIN
    } else {
        let q = (if a < 0 { -a } else { a as int }) / (if b < 0 { -b } else { b as int });
        (if (a < 0) != (b < 0) { -q } else { q }) as i64
    }
}

/// The outcome of the generated expression `value` of an operand whose
/// constructor is placed at the next free place (as `eval_placed`).
pub open spec fn code_eval_placed(
    value: CodeView,
    ctor: u32,
    ofs: u8,
    len: u8,
    st: ParseState,
    ro: ReadOnly,
) -> (Outcome, ParseState)
    decreases value, 1int,
{
    let alloc = ro.3;
    if alloc as int >= st.0.len() {
        (None, st)
    } else {
        let st1 = (st.0.update(alloc as int, operand_node(ctor, ofs, len)), alloc, 0i8, zero_path());
        let (o, s2) = code_eval(value, st1, ro);
        match o {
            Some(Some(v)) => if s2.1 as int >= s2.0.len() {
                (None, s2)
            } else {
                (Some(Some(v)), (s2.0.update(s2.1 as int, cleared_node()), st.1, st.2, st.3))
            },
            _ => (o, s2),
        }
    }
}

/// The outcome of running the generated expression `c` in the state `st`,
/// and the state after (as `eval` reads a pattern expression): `None`
/// where the generated code panics, `Some(None)` where it returns `None`.
pub open spec fn code_eval(c: CodeView, st: ParseState, ro: ReadOnly) -> (Outcome, ParseState)
    decreases c, 0int,
{
    match c {
        CodeView::Constant(v) => (Some(Some(v)), st),
        CodeView::Address => (Some(Some(ro.4.address as i64)), st),
        CodeView::NextAddress => (Some(Some(ro.4.next_address as i64)), st),
        CodeView::Next2Address => (
            Some(
                match ro.4.next2_address {
                    Some(v) => Some(v as i64),
                    None => None,
                },
            ),
            st,
        ),
        CodeView::Token { parts, swap, shift, sign, range } => match token_fold(ro.0, ro.2 as int, parts, 0) {
            None => (None, st),
            Some(None) => (Some(None), st),
            Some(Some(res)) => {
                let res2 = match swap {
                    Some(n) => as_i64_pattern(reversed_bytes(res as int, n as nat)) as i64,
                    None => res,
                };
                (Some(Some(field_value(res2, shift, sign, range))), st)
            },
        },
        CodeView::Context { parts, shift, sign, range } => match context_fold(ro.1, parts, 0) {
            None => (None, st),
            Some(res) => (Some(Some(field_value(res, shift, sign, range))), st),
        },
        CodeView::Operand { constructor, offset, value } => {
            let nodes = st.0;
            match find_ctor(nodes, st.1 as int, st.2 as int, constructor) {
                None => (None, st),
                Some(None) => code_eval_placed(*value, constructor, 0, 0, st, ro),
                Some(Some(pt)) => {
                    let pnode = nodes[pt];
                    match offset {
                        OperandOffset::Relative(o) => if pnode.offset + o > u8::MAX {
                            (None, st)
                        } else {
                            code_eval_placed(*value, constructor, (pnode.offset + o) as u8, pnode.length, st, ro)
                        },
                        OperandOffset::Operand(i) => if pnode.operands + i >= nodes.len() {
                            (None, st)
                        } else {
                            code_eval_placed(*value, constructor, nodes[pnode.operands + i].offset, pnode.length, st, ro)
                        },
                    }
                },
            }
        },
        CodeView::And(l, r) => {
            let (ol, s1) = code_eval(*l, st, ro);
            match ol {
                Some(Some(a)) => {
                    let (or, s2) = code_eval(*r, s1, ro);
                    match or {
                        Some(Some(b)) => (Some(Some(a & b)), s2),
                        _ => (or, s2),
                    }
                },
                _ => (ol, s1),
            }
        },
        CodeView::Or(l, r) => {
            let (ol, s1) = code_eval(*l, st, ro);
            match ol {
                Some(Some(a)) => {
                    let (or, s2) = code_eval(*r, s1, ro);
                    match or {
                        Some(Some(b)) => (Some(Some(a | b)), s2),
                        _ => (or, s2),
                    }
                },
                _ => (ol, s1),
            }
        },
        CodeView::Xor(l, r) => {
            let (ol, s1) = code_eval(*l, st, ro);
            match ol {
                Some(Some(a)) => {
                    let (or, s2) = code_eval(*r, s1, ro);
                    match or {
                        Some(Some(b)) => (Some(Some(a ^ b)), s2),
                        _ => (or, s2),
                    }
                },
                _ => (ol, s1),
            }
        },
        CodeView::Plus(l, r) => {
            let (ol, s1) = code_eval(*l, st, ro);
            match ol {
                Some(Some(a)) => {
                    let (or, s2) = code_eval(*r, s1, ro);
                    match or {
                        Some(Some(b)) => (Some(Some(vstd::wrapping::i64_specs::wrapping_add(a, b))), s2),
                        _ => (or, s2),
                    }
                },
                _ => (ol, s1),
            }
        },
        CodeView::Sub(l, r) => {
            let (ol, s1) = code_eval(*l, st, ro);
            match ol {
                Some(Some(a)) => {
                    let (or, s2) = code_eval(*r, s1, ro);
                    match or {
                        Some(Some(b)) => (Some(Some(vstd::wrapping::i64_specs::wrapping_sub(a, b))), s2),
                        _ => (or, s2),
                    }
                },
                _ => (ol, s1),
            }
        },
        CodeView::Mult(l, r) => {
            let (ol, s1) = code_eval(*l, st, ro);
            match ol {
                Some(Some(a)) => {
                    let (or, s2) = code_eval(*r, s1, ro);
                    match or {
                        Some(Some(b)) => (Some(Some(vstd::wrapping::i64_specs::wrapping_mul(a, b))), s2),
                        _ => (or, s2),
                    }
                },
                _ => (ol, s1),
            }
        },
        CodeView::LeftShift(l, r) => {
            let (ol, s1) = code_eval(*l, st, ro);
            match ol {
                Some(Some(a)) => {
                    let (or, s2) = code_eval(*r, s1, ro);
                    match or {
                        Some(Some(b)) => (Some(Some(shl_spec(a, b))), s2),
                        _ => (or, s2),
                    }
                },
                _ => (ol, s1),
            }
        },
        CodeView::RightShift(l, r) => {
            let (ol, s1) = code_eval(*l, st, ro);
            match ol {
                Some(Some(a)) => {
                    let (or, s2) = code_eval(*r, s1, ro);
                    match or {
                        Some(Some(b)) => {
                            let (ol2, s3) = code_eval(*l, s2, ro);
                            match ol2 {
                                Some(Some(a2)) => (Some(Some(shr_code(a, b, a2))), s3),
                                _ => (ol2, s3),
                            }
                        },
                        _ => (or, s2),
                    }
                },
                _ => (ol, s1),
            }
        },
        CodeView::Div(l, r) => {
            let (or, s1) = code_eval(*r, st, ro);
            match or {
                Some(Some(b)) => if b == 0 {
                    (Some(None), s1)
                } else {
                    let (ol, s2) = code_eval(*l, s1, ro);
                    match ol {
                        Some(Some(a)) => (Some(Some(wrapping_div_spec(a, b))), s2),
                        _ => (ol, s2),
                    }
                },
                _ => (or, s1),
            }
        },
        CodeView::Negate(x) => {
            let (o, s1) = code_eval(*x, st, ro);
            match o {
                Some(Some(a)) => (if a == i64::MIN { None } else { Some(Some((-a) as i64)) }, s1),
                _ => (o, s1),
            }
        },
        CodeView::Complement(x) => {
            let (o, s1) = code_eval(*x, st, ro);
            match o {
                Some(Some(a)) => (Some(Some(!a)), s1),
                _ => (o, s1),
            }
        },
    }
}

/// An expression that reads no operand evaluates to the same outcome in
/// any state.
proof fn lemma_eval_value_free(e: PatternExpression, st1: ParseState, st2: ParseState, ro: ReadOnly)
    requires
        !has_operand(e),
    ensures
        eval(e, st1, ro).0 == eval(e, st2, ro).0,
    decreases e,
{
    match e {
        PatternExpression::And(l, r) => {
            lemma_eval_value_free(*l, st1, st2, ro);
            lemma_eval_pure(*l, st1, ro);
            lemma_eval_pure(*l, st2, ro);
            lemma_eval_value_free(*r, st1, st2, ro);
        },
        PatternExpression::Or(l, r) => {
            lemma_eval_value_free(*l, st1, st2, ro);
            lemma_eval_pure(*l, st1, ro);
            lemma_eval_pure(*l, st2, ro);
            lemma_eval_value_free(*r, st1, st2, ro);
        },
        PatternExpression::Xor(l, r) => {
            lemma_eval_value_free(*l, st1, st2, ro);
            lemma_eval_pure(*l, st1, ro);
            lemma_eval_pure(*l, st2, ro);
            lemma_eval_value_free(*r, st1, st2, ro);
        },
        PatternExpression::Plus(l, r) => {
            lemma_eval_value_free(*l, st1, st2, ro);
            lemma_eval_pure(*l, st1, ro);
            lemma_eval_pure(*l, st2, ro);
            lemma_eval_value_free(*r, st1, st2, ro);
        },
        PatternExpression::Sub(l, r) => {
            lemma_eval_value_free(*l, st1, st2, ro);
            lemma_eval_pure(*l, st1, ro);
            lemma_eval_pure(*l, st2, ro);
            lemma_eval_value_free(*r, st1, st2, ro);
        },
        PatternExpression::Mult(l, r) => {
            lemma_eval_value_free(*l, st1, st2, ro);
            lemma_eval_pure(*l, st1, ro);
            lemma_eval_pure(*l, st2, ro);
            lemma_eval_value_free(*r, st1, st2, ro);
        },
        PatternExpression::LeftShift(l, r) => {
            lemma_eval_value_free(*l, st1, st2, ro);
            lemma_eval_pure(*l, st1, ro);
            lemma_eval_pure(*l, st2, ro);
            lemma_eval_value_free(*r, st1, st2, ro);
        },
        PatternExpression::RightShift(l, r) => {
            lemma_eval_value_free(*l, st1, st2, ro);
            lemma_eval_pure(*l, st1, ro);
            lemma_eval_pure(*l, st2, ro);
            lemma_eval_value_free(*r, st1, st2, ro);
        },
        PatternExpression::Div(l, r) => {
            lemma_eval_value_free(*l, st1, st2, ro);
            lemma_eval_pure(*l, st1, ro);
            lemma_eval_pure(*l, st2, ro);
            lemma_eval_value_free(*r, st1, st2, ro);
        },
        PatternExpression::Minus(x) => lemma_eval_value_free(*x, st1, st2, ro),
        PatternExpression::Not(x) => lemma_eval_value_free(*x, st1, st2, ro),
        _ => {},
    }
}

/// Folding the reads from `start` to `e` reads what `token_acc` reads, for
/// positions within `isize`.
proof fn lemma_token_fold_from(buffer: Seq<u8>, offset: int, start: int, e: int, acc: i64)
    requires
        0 <= start,
        e <= isize::MAX,
        parts_from(start, e) is Some,
    ensures
        token_fold(buffer, offset, parts_from(start, e)->0, acc) == token_acc(buffer, offset, start, e, acc),
    decreases e - start + 1,
{
    let t = e - start + 1;
    let ps = parts_from(start, e)->0;
    if t >= 4 {
        assert((start as usize) as int == start);
        let rest = parts_from(start + 4, e)->0;
        assert(ps[0] == ((start as usize), 4usize));
        assert(ps.drop_first() == rest);
        match token_read(buffer, offset, start, 4) {
            Some(Some(tmp)) => lemma_token_fold_from(buffer, offset, start + 4, e, append_bytes(acc, tmp, 4)),
            _ => {},
        }
    } else if t > 0 {
        assert((start as usize) as int == start);
        assert((t as usize) as int == t);
        assert(ps[0] == ((start as usize), (t as usize)));
        assert(ps.drop_first().len() == 0);
        match token_read(buffer, offset, start, t) {
            Some(Some(tmp)) => {
                assert(token_fold(buffer, offset, ps.drop_first(), append_bytes(acc, tmp, t)) == Some(
                    Some(append_bytes(acc, tmp, t)),
                ));
            },
            _ => {},
        }
    } else {
        assert(ps.len() == 0);
    }
}

/// Folding the context reads from `start` to `e` reads what `context_acc`
/// reads.
proof fn lemma_context_fold_from(ctx: Seq<u32>, start: int, e: int, acc: i64)
    requires
        parts_from(start, e) is Some,
    ensures
        context_fold(ctx, parts_from(start, e)->0, acc) == context_acc(ctx, start, e, acc),
    decreases e - start + 1,
{
    let t = e - start + 1;
    let ps = parts_from(start, e)->0;
    if t >= 4 {
        let rest = parts_from(start + 4, e)->0;
        assert(ps[0] == ((start as usize), 4usize));
        assert(ps.drop_first() == rest);
        let u = (start as usize) as int;
        if u / 4 < ctx.len() {
            lemma_context_fold_from(ctx, start + 4, e, append_bytes(acc, context_bytes_spec(ctx, u, 4), 4));
        }
    } else if t > 0 {
        assert((t as usize) as int == t);
        assert(ps[0] == ((start as usize), (t as usize)));
        assert(ps.drop_first().len() == 0);
        let u = (start as usize) as int;
        if u / 4 < ctx.len() {
            let x = append_bytes(acc, context_bytes_spec(ctx, u, t), t);
            assert(context_fold(ctx, ps.drop_first(), x) == Some(x));
            assert(context_fold(ctx, ps, acc) == Some(x));
        }
    } else {
        assert(ps.len() == 0);
    }
}

/// Whether the generated code for `p` is shown to compute what `eval`
/// computes for it: no division, negation or complement (whose generated
/// code differs from `eval`), no operand on the left of a right shift
/// (whose generated code evaluates that side twice), and every token field
/// ending below `isize::MAX`.
pub open spec fn code_agrees(p: PatternExpression) -> bool
    decreases p,
{
    match p {
        PatternExpression::TokenField { byte_end, .. } => byte_end < isize::MAX,
        PatternExpression::Div(..) | PatternExpression::Not(..) | PatternExpression::Minus(..) => false,
        PatternExpression::Operand { value, .. } => code_agrees(*value),
        PatternExpression::RightShift(l, r) => !has_operand(*l) && code_agrees(*l) && code_agrees(*r),
        PatternExpression::And(l, r) => code_agrees(*l) && code_agrees(*r),
        PatternExpression::Or(l, r) => code_agrees(*l) && code_agrees(*r),
        PatternExpression::Xor(l, r) => code_agrees(*l) && code_agrees(*r),
        PatternExpression::Plus(l, r) => code_agrees(*l) && code_agrees(*r),
        PatternExpression::Sub(l, r) => code_agrees(*l) && code_agrees(*r),
        PatternExpression::Mult(l, r) => code_agrees(*l) && code_agrees(*r),
        PatternExpression::LeftShift(l, r) => code_agrees(*l) && code_agrees(*r),
        _ => true,
    }
}

/// The generated code of an operand's value, with its constructor placed,
/// computes what `eval_placed` computes.
proof fn lemma_generated_placed_agrees(
    value: PatternExpression,
    ctor: u32,
    ofs: u8,
    len: u8,
    st: ParseState,
    ro: ReadOnly,
)
    requires
        gen_code(value) is Some,
        code_agrees(value),
    ensures
        code_eval_placed(gen_code(value)->0, ctor, ofs, len, st, ro) == eval_placed(value, ctor, ofs, len, st, ro),
    decreases value, 2int,
{
    let alloc = ro.3;
    if (alloc as int) < st.0.len() {
        let st1 = (st.0.update(alloc as int, operand_node(ctor, ofs, len)), alloc, 0i8, zero_path());
        lemma_generated_code_agrees(value, st1, ro);
    }
}

/// The code generated for a token field ending within `isize` reads what
/// `eval` reads.
proof fn lemma_token_code_agrees(p: PatternExpression, st: ParseState, ro: ReadOnly)
    requires
        p is TokenField,
        gen_code(p) is Some,
        code_agrees(p),
    ensures
        code_eval(gen_code(p)->0, st, ro) == eval(p, st, ro),
{
    match p {
        PatternExpression::TokenField { big_endian, sign_bit, bit_start, bit_end, byte_start, byte_end, shift } => {
            let size = (byte_end - byte_start + 1) as usize;
            let bs = byte_start as int;
            let be = byte_end as int;
            assert((byte_start as isize) as int == bs);
            assert((byte_end as isize) as int == be);
            assert((size as isize) as int == size);
            let ps = token_parts(byte_start, byte_end, size)->0;
            let buf = ro.0;
            let ofs = ro.2 as int;
            assert((bs as usize) as int == bs);
            if size >= 4 {
                assert(ps[0] == ((bs as usize), 4usize));
                assert(ps.drop_first() == parts_from(bs + 4, be)->0);
                match token_read(buf, ofs, bs, 4) {
                    Some(Some(tmp)) => {
                        lemma_token_fold_from(buf, ofs, bs + 4, be, append_bytes(0, tmp, 4));
                        assert(token_fold(buf, ofs, ps, 0) == token_fold(
                            buf,
                            ofs,
                            ps.drop_first(),
                            append_bytes(0, tmp, 4),
                        ));
                    },
                    _ => {},
                }
            } else {
                assert((size as usize) as int == size);
                assert(ps[0] == ((bs as usize), (size as usize)));
                assert(ps.drop_first().len() == 0);
                match token_read(buf, ofs, bs, size as int) {
                    Some(Some(tmp)) => {
                        assert(token_fold(buf, ofs, ps.drop_first(), append_bytes(0, tmp, size as int)) == Some(
                            Some(append_bytes(0, tmp, size as int)),
                        ));
                    },
                    _ => {},
                }
            }
            assert(token_fold(buf, ofs, ps, 0) == token_acc(buf, ofs, bs, be, 0));
        },
        _ => {},
    }
}

/// The code generated for an operand computes what `eval` computes.
proof fn lemma_operand_code_agrees(p: PatternExpression, st: ParseState, ro: ReadOnly)
    requires
        p is Operand,
        gen_code(p) is Some,
        code_agrees(p),
    ensures
        code_eval(gen_code(p)->0, st, ro) == eval(p, st, ro),
    decreases p, 0int,
{
    match p {
        PatternExpression::Operand { constructor, offset, value } => {
            let nodes = st.0;
            match find_ctor(nodes, st.1 as int, st.2 as int, constructor) {
                None => {},
                Some(None) => lemma_generated_placed_agrees(*value, constructor, 0, 0, st, ro),
                Some(Some(pt)) => {
                    let pnode = nodes[pt];
                    match offset {
                        OperandOffset::Relative(o) => if pnode.offset + o <= u8::MAX {
                            lemma_generated_placed_agrees(
                                *value,
                                constructor,
                                (pnode.offset + o) as u8,
                                pnode.length,
                                st,
                                ro,
                            );
                        },
                        OperandOffset::Operand(i) => if pnode.operands + i < nodes.len() {
                            lemma_generated_placed_agrees(
                                *value,
                                constructor,
                                nodes[pnode.operands + i].offset,
                                pnode.length,
                                st,
                                ro,
                            );
                        },
                    }
                },
            }
        },
        _ => {},
    }
}

/// The code generated for a binary expression other than a right shift or a division computes what `eval` computes.
#[verifier::spinoff_prover]
#[verifier::rlimit(100)]
proof fn lemma_binary_code_agrees(p: PatternExpression, st: ParseState, ro: ReadOnly)
    requires
        p is And || p is Or || p is Xor || p is Plus || p is Sub || p is Mult || p is LeftShift,
        gen_code(p) is Some,
        code_agrees(p),
    ensures
        code_eval(gen_code(p)->0, st, ro) == eval(p, st, ro),
    decreases p, 0int,
{
    match p {
        PatternExpression::And(l, r) => {
            lemma_generated_code_agrees(*l, st, ro);
            lemma_generated_code_agrees(*r, eval(*l, st, ro).1, ro);
        },
        PatternExpression::Or(l, r) => {
            lemma_generated_code_agrees(*l, st, ro);
            lemma_generated_code_agrees(*r, eval(*l, st, ro).1, ro);
        },
        PatternExpression::Xor(l, r) => {
            lemma_generated_code_agrees(*l, st, ro);
            lemma_generated_code_agrees(*r, eval(*l, st, ro).1, ro);
        },
        PatternExpression::Plus(l, r) => {
            lemma_generated_code_agrees(*l, st, ro);
            lemma_generated_code_agrees(*r, eval(*l, st, ro).1, ro);
        },
        PatternExpression::Sub(l, r) => {
            lemma_generated_code_agrees(*l, st, ro);
            lemma_generated_code_agrees(*r, eval(*l, st, ro).1, ro);
        },
        PatternExpression::Mult(l, r) => {
            lemma_generated_code_agrees(*l, st, ro);
            lemma_generated_code_agrees(*r, eval(*l, st, ro).1, ro);
        },
        PatternExpression::LeftShift(l, r) => {
            lemma_generated_code_agrees(*l, st, ro);
            lemma_generated_code_agrees(*r, eval(*l, st, ro).1, ro);
        },
        _ => {},
    }
}

/// The code generated for a right shift, whose left side reads no operand, computes what `eval` computes.
proof fn lemma_shr_code_agrees(p: PatternExpression, st: ParseState, ro: ReadOnly)
    requires
        p is RightShift,
        gen_code(p) is Some,
        code_agrees(p),
    ensures
        code_eval(gen_code(p)->0, st, ro) == eval(p, st, ro),
    decreases p, 0int,
{
    match p {
        PatternExpression::RightShift(l, r) => {
            lemma_generated_code_agrees(*l, st, ro);
            let s1 = eval(*l, st, ro).1;
            lemma_generated_code_agrees(*r, s1, ro);
            let s2 = eval(*r, s1, ro).1;
            lemma_generated_code_agrees(*l, s2, ro);
            lemma_eval_value_free(*l, st, s2, ro);
            lemma_eval_pure(*l, s2, ro);
        },
        _ => {},
    }
}

/// The code generated for a pattern expression computes, in every state,
/// what evaluating the expression computes (see `code_agrees` for the
/// expressions this is shown of).
pub proof fn lemma_generated_code_agrees(p: PatternExpression, st: ParseState, ro: ReadOnly)
    requires
        gen_code(p) is Some,
        code_agrees(p),
    ensures
        code_eval(gen_code(p)->0, st, ro) == eval(p, st, ro),
    decreases p, 1int,
{
    match p {
        PatternExpression::TokenField { .. } => lemma_token_code_agrees(p, st, ro),
        PatternExpression::ContextField { byte_start, byte_end, .. } => {
            lemma_context_fold_from(ro.1, (byte_start as isize) as int, (byte_end as isize) as int, 0);
        },
        PatternExpression::Operand { .. } => lemma_operand_code_agrees(p, st, ro),
        PatternExpression::RightShift(..) => lemma_shr_code_agrees(p, st, ro),
        PatternExpression::And(..)
        | PatternExpression::Or(..)
        | PatternExpression::Xor(..)
        | PatternExpression::Plus(..)
        | PatternExpression::Sub(..)
        | PatternExpression::Mult(..)
        | PatternExpression::LeftShift(..) => lemma_binary_code_agrees(p, st, ro),
        _ => {},
    }
}
} // verus!

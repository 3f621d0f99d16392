use vstd::prelude::*;

use vstd::arithmetic::power2::{lemma2_to64_rest, lemma_pow2_pos, lemma_pow2_strictly_increases, pow2};

use crate::bits::{shift_of, zero_extend, zero_extend_spec};
use crate::sleigh::deserialise::{
    bool_attr, num_attr, num_attr_or, same_result, DeserialiseError, XmlElement,
};
use crate::text::str_eq;

verus! {

/// An expression over the fields of an instruction and its context, as a
/// processor description writes it.
#[derive(Debug, PartialEq, Eq)]
pub enum PatternExpression {
    TokenField {
        big_endian: bool,
        sign_bit: bool,
        bit_start: usize,
        bit_end: usize,
        byte_start: usize,
        byte_end: usize,
        shift: u32,
    },
    ContextField {
        sign_bit: bool,
        bit_start: usize,
        bit_end: usize,
        byte_start: usize,
        byte_end: usize,
        shift: u32,
    },
    Constant { value: i64 },
    Operand { index: usize, table_id: usize, constructor_id: usize },
    StartInstruction,
    EndInstruction,
    Next2Instruction,
    Plus(Box<PatternExpression>, Box<PatternExpression>),
    Sub(Box<PatternExpression>, Box<PatternExpression>),
    Mult(Box<PatternExpression>, Box<PatternExpression>),
    LeftShift(Box<PatternExpression>, Box<PatternExpression>),
    RightShift(Box<PatternExpression>, Box<PatternExpression>),
    And(Box<PatternExpression>, Box<PatternExpression>),
    Or(Box<PatternExpression>, Box<PatternExpression>),
    Xor(Box<PatternExpression>, Box<PatternExpression>),
    Div(Box<PatternExpression>, Box<PatternExpression>),
    Minus(Box<PatternExpression>),
    Not(Box<PatternExpression>),
}

/// Whether the bit range of a field expression is ordered (`bit_start` is
/// not past `bit_end`); other expressions have none.
pub open spec fn bits_ordered(e: &PatternExpression) -> bool {
    match *e {
        PatternExpression::TokenField { bit_start, bit_end, .. } => bit_start <= bit_end,
        PatternExpression::ContextField { bit_start, bit_end, .. } => bit_start <= bit_end,
        _ => true,
    }
}

/// The smallest value an expression can take, where that is known: zero
/// for fields and addresses, the value of a constant.
pub open spec fn min_value_of(e: &PatternExpression) -> Option<i64> {
    match *e {
        PatternExpression::TokenField { .. }
        | PatternExpression::ContextField { .. }
        | PatternExpression::StartInstruction
        | PatternExpression::EndInstruction
        | PatternExpression::Next2Instruction => Some(0i64),
        PatternExpression::Constant { value } => Some(value),
        _ => None,
    }
}

/// The largest value an expression can take, where that is known: for a
/// field, its bits all set (see `zero_extend_spec`); zero for addresses;
/// the value of a constant.
pub open spec fn max_value_of(e: &PatternExpression) -> Option<i64> {
    match *e {
        PatternExpression::TokenField { bit_start, bit_end, .. }
        | PatternExpression::ContextField { bit_start, bit_end, .. } => Some(
            zero_extend_spec(-1, shift_of((bit_end - bit_start) as usize)) as i64,
        ),
        PatternExpression::StartInstruction
        | PatternExpression::EndInstruction
        | PatternExpression::Next2Instruction => Some(0i64),
        PatternExpression::Constant { value } => Some(value),
        _ => None,
    }
}

/// Whether a field expression is narrower than 64 bits, its width being
/// taken as `zero_extend` takes it; other expressions are.
pub open spec fn narrow_field(e: &PatternExpression) -> bool {
    match *e {
        PatternExpression::TokenField { bit_start, bit_end, .. }
        | PatternExpression::ContextField { bit_start, bit_end, .. } => shift_of(
            (bit_end - bit_start) as usize,
        ) < 63,
        _ => true,
    }
}

/// The bounds of an expression are known together, and the smallest is no
/// larger than the largest: a field has a non-negative largest value.
pub proof fn lemma_value_bounds(e: &PatternExpression)
    requires
        bits_ordered(e),
        narrow_field(e),
    ensures
        min_value_of(e) is Some <==> max_value_of(e) is Some,
        min_value_of(e) is Some ==> min_value_of(e)->0 <= max_value_of(e)->0,
{
    match *e {
        PatternExpression::TokenField { bit_start, bit_end, .. }
        | PatternExpression::ContextField { bit_start, bit_end, .. } => {
            let s = shift_of((bit_end - bit_start) as usize);
            let m = pow2(s + 1) as int;
            lemma_pow2_pos(s + 1);
            if s + 1 < 63 {
                lemma_pow2_strictly_increases(s + 1, 63);
            }
            lemma2_to64_rest();
            assert(0 < m <= 0x8000_0000_0000_0000);
            vstd::arithmetic::div_mod::lemma_fundamental_div_mod_converse_mod(-1, m, -1, m - 1);
            assert(zero_extend_spec(-1, s) == m - 1);
        },
        _ => {},
    }
}

/// Which binary operator the tag `t` names: 0 to 8 in the order plus,
/// sub, mult, lshift, rshift, and, or, xor, div; -1 for none.
pub open spec fn binary_kind(t: Seq<char>) -> int {
    if t == "plus_exp"@ {
        0
    } else if t == "sub_exp"@ {
        1
    } else if t == "mult_exp"@ {
        2
    } else if t == "lshift_exp"@ {
        3
    } else if t == "rshift_exp"@ {
        4
    } else if t == "and_exp"@ {
        5
    } else if t == "or_exp"@ {
        6
    } else if t == "xor_exp"@ {
        7
    } else if t == "div_exp"@ {
        8
    } else {
        -1
    }
}

/// The binary expression of kind `k` (see `binary_kind`) over `l` and `r`.
pub open spec fn binary_from(k: int, l: PatternExpression, r: PatternExpression) -> PatternExpression {
    if k == 0 {
        PatternExpression::Plus(Box::new(l), Box::new(r))
    } else if k == 1 {
        PatternExpression::Sub(Box::new(l), Box::new(r))
    } else if k == 2 {
        PatternExpression::Mult(Box::new(l), Box::new(r))
    } else if k == 3 {
        PatternExpression::LeftShift(Box::new(l), Box::new(r))
    } else if k == 4 {
        PatternExpression::RightShift(Box::new(l), Box::new(r))
    } else if k == 5 {
        PatternExpression::And(Box::new(l), Box::new(r))
    } else if k == 6 {
        PatternExpression::Or(Box::new(l), Box::new(r))
    } else if k == 7 {
        PatternExpression::Xor(Box::new(l), Box::new(r))
    } else {
        PatternExpression::Div(Box::new(l), Box::new(r))
    }
}

/// What reading a `tokenfield` element gives.
pub open spec fn token_field_of(input: &XmlElement) -> Result<PatternExpression, DeserialiseError> {
    match bool_attr(input, "bigendian") {
        Err(e) => Err(e),
        Ok(big_endian) => match bool_attr(input, "signbit") {
            Err(e) => Err(e),
            Ok(sign_bit) => match num_attr_or::<usize>(input, "bitstart", "startbit") {
                Err(e) => Err(e),
                Ok(bit_start) => match num_attr_or::<usize>(input, "bitend", "endbit") {
                    Err(e) => Err(e),
                    Ok(bit_end) => match num_attr_or::<usize>(input, "bytestart", "startbyte") {
                        Err(e) => Err(e),
                        Ok(byte_start) => match num_attr_or::<usize>(input, "byteend", "endbyte") {
                            Err(e) => Err(e),
                            Ok(byte_end) => match num_attr::<u32>(input, "shift") {
                                Err(e) => Err(e),
                                Ok(shift) => Ok(
                                    PatternExpression::TokenField {
                                        big_endian,
                                        sign_bit,
                                        bit_start: bit_start as usize,
                                        bit_end: bit_end as usize,
                                        byte_start: byte_start as usize,
                                        byte_end: byte_end as usize,
                                        shift: shift as u32,
                                    },
                                ),
                            },
                        },
                    },
                },
            },
        },
    }
}

/// What reading a `contextfield` element gives.
pub open spec fn context_field_of(input: &XmlElement) -> Result<PatternExpression, DeserialiseError> {
    match bool_attr(input, "signbit") {
        Err(e) => Err(e),
        Ok(sign_bit) => match num_attr::<usize>(input, "startbit") {
            Err(e) => Err(e),
            Ok(bit_start) => match num_attr::<usize>(input, "endbit") {
                Err(e) => Err(e),
                Ok(bit_end) => match num_attr::<usize>(input, "startbyte") {
                    Err(e) => Err(e),
                    Ok(byte_start) => match num_attr::<usize>(input, "endbyte") {
                        Err(e) => Err(e),
                        Ok(byte_end) => match num_attr::<u32>(input, "shift") {
                            Err(e) => Err(e),
                            Ok(shift) => Ok(
                                PatternExpression::ContextField {
                                    sign_bit,
                                    bit_start: bit_start as usize,
                                    bit_end: bit_end as usize,
                                    byte_start: byte_start as usize,
                                    byte_end: byte_end as usize,
                                    shift: shift as u32,
                                },
                            ),
                        },
                    },
                },
            },
        },
    }
}

/// What reading an `operand_exp` element gives.
pub open spec fn operand_of(input: &XmlElement) -> Result<PatternExpression, DeserialiseError> {
    match num_attr::<usize>(input, "index") {
        Err(e) => Err(e),
        Ok(index) => match num_attr::<usize>(input, "table") {
            Err(e) => Err(e),
            Ok(table_id) => match num_attr::<usize>(input, "ct") {
                Err(e) => Err(e),
                Ok(constructor_id) => Ok(
                    PatternExpression::Operand {
                        index: index as usize,
                        table_id: table_id as usize,
                        constructor_id: constructor_id as usize,
                    },
                ),
            },
        },
    }
}

/// What reading the two operands of a binary expression element gives:
/// its first two child elements, in order.
pub open spec fn operands_of(input: &XmlElement) -> Result<
    (PatternExpression, PatternExpression),
    DeserialiseError,
>
    decreases input, 0int,
{
    if input.children@.len() == 0 {
        Err(DeserialiseError::Invariant("missing lhs of binary expression"))
    } else {
        match pattern_of(&input.children@[0]) {
            Err(e) => Err(e),
            Ok(l) => if input.children@.len() < 2 {
                Err(DeserialiseError::Invariant("missing rhs of binary expression"))
            } else {
                match pattern_of(&input.children@[1]) {
                    Err(e) => Err(e),
                    Ok(r) => Ok((l, r)),
                }
            },
        }
    }
}

/// What reading the pattern expression element `input` gives.
pub open spec fn pattern_of(input: &XmlElement) -> Result<PatternExpression, DeserialiseError>
    decreases input, 1int,
{
    let t = input.tag@;
    if t == "tokenfield"@ {
        token_field_of(input)
    } else if t == "contextfield"@ {
        context_field_of(input)
    } else if t == "intb"@ {
        match num_attr::<i64>(input, "val") {
            Err(e) => Err(e),
            Ok(v) => Ok(PatternExpression::Constant { value: v as i64 }),
        }
    } else if t == "operand_exp"@ {
        operand_of(input)
    } else if t == "start_exp"@ {
        Ok(PatternExpression::StartInstruction)
    } else if t == "end_exp"@ {
        Ok(PatternExpression::EndInstruction)
    } else if t == "next2_exp"@ {
        Ok(PatternExpression::Next2Instruction)
    } else if binary_kind(t) >= 0 {
        match operands_of(input) {
            Err(e) => Err(e),
            Ok((l, r)) => Ok(binary_from(binary_kind(t), l, r)),
        }
    } else if t == "minus_exp"@ || t == "not_exp"@ {
        if input.children@.len() == 0 {
            Err(DeserialiseError::Invariant("missing operand of unary expression"))
        } else {
            match pattern_of(&input.children@[0]) {
                Err(e) => Err(e),
                Ok(x) => if t == "minus_exp"@ {
                    Ok(PatternExpression::Minus(Box::new(x)))
                } else {
                    Ok(PatternExpression::Not(Box::new(x)))
                },
            }
        }
    } else {
        Err(DeserialiseError::TagUnexpected(input.tag))
    }
}

/// Which binary operator the tag names, as in `binary_kind`.
fn binary_tag(t: &str) -> (r: i8)
    ensures
        r as int == binary_kind(t@),
{
    if str_eq(t, "plus_exp") {
        0
    } else if str_eq(t, "sub_exp") {
        1
    } else if str_eq(t, "mult_exp") {
        2
    } else if str_eq(t, "lshift_exp") {
        3
    } else if str_eq(t, "rshift_exp") {
        4
    } else if str_eq(t, "and_exp") {
        5
    } else if str_eq(t, "or_exp") {
        6
    } else if str_eq(t, "xor_exp") {
        7
    } else if str_eq(t, "div_exp") {
        8
    } else {
        -1
    }
}

/// Builds the binary expression of kind `k` over `l` and `r`.
fn make_binary(k: i8, l: PatternExpression, r: PatternExpression) -> (e: PatternExpression)
    ensures
        e == binary_from(k as int, l, r),
{
    if k == 0 {
        PatternExpression::Plus(Box::new(l), Box::new(r))
    } else if k == 1 {
        PatternExpression::Sub(Box::new(l), Box::new(r))
    } else if k == 2 {
        PatternExpression::Mult(Box::new(l), Box::new(r))
    } else if k == 3 {
        PatternExpression::LeftShift(Box::new(l), Box::new(r))
    } else if k == 4 {
        PatternExpression::RightShift(Box::new(l), Box::new(r))
    } else if k == 5 {
        PatternExpression::And(Box::new(l), Box::new(r))
    } else if k == 6 {
        PatternExpression::Or(Box::new(l), Box::new(r))
    } else if k == 7 {
        PatternExpression::Xor(Box::new(l), Box::new(r))
    } else {
        PatternExpression::Div(Box::new(l), Box::new(r))
    }
}

/// Reads a `tokenfield` element.
fn read_token_field(input: &XmlElement) -> (r: Result<PatternExpression, DeserialiseError>)
    ensures
        r == token_field_of(input),
{
    let big_endian = match input.attribute_bool("bigendian") {
        Ok(b) => b,
        Err(e) => return Err(e),
    };
    let sign_bit = match input.attribute_bool("signbit") {
        Ok(b) => b,
        Err(e) => return Err(e),
    };
    let bit_start: usize = match input.attribute_int_or("bitstart", "startbit") {
        Ok(v) => v,
        Err(e) => return Err(e),
    };
    let bit_end: usize = match input.attribute_int_or("bitend", "endbit") {
        Ok(v) => v,
        Err(e) => return Err(e),
    };
    let byte_start: usize = match input.attribute_int_or("bytestart", "startbyte") {
        Ok(v) => v,
        Err(e) => return Err(e),
    };
    let byte_end: usize = match input.attribute_int_or("byteend", "endbyte") {
        Ok(v) => v,
        Err(e) => return Err(e),
    };
    let shift: u32 = match input.attribute_int("shift") {
        Ok(v) => v,
        Err(e) => return Err(e),
    };
    Ok(PatternExpression::TokenField { big_endian, sign_bit, bit_start, bit_end, byte_start, byte_end, shift })
}

/// Reads a `contextfield` element.
fn read_context_field(input: &XmlElement) -> (r: Result<PatternExpression, DeserialiseError>)
    ensures
        r == context_field_of(input),
{
    let sign_bit = match input.attribute_bool("signbit") {
        Ok(b) => b,
        Err(e) => return Err(e),
    };
    let bit_start: usize = match input.attribute_int("startbit") {
        Ok(v) => v,
        Err(e) => return Err(e),
    };
    let bit_end: usize = match input.attribute_int("endbit") {
        Ok(v) => v,
        Err(e) => return Err(e),
    };
    let byte_start: usize = match input.attribute_int("startbyte") {
        Ok(v) => v,
        Err(e) => return Err(e),
    };
    let byte_end: usize = match input.attribute_int("endbyte") {
        Ok(v) => v,
        Err(e) => return Err(e),
    };
    let shift: u32 = match input.attribute_int("shift") {
        Ok(v) => v,
        Err(e) => return Err(e),
    };
    Ok(PatternExpression::ContextField { sign_bit, bit_start, bit_end, byte_start, byte_end, shift })
}

/// Reads an `operand_exp` element.
fn read_operand(input: &XmlElement) -> (r: Result<PatternExpression, DeserialiseError>)
    ensures
        r == operand_of(input),
{
    let index: usize = match input.attribute_int("index") {
        Ok(v) => v,
        Err(e) => return Err(e),
    };
    let table_id: usize = match input.attribute_int("table") {
        Ok(v) => v,
        Err(e) => return Err(e),
    };
    let constructor_id: usize = match input.attribute_int("ct") {
        Ok(v) => v,
        Err(e) => return Err(e),
    };
    Ok(PatternExpression::Operand { index, table_id, constructor_id })
}

/// Reads the two operands of a binary expression element.
fn read_operands(input: &XmlElement) -> (r: Result<(PatternExpression, PatternExpression), DeserialiseError>)
    ensures
        same_result(r, operands_of(input)),
    decreases input, 0int,
{
    if input.children.len() == 0 {
        return Err(DeserialiseError::Invariant("missing lhs of binary expression"));
    }
    let l = match PatternExpression::from_xml(&input.children[0]) {
        Ok(l) => l,
        Err(e) => return Err(e),
    };
    if input.children.len() < 2 {
        return Err(DeserialiseError::Invariant("missing rhs of binary expression"));
    }
    let r = match PatternExpression::from_xml(&input.children[1]) {
        Ok(r) => r,
        Err(e) => return Err(e),
    };
    Ok((l, r))
}

impl PatternExpression {
    /// The smallest value the expression can take, where that is known.
    pub fn min_value(&self) -> (r: Option<i64>)
        ensures
            r == min_value_of(self),
    {
        match self {
            PatternExpression::TokenField { .. }
            | PatternExpression::ContextField { .. }
            | PatternExpression::StartInstruction
            | PatternExpression::EndInstruction
            | PatternExpression::Next2Instruction => Some(0),
            PatternExpression::Constant { value } => Some(*value),
            _ => None,
        }
    }

    /// The largest value the expression can take, where that is known: for
    /// a field, every bit of its width set.
    pub fn max_value(&self) -> (r: Option<i64>)
        requires
            bits_ordered(self),
        ensures
            r == max_value_of(self),
    {
        assert(!0i64 == -1i64) by (bit_vector);
        match self {
            PatternExpression::TokenField { bit_start, bit_end, .. }
            | PatternExpression::ContextField { bit_start, bit_end, .. } => Some(
                zero_extend(!0i64, *bit_end - *bit_start),
            ),
            PatternExpression::StartInstruction
            | PatternExpression::EndInstruction
            | PatternExpression::Next2Instruction => Some(0),
            PatternExpression::Constant { value } => Some(*value),
            _ => None,
        }
    }

    /// Reads an expression from its element.
    pub fn from_xml(input: &XmlElement) -> (r: Result<Self, DeserialiseError>)
        ensures
            same_result(r, pattern_of(input)),
        decreases input, 1int,
    {
        let tag = input.tag_name();
        if str_eq(tag, "tokenfield") {
            read_token_field(input)
        } else if str_eq(tag, "contextfield") {
            read_context_field(input)
        } else if str_eq(tag, "intb") {
            match input.attribute_int::<i64>("val") {
                Ok(value) => Ok(PatternExpression::Constant { value }),
                Err(e) => Err(e),
            }
        } else if str_eq(tag, "operand_exp") {
            read_operand(input)
        } else if str_eq(tag, "start_exp") {
            Ok(PatternExpression::StartInstruction)
        } else if str_eq(tag, "end_exp") {
            Ok(PatternExpression::EndInstruction)
        } else if str_eq(tag, "next2_exp") {
            Ok(PatternExpression::Next2Instruction)
        } else {
            let k = binary_tag(tag);
            if k >= 0 {
                match read_operands(input) {
                    Ok((l, r)) => Ok(make_binary(k, l, r)),
                    Err(e) => Err(e),
                }
            } else if str_eq(tag, "minus_exp") || str_eq(tag, "not_exp") {
                if input.children.len() == 0 {
                    return Err(DeserialiseError::Invariant("missing operand of unary expression"));
                }
                let x = match PatternExpression::from_xml(&input.children[0]) {
                    Ok(x) => x,
                    Err(e) => return Err(e),
                };
                if str_eq(tag, "minus_exp") {
                    Ok(PatternExpression::Minus(Box::new(x)))
                } else {
                    Ok(PatternExpression::Not(Box::new(x)))
                }
            } else {
                Err(DeserialiseError::TagUnexpected(tag.to_owned()))
            }
        }
    }
}

} // verus!

use vstd::prelude::*;

use crate::sleigh::deserialise::{bool_attr, num_attr, DeserialiseError, XmlElement};

verus! {

/// The layout of a binary floating point format: its size in bytes, the
/// positions and widths of its sign, fraction and exponent fields, its
/// largest exponent, its exponent bias, and whether the leading one of the
/// fraction is implied.
#[derive(Debug, Clone, PartialEq, Eq, Structural, Hash)]
pub struct FloatFormat {
    pub size: usize,
    pub sign_pos: u32,
    pub frac_pos: u32,
    pub frac_size: u32,
    pub exp_pos: u32,
    pub exp_max: i32,
    pub exp_size: u32,
    pub bias: i32,
    pub j_bit_implied: bool,
}

/// The fields of a float format element, in the order they are read; or the
/// first of them that cannot be read.
pub open spec fn float_fields(input: &XmlElement) -> Result<
    (int, int, int, int, int, int, int, bool),
    DeserialiseError,
> {
    match num_attr::<usize>(input, "size") {
        Err(e) => Err(e),
        Ok(size) => match num_attr::<u32>(input, "signpos") {
            Err(e) => Err(e),
            Ok(sign_pos) => match num_attr::<u32>(input, "fracpos") {
                Err(e) => Err(e),
                Ok(frac_pos) => match num_attr::<u32>(input, "fracsize") {
                    Err(e) => Err(e),
                    Ok(frac_size) => match num_attr::<u32>(input, "exppos") {
                        Err(e) => Err(e),
                        Ok(exp_pos) => match num_attr::<u32>(input, "expsize") {
                            Err(e) => Err(e),
                            Ok(exp_size) => match num_attr::<i32>(input, "bias") {
                                Err(e) => Err(e),
                                Ok(bias) => match bool_attr(input, "jbitimpled") {
                                    Err(e) => Err(e),
                                    Ok(j) => Ok(
                                        (size, sign_pos, frac_pos, frac_size, exp_pos, exp_size, bias, j),
                                    ),
                                },
                            },
                        },
                    },
                },
            },
        },
    }
}

/// Whether reading `input` never computes the largest exponent of an
/// exponent field of 31 bits or more, which an `i32` cannot hold.
pub open spec fn float_exponent_fits(input: &XmlElement) -> bool {
    match num_attr::<usize>(input, "size") {
        Err(_) => true,
        Ok(_) => match num_attr::<u32>(input, "signpos") {
            Err(_) => true,
            Ok(_) => match num_attr::<u32>(input, "fracpos") {
                Err(_) => true,
                Ok(_) => match num_attr::<u32>(input, "fracsize") {
                    Err(_) => true,
                    Ok(_) => match num_attr::<u32>(input, "exppos") {
                        Err(_) => true,
                        Ok(_) => match num_attr::<u32>(input, "expsize") {
                            Err(_) => true,
                            Ok(exp_size) => exp_size < 31,
                        },
                    },
                },
            },
        },
    }
}

/// The largest exponent of a field of `exp_size` bits.
pub open spec fn exponent_max(exp_size: int) -> int {
    vstd::arithmetic::power2::pow2(exp_size as nat) - 1
}

impl FloatFormat {
    /// IEEE 754 half precision.
    pub fn float2() -> (r: Self)
        ensures
            r == (FloatFormat {
                size: 2,
                sign_pos: 15,
                frac_pos: 0,
                frac_size: 10,
                exp_pos: 10,
                exp_size: 5,
                exp_max: 31,
                bias: 15,
                j_bit_implied: true,
            }),
    {
        FloatFormat {
            size: 2,
            sign_pos: 15,
            frac_pos: 0,
            frac_size: 10,
            exp_pos: 10,
            exp_size: 5,
            exp_max: 31,
            bias: 15,
            j_bit_implied: true,
        }
    }

    /// IEEE 754 single precision.
    pub fn float4() -> (r: Self)
        ensures
            r == (FloatFormat {
                size: 4,
                sign_pos: 31,
                frac_pos: 0,
                frac_size: 23,
                exp_pos: 23,
                exp_size: 8,
                exp_max: 255,
                bias: 127,
                j_bit_implied: true,
            }),
    {
        FloatFormat {
            size: 4,
            sign_pos: 31,
            frac_pos: 0,
            frac_size: 23,
            exp_pos: 23,
            exp_size: 8,
            exp_max: 255,
            bias: 127,
            j_bit_implied: true,
        }
    }

    /// IEEE 754 double precision.
    pub fn float8() -> (r: Self)
        ensures
            r == (FloatFormat {
                size: 8,
                sign_pos: 63,
                frac_pos: 0,
                frac_size: 52,
                exp_pos: 52,
                exp_size: 11,
                exp_max: 2047,
                bias: 1023,
                j_bit_implied: true,
            }),
    {
        FloatFormat {
            size: 8,
            sign_pos: 63,
            frac_pos: 0,
            frac_size: 52,
            exp_pos: 52,
            exp_size: 11,
            exp_max: 2047,
            bias: 1023,
            j_bit_implied: true,
        }
    }

    /// The x87 extended precision format.
    pub fn float10() -> (r: Self)
        ensures
            r == (FloatFormat {
                size: 10,
                sign_pos: 79,
                exp_pos: 64,
                exp_size: 15,
                exp_max: 32767,
                frac_pos: 0,
                frac_size: 64,
                bias: 16383,
                j_bit_implied: true,
            }),
    {
        FloatFormat {
            size: 10,
            sign_pos: 79,
            exp_pos: 64,
            exp_size: 15,
            exp_max: 32767,
            frac_pos: 0,
            frac_size: 64,
            bias: 16383,
            j_bit_implied: true,
        }
    }

    /// IEEE 754 quadruple precision.
    pub fn float16() -> (r: Self)
        ensures
            r == (FloatFormat {
                size: 16,
                sign_pos: 127,
                exp_pos: 112,
                exp_size: 15,
                exp_max: 32767,
                frac_pos: 0,
                frac_size: 112,
                bias: 16383,
                j_bit_implied: true,
            }),
    {
        FloatFormat {
            size: 16,
            sign_pos: 127,
            exp_pos: 112,
            exp_size: 15,
            exp_max: 32767,
            frac_pos: 0,
            frac_size: 112,
            bias: 16383,
            j_bit_implied: true,
        }
    }

    /// The size of the format in bytes.
    pub fn size(&self) -> (r: usize)
        ensures
            r == self.size,
    {
        self.size
    }

    /// The size of the format in bits.
    pub fn bits(&self) -> (r: usize)
        requires
            self.size * 8 <= usize::MAX,
        ensures
            r == self.size * 8,
    {
        self.size * 8
    }

    /// Reads a format from its element; the largest exponent is computed
    /// from the exponent size.
    pub fn from_xml(input: &XmlElement) -> (r: Result<Self, DeserialiseError>)
        requires
            float_exponent_fits(input),
        ensures
            match float_fields(input) {
                Err(e) => r == Err::<FloatFormat, DeserialiseError>(e),
                Ok(f) => r is Ok && ({
                    let v = r->Ok_0;
                    &&& v.size == f.0
                    &&& v.sign_pos == f.1
                    &&& v.frac_pos == f.2
                    &&& v.frac_size == f.3
                    &&& v.exp_pos == f.4
                    &&& v.exp_size == f.5
                    &&& v.exp_max == exponent_max(f.5)
                    &&& v.bias == f.6
                    &&& v.j_bit_implied == f.7
                }),
            },
    {
        let size: usize = match input.attribute_int("size") {
            Ok(v) => v,
            Err(e) => {
                return Err(e);
            },
        };
        let sign_pos: u32 = match input.attribute_int("signpos") {
            Ok(v) => v,
            Err(e) => {
                return Err(e);
            },
        };
        let frac_pos: u32 = match input.attribute_int("fracpos") {
            Ok(v) => v,
            Err(e) => {
                return Err(e);
            },
        };
        let frac_size: u32 = match input.attribute_int("fracsize") {
            Ok(v) => v,
            Err(e) => {
                return Err(e);
            },
        };
        let exp_pos: u32 = match input.attribute_int("exppos") {
            Ok(v) => v,
            Err(e) => {
                return Err(e);
            },
        };
        let exp_size: u32 = match input.attribute_int("expsize") {
            Ok(v) => v,
            Err(e) => {
                return Err(e);
            },
        };
        proof {
            vstd::arithmetic::power2::lemma_pow2_pos(exp_size as nat);
            vstd::arithmetic::power2::lemma_pow2_strictly_increases(exp_size as nat, 31);
            vstd::arithmetic::power2::lemma2_to64();
            vstd::bits::lemma_u32_shl_is_mul(1, exp_size);
        }
        let shifted = 1u32 << exp_size;
        let exp_max = (shifted as i32) - 1;
        let bias: i32 = match input.attribute_int("bias") {
            Ok(v) => v,
            Err(e) => {
                return Err(e);
            },
        };
        let j_bit_implied = match input.attribute_bool("jbitimpled") {
            Ok(v) => v,
            Err(e) => {
                return Err(e);
            },
        };
        Ok(FloatFormat {
            size,
            sign_pos,
            frac_pos,
            frac_size,
            exp_pos,
            exp_size,
            exp_max,
            bias,
            j_bit_implied,
        })
    }
}

} // verus!

//! The numeric domain of the calculator: IEEE-754 double-precision values,
//! held as their 64-bit patterns so that the structure of each value is plain
//! and the tests the engine makes on values (zero, finiteness, order, integer
//! decoding) are ordinary bit-level logic.

use vstd::prelude::*;

verus! {

/// Sign bit of an IEEE-754 double-precision bit pattern.
pub const SIGN_MASK: u64 = 0x8000_0000_0000_0000;
/// Every bit except the sign bit: the magnitude of the encoded value.
pub const ABS_MASK: u64 = 0x7FFF_FFFF_FFFF_FFFF;
/// Exponent field; a magnitude at or above it is an infinity or a NaN.
pub const EXP_MASK: u64 = 0x7FF0_0000_0000_0000;
/// Fraction (mantissa) field of the pattern.
pub const FRAC_MASK: u64 = 0x000F_FFFF_FFFF_FFFF;
/// The implicit leading mantissa bit of a normal number.
pub const IMPLICIT_BIT: u64 = 0x0010_0000_0000_0000;
/// Bit pattern of 1.0, the canonical sentinel for a true comparison result.
pub const TRUE_BITS: u64 = 0x3FF0_0000_0000_0000;
/// Bit pattern of 0.0, the canonical sentinel for a false comparison result.
pub const FALSE_BITS: u64 = 0;
/// Bit pattern of 0.5, used to round by adding a half and taking the floor.
pub const HALF_BITS: u64 = 0x3FE0_0000_0000_0000;

/// A numeric value of the calculator: an IEEE-754 double-precision number,
/// carried as its 64-bit pattern.
#[derive(Clone, Copy, PartialEq, Eq, Structural, Debug)]
pub struct Value {
    pub bits: u64,
}

impl Value {
    /// The value whose IEEE-754 double-precision bit pattern is `bits`.
    pub fn from_bits(bits: u64) -> (r: Value)
        ensures
            r.bits == bits,
    {
        Value { bits }
    }
}

/// The pattern encodes a zero (either +0.0 or -0.0).
pub open spec fn is_zero(b: u64) -> bool {
    b & ABS_MASK == 0
}

/// The pattern encodes a NaN: exponent field all ones and a nonzero fraction.
pub open spec fn is_nan(b: u64) -> bool {
    b & ABS_MASK > EXP_MASK
}

/// The pattern encodes a finite number (zero, subnormal or normal).
pub open spec fn is_finite(b: u64) -> bool {
    b & ABS_MASK < EXP_MASK
}

/// The sign bit is set (negative numbers, -0.0, -infinity, some NaNs).
pub open spec fn sign_bit(b: u64) -> bool {
    b & SIGN_MASK != 0
}

/// The pattern encodes a value strictly below zero: sign bit set and not a
/// zero and not a NaN.
pub open spec fn is_negative(b: u64) -> bool {
    sign_bit(b) && !is_zero(b) && !is_nan(b)
}

/// IEEE-754 equality of the two encoded values: false whenever either is a
/// NaN; +0.0 and -0.0 are equal; otherwise the patterns coincide.
pub open spec fn d_eq(a: u64, b: u64) -> bool {
    &&& !is_nan(a)
    &&& !is_nan(b)
    &&& (a == b || (is_zero(a) && is_zero(b)))
}

/// IEEE-754 strict order of the two encoded values: false whenever either is
/// a NaN; otherwise sign-and-magnitude comparison of the patterns.
pub open spec fn d_lt(a: u64, b: u64) -> bool {
    &&& !is_nan(a)
    &&& !is_nan(b)
    &&& if sign_bit(a) {
            if sign_bit(b) {
                a & ABS_MASK > b & ABS_MASK
            } else {
                !(is_zero(a) && is_zero(b))
            }
        } else {
            if sign_bit(b) {
                false
            } else {
                a & ABS_MASK < b & ABS_MASK
            }
        }
}

/// IEEE-754 non-strict order: strictly below or equal.
pub open spec fn d_le(a: u64, b: u64) -> bool {
    d_lt(a, b) || d_eq(a, b)
}

/// The bit pattern of the negated value: IEEE-754 negation flips the sign bit.
pub open spec fn neg_bits(b: u64) -> u64 {
    b ^ SIGN_MASK
}

/// The bit pattern of the absolute value: IEEE-754 clears the sign bit.
pub open spec fn abs_bits(b: u64) -> u64 {
    b & ABS_MASK
}

/// The canonical boolean sentinel for a truth value.
pub open spec fn bool_bits(t: bool) -> u64 {
    if t {
        TRUE_BITS
    } else {
        FALSE_BITS
    }
}

/// The exact integer the pattern encodes, if it encodes one of magnitude
/// below 2^53 (the range in which every integer has a unique normal
/// encoding); `None` for non-integers, values of larger magnitude,
/// infinities and NaNs.
pub open spec fn int_of_bits(b: u64) -> Option<int> {
    let e = (b >> 52) & 0x7FF;
    let m = b & FRAC_MASK;
    if e == 0 {
        if m == 0 {
            Some(0int)
        } else {
            None
        }
    } else if e < 1023 || e > 1075 {
        None
    } else {
        let shift = (1075 - e) as u64;
        if m & (((1u64 << shift) - 1) as u64) == 0 {
            let mag = (m | IMPLICIT_BIT) >> shift;
            if sign_bit(b) {
                Some(-(mag as int))
            } else {
                Some(mag as int)
            }
        } else {
            None
        }
    }
}

/// Position of the highest set bit of `a` (0 for 0 and 1).
pub open spec fn hibit(a: nat) -> nat
    decreases a,
{
    if a < 2 {
        0
    } else {
        1 + hibit(a / 2)
    }
}

/// The IEEE-754 double-precision bit pattern of the integer `n`, for
/// magnitudes up to 2^31: sign bit, biased exponent from the highest set bit
/// of the magnitude, and the magnitude shifted into the fraction field.
pub open spec fn bits_of_int(n: int) -> u64
    recommends
        -0x8000_0000 <= n <= 0x8000_0000,
{
    if n == 0 {
        0
    } else {
        let a = (if n < 0 { -n } else { n }) as u64;
        let k = hibit(a as nat) as u64;
        (if n < 0 {
            SIGN_MASK
        } else {
            0
        }) | ((((1023 + k) as u64) << 52u64) | ((a << ((52 - k) as u64)) & FRAC_MASK))
    }
}

impl Value {
    /// The value encodes a zero.
    pub fn exec_is_zero(self) -> (r: bool)
        ensures
            r == is_zero(self.bits),
    {
        self.bits & ABS_MASK == 0
    }

    /// The value encodes a finite number.
    pub fn exec_is_finite(self) -> (r: bool)
        ensures
            r == is_finite(self.bits),
    {
        self.bits & ABS_MASK < EXP_MASK
    }

    /// The value encodes a number strictly below zero.
    pub fn exec_is_negative(self) -> (r: bool)
        ensures
            r == is_negative(self.bits),
    {
        self.bits & SIGN_MASK != 0 && self.bits & ABS_MASK != 0 && !(self.bits & ABS_MASK
            > EXP_MASK)
    }

    /// IEEE-754 equality with another value.
    pub fn exec_eq(self, other: Value) -> (r: bool)
        ensures
            r == d_eq(self.bits, other.bits),
    {
        let a = self.bits;
        let b = other.bits;
        if a & ABS_MASK > EXP_MASK || b & ABS_MASK > EXP_MASK {
            false
        } else {
            a == b || (a & ABS_MASK == 0 && b & ABS_MASK == 0)
        }
    }

    /// IEEE-754 strict order against another value.
    pub fn exec_lt(self, other: Value) -> (r: bool)
        ensures
            r == d_lt(self.bits, other.bits),
    {
        let a = self.bits;
        let b = other.bits;
        if a & ABS_MASK > EXP_MASK || b & ABS_MASK > EXP_MASK {
            false
        } else if a & SIGN_MASK != 0 {
            if b & SIGN_MASK != 0 {
                a & ABS_MASK > b & ABS_MASK
            } else {
                !(a & ABS_MASK == 0 && b & ABS_MASK == 0)
            }
        } else {
            if b & SIGN_MASK != 0 {
                false
            } else {
                a & ABS_MASK < b & ABS_MASK
            }
        }
    }

    /// The exact integer this value encodes, if any of magnitude below 2^53.
    pub fn exec_to_int(self) -> (r: Option<i64>)
        ensures
            match r {
                Some(n) => int_of_bits(self.bits) == Some(n as int),
                None => int_of_bits(self.bits) is None,
            },
    {
        let b = self.bits;
        let e = (b >> 52) & 0x7FF;
        let m = b & FRAC_MASK;
        if e == 0 {
            if m == 0 {
                Some(0i64)
            } else {
                None
            }
        } else if e < 1023 || e > 1075 {
            None
        } else {
            let shift = 1075 - e;
            assert(1u64 << shift >= 1) by (bit_vector)
                requires
                    shift <= 52,
            ;
            let low = (1u64 << shift) - 1;
            assert(low == ((1u64 << shift) - 1) as u64) by (bit_vector)
                requires
                    shift <= 52,
                    low == (1u64 << shift) - 1,
            ;
            if m & low == 0 {
                let mag = (m | IMPLICIT_BIT) >> shift;
                assert(mag <= 0x001F_FFFF_FFFF_FFFF) by (bit_vector)
                    requires
                        mag == ((b & FRAC_MASK) | IMPLICIT_BIT) >> shift,
                ;
                if b & SIGN_MASK != 0 {
                    Some(-(mag as i64))
                } else {
                    Some(mag as i64)
                }
            } else {
                None
            }
        }
    }

    /// The value encoding an integer of magnitude at most 2^31.
    pub fn from_small_int(n: i64) -> (r: Value)
        requires
            -0x8000_0000 <= n <= 0x8000_0000,
        ensures
            r.bits == bits_of_int(n as int),
    {
        if n == 0 {
            Value { bits: 0 }
        } else {
            let a: u64 = if n >= 0 {
                n as u64
            } else {
                (-n) as u64
            };
            assert(a as int == (if n < 0 { -(n as int) } else { n as int }));
            proof {
                vstd::arithmetic::power2::lemma2_to64();
                lemma_hibit_below(a as nat, 31);
            }
            let mut k: u64 = 0;
            let mut x: u64 = a;
            while x >= 2
                invariant
                    1 <= x,
                    hibit(a as nat) == k + hibit(x as nat),
                    hibit(a as nat) <= 31,
                decreases x,
            {
                assert(hibit(x as nat) == 1 + hibit((x / 2) as nat));
                x = x / 2;
                k = k + 1;
            }
            assert(hibit(a as nat) == k);
            let sign: u64 = if n < 0 {
                SIGN_MASK
            } else {
                0
            };
            let bits: u64 = sign | (((1023 + k) << 52) | ((a << (52 - k)) & FRAC_MASK));
            Value { bits }
        }
    }
}

/// A positive magnitude lies between the powers of two at its
/// highest-set-bit position.
pub proof fn lemma_hibit_bounds(a: nat)
    requires
        a >= 1,
    ensures
        vstd::arithmetic::power2::pow2(hibit(a)) <= a < vstd::arithmetic::power2::pow2(
            hibit(a) + 1,
        ),
    decreases a,
{
    if a < 2 {
        vstd::arithmetic::power2::lemma2_to64();
    } else {
        lemma_hibit_bounds(a / 2);
        vstd::arithmetic::power2::lemma_pow2_unfold(hibit(a));
        vstd::arithmetic::power2::lemma_pow2_unfold(hibit(a) + 1);
    }
}

/// Coherence of the integer encoding: decoding the bit pattern of an
/// integer of magnitude at most 2^31 yields exactly that integer.
pub proof fn lemma_int_bits_round_trip(n: int)
    requires
        -0x8000_0000 <= n <= 0x8000_0000,
    ensures
        int_of_bits(bits_of_int(n)) == Some(n),
{
    if n == 0 {
        assert((0u64 >> 52) & 0x7FF == 0 && 0u64 & 0x000F_FFFF_FFFF_FFFF == 0) by (bit_vector);
    } else {
        let a_i = if n < 0 {
            -n
        } else {
            n
        };
        let a = a_i as u64;
        assert(1 <= a <= 0x8000_0000);
        lemma_hibit_bounds(a as nat);
        vstd::arithmetic::power2::lemma2_to64();
        lemma_hibit_below(a as nat, 31);
        let k = hibit(a as nat) as u64;
        assert(k <= 31);
        vstd::bits::lemma_u64_shr_is_div(a, k);
        vstd::arithmetic::power2::lemma_pow2_unfold(k as nat + 1);
        let p = vstd::arithmetic::power2::pow2(k as nat) as int;
        assert(p <= a < 2 * p);
        vstd::arithmetic::div_mod::lemma_fundamental_div_mod_converse(a as int, p, 1, a - p);
        assert(a as nat / vstd::arithmetic::power2::pow2(k as nat) == 1);
        assert(a >> k == 1);
        let sgn = n < 0;
        let bits = bits_of_int(n);
        assert(bits == (if sgn {
            SIGN_MASK
        } else {
            0u64
        }) | ((((1023 + k) as u64) << 52u64) | ((a << ((52 - k) as u64)) & FRAC_MASK)));
        let e = (bits >> 52) & 0x7FF;
        let m = bits & FRAC_MASK;
        assert(e == (1023 + k) as u64 && m == (a << ((52 - k) as u64)) & 0x000F_FFFF_FFFF_FFFF
            && m & (((1u64 << ((52 - k) as u64)) - 1) as u64) == 0 && (m
            | 0x0010_0000_0000_0000u64) >> ((52 - k) as u64) == a && (bits
            & 0x8000_0000_0000_0000u64 != 0 <==> sgn)) by (bit_vector)
            requires
                a >> k == 1,
                k <= 31,
                e == (bits >> 52) & 0x7FF,
                m == bits & 0x000F_FFFF_FFFF_FFFF,
                bits == (if sgn {
                    0x8000_0000_0000_0000u64
                } else {
                    0u64
                }) | ((((1023 + k) as u64) << 52u64) | ((a << ((52 - k) as u64))
                    & 0x000F_FFFF_FFFF_FFFF)),
        ;
        assert(e == 1023 + k);
        assert((1075 - e) as u64 == (52 - k) as u64);
        assert(int_of_bits(bits) == Some(n));
    }
}

/// The highest-set-bit position of a magnitude below 2^(k+1) is at most k.
pub proof fn lemma_hibit_below(a: nat, k: nat)
    requires
        a < vstd::arithmetic::power2::pow2(k + 1),
    ensures
        hibit(a) <= k,
    decreases a,
{
    if a >= 2 {
        assert(vstd::arithmetic::power2::pow2(k + 1) == 2 * vstd::arithmetic::power2::pow2(k))
            by {
            vstd::arithmetic::power2::lemma_pow2_unfold(k + 1);
        }
        if k == 0 {
            assert(vstd::arithmetic::power2::pow2(0) == 1) by {
                vstd::arithmetic::power2::lemma2_to64();
            }
            assert(false);
        } else {
            lemma_hibit_below(a / 2, (k - 1) as nat);
        }
    }
}

} // verus!

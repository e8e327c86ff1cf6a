//! Real numbers as the tracer stores them.
//!
//! A [`Scalar`] is an IEEE-754 binary64 value, held not by its bit pattern but
//! by its *order key*: the signed integer whose order is the total order of the
//! doubles. Comparing, taking the smaller or larger of two, flipping a sign and
//! classifying a value are then exact integer operations, and they are all that
//! the structural part of the tracer needs. Rounded arithmetic is not offered
//! here; it belongs to whoever implements the shapes and materials.

use vstd::prelude::*;

verus! {

/// Bit pattern of the first binary64 with the sign bit set (negative zero).
pub const SIGN_BIT: u64 = 0x8000_0000_0000_0000;

/// Order key of positive infinity; every larger key is a NaN.
pub const INFINITY_KEY: i64 = 0x7FF0_0000_0000_0000;

/// Order key of negative infinity; every smaller key is a NaN.
pub const NEG_INFINITY_KEY: i64 = -0x7FF0_0000_0000_0001;

/// Order key of one.
pub const ONE_KEY: i64 = 0x3FF0_0000_0000_0000;

/// Order key of minus one.
pub const NEG_ONE_KEY: i64 = -0x3FF0_0000_0000_0001;

/// Order key of the double nearest to one thousandth, below which a secondary
/// ray ignores crossings.
pub const SHADOW_EPSILON_KEY: i64 = 0x3F50_624D_D2F1_A9FC;

/// Order key of the double nearest to ten to the minus eight, the bound under
/// which a component counts as vanished.
pub const NEAR_ZERO_KEY: i64 = 0x3E45_798E_E230_8C3A;

/// The order key that belongs to a bit pattern.
///
/// Patterns without the sign bit keep their value. Patterns with it are
/// mirrored below zero, so that a larger magnitude gives a smaller key.
pub open spec fn key_of_bits(bits: u64) -> int {
    if bits < SIGN_BIT {
        bits as int
    } else {
        SIGN_BIT - 1 - bits
    }
}

/// The bit pattern that belongs to an order key; inverse of [`key_of_bits`].
pub open spec fn bits_of_key(key: int) -> int {
    if key >= 0 {
        key
    } else {
        SIGN_BIT - 1 - key
    }
}

/// The key of the value with the same magnitude and the opposite sign.
pub open spec fn negated_key(key: int) -> int {
    -1 - key
}

/// The key of the magnitude: the value with its sign bit cleared.
pub open spec fn magnitude_key(key: int) -> int {
    if key >= 0 {
        key
    } else {
        -1 - key
    }
}

/// Whether a key stands for a NaN.
pub open spec fn key_is_nan(key: int) -> bool {
    key > INFINITY_KEY || key < NEG_INFINITY_KEY
}

/// Whether a key stands for a zero of either sign.
pub open spec fn key_is_zero(key: int) -> bool {
    key == 0 || key == -1
}

/// IEEE `<` on keys: false when either side is a NaN, and the two zeros are
/// not below one another.
pub open spec fn key_lt(a: int, b: int) -> bool {
    !key_is_nan(a) && !key_is_nan(b) && a < b && !(key_is_zero(a) && key_is_zero(b))
}

/// IEEE `==` on keys: false when either side is a NaN, and the two zeros are
/// equal.
pub open spec fn key_eq(a: int, b: int) -> bool {
    !key_is_nan(a) && !key_is_nan(b) && (a == b || (key_is_zero(a) && key_is_zero(b)))
}

/// IEEE `<=` on keys.
pub open spec fn key_le(a: int, b: int) -> bool {
    key_lt(a, b) || key_eq(a, b)
}

/// The smaller of two keys, passing over a NaN when the other side is a number.
pub open spec fn key_min(a: int, b: int) -> int {
    if key_is_nan(a) {
        b
    } else if key_is_nan(b) {
        a
    } else if a <= b {
        a
    } else {
        b
    }
}

/// The larger of two keys, passing over a NaN when the other side is a number.
pub open spec fn key_max(a: int, b: int) -> int {
    if key_is_nan(a) {
        b
    } else if key_is_nan(b) {
        a
    } else if a >= b {
        a
    } else {
        b
    }
}

/// Two to the fifty-second: the weight of the exponent field in a bit
/// pattern, and the hidden leading bit of a significand.
pub const HIDDEN_BIT: i64 = 0x10_0000_0000_0000;

/// The divisor that takes the significand of a number with the given
/// exponent field, between 1023 and 1030, to its integer part.
pub open spec fn fraction_weight(exponent: int) -> int {
    if exponent == 1023 {
        0x10_0000_0000_0000
    } else if exponent == 1024 {
        0x8_0000_0000_0000
    } else if exponent == 1025 {
        0x4_0000_0000_0000
    } else if exponent == 1026 {
        0x2_0000_0000_0000
    } else if exponent == 1027 {
        0x1_0000_0000_0000
    } else if exponent == 1028 {
        0x8000_0000_0000
    } else if exponent == 1029 {
        0x4000_0000_0000
    } else {
        0x2000_0000_0000
    }
}

/// The byte that a double becomes when it is cut to eight bits: nothing for
/// a NaN and for everything below one, 255 for everything from 256 on, and
/// otherwise the integer part, which is the significand divided by the
/// weight of its fraction.
pub open spec fn byte_of_key(key: int) -> int {
    if key < 0 || key > INFINITY_KEY {
        0
    } else if key / (HIDDEN_BIT as int) < 1023 {
        0
    } else if key / (HIDDEN_BIT as int) > 1030 {
        255
    } else {
        (HIDDEN_BIT + key % (HIDDEN_BIT as int)) / fraction_weight(key / (HIDDEN_BIT as int))
    }
}

/// A binary64 value held by its order key.
#[derive(Clone, Copy, Debug, PartialEq, Eq, Structural)]
pub struct Scalar {
    pub key: i64,
}

impl View for Scalar {
    type V = int;

    open spec fn view(&self) -> int {
        self.key as int
    }
}

impl Scalar {
    /// The scalar with the given bit pattern.
    pub fn from_bits(bits: u64) -> (s: Scalar)
        ensures
            s@ == key_of_bits(bits),
            bits_of_key(s@) == bits,
    {
        if bits < SIGN_BIT {
            Scalar { key: bits as i64 }
        } else {
            let low: u64 = bits - SIGN_BIT;
            Scalar { key: -1i64 - (low as i64) }
        }
    }

    /// The bit pattern of this scalar.
    pub fn to_bits(&self) -> (bits: u64)
        ensures
            bits == bits_of_key(self@),
            key_of_bits(bits) == self@,
    {
        if self.key >= 0 {
            self.key as u64
        } else {
            let low: i64 = -1i64 - self.key;
            SIGN_BIT + (low as u64)
        }
    }

    /// Positive zero.
    pub fn zero() -> (s: Scalar)
        ensures
            s@ == 0,
    {
        Scalar { key: 0 }
    }

    /// One.
    pub fn one() -> (s: Scalar)
        ensures
            s@ == ONE_KEY,
    {
        Scalar { key: ONE_KEY }
    }

    /// Minus one.
    pub fn neg_one() -> (s: Scalar)
        ensures
            s@ == NEG_ONE_KEY,
    {
        Scalar { key: NEG_ONE_KEY }
    }

    /// Positive infinity.
    pub fn infinity() -> (s: Scalar)
        ensures
            s@ == INFINITY_KEY,
    {
        Scalar { key: INFINITY_KEY }
    }

    /// Whether this is a NaN.
    pub fn is_nan(&self) -> (b: bool)
        ensures
            b == key_is_nan(self@),
    {
        self.key > INFINITY_KEY || self.key < NEG_INFINITY_KEY
    }

    /// Whether this is a zero of either sign.
    pub fn is_zero(&self) -> (b: bool)
        ensures
            b == key_is_zero(self@),
    {
        self.key == 0 || self.key == -1
    }

    /// Whether the sign bit is set.
    pub fn is_sign_negative(&self) -> (b: bool)
        ensures
            b == (self@ < 0),
    {
        self.key < 0
    }

    /// IEEE `<`.
    pub fn lt(&self, other: &Scalar) -> (b: bool)
        ensures
            b == key_lt(self@, other@),
    {
        !self.is_nan() && !other.is_nan() && self.key < other.key && !(self.is_zero()
            && other.is_zero())
    }

    /// IEEE `==`.
    pub fn same(&self, other: &Scalar) -> (b: bool)
        ensures
            b == key_eq(self@, other@),
    {
        !self.is_nan() && !other.is_nan() && (self.key == other.key || (self.is_zero()
            && other.is_zero()))
    }

    /// IEEE `<=`.
    pub fn le(&self, other: &Scalar) -> (b: bool)
        ensures
            b == key_le(self@, other@),
    {
        self.lt(other) || self.same(other)
    }

    /// Whether this comes before `other` in the total order of the doubles,
    /// in which negative zero precedes positive zero and the NaNs lie at the
    /// two ends.
    pub fn precedes(&self, other: &Scalar) -> (b: bool)
        ensures
            b == (self@ < other@),
    {
        self.key < other.key
    }

    /// The smaller of the two; a NaN gives way to a number. Of the two zeros
    /// the negative one counts as smaller.
    pub fn min(&self, other: &Scalar) -> (m: Scalar)
        ensures
            m@ == key_min(self@, other@),
    {
        if self.is_nan() {
            *other
        } else if other.is_nan() {
            *self
        } else if self.key <= other.key {
            *self
        } else {
            *other
        }
    }

    /// The larger of the two; a NaN gives way to a number. Of the two zeros
    /// the positive one counts as larger.
    pub fn max(&self, other: &Scalar) -> (m: Scalar)
        ensures
            m@ == key_max(self@, other@),
    {
        if self.is_nan() {
            *other
        } else if other.is_nan() {
            *self
        } else if self.key >= other.key {
            *self
        } else {
            *other
        }
    }

    /// The value with the sign flipped.
    pub fn neg(&self) -> (n: Scalar)
        ensures
            n@ == negated_key(self@),
    {
        Scalar { key: -1i64 - self.key }
    }

    /// Cuts the value to a byte as a cast to an unsigned eight-bit integer
    /// does: the fraction is dropped, what lies outside the range goes to the
    /// nearer end, and a NaN gives zero.
    pub fn truncate_to_byte(&self) -> (byte: u8)
        ensures
            byte == byte_of_key(self@),
    {
        if self.key < 0 || self.key > INFINITY_KEY {
            return 0;
        }
        let exponent: i64 = self.key / HIDDEN_BIT;
        let fraction: i64 = self.key % HIDDEN_BIT;
        if exponent < 1023 {
            0
        } else if exponent > 1030 {
            255
        } else {
            let weight: i64 = if exponent == 1023 {
                0x10_0000_0000_0000
            } else if exponent == 1024 {
                0x8_0000_0000_0000
            } else if exponent == 1025 {
                0x4_0000_0000_0000
            } else if exponent == 1026 {
                0x2_0000_0000_0000
            } else if exponent == 1027 {
                0x1_0000_0000_0000
            } else if exponent == 1028 {
                0x8000_0000_0000
            } else if exponent == 1029 {
                0x4000_0000_0000
            } else {
                0x2000_0000_0000
            };
            let whole: i64 = (HIDDEN_BIT + fraction) / weight;
            assert(0 <= whole < 256) by {
                let n = (HIDDEN_BIT + fraction) as int;
                let w = weight as int;
                assert(0 <= n / w < 256) by (nonlinear_arith)
                    requires
                        0 <= n < 0x20_0000_0000_0000,
                        w >= 0x2000_0000_0000,
                ;
            }
            whole as u8
        }
    }

    /// The magnitude: the value with the sign bit cleared.
    pub fn abs(&self) -> (m: Scalar)
        ensures
            m@ == magnitude_key(self@),
            m@ >= 0,
    {
        if self.key >= 0 {
            *self
        } else {
            Scalar { key: -1i64 - self.key }
        }
    }
}

/// The smaller and larger of two numbers bracket both of them in the total
/// order, and each is one of the two.
pub proof fn min_max_bracket(a: int, b: int)
    requires
        !key_is_nan(a),
        !key_is_nan(b),
    ensures
        key_min(a, b) <= a,
        key_min(a, b) <= b,
        key_max(a, b) >= a,
        key_max(a, b) >= b,
        key_min(a, b) == a || key_min(a, b) == b,
        key_max(a, b) == a || key_max(a, b) == b,
        !key_is_nan(key_min(a, b)),
        !key_is_nan(key_max(a, b)),
{
}

} // verus!

//! Double-precision scalars carried by their IEEE-754 bit pattern.
//!
//! The renderer's arithmetic is done on hardware doubles by the caller; what
//! this crate decides about such values (which is smaller, whether one lies in
//! a window, which sign it has) it decides on the bit pattern, where the
//! binary64 order is an order on integers.

use vstd::arithmetic::power2::{lemma2_to64_rest, pow2};
use vstd::bits::lemma_u64_shr_is_div;
use vstd::prelude::*;

verus! {

/// The sign bit of a binary64 pattern.
pub const SIGN_BIT: u64 = 0x8000_0000_0000_0000;

/// The pattern of positive infinity; every larger magnitude is a NaN.
pub const INFINITY_BITS: u64 = 0x7ff0_0000_0000_0000;

/// The pattern of 1.0.
pub const ONE_BITS: u64 = 0x3ff0_0000_0000_0000;

/// The pattern of the largest finite value.
pub const MAX_BITS: u64 = 0x7fef_ffff_ffff_ffff;

/// Two to the power 52: the weight of the exponent field in a pattern, and
/// the leading bit of the significand of a normal number.
pub const HIDDEN_BIT: u64 = 0x10_0000_0000_0000;

/// The exponent field of 1.0.
pub const EXPONENT_BIAS: u64 = 1023;

/// A binary64 value, held as its 64-bit pattern.
#[derive(Clone, Copy, Debug)]
pub struct Scalar {
    pub bits: u64,
}

impl Scalar {
    /// The pattern without its sign bit.
    pub open spec fn magnitude(self) -> int {
        if self.bits >= SIGN_BIT {
            self.bits - SIGN_BIT
        } else {
            self.bits as int
        }
    }

    /// Whether the sign bit is set.
    pub open spec fn negative(self) -> bool {
        self.bits >= SIGN_BIT
    }

    /// Whether the pattern encodes a NaN.
    pub open spec fn nan(self) -> bool {
        self.magnitude() > INFINITY_BITS
    }

    /// Position of the value on the extended real line: patterns of one sign
    /// are ordered like the values they encode, and both zeros sit at 0.
    pub open spec fn key(self) -> int {
        if self.negative() {
            -self.magnitude()
        } else {
            self.magnitude()
        }
    }

    /// `self < other` as binary64 compares: false when either is a NaN.
    pub open spec fn lt_spec(self, other: Scalar) -> bool {
        !self.nan() && !other.nan() && self.key() < other.key()
    }

    /// `self <= other` as binary64 compares: false when either is a NaN.
    pub open spec fn le_spec(self, other: Scalar) -> bool {
        !self.nan() && !other.nan() && self.key() <= other.key()
    }

    /// `self == other` as binary64 compares: the two zeros are equal, a NaN
    /// equals nothing.
    pub open spec fn same(self, other: Scalar) -> bool {
        !self.nan() && !other.nan() && self.key() == other.key()
    }

    /// The smaller of two values; a NaN gives way to the other argument, and
    /// of two equal values the first is kept.
    pub open spec fn min_spec(self, other: Scalar) -> Scalar {
        if self.nan() {
            other
        } else if other.lt_spec(self) {
            other
        } else {
            self
        }
    }

    /// The larger of two values; a NaN gives way to the other argument, and
    /// of two equal values the first is kept.
    pub open spec fn max_spec(self, other: Scalar) -> Scalar {
        if self.nan() {
            other
        } else if self.lt_spec(other) {
            other
        } else {
            self
        }
    }

    /// The exponent field of the pattern.
    pub open spec fn exponent(self) -> int {
        self.magnitude() / (HIDDEN_BIT as int)
    }

    /// The fraction field of the pattern.
    pub open spec fn fraction(self) -> int {
        self.magnitude() % (HIDDEN_BIT as int)
    }

    /// The number cut to a byte towards zero, as a cast does: 0 for a NaN,
    /// for a number with the sign set and for one below 1; 255 for one from
    /// 256 on; and else, the number being `(2^52 + fraction) * 2^(exponent -
    /// 1075)`, the whole part of that.
    pub open spec fn to_byte_spec(self) -> int {
        if self.nan() || self.negative() || self.exponent() < EXPONENT_BIAS {
            0
        } else if self.exponent() >= EXPONENT_BIAS + 8 {
            255
        } else {
            (HIDDEN_BIT + self.fraction()) / (pow2((1075 - self.exponent()) as nat) as int)
        }
    }

    /// The value held between two limits: a limit where the value lies
    /// beyond it, else the value itself, a NaN included.
    pub open spec fn clamp_spec(self, low: Scalar, high: Scalar) -> Scalar {
        if self.lt_spec(low) {
            low
        } else if high.lt_spec(self) {
            high
        } else {
            self
        }
    }

    /// The value with its sign flipped.
    pub open spec fn neg_spec(self) -> Scalar {
        if self.bits >= SIGN_BIT {
            Scalar { bits: (self.bits - SIGN_BIT) as u64 }
        } else {
            Scalar { bits: (self.bits + SIGN_BIT) as u64 }
        }
    }

    /// The value with its sign cleared.
    pub open spec fn abs_spec(self) -> Scalar {
        if self.bits >= SIGN_BIT {
            Scalar { bits: (self.bits - SIGN_BIT) as u64 }
        } else {
            self
        }
    }

    pub fn from_bits(bits: u64) -> (r: Scalar)
        ensures
            r.bits == bits,
    {
        Scalar { bits }
    }

    pub fn to_bits(self) -> (r: u64)
        ensures
            r == self.bits,
    {
        self.bits
    }

    pub fn zero() -> (r: Scalar)
        ensures
            r.bits == 0,
            r.key() == 0,
            !r.nan(),
    {
        Scalar { bits: 0 }
    }

    pub fn one() -> (r: Scalar)
        ensures
            r.bits == ONE_BITS,
            !r.nan(),
    {
        Scalar { bits: ONE_BITS }
    }

    pub fn infinity() -> (r: Scalar)
        ensures
            r.bits == INFINITY_BITS,
            !r.nan(),
            forall|s: Scalar| !s.nan() ==> s.le_spec(r),
    {
        Scalar { bits: INFINITY_BITS }
    }

    pub fn neg_infinity() -> (r: Scalar)
        ensures
            r.bits == INFINITY_BITS + SIGN_BIT,
            !r.nan(),
            forall|s: Scalar| !s.nan() ==> r.le_spec(s),
    {
        Scalar { bits: 0xfff0_0000_0000_0000 }
    }

    /// The largest finite value.
    pub fn max_finite() -> (r: Scalar)
        ensures
            r.bits == MAX_BITS,
            !r.nan(),
    {
        Scalar { bits: MAX_BITS }
    }

    pub fn is_nan(self) -> (r: bool)
        ensures
            r == self.nan(),
    {
        self.abs().bits > INFINITY_BITS
    }

    pub fn is_sign_negative(self) -> (r: bool)
        ensures
            r == self.negative(),
    {
        self.bits >= SIGN_BIT
    }

    /// The place of the value in the order, as a machine integer.
    pub fn order_key(self) -> (r: i64)
        ensures
            r == self.key(),
    {
        if self.bits >= SIGN_BIT {
            let m: u64 = self.bits - SIGN_BIT;
            -(m as i64)
        } else {
            self.bits as i64
        }
    }

    pub fn lt(self, other: Scalar) -> (r: bool)
        ensures
            r == self.lt_spec(other),
    {
        !self.is_nan() && !other.is_nan() && self.order_key() < other.order_key()
    }

    pub fn le(self, other: Scalar) -> (r: bool)
        ensures
            r == self.le_spec(other),
    {
        !self.is_nan() && !other.is_nan() && self.order_key() <= other.order_key()
    }

    pub fn gt(self, other: Scalar) -> (r: bool)
        ensures
            r == other.lt_spec(self),
    {
        other.lt(self)
    }

    pub fn ge(self, other: Scalar) -> (r: bool)
        ensures
            r == other.le_spec(self),
    {
        other.le(self)
    }

    pub fn min(self, other: Scalar) -> (r: Scalar)
        ensures
            r == self.min_spec(other),
    {
        if self.is_nan() {
            other
        } else if other.lt(self) {
            other
        } else {
            self
        }
    }

    pub fn max(self, other: Scalar) -> (r: Scalar)
        ensures
            r == self.max_spec(other),
    {
        if self.is_nan() {
            other
        } else if self.lt(other) {
            other
        } else {
            self
        }
    }

    /// The number cut to a byte towards zero.
    pub fn to_byte(self) -> (r: u8)
        ensures
            r == self.to_byte_spec(),
    {
        if self.is_nan() || self.bits >= SIGN_BIT {
            return 0;
        }
        let exponent: u64 = self.bits / HIDDEN_BIT;
        let fraction: u64 = self.bits % HIDDEN_BIT;
        if exponent < EXPONENT_BIAS {
            return 0;
        }
        if exponent >= EXPONENT_BIAS + 8 {
            return 255;
        }
        let significand: u64 = HIDDEN_BIT + fraction;
        let shift: u64 = 1075 - exponent;
        let whole: u64 = significand >> shift;
        proof {
            lemma_u64_shr_is_div(significand, shift);
            lemma2_to64_rest();
            assert(whole == significand as nat / pow2(shift as nat));
            assert(45 <= shift <= 52);
            assert(pow2(shift as nat) >= 0x2000_0000_0000) by {
                if shift == 45 {
                } else if shift == 46 {
                } else if shift == 47 {
                } else if shift == 48 {
                } else if shift == 49 {
                } else if shift == 50 {
                } else if shift == 51 {
                } else {
                }
            }
            assert(significand as nat / pow2(shift as nat) < 256) by (nonlinear_arith)
                requires
                    significand < 0x20_0000_0000_0000,
                    pow2(shift as nat) >= 0x2000_0000_0000,
            ;
        }
        whole as u8
    }

    /// Holds the value between `low` and `high`.
    pub fn clamp(self, low: Scalar, high: Scalar) -> (r: Scalar)
        requires
            low.le_spec(high),
        ensures
            r == self.clamp_spec(low, high),
            !self.nan() ==> low.le_spec(r) && r.le_spec(high),
    {
        if self.lt(low) {
            low
        } else if high.lt(self) {
            high
        } else {
            self
        }
    }

    pub fn neg(self) -> (r: Scalar)
        ensures
            r == self.neg_spec(),
            r.key() == -self.key(),
            r.nan() == self.nan(),
    {
        if self.bits >= SIGN_BIT {
            Scalar { bits: self.bits - SIGN_BIT }
        } else {
            Scalar { bits: self.bits + SIGN_BIT }
        }
    }

    pub fn abs(self) -> (r: Scalar)
        ensures
            r == self.abs_spec(),
            r.bits == self.magnitude(),
            r.nan() == self.nan(),
    {
        if self.bits >= SIGN_BIT {
            Scalar { bits: self.bits - SIGN_BIT }
        } else {
            self
        }
    }
}

} // verus!

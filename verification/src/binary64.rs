//! IEEE 754 binary64 values carried as their 64-bit patterns.
//!
//! Drawings store every coordinate, angle and size as a binary64 number.
//! This crate never computes on such a number with the machine's floating
//! point unit: it moves the bit pattern around, compares patterns by the
//! IEEE order (which is exact integer reasoning), and asks an
//! [`Arithmetic`] implementation supplied by the caller for everything
//! that rounds.

use vstd::prelude::*;

verus! {

/// Bit pattern with only the sign bit set.
pub const SIGN_BIT: u64 = 0x8000_0000_0000_0000;

/// Bit pattern of positive infinity; every larger magnitude is a NaN.
pub const INFINITY_BITS: u64 = 0x7FF0_0000_0000_0000;

/// Bit pattern of `0.0`.
pub const ZERO_BITS: u64 = 0;

/// Bit pattern of `1.0`.
pub const ONE_BITS: u64 = 0x3FF0_0000_0000_0000;

/// Bit pattern of `2.0`.
pub const TWO_BITS: u64 = 0x4000_0000_0000_0000;

/// Bit pattern of `2.5`.
pub const TWO_AND_HALF_BITS: u64 = 0x4004_0000_0000_0000;

/// Bit pattern of `0.1`, rounded to nearest.
pub const ONE_TENTH_BITS: u64 = 0x3FB9_9999_9999_999A;

/// Bit pattern of `96.0`.
pub const NINETY_SIX_BITS: u64 = 0x4058_0000_0000_0000;

/// Bit pattern of `128.0`.
pub const ONE_TWENTY_EIGHT_BITS: u64 = 0x4060_0000_0000_0000;

/// Bit pattern of `180.0`.
pub const ONE_EIGHTY_BITS: u64 = 0x4066_8000_0000_0000;

/// Bit pattern of `360.0`.
pub const THREE_SIXTY_BITS: u64 = 0x4076_8000_0000_0000;

/// Bit pattern of the binary64 nearest to pi.
pub const PI_BITS: u64 = 0x4009_21FB_5444_2D18;

/// Bit pattern of the binary64 nearest to pi / 2.
pub const HALF_PI_BITS: u64 = 0x3FF9_21FB_5444_2D18;

/// Bit pattern of the binary64 nearest to 2 pi.
pub const TWO_PI_BITS: u64 = 0x4019_21FB_5444_2D18;

/// Bit pattern of `1e-6`, rounded to nearest.
pub const MICRO_BITS: u64 = 0x3EB0_C6F7_A0B5_ED8D;

/// Bit pattern of `1e-9`, rounded to nearest.
pub const NANO_BITS: u64 = 0x3E11_2E0B_E826_D695;

/// Bit pattern of `1e-12`, rounded to nearest.
pub const PICO_BITS: u64 = 0x3D71_9799_812D_EA11;

/// A binary64 number, identified with its bit pattern.
///
/// Two values are `==` exactly when their patterns are equal; the IEEE
/// comparisons are the methods [`Binary64::ieee_eq`], [`Binary64::lt`] and
/// [`Binary64::le`].
#[derive(Debug, Clone, Copy, PartialEq, Eq, Structural)]
pub struct Binary64 {
    pub bits: u64,
}

impl Binary64 {
    /// The pattern without its sign bit.
    pub open spec fn magnitude(self) -> int {
        self.bits as int % 0x8000_0000_0000_0000
    }

    /// Whether the sign bit is set.
    pub open spec fn sign(self) -> bool {
        self.bits >= SIGN_BIT
    }

    /// Whether the pattern encodes a NaN.
    pub open spec fn nan(self) -> bool {
        self.magnitude() > INFINITY_BITS as int
    }

    /// Position of a non-NaN value on the extended real line, as an integer
    /// that grows with the value. Both zeros have rank 0.
    pub open spec fn rank(self) -> int {
        if self.sign() {
            -self.magnitude()
        } else {
            self.magnitude()
        }
    }

    /// IEEE `<`: false whenever either side is a NaN.
    pub open spec fn lt_spec(self, other: Binary64) -> bool {
        !self.nan() && !other.nan() && self.rank() < other.rank()
    }

    /// IEEE `<=`: false whenever either side is a NaN.
    pub open spec fn le_spec(self, other: Binary64) -> bool {
        !self.nan() && !other.nan() && self.rank() <= other.rank()
    }

    /// IEEE `==`: false whenever either side is a NaN, true of the two zeros.
    pub open spec fn ieee_eq_spec(self, other: Binary64) -> bool {
        !self.nan() && !other.nan() && self.rank() == other.rank()
    }

    /// The value with its sign bit cleared.
    pub open spec fn abs_spec(self) -> Binary64 {
        Binary64 { bits: (self.bits % SIGN_BIT) as u64 }
    }

    /// The value with its sign bit flipped.
    pub open spec fn neg_spec(self) -> Binary64 {
        if self.bits >= SIGN_BIT {
            Binary64 { bits: (self.bits - SIGN_BIT) as u64 }
        } else {
            Binary64 { bits: (self.bits + SIGN_BIT) as u64 }
        }
    }

    /// The larger of two values, ignoring a NaN when the other side is a
    /// number; on a tie the first argument.
    pub open spec fn max_spec(self, other: Binary64) -> Binary64 {
        if self.nan() {
            other
        } else if other.nan() {
            self
        } else if self.rank() < other.rank() {
            other
        } else {
            self
        }
    }

    /// The smaller of two values, ignoring a NaN when the other side is a
    /// number; on a tie the first argument.
    pub open spec fn min_spec(self, other: Binary64) -> Binary64 {
        if self.nan() {
            other
        } else if other.nan() {
            self
        } else if other.rank() < self.rank() {
            other
        } else {
            self
        }
    }

    pub fn from_bits(bits: u64) -> (r: Binary64)
        ensures
            r.bits == bits,
    {
        Binary64 { bits }
    }

    pub fn to_bits(self) -> (r: u64)
        ensures
            r == self.bits,
    {
        self.bits
    }

    pub fn is_nan(self) -> (r: bool)
        ensures
            r == self.nan(),
    {
        self.bits % SIGN_BIT > INFINITY_BITS
    }

    pub fn lt(self, other: Binary64) -> (r: bool)
        ensures
            r == self.lt_spec(other),
    {
        if self.is_nan() || other.is_nan() {
            return false;
        }
        let a: u64 = self.bits % SIGN_BIT;
        let b: u64 = other.bits % SIGN_BIT;
        let a_neg = self.bits >= SIGN_BIT;
        let b_neg = other.bits >= SIGN_BIT;
        if a_neg {
            if b_neg {
                b < a
            } else {
                a != 0 || b != 0
            }
        } else {
            if b_neg {
                false
            } else {
                a < b
            }
        }
    }

    pub fn ieee_eq(self, other: Binary64) -> (r: bool)
        ensures
            r == self.ieee_eq_spec(other),
    {
        if self.is_nan() || other.is_nan() {
            return false;
        }
        let a: u64 = self.bits % SIGN_BIT;
        let b: u64 = other.bits % SIGN_BIT;
        if a == 0 && b == 0 {
            true
        } else {
            self.bits == other.bits
        }
    }

    pub fn le(self, other: Binary64) -> (r: bool)
        ensures
            r == self.le_spec(other),
    {
        self.lt(other) || self.ieee_eq(other)
    }

    pub fn abs(self) -> (r: Binary64)
        ensures
            r == self.abs_spec(),
            !r.sign(),
            r.magnitude() == self.magnitude(),
    {
        Binary64 { bits: self.bits % SIGN_BIT }
    }

    pub fn neg(self) -> (r: Binary64)
        ensures
            r == self.neg_spec(),
            r.sign() != self.sign(),
            r.magnitude() == self.magnitude(),
    {
        if self.bits >= SIGN_BIT {
            Binary64 { bits: self.bits - SIGN_BIT }
        } else {
            Binary64 { bits: self.bits + SIGN_BIT }
        }
    }

    pub fn max(self, other: Binary64) -> (r: Binary64)
        ensures
            r == self.max_spec(other),
    {
        if self.is_nan() {
            other
        } else if other.is_nan() {
            self
        } else if self.lt(other) {
            other
        } else {
            self
        }
    }

    pub fn min(self, other: Binary64) -> (r: Binary64)
        ensures
            r == self.min_spec(other),
    {
        if self.is_nan() {
            other
        } else if other.is_nan() {
            self
        } else if other.lt(self) {
            other
        } else {
            self
        }
    }
}

/// The rounding operations of binary64 arithmetic, supplied by the caller.
///
/// Nothing is assumed of an implementation: every function of this crate
/// that takes one is verified for whatever values its methods return, and
/// its contract says which operations, on which operands, gave each number
/// of its result (see [`is_sum`] and its neighbours). An
/// implementation backed by the machine's floating point unit maps each
/// method to the operation of the same name on the numbers that the bit
/// patterns encode.
pub trait Arithmetic {
    /// `a + b`.
    fn add(&self, a: Binary64, b: Binary64) -> Binary64;

    /// `a - b`.
    fn sub(&self, a: Binary64, b: Binary64) -> Binary64;

    /// `a * b`.
    fn mul(&self, a: Binary64, b: Binary64) -> Binary64;

    /// `a / b`.
    fn div(&self, a: Binary64, b: Binary64) -> Binary64;

    /// Square root.
    fn sqrt(&self, a: Binary64) -> Binary64;

    /// Sine of an angle in radians.
    fn sin(&self, a: Binary64) -> Binary64;

    /// Cosine of an angle in radians.
    fn cos(&self, a: Binary64) -> Binary64;

    /// Four-quadrant arctangent of `y / x`, in radians.
    fn atan2(&self, y: Binary64, x: Binary64) -> Binary64;

    /// The least integer not below `a`, saturated to the range of `usize`;
    /// zero for a NaN.
    fn ceil_to_count(&self, a: Binary64) -> usize;

    /// The binary64 nearest to an unsigned count.
    fn from_count(&self, n: usize) -> Binary64;

    /// Decimal text of `a` in fixed notation with twelve fractional digits.
    fn format_fixed(&self, a: Binary64) -> String;
}

/// Whether `r` is a value that `ops` gives for `a + b`.
pub open spec fn is_sum<A: Arithmetic>(ops: &A, a: Binary64, b: Binary64, r: Binary64) -> bool {
    call_ensures(A::add, (ops, a, b), r)
}

/// Whether `r` is a value that `ops` gives for `a - b`.
pub open spec fn is_difference<A: Arithmetic>(ops: &A, a: Binary64, b: Binary64, r: Binary64) -> bool {
    call_ensures(A::sub, (ops, a, b), r)
}

/// Whether `r` is a value that `ops` gives for `a * b`.
pub open spec fn is_product<A: Arithmetic>(ops: &A, a: Binary64, b: Binary64, r: Binary64) -> bool {
    call_ensures(A::mul, (ops, a, b), r)
}

/// Whether `r` is a value that `ops` gives for `a / b`.
pub open spec fn is_quotient<A: Arithmetic>(ops: &A, a: Binary64, b: Binary64, r: Binary64) -> bool {
    call_ensures(A::div, (ops, a, b), r)
}

/// Whether `r` is a value that `ops` gives for the square root of `a`.
pub open spec fn is_root<A: Arithmetic>(ops: &A, a: Binary64, r: Binary64) -> bool {
    call_ensures(A::sqrt, (ops, a), r)
}

/// Whether `r` is a value that `ops` gives for the arctangent of `y / x`.
pub open spec fn is_arctangent<A: Arithmetic>(ops: &A, y: Binary64, x: Binary64, r: Binary64) -> bool {
    call_ensures(A::atan2, (ops, y, x), r)
}

/// Whether `r` is a value that `ops` gives for the sine of `a`.
pub open spec fn is_sine<A: Arithmetic>(ops: &A, a: Binary64, r: Binary64) -> bool {
    call_ensures(A::sin, (ops, a), r)
}

/// Whether `r` is a value that `ops` gives for the cosine of `a`.
pub open spec fn is_cosine<A: Arithmetic>(ops: &A, a: Binary64, r: Binary64) -> bool {
    call_ensures(A::cos, (ops, a), r)
}

/// Whether `n` is a count that `ops` gives for `a` rounded up.
pub open spec fn is_ceiling<A: Arithmetic>(ops: &A, a: Binary64, n: usize) -> bool {
    call_ensures(A::ceil_to_count, (ops, a), n)
}

/// Whether `r` is a value that `ops` gives for the count `n`.
pub open spec fn is_count<A: Arithmetic>(ops: &A, n: usize, r: Binary64) -> bool {
    call_ensures(A::from_count, (ops, n), r)
}

/// Whether `t` is a text that `ops` gives for `a` in fixed notation.
pub open spec fn is_fixed_text<A: Arithmetic>(ops: &A, a: Binary64, t: Seq<char>) -> bool {
    exists|s: String| #[trigger] call_ensures(A::format_fixed, (ops, a), s) && s@ == t
}

} // verus!

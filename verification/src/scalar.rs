//! Sample values as 32-bit IEEE-754 words.
//!
//! The engine moves amplitudes, velocities and note numbers around far more
//! often than it computes with them.  A [`Scalar`] is such a value held by its
//! bit pattern: it can be stored, copied and compared exactly, and the caller
//! turns it into a machine number when it needs arithmetic.

use vstd::prelude::*;

verus! {

/// Bit pattern of positive infinity; every larger magnitude is not a number.
pub const INFINITY_BITS: u32 = 0x7F80_0000;

/// The sign bit of a 32-bit word.
pub const SIGN_BIT: u32 = 0x8000_0000;

/// Bit pattern of the value 1.
pub const ONE_BITS: u32 = 0x3F80_0000;

/// A single-precision value, held by its bit pattern.
#[derive(Clone, Copy, Debug, PartialEq, Eq, Structural)]
pub struct Scalar {
    pub bits: u32,
}

/// Magnitude bits of a word: the word without its sign bit.
pub open spec fn magnitude(bits: u32) -> int {
    if bits >= SIGN_BIT {
        bits - SIGN_BIT
    } else {
        bits as int
    }
}

/// Whether a word encodes "not a number".
pub open spec fn is_nan_bits(bits: u32) -> bool {
    magnitude(bits) > INFINITY_BITS
}

/// Position of a word on the number line, for words that are numbers.
///
/// Non-negative values order like their magnitude bits, negative values in
/// reverse; both zeros sit at 0.
pub open spec fn order_key(bits: u32) -> int {
    if bits >= SIGN_BIT {
        -magnitude(bits)
    } else {
        magnitude(bits)
    }
}

/// `a < b` as single-precision comparison defines it: false when either side
/// is not a number.
pub open spec fn less_than(a: u32, b: u32) -> bool {
    !is_nan_bits(a) && !is_nan_bits(b) && order_key(a) < order_key(b)
}

/// The lesser of two words, where a word that is not a number yields to the
/// other one.
pub open spec fn min_bits(a: u32, b: u32) -> u32 {
    if is_nan_bits(a) {
        b
    } else if is_nan_bits(b) {
        a
    } else if order_key(b) < order_key(a) {
        b
    } else {
        a
    }
}

/// The greater of two words, where a word that is not a number yields to the
/// other one.
pub open spec fn max_bits(a: u32, b: u32) -> u32 {
    if is_nan_bits(a) {
        b
    } else if is_nan_bits(b) {
        a
    } else if order_key(a) < order_key(b) {
        b
    } else {
        a
    }
}

impl Scalar {
    /// The value 0.
    pub fn zero() -> (s: Scalar)
        ensures
            s.bits == 0,
    {
        Scalar { bits: 0 }
    }

    /// The value 1.
    pub fn one() -> (s: Scalar)
        ensures
            s.bits == ONE_BITS,
    {
        Scalar { bits: ONE_BITS }
    }

    /// Wraps a bit pattern.
    pub fn from_bits(bits: u32) -> (s: Scalar)
        ensures
            s.bits == bits,
    {
        Scalar { bits }
    }

    /// The bit pattern.
    pub fn to_bits(&self) -> (bits: u32)
        ensures
            bits == self.bits,
    {
        self.bits
    }

    fn magnitude_of(&self) -> (m: u32)
        ensures
            m == magnitude(self.bits),
    {
        if self.bits >= SIGN_BIT {
            self.bits - SIGN_BIT
        } else {
            self.bits
        }
    }

    /// Whether the value is not a number.
    pub fn is_nan(&self) -> (r: bool)
        ensures
            r == is_nan_bits(self.bits),
    {
        self.magnitude_of() > INFINITY_BITS
    }

    /// Whether the value is 0, of either sign.
    pub fn is_zero(&self) -> (r: bool)
        ensures
            r == (magnitude(self.bits) == 0),
    {
        self.magnitude_of() == 0
    }

    /// Single-precision `self < other`.
    pub fn lt(&self, other: &Scalar) -> (r: bool)
        ensures
            r == less_than(self.bits, other.bits),
    {
        if self.is_nan() || other.is_nan() {
            return false;
        }
        let a: u32 = self.magnitude_of();
        let b: u32 = other.magnitude_of();
        let a_neg: bool = self.bits >= SIGN_BIT;
        let b_neg: bool = other.bits >= SIGN_BIT;
        if a_neg {
            if b_neg {
                b < a
            } else {
                a > 0 || b > 0
            }
        } else {
            if b_neg {
                false
            } else {
                a < b
            }
        }
    }

    /// Single-precision `self > other`.
    pub fn gt(&self, other: &Scalar) -> (r: bool)
        ensures
            r == less_than(other.bits, self.bits),
    {
        other.lt(self)
    }

    /// The lesser of the two; a value that is not a number yields to the other.
    pub fn min(self, other: Scalar) -> (r: Scalar)
        ensures
            r.bits == min_bits(self.bits, other.bits),
    {
        if self.is_nan() {
            other
        } else if other.is_nan() {
            self
        } else if other.lt(&self) {
            other
        } else {
            self
        }
    }

    /// The greater of the two; a value that is not a number yields to the other.
    pub fn max(self, other: Scalar) -> (r: Scalar)
        ensures
            r.bits == max_bits(self.bits, other.bits),
    {
        if self.is_nan() {
            other
        } else if other.is_nan() {
            self
        } else if self.lt(&other) {
            other
        } else {
            self
        }
    }
}

/// A word clamped between two numbers: the greater of the lower bound and
/// the lesser of the word and the upper bound.
pub open spec fn clamped_bits(x: u32, lo: u32, hi: u32) -> u32 {
    max_bits(min_bits(x, hi), lo)
}

/// Clamping between two numbers always yields a number between them, also
/// for a word that is not a number.
pub proof fn lemma_clamped_in_range(x: u32, lo: u32, hi: u32)
    requires
        !is_nan_bits(lo),
        !is_nan_bits(hi),
        order_key(lo) <= order_key(hi),
    ensures
        !is_nan_bits(clamped_bits(x, lo, hi)),
        order_key(lo) <= order_key(clamped_bits(x, lo, hi)) <= order_key(hi),
{
}

} // verus!

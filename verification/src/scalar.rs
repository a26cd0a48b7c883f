//! Single-precision numbers as bit patterns, and how they compare.
//!
//! Confidences, similarities and displacements come from numeric models. What
//! the engine does with them is compare them; that needs no arithmetic, only
//! the order that IEEE 754 gives to the bit patterns.
use vstd::prelude::*;

verus! {

/// An IEEE 754 single-precision number, held as its bit pattern.
#[derive(Debug, Clone, Copy, PartialEq, Eq, Structural)]
pub struct Scalar {
    pub bits: u32,
}

/// Bit patterns from here on have the sign bit set.
pub const SIGN_BIT: u32 = 0x8000_0000;

/// Bit pattern of positive infinity: larger magnitudes are not numbers.
pub const INFINITY_BITS: u32 = 0x7f80_0000;

impl Scalar {
    /// Positive zero.
    pub open spec fn zero() -> Scalar {
        Scalar { bits: 0 }
    }

    /// The bit pattern without its sign.
    pub open spec fn magnitude(self) -> int {
        if self.bits < SIGN_BIT {
            self.bits as int
        } else {
            self.bits - SIGN_BIT
        }
    }

    /// Whether this is "not a number".
    pub open spec fn is_nan(self) -> bool {
        self.magnitude() > INFINITY_BITS
    }

    /// Position in the order of the numbers: both zeros are at zero.
    pub open spec fn rank(self) -> int {
        if self.bits < SIGN_BIT {
            self.magnitude()
        } else {
            -self.magnitude()
        }
    }

    /// `self > other`, as IEEE 754 compares: never true of "not a number".
    pub open spec fn exceeds(self, other: Scalar) -> bool {
        !self.is_nan() && !other.is_nan() && self.rank() > other.rank()
    }

    /// The larger of `self` and zero; zero also for "not a number".
    pub open spec fn clamped(self) -> Scalar {
        if self.exceeds(Scalar::zero()) {
            self
        } else {
            Scalar::zero()
        }
    }

    /// `self > other`.
    pub fn is_above(self, other: Scalar) -> (b: bool)
        ensures
            b == self.exceeds(other),
    {
        let a: i64 = if self.bits < SIGN_BIT {
            self.bits as i64
        } else {
            (self.bits - SIGN_BIT) as i64
        };
        let b: i64 = if other.bits < SIGN_BIT {
            other.bits as i64
        } else {
            (other.bits - SIGN_BIT) as i64
        };
        if a > INFINITY_BITS as i64 || b > INFINITY_BITS as i64 {
            return false;
        }
        let left: i64 = if self.bits < SIGN_BIT {
            a
        } else {
            -a
        };
        let right: i64 = if other.bits < SIGN_BIT {
            b
        } else {
            -b
        };
        left > right
    }

    /// The larger of `self` and zero.
    pub fn clamp_at_zero(self) -> (c: Scalar)
        ensures
            c == self.clamped(),
    {
        if self.is_above(Scalar { bits: 0 }) {
            self
        } else {
            Scalar { bits: 0 }
        }
    }
}

/// Being larger is irreflexive and transitive, also across "not a number".
pub proof fn exceeding_is_a_strict_order(a: Scalar, b: Scalar, c: Scalar)
    ensures
        !a.exceeds(a),
        a.exceeds(b) && b.exceeds(c) ==> a.exceeds(c),
        a.exceeds(b) ==> !b.exceeds(a),
{
}

/// The order is that of the numbers, read off the bit patterns: among positive
/// numbers the larger pattern is the larger number, among negative ones the smaller,
/// every number exceeds every negative one unless both are zeros, and what is not a
/// number neither exceeds nor is exceeded.
pub proof fn scalars_are_ordered_as_numbers(a: Scalar, b: Scalar)
    ensures
        a.is_nan() <==> 0x7f80_0000 < a.bits < 0x8000_0000 || 0xff80_0000 < a.bits,
        a.is_nan() || b.is_nan() ==> !a.exceeds(b),
        a.bits <= 0x7f80_0000 && b.bits <= 0x7f80_0000 ==> (a.exceeds(b) <==> a.bits > b.bits),
        0x8000_0000 <= a.bits <= 0xff80_0000 && 0x8000_0000 <= b.bits <= 0xff80_0000 ==> (a.exceeds(
            b,
        ) <==> a.bits < b.bits),
        a.bits <= 0x7f80_0000 && 0x8000_0000 <= b.bits <= 0xff80_0000 ==> (a.exceeds(b) <==> a.bits
            > 0 || b.bits > 0x8000_0000),
        0x8000_0000 <= a.bits <= 0xff80_0000 && b.bits <= 0x7f80_0000 ==> !a.exceeds(b),
{
}

/// Clamping keeps every positive number as it is, and gives positive zero for
/// everything else.
pub proof fn clamping_keeps_the_positive(a: Scalar)
    ensures
        0 < a.bits <= 0x7f80_0000 ==> a.clamped() == a,
        !(0 < a.bits <= 0x7f80_0000) ==> a.clamped().bits == 0,
        !a.clamped().is_nan(),
        !a.exceeds(a.clamped()),
        a.clamped().clamped() == a.clamped(),
        Scalar::zero().bits == 0,
{
}

} // verus!

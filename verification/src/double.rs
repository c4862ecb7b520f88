//! Double precision numbers by their bit patterns.
//!
//! IEEE 754 lays a double out so that, sign aside, a greater number has a greater
//! bit pattern. What the library decides about doubles needs no more than that.

use vstd::prelude::*;

verus! {

/// The bit pattern of the sign.
pub const SIGN: u64 = 0x8000_0000_0000_0000;

/// The bit pattern of infinity; a magnitude above it is no number.
pub const INFINITY: u64 = 0x7ff0_0000_0000_0000;

/// A double precision number of IEEE 754.
#[derive(Clone, Copy, Debug, PartialEq, Eq, Structural)]
pub struct Double {
    pub bits: u64,
}

/// The bit pattern of zero.
pub const ZERO: u64 = 0;

/// The bit pattern of the distance from one to the next greater double, which is
/// two to the power of minus 52.
pub const EPSILON: u64 = 0x3cb0_0000_0000_0000;

/// The bit pattern of five.
pub const FIVE: u64 = 0x4014_0000_0000_0000;

impl Double {
    /// The bit pattern without its sign.
    pub open spec fn magnitude(self) -> int {
        if self.bits >= SIGN {
            self.bits - SIGN
        } else {
            self.bits as int
        }
    }

    /// Whether the bit pattern stands for no number.
    pub open spec fn not_a_number(self) -> bool {
        self.magnitude() > INFINITY
    }

    /// The place of the number among all doubles: negative below zero, zero for both
    /// zeros, and greater for a greater number.
    pub open spec fn rank(self) -> int {
        if self.bits >= SIGN {
            -self.magnitude()
        } else {
            self.magnitude()
        }
    }

    /// Whether both are numbers and `self` is less than `other`.
    pub open spec fn below(self, other: Double) -> bool {
        &&& !self.not_a_number()
        &&& !other.not_a_number()
        &&& self.rank() < other.rank()
    }

    /// Whether both are numbers and `self` is at least `other`.
    pub open spec fn reaches(self, other: Double) -> bool {
        &&& !self.not_a_number()
        &&& !other.not_a_number()
        &&& self.rank() >= other.rank()
    }

    /// `self` without its sign.
    pub open spec fn absolute(self) -> Double {
        Double { bits: self.magnitude() as u64 }
    }

    /// The number without its sign.
    pub fn abs(self) -> (result: Double)
        ensures
            result == self.absolute(),
    {
        if self.bits >= SIGN {
            Double { bits: self.bits - SIGN }
        } else {
            self
        }
    }

    /// Whether the number is less than the other; false where either is no number.
    pub fn less_than(self, other: Double) -> (result: bool)
        ensures
            result == self.below(other),
    {
        let mine: u64 = self.abs().bits;
        let its: u64 = other.abs().bits;
        if mine > INFINITY || its > INFINITY {
            return false;
        }
        if self.bits >= SIGN {
            if other.bits >= SIGN {
                its < mine
            } else {
                mine > 0 || its > 0
            }
        } else {
            other.bits < SIGN && mine < its
        }
    }

    /// Whether the number is at least the other; false where either is no number.
    pub fn at_least(self, other: Double) -> (result: bool)
        ensures
            result == self.reaches(other),
    {
        self.abs().bits <= INFINITY && other.abs().bits <= INFINITY && !self.less_than(other)
    }
}

/// Of two numbers either one is less than the other or the other reaches it, never both.
pub proof fn law_below_or_reaches(a: Double, b: Double)
    requires
        !a.not_a_number(),
        !b.not_a_number(),
    ensures
        a.below(b) <==> !a.reaches(b),
{
}

/// A number and its opposite have the same absolute value, which is not below zero.
pub proof fn law_absolute_value(a: Double, b: Double)
    requires
        !a.not_a_number(),
        b.rank() == -a.rank(),
    ensures
        a.absolute() == b.absolute(),
        a.absolute().reaches(Double { bits: ZERO }),
{
}

/// Doubles are ordered as IEEE 754 lays them out: among those without a sign the greater
/// bit pattern is the greater number, among those with a sign the smaller, any with a sign
/// is less than any without but for the two zeros, and what is no number is neither less
/// than anything nor at least anything.
pub proof fn law_order_of_bit_patterns(a: Double, b: Double)
    ensures
        a.not_a_number() <==> a.bits as int % 0x8000_0000_0000_0000 > 2047
            * 0x10_0000_0000_0000,
        a.absolute().bits == a.bits as int % 0x8000_0000_0000_0000,
        a.not_a_number() || b.not_a_number() ==> !a.below(b) && !a.reaches(b),
        !a.not_a_number() && !b.not_a_number() ==> {
            let a_negative = a.bits >= 0x8000_0000_0000_0000;
            let b_negative = b.bits >= 0x8000_0000_0000_0000;
            &&& a.reaches(b) <==> !a.below(b)
            &&& !a_negative && !b_negative ==> (a.below(b) <==> a.bits < b.bits)
            &&& a_negative && b_negative ==> (a.below(b) <==> a.bits > b.bits)
            &&& !a_negative && b_negative ==> !a.below(b)
            &&& a_negative && !b_negative ==> (a.below(b) <==> !(a.bits == 0x8000_0000_0000_0000
                && b.bits == 0))
        },
{
}

/// The constants are the numbers that they are called: the exponent of a double is biased
/// by 1023 and stands above 52 bits of fraction. The epsilon is two to the power of -52,
/// five is one and a quarter times two to the power of 2, and infinity has the greatest
/// exponent.
pub proof fn law_constants()
    ensures
        ZERO == 0,
        EPSILON == (1023 - 52) * 0x10_0000_0000_0000,
        FIVE == (1023 + 2) * 0x10_0000_0000_0000 + 0x10_0000_0000_0000int / 4,
        INFINITY == 2047 * 0x10_0000_0000_0000,
        SIGN == 2048 * 0x10_0000_0000_0000,
{
}

}

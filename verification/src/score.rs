//! Floating-point scores by their bit patterns.

use vstd::prelude::*;

pub mod laws;

verus! {

/// Bit pattern of the number one.
pub const ONE_BITS: u64 = 0x3ff0_0000_0000_0000;

/// Bit pattern of infinity: patterns above it, sign aside, are no numbers.
pub const INFINITE_BITS: u64 = 0x7ff0_0000_0000_0000;

/// The sign bit.
pub const SIGN_BITS: u64 = 0x8000_0000_0000_0000;

/// A 64-bit floating-point number, held by its IEEE 754 bit pattern.
#[derive(Clone, Copy, Debug, PartialEq, Eq, Structural)]
pub struct Score {
    pub bits: u64,
}

impl Score {
    /// The bit pattern without its sign.
    pub open spec fn magnitude(self) -> int {
        if self.bits >= SIGN_BITS {
            self.bits - SIGN_BITS
        } else {
            self.bits as int
        }
    }

    /// Whether the pattern stands for no number.
    pub open spec fn not_a_number(self) -> bool {
        self.magnitude() > INFINITE_BITS
    }

    /// A whole number that orders numbers as their values do: patterns of one
    /// sign are ordered as integers, and both zeros come out equal.
    pub open spec fn rank(self) -> int {
        if self.bits >= SIGN_BITS {
            -self.magnitude()
        } else {
            self.magnitude()
        }
    }

    /// Whether the number lies between zero and one, ends included.
    pub open spec fn in_unit(self) -> bool {
        !self.not_a_number() && 0 <= self.rank() <= ONE_BITS
    }

    /// Whether the number is at least another one. Never, where either is no
    /// number.
    pub open spec fn at_least(self, other: Score) -> bool {
        !self.not_a_number() && !other.not_a_number() && self.rank() >= other.rank()
    }

    /// The number zero.
    pub open spec fn spec_zero() -> Score {
        Score { bits: 0 }
    }

    /// The number zero.
    pub fn zero() -> (r: Score)
        ensures
            r == Score::spec_zero(),
    {
        Score { bits: 0 }
    }

    /// Whether the pattern stands for no number.
    pub fn is_nan(self) -> (r: bool)
        ensures
            r == self.not_a_number(),
    {
        if self.bits >= SIGN_BITS {
            self.bits - SIGN_BITS > INFINITE_BITS
        } else {
            self.bits > INFINITE_BITS
        }
    }

    /// A whole number that orders numbers as their values do.
    pub fn order(self) -> (r: i128)
        ensures
            r == self.rank(),
    {
        if self.bits >= SIGN_BITS {
            -((self.bits - SIGN_BITS) as i128)
        } else {
            self.bits as i128
        }
    }

    /// Whether the number lies between zero and one, ends included.
    pub fn is_unit(self) -> (r: bool)
        ensures
            r == self.in_unit(),
    {
        let rank: i128 = self.order();
        !self.is_nan() && 0 <= rank && rank <= ONE_BITS as i128
    }

    /// Whether the number is at least another one.
    pub fn is_at_least(self, other: Score) -> (r: bool)
        ensures
            r == self.at_least(other),
    {
        let a: i128 = self.order();
        let b: i128 = other.order();
        !self.is_nan() && !other.is_nan() && a >= b
    }
}

/// Whether an optional score is absent or between zero and one.
pub open spec fn unit_or_absent(score: Option<Score>) -> bool {
    score is Some ==> score->0.in_unit()
}

/// Whether an optional score is absent or between zero and one.
pub fn is_unit_or_absent(score: Option<Score>) -> (r: bool)
    ensures
        r == unit_or_absent(score),
{
    match score {
        Some(score) => score.is_unit(),
        None => true,
    }
}

/// Numbers are totally ordered: of two, one is at least the other.
pub proof fn law_scores_are_ordered(a: Score, b: Score)
    requires
        !a.not_a_number(),
        !b.not_a_number(),
    ensures
        a.at_least(b) || b.at_least(a),
{
}

} // verus!

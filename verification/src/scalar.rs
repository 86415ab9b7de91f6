//! Kinematic quantities as opaque bit patterns.

use vstd::prelude::*;

verus! {

/// A single-precision number held as its IEEE-754 bit pattern.
///
/// Values of this type are stored, copied and put on the wire; the library
/// never does arithmetic on them. Two scalars are equal when their bits are.
#[derive(Clone, Copy, Debug, PartialEq, Eq, Structural)]
pub struct Scalar {
    pub bits: u32,
}

impl Scalar {
    /// The scalar with the given bit pattern.
    pub fn from_bits(bits: u32) -> (s: Scalar)
        ensures
            s.bits == bits,
    {
        Scalar { bits }
    }

    /// The bit pattern of this scalar.
    pub fn to_bits(self) -> (bits: u32)
        ensures
            bits == self.bits,
    {
        self.bits
    }

    /// Whether the number is greater than zero: its sign bit is clear, and
    /// it is neither zero nor a NaN.
    pub open spec fn spec_is_positive(self) -> bool {
        0 < self.bits <= 0x7f80_0000
    }

    /// Whether the number is greater than zero.
    #[verifier::when_used_as_spec(spec_is_positive)]
    pub fn is_positive(self) -> (positive: bool)
        ensures
            positive == self.spec_is_positive(),
    {
        0 < self.bits && self.bits <= 0x7f80_0000
    }

    /// Whether the number is greater than `threshold`, which is itself
    /// greater than zero: numbers above zero are ordered as their bit
    /// patterns are.
    pub open spec fn spec_is_above(self, threshold: Scalar) -> bool {
        threshold.bits < self.bits <= 0x7f80_0000
    }

    /// Whether the number is greater than `threshold`.
    #[verifier::when_used_as_spec(spec_is_above)]
    pub fn is_above(self, threshold: Scalar) -> (above: bool)
        requires
            threshold.spec_is_positive(),
        ensures
            above == self.spec_is_above(threshold),
    {
        threshold.bits < self.bits && self.bits <= 0x7f80_0000
    }

    /// Positive zero.
    pub open spec fn spec_zero() -> Scalar {
        Scalar { bits: 0 }
    }

    /// Positive zero.
    #[verifier::when_used_as_spec(spec_zero)]
    pub fn zero() -> (s: Scalar)
        ensures
            s == Scalar::spec_zero(),
    {
        Scalar { bits: 0 }
    }
}

/// A point or a displacement in world units.
#[derive(Clone, Copy, Debug, PartialEq, Eq, Structural)]
pub struct Vec2 {
    pub x: Scalar,
    pub y: Scalar,
}

impl Vec2 {
    /// The vector with the given components.
    pub fn new(x: Scalar, y: Scalar) -> (v: Vec2)
        ensures
            v.x == x,
            v.y == y,
    {
        Vec2 { x, y }
    }

    /// The origin.
    pub open spec fn spec_zero() -> Vec2 {
        Vec2 { x: Scalar::spec_zero(), y: Scalar::spec_zero() }
    }

    /// The origin.
    #[verifier::when_used_as_spec(spec_zero)]
    pub fn zero() -> (v: Vec2)
        ensures
            v == Vec2::spec_zero(),
    {
        Vec2 { x: Scalar::zero(), y: Scalar::zero() }
    }
}

} // verus!

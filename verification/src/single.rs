//! IEEE-754 single-precision numbers held by their bit patterns.
//!
//! The engine stores depths and scales that the shaders read as
//! single-precision numbers. The library never computes with them; it only
//! carries them and orders them, and both can be said over the 32 bits.

use vstd::prelude::*;

verus! {

/// The bit that holds the sign.
pub const SIGN_BIT: u32 = 0x8000_0000;

/// The magnitude of the infinities: every larger magnitude is a NaN.
pub const INFINITY_MAGNITUDE: u32 = 0x7f80_0000;

/// A single-precision number, kept as its 32 bits.
#[derive(Clone, Copy, Debug, PartialEq, Eq, Structural)]
pub struct Single {
    bits: u32,
}

impl Single {
    /// The bit pattern.
    pub closed spec fn bits(self) -> u32 {
        self.bits
    }

    /// The number with all bits clear but the sign: the pattern without bit 31.
    pub open spec fn magnitude(self) -> int {
        if self.bits() >= SIGN_BIT {
            self.bits() - SIGN_BIT
        } else {
            self.bits() as int
        }
    }

    /// Whether the sign bit is set.
    pub open spec fn is_negative(self) -> bool {
        self.bits() >= SIGN_BIT
    }

    /// Whether the pattern is a NaN: the exponent is all ones and the
    /// fraction is not zero.
    pub open spec fn spec_is_nan(self) -> bool {
        self.magnitude() > INFINITY_MAGNITUDE
    }

    /// An integer that orders the patterns that are not NaN as the numbers
    /// they stand for are ordered. Both zeros have the key 0.
    pub open spec fn key(self) -> int {
        if self.is_negative() {
            -self.magnitude()
        } else {
            self.magnitude()
        }
    }

    /// `self < other` as IEEE-754 defines it: false if either is a NaN.
    pub open spec fn spec_less_than(self, other: Single) -> bool {
        !self.spec_is_nan() && !other.spec_is_nan() && self.key() < other.key()
    }

    /// The number with the given bit pattern.
    pub fn from_bits(bits: u32) -> (x: Single)
        ensures
            x.bits() == bits,
    {
        Single { bits }
    }

    /// The bit pattern of the number.
    pub fn to_bits(self) -> (bits: u32)
        ensures
            bits == self.bits(),
    {
        self.bits
    }

    /// Positive zero.
    pub closed spec fn spec_zero() -> Single {
        Single { bits: 0 }
    }

    /// The number one.
    pub closed spec fn spec_one() -> Single {
        Single { bits: 0x3f80_0000 }
    }

    /// Positive zero.
    #[verifier::when_used_as_spec(spec_zero)]
    pub fn zero() -> (x: Single)
        ensures
            x == Single::spec_zero(),
            x.bits() == 0,
    {
        Single { bits: 0 }
    }

    /// The number one.
    #[verifier::when_used_as_spec(spec_one)]
    pub fn one() -> (x: Single)
        ensures
            x == Single::spec_one(),
            x.bits() == 0x3f80_0000,
    {
        Single { bits: 0x3f80_0000 }
    }

    /// Whether the number is a NaN.
    #[verifier::when_used_as_spec(spec_is_nan)]
    pub fn is_nan(self) -> (nan: bool)
        ensures
            nan == self.spec_is_nan(),
    {
        if self.bits >= SIGN_BIT {
            self.bits - SIGN_BIT > INFINITY_MAGNITUDE
        } else {
            self.bits > INFINITY_MAGNITUDE
        }
    }

    /// Whether `self < other`; false if either is a NaN.
    #[verifier::when_used_as_spec(spec_less_than)]
    pub fn less_than(self, other: Single) -> (less: bool)
        ensures
            less == self.spec_less_than(other),
    {
        if self.is_nan() || other.is_nan() {
            return false;
        }
        let self_negative = self.bits >= SIGN_BIT;
        let other_negative = other.bits >= SIGN_BIT;
        if self_negative && other_negative {
            // Both negative: the larger magnitude is the smaller number.
            self.bits > other.bits
        } else if self_negative {
            // Negative zero is not less than positive zero.
            self.bits > SIGN_BIT || other.bits > 0
        } else if other_negative {
            false
        } else {
            self.bits < other.bits
        }
    }
}

/// No number is less than itself.
pub proof fn lemma_less_than_irreflexive(a: Single)
    ensures
        !a.spec_less_than(a),
{
}

/// `<` is transitive.
pub proof fn lemma_less_than_transitive(a: Single, b: Single, c: Single)
    requires
        a.spec_less_than(b),
        b.spec_less_than(c),
    ensures
        a.spec_less_than(c),
{
}

/// Of two numbers of which neither is a NaN, one is less than the other or
/// they have the same key.
pub proof fn lemma_less_than_total(a: Single, b: Single)
    requires
        !a.spec_is_nan(),
        !b.spec_is_nan(),
    ensures
        a.spec_less_than(b) || b.spec_less_than(a) || a.key() == b.key(),
{
}

} // verus!

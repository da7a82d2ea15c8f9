//! Single-precision quantities, held by their IEEE 754 bit pattern.
//!
//! Distances along a ray, coordinates and colour channels travel through the
//! library as `Scalar`s. The library never does arithmetic on them: it orders
//! them, flips their sign and recognises a few constants, all of which are
//! questions about the bit pattern alone.

use vstd::prelude::*;

verus! {

/// The sign bit of a pattern.
pub const SIGN_BIT: u32 = 0x8000_0000;

/// The magnitude of an infinity; every larger magnitude is not a number.
pub const INFINITE_MAGNITUDE: u32 = 0x7f80_0000;

/// The pattern of the value one.
pub const ONE_BITS: u32 = 0x3f80_0000;

/// A single-precision value.
#[derive(Clone, Copy, Debug, PartialEq, Eq, Structural)]
pub struct Scalar {
    pub bits: u32,
}

impl Scalar {
    /// The pattern with the sign bit cleared.
    pub open spec fn magnitude(self) -> int {
        if self.bits < SIGN_BIT {
            self.bits as int
        } else {
            self.bits - SIGN_BIT
        }
    }

    /// Whether the sign bit is set.
    pub open spec fn sign(self) -> bool {
        self.bits >= SIGN_BIT
    }

    /// Whether the pattern encodes no number.
    pub open spec fn nan(self) -> bool {
        self.magnitude() > INFINITE_MAGNITUDE
    }

    /// Position on the number line. Larger magnitudes lie further from zero,
    /// on the side the sign names; both zeros share position 0.
    pub open spec fn rank(self) -> int {
        if self.sign() {
            -self.magnitude()
        } else {
            self.magnitude()
        }
    }

    /// `self < other` as IEEE 754 orders them: false whenever either is not a
    /// number.
    pub open spec fn spec_lt(self, other: Scalar) -> bool {
        !self.nan() && !other.nan() && self.rank() < other.rank()
    }

    /// `self <= other` as IEEE 754 orders them.
    pub open spec fn spec_le(self, other: Scalar) -> bool {
        !self.nan() && !other.nan() && self.rank() <= other.rank()
    }

    /// `self > other` as IEEE 754 orders them.
    pub open spec fn spec_gt(self, other: Scalar) -> bool {
        other.spec_lt(self)
    }

    /// `self >= other` as IEEE 754 orders them.
    pub open spec fn spec_ge(self, other: Scalar) -> bool {
        other.spec_le(self)
    }

    /// The value with its sign flipped.
    pub open spec fn spec_neg(self) -> Scalar {
        if self.bits < SIGN_BIT {
            Scalar { bits: (self.bits + SIGN_BIT) as u32 }
        } else {
            Scalar { bits: (self.bits - SIGN_BIT) as u32 }
        }
    }

    /// The lesser of two values, passing over an operand that is not a number.
    pub open spec fn spec_min(self, other: Scalar) -> Scalar {
        if self.nan() {
            other
        } else if other.spec_lt(self) {
            other
        } else {
            self
        }
    }

    /// The greater of two values, passing over an operand that is not a number.
    pub open spec fn spec_max(self, other: Scalar) -> Scalar {
        if self.nan() {
            other
        } else if self.spec_lt(other) {
            other
        } else {
            self
        }
    }

    /// Wraps a bit pattern.
    pub fn from_bits(bits: u32) -> (s: Scalar)
        ensures
            s.bits == bits,
    {
        Scalar { bits }
    }

    /// The bit pattern.
    pub fn to_bits(self) -> (bits: u32)
        ensures
            bits == self.bits,
    {
        self.bits
    }

    /// Positive zero.
    #[verifier::when_used_as_spec(spec_zero)]
    pub fn zero() -> (s: Scalar)
        ensures
            s == Scalar::spec_zero(),
    {
        Scalar { bits: 0 }
    }

    pub open spec fn spec_zero() -> Scalar {
        Scalar { bits: 0 }
    }

    /// The value one.
    #[verifier::when_used_as_spec(spec_one)]
    pub fn one() -> (s: Scalar)
        ensures
            s == Scalar::spec_one(),
    {
        Scalar { bits: ONE_BITS }
    }

    pub open spec fn spec_one() -> Scalar {
        Scalar { bits: ONE_BITS }
    }

    /// Positive infinity: no number ranks above it.
    #[verifier::when_used_as_spec(spec_infinity)]
    pub fn infinity() -> (s: Scalar)
        ensures
            s == Scalar::spec_infinity(),
    {
        Scalar { bits: INFINITE_MAGNITUDE }
    }

    pub open spec fn spec_infinity() -> Scalar {
        Scalar { bits: INFINITE_MAGNITUDE }
    }

    /// Negative infinity: no number ranks below it.
    #[verifier::when_used_as_spec(spec_neg_infinity)]
    pub fn neg_infinity() -> (s: Scalar)
        ensures
            s == Scalar::spec_neg_infinity(),
    {
        Scalar { bits: 0xff80_0000 }
    }

    pub open spec fn spec_neg_infinity() -> Scalar {
        Scalar { bits: 0xff80_0000 }
    }

    /// Whether the pattern encodes no number.
    #[verifier::when_used_as_spec(nan)]
    pub fn is_nan(self) -> (r: bool)
        ensures
            r == self.nan(),
    {
        let magnitude: u32 = if self.bits < SIGN_BIT {
            self.bits
        } else {
            self.bits - SIGN_BIT
        };
        magnitude > INFINITE_MAGNITUDE
    }

    /// Position on the number line, as a machine integer.
    pub fn position(self) -> (r: i64)
        ensures
            r == self.rank(),
    {
        if self.bits < SIGN_BIT {
            self.bits as i64
        } else {
            -((self.bits - SIGN_BIT) as i64)
        }
    }

    /// `self < other`.
    #[verifier::when_used_as_spec(spec_lt)]
    pub fn lt(self, other: Scalar) -> (r: bool)
        ensures
            r == self.spec_lt(other),
    {
        !self.is_nan() && !other.is_nan() && self.position() < other.position()
    }

    /// `self <= other`.
    #[verifier::when_used_as_spec(spec_le)]
    pub fn le(self, other: Scalar) -> (r: bool)
        ensures
            r == self.spec_le(other),
    {
        !self.is_nan() && !other.is_nan() && self.position() <= other.position()
    }

    /// `self > other`.
    #[verifier::when_used_as_spec(spec_gt)]
    pub fn gt(self, other: Scalar) -> (r: bool)
        ensures
            r == self.spec_gt(other),
    {
        other.lt(self)
    }

    /// `self >= other`.
    #[verifier::when_used_as_spec(spec_ge)]
    pub fn ge(self, other: Scalar) -> (r: bool)
        ensures
            r == self.spec_ge(other),
    {
        other.le(self)
    }

    /// The value with its sign flipped. Flipping twice gives the value back.
    #[verifier::when_used_as_spec(spec_neg)]
    pub fn neg(self) -> (r: Scalar)
        ensures
            r == self.spec_neg(),
            r.spec_neg() == self,
            r.nan() == self.nan(),
            r.rank() == -self.rank(),
    {
        if self.bits < SIGN_BIT {
            Scalar { bits: self.bits + SIGN_BIT }
        } else {
            Scalar { bits: self.bits - SIGN_BIT }
        }
    }

    /// The lesser of two values. Where one operand is not a number the other
    /// is returned; where neither is below the other, `self`.
    #[verifier::when_used_as_spec(spec_min)]
    pub fn min(self, other: Scalar) -> (r: Scalar)
        ensures
            r == self.spec_min(other),
    {
        if self.is_nan() {
            other
        } else if other.lt(self) {
            other
        } else {
            self
        }
    }

    /// The greater of two values. Where one operand is not a number the other
    /// is returned; where neither is above the other, `self`.
    #[verifier::when_used_as_spec(spec_max)]
    pub fn max(self, other: Scalar) -> (r: Scalar)
        ensures
            r == self.spec_max(other),
    {
        if self.is_nan() {
            other
        } else if self.lt(other) {
            other
        } else {
            self
        }
    }
}

/// The magnitude of a double-precision infinity; every larger magnitude is
/// not a number.
pub const INFINITE_MAGNITUDE_DOUBLE: u64 = 0x7ff0_0000_0000_0000;

/// The sign bit of a double-precision pattern.
pub const SIGN_BIT_DOUBLE: u64 = 0x8000_0000_0000_0000;

/// A double-precision value, held by its IEEE 754 bit pattern. The library
/// carries such values and tells their sign; it does not
/// compute with them.
#[derive(Clone, Copy, Debug, PartialEq, Eq, Structural)]
pub struct Double {
    pub bits: u64,
}

impl Double {
    /// Whether the value is a number greater than zero: the sign bit is
    /// clear and the magnitude is neither zero nor beyond infinity.
    pub open spec fn positive(self) -> bool {
        0 < self.bits <= INFINITE_MAGNITUDE_DOUBLE
    }

    /// Whether the value is a number that is not negative: the sign bit is
    /// clear and the magnitude is not beyond infinity, or the value is
    /// negative zero.
    pub open spec fn not_negative(self) -> bool {
        self.bits <= INFINITE_MAGNITUDE_DOUBLE || self.bits == SIGN_BIT_DOUBLE
    }

    /// Wraps a bit pattern.
    pub fn from_bits(bits: u64) -> (d: Double)
        ensures
            d.bits == bits,
    {
        Double { bits }
    }

    /// The bit pattern.
    pub fn to_bits(self) -> (bits: u64)
        ensures
            bits == self.bits,
    {
        self.bits
    }

    /// Whether the value is a number greater than zero.
    #[verifier::when_used_as_spec(positive)]
    pub fn is_positive(self) -> (r: bool)
        ensures
            r == self.positive(),
    {
        0 < self.bits && self.bits <= INFINITE_MAGNITUDE_DOUBLE
    }

    /// Whether the value is a number that is not negative: positive, or a
    /// zero of either sign.
    #[verifier::when_used_as_spec(not_negative)]
    pub fn is_not_negative(self) -> (r: bool)
        ensures
            r == self.not_negative(),
    {
        self.bits <= INFINITE_MAGNITUDE_DOUBLE || self.bits == SIGN_BIT_DOUBLE
    }
}

/// On numbers the order is a strict total order up to the sign of zero: no
/// number lies below itself, the order is transitive, and of two numbers
/// either one lies below the other or both stand at the same position.
/// Being no greater is lying below or standing at the same position.
pub proof fn lemma_order_is_total(a: Scalar, b: Scalar, c: Scalar)
    requires
        !a.nan(),
        !b.nan(),
        !c.nan(),
    ensures
        !a.spec_lt(a),
        a.spec_lt(b) && b.spec_lt(c) ==> a.spec_lt(c),
        a.spec_lt(b) || b.spec_lt(a) || a.rank() == b.rank(),
        !(a.spec_lt(b) && b.spec_lt(a)),
        a.spec_le(b) <==> a.spec_lt(b) || a.rank() == b.rank(),
        a.spec_le(b) <==> !b.spec_lt(a),
        a.rank() == b.rank() <==> a == b || (a.magnitude() == 0 && b.magnitude() == 0),
{
}

/// The lesser of two numbers is one of them and is above neither; likewise
/// the greater is one of them and below neither.
pub proof fn lemma_min_max_bounds(a: Scalar, b: Scalar)
    requires
        !a.nan(),
        !b.nan(),
    ensures
        a.spec_min(b) == a || a.spec_min(b) == b,
        a.spec_min(b).spec_le(a),
        a.spec_min(b).spec_le(b),
        a.spec_max(b) == a || a.spec_max(b) == b,
        a.spec_le(a.spec_max(b)),
        b.spec_le(a.spec_max(b)),
{
}

} // verus!

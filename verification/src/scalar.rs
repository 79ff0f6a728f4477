use vstd::prelude::*;

verus! {

/// The bit pattern whose only set bit is the sign bit.
pub const SIGN_BIT: u32 = 0x8000_0000;

/// The bit pattern of positive infinity: every pattern whose magnitude is
/// larger is not a number.
pub const INFINITY_BITS: u32 = 0x7F80_0000;

/// An IEEE 754 binary32 number, held by its bit pattern.
///
/// `==` on this type is identity of bit patterns. The order of the numbers
/// themselves is [`Scalar::lt`].
#[derive(Clone, Copy, Debug, PartialEq, Eq, Structural)]
pub struct Scalar {
    pub bits: u32,
}

impl Scalar {
    /// Whether the sign bit is set.
    pub open spec fn sign(self) -> bool {
        self.bits >= SIGN_BIT
    }

    /// The pattern without its sign bit, as a number.
    pub open spec fn magnitude(self) -> int {
        if self.sign() {
            self.bits - SIGN_BIT
        } else {
            self.bits as int
        }
    }

    /// Whether the pattern is one of those that stand for no number.
    pub open spec fn is_nan(self) -> bool {
        self.magnitude() > INFINITY_BITS
    }

    /// An integer that orders the patterns as the numbers they stand for are
    /// ordered. Both zeros have rank 0.
    pub open spec fn rank(self) -> int {
        if self.sign() {
            -self.magnitude()
        } else {
            self.magnitude()
        }
    }

    /// Whether the pattern is one of the two that stand for zero.
    pub open spec fn is_zero(self) -> bool {
        self.magnitude() == 0
    }

    /// `self < other` as IEEE 754 defines it: false whenever either side is
    /// not a number.
    pub open spec fn less(self, other: Scalar) -> bool {
        !self.is_nan() && !other.is_nan() && self.rank() < other.rank()
    }

    /// The number with the given bit pattern.
    pub fn from_bits(bits: u32) -> (r: Scalar)
        ensures
            r.bits == bits,
    {
        Scalar { bits }
    }

    /// The bit pattern of the number.
    pub fn to_bits(self) -> (r: u32)
        ensures
            r == self.bits,
    {
        self.bits
    }

    /// Whether `self < other`.
    pub fn lt(self, other: Scalar) -> (r: bool)
        ensures
            r == self.less(other),
    {
        let a: i64 = Self::rank_of(self.bits);
        let b: i64 = Self::rank_of(other.bits);
        Self::magnitude_of(self.bits) <= INFINITY_BITS && Self::magnitude_of(other.bits)
            <= INFINITY_BITS && a < b
    }

    fn magnitude_of(bits: u32) -> (r: u32)
        ensures
            r == (Scalar { bits }).magnitude(),
    {
        if bits >= SIGN_BIT {
            bits - SIGN_BIT
        } else {
            bits
        }
    }

    fn rank_of(bits: u32) -> (r: i64)
        ensures
            r == (Scalar { bits }).rank(),
    {
        let m: i64 = Self::magnitude_of(bits) as i64;
        if bits >= SIGN_BIT {
            -m
        } else {
            m
        }
    }
}

} // verus!

//! Numbers as this library holds them: binary64 values kept by their bit
//! pattern. The library moves them around, compares them and flips their
//! sign; it never does arithmetic on them.
use vstd::prelude::*;

verus! {

/// The sign bit of a binary64 pattern.
pub const SIGN_BIT: u64 = 0x8000_0000_0000_0000;

/// The pattern of positive infinity; every larger magnitude is not a number.
pub const INFINITY_BITS: u64 = 0x7FF0_0000_0000_0000;

/// The pattern of the number one.
pub const ONE_BITS: u64 = 0x3FF0_0000_0000_0000;

/// A binary64 number, held by its 64 bits. `==` on two scalars compares the
/// bits; `equals` compares the numbers.
#[derive(Clone, Copy, Debug, PartialEq, Eq, Structural)]
pub struct Scalar {
    pub bits: u64,
}

impl Scalar {
    /// The pattern with the sign bit cleared.
    pub open spec fn magnitude(self) -> int {
        if self.bits >= SIGN_BIT {
            self.bits - SIGN_BIT
        } else {
            self.bits as int
        }
    }

    /// Whether the sign bit is set.
    pub open spec fn is_negative(self) -> bool {
        self.bits >= SIGN_BIT
    }

    /// Whether the pattern encodes no number.
    pub open spec fn is_nan_spec(self) -> bool {
        self.magnitude() > INFINITY_BITS
    }

    /// An integer that grows with the number encoded: for two patterns that
    /// are numbers, the first number is below the second exactly when its
    /// rank is. Both zeros have rank 0.
    pub open spec fn rank(self) -> int {
        if self.is_negative() {
            -self.magnitude()
        } else {
            self.magnitude()
        }
    }

    /// Like `rank`, but one-to-one on patterns: negative zero comes just
    /// before positive zero.
    pub open spec fn key(self) -> int {
        if self.is_negative() {
            -self.magnitude() - 1
        } else {
            self.magnitude()
        }
    }

    /// The rank by which numbers are put in a row: `rank` for a number, and
    /// a rank above every number's for a pattern that is none.
    pub open spec fn sort_rank(self) -> int {
        if self.is_nan_spec() {
            i64::MAX as int
        } else {
            self.rank()
        }
    }

    pub open spec fn lt_spec(self, other: Scalar) -> bool {
        !self.is_nan_spec() && !other.is_nan_spec() && self.rank() < other.rank()
    }

    pub open spec fn le_spec(self, other: Scalar) -> bool {
        !self.is_nan_spec() && !other.is_nan_spec() && self.rank() <= other.rank()
    }

    pub open spec fn gt_spec(self, other: Scalar) -> bool {
        other.lt_spec(self)
    }

    pub open spec fn ge_spec(self, other: Scalar) -> bool {
        other.le_spec(self)
    }

    pub open spec fn equals_spec(self, other: Scalar) -> bool {
        !self.is_nan_spec() && !other.is_nan_spec() && self.rank() == other.rank()
    }

    /// The smaller of two numbers. A pattern that is no number gives way to
    /// the other argument; of the two zeros the negative one is the smaller.
    pub open spec fn min_spec(self, other: Scalar) -> Scalar {
        if self.is_nan_spec() {
            other
        } else if other.is_nan_spec() {
            self
        } else if other.key() < self.key() {
            other
        } else {
            self
        }
    }

    /// The larger of two numbers, with the conventions of `min_spec`.
    pub open spec fn max_spec(self, other: Scalar) -> Scalar {
        if self.is_nan_spec() {
            other
        } else if other.is_nan_spec() {
            self
        } else if other.key() > self.key() {
            other
        } else {
            self
        }
    }

    /// The pattern with the sign bit flipped.
    pub open spec fn neg_spec(self) -> Scalar {
        if self.bits >= SIGN_BIT {
            Scalar { bits: (self.bits - SIGN_BIT) as u64 }
        } else {
            Scalar { bits: (self.bits + SIGN_BIT) as u64 }
        }
    }

    /// The pattern with the sign bit cleared.
    pub open spec fn abs_spec(self) -> Scalar {
        Scalar { bits: self.magnitude() as u64 }
    }

    pub open spec fn zero_spec() -> Scalar {
        Scalar { bits: 0 }
    }

    pub open spec fn one_spec() -> Scalar {
        Scalar { bits: ONE_BITS }
    }

    pub open spec fn infinity_spec() -> Scalar {
        Scalar { bits: INFINITY_BITS }
    }

    pub open spec fn neg_infinity_spec() -> Scalar {
        Scalar { bits: 0xFFF0_0000_0000_0000 }
    }

    pub fn from_bits(bits: u64) -> (s: Scalar)
        ensures
            s.bits == bits,
    {
        Scalar { bits }
    }

    pub fn to_bits(self) -> (bits: u64)
        ensures
            bits == self.bits,
    {
        self.bits
    }

    #[verifier::when_used_as_spec(zero_spec)]
    pub fn zero() -> (s: Scalar)
        ensures
            s == Scalar::zero_spec(),
    {
        Scalar { bits: 0 }
    }

    #[verifier::when_used_as_spec(one_spec)]
    pub fn one() -> (s: Scalar)
        ensures
            s == Scalar::one_spec(),
    {
        Scalar { bits: ONE_BITS }
    }

    #[verifier::when_used_as_spec(infinity_spec)]
    pub fn infinity() -> (s: Scalar)
        ensures
            s == Scalar::infinity_spec(),
    {
        Scalar { bits: INFINITY_BITS }
    }

    #[verifier::when_used_as_spec(neg_infinity_spec)]
    pub fn neg_infinity() -> (s: Scalar)
        ensures
            s == Scalar::neg_infinity_spec(),
    {
        Scalar { bits: 0xFFF0_0000_0000_0000 }
    }

    #[verifier::when_used_as_spec(is_nan_spec)]
    pub fn is_nan(self) -> (b: bool)
        ensures
            b == self.is_nan_spec(),
    {
        if self.bits >= SIGN_BIT {
            self.bits - SIGN_BIT > INFINITY_BITS
        } else {
            self.bits > INFINITY_BITS
        }
    }

    /// `rank` as a machine integer.
    pub fn ordinal(self) -> (r: i64)
        ensures
            r == self.rank(),
    {
        if self.bits >= SIGN_BIT {
            let m: u64 = self.bits - SIGN_BIT;
            0 - (m as i64)
        } else {
            self.bits as i64
        }
    }

    /// `sort_rank` as a machine integer.
    pub fn sort_ordinal(self) -> (r: i64)
        ensures
            r == self.sort_rank(),
    {
        if self.is_nan() {
            i64::MAX
        } else {
            self.ordinal()
        }
    }

    /// `key` as a machine integer.
    pub fn total_ordinal(self) -> (r: i64)
        ensures
            r == self.key(),
    {
        if self.bits >= SIGN_BIT {
            let m: u64 = self.bits - SIGN_BIT;
            -1 - (m as i64)
        } else {
            self.bits as i64
        }
    }

    #[verifier::when_used_as_spec(lt_spec)]
    pub fn lt(self, other: Scalar) -> (b: bool)
        ensures
            b == self.lt_spec(other),
    {
        !self.is_nan() && !other.is_nan() && self.ordinal() < other.ordinal()
    }

    #[verifier::when_used_as_spec(le_spec)]
    pub fn le(self, other: Scalar) -> (b: bool)
        ensures
            b == self.le_spec(other),
    {
        !self.is_nan() && !other.is_nan() && self.ordinal() <= other.ordinal()
    }

    #[verifier::when_used_as_spec(gt_spec)]
    pub fn gt(self, other: Scalar) -> (b: bool)
        ensures
            b == self.gt_spec(other),
    {
        other.lt(self)
    }

    #[verifier::when_used_as_spec(ge_spec)]
    pub fn ge(self, other: Scalar) -> (b: bool)
        ensures
            b == self.ge_spec(other),
    {
        other.le(self)
    }

    #[verifier::when_used_as_spec(equals_spec)]
    pub fn equals(self, other: Scalar) -> (b: bool)
        ensures
            b == self.equals_spec(other),
    {
        !self.is_nan() && !other.is_nan() && self.ordinal() == other.ordinal()
    }

    #[verifier::when_used_as_spec(min_spec)]
    pub fn min(self, other: Scalar) -> (m: Scalar)
        ensures
            m == self.min_spec(other),
    {
        if self.is_nan() {
            other
        } else if other.is_nan() {
            self
        } else if other.total_ordinal() < self.total_ordinal() {
            other
        } else {
            self
        }
    }

    #[verifier::when_used_as_spec(max_spec)]
    pub fn max(self, other: Scalar) -> (m: Scalar)
        ensures
            m == self.max_spec(other),
    {
        if self.is_nan() {
            other
        } else if other.is_nan() {
            self
        } else if other.total_ordinal() > self.total_ordinal() {
            other
        } else {
            self
        }
    }

    #[verifier::when_used_as_spec(neg_spec)]
    pub fn neg(self) -> (n: Scalar)
        ensures
            n == self.neg_spec(),
    {
        if self.bits >= SIGN_BIT {
            Scalar { bits: self.bits - SIGN_BIT }
        } else {
            Scalar { bits: self.bits + SIGN_BIT }
        }
    }

    #[verifier::when_used_as_spec(abs_spec)]
    pub fn abs(self) -> (a: Scalar)
        ensures
            a == self.abs_spec(),
    {
        if self.bits >= SIGN_BIT {
            Scalar { bits: self.bits - SIGN_BIT }
        } else {
            self
        }
    }

    /// Two patterns with one key are one pattern.
    pub proof fn key_is_one_to_one(a: Scalar, b: Scalar)
        ensures
            a.key() == b.key() ==> a == b,
    {
    }
}

} // verus!

//! The numeric domain of the language: single-precision binary numbers,
//! held as their IEEE 754 bit pattern.
//!
//! Everything the interpreter decides about a number (is it zero, is it
//! negative, does it have a fractional part, how do two numbers compare) is
//! read off the bit pattern here. Producing new numbers by arithmetic is the
//! job of an [`Arithmetic`](crate::arithmetic::Arithmetic) unit.

use vstd::prelude::*;

verus! {

/// Value of the sign bit.
pub const SIGN: u32 = 0x8000_0000;

/// Magnitude of positive infinity; larger magnitudes are not-a-number.
pub const INFINITE: u32 = 0x7f80_0000;

/// Weight of the lowest exponent bit.
pub const FRACTION_RANGE: u32 = 0x0080_0000;

/// Biased exponent of numbers in `[1, 2)`.
pub const EXPONENT_ONE: u32 = 127;

/// Smallest biased exponent at which every number is whole.
pub const EXPONENT_WHOLE: u32 = 150;

/// A number of the language, as the bit pattern of an IEEE 754 binary32 value.
#[derive(Clone, Copy, Debug)]
pub struct Number {
    pub bits: u32,
}

/// `2^k` for the small exponents used to split a fraction field.
pub open spec fn two_to(k: nat) -> nat
    decreases k,
{
    if k == 0 {
        1
    } else {
        2 * two_to((k - 1) as nat)
    }
}

proof fn lemma_two_to_bounds(k: nat)
    requires
        k <= 23,
    ensures
        1 <= two_to(k) <= 0x0080_0000,
        k >= 1 ==> two_to(k) >= 2,
{
    lemma_two_to_grows(k, 23);
    lemma_two_to_top();
    if k >= 1 {
        lemma_two_to_grows(1, k);
        assert(two_to(0) == 1);
        assert(two_to(1) == 2);
    }
}

proof fn lemma_two_to_top()
    ensures
        two_to(23) == 0x0080_0000,
{
    assert(two_to(0) == 1);
    assert(two_to(1) == 2);
    assert(two_to(2) == 4);
    assert(two_to(3) == 8);
    assert(two_to(4) == 16);
    assert(two_to(5) == 32);
    assert(two_to(6) == 64);
    assert(two_to(7) == 128);
    assert(two_to(8) == 256);
    assert(two_to(9) == 512);
    assert(two_to(10) == 1024);
    assert(two_to(11) == 2048);
    assert(two_to(12) == 4096);
    assert(two_to(13) == 8192);
    assert(two_to(14) == 16384);
    assert(two_to(15) == 32768);
    assert(two_to(16) == 65536);
    assert(two_to(17) == 131072);
    assert(two_to(18) == 262144);
    assert(two_to(19) == 524288);
    assert(two_to(20) == 1048576);
    assert(two_to(21) == 2097152);
    assert(two_to(22) == 4194304);
    assert(two_to(23) == 8388608);
}

proof fn lemma_two_to_grows(i: nat, j: nat)
    requires
        i <= j,
    ensures
        1 <= two_to(i) <= two_to(j),
    decreases j,
{
    if i < j {
        lemma_two_to_grows(i, (j - 1) as nat);
    } else if j > 0 {
        lemma_two_to_grows((i - 1) as nat, (j - 1) as nat);
    }
}

fn power_of_two(k: u32) -> (out: u32)
    requires
        k <= 23,
    ensures
        out == two_to(k as nat),
{
    let mut out: u32 = 1;
    let mut i: u32 = 0;
    while i < k
        invariant
            i <= k <= 23,
            out == two_to(i as nat),
        decreases k - i,
    {
        proof {
            lemma_two_to_bounds(i as nat);
        }
        out = out * 2;
        i = i + 1;
    }
    out
}

impl Number {
    /// The pattern without its sign bit.
    pub open spec fn magnitude(self) -> int {
        self.bits as int % 0x8000_0000
    }

    /// Whether the sign bit is set.
    pub open spec fn sign(self) -> bool {
        self.bits >= 0x8000_0000
    }

    /// Not-a-number: all exponent bits set and a non-zero fraction.
    pub open spec fn nan(self) -> bool {
        self.magnitude() > 0x7f80_0000
    }

    /// Positive or negative zero.
    pub open spec fn zero(self) -> bool {
        self.magnitude() == 0
    }

    /// Position of the number on the number line, up to a monotone
    /// rescaling; both zeros share position 0. Meaningless for not-a-number.
    pub open spec fn rank(self) -> int {
        if self.sign() {
            -self.magnitude()
        } else {
            self.magnitude()
        }
    }

    /// `self < other` as IEEE 754 defines it: false when either is not-a-number.
    pub open spec fn less(self, other: Number) -> bool {
        !self.nan() && !other.nan() && self.rank() < other.rank()
    }

    /// `self <= other` as IEEE 754 defines it.
    pub open spec fn at_most(self, other: Number) -> bool {
        !self.nan() && !other.nan() && self.rank() <= other.rank()
    }

    /// `self == other` as IEEE 754 defines it: the zeros are equal to each
    /// other, not-a-number is equal to nothing.
    pub open spec fn same(self, other: Number) -> bool {
        !self.nan() && !other.nan() && self.rank() == other.rank()
    }

    /// `self < 0.0`.
    pub open spec fn negative(self) -> bool {
        !self.nan() && self.sign() && !self.zero()
    }

    /// Whether `self` counts as true in a condition: anything but a zero.
    pub open spec fn truthy(self) -> bool {
        !self.zero()
    }

    /// Whether the fractional part of `self` compares unequal to zero. That
    /// holds of every number that is not whole, and of the infinities and
    /// not-a-number, whose fractional part is not-a-number.
    pub open spec fn fractional(self) -> bool {
        let exponent = self.magnitude() / 0x0080_0000;
        let fraction = self.magnitude() % 0x0080_0000;
        if exponent == 255 {
            true
        } else if self.magnitude() == 0 {
            false
        } else if exponent < 127 {
            true
        } else if exponent >= 150 {
            false
        } else {
            fraction % (two_to((150 - exponent) as nat) as int) != 0
        }
    }

    /// The number with the sign bit flipped.
    pub open spec fn negated(self) -> Number {
        if self.sign() {
            Number { bits: (self.bits - 0x8000_0000) as u32 }
        } else {
            Number { bits: (self.bits + 0x8000_0000) as u32 }
        }
    }

    /// The number with the sign bit cleared.
    pub open spec fn absolute(self) -> Number {
        Number { bits: self.magnitude() as u32 }
    }

    /// `1.0` for true, `0.0` for false.
    pub open spec fn truth(b: bool) -> Number {
        if b {
            Number { bits: 0x3f80_0000 }
        } else {
            Number { bits: 0 }
        }
    }

    /// The number with the given bit pattern.
    pub fn from_bits(bits: u32) -> (out: Number)
        ensures
            out == (Number { bits }),
    {
        Number { bits }
    }

    /// The bit pattern of the number.
    pub fn to_bits(self) -> (out: u32)
        ensures
            out == self.bits,
    {
        self.bits
    }

    /// `0.0`.
    pub fn zero_value() -> (out: Number)
        ensures
            out == (Number { bits: 0 }),
    {
        Number { bits: 0 }
    }

    /// `1.0`.
    pub fn one() -> (out: Number)
        ensures
            out == (Number { bits: 0x3f80_0000 }),
    {
        Number { bits: 0x3f80_0000 }
    }

    /// The machine epsilon, `2^-23`.
    pub fn epsilon() -> (out: Number)
        ensures
            out == (Number { bits: 0x3400_0000 }),
    {
        Number { bits: 0x3400_0000 }
    }

    /// `1.0` for true, `0.0` for false.
    pub fn from_bool(b: bool) -> (out: Number)
        ensures
            out == Number::truth(b),
    {
        if b {
            Number { bits: 0x3f80_0000 }
        } else {
            Number { bits: 0 }
        }
    }

    fn magnitude_bits(self) -> (out: u32)
        ensures
            out == self.magnitude(),
    {
        self.bits % SIGN
    }

    fn sign_bit(self) -> (out: bool)
        ensures
            out == self.sign(),
    {
        self.bits >= SIGN
    }

    /// Whether the number is not-a-number.
    pub fn is_nan(self) -> (out: bool)
        ensures
            out == self.nan(),
    {
        self.magnitude_bits() > INFINITE
    }

    /// Whether the number is `0.0` or `-0.0`.
    pub fn is_zero(self) -> (out: bool)
        ensures
            out == self.zero(),
    {
        self.magnitude_bits() == 0
    }

    /// Whether the number counts as true in a condition.
    pub fn is_truthy(self) -> (out: bool)
        ensures
            out == self.truthy(),
    {
        self.magnitude_bits() != 0
    }

    /// Whether the number is below zero.
    pub fn is_negative(self) -> (out: bool)
        ensures
            out == self.negative(),
    {
        let m = self.magnitude_bits();
        m <= INFINITE && self.sign_bit() && m != 0
    }

    fn rank_value(self) -> (out: i64)
        ensures
            out == self.rank(),
    {
        let m = self.magnitude_bits();
        if self.sign_bit() {
            0 - (m as i64)
        } else {
            m as i64
        }
    }

    /// `self < other`.
    pub fn lt(self, other: Number) -> (out: bool)
        ensures
            out == self.less(other),
    {
        !self.is_nan() && !other.is_nan() && self.rank_value() < other.rank_value()
    }

    /// `self <= other`.
    pub fn le(self, other: Number) -> (out: bool)
        ensures
            out == self.at_most(other),
    {
        !self.is_nan() && !other.is_nan() && self.rank_value() <= other.rank_value()
    }

    /// `self > other`.
    pub fn gt(self, other: Number) -> (out: bool)
        ensures
            out == other.less(self),
    {
        other.lt(self)
    }

    /// `self >= other`.
    pub fn ge(self, other: Number) -> (out: bool)
        ensures
            out == other.at_most(self),
    {
        other.le(self)
    }

    /// `self == other` as numbers: `0.0` equals `-0.0`, not-a-number equals nothing.
    pub fn equals(self, other: Number) -> (out: bool)
        ensures
            out == self.same(other),
    {
        !self.is_nan() && !other.is_nan() && self.rank_value() == other.rank_value()
    }

    /// Whether the fractional part of the number compares unequal to zero.
    pub fn has_fraction(self) -> (out: bool)
        ensures
            out == self.fractional(),
    {
        let m = self.magnitude_bits();
        let exponent = m / FRACTION_RANGE;
        let fraction = m % FRACTION_RANGE;
        if exponent == 255 {
            true
        } else if m == 0 {
            false
        } else if exponent < EXPONENT_ONE {
            true
        } else if exponent >= EXPONENT_WHOLE {
            false
        } else {
            let unit = power_of_two(EXPONENT_WHOLE - exponent);
            proof {
                lemma_two_to_bounds((150 - exponent) as nat);
            }
            fraction % unit != 0
        }
    }

    /// `-self`.
    pub fn neg(self) -> (out: Number)
        ensures
            out == self.negated(),
    {
        if self.bits >= SIGN {
            Number { bits: self.bits - SIGN }
        } else {
            Number { bits: self.bits + SIGN }
        }
    }

    /// `|self|`.
    pub fn abs(self) -> (out: Number)
        ensures
            out == self.absolute(),
    {
        Number { bits: self.bits % SIGN }
    }
}

} // verus!

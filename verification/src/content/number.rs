//! Numbers written in content files.

use vstd::prelude::*;

verus! {

/// A number from a content file: a 32-bit floating-point value, held as its
/// IEEE 754 bits, and compared the way the standard library compares floats.
/// A missing number (NaN) compares false with everything.
#[derive(Clone, Copy, Debug, PartialEq, Eq, Structural)]
pub struct Number {
    pub bits: u32,
}

/// Whether `n` is not a number.
pub open spec fn is_nan(n: Number) -> bool {
    n.bits % 0x8000_0000 > 0x7f80_0000
}

/// Where `n` stands among the numbers that are not NaN: its sign applied to
/// its magnitude's bits, which grow with the magnitude. Both zeros stand at
/// 0.
pub open spec fn rank(n: Number) -> int {
    let magnitude = (n.bits % 0x8000_0000) as int;
    if n.bits >= 0x8000_0000 {
        -magnitude
    } else {
        magnitude
    }
}

/// Whether `a <= b` holds between the floats `a` and `b`.
pub open spec fn at_most(a: Number, b: Number) -> bool {
    !is_nan(a) && !is_nan(b) && rank(a) <= rank(b)
}

/// Zero.
pub open spec fn zero() -> Number {
    Number { bits: 0 }
}

/// One.
pub open spec fn one() -> Number {
    Number { bits: 0x3f80_0000 }
}

/// The smallest positive normal float, the least value that counts as above
/// zero.
pub open spec fn least_positive() -> Number {
    Number { bits: 0x0080_0000 }
}

/// Whether `n` lies in `low..`.
pub open spec fn at_least(n: Number, low: Number) -> bool {
    at_most(low, n)
}

/// Whether `n` lies in `low..=high`.
pub open spec fn between(n: Number, low: Number, high: Number) -> bool {
    at_most(low, n) && at_most(n, high)
}

/// Whether `n` is above zero: in `f32::MIN_POSITIVE..`.
pub open spec fn positive(n: Number) -> bool {
    at_least(n, least_positive())
}

impl Number {
    /// The number whose IEEE 754 bits are `bits`.
    pub fn from_bits(bits: u32) -> (n: Self)
        ensures
            n.bits == bits,
    {
        Number { bits }
    }

    /// Zero.
    pub fn zero() -> (n: Self)
        ensures
            n == zero(),
    {
        Number { bits: 0 }
    }

    /// One.
    pub fn one() -> (n: Self)
        ensures
            n == one(),
    {
        Number { bits: 0x3f80_0000 }
    }

    /// The smallest positive normal float.
    pub fn least_positive() -> (n: Self)
        ensures
            n == least_positive(),
    {
        Number { bits: 0x0080_0000 }
    }

    /// Whether this is not a number.
    pub fn is_nan(self) -> (nan: bool)
        ensures
            nan == is_nan(self),
    {
        self.bits % 0x8000_0000 > 0x7f80_0000
    }

    /// Whether `self <= other`, as floats compare.
    pub fn at_most(self, other: Self) -> (le: bool)
        ensures
            le == at_most(self, other),
    {
        if self.is_nan() || other.is_nan() {
            return false;
        }
        let a = self.bits % 0x8000_0000;
        let b = other.bits % 0x8000_0000;
        let a_negative = self.bits >= 0x8000_0000;
        let b_negative = other.bits >= 0x8000_0000;
        if a_negative && b_negative {
            b <= a
        } else if a_negative {
            true
        } else if b_negative {
            a == 0 && b == 0
        } else {
            a <= b
        }
    }

    /// Whether this lies in `low..`.
    pub fn at_least(self, low: Self) -> (ge: bool)
        ensures
            ge == at_least(self, low),
    {
        low.at_most(self)
    }

    /// Whether this lies in `low..=high`.
    pub fn between(self, low: Self, high: Self) -> (inside: bool)
        ensures
            inside == between(self, low, high),
    {
        low.at_most(self) && self.at_most(high)
    }

    /// Whether this is above zero: in `f32::MIN_POSITIVE..`.
    pub fn positive(self) -> (above: bool)
        ensures
            above == positive(self),
    {
        self.at_least(Number::least_positive())
    }
}

/// A color in sRGB, each channel from 0 to 1.
pub type Rgb = [Number; 3];

/// Whether every channel of `color` lies between 0 and 1.
pub open spec fn is_color(color: Rgb) -> bool {
    forall|i: int| 0 <= i < 3 ==> between(#[trigger] color[i], zero(), one())
}

/// Whether every channel of `color` lies between 0 and 1.
pub fn channels_in_range(color: &Rgb) -> (inside: bool)
    ensures
        inside == is_color(*color),
{
    let zero = Number::zero();
    let one = Number::one();
    let inside = color[0].between(zero, one) && color[1].between(zero, one) && color[2].between(zero, one);
    proof {
        if !inside {
            if !between(color[0], zero, one) {
                assert(!between(color[0 as int], zero, one));
            } else if !between(color[1], zero, one) {
                assert(!between(color[1 as int], zero, one));
            } else {
                assert(!between(color[2 as int], zero, one));
            }
        }
    }
    inside
}

/// Floats order as the numbers they stand for: `at_most` is reflexive on
/// everything but NaN, transitive, and total between numbers.
pub proof fn numbers_are_ordered(a: Number, b: Number, c: Number)
    ensures
        !is_nan(a) ==> at_most(a, a),
        at_most(a, b) && at_most(b, c) ==> at_most(a, c),
        !is_nan(a) && !is_nan(b) ==> at_most(a, b) || at_most(b, a),
        is_nan(a) ==> !at_most(a, b) && !at_most(b, a),
{
}

} // verus!

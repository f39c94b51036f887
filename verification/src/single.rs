//! Single-precision numbers, held by their bit pattern and compared as numbers.
//!
//! The library orders such values, picks the greatest and hands them on; it does
//! no arithmetic on them.

use vstd::prelude::*;

verus! {

/// A single-precision (IEEE 754 binary32) number.
#[derive(Debug, Clone, Copy, Default)]
pub struct Single {
    /// Sign, exponent and fraction, from the most significant bit down.
    pub bits: u32,
}

/// The bits of one half.
pub const HALF: u32 = 0x3F00_0000;

/// The bits of three quarters.
pub const THREE_QUARTERS: u32 = 0x3F40_0000;

/// The bits of the least finite number.
pub const LEAST: u32 = 0xFF7F_FFFF;

/// The bits of infinity. Greater magnitudes stand for no number.
pub const INFINITY: u32 = 0x7F80_0000;

/// The sign bit.
pub const SIGN: u32 = 0x8000_0000;

impl Single {
    /// The pattern without its sign.
    pub open spec fn magnitude(self) -> int {
        if self.bits >= SIGN {
            self.bits - SIGN
        } else {
            self.bits as int
        }
    }

    /// Whether the pattern stands for no number.
    pub open spec fn nan(self) -> bool {
        self.magnitude() > INFINITY
    }

    /// An integer that grows with the number. Both zeros have the same one.
    pub open spec fn rank(self) -> int {
        if self.bits >= SIGN {
            -self.magnitude()
        } else {
            self.magnitude()
        }
    }

    /// Whether this number is less than the other. Never so of a pattern that is
    /// no number.
    pub open spec fn lt(self, other: Single) -> bool {
        !self.nan() && !other.nan() && self.rank() < other.rank()
    }

    /// Whether the two are the same number. Never so of a pattern that is no
    /// number.
    pub open spec fn same(self, other: Single) -> bool {
        !self.nan() && !other.nan() && self.rank() == other.rank()
    }

    /// The number with these bits.
    pub fn from_bits(bits: u32) -> (s: Single)
        ensures
            s.bits == bits,
    {
        Single { bits }
    }

    fn signed(self) -> (r: i64)
        ensures
            r == self.rank(),
    {
        if self.bits >= SIGN {
            -((self.bits - SIGN) as i64)
        } else {
            self.bits as i64
        }
    }

    /// Whether the pattern stands for no number.
    pub fn is_nan(self) -> (b: bool)
        ensures
            b == self.nan(),
    {
        if self.bits >= SIGN {
            self.bits - SIGN > INFINITY
        } else {
            self.bits > INFINITY
        }
    }

    /// Whether this number is less than the other.
    pub fn less(self, other: Single) -> (b: bool)
        ensures
            b == self.lt(other),
    {
        !self.is_nan() && !other.is_nan() && self.signed() < other.signed()
    }

    /// Whether the two are the same number.
    pub fn equals(self, other: Single) -> (b: bool)
        ensures
            b == self.same(other),
    {
        !self.is_nan() && !other.is_nan() && self.signed() == other.signed()
    }
}

impl PartialEq for Single {
    fn eq(&self, other: &Single) -> (b: bool) {
        self.equals(*other)
    }
}

impl vstd::std_specs::cmp::PartialEqSpecImpl for Single {
    open spec fn obeys_eq_spec() -> bool {
        true
    }

    open spec fn eq_spec(&self, other: &Single) -> bool {
        self.same(*other)
    }
}

/// Of any two numbers exactly one holds: the first is less, they are the same, or
/// the second is less. And less carries over.
pub proof fn numbers_are_ordered(a: Single, b: Single, c: Single)
    requires
        !a.nan(),
        !b.nan(),
        !c.nan(),
    ensures
        a.lt(b) || a.same(b) || b.lt(a),
        !(a.lt(b) && a.same(b)),
        !(a.lt(b) && b.lt(a)),
        !(a.same(b) && b.lt(a)),
        a.lt(b) && b.lt(c) ==> a.lt(c),
        a.same(b) ==> (a.lt(c) == b.lt(c)) && (c.lt(a) == c.lt(b)),
{
}

/// What is no number is neither less than, nor the same as, nor greater than
/// anything.
pub proof fn nan_is_unordered(a: Single, b: Single)
    requires
        a.nan(),
    ensures
        !a.lt(b),
        !b.lt(a),
        !a.same(b),
        !b.same(a),
{
}

/// How bit patterns are ordered: without the sign bit as integers, with it the other way
/// round and below all others, but for the two zeros, which are the same number. Patterns
/// beyond infinity are no numbers.
pub proof fn patterns_are_ordered_as_numbers(a: Single, b: Single)
    ensures
        a.nan() <==> (0x7F80_0000 < a.bits < 0x8000_0000 || a.bits > 0xFF80_0000),
        a.bits <= 0x7F80_0000 && b.bits <= 0x7F80_0000 ==> {
            &&& a.lt(b) <==> a.bits < b.bits
            &&& a.same(b) <==> a.bits == b.bits
        },
        0x8000_0000 <= a.bits <= 0xFF80_0000 && 0x8000_0000 <= b.bits <= 0xFF80_0000 ==> (a.lt(b)
            <==> a.bits > b.bits) && (a.same(b) <==> a.bits == b.bits),
        0x8000_0000 <= a.bits <= 0xFF80_0000 && b.bits <= 0x7F80_0000 ==> {
            let zeros = a.bits == 0x8000_0000 && b.bits == 0;
            a.lt(b) == !zeros && a.same(b) == zeros && !b.lt(a)
        },
{
}

} // verus!

//! Real numbers as the configuration carries them.

use vstd::prelude::*;

verus! {

/// A double-precision number: its IEEE 754 bits and the text that shows it.
#[derive(Debug, Clone)]
pub struct Real {
    pub bits: u64,
    pub text: String,
}

/// What a [`Real`] holds.
pub struct RealValue {
    pub bits: u64,
    pub text: Seq<char>,
}

impl View for Real {
    type V = RealValue;

    open spec fn view(&self) -> RealValue {
        RealValue { bits: self.bits, text: self.text@ }
    }
}

/// The bits of 1.
pub const ONE_BITS: u64 = 0x3ff0_0000_0000_0000;

/// The bits of 16.
pub const SIXTEEN_BITS: u64 = 0x4030_0000_0000_0000;

/// The bits of 32.
pub const THIRTY_TWO_BITS: u64 = 0x4040_0000_0000_0000;

/// The sign bit, which alone is negative zero.
pub const SIGN_BIT: u64 = 0x8000_0000_0000_0000;

/// Whether a number lies between minus one and one. The bits below the sign
/// order numbers by magnitude, and those of a NaN lie above all numbers'.
pub open spec fn within_unit(bits: u64) -> bool {
    bits as int % SIGN_BIT as int <= ONE_BITS
}

/// Whether a number lies between zero and a positive number with the bits
/// `top`.
pub open spec fn from_zero_to(bits: u64, top: u64) -> bool {
    bits <= top || bits == SIGN_BIT
}

pub open spec fn real_zero() -> RealValue {
    RealValue { bits: 0, text: "0"@ }
}

pub open spec fn real_half() -> RealValue {
    RealValue { bits: 0x3fe0_0000_0000_0000, text: "0.5"@ }
}

pub open spec fn real_one() -> RealValue {
    RealValue { bits: ONE_BITS, text: "1"@ }
}

impl Real {
    /// The number 0.
    pub fn zero() -> (r: Self)
        ensures
            r@ == real_zero(),
    {
        Real { bits: 0, text: "0".to_owned() }
    }

    /// The number 0.5.
    pub fn half() -> (r: Self)
        ensures
            r@ == real_half(),
    {
        Real { bits: 0x3fe0_0000_0000_0000, text: "0.5".to_owned() }
    }

    /// The number 1.
    pub fn one() -> (r: Self)
        ensures
            r@ == real_one(),
    {
        Real { bits: ONE_BITS, text: "1".to_owned() }
    }

    /// A copy.
    pub fn copied(&self) -> (r: Self)
        ensures
            r@ == self@,
    {
        Real { bits: self.bits, text: self.text.clone() }
    }

    /// Whether the number lies between minus one and one.
    pub fn is_within_unit(&self) -> (yes: bool)
        ensures
            yes == within_unit(self.bits),
    {
        self.bits % SIGN_BIT <= ONE_BITS
    }

    /// Whether the number lies between zero and the one with the bits `top`.
    pub fn is_from_zero_to(&self, top: u64) -> (yes: bool)
        ensures
            yes == from_zero_to(self.bits, top),
    {
        self.bits <= top || self.bits == SIGN_BIT
    }
}

} // verus!

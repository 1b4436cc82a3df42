//! The 80-bit extended-precision numbers in which AIFF stores sample rates.
//!
//! An extended number is one sign bit, a 15-bit exponent with bias 16383 and
//! a 64-bit mantissa whose top bit is the integer part; it stands for
//! `(-1)^sign * mantissa * 2^(exponent - 16383 - 63)`. This module takes
//! such a number apart exactly and converts it to the bit pattern of an
//! IEEE 754 double, rounding to the nearest, ties to even.

use crate::reader::{be_u16, be_u32};
use vstd::prelude::*;

verus! {

/// The exponent bias of the extended format.
pub const EXTENDED_BIAS: u16 = 16383;

/// The exponent bias of a double.
pub const DOUBLE_BIAS: u16 = 1023;

/// The value of the integer bit of the mantissa.
pub const INTEGER_BIT: u64 = 0x8000_0000_0000_0000;

/// The value of the hidden bit of a double's significand, 2^52.
pub const HIDDEN_BIT: u64 = 0x10_0000_0000_0000;

/// The fields of an extended-precision number, as they stand in its bytes.
#[derive(Clone, Copy, Debug, PartialEq, Eq, Structural)]
pub struct Extended {
    /// The sign bit.
    pub negative: bool,
    /// The biased exponent, 15 bits.
    pub exponent: u16,
    /// The mantissa, with its explicit integer bit on top.
    pub mantissa: u64,
}

/// The fields that ten bytes hold.
pub open spec fn extended_of(b: Seq<u8>) -> Extended {
    Extended {
        negative: b[0] >= 0x80,
        exponent: (be_u16(b, 0) % 0x8000) as u16,
        mantissa: (be_u32(b, 2) * 0x1_0000_0000 + be_u32(b, 6)) as u64,
    }
}

/// The mantissa cut down to 53 bits: the quotient by 2^11, moved up by one
/// where the remainder is over a half, or is a half and the quotient is odd.
pub open spec fn rounded_significand(mantissa: u64) -> int {
    let q = mantissa as int / 2048;
    let r = mantissa as int % 2048;
    if r > 1024 || (r == 1024 && q % 2 == 1) {
        q + 1
    } else {
        q
    }
}

impl Extended {
    /// The number is positive zero: all of its bits are clear.
    pub open spec fn is_zero(&self) -> bool {
        !self.negative && self.exponent == 0 && self.mantissa == 0
    }

    /// The biased exponent of the nearest double. Rounding the mantissa up
    /// to 2^53 carries into the exponent.
    pub open spec fn double_exponent(&self) -> int {
        self.exponent as int - EXTENDED_BIAS as int + DOUBLE_BIAS as int + if rounded_significand(
            self.mantissa,
        ) == 2 * HIDDEN_BIT as int {
            1int
        } else {
            0int
        }
    }

    /// The number can be held in a normal double: it is zero, or its integer
    /// bit is set and the exponent of the nearest double is in range. This
    /// leaves out negative zero, denormal and unnormal numbers, infinities
    /// and NaNs, and numbers too large or too small for a normal double.
    pub open spec fn is_supported(&self) -> bool {
        self.is_zero() || (self.mantissa >= INTEGER_BIT && 1 <= self.double_exponent() <= 2046)
    }

    /// The bit pattern of the nearest double, for a supported number.
    pub open spec fn double_bits_spec(&self) -> Option<u64> {
        if self.is_zero() {
            Some(0u64)
        } else if self.is_supported() {
            let q = rounded_significand(self.mantissa);
            let fraction = if q == 2 * HIDDEN_BIT as int {
                0
            } else {
                q - HIDDEN_BIT as int
            };
            let sign = if self.negative {
                INTEGER_BIT as int
            } else {
                0
            };
            Some((sign + self.double_exponent() * HIDDEN_BIT as int + fraction) as u64)
        } else {
            None
        }
    }

    /// The bit pattern of the double nearest to this number (ties to even),
    /// or `None` where the number is not supported.
    pub fn double_bits(&self) -> (r: Option<u64>)
        ensures
            r == self.double_bits_spec(),
    {
        if !self.negative && self.exponent == 0 && self.mantissa == 0 {
            return Some(0);
        }
        if self.mantissa < INTEGER_BIT {
            return None;
        }
        let q: u64 = self.mantissa / 2048;
        let r: u64 = self.mantissa % 2048;
        let up: bool = r > 1024 || (r == 1024 && q % 2 == 1);
        let carry: bool = up && q == 2 * HIDDEN_BIT - 1;
        // exponent + 1023 + 1 stays far below the range of a u32
        let lifted: u32 = self.exponent as u32 + DOUBLE_BIAS as u32 + if carry {
            1u32
        } else {
            0u32
        };
        if lifted < EXTENDED_BIAS as u32 + 1 || lifted > EXTENDED_BIAS as u32 + 2046 {
            return None;
        }
        let biased: u64 = (lifted - EXTENDED_BIAS as u32) as u64;
        let fraction: u64 = if carry {
            0
        } else if up {
            q + 1 - HIDDEN_BIT
        } else {
            q - HIDDEN_BIT
        };
        let sign: u64 = if self.negative {
            INTEGER_BIT
        } else {
            0
        };
        Some(sign + biased * HIDDEN_BIT + fraction)
    }

    /// Whether the number can be held in a normal double.
    pub fn supported(&self) -> (r: bool)
        ensures
            r == self.is_supported(),
    {
        self.double_bits().is_some()
    }
}

/// Takes the ten bytes of an extended-precision number apart. Fails where
/// the number is not supported, so that every number handed out can be held
/// in a normal double.
pub fn parse_extended_precision_bytes(bytes: [u8; 10]) -> (r: Result<Extended, ()>)
    ensures
        r is Ok <==> extended_of(bytes@).is_supported(),
        r matches Ok(x) ==> x == extended_of(bytes@),
{
    let head: u16 = bytes[0] as u16 * 0x100 + bytes[1] as u16;
    let hi: u64 = ((bytes[2] as u64 * 0x100 + bytes[3] as u64) * 0x100 + bytes[4] as u64) * 0x100
        + bytes[5] as u64;
    let lo: u64 = ((bytes[6] as u64 * 0x100 + bytes[7] as u64) * 0x100 + bytes[8] as u64) * 0x100
        + bytes[9] as u64;
    let x = Extended {
        negative: bytes[0] >= 0x80,
        exponent: head % 0x8000,
        mantissa: hi * 0x1_0000_0000 + lo,
    };
    if x.supported() {
        Ok(x)
    } else {
        Err(())
    }
}

/// A number whose mantissa fits in 53 bits loses nothing: the significand of
/// its double, moved up by 11 bits, is the mantissa, and the two exponents
/// differ by the difference of the biases.
pub proof fn lemma_short_mantissa_is_exact(x: Extended)
    requires
        x.is_supported(),
        !x.is_zero(),
        x.mantissa % 2048 == 0,
    ensures
        x.double_bits_spec() matches Some(bits) && {
            &&& (HIDDEN_BIT + bits % HIDDEN_BIT) * 2048 == x.mantissa
            &&& (bits / HIDDEN_BIT) % 2048 == x.exponent - EXTENDED_BIAS + DOUBLE_BIAS
            &&& (bits >= INTEGER_BIT) == x.negative
        },
{
}

} // verus!

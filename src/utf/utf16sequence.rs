//! UTF-16: one code point's code units, a surrogate pair or a single unit.
use vstd::prelude::*;

use crate::utf::{is_valid_codepoint, scalar, Endianness, Utf};

verus! {

/// The value of the code unit written as the bytes `b0`, `b1` in the given order.
pub open spec fn unit_value(b0: u8, b1: u8, endianness: Endianness) -> u16 {
    match endianness {
        Endianness::BigEndian => (b0 as int * 0x100 + b1 as int) as u16,
        Endianness::LittleEndian => (b1 as int * 0x100 + b0 as int) as u16,
    }
}

/// A unit that opens a surrogate pair.
pub open spec fn high_surrogate(u: u16) -> bool {
    0xD800 <= u && u <= 0xDBFF
}

/// A unit that closes a surrogate pair.
pub open spec fn low_surrogate(u: u16) -> bool {
    0xDC00 <= u && u <= 0xDFFF
}

/// The code point that a surrogate pair encodes.
pub open spec fn pair_value(high: u16, low: u16) -> int {
    (high - 0xD800) * 0x400 + (low - 0xDC00) + 0x10000
}

/// A decoded UTF-16 sequence: a surrogate pair's code point, or a single unit.
#[derive(Clone, Copy, Debug, PartialEq, Eq, Structural)]
pub enum Utf16Type {
    Surrogate(u32),
    Bmp(u16),
}

impl From<Utf16Type> for u32 {
    fn from(value: Utf16Type) -> (r: u32) {
        match value {
            Utf16Type::Surrogate(value) => value,
            Utf16Type::Bmp(value) => value as u32,
        }
    }
}

impl vstd::std_specs::convert::FromSpecImpl<Utf16Type> for u32 {
    open spec fn obeys_from_spec() -> bool {
        true
    }

    open spec fn from_spec(v: Utf16Type) -> u32 {
        match v {
            Utf16Type::Surrogate(value) => value,
            Utf16Type::Bmp(value) => value as u32,
        }
    }
}

/// The code units of one UTF-16 code point: the first unit, and the second
/// where the first opens a surrogate pair.
pub struct Utf16Sequence {
    bytes: [u8; 4],
    is_surrogate: bool,
    endianness: Endianness,
}

impl Utf16Sequence {
    /// The first code unit.
    pub closed spec fn high_unit(&self) -> u16 {
        unit_value(self.bytes@[0], self.bytes@[1], self.endianness)
    }

    /// The second code unit (zero until one is added).
    pub closed spec fn low_unit(&self) -> u16 {
        unit_value(self.bytes@[2], self.bytes@[3], self.endianness)
    }

    /// The first unit opens a surrogate pair.
    pub closed spec fn opens_pair(&self) -> bool {
        self.is_surrogate
    }

    /// The byte order of the units.
    pub closed spec fn order(&self) -> Endianness {
        self.endianness
    }

    pub fn new(bytes: [u8; 2], endianness: Endianness) -> (r: Self)
        ensures
            r.high_unit() == unit_value(bytes@[0], bytes@[1], endianness),
            r.low_unit() == 0,
            r.opens_pair() == high_surrogate(r.high_unit()),
            r.order() == endianness,
    {
        let codepoint = Self::bytes_to_u16(bytes, endianness);
        let is_surrogate = 0xD800 <= codepoint && codepoint <= 0xDBFF;
        let r = Utf16Sequence { bytes: [bytes[0], bytes[1], 0, 0], is_surrogate, endianness };
        assert(r.bytes@[0] == bytes@[0] && r.bytes@[1] == bytes@[1]);
        assert(r.bytes@[2] == 0 && r.bytes@[3] == 0);
        r
    }

    pub fn bytes_to_u16(bytes: [u8; 2], endianness: Endianness) -> (r: u16)
        ensures
            r == unit_value(bytes@[0], bytes@[1], endianness),
    {
        match endianness {
            Endianness::BigEndian => bytes[0] as u16 * 0x100 + bytes[1] as u16,
            Endianness::LittleEndian => bytes[1] as u16 * 0x100 + bytes[0] as u16,
        }
    }

    pub fn is_surrogate(&self) -> (r: bool)
        ensures
            r == self.opens_pair(),
    {
        self.is_surrogate
    }
}

impl Utf for Utf16Sequence {
    type Point = [u8; 2];

    type Codepoint = Utf16Type;

    open spec fn wf(&self) -> bool {
        self.opens_pair() == high_surrogate(self.high_unit())
    }

    open spec fn is_complete(&self) -> bool {
        self.opens_pair() ==> low_surrogate(self.low_unit())
    }

    open spec fn accepts(&self, point: [u8; 2]) -> bool {
        self.opens_pair() && low_surrogate(unit_value(point@[0], point@[1], self.order()))
    }

    open spec fn extends(&self, before: Self, point: [u8; 2]) -> bool {
        &&& self.high_unit() == before.high_unit()
        &&& self.opens_pair() == before.opens_pair()
        &&& self.order() == before.order()
        &&& self.low_unit() == unit_value(point@[0], point@[1], before.order())
    }

    open spec fn codepoint_of(&self) -> Utf16Type {
        if self.opens_pair() {
            Utf16Type::Surrogate(pair_value(self.high_unit(), self.low_unit()) as u32)
        } else {
            Utf16Type::Bmp(self.high_unit())
        }
    }

    open spec fn valid(&self) -> bool {
        match self.codepoint_of() {
            Utf16Type::Surrogate(v) => 0x10000 <= v <= 0x10FFFF && scalar(v as int),
            Utf16Type::Bmp(v) => (v <= 0xD7FF || 0xE000 <= v) && scalar(v as int),
        }
    }

    fn get_codepoint(&self) -> (r: Utf16Type) {
        let high = Self::bytes_to_u16([self.bytes[0], self.bytes[1]], self.endianness);
        if self.is_surrogate {
            let low = Self::bytes_to_u16([self.bytes[2], self.bytes[3]], self.endianness) as u32;
            Utf16Type::Surrogate((((high as u32) - 0xD800) * 0x400) + (low - 0xDC00) + 0x10000)
        } else {
            Utf16Type::Bmp(high)
        }
    }

    fn add_point(&mut self, point: [u8; 2]) -> (r: bool) {
        if !self.is_surrogate {
            return false;
        }
        let unit = Self::bytes_to_u16(point, self.endianness);
        if !(0xDC00 <= unit && unit <= 0xDFFF) {
            return false;
        }
        self.bytes[2] = point[0];
        self.bytes[3] = point[1];
        true
    }

    fn is_valid(&self) -> (r: bool) {
        match self.get_codepoint() {
            Utf16Type::Surrogate(value) => {
                0x010000 <= value && value <= 0x10FFFF && is_valid_codepoint(value)
            },
            Utf16Type::Bmp(value) => {
                (value <= 0xD7FF || 0xE000 <= value) && is_valid_codepoint(value as u32)
            },
        }
    }
}

} // verus!

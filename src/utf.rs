//! Incremental validators for multi-unit Unicode encodings.
use vstd::prelude::*;

pub mod utf16sequence;
pub mod utf8sequence;

verus! {

/// A Unicode scalar value: any code point but the surrogates, up to U+10FFFF.
pub open spec fn scalar(cp: int) -> bool {
    (0 <= cp && cp < 0xD800) || (0xE000 <= cp && cp <= 0x10FFFF)
}

/// A code point that is text: a scalar value that is not one of the control
/// codes below 0xA0 other than backspace through carriage return and escape,
/// nor delete.
pub open spec fn text_codepoint(cp: u32) -> bool {
    scalar(cp as int) && !(cp < 0xFF && !(0x08 <= cp && cp <= 0x0D) && cp != 0x1B && !(0x20 <= cp
        && cp <= 0x7E) && cp < 0xA0)
}

pub fn is_valid_codepoint(codepoint: u32) -> (r: bool)
    ensures
        r == scalar(codepoint as int),
{
    codepoint < 0xD800 || (0xE000 <= codepoint && codepoint <= 0x10FFFF)
}

pub fn is_text(codepoint: u32) -> (r: bool)
    ensures
        r == text_codepoint(codepoint),
{
    if !is_valid_codepoint(codepoint) {
        return false;
    }
    if codepoint < 0xFF && !(0x08 <= codepoint && 0x0D >= codepoint) && codepoint != 0x1B && !(0x20
        <= codepoint && 0x7E >= codepoint) && 0xA0 > codepoint {
        return false;
    }
    true
}

/// Byte order of a two-byte code unit.
#[derive(Clone, Copy, Debug, PartialEq, Eq, Structural)]
pub enum Endianness {
    BigEndian,
    LittleEndian,
}

/// A sequence of code units of one encoding that together make up one code
/// point, filled one unit at a time.
pub trait Utf: Sized {
    /// One code unit of the encoding.
    type Point;

    /// What decoding a complete sequence gives.
    type Codepoint;

    /// The sequence's internal invariant.
    spec fn wf(&self) -> bool;

    /// All the units that the lead unit calls for are in.
    spec fn is_complete(&self) -> bool;

    /// The unit may come next.
    spec fn accepts(&self, point: Self::Point) -> bool;

    /// `self` is `before` with the unit added.
    spec fn extends(&self, before: Self, point: Self::Point) -> bool;

    /// The decoded value of a complete sequence.
    spec fn codepoint_of(&self) -> Self::Codepoint;

    /// A complete sequence encodes a valid code point.
    spec fn valid(&self) -> bool;

    fn get_codepoint(&self) -> (r: Self::Codepoint)
        requires
            self.wf(),
            self.is_complete(),
        ensures
            r == self.codepoint_of(),
    ;

    fn add_point(&mut self, point: Self::Point) -> (r: bool)
        requires
            old(self).wf(),
        ensures
            final(self).wf(),
            r == old(self).accepts(point),
            r ==> final(self).extends(*old(self), point),
            !r ==> *final(self) == *old(self),
    ;

    fn is_valid(&self) -> (r: bool)
        requires
            self.wf(),
            self.is_complete(),
        ensures
            r == self.valid(),
    ;
}

} // verus!

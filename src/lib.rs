//! Classification of a file's bytes as empty, ASCII, ISO 8859-1, UTF-8 or
//! arbitrary data.
use vstd::prelude::*;

pub mod engine;
pub mod report;
pub mod utf;

verus! {

/// The bytes that count as ASCII text: bell through carriage return,
/// escape, and the printable range.
pub open spec fn ascii_byte(b: u8) -> bool {
    (0x07 <= b && b <= 0x0D) || b == 0x1B || (0x20 <= b && b <= 0x7E)
}

/// The bytes that count as ISO 8859-1 text.
pub open spec fn latin1_byte(b: u8) -> bool {
    ascii_byte(b) || b >= 0xA0
}

pub fn is_byte_ascii(byte: u8) -> (r: bool)
    ensures
        r == ascii_byte(byte),
{
    (0x07 <= byte && byte <= 0x0D) || byte == 0x1B || (0x20 <= byte && byte <= 0x7E)
}

pub fn is_byte_latin1(byte: u8) -> (r: bool)
    ensures
        r == latin1_byte(byte),
        r == (ascii_byte(byte) || byte >= 0xA0),
{
    is_byte_ascii(byte) || byte >= 0xA0
}

/// Every byte that counts as ASCII text counts as ISO 8859-1 text.
pub proof fn lemma_ascii_byte_is_latin1(b: u8)
    ensures
        ascii_byte(b) ==> latin1_byte(b),
{
}

} // verus!

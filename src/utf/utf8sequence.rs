//! UTF-8: one character's bytes, from its lead byte on.
use vstd::prelude::*;

use crate::utf::{is_valid_codepoint, scalar, Utf};

verus! {

/// How many bytes a character that starts with `b` takes; 0 where `b` cannot
/// start one (a continuation byte, or a lead that only an overlong or
/// out-of-range encoding would use).
pub open spec fn lead_len(b: u8) -> nat {
    if b < 0x80 {
        1
    } else if 0xC2 <= b && b <= 0xDF {
        2
    } else if 0xE0 <= b && b <= 0xEF {
        3
    } else if 0xF0 <= b && b <= 0xF4 {
        4
    } else {
        0
    }
}

/// A continuation byte: `10xxxxxx`.
pub open spec fn cont_byte(b: u8) -> bool {
    0x80 <= b && b <= 0xBF
}

/// The byte may follow `lead` directly. The tighter ranges after E0, ED, F0
/// and F4 shut out overlong forms, surrogates and values above U+10FFFF.
pub open spec fn second_byte(lead: u8, b: u8) -> bool {
    if lead == 0xE0 {
        0xA0 <= b && b <= 0xBF
    } else if lead == 0xED {
        0x80 <= b && b <= 0x9F
    } else if lead == 0xF0 {
        0x90 <= b && b <= 0xBF
    } else if lead == 0xF4 {
        0x80 <= b && b <= 0x8F
    } else {
        cont_byte(b)
    }
}

/// The byte may stand at position `pos` (1 or more) of a character led by `lead`.
pub open spec fn unit_ok(lead: u8, pos: int, b: u8) -> bool {
    if pos == 1 {
        second_byte(lead, b)
    } else {
        cont_byte(b)
    }
}

/// The start of a character: a valid lead, and each byte after it allowed
/// where it stands, no more bytes than the lead calls for.
pub open spec fn partial_char(c: Seq<u8>) -> bool {
    &&& 1 <= c.len() <= lead_len(c[0])
    &&& forall|i: int| 1 <= i < c.len() ==> unit_ok(c[0], i, #[trigger] c[i])
}

/// The code point that a complete character's bytes encode.
pub open spec fn decode(c: Seq<u8>) -> int {
    if c.len() == 1 {
        c[0] as int
    } else if c.len() == 2 {
        (c[0] - 0xC0) * 0x40 + (c[1] - 0x80)
    } else if c.len() == 3 {
        (c[0] - 0xE0) * 0x1000 + (c[1] - 0x80) * 0x40 + (c[2] - 0x80)
    } else {
        (c[0] - 0xF0) * 0x40000 + (c[1] - 0x80) * 0x1000 + (c[2] - 0x80) * 0x40 + (c[3] - 0x80)
    }
}

/// The state after a character's bytes `c` came in: the character is done
/// (an empty partial character) if it is complete and a scalar value, the
/// stream is broken (`None`) if it is complete and not, else `c` waits for more.
pub open spec fn close(c: Seq<u8>) -> Option<Seq<u8>> {
    if c.len() == lead_len(c[0]) {
        if scalar(decode(c)) {
            Some(Seq::empty())
        } else {
            None
        }
    } else {
        Some(c)
    }
}

/// One byte of UTF-8 validation. The state is `None` once the stream cannot be
/// UTF-8, else the bytes of the character under way (empty between characters).
pub open spec fn utf8_step(state: Option<Seq<u8>>, b: u8) -> Option<Seq<u8>> {
    match state {
        None => None,
        Some(p) => if p.len() == 0 {
            if lead_len(b) == 0 {
                None
            } else {
                close(seq![b])
            }
        } else if p.len() < lead_len(p[0]) && unit_ok(p[0], p.len() as int, b) {
            close(p.push(b))
        } else {
            None
        },
    }
}

/// The validation state after the bytes `s`, read from the first on.
pub open spec fn utf8_scan(s: Seq<u8>) -> Option<Seq<u8>>
    decreases s.len(),
{
    if s.len() == 0 {
        Some(Seq::empty())
    } else {
        utf8_step(utf8_scan(s.drop_last()), s.last())
    }
}

/// `s` is well-formed UTF-8: every character complete, in its shortest form,
/// and a Unicode scalar value.
pub open spec fn valid_utf8(s: Seq<u8>) -> bool {
    utf8_scan(s) == Some(Seq::<u8>::empty())
}

/// The bytes of one UTF-8 character, from its lead byte on.
#[derive(Clone, Copy)]
pub struct Utf8Sequence {
    bytes: [u8; 4],
    current_len: usize,
    full_len: usize,
}

impl View for Utf8Sequence {
    type V = Seq<u8>;

    closed spec fn view(&self) -> Seq<u8> {
        self.bytes@.subrange(0, self.current_len as int)
    }
}

impl Utf8Sequence {
    pub closed spec fn inv(&self) -> bool {
        &&& 1 <= self.current_len <= self.full_len
        &&& self.full_len == lead_len(self.bytes@[0])
        &&& partial_char(self@)
    }

    /// Opens a character at its lead byte; `None` where the byte cannot lead one.
    pub fn build(lead: u8) -> (r: Option<Self>)
        ensures
            r is None <==> lead_len(lead) == 0,
            r matches Some(s) ==> s.inv() && s@ == seq![lead],
    {
        let full_len: usize = if lead < 0x80 {
            1
        } else if 0xC2 <= lead && lead <= 0xDF {
            2
        } else if 0xE0 <= lead && lead <= 0xEF {
            3
        } else if 0xF0 <= lead && lead <= 0xF4 {
            4
        } else {
            return None;
        };
        let s = Utf8Sequence { bytes: [lead, 0, 0, 0], current_len: 1, full_len };
        assert(s@ =~= seq![lead]);
        Some(s)
    }

    pub fn current_len(&self) -> (r: usize)
        requires
            self.inv(),
        ensures
            r == self@.len(),
    {
        self.current_len
    }

    pub fn full_len(&self) -> (r: usize)
        requires
            self.inv(),
        ensures
            r == lead_len(self@[0]),
    {
        self.full_len
    }

    /// Appends a byte, if the character has room for it and it may stand there.
    pub fn add_byte(&mut self, byte: u8) -> (r: bool)
        requires
            old(self).inv(),
        ensures
            final(self).inv(),
            r == (old(self)@.len() < lead_len(old(self)@[0]) && unit_ok(
                old(self)@[0],
                old(self)@.len() as int,
                byte,
            )),
            r ==> final(self)@ == old(self)@.push(byte),
            !r ==> *final(self) == *old(self),
    {
        if self.current_len >= self.full_len {
            return false;
        }
        let lead = self.bytes[0];
        let ok = if self.current_len == 1 {
            if lead == 0xE0 {
                0xA0 <= byte && byte <= 0xBF
            } else if lead == 0xED {
                0x80 <= byte && byte <= 0x9F
            } else if lead == 0xF0 {
                0x90 <= byte && byte <= 0xBF
            } else if lead == 0xF4 {
                0x80 <= byte && byte <= 0x8F
            } else {
                0x80 <= byte && byte <= 0xBF
            }
        } else {
            0x80 <= byte && byte <= 0xBF
        };
        if !ok {
            return false;
        }
        let ghost before = self@;
        let i = self.current_len;
        self.bytes[i] = byte;
        self.current_len = i + 1;
        assert(self@ =~= before.push(byte));
        true
    }

    /// The code point of a complete character.
    pub fn codepoint(&self) -> (r: u32)
        requires
            self.inv(),
            self@.len() == lead_len(self@[0]),
        ensures
            r as int == decode(self@),
    {
        let ghost c = self@;
        assert(c[0] == self.bytes[0]);
        let b0 = self.bytes[0] as u32;
        if self.full_len == 1 {
            return b0;
        }
        assert(second_byte(c[0], c[1]));
        assert(c[1] == self.bytes[1]);
        let b1 = self.bytes[1] as u32 - 0x80;
        if self.full_len == 2 {
            return (b0 - 0xC0) * 0x40 + b1;
        }
        assert(cont_byte(c[2]));
        assert(c[2] == self.bytes[2]);
        let b2 = self.bytes[2] as u32 - 0x80;
        if self.full_len == 3 {
            return (b0 - 0xE0) * 0x1000 + b1 * 0x40 + b2;
        }
        assert(cont_byte(c[3]));
        assert(c[3] == self.bytes[3]);
        let b3 = self.bytes[3] as u32 - 0x80;
        (b0 - 0xF0) * 0x40000 + b1 * 0x1000 + b2 * 0x40 + b3
    }

    /// A complete character encodes a Unicode scalar value.
    pub fn is_valid_codepoint(&self) -> (r: bool)
        requires
            self.inv(),
            self@.len() == lead_len(self@[0]),
        ensures
            r == scalar(decode(self@)),
    {
        is_valid_codepoint(self.codepoint())
    }
}

impl Utf for Utf8Sequence {
    type Point = u8;

    type Codepoint = u32;

    open spec fn wf(&self) -> bool {
        self.inv()
    }

    open spec fn is_complete(&self) -> bool {
        self@.len() == lead_len(self@[0])
    }

    open spec fn accepts(&self, point: u8) -> bool {
        self@.len() < lead_len(self@[0]) && unit_ok(self@[0], self@.len() as int, point)
    }

    open spec fn extends(&self, before: Self, point: u8) -> bool {
        self@ == before@.push(point)
    }

    open spec fn codepoint_of(&self) -> u32 {
        decode(self@) as u32
    }

    open spec fn valid(&self) -> bool {
        scalar(decode(self@))
    }

    fn get_codepoint(&self) -> (r: u32) {
        self.codepoint()
    }

    fn add_point(&mut self, point: u8) -> (r: bool) {
        self.add_byte(point)
    }

    fn is_valid(&self) -> (r: bool) {
        self.is_valid_codepoint()
    }
}

} // verus!

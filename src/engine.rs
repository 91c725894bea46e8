//! The per-file classifier: three candidate encodings checked side by side
//! over a stream of bytes.
use vstd::prelude::*;

use crate::utf::utf8sequence::{utf8_scan, valid_utf8, Utf8Sequence};
use crate::{ascii_byte, is_byte_ascii, is_byte_latin1, latin1_byte};

verus! {

/// What a file's bytes are taken to be.
#[derive(Clone, Copy, Debug, PartialEq, Eq, Structural)]
pub enum FileType {
    Empty,
    Ascii,
    Latin1,
    Utf8,
    Data,
}

/// Every byte of `s` counts as ASCII text.
pub open spec fn all_ascii(s: Seq<u8>) -> bool {
    forall|i: int| 0 <= i < s.len() ==> ascii_byte(#[trigger] s[i])
}

/// Every byte of `s` counts as ISO 8859-1 text.
pub open spec fn all_latin1(s: Seq<u8>) -> bool {
    forall|i: int| 0 <= i < s.len() ==> latin1_byte(#[trigger] s[i])
}

/// The verdict on a stream of bytes: ASCII before UTF-8 before ISO 8859-1.
/// A stream with no bytes passes as ASCII here.
pub open spec fn stream_type(s: Seq<u8>) -> FileType {
    if all_ascii(s) {
        FileType::Ascii
    } else if valid_utf8(s) {
        FileType::Utf8
    } else if all_latin1(s) {
        FileType::Latin1
    } else {
        FileType::Data
    }
}

/// The verdict on a whole file: an empty file is `Empty`.
pub open spec fn file_type_of(s: Seq<u8>) -> FileType {
    if s.len() == 0 {
        FileType::Empty
    } else {
        stream_type(s)
    }
}

/// Bytes that all count as ASCII text are well-formed UTF-8, and leave no
/// character open.
pub proof fn lemma_ascii_is_utf8(s: Seq<u8>)
    requires
        all_ascii(s),
    ensures
        valid_utf8(s),
    decreases s.len(),
{
    if s.len() > 0 {
        assert(all_ascii(s.drop_last()));
        lemma_ascii_is_utf8(s.drop_last());
        let b = s.last();
        assert(ascii_byte(s[s.len() - 1]));
        assert(seq![b][0] == b);
    }
}

/// A non-empty file whose bytes all count as ASCII text is `Ascii`.
pub proof fn lemma_ascii_file(s: Seq<u8>)
    requires
        s.len() > 0,
        all_ascii(s),
    ensures
        file_type_of(s) == FileType::Ascii,
{
}

/// Once UTF-8 validation has failed on a prefix, it fails on the whole.
pub proof fn lemma_utf8_failure_sticks(s: Seq<u8>, n: int)
    requires
        0 <= n <= s.len(),
        utf8_scan(s.subrange(0, n)) is None,
    ensures
        utf8_scan(s) is None,
    decreases s.len(),
{
    if s.len() == n {
        assert(s.subrange(0, n) =~= s);
    } else {
        assert(s.drop_last().subrange(0, n) =~= s.subrange(0, n));
        lemma_utf8_failure_sticks(s.drop_last(), n);
    }
}

/// Once a prefix rules out all three encodings, the whole stream is `Data`,
/// whatever follows the prefix.
pub proof fn lemma_no_candidate_is_data(s: Seq<u8>, n: int)
    requires
        0 <= n <= s.len(),
        !all_ascii(s.subrange(0, n)),
        !all_latin1(s.subrange(0, n)),
        utf8_scan(s.subrange(0, n)) is None,
    ensures
        stream_type(s) == FileType::Data,
{
    let p = s.subrange(0, n);
    let i = choose|i: int| 0 <= i < p.len() && !ascii_byte(#[trigger] p[i]);
    assert(!ascii_byte(s[i]));
    let j = choose|j: int| 0 <= j < p.len() && !latin1_byte(#[trigger] p[j]);
    assert(!latin1_byte(s[j]));
    lemma_utf8_failure_sticks(s, n);
}

/// The classifier of one stream, fed a byte at a time.
pub struct Classifier {
    is_ascii: bool,
    is_latin1: bool,
    is_utf8: bool,
    sequence: Option<Utf8Sequence>,
    seen: Ghost<Seq<u8>>,
}

impl View for Classifier {
    type V = Seq<u8>;

    /// The bytes fed so far.
    closed spec fn view(&self) -> Seq<u8> {
        self.seen@
    }
}

impl Classifier {
    /// The flags and the open character agree with the bytes seen.
    pub closed spec fn inv(&self) -> bool {
        let s = self.seen@;
        &&& self.is_ascii == all_ascii(s)
        &&& self.is_latin1 == all_latin1(s)
        &&& self.is_utf8 == (utf8_scan(s) is Some)
        &&& self.is_ascii ==> self.sequence is None
        &&& self.is_utf8 ==> match self.sequence {
            None => utf8_scan(s) == Some(Seq::<u8>::empty()),
            Some(q) => q.inv() && q@.len() > 0 && utf8_scan(s) == Some(q@),
        }
    }

    pub fn new() -> (r: Self)
        ensures
            r.inv(),
            r@ == Seq::<u8>::empty(),
    {
        Classifier {
            is_ascii: true,
            is_latin1: true,
            is_utf8: true,
            sequence: None,
            seen: Ghost(Seq::empty()),
        }
    }

    /// Feeds one byte. Returns false once no candidate encoding is left, after
    /// which the verdict is `Data` whatever follows.
    pub fn push(&mut self, byte: u8) -> (r: bool)
        requires
            old(self).inv(),
        ensures
            final(self).inv(),
            final(self)@ == old(self)@.push(byte),
            r == (all_ascii(final(self)@) || all_latin1(final(self)@) || utf8_scan(
                final(self)@,
            ) is Some),
    {
        let ghost before = self.seen@;
        let ghost s = before.push(byte);
        self.seen = Ghost(s);
        assert(s.drop_last() =~= before);
        assert(forall|i: int| 0 <= i < before.len() ==> s[i] == before[i]);
        assert(s[before.len() as int] == byte);
        if self.is_ascii && !is_byte_ascii(byte) {
            self.is_ascii = false;
        }
        if !self.is_ascii && self.is_latin1 && !is_byte_latin1(byte) {
            self.is_latin1 = false;
        }
        if self.is_ascii {
            proof {
                lemma_ascii_is_utf8(s);
            }
        }
        if !self.is_ascii && self.is_utf8 {
            let opened = match self.sequence {
                None => Utf8Sequence::build(byte),
                Some(q) => {
                    let mut q = q;
                    if q.add_byte(byte) {
                        Some(q)
                    } else {
                        None
                    }
                },
            };
            match opened {
                None => {
                    self.is_utf8 = false;
                },
                Some(q) => {
                    if q.current_len() == q.full_len() {
                        if !q.is_valid_codepoint() {
                            self.is_utf8 = false;
                        }
                        self.sequence = None;
                    } else {
                        self.sequence = Some(q);
                    }
                },
            }
        }
        self.is_ascii || self.is_latin1 || self.is_utf8
    }

    /// The verdict on the bytes fed so far, taken as the whole stream.
    pub fn finish(&self) -> (r: FileType)
        requires
            self.inv(),
        ensures
            r == stream_type(self@),
    {
        if self.is_ascii {
            return FileType::Ascii;
        }
        let mut is_utf8 = self.is_utf8;
        if self.sequence.is_some() {
            is_utf8 = false;
        }
        if is_utf8 {
            FileType::Utf8
        } else if self.is_latin1 {
            FileType::Latin1
        } else {
            FileType::Data
        }
    }
}

/// Classifies a stream of bytes, stopping early once no candidate is left.
pub fn classify_file(bytes: &[u8]) -> (r: FileType)
    ensures
        r == stream_type(bytes@),
{
    let mut classifier = Classifier::new();
    let mut i: usize = 0;
    while i < bytes.len()
        invariant
            i <= bytes@.len(),
            classifier.inv(),
            classifier@ == bytes@.subrange(0, i as int),
        decreases bytes@.len() - i,
    {
        let more = classifier.push(bytes[i]);
        assert(bytes@.subrange(0, i + 1) =~= bytes@.subrange(0, i as int).push(bytes@[i as int]));
        i = i + 1;
        if !more {
            proof {
                lemma_no_candidate_is_data(bytes@, i as int);
            }
            return FileType::Data;
        }
    }
    assert(bytes@.subrange(0, i as int) =~= bytes@);
    classifier.finish()
}

/// Classifies a whole file's contents: `Empty` when there are none, without
/// looking at any byte.
pub fn file_type(bytes: &[u8]) -> (r: FileType)
    ensures
        r == file_type_of(bytes@),
        bytes@.len() == 0 ==> r == FileType::Empty,
{
    if bytes.len() == 0 {
        return FileType::Empty;
    }
    classify_file(bytes)
}

} // verus!

//! A seekable byte source held in memory, and the scan for record starts.
//!
//! A journal is sparse: unused regions read back as runs of zero bytes, and
//! records are separated by zero padding in units of four bytes. The scan
//! tells padding from a candidate record start and interprets nothing else.

use vstd::prelude::*;

verus! {

/// What a stream is: its bytes and its read position.
pub struct Window {
    pub bytes: Seq<u8>,
    pub pos: int,
}

/// A byte source with a read position. The position may lie past the end, as
/// after a seek beyond the last byte; nothing can be read there.
pub struct ByteStream {
    data: Vec<u8>,
    pos: u64,
}

impl View for ByteStream {
    type V = Window;

    closed spec fn view(&self) -> Window {
        Window { bytes: self.data@, pos: self.pos as int }
    }
}

/// The position of the first non-zero byte at or after `from`. Where there is
/// none it is the end of the bytes, or `from` itself if that lies past the end.
pub open spec fn first_nonzero(s: Seq<u8>, from: int) -> int
    decreases s.len() - from,
{
    if from >= s.len() {
        from
    } else if s[from] != 0 {
        from
    } else {
        first_nonzero(s, from + 1)
    }
}

/// Whether the four bytes at `at` are all zero.
pub open spec fn zero_word(s: Seq<u8>, at: int) -> bool {
    s[at] == 0 && s[at + 1] == 0 && s[at + 2] == 0 && s[at + 3] == 0
}

/// Whether a whole four-byte word lies at `at`.
pub open spec fn has_word(s: Seq<u8>, at: int) -> bool {
    0 <= at && at + 4 <= s.len()
}

/// The position of the first non-zero four-byte word, reading word by word
/// from `from`. Where no whole non-zero word is left it is the end of the
/// bytes, or `from` itself if that lies past the end.
pub open spec fn next_word(s: Seq<u8>, from: int) -> int
    decreases s.len() - from,
{
    if from < 0 {
        from
    } else if from + 4 > s.len() {
        if from > s.len() { from } else { s.len() as int }
    } else if zero_word(s, from) {
        next_word(s, from + 4)
    } else {
        from
    }
}

/// Between `from` and the first non-zero byte every byte is zero, and the
/// scan stops on a non-zero byte or at the end.
pub proof fn lemma_first_nonzero(s: Seq<u8>, from: int)
    requires
        0 <= from,
    ensures
        from <= first_nonzero(s, from),
        from <= s.len() ==> first_nonzero(s, from) <= s.len(),
        forall|i: int| from <= i < first_nonzero(s, from) && i < s.len() ==> s[i] == 0,
        first_nonzero(s, from) < s.len() ==> s[first_nonzero(s, from)] != 0,
    decreases s.len() - from,
{
    if from < s.len() && s[from] == 0 {
        lemma_first_nonzero(s, from + 1);
    }
}

/// Where every byte from `from` on is zero, the scan for a non-zero byte
/// reaches the end.
pub proof fn lemma_first_nonzero_zero_tail(s: Seq<u8>, from: int)
    requires
        0 <= from <= s.len(),
        forall|i: int| from <= i < s.len() ==> s[i] == 0,
    ensures
        first_nonzero(s, from) == s.len(),
    decreases s.len() - from,
{
    if from < s.len() {
        lemma_first_nonzero_zero_tail(s, from + 1);
    }
}

/// The word scan moves forward by whole words over zero bytes, and stops on
/// a whole non-zero word or where no whole word is left.
pub proof fn lemma_next_word(s: Seq<u8>, from: int)
    requires
        0 <= from,
    ensures
        from <= next_word(s, from),
        from <= s.len() ==> next_word(s, from) <= s.len(),
        has_word(s, next_word(s, from)) ==> !zero_word(s, next_word(s, from)) && (next_word(
            s,
            from,
        ) - from) % 4 == 0,
        has_word(s, next_word(s, from)) ==> forall|i: int|
            from <= i < next_word(s, from) ==> s[i] == 0,
    decreases s.len() - from,
{
    if from + 4 <= s.len() && zero_word(s, from) {
        lemma_next_word(s, from + 4);
        let next = next_word(s, from + 4);
        if has_word(s, next) {
            assert forall|i: int| from <= i < next implies s[i] == 0 by {
                if i < from + 4 {
                    assert(i == from || i == from + 1 || i == from + 2 || i == from + 3);
                }
            }
        }
    }
}

/// Where every byte from `from` on is zero, the word scan finds no word.
pub proof fn lemma_next_word_zero_tail(s: Seq<u8>, from: int)
    requires
        0 <= from,
        forall|i: int| from <= i < s.len() ==> s[i] == 0,
    ensures
        !has_word(s, next_word(s, from)),
    decreases s.len() - from,
{
    if from + 4 <= s.len() {
        lemma_next_word_zero_tail(s, from + 4);
    }
}

impl ByteStream {
    /// A stream over `data`, positioned at its first byte.
    pub fn new(data: Vec<u8>) -> (s: ByteStream)
        ensures
            s@.bytes == data@,
            s@.pos == 0,
    {
        ByteStream { data, pos: 0 }
    }

    /// The read position.
    pub fn position(&self) -> (p: u64)
        ensures
            p == self@.pos,
    {
        self.pos
    }

    /// The number of bytes in the stream.
    pub fn len(&self) -> (n: usize)
        ensures
            n == self@.bytes.len(),
    {
        self.data.len()
    }

    /// Moves the read position to `pos`, counted from the first byte.
    pub fn seek(&mut self, pos: u64)
        ensures
            final(self)@.bytes == old(self)@.bytes,
            final(self)@.pos == pos,
    {
        self.pos = pos;
    }

    /// The read position is a 64-bit offset.
    pub proof fn lemma_position_in_range(&self)
        ensures
            0 <= self@.pos <= u64::MAX,
    {
    }

    /// The bytes of the stream.
    pub(crate) fn data(&self) -> (d: &Vec<u8>)
        ensures
            d@ == self@.bytes,
    {
        &self.data
    }
}

/// Finding record starts in a sparse byte source.
pub trait Skip {
    /// The bytes of the source.
    spec fn bytes(&self) -> Seq<u8>;

    /// The read position.
    spec fn offset(&self) -> int;

    /// Moves to the first non-zero byte at or after the read position, and
    /// says whether there is one. Where there is none the source is left
    /// exhausted.
    fn find_first_record(&mut self) -> (found: bool)
        ensures
            final(self).bytes() == old(self).bytes(),
            final(self).offset() == first_nonzero(old(self).bytes(), old(self).offset()),
            found == (final(self).offset() < old(self).bytes().len()),
    ;

    /// Reads four-byte words from the read position until one is not zero,
    /// moves back to the start of that word, and says whether there is one.
    /// Where no whole non-zero word is left the source is left exhausted.
    fn find_next_record(&mut self) -> (found: bool)
        ensures
            final(self).bytes() == old(self).bytes(),
            final(self).offset() == next_word(old(self).bytes(), old(self).offset()),
            found == has_word(old(self).bytes(), final(self).offset()),
    ;
}

impl Skip for ByteStream {
    open spec fn bytes(&self) -> Seq<u8> {
        self@.bytes
    }

    open spec fn offset(&self) -> int {
        self@.pos
    }

    fn find_first_record(&mut self) -> (found: bool) {
        let len: usize = self.data.len();
        if self.pos >= len as u64 {
            return false;
        }
        let mut i: usize = self.pos as usize;
        while i < len && self.data[i] == 0
            invariant
                i <= len,
                len == self.data@.len(),
                self.data@ == old(self).data@,
                first_nonzero(self.data@, i as int) == first_nonzero(
                    self.data@,
                    old(self).pos as int,
                ),
            decreases len - i,
        {
            i += 1;
        }
        self.pos = i as u64;
        i < len
    }

    fn find_next_record(&mut self) -> (found: bool) {
        let len: usize = self.data.len();
        if self.pos > len as u64 {
            return false;
        }
        let mut i: usize = self.pos as usize;
        while len - i >= 4 && self.data[i] == 0 && self.data[i + 1] == 0 && self.data[i + 2] == 0
            && self.data[i + 3] == 0
            invariant
                i <= len,
                len == self.data@.len(),
                self.data@ == old(self).data@,
                next_word(self.data@, i as int) == next_word(self.data@, old(self).pos as int),
            decreases len - i,
        {
            i += 4;
        }
        if len - i >= 4 {
            self.pos = i as u64;
            true
        } else {
            self.pos = len as u64;
            false
        }
    }
}

} // verus!

//! The journal as a lazy, forward-only sequence of records.
//!
//! Each pull skips zero padding word by word, decodes the record that
//! follows, and resolves its display name. The sequence ends cleanly where
//! no further record starts, and it fails for good on the first record that
//! does not decode: once framing is lost there is no trusted place to start
//! again.

use vstd::prelude::*;
use crate::codec::le_u32;
use crate::entry::{
    encode_record, lemma_decode_encoded, lemma_header_len, parse_record, utf16_lossy, zeros,
    Entry, Record,
};
use crate::error::UsnError;
use crate::resolve::{resolution, resolve_name, MftTable};
use crate::table::header_accepted;
use crate::stream::{
    first_nonzero, has_word, lemma_first_nonzero_zero_tail, lemma_next_word,
    lemma_next_word_zero_tail, next_word, ByteStream, Skip, Window,
};

verus! {

/// Where a journal stands between pulls.
#[derive(Clone, Copy, Debug, PartialEq, Eq, Structural)]
pub enum Phase {
    /// Further records may follow.
    Scanning,
    /// The journal ended cleanly.
    Ended,
    /// A record did not decode; nothing more is read.
    Failed,
}

/// What one pull from a scanning journal gives.
pub enum Step {
    /// No further record starts: the journal ends.
    End,
    /// The next record does not decode.
    Fatal(UsnError),
    /// The next record.
    Emit(Record),
}

/// What a pull at `pos` gives.
pub open spec fn step(s: Seq<u8>, pos: int) -> Step {
    let start = next_word(s, pos);
    if !has_word(s, start) {
        Step::End
    } else {
        match parse_record(s, start) {
            Ok(r) => Step::Emit(r),
            Err(e) => Step::Fatal(e),
        }
    }
}

/// Where a pull at `pos` leaves the read position: past the record it
/// gives, at the start of the record that failed, or at the end.
pub open spec fn step_pos(s: Seq<u8>, pos: int) -> int {
    let start = next_word(s, pos);
    match step(s, pos) {
        Step::Emit(r) => start + r.entry_size,
        _ => start,
    }
}

/// The records that pulls from `pos` give until the journal ends or fails.
pub open spec fn records_from(s: Seq<u8>, pos: int) -> Seq<Record>
    decreases s.len() - pos,
{
    match step(s, pos) {
        Step::Emit(r) => {
            proof {
                if pos >= 0 {
                    lemma_step_advances(s, pos);
                }
            }
            seq![r] + records_from(s, step_pos(s, pos))
        },
        _ => Seq::empty(),
    }
}

/// The error on which pulls from `pos` stop, if they do not end cleanly.
pub open spec fn failure_from(s: Seq<u8>, pos: int) -> Option<UsnError>
    decreases s.len() - pos,
{
    match step(s, pos) {
        Step::Emit(r) => {
            proof {
                if pos >= 0 {
                    lemma_step_advances(s, pos);
                }
            }
            failure_from(s, step_pos(s, pos))
        },
        Step::Fatal(e) => Some(e),
        Step::End => None,
    }
}

/// Whether `name` is what resolution gives for `rec` against a table with
/// the given bytes whose parser gives the given paths.
pub open spec fn resolved_with(
    t: Seq<u8>,
    paths: Map<u64, Option<Seq<char>>>,
    rec: Record,
    name: Seq<char>,
) -> bool {
    name == resolution(
        t,
        paths,
        utf16_lossy(rec.filename),
        (rec.file_ref % 0x1_0000_0000_0000) as u64,
    )
}

/// Whether `name` is a display name of `rec`: without a table the embedded
/// name, and against a table with the given bytes what resolution gives for
/// some state of the paths that the table's parser remembers.
pub open spec fn name_fits(table: Option<Seq<u8>>, rec: Record, name: Seq<char>) -> bool {
    if table is Some {
        exists|paths: Map<u64, Option<Seq<char>>>| #[trigger]
            resolved_with(table.unwrap(), paths, rec, name)
    } else {
        name == utf16_lossy(rec.filename)
    }
}

/// What resolution gives against a table is a display name.
pub proof fn lemma_resolved_name_fits(
    t: Seq<u8>,
    paths: Map<u64, Option<Seq<char>>>,
    rec: Record,
    name: Seq<char>,
)
    requires
        resolved_with(t, paths, rec, name),
    ensures
        name_fits(Some(t), rec, name),
{
    let table = Some(t);
    assert(resolved_with(table.unwrap(), paths, rec, name));
}

/// In a journal of zero bytes alone the scan for a first record finds none,
/// wherever it starts; the journal gives no record and ends without an error.
pub proof fn lemma_zero_journal_is_empty(s: Seq<u8>, pos: int)
    requires
        0 <= pos,
        forall|i: int| 0 <= i < s.len() ==> s[i] == 0,
    ensures
        !(first_nonzero(s, pos) < s.len()),
        step(s, pos) is End,
        records_from(s, pos) == Seq::<Record>::empty(),
        failure_from(s, pos) is None,
{
    if pos <= s.len() {
        lemma_first_nonzero_zero_tail(s, pos);
    }
    lemma_next_word_zero_tail(s, pos);
}

/// A journal of one well-formed record and any run of zero bytes after it
/// gives exactly that record and then ends without an error.
pub proof fn lemma_single_record_journal(r: Record, padding: nat)
    requires
        r.wf(),
    ensures
        records_from(encode_record(r) + zeros(padding as int), 0) == seq![r],
        failure_from(encode_record(r) + zeros(padding as int), 0) is None,
{
    let e = encode_record(r);
    let s = e + zeros(padding as int);
    lemma_header_len(r);
    assert(s.subrange(0, r.entry_size as int) =~= e);
    lemma_decode_encoded(r, s, 0);
    assert(le_u32(s, 0) == r.entry_size);
    assert(next_word(s, 0) == 0);
    let after = r.entry_size as int;
    assert(step_pos(s, 0) == after);
    lemma_next_word_zero_tail(s, after);
    assert(step(s, after) is End);
    assert(records_from(s, after) == Seq::<Record>::empty());
    assert(records_from(s, 0) =~= seq![r]);
    assert(failure_from(s, after) is None);
    assert(failure_from(s, 0) == failure_from(s, after));
}

/// A pull that gives a record moves the read position forward by at least
/// the 60 bytes of a header, and stays within the bytes.
pub proof fn lemma_step_advances(s: Seq<u8>, pos: int)
    requires
        0 <= pos,
        step(s, pos) is Emit,
    ensures
        pos + 60 <= step_pos(s, pos) <= s.len(),
{
    lemma_next_word(s, pos);
}

/// A journal over a byte stream, with or without a master file table to
/// resolve names against.
pub struct Usn {
    mft: Option<MftTable>,
    usn: ByteStream,
    phase: Phase,
}

impl Usn {
    /// The journal's bytes and read position.
    pub closed spec fn stream(&self) -> Window {
        self.usn@
    }

    /// Where the journal stands.
    pub closed spec fn phase(&self) -> Phase {
        self.phase
    }

    /// The master file table that names are resolved against, if any.
    pub closed spec fn table(&self) -> Option<MftTable> {
        self.mft
    }

    /// Whether names are resolved against a master file table.
    pub open spec fn resolves(&self) -> bool {
        self.table() is Some
    }

    /// The bytes of the table held, if any.
    pub open spec fn table_bytes(&self) -> Option<Seq<u8>> {
        match self.table() {
            Some(t) => Some(t.bytes()),
            None => None,
        }
    }

    /// A journal over `usn`, read from `offset` if one is given and from the
    /// stream's position otherwise. The journal starts at the first non-zero
    /// byte from there, or exhausted if there is none.
    pub fn new(mft: Option<MftTable>, usn: ByteStream, offset: Option<u64>) -> (j: Usn)
        ensures
            j.stream().bytes == usn@.bytes,
            j.stream().pos == first_nonzero(
                usn@.bytes,
                match offset {
                    Some(off) => off as int,
                    None => usn@.pos,
                },
            ),
            j.phase() == Phase::Scanning,
            j.table() == mft,
    {
        let mut usn = usn;
        if let Some(off) = offset {
            usn.seek(off);
        }
        let _ = usn.find_first_record();
        Usn { mft, usn, phase: Phase::Scanning }
    }

    /// A journal over the bytes of a `$J` stream and the bytes of a `$MFT`
    /// file, which is the table that names are resolved against. Fails
    /// exactly where the table's first slot has no header that the parser
    /// accepts.
    pub fn from_usn_with_mft(usn: Vec<u8>, offset: Option<u64>, mft: Vec<u8>) -> (r: Result<
        Usn,
        UsnError,
    >)
        ensures
            r is Ok <==> header_accepted(mft@),
            match r {
                Ok(j) => {
                    &&& j.stream().bytes == usn@
                    &&& j.stream().pos == first_nonzero(
                        usn@,
                        match offset {
                            Some(off) => off as int,
                            None => 0,
                        },
                    )
                    &&& j.phase() == Phase::Scanning
                    &&& j.table_bytes() == Some(mft@)
                },
                Err(e) => e is Mft,
            },
    {
        match MftTable::from_bytes(mft) {
            Ok(table) => Ok(Usn::new(Some(table), ByteStream::new(usn), offset)),
            Err(e) => Err(e),
        }
    }

    /// A journal over the bytes of a `$J` stream, without name resolution.
    pub fn from_usn(usn: Vec<u8>, offset: Option<u64>) -> (j: Usn)
        ensures
            j.stream().bytes == usn@,
            j.stream().pos == first_nonzero(
                usn@,
                match offset {
                    Some(off) => off as int,
                    None => 0,
                },
            ),
            j.phase() == Phase::Scanning,
            !j.resolves(),
    {
        Usn::new(None, ByteStream::new(usn), offset)
    }

    /// The read position.
    pub fn position(&self) -> (p: u64)
        ensures
            p == self.stream().pos,
    {
        self.usn.position()
    }

    /// Pulls the next record with its display name. `None` ends the
    /// sequence: cleanly where no further record starts, and for good after
    /// an error, which is handed out once.
    pub fn next(&mut self) -> (r: Option<Result<(String, Entry), UsnError>>)
        ensures
            final(self).stream().bytes == old(self).stream().bytes,
            final(self).table_bytes() == old(self).table_bytes(),
            old(self).phase() != Phase::Scanning ==> {
                &&& r is None
                &&& final(self).phase() == old(self).phase()
                &&& final(self).stream().pos == old(self).stream().pos
            },
            old(self).phase() == Phase::Scanning ==> {
                &&& final(self).stream().pos == step_pos(
                    old(self).stream().bytes,
                    old(self).stream().pos,
                )
                &&& match step(old(self).stream().bytes, old(self).stream().pos) {
                    Step::End => r is None && final(self).phase() == Phase::Ended,
                    Step::Fatal(e) => {
                        &&& r == Some(Err::<(String, Entry), UsnError>(e))
                        &&& final(self).phase() == Phase::Failed
                    },
                    Step::Emit(rec) => {
                        &&& r matches Some(Ok(pair))
                        &&& pair.1@ == rec
                        &&& rec.wf()
                        &&& pair.0@ == match old(self).table() {
                            Some(t) => resolution(
                                t.bytes(),
                                t.paths(),
                                utf16_lossy(rec.filename),
                                (rec.file_ref % 0x1_0000_0000_0000) as u64,
                            ),
                            None => utf16_lossy(rec.filename),
                        }
                        &&& final(self).phase() == Phase::Scanning
                    },
                }
            },
    {
        match self.phase {
            Phase::Scanning => {},
            _ => {
                return None;
            },
        }
        if !self.usn.find_next_record() {
            self.phase = Phase::Ended;
            return None;
        }
        match Entry::new(&mut self.usn) {
            Err(e) => {
                self.phase = Phase::Failed;
                Some(Err(e))
            },
            Ok(entry) => {
                let name = match &mut self.mft {
                    Some(table) => resolve_name(table, &entry),
                    None => entry.filename(),
                };
                Some(Ok((name, entry)))
            },
        }
    }

    /// Pulls until the sequence ends, and gives the records pulled, each
    /// with its display name, together with the error on which the sequence
    /// stopped, if it did not end cleanly.
    pub fn read_all(&mut self) -> (r: (Vec<(String, Entry)>, Option<UsnError>))
        ensures
            final(self).stream().bytes == old(self).stream().bytes,
            final(self).table_bytes() == old(self).table_bytes(),
            old(self).phase() != Phase::Scanning ==> {
                &&& r.0@.len() == 0
                &&& r.1 is None
                &&& final(self).phase() == old(self).phase()
            },
            old(self).phase() == Phase::Scanning ==> {
                let all = records_from(old(self).stream().bytes, old(self).stream().pos);
                let failure = failure_from(old(self).stream().bytes, old(self).stream().pos);
                &&& r.0@.len() == all.len()
                &&& forall|i: int| 0 <= i < all.len() ==> (#[trigger] r.0@[i]).1@ == all[i]
                &&& forall|i: int|
                    0 <= i < all.len() ==> name_fits(
                        old(self).table_bytes(),
                        all[i],
                        (#[trigger] r.0@[i]).0@,
                    )
                &&& r.1 == failure
                &&& final(self).phase() == if failure is Some {
                    Phase::Failed
                } else {
                    Phase::Ended
                }
            },
    {
        let mut out: Vec<(String, Entry)> = Vec::new();
        let mut failure: Option<UsnError> = None;
        proof {
            self.usn.lemma_position_in_range();
        }
        let ghost s = self.stream().bytes;
        let ghost all = records_from(s, self.stream().pos);
        let ghost stop = failure_from(s, self.stream().pos);
        let ghost mut seen: Seq<Record> = Seq::empty();
        let mut scanning = match self.phase {
            Phase::Scanning => true,
            _ => false,
        };
        while scanning
            invariant
                self.stream().bytes == s,
                self.table_bytes() == old(self).table_bytes(),
                0 <= self.stream().pos,
                scanning == (self.phase() == Phase::Scanning),
                old(self).phase() != Phase::Scanning ==> {
                    &&& out@.len() == 0
                    &&& failure is None
                    &&& self.phase() == old(self).phase()
                },
                seen.len() == out@.len(),
                forall|i: int| 0 <= i < seen.len() ==> (#[trigger] out@[i]).1@ == seen[i],
                forall|i: int|
                    0 <= i < seen.len() ==> name_fits(
                        old(self).table_bytes(),
                        seen[i],
                        (#[trigger] out@[i]).0@,
                    ),
                scanning ==> failure is None && all == seen + records_from(s, self.stream().pos)
                    && stop == failure_from(s, self.stream().pos),
                !scanning && old(self).phase() == Phase::Scanning ==> all == seen && failure
                    == stop && self.phase() == if stop is Some {
                    Phase::Failed
                } else {
                    Phase::Ended
                },
            decreases
                    if !scanning {
                        0
                    } else if s.len() > self.stream().pos {
                        s.len() - self.stream().pos + 1
                    } else {
                        1
                    },
        {
            let ghost pos = self.stream().pos;
            let ghost held = self.table();
            proof {
                lemma_next_word(s, pos);
                if step(s, pos) is Emit {
                    lemma_step_advances(s, pos);
                }
            }
            match self.next() {
                None => {
                    scanning = false;
                    assert(all =~= seen);
                },
                Some(Err(e)) => {
                    failure = Some(e);
                    scanning = false;
                    assert(all =~= seen);
                },
                Some(Ok(pair)) => {
                    proof {
                        let rec = pair.1@;
                        if let Some(t) = held {
                            lemma_resolved_name_fits(t.bytes(), t.paths(), rec, pair.0@);
                        }
                        assert(name_fits(old(self).table_bytes(), rec, pair.0@));
                        assert(seen.push(rec) + records_from(s, step_pos(s, pos)) =~= seen + (
                        seq![rec] + records_from(s, step_pos(s, pos))));
                        seen = seen.push(rec);
                    }
                    out.push(pair);
                },
            }
        }
        (out, failure)
    }
}

} // verus!

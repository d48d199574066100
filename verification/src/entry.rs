//! One journal record: its layout, its decoding and its derived views.
//!
//! A record is a fixed little-endian header of 60 bytes, a file name in
//! UTF-16 whose byte length the header gives, and zero padding up to the
//! record's declared length.

use vstd::prelude::*;
use crate::codec::{
    le_u16, le_u32, le_u64, lemma_u16_placed, lemma_u16_round_trip, lemma_u32_placed,
    lemma_u32_round_trip, lemma_u64_placed, lemma_u64_round_trip, read_u16, read_u32, read_u64,
    u16_le, u32_le, u64_le, write_u16, write_u32, write_u64,
};
use crate::error::UsnError;
use crate::flags::{Attributes, Reason};
use crate::stream::ByteStream;
use crate::time::{civil_from_unix, civil_of, CivilTime};

verus! {

/// Seconds between 1601-01-01 and 1970-01-01.
pub const EPOCH_GAP: i64 = 11_644_473_600;

/// Ticks of 100 nanoseconds in a second.
pub const TICKS_PER_SECOND: u64 = 10_000_000;

/// The fields of a record.
pub struct Record {
    pub entry_size: u32,
    pub major: u16,
    pub minor: u16,
    pub file_ref: u64,
    pub parent_file_ref: u64,
    pub usn: u64,
    pub timestamp: u64,
    pub reason: u32,
    pub source_info: u32,
    pub security_id: u32,
    pub file_attributes: u32,
    pub filename_length: u16,
    pub filename_offset: u16,
    pub filename: Seq<u16>,
}

impl Record {
    /// The length fields agree: the record holds its header and its name,
    /// and the name's byte length is even.
    pub open spec fn well_sized(self) -> bool {
        &&& self.entry_size >= 60
        &&& self.filename_length % 2 == 0
        &&& 60 + self.filename_length <= self.entry_size
    }

    /// A record as the decoder yields it: version 2.0, length fields that
    /// agree, and as many name units as the header announces.
    pub open spec fn wf(self) -> bool {
        &&& self.major == 2
        &&& self.minor == 0
        &&& self.well_sized()
        &&& self.filename.len() * 2 == self.filename_length
    }

    /// Seconds since 1970-01-01 of the record's time stamp.
    pub open spec fn unix_timestamp(self) -> int {
        self.timestamp as int / 10_000_000 - 11_644_473_600
    }
}

/// The fields read at `at`, whatever they hold.
pub open spec fn record_at(s: Seq<u8>, at: int) -> Record {
    Record {
        entry_size: le_u32(s, at) as u32,
        major: le_u16(s, at + 4) as u16,
        minor: le_u16(s, at + 6) as u16,
        file_ref: le_u64(s, at + 8) as u64,
        parent_file_ref: le_u64(s, at + 16) as u64,
        usn: le_u64(s, at + 24) as u64,
        timestamp: le_u64(s, at + 32) as u64,
        reason: le_u32(s, at + 40) as u32,
        source_info: le_u32(s, at + 44) as u32,
        security_id: le_u32(s, at + 48) as u32,
        file_attributes: le_u32(s, at + 52) as u32,
        filename_length: le_u16(s, at + 56) as u16,
        filename_offset: le_u16(s, at + 58) as u16,
        filename: Seq::new(
            (le_u16(s, at + 56) / 2) as nat,
            |i: int| le_u16(s, at + 60 + 2 * i) as u16,
        ),
    }
}

/// Decoding at `at`: the record there, or why there is none. The header is
/// read first; the version is judged before the length fields, and those
/// before the rest of the record is asked for.
pub open spec fn parse_record(s: Seq<u8>, at: int) -> Result<Record, UsnError> {
    let r = record_at(s, at);
    if at < 0 || at + 60 > s.len() {
        Err(UsnError::Truncated)
    } else if r.major != 2 || r.minor != 0 {
        Err(UsnError::BadVersion { major: r.major, minor: r.minor })
    } else if !r.well_sized() {
        Err(UsnError::BadLength)
    } else if at + r.entry_size > s.len() {
        Err(UsnError::Truncated)
    } else {
        Ok(r)
    }
}

/// The bytes of the code units, each unit least significant byte first.
pub open spec fn units_le(units: Seq<u16>) -> Seq<u8> {
    Seq::new(
        2 * units.len(),
        |i: int|
            if i % 2 == 0 {
                (units[i / 2] % 0x100) as u8
            } else {
                (units[i / 2] / 0x100) as u8
            },
    )
}

/// `n` zero bytes.
pub open spec fn zeros(n: int) -> Seq<u8> {
    Seq::new(n as nat, |i: int| 0u8)
}

/// The 60 bytes of a record's header.
pub open spec fn header_bytes(r: Record) -> Seq<u8> {
    u32_le(r.entry_size) + u16_le(r.major) + u16_le(r.minor) + u64_le(r.file_ref) + u64_le(
        r.parent_file_ref,
    ) + u64_le(r.usn) + u64_le(r.timestamp) + u32_le(r.reason) + u32_le(r.source_info) + u32_le(
        r.security_id,
    ) + u32_le(r.file_attributes) + u16_le(r.filename_length) + u16_le(r.filename_offset)
}

/// The bytes of a record: header, name, and zero padding up to the declared
/// length.
pub open spec fn encode_record(r: Record) -> Seq<u8> {
    header_bytes(r) + units_le(r.filename) + zeros(r.entry_size - 60 - 2 * r.filename.len())
}

/// The header is 60 bytes long and each field is read back at its offset.
pub proof fn lemma_header_fields(r: Record, s: Seq<u8>, at: int)
    requires
        0 <= at,
        at + 60 <= s.len(),
        s.subrange(at, at + 60) == header_bytes(r),
    ensures
        header_bytes(r).len() == 60,
        le_u32(s, at) == r.entry_size,
        le_u16(s, at + 4) == r.major,
        le_u16(s, at + 6) == r.minor,
        le_u64(s, at + 8) == r.file_ref,
        le_u64(s, at + 16) == r.parent_file_ref,
        le_u64(s, at + 24) == r.usn,
        le_u64(s, at + 32) == r.timestamp,
        le_u32(s, at + 40) == r.reason,
        le_u32(s, at + 44) == r.source_info,
        le_u32(s, at + 48) == r.security_id,
        le_u32(s, at + 52) == r.file_attributes,
        le_u16(s, at + 56) == r.filename_length,
        le_u16(s, at + 58) == r.filename_offset,
{
    let h = header_bytes(r);
    lemma_header_len(r);
    lemma_u32_round_trip(r.entry_size);
    lemma_u16_round_trip(r.major);
    lemma_u16_round_trip(r.minor);
    lemma_u64_round_trip(r.file_ref);
    lemma_u64_round_trip(r.parent_file_ref);
    lemma_u64_round_trip(r.usn);
    lemma_u64_round_trip(r.timestamp);
    lemma_u32_round_trip(r.reason);
    lemma_u32_round_trip(r.source_info);
    lemma_u32_round_trip(r.security_id);
    lemma_u32_round_trip(r.file_attributes);
    lemma_u16_round_trip(r.filename_length);
    lemma_u16_round_trip(r.filename_offset);
    assert forall|a: int, b: int| 0 <= a <= b <= 60 implies #[trigger] s.subrange(at + a, at + b)
        == h.subrange(a, b) by {
        assert(s.subrange(at + a, at + b) =~= s.subrange(at, at + 60).subrange(a, b));
    }
    assert(h.subrange(0, 4) =~= u32_le(r.entry_size));
    assert(s.subrange(at + 0, at + 4) == h.subrange(0, 4));
    lemma_u32_placed(s, at, r.entry_size);
    assert(h.subrange(4, 6) =~= u16_le(r.major));
    assert(s.subrange(at + 4, at + 6) == h.subrange(4, 6));
    lemma_u16_placed(s, at + 4, r.major);
    assert(h.subrange(6, 8) =~= u16_le(r.minor));
    assert(s.subrange(at + 6, at + 8) == h.subrange(6, 8));
    lemma_u16_placed(s, at + 6, r.minor);
    assert(h.subrange(8, 16) =~= u64_le(r.file_ref));
    assert(s.subrange(at + 8, at + 16) == h.subrange(8, 16));
    lemma_u64_placed(s, at + 8, r.file_ref);
    assert(h.subrange(16, 24) =~= u64_le(r.parent_file_ref));
    assert(s.subrange(at + 16, at + 24) == h.subrange(16, 24));
    lemma_u64_placed(s, at + 16, r.parent_file_ref);
    assert(h.subrange(24, 32) =~= u64_le(r.usn));
    assert(s.subrange(at + 24, at + 32) == h.subrange(24, 32));
    lemma_u64_placed(s, at + 24, r.usn);
    assert(h.subrange(32, 40) =~= u64_le(r.timestamp));
    assert(s.subrange(at + 32, at + 40) == h.subrange(32, 40));
    lemma_u64_placed(s, at + 32, r.timestamp);
    assert(h.subrange(40, 44) =~= u32_le(r.reason));
    assert(s.subrange(at + 40, at + 44) == h.subrange(40, 44));
    lemma_u32_placed(s, at + 40, r.reason);
    assert(h.subrange(44, 48) =~= u32_le(r.source_info));
    assert(s.subrange(at + 44, at + 48) == h.subrange(44, 48));
    lemma_u32_placed(s, at + 44, r.source_info);
    assert(h.subrange(48, 52) =~= u32_le(r.security_id));
    assert(s.subrange(at + 48, at + 52) == h.subrange(48, 52));
    lemma_u32_placed(s, at + 48, r.security_id);
    assert(h.subrange(52, 56) =~= u32_le(r.file_attributes));
    assert(s.subrange(at + 52, at + 56) == h.subrange(52, 56));
    lemma_u32_placed(s, at + 52, r.file_attributes);
    assert(h.subrange(56, 58) =~= u16_le(r.filename_length));
    assert(s.subrange(at + 56, at + 58) == h.subrange(56, 58));
    lemma_u16_placed(s, at + 56, r.filename_length);
    assert(h.subrange(58, 60) =~= u16_le(r.filename_offset));
    assert(s.subrange(at + 58, at + 60) == h.subrange(58, 60));
    lemma_u16_placed(s, at + 58, r.filename_offset);
}

/// A well-formed record that stands at `at` in a byte sequence is decoded
/// there, field for field.
pub proof fn lemma_decode_encoded(r: Record, s: Seq<u8>, at: int)
    requires
        r.wf(),
        0 <= at,
        at + r.entry_size <= s.len(),
        s.subrange(at, at + r.entry_size) == encode_record(r),
    ensures
        encode_record(r).len() == r.entry_size,
        parse_record(s, at) == Ok::<Record, UsnError>(r),
{
    let e = encode_record(r);
    let h = header_bytes(r);
    lemma_header_len(r);
    assert(e.len() == r.entry_size);
    assert forall|i: int| 0 <= i < e.len() implies s[at + i] == e[i] by {
        assert(s.subrange(at, at + r.entry_size)[i] == s[at + i]);
    }
    assert(s.subrange(at, at + 60) =~= h);
    lemma_header_fields(r, s, at);
    let got = record_at(s, at);
    assert(got.filename.len() == r.filename.len());
    assert forall|j: int| 0 <= j < r.filename.len() implies got.filename[j] == r.filename[j] by {
        let u = r.filename[j];
        let name = units_le(r.filename);
        assert(e[60 + 2 * j] == name[2 * j]);
        assert(e[60 + 2 * j + 1] == name[2 * j + 1]);
        assert(s[at + 60 + 2 * j] == e[60 + 2 * j]);
        assert(s[at + 60 + 2 * j + 1] == e[60 + 2 * j + 1]);
        assert(name[2 * j] == (u % 0x100) as u8);
        assert(name[2 * j + 1] == (u / 0x100) as u8);
    }
    assert(got.filename =~= r.filename);
}

/// Round trip: whatever bytes a record was decoded from, the record is well
/// formed, its own bytes are as long as it declares, and decoding them gives
/// the same record, field for field.
pub proof fn lemma_round_trip(s: Seq<u8>, at: int)
    requires
        parse_record(s, at) is Ok,
    ensures
        ({
            let r = parse_record(s, at).unwrap();
            &&& r.wf()
            &&& encode_record(r).len() == r.entry_size
            &&& parse_record(encode_record(r), 0) == Ok::<Record, UsnError>(r)
        }),
{
    let r = parse_record(s, at).unwrap();
    assert(r == record_at(s, at));
    lemma_header_len(r);
    let e = encode_record(r);
    assert(e.subrange(0, r.entry_size as int) =~= e);
    lemma_decode_encoded(r, e, 0);
}

/// The header is 60 bytes long.
pub proof fn lemma_header_len(r: Record)
    ensures
        header_bytes(r).len() == 60,
{
    lemma_u32_round_trip(r.entry_size);
    lemma_u16_round_trip(r.major);
    lemma_u16_round_trip(r.minor);
    lemma_u64_round_trip(r.file_ref);
    lemma_u64_round_trip(r.parent_file_ref);
    lemma_u64_round_trip(r.usn);
    lemma_u64_round_trip(r.timestamp);
    lemma_u32_round_trip(r.reason);
    lemma_u32_round_trip(r.source_info);
    lemma_u32_round_trip(r.security_id);
    lemma_u32_round_trip(r.file_attributes);
    lemma_u16_round_trip(r.filename_length);
    lemma_u16_round_trip(r.filename_offset);
}

/// Whether a code unit is a surrogate.
pub open spec fn is_surrogate(unit: u16) -> bool {
    0xD800 <= unit <= 0xDFFF
}

/// Whether two code units are a leading surrogate and a trailing one.
pub open spec fn is_pair(lead: u16, trail: u16) -> bool {
    0xD800 <= lead <= 0xDBFF && 0xDC00 <= trail <= 0xDFFF
}

/// The text of UTF-16 code units, with U+FFFD in place of every surrogate
/// that has no partner: a unit that is no surrogate is its own code point,
/// and a leading surrogate with the trailing one after it is one code point
/// above the basic plane.
pub open spec fn utf16_lossy(units: Seq<u16>) -> Seq<char>
    decreases units.len(),
{
    if units.len() == 0 {
        Seq::empty()
    } else if !is_surrogate(units[0]) {
        seq![units[0] as char] + utf16_lossy(units.skip(1))
    } else if units.len() >= 2 && is_pair(units[0], units[1]) {
        seq![(0x1_0000 + (units[0] - 0xD800) * 0x400 + (units[1] - 0xDC00)) as char] + utf16_lossy(
            units.skip(2),
        )
    } else {
        seq!['\u{FFFD}'] + utf16_lossy(units.skip(1))
    }
}

/// `String::from_utf16_lossy`: decodes UTF-16 and replaces invalid data, that
/// is each unpaired surrogate, with U+FFFD. Claimed of it and not proved: the
/// text is `utf16_lossy` of the code units.
#[verifier::external_body]
fn string_from_utf16_lossy(units: &Vec<u16>) -> (s: String)
    ensures
        s@ == utf16_lossy(units@),
{
    String::from_utf16_lossy(units)
}

/// A decoded journal record.
#[derive(Debug)]
pub struct Entry {
    entry_size: u32,
    major: u16,
    minor: u16,
    file_ref: u64,
    parent_file_ref: u64,
    usn: u64,
    timestamp: u64,
    reason: u32,
    source_info: u32,
    security_id: u32,
    file_attributes: u32,
    filename_length: u16,
    filename_offset: u16,
    filename: Vec<u16>,
}

impl View for Entry {
    type V = Record;

    closed spec fn view(&self) -> Record {
        Record {
            entry_size: self.entry_size,
            major: self.major,
            minor: self.minor,
            file_ref: self.file_ref,
            parent_file_ref: self.parent_file_ref,
            usn: self.usn,
            timestamp: self.timestamp,
            reason: self.reason,
            source_info: self.source_info,
            security_id: self.security_id,
            file_attributes: self.file_attributes,
            filename_length: self.filename_length,
            filename_offset: self.filename_offset,
            filename: self.filename@,
        }
    }
}

impl Entry {
    #[verifier::type_invariant]
    spec fn inv(self) -> bool {
        self@.wf()
    }

    /// Decodes the record at the read position and moves past it. On an
    /// error the stream is left where it was.
    pub fn new(reader: &mut ByteStream) -> (r: Result<Entry, UsnError>)
        ensures
            final(reader)@.bytes == old(reader)@.bytes,
            match parse_record(old(reader)@.bytes, old(reader)@.pos) {
                Ok(rec) => r.is_ok() && r.unwrap()@ == rec && rec.wf() && final(reader)@.pos
                    == old(reader)@.pos + rec.entry_size,
                Err(e) => r == Err::<Entry, UsnError>(e) && final(reader)@.pos == old(reader)@.pos,
            },
    {
        let pos: u64 = reader.position();
        let len: usize = reader.len();
        if pos > len as u64 || len as u64 - pos < 60 {
            return Err(UsnError::Truncated);
        }
        let at: usize = pos as usize;
        let data = reader.data();
        let ghost s = data@;
        let entry_size = read_u32(data, at);
        let major = read_u16(data, at + 4);
        let minor = read_u16(data, at + 6);
        if major != 2 || minor != 0 {
            return Err(UsnError::BadVersion { major, minor });
        }
        let file_ref = read_u64(data, at + 8);
        let parent_file_ref = read_u64(data, at + 16);
        let usn = read_u64(data, at + 24);
        let timestamp = read_u64(data, at + 32);
        let reason = read_u32(data, at + 40);
        let source_info = read_u32(data, at + 44);
        let security_id = read_u32(data, at + 48);
        let file_attributes = read_u32(data, at + 52);
        let filename_length = read_u16(data, at + 56);
        let filename_offset = read_u16(data, at + 58);
        if entry_size < 60 || filename_length % 2 != 0 || entry_size - 60 < filename_length as u32 {
            return Err(UsnError::BadLength);
        }
        if entry_size as u64 > len as u64 - pos {
            return Err(UsnError::Truncated);
        }
        let count: usize = (filename_length / 2) as usize;
        let mut filename: Vec<u16> = Vec::new();
        let mut i: usize = 0;
        while i < count
            invariant
                i <= count,
                count * 2 == filename_length,
                at + 60 + filename_length <= len,
                len == data@.len(),
                data@ == s,
                filename@.len() == i,
                forall|j: int| 0 <= j < i ==> filename@[j] == le_u16(s, at + 60 + 2 * j) as u16,
            decreases count - i,
        {
            let unit = read_u16(data, at + 60 + 2 * i);
            filename.push(unit);
            i += 1;
        }
        assert(filename@ =~= record_at(s, at as int).filename);
        let entry = Entry {
            entry_size,
            major,
            minor,
            file_ref,
            parent_file_ref,
            usn,
            timestamp,
            reason,
            source_info,
            security_id,
            file_attributes,
            filename_length,
            filename_offset,
            filename,
        };
        reader.seek(pos + entry_size as u64);
        Ok(entry)
    }

    /// The record's bytes: header, name, and zero padding up to the declared
    /// length. Decoding them gives the record back.
    pub fn to_bytes(&self) -> (out: Vec<u8>)
        ensures
            self@.wf(),
            out@ == encode_record(self@),
            out@.len() == self@.entry_size,
            parse_record(out@, 0) == Ok::<Record, UsnError>(self@),
    {
        proof {
            use_type_invariant(self);
        }
        let mut out: Vec<u8> = Vec::new();
        write_u32(&mut out, self.entry_size);
        write_u16(&mut out, self.major);
        write_u16(&mut out, self.minor);
        write_u64(&mut out, self.file_ref);
        write_u64(&mut out, self.parent_file_ref);
        write_u64(&mut out, self.usn);
        write_u64(&mut out, self.timestamp);
        write_u32(&mut out, self.reason);
        write_u32(&mut out, self.source_info);
        write_u32(&mut out, self.security_id);
        write_u32(&mut out, self.file_attributes);
        write_u16(&mut out, self.filename_length);
        write_u16(&mut out, self.filename_offset);
        assert(out@ =~= header_bytes(self@));
        let ghost head = out@;
        let count: usize = self.filename.len();
        let mut i: usize = 0;
        assert(out@ =~= head + units_le(self.filename@.take(0)));
        while i < count
            invariant
                i <= count,
                count == self.filename@.len(),
                out@ == head + units_le(self.filename@.take(i as int)),
            decreases count - i,
        {
            let unit: u16 = self.filename[i];
            let ghost before = out@;
            write_u16(&mut out, unit);
            proof {
                reveal(u16_le);
                let a = units_le(self.filename@.take(i as int));
                let b = units_le(self.filename@.take(i + 1));
                assert(a + u16_le(unit) =~= b);
                assert(out@ =~= head + b);
            }
            i += 1;
        }
        assert(self.filename@.take(count as int) =~= self.filename@);
        let ghost named = out@;
        let pad: u32 = self.entry_size - 60 - self.filename_length as u32;
        let mut k: u32 = 0;
        assert(out@ =~= named + zeros(0));
        while k < pad
            invariant
                k <= pad,
                out@ == named + zeros(k as int),
            decreases pad - k,
        {
            out.push(0);
            assert(out@ =~= named + zeros(k + 1));
            k += 1;
        }
        proof {
            lemma_header_len(self@);
            assert(out@ == encode_record(self@));
            assert(out@.len() == self@.entry_size);
            assert(out@.subrange(0, self@.entry_size as int) =~= out@);
            lemma_decode_encoded(self@, out@, 0);
        }
        out
    }

    /// The record's update sequence number.
    pub fn usn(&self) -> (v: u64)
        ensures
            v == self@.usn,
    {
        self.usn
    }

    /// The record's time stamp: ticks of 100 nanoseconds since 1601-01-01.
    pub fn timestamp(&self) -> (v: u64)
        ensures
            v == self@.timestamp,
    {
        self.timestamp
    }

    /// The file name, decoded from UTF-16 with U+FFFD for what is not valid.
    pub fn filename(&self) -> (name: String)
        ensures
            name@ == utf16_lossy(self@.filename),
    {
        string_from_utf16_lossy(&self.filename)
    }

    /// The known change reasons of the record.
    pub fn reasons(&self) -> (r: Reason)
        ensures
            r.mask() == self@.reason & crate::flags::REASON_MASK,
    {
        Reason::from_bits_truncate(self.reason)
    }

    /// The known file attributes of the record.
    pub fn attributes(&self) -> (a: Attributes)
        ensures
            a.mask() == self@.file_attributes & crate::flags::ATTRIBUTE_MASK,
    {
        Attributes::from_bits_truncate(self.file_attributes)
    }

    /// The time stamp in seconds since 1970-01-01.
    pub fn unix_timestamp(&self) -> (t: i64)
        ensures
            t == self@.unix_timestamp(),
    {
        (self.timestamp / TICKS_PER_SECOND) as i64 - EPOCH_GAP
    }

    /// The time stamp on the calendar, in UTC.
    pub fn time(&self) -> (t: CivilTime)
        ensures
            -11_644_473_600 <= self@.unix_timestamp() <= 1_833_029_933_770,
            civil_of(self@.unix_timestamp() as i64, t),
            1 <= t.month <= 12,
            1 <= t.day <= 31,
            t.hour < 24,
            t.minute < 60,
            t.second < 60,
    {
        civil_from_unix(self.unix_timestamp()).unwrap()
    }

    /// The index of the file's slot in the master file table: the low 48
    /// bits of the file reference.
    pub fn mft_entry_num(&self) -> (n: u64)
        ensures
            n == self@.file_ref % 0x1_0000_0000_0000,
    {
        let r = self.file_ref;
        assert(r & 0xFFFF_FFFF_FFFF == r % 0x1_0000_0000_0000) by (bit_vector);
        r & 0xFFFF_FFFF_FFFF
    }

    /// How often the file's slot had been reused: the high 16 bits of the
    /// file reference.
    pub fn sequence_num(&self) -> (n: u64)
        ensures
            n == self@.file_ref / 0x1_0000_0000_0000,
    {
        let r = self.file_ref;
        assert((r >> 48) & 0xFFFF == r / 0x1_0000_0000_0000) by (bit_vector);
        (r >> 48) & 0xFFFF
    }

    /// The slot index of the containing directory.
    pub fn parent_mft_entry_num(&self) -> (n: u64)
        ensures
            n == self@.parent_file_ref % 0x1_0000_0000_0000,
    {
        let r = self.parent_file_ref;
        assert(r & 0xFFFF_FFFF_FFFF == r % 0x1_0000_0000_0000) by (bit_vector);
        r & 0xFFFF_FFFF_FFFF
    }

    /// The reuse count of the containing directory's slot.
    pub fn parent_sequence_num(&self) -> (n: u64)
        ensures
            n == self@.parent_file_ref / 0x1_0000_0000_0000,
    {
        let r = self.parent_file_ref;
        assert((r >> 48) & 0xFFFF == r / 0x1_0000_0000_0000) by (bit_vector);
        (r >> 48) & 0xFFFF
    }
}

} // verus!

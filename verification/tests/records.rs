use usnrs::codec::{read_u16, read_u32, read_u64, write_u16, write_u32, write_u64};
use usnrs::{ByteStream, Entry, UsnError};

fn record_with(
    entry_size: u32,
    major: u16,
    minor: u16,
    file_ref: u64,
    timestamp: u64,
    reason: u32,
    attributes: u32,
    name_bytes: u16,
    name: &[u16],
    padding: usize,
) -> Vec<u8> {
    let mut out = Vec::new();
    out.extend_from_slice(&entry_size.to_le_bytes());
    out.extend_from_slice(&major.to_le_bytes());
    out.extend_from_slice(&minor.to_le_bytes());
    out.extend_from_slice(&file_ref.to_le_bytes());
    out.extend_from_slice(&0x0005_0000_0000_0005u64.to_le_bytes());
    out.extend_from_slice(&0x1122_3344_5566_7788u64.to_le_bytes());
    out.extend_from_slice(&timestamp.to_le_bytes());
    out.extend_from_slice(&reason.to_le_bytes());
    out.extend_from_slice(&7u32.to_le_bytes());
    out.extend_from_slice(&9u32.to_le_bytes());
    out.extend_from_slice(&attributes.to_le_bytes());
    out.extend_from_slice(&name_bytes.to_le_bytes());
    out.extend_from_slice(&60u16.to_le_bytes());
    for unit in name {
        out.extend_from_slice(&unit.to_le_bytes());
    }
    out.extend(std::iter::repeat(0u8).take(padding));
    out
}

fn name_units(name: &str) -> Vec<u16> {
    name.encode_utf16().collect()
}

fn sample() -> Vec<u8> {
    let name = name_units("test.txt");
    record_with(
        80,
        2,
        0,
        0x0001_0000_0000_002A,
        132_223_104_000_000_000,
        0x8000_0101,
        0x20,
        16,
        &name,
        4,
    )
}

fn decode(bytes: Vec<u8>) -> (Result<Entry, UsnError>, u64) {
    let mut stream = ByteStream::new(bytes);
    let r = Entry::new(&mut stream);
    (r, stream.position())
}

#[test]
fn little_endian_reads_match_std() {
    let data: Vec<u8> = vec![0x01, 0x23, 0x45, 0x67, 0x89, 0xab, 0xcd, 0xef, 0x10];
    assert_eq!(read_u16(&data, 0), 0x2301);
    assert_eq!(read_u16(&data, 7), 0x10ef);
    assert_eq!(read_u32(&data, 1), 0x8967_4523);
    assert_eq!(read_u64(&data, 0), 0xefcd_ab89_6745_2301);
    assert_eq!(read_u64(&data, 1), 0x10ef_cdab_8967_4523);
}

#[test]
fn little_endian_writes_match_std() {
    let mut out = vec![0xaa];
    write_u16(&mut out, 0xbeef);
    write_u32(&mut out, 0x0102_0304);
    write_u64(&mut out, 0x1122_3344_5566_7788);
    let mut expected = vec![0xaa];
    expected.extend_from_slice(&0xbeefu16.to_le_bytes());
    expected.extend_from_slice(&0x0102_0304u32.to_le_bytes());
    expected.extend_from_slice(&0x1122_3344_5566_7788u64.to_le_bytes());
    assert_eq!(out, expected);
}

#[test]
fn decodes_every_field() {
    let (r, pos) = decode(sample());
    let e = r.unwrap();
    assert_eq!(pos, 80);
    assert_eq!(e.usn(), 0x1122_3344_5566_7788);
    assert_eq!(e.timestamp(), 132_223_104_000_000_000);
    assert_eq!(e.filename(), "test.txt");
    assert_eq!(e.mft_entry_num(), 0x2A);
    assert_eq!(e.sequence_num(), 1);
    assert_eq!(e.parent_mft_entry_num(), 5);
    assert_eq!(e.parent_sequence_num(), 5);
    assert_eq!(e.reasons().bits(), 0x8000_0101);
    assert_eq!(e.attributes().bits(), 0x20);
    let text = format!("{:?}", e);
    assert!(text.contains("entry_size: 80"));
    assert!(text.contains("source_info: 7"));
    assert!(text.contains("security_id: 9"));
    assert!(text.contains("filename_offset: 60"));
}

#[test]
fn decode_starts_at_the_read_position() {
    let mut bytes = vec![0u8; 8];
    bytes.extend(sample());
    bytes.extend(sample());
    let mut stream = ByteStream::new(bytes);
    stream.seek(8);
    let e = Entry::new(&mut stream).unwrap();
    assert_eq!(e.filename(), "test.txt");
    assert_eq!(stream.position(), 88);
    let e = Entry::new(&mut stream).unwrap();
    assert_eq!(e.mft_entry_num(), 0x2A);
    assert_eq!(stream.position(), 168);
}

#[test]
fn round_trip_is_field_for_field() {
    let (r, _) = decode(sample());
    let first = r.unwrap();
    let bytes = first.to_bytes();
    assert_eq!(bytes, sample());
    let (r, pos) = decode(bytes);
    let second = r.unwrap();
    assert_eq!(pos, 80);
    assert_eq!(format!("{:?}", first), format!("{:?}", second));
}

#[test]
fn round_trip_zeroes_the_padding() {
    let mut bytes = sample();
    bytes[77] = 0xff;
    bytes[79] = 0x01;
    let (r, _) = decode(bytes);
    let first = r.unwrap();
    let again = first.to_bytes();
    assert_eq!(again, sample());
    let (r, _) = decode(again);
    assert_eq!(format!("{:?}", first), format!("{:?}", r.unwrap()));
}

#[test]
fn record_without_name_or_padding() {
    let bytes = record_with(60, 2, 0, 1, 0, 0, 0, 0, &[], 0);
    let (r, pos) = decode(bytes.clone());
    let e = r.unwrap();
    assert_eq!(pos, 60);
    assert_eq!(e.filename(), "");
    assert_eq!(e.to_bytes(), bytes);
}

#[test]
fn file_reference_parts() {
    let bytes = record_with(60, 2, 0, 0x0001_0000_0000_002A, 0, 0, 0, 0, &[], 0);
    let e = decode(bytes).0.unwrap();
    assert_eq!(e.mft_entry_num(), 0x2A);
    assert_eq!(e.sequence_num(), 0x1);
    let bytes = record_with(60, 2, 0, 0xFFFF_FFFF_FFFF_FFFF, 0, 0, 0, 0, &[], 0);
    let e = decode(bytes).0.unwrap();
    assert_eq!(e.mft_entry_num(), 0xFFFF_FFFF_FFFF);
    assert_eq!(e.sequence_num(), 0xFFFF);
    assert_eq!(e.parent_mft_entry_num(), 5);
    assert_eq!(e.parent_sequence_num(), 5);
}

#[test]
fn unix_timestamp_reference_values() {
    let at = |ticks: u64| {
        let bytes = record_with(60, 2, 0, 1, ticks, 0, 0, 0, &[], 0);
        decode(bytes).0.unwrap().unix_timestamp()
    };
    assert_eq!(at(116_444_736_000_000_000), 0);
    assert_eq!(at(130_000_000_000_000_000), 1_355_526_400);
    assert_eq!(at(0), -11_644_473_600);
    assert_eq!(at(9_999_999), -11_644_473_600);
    assert_eq!(at(10_000_000), -11_644_473_599);
    assert_eq!(at(u64::MAX), 1_833_029_933_770);
}

#[test]
fn calendar_time_of_a_record() {
    let at = |ticks: u64| {
        let bytes = record_with(60, 2, 0, 1, ticks, 0, 0, 0, &[], 0);
        decode(bytes).0.unwrap().time()
    };
    let t = at(116_444_736_000_000_000);
    assert_eq!((t.year, t.month, t.day, t.hour, t.minute, t.second), (1970, 1, 1, 0, 0, 0));
    let t = at(132_223_104_000_000_000);
    assert_eq!((t.year, t.month, t.day, t.hour, t.minute, t.second), (2020, 1, 1, 0, 0, 0));
    let t = at(132_223_104_000_000_000 + 45_296 * 10_000_000);
    assert_eq!((t.year, t.month, t.day, t.hour, t.minute, t.second), (2020, 1, 1, 12, 34, 56));
    let t = at(0);
    assert_eq!((t.year, t.month, t.day, t.hour, t.minute, t.second), (1601, 1, 1, 0, 0, 0));
    let t = at(u64::MAX);
    assert_eq!((t.year, t.month, t.day, t.hour, t.minute, t.second), (60056, 5, 28, 5, 36, 10));
}

#[test]
fn filename_decoding_is_lossy() {
    let units = [0x0061u16, 0xD800, 0x0062, 0xD83D, 0xDE00, 0xDC00];
    let bytes = record_with(72, 2, 0, 1, 0, 0, 0, 12, &units, 0);
    let e = decode(bytes).0.unwrap();
    assert_eq!(e.filename(), "a\u{FFFD}b\u{1F600}\u{FFFD}");
}

#[test]
fn unpaired_surrogates_are_replaced_one_by_one() {
    let units = [0xD800u16, 0xD83D, 0xDE00, 0xDBFF];
    let bytes = record_with(68, 2, 0, 1, 0, 0, 0, 8, &units, 0);
    let e = decode(bytes).0.unwrap();
    assert_eq!(e.filename(), "\u{FFFD}\u{1F600}\u{FFFD}");
    let units = [0xDC00u16, 0xD800, 0xFFFF, 0xE000, 0xD7FF];
    let bytes = record_with(70, 2, 0, 1, 0, 0, 0, 10, &units, 0);
    let e = decode(bytes).0.unwrap();
    assert_eq!(e.filename(), "\u{FFFD}\u{FFFD}\u{FFFF}\u{E000}\u{D7FF}");
    let units = [0xDBFFu16, 0xDFFF, 0xD800, 0xDC00];
    let bytes = record_with(68, 2, 0, 1, 0, 0, 0, 8, &units, 0);
    let e = decode(bytes).0.unwrap();
    assert_eq!(e.filename(), "\u{10FFFF}\u{10000}");
}

#[test]
fn version_other_than_two_zero_is_rejected() {
    let (r, pos) = decode(record_with(60, 3, 0, 1, 0, 0, 0, 0, &[], 0));
    assert!(matches!(r, Err(UsnError::BadVersion { major: 3, minor: 0 })));
    assert_eq!(pos, 0);
    let (r, _) = decode(record_with(60, 2, 1, 1, 0, 0, 0, 0, &[], 0));
    assert!(matches!(r, Err(UsnError::BadVersion { major: 2, minor: 1 })));
    let (r, _) = decode(record_with(60, 0, 0, 1, 0, 0, 0, 0, &[], 0));
    assert!(matches!(r, Err(UsnError::BadVersion { major: 0, minor: 0 })));
}

#[test]
fn version_is_judged_before_lengths() {
    let (r, _) = decode(record_with(10, 3, 0, 1, 0, 0, 0, 3, &[], 0));
    assert!(matches!(r, Err(UsnError::BadVersion { major: 3, minor: 0 })));
}

#[test]
fn short_header_is_truncated() {
    let mut bytes = sample();
    bytes.truncate(59);
    let (r, pos) = decode(bytes);
    assert!(matches!(r, Err(UsnError::Truncated)));
    assert_eq!(pos, 0);
    let (r, _) = decode(Vec::new());
    assert!(matches!(r, Err(UsnError::Truncated)));
}

#[test]
fn read_position_past_the_end_is_truncated() {
    let mut stream = ByteStream::new(sample());
    stream.seek(1_000);
    assert!(matches!(Entry::new(&mut stream), Err(UsnError::Truncated)));
    assert_eq!(stream.position(), 1_000);
    stream.seek(u64::MAX);
    assert!(matches!(Entry::new(&mut stream), Err(UsnError::Truncated)));
}

#[test]
fn short_body_is_truncated() {
    let mut bytes = sample();
    bytes.truncate(79);
    let (r, pos) = decode(bytes);
    assert!(matches!(r, Err(UsnError::Truncated)));
    assert_eq!(pos, 0);
}

#[test]
fn contradicting_lengths_are_rejected() {
    let (r, pos) = decode(record_with(59, 2, 0, 1, 0, 0, 0, 0, &[], 0));
    assert!(matches!(r, Err(UsnError::BadLength)));
    assert_eq!(pos, 0);
    let name = name_units("ab");
    let (r, _) = decode(record_with(64, 2, 0, 1, 0, 0, 0, 3, &name, 0));
    assert!(matches!(r, Err(UsnError::BadLength)));
    let (r, _) = decode(record_with(62, 2, 0, 1, 0, 0, 0, 4, &name, 0));
    assert!(matches!(r, Err(UsnError::BadLength)));
    let (r, _) = decode(record_with(64, 2, 0, 1, 0, 0, 0, 4, &name, 0));
    assert!(r.is_ok());
}

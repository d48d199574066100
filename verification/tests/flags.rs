use usnrs::flags::{ATTRIBUTE_MASK, REASON_MASK};
use usnrs::{Attributes, Reason};

#[test]
fn reasons_render_in_declaration_order() {
    assert_eq!(Reason::from_bits_truncate(0x100 | 0x1).to_string(), "DataOverwrite FileCreate");
    assert_eq!(Reason::from_bits_truncate(0x1 | 0x100).to_string(), "DataOverwrite FileCreate");
    assert_eq!(
        Reason::from_bits_truncate(0x8000_0000 | 0x2000 | 0x200).to_string(),
        "FileDelete RenameNewName Close"
    );
}

#[test]
fn single_and_empty_sets_render_without_spaces() {
    assert_eq!(Reason::from_bits_truncate(0).to_string(), "");
    assert_eq!(Reason::from_bits_truncate(0x8000_0000).to_string(), "Close");
    assert_eq!(Attributes::from_bits_truncate(0).to_string(), "");
    assert_eq!(Attributes::from_bits_truncate(0x10).to_string(), "Directory");
}

#[test]
fn every_reason_renders() {
    assert_eq!(
        Reason::from_bits_truncate(u32::MAX).to_string(),
        "DataOverwrite DataExtend DataTruncation NamedDataOverwrite NamedDataExtend \
         NamedDataTruncation FileCreate FileDelete EaChange SecurityChange RenameOldName \
         RenameNewName IndexableChange BasicInfoChange HardLinkChange CompressionChange \
         EncryptionChange ObjectIdChange ReparsePointChange StreamChange Close"
    );
}

#[test]
fn every_attribute_renders() {
    assert_eq!(
        Attributes::from_bits_truncate(u32::MAX).to_string(),
        "ReadOnly Hidden System Directory Archive Device Normal Temporary SparseFile \
         ReparsePoint Compressed Offline NotContentIndexed Encrypted IntegrityStream Virtual \
         NoScrubData"
    );
}

#[test]
fn unknown_bits_are_dropped() {
    assert_eq!(REASON_MASK, 0x803F_FF77);
    assert_eq!(ATTRIBUTE_MASK, 0x0003_FFF7);
    assert_eq!(Reason::from_bits_truncate(0x0000_0008 | 0x1).bits(), 0x1);
    assert_eq!(Reason::from_bits_truncate(0x7FC0_0088).bits(), 0);
    assert_eq!(Reason::from_bits_truncate(u32::MAX).bits(), 0x803F_FF77);
    assert_eq!(Attributes::from_bits_truncate(0x8 | 0x20).bits(), 0x20);
    assert_eq!(Attributes::from_bits_truncate(0xFFFC_0008).bits(), 0);
    assert_eq!(Attributes::from_bits_truncate(u32::MAX).bits(), 0x0003_FFF7);
    assert_eq!(Reason::from_bits_truncate(0x8).to_string(), "");
}

#[test]
fn contains_asks_for_every_bit() {
    let r = Reason::from_bits_truncate(0x101);
    assert!(r.contains(0x1));
    assert!(r.contains(0x100));
    assert!(r.contains(0x101));
    assert!(r.contains(0));
    assert!(!r.contains(0x2));
    assert!(!r.contains(0x103));
    let a = Attributes::from_bits_truncate(0x30);
    assert!(a.contains(0x10));
    assert!(a.contains(0x30));
    assert!(!a.contains(0x1));
}

#[test]
fn attributes_render_in_declaration_order() {
    assert_eq!(Attributes::from_bits_truncate(0x20 | 0x2 | 0x1).to_string(), "ReadOnly Hidden Archive");
    assert_eq!(
        Attributes::from_bits_truncate(0x2_0000 | 0x800).to_string(),
        "Compressed NoScrubData"
    );
}

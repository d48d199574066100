//! Named-bit sets: change reasons and file attributes.
//!
//! Each set is a 32-bit mask over a fixed table of named bits. Bits outside
//! the table are dropped when a set is made, and a set renders as the names
//! of its bits in the order of the table, joined by single spaces.

use vstd::prelude::*;
use vstd::string::StringExecFns;

verus! {

/// Every bit that names a change reason.
pub const REASON_MASK: u32 = 0x803F_FF77;

/// Every bit that names a file attribute.
pub const ATTRIBUTE_MASK: u32 = 0x0003_FFF7;

/// The change reasons, in declaration order.
pub open spec fn reason_table() -> Seq<(u32, Seq<char>)> {
    seq![
        (0x1u32, "DataOverwrite"@),
        (0x2u32, "DataExtend"@),
        (0x4u32, "DataTruncation"@),
        (0x10u32, "NamedDataOverwrite"@),
        (0x20u32, "NamedDataExtend"@),
        (0x40u32, "NamedDataTruncation"@),
        (0x100u32, "FileCreate"@),
        (0x200u32, "FileDelete"@),
        (0x400u32, "EaChange"@),
        (0x800u32, "SecurityChange"@),
        (0x1000u32, "RenameOldName"@),
        (0x2000u32, "RenameNewName"@),
        (0x4000u32, "IndexableChange"@),
        (0x8000u32, "BasicInfoChange"@),
        (0x1_0000u32, "HardLinkChange"@),
        (0x2_0000u32, "CompressionChange"@),
        (0x4_0000u32, "EncryptionChange"@),
        (0x8_0000u32, "ObjectIdChange"@),
        (0x10_0000u32, "ReparsePointChange"@),
        (0x20_0000u32, "StreamChange"@),
        (0x8000_0000u32, "Close"@),
    ]
}

/// The file attributes, in declaration order.
pub open spec fn attribute_table() -> Seq<(u32, Seq<char>)> {
    seq![
        (0x1u32, "ReadOnly"@),
        (0x2u32, "Hidden"@),
        (0x4u32, "System"@),
        (0x10u32, "Directory"@),
        (0x20u32, "Archive"@),
        (0x40u32, "Device"@),
        (0x80u32, "Normal"@),
        (0x100u32, "Temporary"@),
        (0x200u32, "SparseFile"@),
        (0x400u32, "ReparsePoint"@),
        (0x800u32, "Compressed"@),
        (0x1000u32, "Offline"@),
        (0x2000u32, "NotContentIndexed"@),
        (0x4000u32, "Encrypted"@),
        (0x8000u32, "IntegrityStream"@),
        (0x1_0000u32, "Virtual"@),
        (0x2_0000u32, "NoScrubData"@),
    ]
}

/// The names of the table's bits that are set in `bits`, in table order.
pub open spec fn set_names(bits: u32, table: Seq<(u32, Seq<char>)>) -> Seq<Seq<char>>
    decreases table.len(),
{
    if table.len() == 0 {
        Seq::empty()
    } else if bits & table.last().0 == table.last().0 {
        set_names(bits, table.drop_last()).push(table.last().1)
    } else {
        set_names(bits, table.drop_last())
    }
}

/// The names joined by single spaces.
pub open spec fn join_spaced(names: Seq<Seq<char>>) -> Seq<char>
    decreases names.len(),
{
    if names.len() == 0 {
        Seq::empty()
    } else if names.len() == 1 {
        names[0]
    } else {
        join_spaced(names.drop_last()) + seq![' '] + names.last()
    }
}

/// How a mask renders over a table.
pub open spec fn render(bits: u32, table: Seq<(u32, Seq<char>)>) -> Seq<char> {
    join_spaced(set_names(bits, table))
}

/// The union of the bits of the first `n` rows of a table.
pub open spec fn union_of(table: Seq<(u32, Seq<char>)>, n: nat) -> u32
    decreases n,
{
    if n == 0 {
        0
    } else {
        union_of(table, (n - 1) as nat) | table[n - 1].0
    }
}

/// The two masks hold exactly the bits that their tables name.
pub proof fn lemma_masks_are_the_tables()
    ensures
        reason_table().len() == 21,
        attribute_table().len() == 17,
        union_of(reason_table(), 21) == REASON_MASK,
        union_of(attribute_table(), 17) == ATTRIBUTE_MASK,
{
    reveal_with_fuel(union_of, 22);
    assert(0u32 | 0x1 | 0x2 | 0x4 | 0x10 | 0x20 | 0x40 | 0x100 | 0x200 | 0x400 | 0x800 | 0x1000
        | 0x2000 | 0x4000 | 0x8000 | 0x1_0000 | 0x2_0000 | 0x4_0000 | 0x8_0000 | 0x10_0000
        | 0x20_0000 | 0x8000_0000 == 0x803F_FF77) by (bit_vector);
    assert(0u32 | 0x1 | 0x2 | 0x4 | 0x10 | 0x20 | 0x40 | 0x80 | 0x100 | 0x200 | 0x400 | 0x800
        | 0x1000 | 0x2000 | 0x4000 | 0x8000 | 0x1_0000 | 0x2_0000 == 0x0003_FFF7) by (bit_vector);
}

/// The `i`-th change reason: its bit and its name.
fn reason_entry(i: usize) -> (r: (u32, &'static str))
    requires
        i < 21,
    ensures
        r.0 == reason_table()[i as int].0,
        r.1@ == reason_table()[i as int].1,
{
    match i {
        0 => (0x1, "DataOverwrite"),
        1 => (0x2, "DataExtend"),
        2 => (0x4, "DataTruncation"),
        3 => (0x10, "NamedDataOverwrite"),
        4 => (0x20, "NamedDataExtend"),
        5 => (0x40, "NamedDataTruncation"),
        6 => (0x100, "FileCreate"),
        7 => (0x200, "FileDelete"),
        8 => (0x400, "EaChange"),
        9 => (0x800, "SecurityChange"),
        10 => (0x1000, "RenameOldName"),
        11 => (0x2000, "RenameNewName"),
        12 => (0x4000, "IndexableChange"),
        13 => (0x8000, "BasicInfoChange"),
        14 => (0x1_0000, "HardLinkChange"),
        15 => (0x2_0000, "CompressionChange"),
        16 => (0x4_0000, "EncryptionChange"),
        17 => (0x8_0000, "ObjectIdChange"),
        18 => (0x10_0000, "ReparsePointChange"),
        19 => (0x20_0000, "StreamChange"),
        _ => (0x8000_0000, "Close"),
    }
}

/// The `i`-th file attribute: its bit and its name.
fn attribute_entry(i: usize) -> (r: (u32, &'static str))
    requires
        i < 17,
    ensures
        r.0 == attribute_table()[i as int].0,
        r.1@ == attribute_table()[i as int].1,
{
    match i {
        0 => (0x1, "ReadOnly"),
        1 => (0x2, "Hidden"),
        2 => (0x4, "System"),
        3 => (0x10, "Directory"),
        4 => (0x20, "Archive"),
        5 => (0x40, "Device"),
        6 => (0x80, "Normal"),
        7 => (0x100, "Temporary"),
        8 => (0x200, "SparseFile"),
        9 => (0x400, "ReparsePoint"),
        10 => (0x800, "Compressed"),
        11 => (0x1000, "Offline"),
        12 => (0x2000, "NotContentIndexed"),
        13 => (0x4000, "Encrypted"),
        14 => (0x8000, "IntegrityStream"),
        15 => (0x1_0000, "Virtual"),
        _ => (0x2_0000, "NoScrubData"),
    }
}

/// Renders `bits` over one of the two tables.
fn render_mask(bits: u32, reasons: bool) -> (out: String)
    ensures
        out@ == render(bits, if reasons { reason_table() } else { attribute_table() }),
{
    let ghost table = if reasons { reason_table() } else { attribute_table() };
    let n: usize = if reasons { 21 } else { 17 };
    let mut out = String::new();
    let mut any = false;
    let mut i: usize = 0;
    assert(table.take(0) =~= Seq::empty());
    while i < n
        invariant
            i <= n,
            n == table.len(),
            table == (if reasons { reason_table() } else { attribute_table() }),
            out@ == render(bits, table.take(i as int)),
            any == (set_names(bits, table.take(i as int)).len() > 0),
        decreases n - i,
    {
        let (bit, name) = if reasons { reason_entry(i) } else { attribute_entry(i) };
        proof {
            let next = table.take(i + 1);
            assert(next.drop_last() =~= table.take(i as int));
            assert(next.last() == table[i as int]);
        }
        if bits & bit == bit {
            let ghost before = set_names(bits, table.take(i as int));
            if any {
                out.append(" ");
                proof {
                    reveal_strlit(" ");
                    assert(" "@ =~= seq![' ']);
                }
            }
            out.append(name);
            proof {
                let after = before.push(table[i as int].1);
                assert(after.drop_last() =~= before);
                if !any {
                    assert(out@ =~= after[0]);
                }
            }
            any = true;
        }
        i += 1;
    }
    assert(table.take(n as int) =~= table);
    out
}

/// A set of change reasons.
#[derive(Clone, Copy, Debug, PartialEq, Eq, Structural)]
pub struct Reason {
    bits: u32,
}

impl Reason {
    /// The mask of the set.
    pub closed spec fn mask(self) -> u32 {
        self.bits
    }

    /// The set of the known bits of `bits`; unknown bits are dropped.
    pub fn from_bits_truncate(bits: u32) -> (r: Reason)
        ensures
            r.mask() == bits & REASON_MASK,
    {
        Reason { bits: bits & REASON_MASK }
    }

    /// The mask of the set.
    pub fn bits(&self) -> (b: u32)
        ensures
            b == self.mask(),
    {
        self.bits
    }

    /// Whether every bit of `flag` is in the set.
    pub fn contains(&self, flag: u32) -> (b: bool)
        ensures
            b == (self.mask() & flag == flag),
    {
        self.bits & flag == flag
    }

    /// The names of the set's reasons in declaration order, joined by spaces.
    pub fn to_string(&self) -> (out: String)
        ensures
            out@ == render(self.mask(), reason_table()),
    {
        render_mask(self.bits, true)
    }
}

/// A set of file attributes.
#[derive(Clone, Copy, Debug, PartialEq, Eq, Structural)]
pub struct Attributes {
    bits: u32,
}

impl Attributes {
    /// The mask of the set.
    pub closed spec fn mask(self) -> u32 {
        self.bits
    }

    /// The set of the known bits of `bits`; unknown bits are dropped.
    pub fn from_bits_truncate(bits: u32) -> (r: Attributes)
        ensures
            r.mask() == bits & ATTRIBUTE_MASK,
    {
        Attributes { bits: bits & ATTRIBUTE_MASK }
    }

    /// The mask of the set.
    pub fn bits(&self) -> (b: u32)
        ensures
            b == self.mask(),
    {
        self.bits
    }

    /// Whether every bit of `flag` is in the set.
    pub fn contains(&self, flag: u32) -> (b: bool)
        ensures
            b == (self.mask() & flag == flag),
    {
        self.bits & flag == flag
    }

    /// The names of the set's attributes in declaration order, joined by spaces.
    pub fn to_string(&self) -> (out: String)
        ensures
            out@ == render(self.mask(), attribute_table()),
    {
        render_mask(self.bits, false)
    }
}

} // verus!

//! Resolving a record's short file name to a full path.
//!
//! Slots of the master file table are recycled: by the time a journal is
//! read, the slot that a record names may hold another file. The table's
//! full path is therefore trusted only where the table's current best name
//! for the slot is exactly the name in the record. Everything else falls
//! back to the name in the record. The guard is a heuristic, best effort.
//!
//! The table is parsed by the `mft` crate, which trusts what a slot
//! declares. A slot is handed to it only after its layout has been found
//! sound, and a full path is asked for only where the chain of parents
//! from the slot ends within a fixed number of sound slots.

use vstd::prelude::*;
use std::io::Cursor;
use mft::MftParser;
use crate::entry::{utf16_lossy, Entry};
use crate::error::UsnError;
use crate::table::{copy_range, header_accepted, slot_state, slot_state_of, SlotState};

verus! {

/// The parser of a master file table held in memory.
///
/// It holds an `mft::MftParser` over the table's bytes. The parser is not
/// looked into: its type is bound by the reader traits of `std::io`, which
/// cannot be declared to the verifier, so it is kept behind this struct and
/// reached only through the functions below.
#[verifier::external_body]
pub struct MftIndex {
    parser: MftParser<Cursor<Vec<u8>>>,
}

/// The bytes of the table that a parser was made over.
pub uninterp spec fn table_of(index: MftIndex) -> Seq<u8>;

/// The full path that a parser gives for each slot number, as it stands:
/// the parser remembers paths of parents, and what it remembers enters
/// into later answers.
pub uninterp spec fn paths_of(index: MftIndex) -> Map<u64, Option<Seq<char>>>;

/// What the parser reads from the slot of the given number in a table: the
/// slot's best name, the entry number of that name's parent, and the entry
/// number of the slot's base reference; `None` where the slot does not
/// parse.
pub uninterp spec fn slot_in(table: Seq<u8>, id: u64) -> Option<
    (Option<Seq<char>>, Option<u64>, u64),
>;

/// How many parents are followed from a slot before the chain is given up.
/// The parser follows them by recursion, one frame for each, so that its
/// stack bounds the depth that it can be asked for.
pub const MAX_DEPTH: u32 = 255;

/// What is read from one slot of a table.
pub struct SlotInfo {
    /// The slot's best name: a Win32 name where it has one, else its first.
    pub best_name: Option<String>,
    /// The entry number of the directory that the best name lies in.
    pub parent: Option<u64>,
    /// The entry number of the slot's base record.
    pub base: u64,
}

impl SlotInfo {
    /// The slot's data as plain values.
    pub open spec fn view(&self) -> (Option<Seq<char>>, Option<u64>, u64) {
        (text_of(self.best_name), self.parent, self.base)
    }
}

/// `MftParser::from_buffer`: reads the header of the table's first entry to
/// learn the entry size. Claimed of it and not proved: it succeeds exactly
/// where the buffer starts with four zero bytes, or with one of the two
/// signatures and the 42 bytes of a header; and the parser that it gives
/// holds the bytes that it was given.
#[verifier::external_body]
fn mft_from_buffer(buffer: Vec<u8>) -> (r: Result<MftIndex, mft::err::Error>)
    ensures
        r is Ok <==> header_accepted(buffer@),
        r matches Ok(index) ==> table_of(index) == buffer@,
{
    match MftParser::from_buffer(buffer) {
        Ok(parser) => Ok(MftIndex { parser }),
        Err(e) => Err(e),
    }
}

/// `MftParser::get_entry`, then `MftEntry::find_best_name_attribute` on the
/// slot that it gives; `None` stands for the parser's error.
///
/// Asked of the caller: the slot's layout is sound, so that the update
/// sequence array is applied inside the slot and the walk over the slot's
/// attributes moves on. Claimed and not proved: under that, the parser comes
/// back; what it gives depends on the table's bytes and the slot number
/// alone; and the call changes neither the table nor the paths that the
/// parser remembers.
#[verifier::external_body]
fn mft_slot(index: &mut MftIndex, id: u64) -> (r: Option<SlotInfo>)
    requires
        slot_state(table_of(*old(index)), id) == SlotState::Sound,
    ensures
        table_of(*final(index)) == table_of(*old(index)),
        paths_of(*final(index)) == paths_of(*old(index)),
        match r {
            Some(info) => slot_in(table_of(*old(index)), id) == Some(info@),
            None => slot_in(table_of(*old(index)), id) is None,
        },
    no_unwind
{
    match index.parser.get_entry(id) {
        Ok(slot) => {
            let best = slot.find_best_name_attribute();
            Some(
                SlotInfo {
                    parent: best.as_ref().map(|attr| attr.parent.entry),
                    best_name: best.map(|attr| attr.name),
                    base: slot.header.base_reference.entry,
                },
            )
        },
        Err(_) => None,
    }
}

/// `MftParser::get_entry`, then `MftParser::get_full_path_for_entry` on the
/// slot that it gives, as text; `None` stands for an error of either, for a
/// path that the table does not give, and for one that is not Unicode.
///
/// Asked of the caller: the chain of parents from the slot ends within
/// `MAX_DEPTH` slots, each of them sound or outside the table, so that the
/// parser's recursion over the parents ends. Claimed and not proved: under
/// that, the parser comes back; the path is the one that the parser, as it
/// stood, gives for the slot; and the table is unchanged.
#[verifier::external_body]
fn mft_full_path(index: &mut MftIndex, id: u64) -> (r: Option<String>)
    requires
        chain_sound(table_of(*old(index)), id, MAX_DEPTH as nat),
    ensures
        table_of(*final(index)) == table_of(*old(index)),
        text_of(r) == paths_of(*old(index))[id],
    no_unwind
{
    match index.parser.get_entry(id) {
        Ok(slot) => match index.parser.get_full_path_for_entry(&slot) {
            Ok(Some(path)) => path.into_os_string().into_string().ok(),
            _ => None,
        },
        Err(_) => None,
    }
}

/// The view of an optional string.
pub open spec fn text_of(s: Option<String>) -> Option<Seq<char>> {
    match s {
        Some(t) => Some(t@),
        None => None,
    }
}

/// The slot that the parser visits after slot `id` when it builds a path:
/// the parent of the best name, unless that is the root (5), the slot
/// itself or 0; without a name the base record, unless that is 0.
pub open spec fn next_link(id: u64, parent: Option<u64>, base: u64) -> Option<u64> {
    match parent {
        Some(p) => if p == 5 || p == id || p == 0 {
            None
        } else {
            Some(p)
        },
        None => if base == 0 {
            None
        } else {
            Some(base)
        },
    }
}

/// Whether the chain of parents from slot `id` ends within `fuel` further
/// slots, every slot on it being sound or outside the table.
pub open spec fn chain_sound(t: Seq<u8>, id: u64, fuel: nat) -> bool
    decreases fuel,
{
    match slot_state(t, id) {
        SlotState::Unsound => false,
        SlotState::Absent => true,
        SlotState::Sound => match slot_in(t, id) {
            None => true,
            Some(info) => match next_link(id, info.1, info.2) {
                None => true,
                Some(n) => fuel > 0 && chain_sound(t, n, (fuel - 1) as nat),
            },
        },
    }
}

/// What a lookup of slot `id` gives: what the parser reads from a sound
/// slot, and nothing from any other.
pub open spec fn lookup(t: Seq<u8>, id: u64) -> Option<(Option<Seq<char>>, Option<u64>, u64)> {
    if slot_state(t, id) == SlotState::Sound {
        slot_in(t, id)
    } else {
        None
    }
}

/// Whether the table's best name for a slot is exactly the embedded name.
pub open spec fn names_agree(embedded: Seq<char>, best: Option<Seq<char>>) -> bool {
    best == Some(embedded)
}

/// The name to display: the table's full path where the table's best name
/// is the embedded one and a full path is given, else the embedded name.
pub open spec fn display_name(
    embedded: Seq<char>,
    best: Option<Seq<char>>,
    path: Option<Seq<char>>,
) -> Seq<char> {
    if names_agree(embedded, best) && path is Some {
        path.unwrap()
    } else {
        embedded
    }
}

/// The display name of a record with the given embedded name and slot
/// number, against a table with the given bytes whose parser gives the
/// given paths. A failed lookup keeps the embedded name; so does a best
/// name that is missing or differs; and a path is taken only from a chain
/// of parents that ends.
pub open spec fn resolution(
    t: Seq<u8>,
    paths: Map<u64, Option<Seq<char>>>,
    embedded: Seq<char>,
    id: u64,
) -> Seq<char> {
    match lookup(t, id) {
        None => embedded,
        Some(info) => display_name(
            embedded,
            info.0,
            if chain_sound(t, id, MAX_DEPTH as nat) {
                paths[id]
            } else {
                None
            },
        ),
    }
}

/// Whether the table's best name for a slot may be trusted for a record
/// with the given embedded name.
pub fn trusts(embedded: &String, best: &Option<String>) -> (b: bool)
    ensures
        b == names_agree(embedded@, text_of(*best)),
{
    match best {
        Some(name) => {
            assert(name@ == embedded@ <==> Some(name@) == Some(embedded@));
            *name == *embedded
        },
        None => false,
    }
}

/// Chooses the name to display from what the table said of the slot.
/// Whenever the table's best name differs from the embedded one, or is
/// missing, the embedded name is returned, whatever path is given.
pub fn choose_name(embedded: String, best: Option<String>, path: Option<String>) -> (name: String)
    ensures
        name@ == display_name(embedded@, text_of(best), text_of(path)),
        !names_agree(embedded@, text_of(best)) ==> name@ == embedded@,
{
    if trusts(&embedded, &best) {
        match path {
            Some(full) => full,
            None => embedded,
        }
    } else {
        embedded
    }
}

/// The slot to visit after slot `id`.
fn link_after(id: u64, parent: Option<u64>, base: u64) -> (n: Option<u64>)
    ensures
        n == next_link(id, parent, base),
{
    match parent {
        Some(p) => if p == 5 || p == id || p == 0 {
            None
        } else {
            Some(p)
        },
        None => if base == 0 {
            None
        } else {
            Some(base)
        },
    }
}

/// What is left of a chain: nothing, or a slot with the fuel to reach it.
pub open spec fn rest_sound(t: Seq<u8>, link: Option<u64>, fuel: nat) -> bool {
    match link {
        None => true,
        Some(n) => fuel > 0 && chain_sound(t, n, (fuel - 1) as nat),
    }
}

/// A master file table held in memory: its bytes, and a parser over them.
pub struct MftTable {
    bytes: Vec<u8>,
    index: MftIndex,
}

impl MftTable {
    #[verifier::type_invariant]
    spec fn inv(self) -> bool {
        table_of(self.index) == self.bytes@
    }

    /// The bytes of the table.
    pub closed spec fn bytes(&self) -> Seq<u8> {
        self.bytes@
    }

    /// The full path that the table's parser, as it stands, gives for each
    /// slot number.
    pub closed spec fn paths(&self) -> Map<u64, Option<Seq<char>>> {
        paths_of(self.index)
    }

    /// A table over the bytes of a `$MFT` file. Fails exactly where the
    /// first slot has no header that the parser accepts.
    pub fn from_bytes(bytes: Vec<u8>) -> (r: Result<MftTable, UsnError>)
        ensures
            r is Ok <==> header_accepted(bytes@),
            match r {
                Ok(t) => t.bytes() == bytes@,
                Err(e) => e is Mft,
            },
    {
        let held = copy_range(&bytes, 0, bytes.len());
        assert(held@ =~= bytes@);
        match mft_from_buffer(bytes) {
            Ok(index) => Ok(MftTable { bytes: held, index }),
            Err(e) => Err(UsnError::Mft(e)),
        }
    }

    /// What the table holds at slot `id`.
    pub fn state(&self, id: u64) -> (st: SlotState)
        ensures
            st == slot_state(self.bytes(), id),
    {
        slot_state_of(&self.bytes, id)
    }

    /// Looks up slot `id`: hands a sound slot to the parser, and no other.
    pub fn slot(&mut self, id: u64) -> (r: Option<SlotInfo>)
        ensures
            final(self).bytes() == old(self).bytes(),
            final(self).paths() == old(self).paths(),
            match r {
                Some(info) => lookup(old(self).bytes(), id) == Some(info@),
                None => lookup(old(self).bytes(), id) is None,
            },
    {
        proof {
            use_type_invariant(&*self);
        }
        match slot_state_of(&self.bytes, id) {
            SlotState::Sound => mft_slot(&mut self.index, id),
            _ => None,
        }
    }

    /// Whether the chain of parents from slot `id`, which is sound and
    /// gave `first`, ends within `MAX_DEPTH` slots that are sound or
    /// outside the table.
    fn chain_ends(&mut self, id: u64, first: &SlotInfo) -> (ok: bool)
        requires
            lookup(old(self).bytes(), id) == Some(first@),
        ensures
            final(self).bytes() == old(self).bytes(),
            final(self).paths() == old(self).paths(),
            ok == chain_sound(old(self).bytes(), id, MAX_DEPTH as nat),
    {
        proof {
            use_type_invariant(&*self);
        }
        let ghost t = self.bytes@;
        let mut link = link_after(id, first.parent, first.base);
        let mut fuel: u32 = MAX_DEPTH;
        loop
            invariant
                t == old(self).bytes@,
                self.bytes@ == t,
                table_of(self.index) == t,
                paths_of(self.index) == paths_of(old(self).index),
                chain_sound(t, id, MAX_DEPTH as nat) == rest_sound(t, link, fuel as nat),
            decreases fuel,
        {
            let n = match link {
                None => {
                    return true;
                },
                Some(n) => n,
            };
            if fuel == 0 {
                return false;
            }
            fuel -= 1;
            match slot_state_of(&self.bytes, n) {
                SlotState::Unsound => {
                    return false;
                },
                SlotState::Absent => {
                    return true;
                },
                SlotState::Sound => {},
            }
            match mft_slot(&mut self.index, n) {
                None => {
                    return true;
                },
                Some(info) => {
                    link = link_after(n, info.parent, info.base);
                },
            }
        }
    }

    /// The full path of slot `id`, asked for only where the chain of
    /// parents from it ends.
    fn full_path(&mut self, id: u64, first: &SlotInfo) -> (r: Option<String>)
        requires
            lookup(old(self).bytes(), id) == Some(first@),
        ensures
            final(self).bytes() == old(self).bytes(),
            text_of(r) == if chain_sound(old(self).bytes(), id, MAX_DEPTH as nat) {
                old(self).paths()[id]
            } else {
                None
            },
    {
        if self.chain_ends(id, first) {
            proof {
                use_type_invariant(&*self);
            }
            mft_full_path(&mut self.index, id)
        } else {
            None
        }
    }
}

/// The display name of a record against a table: looks up the record's
/// slot, compares names, and asks for the full path only where they agree.
pub fn resolve_name(table: &mut MftTable, entry: &Entry) -> (name: String)
    ensures
        final(table).bytes() == old(table).bytes(),
        name@ == resolution(
            old(table).bytes(),
            old(table).paths(),
            utf16_lossy(entry@.filename),
            (entry@.file_ref % 0x1_0000_0000_0000) as u64,
        ),
{
    let embedded = entry.filename();
    let id = entry.mft_entry_num();
    match table.slot(id) {
        None => embedded,
        Some(info) => {
            if trusts(&embedded, &info.best_name) {
                let path = table.full_path(id, &info);
                choose_name(embedded, info.best_name, path)
            } else {
                embedded
            }
        },
    }
}

} // verus!

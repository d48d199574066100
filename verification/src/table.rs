//! The layout of a master file table, as far as it decides whether a slot
//! can be handed to a parser that trusts the offsets a slot declares.
//!
//! A table is a run of slots of one size, which the first slot's header
//! gives. A slot that carries the file signature protects the last two
//! bytes of each 512-byte stride by an update sequence array; its
//! attributes follow one another, each declaring its own length, up to an
//! end marker. A slot is sound where the array lies inside the slot and
//! covers no stride beyond it, where no attribute that can be read
//! declares the length 0, and where no file name is stored outside the
//! slot.

use vstd::prelude::*;
use crate::codec::{le_u16, le_u32, read_u16, read_u32};

verus! {

/// What a table holds at a slot number.
#[derive(Clone, Copy, Debug, PartialEq, Eq, Structural)]
pub enum SlotState {
    /// The table ends before the slot does: a lookup fails.
    Absent,
    /// The slot can be parsed.
    Sound,
    /// The slot declares offsets or lengths that lead outside it, or its
    /// byte offset does not fit 64 bits.
    Unsound,
}

/// The bytes "FILE" at the start of a slot.
pub open spec fn is_file(s: Seq<u8>) -> bool {
    s.len() >= 4 && s[0] == 0x46 && s[1] == 0x49 && s[2] == 0x4C && s[3] == 0x45
}

/// The bytes "BAAD" at the start of a slot.
pub open spec fn is_baad(s: Seq<u8>) -> bool {
    s.len() >= 4 && s[0] == 0x42 && s[1] == 0x41 && s[2] == 0x41 && s[3] == 0x44
}

/// Whether a table's first slot has a header that the parser accepts: four
/// zero bytes, or one of the two signatures with the 42 bytes of a header.
pub open spec fn header_accepted(t: Seq<u8>) -> bool {
    ||| t.len() >= 4 && t[0] == 0 && t[1] == 0 && t[2] == 0 && t[3] == 0
    ||| t.len() >= 42 && (is_file(t) || is_baad(t))
}

/// The size of every slot: the allocated size that the first slot's header
/// declares, and 0 where the first slot has no such header.
pub open spec fn entry_size(t: Seq<u8>) -> int {
    if t.len() >= 42 && (is_file(t) || is_baad(t)) {
        le_u32(t, 28)
    } else {
        0
    }
}

/// The attribute type codes that are defined.
pub open spec fn known_type(ty: int) -> bool {
    (0x10 <= ty <= 0xE0 && ty % 0x10 == 0) || ty == 0x100
}

/// The update sequence array of a slot lies inside the slot, and every
/// stride that it covers does too.
pub open spec fn fixups_fit(s: Seq<u8>) -> bool {
    let off = le_u16(s, 4);
    let n = le_u16(s, 6);
    &&& 1 <= n <= 32767
    &&& off + 2 * n <= s.len()
    &&& 512 * (n - 1) <= s.len()
}

/// Whether the byte at `i` is one of the last two of a stride that the
/// array of `n` elements covers.
pub open spec fn is_patched(n: int, i: int) -> bool {
    i % 512 >= 510 && i / 512 < n - 1
}

/// The slot with its update sequence array applied: the last two bytes of
/// each covered stride are those that the array holds for it.
pub open spec fn fixed(s: Seq<u8>) -> Seq<u8> {
    let off = le_u16(s, 4);
    let n = le_u16(s, 6);
    Seq::new(
        s.len(),
        |i: int|
            if is_patched(n, i) {
                s[off + 2 * (i / 512 + 1) + (i % 512 - 510)]
            } else {
                s[i]
            },
    )
}

/// Whether the attribute header at `at`, of which 16 bytes are there, lies
/// inside the slot with all that it announces: the resident form with 8
/// bytes more, the non-resident form with 48 and, where it is compressed,
/// 8 beyond those, and the attribute's own name at its offset.
pub open spec fn header_fits(p: Seq<u8>, at: int) -> bool {
    let form = p[at + 8];
    let name_size = p[at + 9];
    &&& form <= 1
    &&& form == 0 ==> at + 24 <= p.len()
    &&& form == 1 ==> at + 64 <= p.len() && (le_u16(p, at + 34) > 0 ==> at + 72 <= p.len())
    &&& name_size > 0 ==> at + le_u16(p, at + 10) + 2 * name_size <= p.len()
}

/// Walking the attributes from `at`: every attribute header that may be
/// read declares a length above 0, and a file name is resident. The walk
/// ends at the end marker, at a type code that is not defined, at a header
/// that does not fit the slot, and where fewer than the 16 bytes of a
/// header are left.
pub open spec fn walk_sound(p: Seq<u8>, at: int) -> bool
    decreases p.len() - at,
{
    if at < 0 || at + 16 > p.len() {
        true
    } else if !known_type(le_u32(p, at)) {
        true
    } else if !header_fits(p, at) {
        true
    } else if le_u32(p, at + 4) <= 0 {
        false
    } else if le_u32(p, at) == 0x30 && p[at + 8] != 0 {
        false
    } else if at + le_u32(p, at + 4) > p.len() {
        true
    } else {
        walk_sound(p, at + le_u32(p, at + 4))
    }
}

/// Whether a slot can be parsed. A slot without the file signature or the
/// "BAAD" signature, or too short for a header, holds nothing to follow.
pub open spec fn slot_sound(s: Seq<u8>) -> bool {
    if s.len() < 42 || !(is_file(s) || is_baad(s)) {
        true
    } else if is_baad(s) {
        walk_sound(s, le_u16(s, 20))
    } else {
        fixups_fit(s) && walk_sound(fixed(s), le_u16(s, 20))
    }
}

/// What the table holds at slot `id`.
pub open spec fn slot_state(t: Seq<u8>, id: u64) -> SlotState {
    let es = entry_size(t);
    if es == 0 {
        SlotState::Absent
    } else if es > t.len() || id * es > u64::MAX {
        SlotState::Unsound
    } else if id * es + es > t.len() {
        SlotState::Absent
    } else if slot_sound(t.subrange(id * es, id * es + es)) {
        SlotState::Sound
    } else {
        SlotState::Unsound
    }
}

/// The bytes of `data` from `from`, `len` of them.
pub fn copy_range(data: &Vec<u8>, from: usize, len: usize) -> (out: Vec<u8>)
    requires
        from + len <= data.len(),
    ensures
        out@ == data@.subrange(from as int, from + len),
{
    let mut out: Vec<u8> = Vec::new();
    let mut i: usize = 0;
    while i < len
        invariant
            i <= len,
            from + len <= data.len(),
            out@ == data@.subrange(from as int, from + i),
        decreases len - i,
    {
        out.push(data[from + i]);
        assert(out@ =~= data@.subrange(from as int, from + i + 1));
        i += 1;
    }
    out
}

/// Whether the slot starts with "FILE".
fn starts_with_file(s: &Vec<u8>) -> (b: bool)
    ensures
        b == is_file(s@),
{
    s.len() >= 4 && s[0] == 0x46 && s[1] == 0x49 && s[2] == 0x4C && s[3] == 0x45
}

/// Whether the slot starts with "BAAD".
fn starts_with_baad(s: &Vec<u8>) -> (b: bool)
    ensures
        b == is_baad(s@),
{
    s.len() >= 4 && s[0] == 0x42 && s[1] == 0x41 && s[2] == 0x41 && s[3] == 0x44
}

/// The size of every slot of the table.
pub fn table_entry_size(table: &Vec<u8>) -> (es: u32)
    ensures
        es == entry_size(table@),
{
    if table.len() >= 42 && (starts_with_file(table) || starts_with_baad(table)) {
        read_u32(table, 28)
    } else {
        0
    }
}

/// The slot with its update sequence array applied.
fn apply_fixups(raw: &Vec<u8>) -> (post: Vec<u8>)
    requires
        raw@.len() >= 42,
        fixups_fit(raw@),
    ensures
        post@ == fixed(raw@),
{
    let len: usize = raw.len();
    let off: usize = read_u16(raw, 4) as usize;
    let n: usize = read_u16(raw, 6) as usize;
    let mut post = copy_range(raw, 0, len);
    assert(post@ =~= raw@);
    let mut k: usize = 0;
    while k + 1 < n
        invariant
            k + 1 <= n,
            n <= 32767,
            off + 2 * n <= len,
            512 * (n - 1) <= len,
            len == raw@.len(),
            post@.len() == len,
            forall|i: int|
                0 <= i < len ==> post@[i] == if is_patched(k + 1, i) {
                    raw@[off + 2 * (i / 512 + 1) + (i % 512 - 510)]
                } else {
                    raw@[i]
                },
        decreases n - k,
    {
        let lo: u8 = raw[off + 2 * k + 2];
        let hi: u8 = raw[off + 2 * k + 3];
        post.set(512 * k + 510, lo);
        post.set(512 * k + 511, hi);
        k += 1;
    }
    assert(post@ =~= fixed(raw@));
    post
}

/// Whether the attribute type code is defined.
fn is_known_type(ty: u32) -> (b: bool)
    ensures
        b == known_type(ty as int),
{
    (0x10 <= ty && ty <= 0xE0 && ty % 0x10 == 0) || ty == 0x100
}

/// Whether the attribute header at `at` lies inside the slot.
fn header_fits_at(p: &Vec<u8>, at: usize) -> (b: bool)
    requires
        at + 16 <= p.len(),
    ensures
        b == header_fits(p@, at as int),
{
    let left: usize = p.len() - at;
    let form: u8 = p[at + 8];
    let name_size: usize = p[at + 9] as usize;
    let name_at: usize = read_u16(p, at + 10) as usize;
    if form > 1 {
        return false;
    }
    if form == 0 && left < 24 {
        return false;
    }
    if form == 1 {
        if left < 64 {
            return false;
        }
        if read_u16(p, at + 34) > 0 && left < 72 {
            return false;
        }
    }
    !(name_size > 0 && name_at + 2 * name_size > left)
}

/// Walks the attributes of a slot from `start`.
fn walk_attributes(p: &Vec<u8>, start: usize) -> (ok: bool)
    ensures
        ok == walk_sound(p@, start as int),
{
    let len: usize = p.len();
    let mut at: usize = start;
    loop
        invariant
            len == p@.len(),
            walk_sound(p@, at as int) == walk_sound(p@, start as int),
        decreases len - at,
    {
        if at > len || len - at < 16 {
            return true;
        }
        let ty = read_u32(p, at);
        let size = read_u32(p, at + 4);
        if !is_known_type(ty) {
            return true;
        }
        if !header_fits_at(p, at) {
            return true;
        }
        if size == 0 {
            return false;
        }
        if ty == 0x30 && p[at + 8] != 0 {
            return false;
        }
        if size as u64 > (len - at) as u64 {
            return true;
        }
        at = at + size as usize;
    }
}

/// Whether a slot can be parsed.
pub fn check_slot(raw: &Vec<u8>) -> (ok: bool)
    ensures
        ok == slot_sound(raw@),
{
    let file = starts_with_file(raw);
    let baad = starts_with_baad(raw);
    if raw.len() < 42 || !(file || baad) {
        return true;
    }
    let first: usize = read_u16(raw, 20) as usize;
    if baad {
        return walk_attributes(raw, first);
    }
    let off: usize = read_u16(raw, 4) as usize;
    let n: usize = read_u16(raw, 6) as usize;
    if n < 1 || n > 32767 || off + 2 * n > raw.len() || 512 * (n - 1) > raw.len() {
        return false;
    }
    let post = apply_fixups(raw);
    walk_attributes(&post, first)
}

/// What the table holds at slot `id`.
pub fn slot_state_of(table: &Vec<u8>, id: u64) -> (st: SlotState)
    ensures
        st == slot_state(table@, id),
{
    let es: u32 = table_entry_size(table);
    let len: usize = table.len();
    if es == 0 {
        return SlotState::Absent;
    }
    if es as u64 > len as u64 {
        return SlotState::Unsound;
    }
    assert(id * es <= 0xFFFF_FFFF_FFFF_FFFF * 0xFFFF_FFFF) by (nonlinear_arith)
        requires
            0 <= id <= 0xFFFF_FFFF_FFFF_FFFF,
            0 <= es <= 0xFFFF_FFFF,
    ;
    let start: u128 = id as u128 * es as u128;
    if start > u64::MAX as u128 {
        return SlotState::Unsound;
    }
    if start + es as u128 > len as u128 {
        return SlotState::Absent;
    }
    let raw = copy_range(table, start as usize, es as usize);
    if check_slot(&raw) {
        SlotState::Sound
    } else {
        SlotState::Unsound
    }
}

} // verus!

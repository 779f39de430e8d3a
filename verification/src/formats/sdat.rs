//! SDAT — the sound data archive: an allocation table of sequences,
//! banks and sample archives plus the INFO/SYMB metadata that names and
//! cross-references them. This module resolves archive structure only.
//!
//! ```text
//! 0x00 4   magic "SDAT"
//! 0x04 2   byte-order mark 0xFEFF
//! 0x06 2   version (0x0100)
//! 0x08 4   total file size
//! 0x0C 2   header size (0x40)
//! 0x0E 2   block count (4 with a SYMB block, 3 without)
//! 0x10 4+4 symbol block (SYMB) offset + size, or (0, 0)
//! 0x18 4+4 info block (INFO) offset + size
//! 0x20 4+4 allocation block (FAT ) offset + size
//! 0x28 4+4 file image (FILE) offset + size
//! 0x30 0x10 reserved (zero)
//! ```
//!
//! The blocks chain by their own 8-byte headers (`magic`, `u32 size`)
//! from 0x40: own sizes are 4-byte aligned and may exceed the header's
//! pair by up to 3 bytes of padding. The FILE block covers everything to
//! the end.
//!
//! - SYMB: eight sub-lists of label offsets (seq, seqArc, bank, waveArc,
//!   player, group, strmPlayer, strm) tiling back-to-back from block
//!   offset 0x40, then one shared string pool; offsets are relative to the
//!   block, 0 meaning unnamed.
//! - INFO: the same eight sub-lists, each `{u32 count, u32
//!   record_offset[count]}` (0 = absent record), the records in the gap
//!   between one list's offsets and the next list's start. SEQ `{u16 file,
//!   u16 -, u16 bank, u8 vol, u8 channel_prio, u8 player_prio, u8 player,
//!   u16 -}`, SEQARC `{u16 file, u16 -}`, BANK `{u16 file, u16 -, u16
//!   swar[4]}` (0xFFFF = slot unused), SWAR `{u16 file, u16 -}`, PLAYER
//!   `{u8 seq_count, u8 -, u16 channels, u32 heap}`, GROUP `{u32 count,
//!   item[count]}` with each item `{u8 type, u8 flags, u16 -, u32 index}`
//!   (type 0 = SEQ, 1 = BANK, 2 = WAVEARC, 3 = SEQARC), STRMPLAYER (0x18
//!   bytes, checked structurally only) and STRM `{u16 file, u16 -, u8 vol,
//!   u8 pri, u8 player, u8 -[5]}`.
//! - FAT: `{magic, u32 size, u32 count, entry[count]}`, each entry `{u32
//!   offset, u32 size, u32 mem, u32 reserved}` with absolute offsets;
//!   mem/reserved are zero and `(0, 0)` is an empty entry.
//! - FILE: `{magic, u32 size, u32 count, 12 reserved bytes}`, then the
//!   file data from +0x18; `count` equals the FAT count.
//!
//! A named SYMB entry is exactly a present INFO record, and every record
//! that names a file points at a file of its own magic.

use vstd::prelude::*;
use vstd::utf8::*;
use crate::nds::{NdsError, spec_u16le, spec_u32le, u16le, u32le, slice_range, utf8};

verus! {

/// The number of SYMB/INFO sub-lists.
pub const LISTS: usize = 8;

/// A SEQ info record: one sequence and how to play it.
#[derive(Debug, Clone, Copy, PartialEq, Eq)]
pub struct SseqInfo {
    /// The FAT file id of the sequence program.
    pub file_id: u16,
    /// The bank the sequence plays through (0xFFFF: none).
    pub bank: u16,
    /// Playback volume (0..=127).
    pub volume: u8,
    /// Channel priority.
    pub channel_priority: u8,
    /// Player priority.
    pub player_priority: u8,
    /// The player that performs the sequence.
    pub player: u8,
}

/// A SEQARC info record: one sequence archive file.
#[derive(Debug, Clone, Copy, PartialEq, Eq)]
pub struct SeqArcInfo {
    /// The FAT file id of the archive.
    pub file_id: u16,
}

/// A BANK info record: a bank and the sample archives it draws from.
#[derive(Debug, Clone, Copy, PartialEq, Eq)]
pub struct BankInfo {
    /// The FAT file id of the bank.
    pub file_id: u16,
    /// Up to four WAVEARC indices; 0xFFFF = slot unused.
    pub swar: [u16; 4],
}

/// A WAVEARC info record: one sample archive file.
#[derive(Debug, Clone, Copy, PartialEq, Eq)]
pub struct SwarInfo {
    /// The FAT file id of the sample archive.
    pub file_id: u16,
}

/// A PLAYER info record: the hardware allocation of one player.
#[derive(Debug, Clone, Copy, PartialEq, Eq)]
pub struct PlayerInfo {
    /// How many sequences may play simultaneously.
    pub seq_count: u8,
    /// The hardware channels the player may allocate, as a bit flag.
    pub channels: u16,
    /// The player's note-heap size in bytes.
    pub heap_size: u32,
}

/// What a GROUP item loads.
#[derive(Debug, Clone, Copy, PartialEq, Eq)]
pub enum GroupItemKind {
    /// Load a SEQ (type 0).
    Sequence,
    /// Load a BANK (type 1).
    Bank,
    /// Load a WAVEARC (type 2).
    WaveArc,
    /// Load a SEQARC (type 3).
    SeqArc,
}

/// The kind a group item type byte names.
pub open spec fn kind_of(raw: int) -> GroupItemKind {
    if raw == 0 {
        GroupItemKind::Sequence
    } else if raw == 1 {
        GroupItemKind::Bank
    } else if raw == 2 {
        GroupItemKind::WaveArc
    } else {
        GroupItemKind::SeqArc
    }
}

/// One member of a load GROUP.
#[derive(Debug, Clone, Copy, PartialEq, Eq)]
pub struct GroupItem {
    /// What to load.
    pub kind: GroupItemKind,
    /// The flag argument of the load call.
    pub flags: u8,
    /// The index of the entry to load, in the sub-list named by `kind`.
    pub index: u32,
}

/// A STRM info record: one streamed file.
#[derive(Debug, Clone, Copy, PartialEq, Eq)]
pub struct StrmInfo {
    /// The FAT file id of the stream.
    pub file_id: u16,
    /// Playback volume.
    pub volume: u8,
    /// Playback priority.
    pub priority: u8,
    /// The player that performs the stream.
    pub player: u8,
}

/// Whether `data` begins with an SDAT header.
pub fn is_sdat(data: &[u8]) -> (res: bool)
    ensures
        res == (data@.len() >= 6 && data@[0] == 0x53 && data@[1] == 0x44 && data@[2] == 0x41 && data@[3]
            == 0x54 && data@[4] == 0xFF && data@[5] == 0xFE),
{
    data.len() >= 6 && data[0] == 0x53 && data[1] == 0x44 && data[2] == 0x41 && data[3] == 0x54 && data[4]
        == 0xFF && data[5] == 0xFE
}

/// The `u32` at `off` as an integer.
pub open spec fn w32(s: Seq<u8>, off: int) -> int {
    spec_u32le(s, off) as int
}

/// The `u16` at `off` as an integer.
pub open spec fn w16(s: Seq<u8>, off: int) -> int {
    spec_u16le(s, off) as int
}

/// Whether the bytes `from..to` of `s` are all zero.
pub open spec fn zero_run(s: Seq<u8>, from: int, to: int) -> bool {
    forall|k: int| from <= k < to ==> #[trigger] s[k] == 0
}

/// Whether `s` holds the four bytes `m0 m1 m2 m3` at `off`.
pub open spec fn magic4(s: Seq<u8>, off: int, m: (u8, u8, u8, u8)) -> bool {
    0 <= off && off + 4 <= s.len() && s[off] == m.0 && s[off + 1] == m.1 && s[off + 2] == m.2 && s[off
        + 3] == m.3
}

/// Whether the archive has a SYMB block (its header pair is not
/// `(0, 0)`).
pub open spec fn has_symb(s: Seq<u8>) -> bool {
    !(w32(s, 0x10) == 0 && w32(s, 0x14) == 0)
}

/// Whether the fixed header is well formed.
pub open spec fn sdat_head_ok(s: Seq<u8>) -> bool {
    &&& s.len() >= 0x40
    &&& magic4(s, 0, (0x53, 0x44, 0x41, 0x54))
    &&& w16(s, 4) == 0xFEFF
    &&& w16(s, 6) == 0x0100
    &&& w32(s, 8) == s.len()
    &&& w16(s, 0x0C) == 0x40
    &&& zero_run(s, 0x30, 0x40)
    &&& w16(s, 0x0E) == if has_symb(s) {
        4int
    } else {
        3
    }
}

/// Whether the block at `off` has magic `m`, a 4-byte-aligned own size
/// no smaller than `pair_size` and at most 3 bytes larger, and lies
/// inside the archive.
pub open spec fn block_ok(s: Seq<u8>, off: int, pair_size: int, m: (u8, u8, u8, u8)) -> bool {
    &&& magic4(s, off, m)
    &&& off + 8 <= s.len()
    &&& w32(s, off + 4) % 4 == 0
    &&& pair_size <= w32(s, off + 4) <= pair_size + 3
    &&& off + w32(s, off + 4) <= s.len()
}

/// The SYMB block offset (0x40 when present).
pub open spec fn symb_off(s: Seq<u8>) -> int {
    0x40
}

/// The INFO block offset.
pub open spec fn info_off(s: Seq<u8>) -> int {
    if has_symb(s) {
        0x40 + w32(s, 0x44)
    } else {
        0x40
    }
}

/// The FAT block offset.
pub open spec fn fat_off(s: Seq<u8>) -> int {
    info_off(s) + w32(s, info_off(s) + 4)
}

/// The FILE block offset.
pub open spec fn file_off(s: Seq<u8>) -> int {
    fat_off(s) + w32(s, fat_off(s) + 4)
}

/// Where the file data starts.
pub open spec fn file_body(s: Seq<u8>) -> int {
    file_off(s) + 0x18
}

/// Whether the four blocks chain from 0x40 and the file image covers the
/// rest of the archive.
pub open spec fn sdat_blocks_ok(s: Seq<u8>) -> bool {
    &&& has_symb(s) ==> block_ok(s, 0x40, w32(s, 0x14), (0x53, 0x59, 0x4D, 0x42))
    &&& block_ok(s, info_off(s), w32(s, 0x1C), (0x49, 0x4E, 0x46, 0x4F))
    &&& block_ok(s, fat_off(s), w32(s, 0x24), (0x46, 0x41, 0x54, 0x20))
    &&& block_ok(s, file_off(s), w32(s, 0x2C), (0x46, 0x49, 0x4C, 0x45))
    &&& w32(s, 0x2C) == w32(s, file_off(s) + 4)
    &&& file_off(s) + w32(s, file_off(s) + 4) == s.len()
    &&& file_off(s) + 0x18 <= s.len()
    &&& zero_run(s, file_off(s) + 0xC, file_off(s) + 0x18)
}

/// The FAT file count.
pub open spec fn fat_count(s: Seq<u8>) -> int {
    w32(s, fat_off(s) + 8)
}

/// FAT entry `i`: offset and size.
pub open spec fn fat_entry(s: Seq<u8>, i: int) -> (int, int) {
    let o = fat_off(s) + 12 + 16 * i;
    (w32(s, o), w32(s, o + 4))
}

/// The end of the last non-empty FAT entry before `i` (the file data
/// start when none).
pub open spec fn fat_prev_end(s: Seq<u8>, i: int) -> int
    decreases i,
{
    if i <= 0 {
        file_body(s)
    } else if fat_entry(s, i - 1) == (0int, 0int) {
        fat_prev_end(s, i - 1)
    } else {
        fat_entry(s, i - 1).0 + fat_entry(s, i - 1).1
    }
}

/// Whether FAT entry `i` is well formed: zero mem/reserved words, and
/// empty or a 4-byte-aligned span inside the file image after the
/// previous one.
pub open spec fn fat_entry_ok(s: Seq<u8>, i: int) -> bool {
    let o = fat_off(s) + 12 + 16 * i;
    let (off, size) = fat_entry(s, i);
    &&& w32(s, o + 8) == 0
    &&& w32(s, o + 12) == 0
    &&& (off, size) == (0int, 0int) || (off % 4 == 0 && off >= file_body(s) && off + size <= s.len() && off
        >= fat_prev_end(s, i))
}

/// Whether the allocation table is well formed.
pub open spec fn sdat_fat_ok(s: Seq<u8>) -> bool {
    &&& w32(s, fat_off(s) + 4) >= 12
    &&& w32(s, fat_off(s) + 4) == 12 + 16 * fat_count(s)
    &&& w32(s, file_off(s) + 8) == fat_count(s)
    &&& forall|i: int| 0 <= i < fat_count(s) ==> #[trigger] fat_entry_ok(s, i)
}

/// Checks the fixed header.
fn check_sdat_head(data: &[u8]) -> (res: Result<(), NdsError>)
    ensures
        res is Ok <==> sdat_head_ok(data@),
{
    if data.len() < 0x40 {
        return Err(NdsError::Truncated { what: "SDAT header", need: 0x40, got: data.len() });
    }
    if !(data[0] == 0x53 && data[1] == 0x44 && data[2] == 0x41 && data[3] == 0x54) {
        return Err(NdsError::Invalid { what: "not an SDAT archive" });
    }
    if u16le(data, 0x04)? != 0xFEFF {
        return Err(NdsError::Invalid { what: "SDAT byte-order mark" });
    }
    if u16le(data, 0x06)? != 0x0100 {
        return Err(NdsError::Invalid { what: "SDAT version (only 0x0100 is supported)" });
    }
    if u32le(data, 0x08)? as u64 != data.len() as u64 {
        return Err(NdsError::Invalid { what: "SDAT file size does not match its data" });
    }
    if u16le(data, 0x0C)? != 0x40 {
        return Err(NdsError::Invalid { what: "SDAT header size" });
    }
    let block_count = u16le(data, 0x0E)?;
    if !zeros_at(data, 0x30, 0x40) {
        return Err(NdsError::Invalid { what: "SDAT header padding" });
    }
    let has_symbols = !(u32le(data, 0x10)? == 0 && u32le(data, 0x14)? == 0);
    if block_count != if has_symbols {
        4
    } else {
        3
    } {
        return Err(NdsError::Invalid { what: "SDAT block count disagrees with the symbol block" });
    }
    Ok(())
}

/// Reads the header and walks the blocks; returns the INFO, FAT and
/// FILE offsets.
fn read_sdat_head(data: &[u8]) -> (res: Result<(usize, usize, usize), NdsError>)
    ensures
        res is Ok <==> sdat_head_ok(data@) && sdat_blocks_ok(data@),
        res matches Ok(r) ==> r.0 == info_off(data@) && r.1 == fat_off(data@) && r.2 == file_off(data@),
{
    check_sdat_head(data)?;
    let ghost s = data@;
    let symb_size = u32le(data, 0x14)? as u64;
    let has_symbols = !(u32le(data, 0x10)? == 0 && symb_size == 0);
    let mut off: u64 = 0x40;
    if has_symbols {
        let own = block_header(data, off, symb_size, 0x53, 0x59, 0x4D, 0x42)?;
        off = off + own;
    }
    assert(off == info_off(s));
    let info = off;
    let own = block_header(data, off, u32le(data, 0x1C)? as u64, 0x49, 0x4E, 0x46, 0x4F)?;
    off = off + own;
    let fat = off;
    let own = block_header(data, off, u32le(data, 0x24)? as u64, 0x46, 0x41, 0x54, 0x20)?;
    off = off + own;
    let file = off;
    let file_pair = u32le(data, 0x2C)? as u64;
    let own = block_header(data, off, file_pair, 0x46, 0x49, 0x4C, 0x45)?;
    if file_pair != own || file + own != data.len() as u64 {
        return Err(NdsError::Invalid { what: "SDAT file image does not cover the archive" });
    }
    if own < 0x18 {
        return Err(NdsError::Invalid { what: "SDAT FILE header padding" });
    }
    if !zeros_at(data, file as usize + 0xC, file as usize + 0x18) {
        return Err(NdsError::Invalid { what: "SDAT FILE header padding" });
    }
    Ok((info as usize, fat as usize, file as usize))
}

/// `x` as a `usize`, saturating.
fn sat_usize(x: u64) -> (res: usize)
    ensures
        x <= usize::MAX ==> res == x,
{
    if x > usize::MAX as u64 {
        usize::MAX
    } else {
        x as usize
    }
}

/// Whether the bytes `from..to` of `data` are all zero.
fn zeros_at(data: &[u8], from: usize, to: usize) -> (res: bool)
    requires
        from <= to <= data.len(),
    ensures
        res == zero_run(data@, from as int, to as int),
{
    let mut k: usize = from;
    while k < to
        invariant
            from <= k <= to <= data.len(),
            zero_run(data@, from as int, k as int),
        decreases to - k,
    {
        if data[k] != 0 {
            return false;
        }
        k = k + 1;
    }
    true
}

/// Checks the block header at `off` against its header pair's size;
/// returns its own size.
fn block_header(data: &[u8], off: u64, pair_size: u64, m0: u8, m1: u8, m2: u8, m3: u8) -> (res: Result<
    u64,
    NdsError,
>)
    requires
        off <= u32::MAX * 4,
        pair_size <= u32::MAX,
    ensures
        res is Ok <==> block_ok(data@, off as int, pair_size as int, (m0, m1, m2, m3)),
        res matches Ok(own) ==> own == w32(data@, off + 4),
{
    if off > data.len() as u64 || data.len() as u64 - off < 8 {
        return Err(NdsError::Invalid { what: "SDAT block magic or order" });
    }
    let o = off as usize;
    if !(data[o] == m0 && data[o + 1] == m1 && data[o + 2] == m2 && data[o + 3] == m3) {
        return Err(NdsError::Invalid { what: "SDAT block magic or order" });
    }
    let own = u32le(data, o + 4)? as u64;
    if own % 4 != 0 {
        return Err(NdsError::Invalid { what: "SDAT block size is not 4-byte aligned" });
    }
    if own < pair_size || own > pair_size + 3 {
        return Err(NdsError::Invalid { what: "SDAT block size disagrees with its header pair" });
    }
    if own > data.len() as u64 - off {
        return Err(NdsError::Invalid { what: "SDAT block overruns the archive" });
    }
    Ok(own)
}

/// Reads the allocation table.
fn read_fat(data: &[u8], fat: usize, file: usize) -> (res: Result<Vec<(u32, u32)>, NdsError>)
    requires
        sdat_head_ok(data@),
        sdat_blocks_ok(data@),
        fat == fat_off(data@),
        file == file_off(data@),
    ensures
        res is Ok <==> sdat_fat_ok(data@),
        res matches Ok(v) ==> v@.len() == fat_count(data@) && forall|i: int|
            0 <= i < v@.len() ==> (#[trigger] v@[i]).0 == fat_entry(data@, i).0 && v@[i].1 == fat_entry(
                data@,
                i,
            ).1,
{
    let ghost s = data@;
    let fat_own = u32le(data, fat + 4)? as u64;
    if fat_own < 12 {
        return Err(NdsError::Truncated { what: "SDAT FAT block", need: 12, got: fat_own as usize });
    }
    let count = u32le(data, fat + 8)? as u64;
    if fat_own != 12 + count * 16 {
        return Err(NdsError::Invalid { what: "SDAT FAT block size disagrees with the file count" });
    }
    if u32le(data, file + 8)? as u64 != count {
        return Err(NdsError::Invalid { what: "SDAT FILE count disagrees with the FAT count" });
    }
    let body: u64 = file as u64 + 0x18;
    let mut files: Vec<(u32, u32)> = Vec::new();
    let mut prev_end: u64 = body;
    let mut i: u64 = 0;
    while i < count
        invariant
            s == data@,
            sdat_head_ok(s),
            sdat_blocks_ok(s),
            fat == fat_off(s),
            file == file_off(s),
            body == file_body(s),
            count == fat_count(s),
            w32(s, fat_off(s) + 4) == 12 + 16 * count,
            i <= count,
            prev_end == fat_prev_end(s, i as int),
            files@.len() == i,
            forall|k: int| 0 <= k < i ==> #[trigger] fat_entry_ok(s, k),
            forall|k: int|
                0 <= k < i ==> (#[trigger] files@[k]).0 == fat_entry(s, k).0 && files@[k].1 == fat_entry(
                    s,
                    k,
                ).1,
        decreases count - i,
    {
        let o = fat + 12 + 16 * i as usize;
        let offset = u32le(data, o)?;
        let size = u32le(data, o + 4)?;
        if u32le(data, o + 8)? != 0 || u32le(data, o + 12)? != 0 {
            assert(!fat_entry_ok(s, i as int));
            return Err(NdsError::Invalid { what: "SDAT FAT entry has a nonzero mem/reserved field" });
        }
        if offset == 0 && size == 0 {
            files.push((0, 0));
        } else {
            if offset % 4 != 0 || (offset as u64) < body || offset as u64 + size as u64 > data.len() as u64 {
                assert(!fat_entry_ok(s, i as int));
                return Err(NdsError::Invalid { what: "SDAT FAT entry lies outside the file image" });
            }
            if (offset as u64) < prev_end {
                assert(!fat_entry_ok(s, i as int));
                return Err(NdsError::Invalid { what: "SDAT FAT entries are not in ascending order" });
            }
            prev_end = offset as u64 + size as u64;
            files.push((offset, size));
        }
        assert(fat_entry_ok(s, i as int));
        i = i + 1;
    }
    Ok(files)
}

/// The first zero byte of `s` in `k..end` (`end` when none).
pub open spec fn first_zero(s: Seq<u8>, k: int, end: int) -> int
    decreases end - k,
{
    if k >= end {
        end
    } else if s[k] == 0 {
        k
    } else {
        first_zero(s, k + 1, end)
    }
}

/// The SYMB block's own size.
pub open spec fn symb_own(s: Seq<u8>) -> int {
    w32(s, 0x44)
}

/// SYMB sub-list `i`'s block-relative offset.
pub open spec fn sym_rel(s: Seq<u8>, i: int) -> int {
    w32(s, 0x40 + 8 + 4 * i)
}

/// SYMB sub-list `i`'s entry count.
pub open spec fn sym_count(s: Seq<u8>, i: int) -> int {
    w32(s, 0x40 + sym_rel(s, i))
}

/// Label offset `j` of SYMB sub-list `i` (block-relative; 0: unnamed).
pub open spec fn sym_value(s: Seq<u8>, i: int, j: int) -> int {
    w32(s, 0x40 + sym_rel(s, i) + 4 + 4 * j)
}

/// Where SYMB sub-list `i` must start: right after sub-list `i - 1`
/// (0x40 for the first).
pub open spec fn sym_tile(s: Seq<u8>, i: int) -> int {
    if i <= 0 {
        0x40
    } else {
        sym_rel(s, i - 1) + 4 + 4 * sym_count(s, i - 1)
    }
}

/// The label bytes at block-relative offset `v`: up to its NUL.
pub open spec fn label_bytes(s: Seq<u8>, v: int) -> Seq<u8> {
    s.subrange(0x40 + v, first_zero(s, 0x40 + v, 0x40 + symb_own(s)))
}

/// Whether the label at block-relative offset `v` reads: inside the
/// block, NUL-terminated there, non-empty printable ASCII.
pub open spec fn label_ok(s: Seq<u8>, v: int) -> bool {
    let nul = first_zero(s, 0x40 + v, 0x40 + symb_own(s));
    v == 0 || {
        &&& v < symb_own(s)
        &&& nul < 0x40 + symb_own(s)
        &&& nul > 0x40 + v
        &&& forall|k: int| 0x40 + v <= k < nul ==> 32 <= #[trigger] s[k] < 127
        &&& valid_utf8(label_bytes(s, v))
    }
}

/// The label of entry `j` of SYMB sub-list `i`.
pub open spec fn sym_name(s: Seq<u8>, i: int, j: int) -> Option<Seq<char>> {
    let v = sym_value(s, i, j);
    if v == 0 {
        None
    } else {
        Some(decode_utf8(label_bytes(s, v)))
    }
}

/// Whether SYMB sub-list `i` is well formed: tiled after the previous
/// one, inside the block, every label reading (and the seqArc list
/// empty).
pub open spec fn sym_list_ok(s: Seq<u8>, i: int) -> bool {
    &&& sym_rel(s, i) != 0
    &&& sym_rel(s, i) == sym_tile(s, i)
    &&& i == 1 ==> sym_count(s, i) == 0
    &&& sym_rel(s, i) + 4 + 4 * sym_count(s, i) <= symb_own(s)
    &&& forall|j: int| 0 <= j < sym_count(s, i) ==> #[trigger] label_ok(s, sym_value(s, i, j))
}

/// Whether the SYMB block is well formed.
pub open spec fn symb_ok(s: Seq<u8>) -> bool {
    &&& 0x80 <= s.len()
    &&& zero_run(s, 0x68, 0x80)
    &&& forall|i: int| 0 <= i < 8 ==> #[trigger] sym_list_ok(s, i)
}

/// Reads the label at block-relative offset `v`.
fn read_label<'a>(data: &'a [u8], own: usize, v: usize) -> (res: Result<&'a str, NdsError>)
    requires
        own == symb_own(data@),
        0x40 + own <= data.len(),
        v != 0,
    ensures
        res is Ok <==> label_ok(data@, v as int),
        res matches Ok(n) ==> n@ == decode_utf8(label_bytes(data@, v as int)),
{
    let ghost s = data@;
    if v >= own {
        return Err(NdsError::Invalid { what: "SDAT symbol lies outside the SYMB block" });
    }
    let start = 0x40 + v;
    let end = 0x40 + own;
    let mut k = start;
    while k < end && data[k] != 0
        invariant
            start <= k <= end <= data.len(),
            first_zero(s, start as int, end as int) == first_zero(s, k as int, end as int),
            s == data@,
            forall|x: int| start <= x < k ==> s[x] != 0,
        decreases end - k,
    {
        k = k + 1;
    }
    if k == end {
        return Err(NdsError::Invalid { what: "SDAT symbol is not NUL-terminated" });
    }
    assert(s[k as int] == 0);
    assert(first_zero(s, k as int, end as int) == k);
    if k == start {
        return Err(NdsError::Invalid { what: "SDAT symbol is not printable ASCII" });
    }
    let mut x = start;
    while x < k
        invariant
            start <= x <= k < end <= data.len(),
            s == data@,
            start == 0x40 + v,
            end == 0x40 + own,
            own == symb_own(s),
            v != 0,
            first_zero(s, start as int, end as int) == k,
            forall|y: int| start <= y < x ==> 32 <= #[trigger] s[y] < 127,
        decreases k - x,
    {
        if data[x] < 32 || data[x] >= 127 {
            return Err(NdsError::Invalid { what: "SDAT symbol is not printable ASCII" });
        }
        x = x + 1;
    }
    match utf8(slice_range(data, start, k)) {
        Some(n) => Ok(n),
        None => Err(NdsError::Invalid { what: "SDAT symbol is not ASCII" }),
    }
}

/// Whether `names` are the labels of SYMB sub-list `i`.
pub open spec fn labels_are(names: Seq<Option<&str>>, s: Seq<u8>, i: int) -> bool {
    &&& names.len() == sym_count(s, i)
    &&& forall|j: int|
        0 <= j < names.len() ==> (match #[trigger] names[j] {
            Some(n) => sym_name(s, i, j) == Some(n@),
            None => sym_name(s, i, j) is None,
        })
}

/// Reads the labels of SYMB sub-list `i`.
fn read_label_list<'a>(data: &'a [u8], own: usize, i: usize, rel: u64, count: u64) -> (res: Result<
    Vec<Option<&'a str>>,
    NdsError,
>)
    requires
        own == symb_own(data@),
        0x40 + own <= data.len(),
        rel == sym_rel(data@, i as int),
        count == sym_count(data@, i as int),
        rel + 4 + 4 * count <= own,
    ensures
        res is Ok <==> forall|j: int| 0 <= j < count ==> #[trigger] label_ok(data@, sym_value(data@, i as int, j)),
        res matches Ok(v) ==> labels_are(v@, data@, i as int),
{
    let ghost s = data@;
    let list = 0x40 + rel as usize;
    let mut labels: Vec<Option<&'a str>> = Vec::new();
    let mut j: u64 = 0;
    while j < count
        invariant
            s == data@,
            own == symb_own(s),
            0x40 + own <= data.len(),
            rel == sym_rel(s, i as int),
            list == 0x40 + rel,
            count == sym_count(s, i as int),
            rel + 4 + 4 * count <= own,
            j <= count,
            labels@.len() == j,
            forall|k: int| 0 <= k < j ==> #[trigger] label_ok(s, sym_value(s, i as int, k)),
            forall|k: int|
                0 <= k < j ==> (match #[trigger] labels@[k] {
                    Some(n) => sym_name(s, i as int, k) == Some(n@),
                    None => sym_name(s, i as int, k) is None,
                }),
        decreases count - j,
    {
        let value = u32le(data, list + 4 + 4 * j as usize)? as usize;
        assert(value == sym_value(s, i as int, j as int));
        if value == 0 {
            labels.push(None);
        } else {
            match read_label(data, own, value) {
                Ok(n) => labels.push(Some(n)),
                Err(e) => {
                    assert(!label_ok(s, sym_value(s, i as int, j as int)));
                    return Err(e);
                },
            }
        }
        j = j + 1;
    }
    assert(labels_are(labels@, s, i as int));
    Ok(labels)
}

/// Reads SYMB sub-list `i`, which must start at `cur`; returns its
/// labels and where the next sub-list must start.
fn read_sym_list<'a>(data: &'a [u8], own: usize, i: usize, rel: u64, cur: u64) -> (res: Result<
    (Vec<Option<&'a str>>, u64),
    NdsError,
>)
    requires
        i < 8,
        own == symb_own(data@),
        0x40 + own <= data.len(),
        rel == sym_rel(data@, i as int),
        rel != 0,
        cur == sym_tile(data@, i as int),
    ensures
        res is Ok <==> sym_list_ok(data@, i as int),
        res matches Ok(r) ==> labels_are(r.0@, data@, i as int) && r.1 == sym_tile(data@, i + 1) && r.1
            <= u32::MAX,
{
    let ghost s = data@;
    if rel != cur {
        return Err(NdsError::Invalid { what: "SDAT SYMB sub-lists do not tile back-to-back" });
    }
    let list: u64 = 0x40 + rel;
    if list > data.len() as u64 || data.len() as u64 - list < 4 {
        return Err(NdsError::Truncated { what: "u32 field", need: sat_usize(list + 4), got: data.len() });
    }
    let count = u32le(data, list as usize)? as u64;
    if i == 1 && count > 0 {
        return Err(NdsError::Invalid { what: "SSAR folder symbol lists are not supported" });
    }
    if rel + 4 + 4 * count > own as u64 {
        return Err(NdsError::Truncated {
            what: "SDAT SYMB sub-list",
            need: sat_usize(0x40 + rel + 4 + 4 * count),
            got: 0x40 + own,
        });
    }
    let labels = read_label_list(data, own, i, rel, count)?;
    Ok((labels, rel + 4 + 4 * count))
}

/// Reads the SYMB block's eight label lists.
fn read_symbols<'a>(data: &'a [u8]) -> (res: Result<Vec<Vec<Option<&'a str>>>, NdsError>)
    requires
        sdat_head_ok(data@),
        sdat_blocks_ok(data@),
        has_symb(data@),
    ensures
        res is Ok <==> symb_ok(data@),
        res matches Ok(v) ==> v@.len() == 8 && forall|i: int| 0 <= i < 8 ==> #[trigger] labels_are(v@[i]@, data@, i),
{
    let ghost s = data@;
    let own = u32le(data, 0x44)? as usize;
    if data.len() < 0x80 || !zeros_at(data, 0x68, 0x80) {
        return Err(NdsError::Invalid { what: "SDAT SYMB header padding" });
    }
    let mut rels: Vec<u32> = Vec::new();
    let mut i: usize = 0;
    while i < 8
        invariant
            s == data@,
            0x80 <= s.len(),
            i <= 8,
            rels@.len() == i,
            forall|k: int| 0 <= k < i ==> #[trigger] rels@[k] == sym_rel(s, k),
        decreases 8 - i,
    {
        rels.push(u32le(data, 0x48 + 4 * i)?);
        i = i + 1;
    }
    let mut i: usize = 0;
    while i < 8
        invariant
            s == data@,
            rels@.len() == 8,
            forall|k: int| 0 <= k < 8 ==> #[trigger] rels@[k] == sym_rel(s, k),
            i <= 8,
            forall|k: int| 0 <= k < i ==> rels@[k] != 0,
        decreases 8 - i,
    {
        if rels[i] == 0 {
            assert(!sym_list_ok(s, i as int));
            return Err(NdsError::Invalid { what: "SDAT SYMB sub-list is absent" });
        }
        i = i + 1;
    }
    assert(0x40 + own <= data.len());
    let mut names: Vec<Vec<Option<&'a str>>> = Vec::new();
    let mut cur: u64 = 0x40;
    let mut i: usize = 0;
    while i < 8
        invariant
            s == data@,
            0x80 <= s.len(),
            own == symb_own(s),
            0x40 + own <= data.len(),
            rels@.len() == 8,
            forall|k: int| 0 <= k < 8 ==> #[trigger] rels@[k] == sym_rel(s, k),
            forall|k: int| 0 <= k < 8 ==> rels@[k] != 0,
            i <= 8,
            cur == sym_tile(s, i as int),
            cur <= u32::MAX,
            names@.len() == i,
            forall|k: int| 0 <= k < i ==> #[trigger] sym_list_ok(s, k),
            forall|k: int| 0 <= k < i ==> #[trigger] labels_are(names@[k]@, s, k),
        decreases 8 - i,
    {
        let (labels, next) = read_sym_list(data, own, i, rels[i] as u64, cur)?;
        names.push(labels);
        cur = next;
        i = i + 1;
    }
    Ok(names)
}

/// The INFO block's own size.
pub open spec fn info_own(s: Seq<u8>) -> int {
    w32(s, info_off(s) + 4)
}

/// INFO sub-list `i`'s block-relative offset.
pub open spec fn info_rel(s: Seq<u8>, i: int) -> int {
    w32(s, info_off(s) + 8 + 4 * i)
}

/// INFO sub-list `i`'s entry count.
pub open spec fn info_count(s: Seq<u8>, i: int) -> int {
    w32(s, info_off(s) + info_rel(s, i))
}

/// Record offset `j` of INFO sub-list `i` (block-relative; 0: absent).
pub open spec fn info_o(s: Seq<u8>, i: int, j: int) -> int {
    w32(s, info_off(s) + info_rel(s, i) + 4 + 4 * j)
}

/// The last present record offset of INFO sub-list `i` before entry `j`
/// (0 when none).
pub open spec fn info_prev(s: Seq<u8>, i: int, j: int) -> int
    decreases j,
{
    if j <= 0 {
        0
    } else if info_o(s, i, j - 1) != 0 {
        info_o(s, i, j - 1)
    } else {
        info_prev(s, i, j - 1)
    }
}

/// Whether INFO sub-list `i` reads: its count and offsets inside the
/// block, present offsets strictly ascending.
pub open spec fn info_list_ok(s: Seq<u8>, i: int) -> bool {
    let list = info_off(s) + info_rel(s, i);
    &&& list + 4 <= info_off(s) + info_own(s)
    &&& list + 4 + 4 * info_count(s, i) <= info_off(s) + info_own(s)
    &&& forall|j: int|
        0 <= j < info_count(s, i) ==> #[trigger] info_o(s, i, j) != 0 ==> info_o(s, i, j) > info_prev(s, i, j)
}

/// Whether the INFO block's sub-list table is well formed: zero padding,
/// the first list at 0x40, the lists in strictly ascending order, each
/// reading.
pub open spec fn info_ok(s: Seq<u8>) -> bool {
    &&& info_off(s) + 0x40 <= s.len()
    &&& zero_run(s, info_off(s) + 0x28, info_off(s) + 0x40)
    &&& forall|i: int| 0 <= i < 8 ==> #[trigger] info_rel(s, i) != 0
    &&& info_rel(s, 0) == 0x40
    &&& forall|i: int| 0 <= i < 7 ==> #[trigger] info_rel(s, i) < info_rel(s, i + 1)
    &&& forall|i: int| 0 <= i < 8 ==> #[trigger] info_list_ok(s, i)
}

/// Whether `offsets` are the record offsets of INFO sub-list `i`.
pub open spec fn offsets_are(offsets: Seq<u32>, s: Seq<u8>, i: int) -> bool {
    &&& offsets.len() == info_count(s, i)
    &&& forall|j: int| 0 <= j < offsets.len() ==> #[trigger] offsets[j] == info_o(s, i, j)
}

/// Reads the record offsets of INFO sub-list `i` at block-relative `rel`.
fn read_info_list(data: &[u8], info: usize, own: usize, i: usize, rel: u64) -> (res: Result<Vec<u32>, NdsError>)
    requires
        info == info_off(data@),
        own == info_own(data@),
        info + own <= data.len(),
        rel == info_rel(data@, i as int),
    ensures
        res is Ok <==> info_list_ok(data@, i as int),
        res matches Ok(v) ==> offsets_are(v@, data@, i as int),
{
    let ghost s = data@;
    let list: u64 = info as u64 + rel;
    if list + 4 > (info + own) as u64 {
        return Err(NdsError::Truncated { what: "SDAT INFO sub-list", need: sat_usize(list + 4), got: info + own });
    }
    let count = u32le(data, list as usize)? as u64;
    if list + 4 + 4 * count > (info + own) as u64 {
        return Err(NdsError::Truncated {
            what: "SDAT INFO offsets array",
            need: sat_usize(list + 4 + 4 * count),
            got: info + own,
        });
    }
    let mut offsets: Vec<u32> = Vec::new();
    let mut prev: u32 = 0;
    let mut j: u64 = 0;
    while j < count
        invariant
            s == data@,
            info == info_off(s),
            own == info_own(s),
            info + own <= data.len(),
            rel == info_rel(s, i as int),
            list == info + rel,
            count == info_count(s, i as int),
            list + 4 + 4 * count <= info + own,
            j <= count,
            prev == info_prev(s, i as int, j as int),
            offsets@.len() == j,
            forall|k: int| 0 <= k < j ==> #[trigger] offsets@[k] == info_o(s, i as int, k),
            forall|k: int|
                0 <= k < j ==> #[trigger] info_o(s, i as int, k) != 0 ==> info_o(s, i as int, k) > info_prev(
                    s,
                    i as int,
                    k,
                ),
        decreases count - j,
    {
        let o = u32le(data, (list + 4 + 4 * j) as usize)?;
        assert(o == info_o(s, i as int, j as int));
        if o != 0 {
            if o <= prev {
                return Err(NdsError::Invalid { what: "SDAT INFO records are out of order" });
            }
            prev = o;
        }
        offsets.push(o);
        j = j + 1;
    }
    Ok(offsets)
}

/// Reads the INFO block's sub-list table: the eight block-relative list
/// offsets and each list's record offsets.
fn read_info_lists(data: &[u8], info: usize) -> (res: Result<(Vec<u32>, Vec<Vec<u32>>), NdsError>)
    requires
        info == info_off(data@),
        info + 8 <= data.len(),
        info + info_own(data@) <= data.len(),
    ensures
        res is Ok <==> info_ok(data@),
        res matches Ok(r) ==> r.0@.len() == 8 && r.1@.len() == 8 && (forall|i: int|
            0 <= i < 8 ==> #[trigger] r.0@[i] == info_rel(data@, i)) && forall|i: int|
            0 <= i < 8 ==> #[trigger] offsets_are(r.1@[i]@, data@, i),
{
    let ghost s = data@;
    let own = u32le(data, info + 4)? as usize;
    if 0x40 > data.len() - info || !zeros_at(data, info + 0x28, info + 0x40) {
        return Err(NdsError::Invalid { what: "SDAT INFO header padding" });
    }
    let mut rels: Vec<u32> = Vec::new();
    let mut i: usize = 0;
    while i < 8
        invariant
            s == data@,
            info == info_off(s),
            info + 0x40 <= data.len(),
            i <= 8,
            rels@.len() == i,
            forall|k: int| 0 <= k < i ==> #[trigger] rels@[k] == info_rel(s, k),
            forall|k: int| 0 <= k < i ==> rels@[k] != 0,
        decreases 8 - i,
    {
        let r = u32le(data, info + 8 + 4 * i)?;
        if r == 0 {
            return Err(NdsError::Invalid { what: "SDAT INFO sub-list is absent" });
        }
        rels.push(r);
        i = i + 1;
    }
    if rels[0] != 0x40 {
        return Err(NdsError::Invalid { what: "SDAT INFO sub-lists are out of order" });
    }
    let mut i: usize = 0;
    while i < 7
        invariant
            s == data@,
            rels@.len() == 8,
            forall|k: int| 0 <= k < 8 ==> #[trigger] rels@[k] == info_rel(s, k),
            i <= 7,
            forall|k: int| 0 <= k < i ==> #[trigger] info_rel(s, k) < info_rel(s, k + 1),
        decreases 7 - i,
    {
        if rels[i] >= rels[i + 1] {
            return Err(NdsError::Invalid { what: "SDAT INFO sub-lists are out of order" });
        }
        i = i + 1;
    }
    let mut lists: Vec<Vec<u32>> = Vec::new();
    let mut i: usize = 0;
    while i < 8
        invariant
            s == data@,
            info == info_off(s),
            own == info_own(s),
            info + own <= data.len(),
            rels@.len() == 8,
            forall|k: int| 0 <= k < 8 ==> #[trigger] rels@[k] == info_rel(s, k),
            i <= 8,
            lists@.len() == i,
            forall|k: int| 0 <= k < i ==> #[trigger] info_list_ok(s, k),
            forall|k: int| 0 <= k < i ==> #[trigger] offsets_are(lists@[k]@, s, k),
        decreases 8 - i,
    {
        let offsets = read_info_list(data, info, own, i, rels[i] as u64)?;
        lists.push(offsets);
        i = i + 1;
    }
    Ok((rels, lists))
}

/// The fixed record size of INFO sub-list `i` (0: variable or none).
pub open spec fn rec_size(i: int) -> int {
    if i == 0 || i == 2 || i == 7 {
        12
    } else if i == 1 || i == 3 {
        4
    } else if i == 4 {
        8
    } else if i == 6 {
        0x18
    } else {
        0
    }
}

/// Where the record region of INFO sub-list `i` ends (block-relative):
/// the next list's start, or the block end for the last.
pub open spec fn region_end(s: Seq<u8>, i: int) -> int {
    if i + 1 < 8 {
        info_rel(s, i + 1)
    } else {
        info_own(s)
    }
}

/// Whether record `j` of INFO sub-list `i` lies after its offsets array
/// and, when of fixed size, inside its region.
pub open spec fn region_ok(s: Seq<u8>, i: int, j: int) -> bool {
    let o = info_o(s, i, j);
    o != 0 ==> o >= info_rel(s, i) + 4 + 4 * info_count(s, i) && (rec_size(i) > 0 ==> o + rec_size(i)
        <= region_end(s, i))
}

/// Whether every record lies in its region.
pub open spec fn regions_ok(s: Seq<u8>) -> bool {
    forall|i: int, j: int| 0 <= i < 8 && 0 <= j < info_count(s, i) ==> #[trigger] region_ok(s, i, j)
}

/// Whether FAT file `id` exists, is not empty and starts with magic `m`.
pub open spec fn file_ok(s: Seq<u8>, id: int, m: (u8, u8, u8, u8)) -> bool {
    &&& id < fat_count(s)
    &&& fat_entry(s, id).1 != 0
    &&& magic4(s, fat_entry(s, id).0, m)
}

/// Whether the SEQ record at block-relative `o` is well formed.
pub open spec fn seq_ok(s: Seq<u8>, o: int) -> bool {
    let a = info_off(s) + o;
    &&& a + 12 <= s.len()
    &&& w16(s, a + 2) == 0
    &&& w16(s, a + 10) == 0
    &&& file_ok(s, w16(s, a), (0x53, 0x53, 0x45, 0x51))
    &&& (w16(s, a + 4) == 0xFFFF || w16(s, a + 4) < info_count(s, 2))
    &&& s[a + 6] <= 127
    &&& s[a + 9] < info_count(s, 4)
}

/// The SEQ record at block-relative `o`.
pub open spec fn seq_of(s: Seq<u8>, o: int) -> SseqInfo {
    let a = info_off(s) + o;
    SseqInfo {
        file_id: spec_u16le(s, a),
        bank: spec_u16le(s, a + 4),
        volume: s[a + 6],
        channel_priority: s[a + 7],
        player_priority: s[a + 8],
        player: s[a + 9],
    }
}

/// Whether the SEQARC record at block-relative `o` is well formed.
pub open spec fn seq_arc_ok(s: Seq<u8>, o: int) -> bool {
    let a = info_off(s) + o;
    &&& a + 4 <= s.len()
    &&& w16(s, a + 2) == 0
    &&& file_ok(s, w16(s, a), (0x53, 0x53, 0x41, 0x52))
}

/// Whether the BANK record at block-relative `o` is well formed.
pub open spec fn bank_ok(s: Seq<u8>, o: int) -> bool {
    let a = info_off(s) + o;
    &&& a + 12 <= s.len()
    &&& w16(s, a + 2) == 0
    &&& forall|k: int| 0 <= k < 4 ==> (#[trigger] w16(s, a + 4 + 2 * k) == 0xFFFF || w16(s, a + 4 + 2 * k)
        < info_count(s, 3))
    &&& file_ok(s, w16(s, a), (0x53, 0x42, 0x4E, 0x4B))
}

/// `b` is the BANK record at block-relative `o`.
pub open spec fn bank_is(b: BankInfo, s: Seq<u8>, o: int) -> bool {
    let a = info_off(s) + o;
    &&& b.file_id == spec_u16le(s, a)
    &&& b.swar@.len() == 4
    &&& forall|k: int| 0 <= k < 4 ==> #[trigger] b.swar@[k] == spec_u16le(s, a + 4 + 2 * k)
}

/// Whether the WAVEARC record at block-relative `o` is well formed.
pub open spec fn swar_ok(s: Seq<u8>, o: int) -> bool {
    let a = info_off(s) + o;
    &&& a + 4 <= s.len()
    &&& w16(s, a + 2) == 0
    &&& file_ok(s, w16(s, a), (0x53, 0x57, 0x41, 0x52))
}

/// Whether the PLAYER record at block-relative `o` is well formed.
pub open spec fn player_ok(s: Seq<u8>, o: int) -> bool {
    let a = info_off(s) + o;
    &&& a + 8 <= s.len()
    &&& s[a + 1] == 0
}

/// The PLAYER record at block-relative `o`.
pub open spec fn player_of(s: Seq<u8>, o: int) -> PlayerInfo {
    let a = info_off(s) + o;
    PlayerInfo { seq_count: s[a], channels: spec_u16le(s, a + 2), heap_size: spec_u32le(s, a + 4) }
}

/// The entry count of the sub-list a group item of type `t` indexes.
pub open spec fn group_limit(s: Seq<u8>, t: int) -> int {
    if t == 0 {
        info_count(s, 0)
    } else if t == 1 {
        info_count(s, 2)
    } else if t == 2 {
        info_count(s, 3)
    } else {
        info_count(s, 1)
    }
}

/// Whether the group item at absolute `p` is well formed.
pub open spec fn item_ok(s: Seq<u8>, p: int) -> bool {
    &&& s[p] <= 3
    &&& w16(s, p + 2) == 0
    &&& w32(s, p + 4) < group_limit(s, s[p] as int)
}

/// The group item at absolute `p`.
pub open spec fn item_of(s: Seq<u8>, p: int) -> GroupItem {
    GroupItem { kind: kind_of(s[p] as int), flags: s[p + 1], index: spec_u32le(s, p + 4) }
}

/// Whether the GROUP record at block-relative `o` is well formed.
pub open spec fn group_ok(s: Seq<u8>, o: int) -> bool {
    let a = info_off(s) + o;
    &&& a + 4 <= s.len()
    &&& o + 4 + 8 * w32(s, a) <= region_end(s, 5)
    &&& forall|j: int| 0 <= j < w32(s, a) ==> #[trigger] item_ok(s, a + 4 + 8 * j)
}

/// `items` are the items of the GROUP record at block-relative `o`.
pub open spec fn group_is(items: Seq<GroupItem>, s: Seq<u8>, o: int) -> bool {
    let a = info_off(s) + o;
    &&& items.len() == w32(s, a)
    &&& forall|j: int| 0 <= j < items.len() ==> #[trigger] items[j] == item_of(s, a + 4 + 8 * j)
}

/// Whether the STRM record at block-relative `o` is well formed.
pub open spec fn strm_ok(s: Seq<u8>, o: int) -> bool {
    let a = info_off(s) + o;
    &&& a + 12 <= s.len()
    &&& w16(s, a + 2) == 0
    &&& file_ok(s, w16(s, a), (0x53, 0x54, 0x52, 0x4D))
}

/// The STRM record at block-relative `o`.
pub open spec fn strm_of(s: Seq<u8>, o: int) -> StrmInfo {
    let a = info_off(s) + o;
    StrmInfo { file_id: spec_u16le(s, a), volume: s[a + 4], priority: s[a + 5], player: s[a + 6] }
}

/// Whether record `j` of INFO sub-list `i` is absent or well formed.
pub open spec fn record_ok(s: Seq<u8>, i: int, j: int) -> bool {
    let o = info_o(s, i, j);
    o != 0 ==> if i == 0 {
        seq_ok(s, o)
    } else if i == 1 {
        seq_arc_ok(s, o)
    } else if i == 2 {
        bank_ok(s, o)
    } else if i == 3 {
        swar_ok(s, o)
    } else if i == 4 {
        player_ok(s, o)
    } else if i == 5 {
        group_ok(s, o)
    } else if i == 7 {
        strm_ok(s, o)
    } else {
        true
    }
}

/// Whether every record is absent or well formed.
pub open spec fn records_ok(s: Seq<u8>) -> bool {
    forall|i: int, j: int| 0 <= i < 8 && 0 <= j < info_count(s, i) ==> #[trigger] record_ok(s, i, j)
}

/// Whether, with a SYMB block, each list has as many labels as records
/// and an entry is named exactly when its record is present.
pub open spec fn names_consistent(s: Seq<u8>) -> bool {
    has_symb(s) ==> forall|i: int|
        0 <= i < 8 ==> #[trigger] sym_count(s, i) == info_count(s, i) && forall|j: int|
            0 <= j < info_count(s, i) ==> (#[trigger] sym_value(s, i, j) != 0) == (info_o(s, i, j) != 0)
}

/// Whether `s` is a sound archive the parser accepts.
pub open spec fn sdat_ok(s: Seq<u8>) -> bool {
    &&& sdat_layout_ok(s)
    &&& records_ok(s)
    &&& names_consistent(s)
}

/// Whether `files` is the allocation table of `s`.
pub open spec fn files_are(files: Seq<(u32, u32)>, s: Seq<u8>) -> bool {
    &&& files.len() == fat_count(s)
    &&& forall|i: int|
        0 <= i < files.len() ==> (#[trigger] files[i]).0 == fat_entry(s, i).0 && files[i].1 == fat_entry(s, i).1
}

/// Whether FAT file `id` exists, is not empty and starts with the magic.
fn check_file(data: &[u8], files: &Vec<(u32, u32)>, id: u16, m0: u8, m1: u8, m2: u8, m3: u8) -> (res: bool)
    requires
        files_are(files@, data@),
    ensures
        res == file_ok(data@, id as int, (m0, m1, m2, m3)),
{
    if id as usize >= files.len() {
        return false;
    }
    let (off, size) = files[id as usize];
    if size == 0 || off as u64 + 4 > data.len() as u64 {
        return false;
    }
    let o = off as usize;
    data[o] == m0 && data[o + 1] == m1 && data[o + 2] == m2 && data[o + 3] == m3
}

/// Checks that every record lies in its region.
fn check_regions(data: &[u8], rels: &Vec<u32>, lists: &Vec<Vec<u32>>, own: usize) -> (res: Result<(), NdsError>)
    requires
        rels@.len() == 8,
        lists@.len() == 8,
        forall|i: int| 0 <= i < 8 ==> #[trigger] rels@[i] == info_rel(data@, i),
        forall|i: int| 0 <= i < 8 ==> #[trigger] offsets_are(lists@[i]@, data@, i),
        own == info_own(data@),
    ensures
        res is Ok <==> regions_ok(data@),
{
    let ghost s = data@;
    let mut i: usize = 0;
    while i < 8
        invariant
            s == data@,
            rels@.len() == 8,
            lists@.len() == 8,
            forall|k: int| 0 <= k < 8 ==> #[trigger] rels@[k] == info_rel(s, k),
            forall|k: int| 0 <= k < 8 ==> #[trigger] offsets_are(lists@[k]@, s, k),
            own == info_own(s),
            i <= 8,
            forall|k: int, j: int| 0 <= k < i && 0 <= j < info_count(s, k) ==> #[trigger] region_ok(s, k, j),
        decreases 8 - i,
    {
        let end: u64 = if i + 1 < 8 {
            rels[i + 1] as u64
        } else {
            own as u64
        };
        let size: u64 = if i == 0 || i == 2 || i == 7 {
            12
        } else if i == 1 || i == 3 {
            4
        } else if i == 4 {
            8
        } else if i == 6 {
            0x18
        } else {
            0
        };
        let offs = &lists[i];
        assert(offsets_are(offs@, s, i as int));
        let array_end: u64 = rels[i] as u64 + 4 + 4 * offs.len() as u64;
        let mut j: usize = 0;
        while j < offs.len()
            invariant
                s == data@,
                i < 8,
                offsets_are(offs@, s, i as int),
                end == region_end(s, i as int),
                size == rec_size(i as int),
                array_end == info_rel(s, i as int) + 4 + 4 * info_count(s, i as int),
                j <= offs@.len(),
                forall|x: int| 0 <= x < j ==> #[trigger] region_ok(s, i as int, x),
            decreases offs@.len() - j,
        {
            let o = offs[j] as u64;
            if o != 0 {
                if o < array_end {
                    assert(!region_ok(s, i as int, j as int));
                    return Err(NdsError::Invalid { what: "SDAT INFO record sits inside its offsets array" });
                }
                if size > 0 && o + size > end {
                    assert(!region_ok(s, i as int, j as int));
                    return Err(NdsError::Invalid { what: "SDAT INFO record overruns its region" });
                }
            }
            assert(region_ok(s, i as int, j as int));
            j = j + 1;
        }
        i = i + 1;
    }
    Ok(())
}

/// Parses the SEQ record at block-relative `o`.
fn parse_seq_record(data: &[u8], info: usize, o: u32, files: &Vec<(u32, u32)>, banks: usize, players: usize) -> (res: Result<
    SseqInfo,
    NdsError,
>)
    requires
        info == info_off(data@),
        files_are(files@, data@),
        banks == info_count(data@, 2),
        players == info_count(data@, 4),
    ensures
        res is Ok <==> seq_ok(data@, o as int),
        res matches Ok(r) ==> r == seq_of(data@, o as int),
{
    let a = info as u64 + o as u64;
    if a + 12 > data.len() as u64 {
        return Err(NdsError::Truncated { what: "SDAT SEQ record", need: sat_usize(a + 12), got: data.len() });
    }
    let a = a as usize;
    let file_id = u16le(data, a)?;
    if u16le(data, a + 2)? != 0 {
        return Err(NdsError::Invalid { what: "SDAT SEQ record reserved field" });
    }
    let bank = u16le(data, a + 4)?;
    if u16le(data, a + 10)? != 0 {
        return Err(NdsError::Invalid { what: "SDAT SEQ record reserved field" });
    }
    if !check_file(data, files, file_id, 0x53, 0x53, 0x45, 0x51) {
        return Err(NdsError::Invalid { what: "SDAT SEQ record does not point at an SSEQ file" });
    }
    if bank != 0xFFFF && bank as usize >= banks {
        return Err(NdsError::Invalid { what: "SDAT SEQ record bank is out of range" });
    }
    if data[a + 6] > 127 {
        return Err(NdsError::Invalid { what: "SDAT SEQ record volume exceeds 127" });
    }
    if data[a + 9] as usize >= players {
        return Err(NdsError::Invalid { what: "SDAT SEQ record player is out of range" });
    }
    Ok(
        SseqInfo {
            file_id,
            bank,
            volume: data[a + 6],
            channel_priority: data[a + 7],
            player_priority: data[a + 8],
            player: data[a + 9],
        },
    )
}

/// Parses the SEQARC record at block-relative `o`.
fn parse_seq_arc_record(data: &[u8], info: usize, o: u32, files: &Vec<(u32, u32)>) -> (res: Result<
    SeqArcInfo,
    NdsError,
>)
    requires
        info == info_off(data@),
        files_are(files@, data@),
    ensures
        res is Ok <==> seq_arc_ok(data@, o as int),
        res matches Ok(r) ==> r.file_id == spec_u16le(data@, info + o),
{
    let a = info as u64 + o as u64;
    if a + 4 > data.len() as u64 {
        return Err(NdsError::Truncated { what: "SDAT SEQARC record", need: sat_usize(a + 4), got: data.len() });
    }
    let a = a as usize;
    let file_id = u16le(data, a)?;
    if u16le(data, a + 2)? != 0 {
        return Err(NdsError::Invalid { what: "SDAT SEQARC record reserved field" });
    }
    if !check_file(data, files, file_id, 0x53, 0x53, 0x41, 0x52) {
        return Err(NdsError::Invalid { what: "SDAT SEQARC record does not point at an SSAR file" });
    }
    Ok(SeqArcInfo { file_id })
}

/// Parses the BANK record at block-relative `o`.
fn parse_bank_record(data: &[u8], info: usize, o: u32, files: &Vec<(u32, u32)>, wave_arcs: usize) -> (res: Result<
    BankInfo,
    NdsError,
>)
    requires
        info == info_off(data@),
        files_are(files@, data@),
        wave_arcs == info_count(data@, 3),
    ensures
        res is Ok <==> bank_ok(data@, o as int),
        res matches Ok(r) ==> bank_is(r, data@, o as int),
{
    let ghost s = data@;
    let a = info as u64 + o as u64;
    if a + 12 > data.len() as u64 {
        return Err(NdsError::Truncated { what: "SDAT BANK record", need: sat_usize(a + 12), got: data.len() });
    }
    let a = a as usize;
    let file_id = u16le(data, a)?;
    if u16le(data, a + 2)? != 0 {
        return Err(NdsError::Invalid { what: "SDAT BANK record reserved field" });
    }
    let mut swar = [0u16; 4];
    let mut k: usize = 0;
    while k < 4
        invariant
            s == data@,
            a == info_off(s) + o,
            a + 12 <= data.len(),
            wave_arcs == info_count(s, 3),
            k <= 4,
            forall|x: int| 0 <= x < k ==> #[trigger] swar@[x] == spec_u16le(s, a + 4 + 2 * x),
            forall|x: int|
                0 <= x < k ==> (#[trigger] w16(s, a + 4 + 2 * x) == 0xFFFF || w16(s, a + 4 + 2 * x)
                    < info_count(s, 3)),
        decreases 4 - k,
    {
        let slot = u16le(data, a + 4 + 2 * k)?;
        if slot != 0xFFFF && slot as usize >= wave_arcs {
            assert(!(w16(s, a + 4 + 2 * k) == 0xFFFF || w16(s, a + 4 + 2 * k) < info_count(s, 3)));
            return Err(NdsError::Invalid { what: "SDAT BANK record swar slot is out of range" });
        }
        swar[k] = slot;
        k = k + 1;
    }
    if !check_file(data, files, file_id, 0x53, 0x42, 0x4E, 0x4B) {
        return Err(NdsError::Invalid { what: "SDAT BANK record does not point at an SBNK file" });
    }
    Ok(BankInfo { file_id, swar })
}

/// Parses the WAVEARC record at block-relative `o`.
fn parse_swar_record(data: &[u8], info: usize, o: u32, files: &Vec<(u32, u32)>) -> (res: Result<
    SwarInfo,
    NdsError,
>)
    requires
        info == info_off(data@),
        files_are(files@, data@),
    ensures
        res is Ok <==> swar_ok(data@, o as int),
        res matches Ok(r) ==> r.file_id == spec_u16le(data@, info + o),
{
    let a = info as u64 + o as u64;
    if a + 4 > data.len() as u64 {
        return Err(NdsError::Truncated { what: "SDAT WAVEARC record", need: sat_usize(a + 4), got: data.len() });
    }
    let a = a as usize;
    let file_id = u16le(data, a)?;
    if u16le(data, a + 2)? != 0 {
        return Err(NdsError::Invalid { what: "SDAT WAVEARC record reserved field" });
    }
    if !check_file(data, files, file_id, 0x53, 0x57, 0x41, 0x52) {
        return Err(NdsError::Invalid { what: "SDAT WAVEARC record does not point at a SWAR file" });
    }
    Ok(SwarInfo { file_id })
}

/// Parses the PLAYER record at block-relative `o`.
fn parse_player_record(data: &[u8], info: usize, o: u32) -> (res: Result<PlayerInfo, NdsError>)
    requires
        info == info_off(data@),
    ensures
        res is Ok <==> player_ok(data@, o as int),
        res matches Ok(r) ==> r == player_of(data@, o as int),
{
    let a = info as u64 + o as u64;
    if a + 8 > data.len() as u64 {
        return Err(NdsError::Truncated { what: "SDAT PLAYER record", need: sat_usize(a + 8), got: data.len() });
    }
    let a = a as usize;
    if data[a + 1] != 0 {
        return Err(NdsError::Invalid { what: "SDAT PLAYER record reserved field" });
    }
    Ok(PlayerInfo { seq_count: data[a], channels: u16le(data, a + 2)?, heap_size: u32le(data, a + 4)? })
}

/// Parses the STRM record at block-relative `o`.
fn parse_strm_record(data: &[u8], info: usize, o: u32, files: &Vec<(u32, u32)>) -> (res: Result<
    StrmInfo,
    NdsError,
>)
    requires
        info == info_off(data@),
        files_are(files@, data@),
    ensures
        res is Ok <==> strm_ok(data@, o as int),
        res matches Ok(r) ==> r == strm_of(data@, o as int),
{
    let a = info as u64 + o as u64;
    if a + 12 > data.len() as u64 {
        return Err(NdsError::Truncated { what: "SDAT STRM record", need: sat_usize(a + 12), got: data.len() });
    }
    let a = a as usize;
    let file_id = u16le(data, a)?;
    if u16le(data, a + 2)? != 0 {
        return Err(NdsError::Invalid { what: "SDAT STRM record reserved field" });
    }
    if !check_file(data, files, file_id, 0x53, 0x54, 0x52, 0x4D) {
        return Err(NdsError::Invalid { what: "SDAT STRM record does not point at a STRM file" });
    }
    Ok(StrmInfo { file_id, volume: data[a + 4], priority: data[a + 5], player: data[a + 6] })
}

/// Parses the GROUP record at block-relative `o`, whose region ends at
/// block-relative `end`.
fn parse_group_record(data: &[u8], info: usize, o: u32, end: u64, limits: &[usize; 4]) -> (res: Result<
    Vec<GroupItem>,
    NdsError,
>)
    requires
        info == info_off(data@),
        end == region_end(data@, 5),
        info + end <= data.len(),
        limits[0] == info_count(data@, 0),
        limits[1] == info_count(data@, 2),
        limits[2] == info_count(data@, 3),
        limits[3] == info_count(data@, 1),
    ensures
        res is Ok <==> group_ok(data@, o as int),
        res matches Ok(v) ==> group_is(v@, data@, o as int),
{
    let ghost s = data@;
    let a = info as u64 + o as u64;
    if a + 4 > data.len() as u64 {
        return Err(NdsError::Truncated { what: "u32 field", need: sat_usize(a + 4), got: data.len() });
    }
    let count = u32le(data, a as usize)? as u64;
    if o as u64 + 4 + 8 * count > end {
        return Err(NdsError::Invalid { what: "SDAT GROUP record overruns its region" });
    }
    let mut items: Vec<GroupItem> = Vec::new();
    let mut j: u64 = 0;
    while j < count
        invariant
            s == data@,
            info == info_off(s),
            a == info_off(s) + o,
            count == w32(s, a as int),
            o + 4 + 8 * count <= end,
            info + end <= data.len(),
            limits[0] == info_count(s, 0),
            limits[1] == info_count(s, 2),
            limits[2] == info_count(s, 3),
            limits[3] == info_count(s, 1),
            j <= count,
            items@.len() == j,
            forall|x: int| 0 <= x < j ==> #[trigger] item_ok(s, a + 4 + 8 * x),
            forall|x: int| 0 <= x < j ==> #[trigger] items@[x] == item_of(s, a + 4 + 8 * x),
        decreases count - j,
    {
        let p = (a + 4 + 8 * j) as usize;
        let t = data[p];
        assert(p == a + 4 + 8 * j);
        if t > 3 {
            assert(!item_ok(s, a + 4 + 8 * j));
            return Err(NdsError::Invalid { what: "SDAT group item type" });
        }
        let kind = if t == 0 {
            GroupItemKind::Sequence
        } else if t == 1 {
            GroupItemKind::Bank
        } else if t == 2 {
            GroupItemKind::WaveArc
        } else {
            GroupItemKind::SeqArc
        };
        let flags = data[p + 1];
        if u16le(data, p + 2)? != 0 {
            assert(!item_ok(s, a + 4 + 8 * j));
            return Err(NdsError::Invalid { what: "SDAT GROUP item reserved field" });
        }
        let index = u32le(data, p + 4)?;
        if index as usize >= limits[t as usize] {
            assert(!item_ok(s, a + 4 + 8 * j));
            return Err(NdsError::Invalid { what: "SDAT GROUP item index is out of range" });
        }
        items.push(GroupItem { kind, flags, index });
        j = j + 1;
    }
    Ok(items)
}

/// Reads the SEQ records.
fn read_seqs(data: &[u8], info: usize, offs: &Vec<u32>, files: &Vec<(u32, u32)>, banks: usize, players: usize) -> (res: Result<Vec<Option<SseqInfo>>, NdsError>)
    requires
        info == info_off(data@),
        offsets_are(offs@, data@, 0),
        files_are(files@, data@),
        banks == info_count(data@, 2),
        players == info_count(data@, 4),
    ensures
        res is Ok <==> forall|j: int| 0 <= j < offs@.len() ==> #[trigger] record_ok(data@, 0, j),
        res matches Ok(v) ==> v@.len() == offs@.len() && forall|j: int|
            0 <= j < v@.len() ==> (match #[trigger] v@[j] {
                None => info_o(data@, 0, j) == 0,
                Some(r) => info_o(data@, 0, j) != 0 && r == seq_of(data@, info_o(data@, 0, j)),
            }),
{
    let ghost s = data@;
    let mut out: Vec<Option<SseqInfo>> = Vec::new();
    let mut j: usize = 0;
    while j < offs.len()
        invariant
            s == data@,
            info == info_off(s),
            offsets_are(offs@, s, 0),
        files_are(files@, data@),
        banks == info_count(data@, 2),
        players == info_count(data@, 4),
            j <= offs@.len(),
            out@.len() == j,
            forall|x: int| 0 <= x < j ==> #[trigger] record_ok(s, 0, x),
            forall|x: int|
                0 <= x < j ==> (match #[trigger] out@[x] {
                    None => info_o(s, 0, x) == 0,
                    Some(r) => info_o(s, 0, x) != 0 && r == seq_of(s, info_o(s, 0, x)),
                }),
        decreases offs@.len() - j,
    {
        let o = offs[j];
        assert(o == info_o(s, 0, j as int));
        if o == 0 {
            out.push(None);
        } else {
            match parse_seq_record(data, info, o, files, banks, players) {
                Ok(r) => out.push(Some(r)),
                Err(e) => {
                    assert(!record_ok(s, 0, j as int));
                    return Err(e);
                },
            }
        }
        j = j + 1;
    }
    Ok(out)
}

/// Reads the SEQARC records.
fn read_seq_arcs(data: &[u8], info: usize, offs: &Vec<u32>, files: &Vec<(u32, u32)>) -> (res: Result<Vec<Option<SeqArcInfo>>, NdsError>)
    requires
        info == info_off(data@),
        offsets_are(offs@, data@, 1),
        files_are(files@, data@),
    ensures
        res is Ok <==> forall|j: int| 0 <= j < offs@.len() ==> #[trigger] record_ok(data@, 1, j),
        res matches Ok(v) ==> v@.len() == offs@.len() && forall|j: int|
            0 <= j < v@.len() ==> (match #[trigger] v@[j] {
                None => info_o(data@, 1, j) == 0,
                Some(r) => info_o(data@, 1, j) != 0 && r.file_id == spec_u16le(data@, info_off(data@) + info_o(data@, 1, j)),
            }),
{
    let ghost s = data@;
    let mut out: Vec<Option<SeqArcInfo>> = Vec::new();
    let mut j: usize = 0;
    while j < offs.len()
        invariant
            s == data@,
            info == info_off(s),
            offsets_are(offs@, s, 1),
        files_are(files@, data@),
            j <= offs@.len(),
            out@.len() == j,
            forall|x: int| 0 <= x < j ==> #[trigger] record_ok(s, 1, x),
            forall|x: int|
                0 <= x < j ==> (match #[trigger] out@[x] {
                    None => info_o(s, 1, x) == 0,
                    Some(r) => info_o(s, 1, x) != 0 && r.file_id == spec_u16le(s, info_off(s) + info_o(s, 1, x)),
                }),
        decreases offs@.len() - j,
    {
        let o = offs[j];
        assert(o == info_o(s, 1, j as int));
        if o == 0 {
            out.push(None);
        } else {
            match parse_seq_arc_record(data, info, o, files) {
                Ok(r) => out.push(Some(r)),
                Err(e) => {
                    assert(!record_ok(s, 1, j as int));
                    return Err(e);
                },
            }
        }
        j = j + 1;
    }
    Ok(out)
}

/// Reads the BANK records.
fn read_banks(data: &[u8], info: usize, offs: &Vec<u32>, files: &Vec<(u32, u32)>, wave_arcs: usize) -> (res: Result<Vec<Option<BankInfo>>, NdsError>)
    requires
        info == info_off(data@),
        offsets_are(offs@, data@, 2),
        files_are(files@, data@),
        wave_arcs == info_count(data@, 3),
    ensures
        res is Ok <==> forall|j: int| 0 <= j < offs@.len() ==> #[trigger] record_ok(data@, 2, j),
        res matches Ok(v) ==> v@.len() == offs@.len() && forall|j: int|
            0 <= j < v@.len() ==> (match #[trigger] v@[j] {
                None => info_o(data@, 2, j) == 0,
                Some(r) => info_o(data@, 2, j) != 0 && bank_is(r, data@, info_o(data@, 2, j)),
            }),
{
    let ghost s = data@;
    let mut out: Vec<Option<BankInfo>> = Vec::new();
    let mut j: usize = 0;
    while j < offs.len()
        invariant
            s == data@,
            info == info_off(s),
            offsets_are(offs@, s, 2),
        files_are(files@, data@),
        wave_arcs == info_count(data@, 3),
            j <= offs@.len(),
            out@.len() == j,
            forall|x: int| 0 <= x < j ==> #[trigger] record_ok(s, 2, x),
            forall|x: int|
                0 <= x < j ==> (match #[trigger] out@[x] {
                    None => info_o(s, 2, x) == 0,
                    Some(r) => info_o(s, 2, x) != 0 && bank_is(r, s, info_o(s, 2, x)),
                }),
        decreases offs@.len() - j,
    {
        let o = offs[j];
        assert(o == info_o(s, 2, j as int));
        if o == 0 {
            out.push(None);
        } else {
            match parse_bank_record(data, info, o, files, wave_arcs) {
                Ok(r) => out.push(Some(r)),
                Err(e) => {
                    assert(!record_ok(s, 2, j as int));
                    return Err(e);
                },
            }
        }
        j = j + 1;
    }
    Ok(out)
}

/// Reads the WAVEARC records.
fn read_swars(data: &[u8], info: usize, offs: &Vec<u32>, files: &Vec<(u32, u32)>) -> (res: Result<Vec<Option<SwarInfo>>, NdsError>)
    requires
        info == info_off(data@),
        offsets_are(offs@, data@, 3),
        files_are(files@, data@),
    ensures
        res is Ok <==> forall|j: int| 0 <= j < offs@.len() ==> #[trigger] record_ok(data@, 3, j),
        res matches Ok(v) ==> v@.len() == offs@.len() && forall|j: int|
            0 <= j < v@.len() ==> (match #[trigger] v@[j] {
                None => info_o(data@, 3, j) == 0,
                Some(r) => info_o(data@, 3, j) != 0 && r.file_id == spec_u16le(data@, info_off(data@) + info_o(data@, 3, j)),
            }),
{
    let ghost s = data@;
    let mut out: Vec<Option<SwarInfo>> = Vec::new();
    let mut j: usize = 0;
    while j < offs.len()
        invariant
            s == data@,
            info == info_off(s),
            offsets_are(offs@, s, 3),
        files_are(files@, data@),
            j <= offs@.len(),
            out@.len() == j,
            forall|x: int| 0 <= x < j ==> #[trigger] record_ok(s, 3, x),
            forall|x: int|
                0 <= x < j ==> (match #[trigger] out@[x] {
                    None => info_o(s, 3, x) == 0,
                    Some(r) => info_o(s, 3, x) != 0 && r.file_id == spec_u16le(s, info_off(s) + info_o(s, 3, x)),
                }),
        decreases offs@.len() - j,
    {
        let o = offs[j];
        assert(o == info_o(s, 3, j as int));
        if o == 0 {
            out.push(None);
        } else {
            match parse_swar_record(data, info, o, files) {
                Ok(r) => out.push(Some(r)),
                Err(e) => {
                    assert(!record_ok(s, 3, j as int));
                    return Err(e);
                },
            }
        }
        j = j + 1;
    }
    Ok(out)
}

/// Reads the PLAYER records.
fn read_players(data: &[u8], info: usize, offs: &Vec<u32>) -> (res: Result<Vec<Option<PlayerInfo>>, NdsError>)
    requires
        info == info_off(data@),
        offsets_are(offs@, data@, 4),
    ensures
        res is Ok <==> forall|j: int| 0 <= j < offs@.len() ==> #[trigger] record_ok(data@, 4, j),
        res matches Ok(v) ==> v@.len() == offs@.len() && forall|j: int|
            0 <= j < v@.len() ==> (match #[trigger] v@[j] {
                None => info_o(data@, 4, j) == 0,
                Some(r) => info_o(data@, 4, j) != 0 && r == player_of(data@, info_o(data@, 4, j)),
            }),
{
    let ghost s = data@;
    let mut out: Vec<Option<PlayerInfo>> = Vec::new();
    let mut j: usize = 0;
    while j < offs.len()
        invariant
            s == data@,
            info == info_off(s),
            offsets_are(offs@, s, 4),
            j <= offs@.len(),
            out@.len() == j,
            forall|x: int| 0 <= x < j ==> #[trigger] record_ok(s, 4, x),
            forall|x: int|
                0 <= x < j ==> (match #[trigger] out@[x] {
                    None => info_o(s, 4, x) == 0,
                    Some(r) => info_o(s, 4, x) != 0 && r == player_of(s, info_o(s, 4, x)),
                }),
        decreases offs@.len() - j,
    {
        let o = offs[j];
        assert(o == info_o(s, 4, j as int));
        if o == 0 {
            out.push(None);
        } else {
            match parse_player_record(data, info, o) {
                Ok(r) => out.push(Some(r)),
                Err(e) => {
                    assert(!record_ok(s, 4, j as int));
                    return Err(e);
                },
            }
        }
        j = j + 1;
    }
    Ok(out)
}

/// Reads the GROUP records.
fn read_groups(data: &[u8], info: usize, offs: &Vec<u32>, end: u64, limits: &[usize; 4]) -> (res: Result<Vec<Option<Vec<GroupItem>>>, NdsError>)
    requires
        info == info_off(data@),
        offsets_are(offs@, data@, 5),
        end == region_end(data@, 5),
        info + end <= data.len(),
        limits[0] == info_count(data@, 0),
        limits[1] == info_count(data@, 2),
        limits[2] == info_count(data@, 3),
        limits[3] == info_count(data@, 1),
    ensures
        res is Ok <==> forall|j: int| 0 <= j < offs@.len() ==> #[trigger] record_ok(data@, 5, j),
        res matches Ok(v) ==> v@.len() == offs@.len() && forall|j: int|
            0 <= j < v@.len() ==> (match #[trigger] v@[j] {
                None => info_o(data@, 5, j) == 0,
                Some(r) => info_o(data@, 5, j) != 0 && group_is(r@, data@, info_o(data@, 5, j)),
            }),
{
    let ghost s = data@;
    let mut out: Vec<Option<Vec<GroupItem>>> = Vec::new();
    let mut j: usize = 0;
    while j < offs.len()
        invariant
            s == data@,
            info == info_off(s),
            offsets_are(offs@, s, 5),
        end == region_end(data@, 5),
        info + end <= data.len(),
        limits[0] == info_count(data@, 0),
        limits[1] == info_count(data@, 2),
        limits[2] == info_count(data@, 3),
        limits[3] == info_count(data@, 1),
            j <= offs@.len(),
            out@.len() == j,
            forall|x: int| 0 <= x < j ==> #[trigger] record_ok(s, 5, x),
            forall|x: int|
                0 <= x < j ==> (match #[trigger] out@[x] {
                    None => info_o(s, 5, x) == 0,
                    Some(r) => info_o(s, 5, x) != 0 && group_is(r@, s, info_o(s, 5, x)),
                }),
        decreases offs@.len() - j,
    {
        let o = offs[j];
        assert(o == info_o(s, 5, j as int));
        if o == 0 {
            out.push(None);
        } else {
            match parse_group_record(data, info, o, end, limits) {
                Ok(r) => out.push(Some(r)),
                Err(e) => {
                    assert(!record_ok(s, 5, j as int));
                    return Err(e);
                },
            }
        }
        j = j + 1;
    }
    Ok(out)
}

/// Reads the STRM records.
fn read_strms(data: &[u8], info: usize, offs: &Vec<u32>, files: &Vec<(u32, u32)>) -> (res: Result<Vec<Option<StrmInfo>>, NdsError>)
    requires
        info == info_off(data@),
        offsets_are(offs@, data@, 7),
        files_are(files@, data@),
    ensures
        res is Ok <==> forall|j: int| 0 <= j < offs@.len() ==> #[trigger] record_ok(data@, 7, j),
        res matches Ok(v) ==> v@.len() == offs@.len() && forall|j: int|
            0 <= j < v@.len() ==> (match #[trigger] v@[j] {
                None => info_o(data@, 7, j) == 0,
                Some(r) => info_o(data@, 7, j) != 0 && r == strm_of(data@, info_o(data@, 7, j)),
            }),
{
    let ghost s = data@;
    let mut out: Vec<Option<StrmInfo>> = Vec::new();
    let mut j: usize = 0;
    while j < offs.len()
        invariant
            s == data@,
            info == info_off(s),
            offsets_are(offs@, s, 7),
        files_are(files@, data@),
            j <= offs@.len(),
            out@.len() == j,
            forall|x: int| 0 <= x < j ==> #[trigger] record_ok(s, 7, x),
            forall|x: int|
                0 <= x < j ==> (match #[trigger] out@[x] {
                    None => info_o(s, 7, x) == 0,
                    Some(r) => info_o(s, 7, x) != 0 && r == strm_of(s, info_o(s, 7, x)),
                }),
        decreases offs@.len() - j,
    {
        let o = offs[j];
        assert(o == info_o(s, 7, j as int));
        if o == 0 {
            out.push(None);
        } else {
            match parse_strm_record(data, info, o, files) {
                Ok(r) => out.push(Some(r)),
                Err(e) => {
                    assert(!record_ok(s, 7, j as int));
                    return Err(e);
                },
            }
        }
        j = j + 1;
    }
    Ok(out)
}

/// Checks that each list has as many labels as records and that an entry
/// is named exactly when its record is present.
fn check_names(data: &[u8], names: &Vec<Vec<Option<&str>>>, lists: &Vec<Vec<u32>>) -> (res: Result<(), NdsError>)
    requires
        names@.len() == 8,
        lists@.len() == 8,
        forall|i: int| 0 <= i < 8 ==> #[trigger] labels_are(names@[i]@, data@, i),
        forall|i: int| 0 <= i < 8 ==> #[trigger] offsets_are(lists@[i]@, data@, i),
    ensures
        res is Ok <==> forall|i: int|
            0 <= i < 8 ==> #[trigger] sym_count(data@, i) == info_count(data@, i) && forall|j: int|
                0 <= j < info_count(data@, i) ==> (#[trigger] sym_value(data@, i, j) != 0) == (info_o(
                    data@,
                    i,
                    j,
                ) != 0),
{
    let ghost s = data@;
    let mut i: usize = 0;
    while i < 8
        invariant
            s == data@,
            names@.len() == 8,
            lists@.len() == 8,
            forall|k: int| 0 <= k < 8 ==> #[trigger] labels_are(names@[k]@, s, k),
            forall|k: int| 0 <= k < 8 ==> #[trigger] offsets_are(lists@[k]@, s, k),
            i <= 8,
            forall|k: int|
                0 <= k < i ==> #[trigger] sym_count(s, k) == info_count(s, k) && forall|j: int|
                    0 <= j < info_count(s, k) ==> (#[trigger] sym_value(s, k, j) != 0) == (info_o(s, k, j)
                        != 0),
        decreases 8 - i,
    {
        let labels = &names[i];
        let offs = &lists[i];
        assert(labels_are(labels@, s, i as int));
        assert(offsets_are(offs@, s, i as int));
        if labels.len() != offs.len() {
            return Err(NdsError::Invalid { what: "SDAT symbol and info list counts disagree" });
        }
        let mut j: usize = 0;
        while j < offs.len()
            invariant
                s == data@,
                i < 8,
                labels_are(labels@, s, i as int),
                offsets_are(offs@, s, i as int),
                labels@.len() == offs@.len(),
                forall|k: int|
                    0 <= k < i ==> #[trigger] sym_count(s, k) == info_count(s, k) && forall|y: int|
                        0 <= y < info_count(s, k) ==> (#[trigger] sym_value(s, k, y) != 0) == (info_o(s, k, y)
                            != 0),
                j <= offs@.len(),
                forall|x: int|
                    0 <= x < j ==> (#[trigger] sym_value(s, i as int, x) != 0) == (info_o(s, i as int, x) != 0),
            decreases offs@.len() - j,
        {
            assert(labels@[j as int] is Some <==> sym_value(s, i as int, j as int) != 0);
            if labels[j].is_some() != (offs[j] != 0) {
                return Err(NdsError::Invalid {
                    what: "SDAT symbol names an entry whose record is absent (or vice versa)",
                });
            }
            j = j + 1;
        }
        assert(sym_count(s, i as int) == info_count(s, i as int));
        assert forall|k: int|
            0 <= k < i + 1 implies #[trigger] sym_count(s, k) == info_count(s, k) && forall|y: int|
                0 <= y < info_count(s, k) ==> (#[trigger] sym_value(s, k, y) != 0) == (info_o(s, k, y) != 0) by {
            if k == i {
                assert(forall|y: int|
                    0 <= y < info_count(s, k) ==> (#[trigger] sym_value(s, k, y) != 0) == (info_o(s, k, y) != 0));
            }
        }
        i = i + 1;
    }
    Ok(())
}

/// A parsed sound archive. Borrows the archive bytes; see
/// [`Sdat::parse`].
#[derive(Debug)]
pub struct Sdat<'a> {
    data: &'a [u8],
    files: Vec<(u32, u32)>,
    has_symbols: bool,
    /// The labels of the eight lists (each empty without a SYMB block).
    names: Vec<Vec<Option<&'a str>>>,
    seq: Vec<Option<SseqInfo>>,
    seq_arc: Vec<Option<SeqArcInfo>>,
    bank: Vec<Option<BankInfo>>,
    wave_arc: Vec<Option<SwarInfo>>,
    player: Vec<Option<PlayerInfo>>,
    group: Vec<Option<Vec<GroupItem>>>,
    strm: Vec<Option<StrmInfo>>,
}

/// The record of entry `j` of INFO sub-list `i` as stored: absent
/// exactly when its offset is 0.
pub open spec fn present<T>(r: Option<T>, s: Seq<u8>, i: int, j: int) -> bool {
    r is None <==> info_o(s, i, j) == 0
}

impl<'a> Sdat<'a> {
    #[verifier::type_invariant]
    spec fn inv(self) -> bool {
        &&& self.names@.len() == 8
        &&& forall|i: int|
            0 <= i < self.files@.len() ==> #[trigger] self.files@[i].1 == 0 || self.files@[i].0
                + self.files@[i].1 <= self.data@.len()
    }

    /// The archive bytes.
    pub closed spec fn spec_raw(&self) -> Seq<u8> {
        self.data@
    }

    /// The allocation table.
    pub closed spec fn spec_files(&self) -> Seq<(u32, u32)> {
        self.files@
    }

    /// Whether the archive has a SYMB block.
    pub closed spec fn spec_has_symbols(&self) -> bool {
        self.has_symbols
    }

    /// The label of entry `id` of list `list`, if any.
    pub closed spec fn spec_name(&self, list: int, id: int) -> Option<Seq<char>> {
        if 0 <= list < self.names@.len() && 0 <= id < self.names@[list]@.len() {
            match self.names@[list]@[id] {
                Some(n) => Some(n@),
                None => None,
            }
        } else {
            None
        }
    }

    /// The SEQ records.
    pub closed spec fn spec_seq(&self) -> Seq<Option<SseqInfo>> {
        self.seq@
    }

    /// The SEQARC records.
    pub closed spec fn spec_seq_arc(&self) -> Seq<Option<SeqArcInfo>> {
        self.seq_arc@
    }

    /// The BANK records.
    pub closed spec fn spec_bank(&self) -> Seq<Option<BankInfo>> {
        self.bank@
    }

    /// The WAVEARC records.
    pub closed spec fn spec_wave_arc(&self) -> Seq<Option<SwarInfo>> {
        self.wave_arc@
    }

    /// The PLAYER records.
    pub closed spec fn spec_player(&self) -> Seq<Option<PlayerInfo>> {
        self.player@
    }

    /// The GROUP records' items.
    pub closed spec fn spec_group(&self) -> Seq<Option<Seq<GroupItem>>> {
        self.group@.map_values(|g: Option<Vec<GroupItem>>| match g {
            Some(v) => Some(v@),
            None => None,
        })
    }

    /// The STRM records.
    pub closed spec fn spec_strm(&self) -> Seq<Option<StrmInfo>> {
        self.strm@
    }

    /// How a parse of `s` relates the archive to the bytes.
    pub open spec fn parsed_from(&self, s: Seq<u8>) -> bool {
        &&& self.spec_raw() == s
        &&& self.spec_has_symbols() == has_symb(s)
        &&& files_are(self.spec_files(), s)
        &&& forall|i: int, j: int|
            0 <= i < 8 && 0 <= j ==> #[trigger] self.spec_name(i, j) == if has_symb(s) && j < sym_count(s, i) {
                sym_name(s, i, j)
            } else {
                None
            }
        &&& self.spec_seq().len() == info_count(s, 0)
        &&& forall|j: int|
            0 <= j < info_count(s, 0) ==> present(#[trigger] self.spec_seq()[j], s, 0, j) && (
            self.spec_seq()[j] matches Some(r) ==> r == seq_of(s, info_o(s, 0, j)))
        &&& self.spec_seq_arc().len() == info_count(s, 1)
        &&& forall|j: int|
            0 <= j < info_count(s, 1) ==> present(#[trigger] self.spec_seq_arc()[j], s, 1, j) && (
            self.spec_seq_arc()[j] matches Some(r) ==> r.file_id == spec_u16le(s, info_off(s) + info_o(s, 1, j)))
        &&& self.spec_bank().len() == info_count(s, 2)
        &&& forall|j: int|
            0 <= j < info_count(s, 2) ==> present(#[trigger] self.spec_bank()[j], s, 2, j) && (
            self.spec_bank()[j] matches Some(r) ==> bank_is(r, s, info_o(s, 2, j)))
        &&& self.spec_wave_arc().len() == info_count(s, 3)
        &&& forall|j: int|
            0 <= j < info_count(s, 3) ==> present(#[trigger] self.spec_wave_arc()[j], s, 3, j) && (
            self.spec_wave_arc()[j] matches Some(r) ==> r.file_id == spec_u16le(s, info_off(s) + info_o(s, 3, j)))
        &&& self.spec_player().len() == info_count(s, 4)
        &&& forall|j: int|
            0 <= j < info_count(s, 4) ==> present(#[trigger] self.spec_player()[j], s, 4, j) && (
            self.spec_player()[j] matches Some(r) ==> r == player_of(s, info_o(s, 4, j)))
        &&& self.spec_group().len() == info_count(s, 5)
        &&& forall|j: int|
            0 <= j < info_count(s, 5) ==> present(#[trigger] self.spec_group()[j], s, 5, j) && (
            self.spec_group()[j] matches Some(r) ==> group_is(r, s, info_o(s, 5, j)))
        &&& self.spec_strm().len() == info_count(s, 7)
        &&& forall|j: int|
            0 <= j < info_count(s, 7) ==> present(#[trigger] self.spec_strm()[j], s, 7, j) && (
            self.spec_strm()[j] matches Some(r) ==> r == strm_of(s, info_o(s, 7, j)))
    }
}

/// The archive's tables before its records: the INFO offset, the
/// allocation table, the labels, and the INFO sub-list table.
struct SdatLayout<'a> {
    info: usize,
    own: usize,
    files: Vec<(u32, u32)>,
    has_symbols: bool,
    names: Vec<Vec<Option<&'a str>>>,
    rels: Vec<u32>,
    lists: Vec<Vec<u32>>,
}

/// Whether the archive's tables before its records are well formed.
pub open spec fn sdat_layout_ok(s: Seq<u8>) -> bool {
    &&& sdat_head_ok(s)
    &&& sdat_blocks_ok(s)
    &&& sdat_fat_ok(s)
    &&& has_symb(s) ==> symb_ok(s)
    &&& info_ok(s)
    &&& regions_ok(s)
}

/// Reads the archive's tables before its records.
fn read_layout<'a>(data: &'a [u8]) -> (res: Result<SdatLayout<'a>, NdsError>)
    ensures
        res is Ok <==> sdat_layout_ok(data@),
        res matches Ok(l) ==> {
            &&& l.info == info_off(data@)
            &&& l.own == info_own(data@)
            &&& l.info + l.own <= data.len()
            &&& files_are(l.files@, data@)
            &&& forall|i: int|
                0 <= i < l.files@.len() ==> #[trigger] l.files@[i].1 == 0 || l.files@[i].0 + l.files@[i].1
                    <= data@.len()
            &&& l.has_symbols == has_symb(data@)
            &&& l.names@.len() == 8
            &&& has_symb(data@) ==> forall|i: int| 0 <= i < 8 ==> #[trigger] labels_are(l.names@[i]@, data@, i)
            &&& !has_symb(data@) ==> forall|i: int| 0 <= i < 8 ==> (#[trigger] l.names@[i])@.len() == 0
            &&& l.rels@.len() == 8
            &&& l.lists@.len() == 8
            &&& forall|i: int| 0 <= i < 8 ==> #[trigger] l.rels@[i] == info_rel(data@, i)
            &&& forall|i: int| 0 <= i < 8 ==> #[trigger] offsets_are(l.lists@[i]@, data@, i)
        },
{
    let ghost s = data@;
    let (info, fat, file) = read_sdat_head(data)?;
    let files = read_fat(data, fat, file)?;
    proof {
        assert forall|i: int|
            0 <= i < files@.len() implies #[trigger] files@[i].1 == 0 || files@[i].0 + files@[i].1 <= s.len() by {
            assert(fat_entry_ok(s, i));
        }
    }
    let has_symbols = !(u32le(data, 0x10)? == 0 && u32le(data, 0x14)? == 0);
    let mut names: Vec<Vec<Option<&'a str>>> = Vec::new();
    if has_symbols {
        names = read_symbols(data)?;
    } else {
        let mut i: usize = 0;
        while i < 8
            invariant
                i <= 8,
                names@.len() == i,
                forall|k: int| 0 <= k < i ==> (#[trigger] names@[k])@.len() == 0,
            decreases 8 - i,
        {
            names.push(Vec::new());
            i = i + 1;
        }
    }
    let own = u32le(data, info + 4)? as usize;
    let (rels, lists) = read_info_lists(data, info)?;
    check_regions(data, &rels, &lists, own)?;
    Ok(SdatLayout { info, own, files, has_symbols, names, rels, lists })
}

/// The archive's records.
struct SdatRecords {
    seq: Vec<Option<SseqInfo>>,
    seq_arc: Vec<Option<SeqArcInfo>>,
    bank: Vec<Option<BankInfo>>,
    wave_arc: Vec<Option<SwarInfo>>,
    player: Vec<Option<PlayerInfo>>,
    group: Vec<Option<Vec<GroupItem>>>,
    strm: Vec<Option<StrmInfo>>,
}

/// Whether `r` holds the records of `s`.
spec fn records_are(r: SdatRecords, s: Seq<u8>) -> bool {
    &&& r.seq@.len() == info_count(s, 0)
    &&& forall|j: int|
        0 <= j < info_count(s, 0) ==> present(#[trigger] r.seq@[j], s, 0, j) && (r.seq@[j] matches Some(x)
            ==> x == seq_of(s, info_o(s, 0, j)))
    &&& r.seq_arc@.len() == info_count(s, 1)
    &&& forall|j: int|
        0 <= j < info_count(s, 1) ==> present(#[trigger] r.seq_arc@[j], s, 1, j) && (r.seq_arc@[j] matches Some(
            x,
        ) ==> x.file_id == spec_u16le(s, info_off(s) + info_o(s, 1, j)))
    &&& r.bank@.len() == info_count(s, 2)
    &&& forall|j: int|
        0 <= j < info_count(s, 2) ==> present(#[trigger] r.bank@[j], s, 2, j) && (r.bank@[j] matches Some(x)
            ==> bank_is(x, s, info_o(s, 2, j)))
    &&& r.wave_arc@.len() == info_count(s, 3)
    &&& forall|j: int|
        0 <= j < info_count(s, 3) ==> present(#[trigger] r.wave_arc@[j], s, 3, j) && (r.wave_arc@[j] matches Some(
            x,
        ) ==> x.file_id == spec_u16le(s, info_off(s) + info_o(s, 3, j)))
    &&& r.player@.len() == info_count(s, 4)
    &&& forall|j: int|
        0 <= j < info_count(s, 4) ==> present(#[trigger] r.player@[j], s, 4, j) && (r.player@[j] matches Some(x)
            ==> x == player_of(s, info_o(s, 4, j)))
    &&& r.group@.len() == info_count(s, 5)
    &&& forall|j: int|
        0 <= j < info_count(s, 5) ==> present(#[trigger] r.group@[j], s, 5, j) && (r.group@[j] matches Some(x)
            ==> group_is(x@, s, info_o(s, 5, j)))
    &&& r.strm@.len() == info_count(s, 7)
    &&& forall|j: int|
        0 <= j < info_count(s, 7) ==> present(#[trigger] r.strm@[j], s, 7, j) && (r.strm@[j] matches Some(x)
            ==> x == strm_of(s, info_o(s, 7, j)))
}

/// Reads every record.
#[verifier::rlimit(40)]
fn read_records(data: &[u8], l: &SdatLayout) -> (res: Result<SdatRecords, NdsError>)
    requires
        sdat_layout_ok(data@),
        l.info == info_off(data@),
        l.own == info_own(data@),
        l.info + l.own <= data.len(),
        files_are(l.files@, data@),
        l.rels@.len() == 8,
        l.lists@.len() == 8,
        forall|i: int| 0 <= i < 8 ==> #[trigger] l.rels@[i] == info_rel(data@, i),
        forall|i: int| 0 <= i < 8 ==> #[trigger] offsets_are(l.lists@[i]@, data@, i),
    ensures
        res is Ok <==> records_ok(data@),
        res matches Ok(r) ==> records_are(r, data@),
{
    let ghost s = data@;
    let info = l.info;
    assert(offsets_are(l.lists@[0]@, s, 0));
    assert(offsets_are(l.lists@[1]@, s, 1));
    assert(offsets_are(l.lists@[2]@, s, 2));
    assert(offsets_are(l.lists@[3]@, s, 3));
    assert(offsets_are(l.lists@[4]@, s, 4));
    assert(offsets_are(l.lists@[5]@, s, 5));
    assert(offsets_are(l.lists@[7]@, s, 7));
    assert(info_list_ok(s, 7));
    assert(info_rel(s, 6) < info_rel(s, 7));
    assert(l.rels@[6] == info_rel(s, 6));
    let seq = match read_seqs(data, info, &l.lists[0], &l.files, l.lists[2].len(), l.lists[4].len()) {
        Ok(v) => v,
        Err(e) => {
            return Err(e);
        },
    };
    let seq_arc = read_seq_arcs(data, info, &l.lists[1], &l.files)?;
    let bank = read_banks(data, info, &l.lists[2], &l.files, l.lists[3].len())?;
    let wave_arc = read_swars(data, info, &l.lists[3], &l.files)?;
    let player = read_players(data, info, &l.lists[4])?;
    let limits: [usize; 4] = [l.lists[0].len(), l.lists[2].len(), l.lists[3].len(), l.lists[1].len()];
    let group = read_groups(data, info, &l.lists[5], l.rels[6] as u64, &limits)?;
    let strm = read_strms(data, info, &l.lists[7], &l.files)?;
    assert(records_ok(s)) by {
        assert forall|i: int, j: int| 0 <= i < 8 && 0 <= j < info_count(s, i) implies #[trigger] record_ok(s, i, j) by {
            assert(offsets_are(l.lists@[i]@, s, i));
        }
    }
    Ok(SdatRecords { seq, seq_arc, bank, wave_arc, player, group, strm })
}

impl<'a> Sdat<'a> {
    /// Parses a complete sound archive: the header and the block chain,
    /// the allocation table, the labels (when there is a SYMB block), the
    /// INFO sub-list table and every record, enforcing that records lie
    /// in their regions, that records pointing at files point at files of
    /// their magic, that indices are in range, and that an entry is named
    /// exactly when its record is present.
    pub fn parse(data: &'a [u8]) -> (res: Result<Self, NdsError>)
        ensures
            res is Ok <==> sdat_ok(data@),
            res matches Ok(sd) ==> sd.parsed_from(data@),
    {
        let ghost s = data@;
        let l = read_layout(data)?;
        let r = read_records(data, &l)?;
        if l.has_symbols {
            check_names(data, &l.names, &l.lists)?;
        }
        Ok(assemble(data, l, r))
    }
}

/// The archive of `data` from its tables and records.
fn assemble<'a>(data: &'a [u8], l: SdatLayout<'a>, r: SdatRecords) -> (sd: Sdat<'a>)
    requires
        records_are(r, data@),
        files_are(l.files@, data@),
        forall|i: int|
            0 <= i < l.files@.len() ==> #[trigger] l.files@[i].1 == 0 || l.files@[i].0 + l.files@[i].1
                <= data@.len(),
        l.has_symbols == has_symb(data@),
        l.names@.len() == 8,
        has_symb(data@) ==> forall|i: int| 0 <= i < 8 ==> #[trigger] labels_are(l.names@[i]@, data@, i),
        !has_symb(data@) ==> forall|i: int| 0 <= i < 8 ==> (#[trigger] l.names@[i])@.len() == 0,
    ensures
        sd.parsed_from(data@),
{
    let sd = Sdat {
        data,
        files: l.files,
        has_symbols: l.has_symbols,
        names: l.names,
        seq: r.seq,
        seq_arc: r.seq_arc,
        bank: r.bank,
        wave_arc: r.wave_arc,
        player: r.player,
        group: r.group,
        strm: r.strm,
    };
    proof {
        lemma_parsed(sd, r, data@);
    }
    sd
}

/// The archive assembled from the records of `s` is parsed from `s`.
proof fn lemma_parsed(sd: Sdat, r: SdatRecords, s: Seq<u8>)
    requires
        records_are(r, s),
        sd.seq == r.seq,
        sd.seq_arc == r.seq_arc,
        sd.bank == r.bank,
        sd.wave_arc == r.wave_arc,
        sd.player == r.player,
        sd.group == r.group,
        sd.strm == r.strm,
        sd.data@ == s,
        sd.has_symbols == has_symb(s),
        files_are(sd.files@, s),
        sd.names@.len() == 8,
        has_symb(s) ==> forall|i: int| 0 <= i < 8 ==> #[trigger] labels_are(sd.names@[i]@, s, i),
        !has_symb(s) ==> forall|i: int| 0 <= i < 8 ==> (#[trigger] sd.names@[i])@.len() == 0,
    ensures
        sd.parsed_from(s),
{
    assert forall|i: int, j: int| 0 <= i < 8 && 0 <= j implies #[trigger] sd.spec_name(i, j) == if has_symb(s)
        && j < sym_count(s, i) {
        sym_name(s, i, j)
    } else {
        None
    } by {
        if has_symb(s) {
            assert(labels_are(sd.names@[i]@, s, i));
        } else {
            assert(sd.names@[i]@.len() == 0);
        }
    }
    assert forall|j: int| 0 <= j < info_count(s, 5) implies present(#[trigger] sd.spec_group()[j], s, 5, j) && (
    sd.spec_group()[j] matches Some(x) ==> group_is(x, s, info_o(s, 5, j))) by {
        assert(present(r.group@[j], s, 5, j));
    }
}

impl<'a> Sdat<'a> {
    /// The label of entry `id` of list `list`, if any.
    fn name(&self, list: usize, id: usize) -> (res: Option<&'a str>)
        ensures
            match res {
                Some(n) => self.spec_name(list as int, id as int) == Some(n@),
                None => self.spec_name(list as int, id as int) is None,
            },
    {
        if list < self.names.len() && id < self.names[list].len() {
            self.names[list][id]
        } else {
            None
        }
    }

    /// The raw archive bytes.
    pub fn raw(&self) -> (res: &'a [u8])
        ensures
            res@ == self.spec_raw(),
    {
        self.data
    }

    /// Whether the archive carries a SYMB block.
    pub fn has_symbols(&self) -> (res: bool)
        ensures
            res == self.spec_has_symbols(),
    {
        self.has_symbols
    }

    /// The number of files in the allocation table.
    pub fn file_count(&self) -> (res: usize)
        ensures
            res == self.spec_files().len(),
    {
        self.files.len()
    }

    /// The bytes of file `id`, or `None` for an empty entry or an
    /// out-of-range id.
    pub fn file(&self, id: usize) -> (res: Option<&'a [u8]>)
        ensures
            id < self.spec_files().len() && self.spec_files()[id as int].1 != 0 ==> (res matches Some(f) && f@
                == self.spec_raw().subrange(
                self.spec_files()[id as int].0 as int,
                self.spec_files()[id as int].0 + self.spec_files()[id as int].1,
            )),
            !(id < self.spec_files().len() && self.spec_files()[id as int].1 != 0) ==> res is None,
    {
        proof {
            use_type_invariant(self);
        }
        if id >= self.files.len() {
            return None;
        }
        let (off, size) = self.files[id];
        if size == 0 {
            return None;
        }
        if off as u64 + size as u64 > self.data.len() as u64 {
            return None;
        }
        Some(slice_range(self.data, off as usize, off as usize + size as usize))
    }

    /// The number of SEQ entries (named and unnamed alike).
    pub fn seq_count(&self) -> (res: usize)
        ensures
            res == self.spec_seq().len(),
    {
        self.seq.len()
    }

    /// The SEQ record of entry `id`, if its record is present.
    pub fn seq(&self, id: usize) -> (res: Option<SseqInfo>)
        ensures
            res == if id < self.spec_seq().len() {
                self.spec_seq()[id as int]
            } else {
                None
            },
    {
        if id < self.seq.len() {
            self.seq[id]
        } else {
            None
        }
    }

    /// The label of SEQ entry `id`, if the archive names it.
    pub fn seq_name(&self, id: usize) -> (res: Option<&'a str>)
        ensures
            match res {
                Some(n) => self.spec_name(0, id as int) == Some(n@),
                None => self.spec_name(0, id as int) is None,
            },
    {
        self.name(0, id)
    }

    /// The number of SEQARC entries (named and unnamed alike).
    pub fn seq_arc_count(&self) -> (res: usize)
        ensures
            res == self.spec_seq_arc().len(),
    {
        self.seq_arc.len()
    }

    /// The SEQARC record of entry `id`, if its record is present.
    pub fn seq_arc(&self, id: usize) -> (res: Option<SeqArcInfo>)
        ensures
            res == if id < self.spec_seq_arc().len() {
                self.spec_seq_arc()[id as int]
            } else {
                None
            },
    {
        if id < self.seq_arc.len() {
            self.seq_arc[id]
        } else {
            None
        }
    }

    /// The label of SEQARC entry `id`, if the archive names it.
    pub fn seq_arc_name(&self, id: usize) -> (res: Option<&'a str>)
        ensures
            match res {
                Some(n) => self.spec_name(1, id as int) == Some(n@),
                None => self.spec_name(1, id as int) is None,
            },
    {
        self.name(1, id)
    }

    /// The number of BANK entries (named and unnamed alike).
    pub fn bank_count(&self) -> (res: usize)
        ensures
            res == self.spec_bank().len(),
    {
        self.bank.len()
    }

    /// The BANK record of entry `id`, if its record is present.
    pub fn bank(&self, id: usize) -> (res: Option<BankInfo>)
        ensures
            res == if id < self.spec_bank().len() {
                self.spec_bank()[id as int]
            } else {
                None
            },
    {
        if id < self.bank.len() {
            self.bank[id]
        } else {
            None
        }
    }

    /// The label of BANK entry `id`, if the archive names it.
    pub fn bank_name(&self, id: usize) -> (res: Option<&'a str>)
        ensures
            match res {
                Some(n) => self.spec_name(2, id as int) == Some(n@),
                None => self.spec_name(2, id as int) is None,
            },
    {
        self.name(2, id)
    }

    /// The number of WAVEARC entries (named and unnamed alike).
    pub fn wave_arc_count(&self) -> (res: usize)
        ensures
            res == self.spec_wave_arc().len(),
    {
        self.wave_arc.len()
    }

    /// The WAVEARC record of entry `id`, if its record is present.
    pub fn wave_arc(&self, id: usize) -> (res: Option<SwarInfo>)
        ensures
            res == if id < self.spec_wave_arc().len() {
                self.spec_wave_arc()[id as int]
            } else {
                None
            },
    {
        if id < self.wave_arc.len() {
            self.wave_arc[id]
        } else {
            None
        }
    }

    /// The label of WAVEARC entry `id`, if the archive names it.
    pub fn wave_arc_name(&self, id: usize) -> (res: Option<&'a str>)
        ensures
            match res {
                Some(n) => self.spec_name(3, id as int) == Some(n@),
                None => self.spec_name(3, id as int) is None,
            },
    {
        self.name(3, id)
    }

    /// The number of PLAYER entries (named and unnamed alike).
    pub fn player_count(&self) -> (res: usize)
        ensures
            res == self.spec_player().len(),
    {
        self.player.len()
    }

    /// The PLAYER record of entry `id`, if its record is present.
    pub fn player(&self, id: usize) -> (res: Option<PlayerInfo>)
        ensures
            res == if id < self.spec_player().len() {
                self.spec_player()[id as int]
            } else {
                None
            },
    {
        if id < self.player.len() {
            self.player[id]
        } else {
            None
        }
    }

    /// The label of PLAYER entry `id`, if the archive names it.
    pub fn player_name(&self, id: usize) -> (res: Option<&'a str>)
        ensures
            match res {
                Some(n) => self.spec_name(4, id as int) == Some(n@),
                None => self.spec_name(4, id as int) is None,
            },
    {
        self.name(4, id)
    }

    /// The number of STRM entries (named and unnamed alike).
    pub fn strm_count(&self) -> (res: usize)
        ensures
            res == self.spec_strm().len(),
    {
        self.strm.len()
    }

    /// The STRM record of entry `id`, if its record is present.
    pub fn strm(&self, id: usize) -> (res: Option<StrmInfo>)
        ensures
            res == if id < self.spec_strm().len() {
                self.spec_strm()[id as int]
            } else {
                None
            },
    {
        if id < self.strm.len() {
            self.strm[id]
        } else {
            None
        }
    }

    /// The label of STRM entry `id`, if the archive names it.
    pub fn strm_name(&self, id: usize) -> (res: Option<&'a str>)
        ensures
            match res {
                Some(n) => self.spec_name(7, id as int) == Some(n@),
                None => self.spec_name(7, id as int) is None,
            },
    {
        self.name(7, id)
    }

    /// The number of GROUP entries.
    pub fn group_count(&self) -> (res: usize)
        ensures
            res == self.spec_group().len(),
    {
        self.group.len()
    }

    /// The items of GROUP entry `id`, if its record is present.
    pub fn group(&self, id: usize) -> (res: Option<&[GroupItem]>)
        ensures
            match res {
                Some(v) => id < self.spec_group().len() && self.spec_group()[id as int] == Some(v@),
                None => !(id < self.spec_group().len() && self.spec_group()[id as int] is Some),
            },
    {
        if id < self.group.len() {
            match &self.group[id] {
                Some(v) => Some(v.as_slice()),
                None => None,
            }
        } else {
            None
        }
    }

    /// The label of GROUP entry `id`, if the archive names it.
    pub fn group_name(&self, id: usize) -> (res: Option<&'a str>)
        ensures
            match res {
                Some(n) => self.spec_name(5, id as int) == Some(n@),
                None => self.spec_name(5, id as int) is None,
            },
    {
        self.name(5, id)
    }
}

} // verus!

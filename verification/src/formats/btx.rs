//! BTX — NNS-G3D texture archive (`NSBTX`, magic `BTX0`).
//!
//! A 3D resource file: the magic is the literal `BTX0` and after the
//! 0x10-byte header comes a block-offset table. A retail file carries
//! exactly one block, `TEX0`, at 0x14, which ends the file:
//!
//! ```text
//! +0x00 4  "BTX0"   +0x04 2  bom 0xFEFF   +0x06 2  version (0x0001)
//! +0x08 4  fileSize (== file length)      +0x0C 2  headerSize 0x10
//! +0x0E 2  block count (1)                +0x10 4  blockOffset (0x14)
//! ```
//!
//! `TEX0`, offsets relative to the block start:
//!
//! ```text
//! +0x00 4  "TEX0"   +0x04 4  size (block ends the file)
//! +0x08   texInfo:    u32 vramKey(0), u16 sizeTex (texture bytes/8),
//!                     u16 ofsDict (0x3C), u32 flag(0), u32 ofsTex
//! +0x18   tex4x4Info: u32 vramKey(0), u16 sizeTex (0), u16 ofsDict
//!                     (0x3C), u32 flag(0), u32 ofsTex, u32 ofsTexPlttIdx
//!                     (the last two are not validated and kept as read)
//! +0x2C   plttInfo:   u32 vramKey(0), u16 sizePltt (palette bytes/8),
//!                     u16 flag (bit 15 = USEPLTT4), u16 ofsDict,
//!                     u16 dummy(0), u32 ofsPlttData
//! +0x3C   texture dictionary, then the palette dictionary, then the
//!         texture data (sizeTex*8), then the palette data (sizePltt*8)
//!         ending the file, each region exactly abutting.
//! ```
//!
//! A dictionary (offsets dictionary-relative):
//!
//! ```text
//! +0x00 1  revision (0)   +0x01 1  numEntry (at least 1)
//! +0x02 2  sizeDictBlk    +0x04 2  dummy (8)
//! +0x06 2  ofsEntry == 12 + 4*numEntry
//! +0x08    (numEntry+1) trie nodes, 4 bytes each (kept as read)
//! +ofsEntry  u16 sizeUnit (8 textures, 4 palettes), u16 ofsName
//!            (== 4 + sizeUnit*numEntry)
//! +ofsEntry+4  numEntry payloads of sizeUnit bytes
//! +ofsEntry+ofsName  numEntry 16-byte NUL-padded name slots (printable
//!            ASCII; a name may fill the slot)
//! sizeDictBlk == ofsEntry + ofsName + 16*numEntry
//! ```
//!
//! Texture payloads are `TEXIMAGE_PARAM` (image offset/8 in bits 0–15,
//! zero bits 16–19, width/height exponents in bits 20–22 and 23–25 with
//! the side `8 << exp`, `GXTexFmt` in bits 26–28, color0-transparent in
//! bit 29, zero bits 30–31) and a second word (width in bits 0–10,
//! height in bits 11–21, zero bits 22–30, bit 31 set). Every offset lies
//! inside its data area and some texture starts at offset 0; a
//! texture's declared span may run past the texture data, and its bytes
//! are then clamped to the area. Palette payloads are a `u16` base
//! (offset/8, bits 13–15 zero) and a `u16` word kept as read.

use vstd::prelude::*;
use vstd::utf8::*;
use vstd::string::StringSliceAdditionalSpecFns;
use crate::formats::ncer::zeros;
use crate::nds::{
    NdsError, utf8, str_eq, spec_u16le, spec_u32le, u16le, u32le, slice_range, spec_magic, has_magic, le16,
    le32, push_le16, push_le32, push_bytes, magic_vec, push_magic, lemma_u16le_bytes, lemma_u32le_bytes, lemma_subrange_concat,
};

verus! {

/// A texture pixel format (`GXTexFmt`); COMP4x4 and DIRECT are not
/// accepted.
#[derive(Debug, Clone, Copy, PartialEq, Eq, Hash, Structural)]
pub enum TexFmt {
    /// 3-bit alpha, 5-bit index, 8 bpp (raw 1).
    A3i5,
    /// 4-color indexed, 4 bpp (raw 2).
    Pltt4,
    /// 16-color indexed, 4 bpp (raw 3).
    Pltt16,
    /// 256-color indexed, 8 bpp (raw 4).
    Pltt256,
    /// 5-bit alpha, 3-bit index, 8 bpp (raw 6).
    A5i3,
}

/// Whether a raw `GXTexFmt` is accepted.
pub open spec fn tex_fmt_valid(raw: int) -> bool {
    raw == 1 || raw == 2 || raw == 3 || raw == 4 || raw == 6
}

/// The format a valid raw value names.
pub open spec fn tex_fmt_of(raw: int) -> TexFmt {
    if raw == 1 {
        TexFmt::A3i5
    } else if raw == 2 {
        TexFmt::Pltt4
    } else if raw == 3 {
        TexFmt::Pltt16
    } else if raw == 4 {
        TexFmt::Pltt256
    } else {
        TexFmt::A5i3
    }
}

/// The raw value of a format.
pub open spec fn tex_fmt_raw(f: TexFmt) -> u32 {
    match f {
        TexFmt::A3i5 => 1,
        TexFmt::Pltt4 => 2,
        TexFmt::Pltt16 => 3,
        TexFmt::Pltt256 => 4,
        TexFmt::A5i3 => 6,
    }
}

/// Bits per pixel of a format.
pub open spec fn tex_bpp(f: TexFmt) -> int {
    match f {
        TexFmt::Pltt4 | TexFmt::Pltt16 => 4,
        _ => 8,
    }
}

impl TexFmt {
    /// Decodes a raw `GXTexFmt`; fails for formats not accepted.
    pub fn from_raw(raw: u32) -> (res: Result<Self, NdsError>)
        ensures
            res is Ok <==> tex_fmt_valid(raw as int),
            res matches Ok(f) ==> f == tex_fmt_of(raw as int),
    {
        if raw == 1 {
            Ok(TexFmt::A3i5)
        } else if raw == 2 {
            Ok(TexFmt::Pltt4)
        } else if raw == 3 {
            Ok(TexFmt::Pltt16)
        } else if raw == 4 {
            Ok(TexFmt::Pltt256)
        } else if raw == 6 {
            Ok(TexFmt::A5i3)
        } else {
            Err(NdsError::Invalid { what: "GXTexFmt not accepted (no COMP4x4/DIRECT textures)" })
        }
    }

    /// The raw value (the inverse of [`TexFmt::from_raw`]).
    pub fn raw(self) -> (res: u32)
        ensures
            res == tex_fmt_raw(self),
    {
        match self {
            TexFmt::A3i5 => 1,
            TexFmt::Pltt4 => 2,
            TexFmt::Pltt16 => 3,
            TexFmt::Pltt256 => 4,
            TexFmt::A5i3 => 6,
        }
    }

    /// Bits per pixel: 4 or 8.
    pub fn bpp(self) -> (res: u8)
        ensures
            res == tex_bpp(self),
    {
        match self {
            TexFmt::Pltt4 | TexFmt::Pltt16 => 4,
            _ => 8,
        }
    }
}

/// The side `8 << exp` of a texture.
pub open spec fn tex_side(exp: int) -> int {
    if exp == 0 {
        8
    } else if exp == 1 {
        16
    } else if exp == 2 {
        32
    } else if exp == 3 {
        64
    } else if exp == 4 {
        128
    } else if exp == 5 {
        256
    } else if exp == 6 {
        512
    } else {
        1024
    }
}

fn side_of(exp: u32) -> (res: u32)
    requires
        exp < 8,
    ensures
        res == tex_side(exp as int),
{
    if exp == 0 {
        8
    } else if exp == 1 {
        16
    } else if exp == 2 {
        32
    } else if exp == 3 {
        64
    } else if exp == 4 {
        128
    } else if exp == 5 {
        256
    } else if exp == 6 {
        512
    } else {
        1024
    }
}

/// The exponent of a side (the inverse of [`tex_side`] on sides).
pub open spec fn tex_exp(side: int) -> int {
    if side == 8 {
        0
    } else if side == 16 {
        1
    } else if side == 32 {
        2
    } else if side == 64 {
        3
    } else if side == 128 {
        4
    } else if side == 256 {
        5
    } else if side == 512 {
        6
    } else {
        7
    }
}

fn exp_of(side: u16) -> (res: u32)
    ensures
        res == tex_exp(side as int),
{
    if side == 8 {
        0
    } else if side == 16 {
        1
    } else if side == 32 {
        2
    } else if side == 64 {
        3
    } else if side == 128 {
        4
    } else if side == 256 {
        5
    } else if side == 512 {
        6
    } else {
        7
    }
}

/// One texture dictionary entry; its bytes are clamped to the
/// texture-data area.
#[derive(Debug)]
pub struct BtxTexture<'a> {
    name: &'a str,
    offset: usize,
    declared_size: usize,
    width: u16,
    height: u16,
    fmt: TexFmt,
    color0_transparent: bool,
    data: &'a [u8],
}

impl<'a> BtxTexture<'a> {
    /// The name.
    pub closed spec fn spec_name(&self) -> &'a str {
        self.name
    }

    /// The offset in the texture data, in bytes.
    pub closed spec fn spec_offset(&self) -> usize {
        self.offset
    }

    /// The declared size.
    pub closed spec fn spec_declared_size(&self) -> usize {
        self.declared_size
    }

    /// The width.
    pub closed spec fn spec_width(&self) -> u16 {
        self.width
    }

    /// The height.
    pub closed spec fn spec_height(&self) -> u16 {
        self.height
    }

    /// The format.
    pub closed spec fn spec_fmt(&self) -> TexFmt {
        self.fmt
    }

    /// Whether index 0 is transparent.
    pub closed spec fn spec_color0(&self) -> bool {
        self.color0_transparent
    }

    /// The image bytes.
    pub closed spec fn spec_data(&self) -> Seq<u8> {
        self.data@
    }

    /// The texture's name (its NUL-padded 16-byte slot).
    pub fn name(&self) -> (res: &'a str)
        ensures
            res == self.spec_name(),
    {
        self.name
    }

    /// Offset of the image data within the texture data, in bytes.
    pub fn offset(&self) -> (res: usize)
        ensures
            res == self.spec_offset(),
    {
        self.offset
    }

    /// The declared size, `width * height * bpp / 8`.
    pub fn declared_size(&self) -> (res: usize)
        ensures
            res == self.spec_declared_size(),
    {
        self.declared_size
    }

    /// The width in pixels: a power of two from 8 to 256.
    pub fn width(&self) -> (res: u16)
        ensures
            res == self.spec_width(),
    {
        self.width
    }

    /// The height in pixels.
    pub fn height(&self) -> (res: u16)
        ensures
            res == self.spec_height(),
    {
        self.height
    }

    /// The pixel format.
    pub fn fmt(&self) -> (res: TexFmt)
        ensures
            res == self.spec_fmt(),
    {
        self.fmt
    }

    /// Whether index 0 renders as transparent (`TEXIMAGE_PARAM` bit 29).
    pub fn color0_transparent(&self) -> (res: bool)
        ensures
            res == self.spec_color0(),
    {
        self.color0_transparent
    }

    /// The image data: the declared span, clamped to the texture data.
    pub fn data(&self) -> (res: &'a [u8])
        ensures
            res@ == self.spec_data(),
    {
        self.data
    }
}

/// One palette dictionary entry.
#[derive(Debug)]
pub struct BtxPalette<'a> {
    name: &'a str,
    offset: usize,
    word1: u16,
    data: &'a [u8],
}

impl<'a> BtxPalette<'a> {
    /// The name.
    pub closed spec fn spec_name(&self) -> &'a str {
        self.name
    }

    /// The offset in the palette data, in bytes.
    pub closed spec fn spec_offset(&self) -> usize {
        self.offset
    }

    /// The entry's second word.
    pub closed spec fn spec_word1(&self) -> u16 {
        self.word1
    }

    /// The palette bytes from the offset to the end of the area.
    pub closed spec fn spec_data(&self) -> Seq<u8> {
        self.data@
    }

    /// The palette's name (its NUL-padded 16-byte slot).
    pub fn name(&self) -> (res: &'a str)
        ensures
            res == self.spec_name(),
    {
        self.name
    }

    /// Offset of the palette within the palette data, in bytes.
    pub fn offset(&self) -> (res: usize)
        ensures
            res == self.spec_offset(),
    {
        self.offset
    }

    /// The entry's second word (0 or 1 on retail files).
    pub fn word1(&self) -> (res: u16)
        ensures
            res == self.spec_word1(),
    {
        self.word1
    }

    /// The palette data from this palette's offset to the end of the
    /// palette data (per-palette sizes are not stored).
    pub fn data(&self) -> (res: &'a [u8])
        ensures
            res@ == self.spec_data(),
    {
        self.data
    }
}

/// Whether `data` begins with a BTX0 header.
pub fn is_btx(data: &[u8]) -> (res: bool)
    ensures
        res == (data@.len() >= 6 && data@[0] == 0x42 && data@[1] == 0x54 && data@[2] == 0x58
            && data@[3] == 0x30 && data@[4] == 0xFF && data@[5] == 0xFE),
{
    data.len() >= 6 && data[0] == 0x42 && data[1] == 0x54 && data[2] == 0x58 && data[3] == 0x30
        && data[4] == 0xFF && data[5] == 0xFE
}

/// The first NUL of the 16-byte name slot at `slot`, from `k` on (16
/// when the name fills the slot).
pub open spec fn slot_nul(s: Seq<u8>, slot: int, k: int) -> int
    decreases 16 - k,
{
    if k < 0 || k >= 16 {
        16
    } else if s[slot + k] == 0 {
        k
    } else {
        slot_nul(s, slot, k + 1)
    }
}

/// The bytes of the name in the slot at `slot`.
pub open spec fn name_bytes(s: Seq<u8>, slot: int) -> Seq<u8> {
    s.subrange(slot, slot + slot_nul(s, slot, 0))
}

/// Whether the name in the slot at `slot` is printable ASCII.
pub open spec fn name_ok(s: Seq<u8>, slot: int) -> bool {
    &&& forall|k: int| 0 <= k < slot_nul(s, slot, 0) ==> 0x21 <= #[trigger] s[slot + k] <= 0x7E
    &&& valid_utf8(name_bytes(s, slot))
}

/// The entry count of the dictionary at `off`.
pub open spec fn dict_num(s: Seq<u8>, off: int) -> int {
    s[off + 1] as int
}

/// Where the entry header of the dictionary at `off` sits
/// (dictionary-relative).
pub open spec fn dict_entry(s: Seq<u8>, off: int) -> int {
    12 + 4 * dict_num(s, off)
}

/// The size of the dictionary at `off`.
pub open spec fn dict_blk(s: Seq<u8>, off: int) -> int {
    spec_u16le(s, off + 2) as int
}

/// Where name slot `i` of the dictionary at `off` sits.
pub open spec fn dict_slot(s: Seq<u8>, off: int, unit: int, i: int) -> int {
    off + dict_entry(s, off) + 4 + unit * dict_num(s, off) + 16 * i
}

/// Whether the dictionary at `off` with payloads of `unit` bytes is well
/// formed: every derived field, the bounds and the names.
pub open spec fn dict_ok(s: Seq<u8>, off: int, unit: int) -> bool {
    let num = dict_num(s, off);
    let e = dict_entry(s, off);
    &&& 0 <= off
    &&& off + 8 <= s.len()
    &&& s[off] == 0
    &&& num >= 1
    &&& spec_u16le(s, off + 4) == 8
    &&& spec_u16le(s, off + 6) == e
    &&& spec_u16le(s, off + e) == unit
    &&& spec_u16le(s, off + e + 2) == 4 + unit * num
    &&& dict_blk(s, off) == e + 4 + unit * num + 16 * num
    &&& off + dict_blk(s, off) <= s.len()
    &&& forall|i: int| 0 <= i < num ==> #[trigger] name_ok(s, dict_slot(s, off, unit, i))
}

/// A dictionary's derived layout.
struct Dict<'a> {
    num: usize,
    size_blk: usize,
    ofs_entry: usize,
    nodes: &'a [u8],
}

fn read_name<'a>(data: &'a [u8], slot: usize) -> (res: Result<&'a str, NdsError>)
    requires
        slot + 16 <= data.len(),
    ensures
        res is Ok <==> name_ok(data@, slot as int),
        res matches Ok(n) ==> n@ == decode_utf8(name_bytes(data@, slot as int)),
{
    let ghost s = data@;
    let mut k: usize = 0;
    while k < 16 && data[slot + k] != 0
        invariant
            slot + 16 <= data.len(),
            k <= 16,
            slot_nul(s, slot as int, 0) == slot_nul(s, slot as int, k as int),
            s == data@,
        decreases 16 - k,
    {
        k = k + 1;
    }
    assert(slot_nul(s, slot as int, 0) == k);
    let mut j: usize = 0;
    while j < k
        invariant
            slot + 16 <= data.len(),
            k <= 16,
            s == data@,
            k == slot_nul(s, slot as int, 0),
            j <= k,
            forall|m: int| 0 <= m < j ==> 0x21 <= #[trigger] s[slot + m] <= 0x7E,
        decreases k - j,
    {
        let b = data[slot + j];
        if b < 0x21 || b > 0x7E {
            return Err(NdsError::Invalid { what: "BTX0 dictionary name (not printable ASCII)" });
        }
        j = j + 1;
    }
    let bytes = slice_range(data, slot, slot + k);
    match utf8(bytes) {
        Some(n) => Ok(n),
        None => Err(NdsError::Invalid { what: "BTX0 dictionary name (not ASCII)" }),
    }
}

fn parse_dict<'a>(data: &'a [u8], off: usize, unit: usize) -> (res: Result<
    (Dict<'a>, Vec<&'a str>),
    NdsError,
>)
    ensures
        res is Ok <==> dict_ok(data@, off as int, unit as int),
        res matches Ok((d, names)) ==> {
            &&& d.num == dict_num(data@, off as int)
            &&& d.size_blk == dict_blk(data@, off as int)
            &&& d.ofs_entry == dict_entry(data@, off as int)
            &&& d.nodes@ == data@.subrange(off + 8, off + d.ofs_entry)
            &&& names@.len() == d.num
            &&& forall|i: int|
                0 <= i < d.num ==> #[trigger] names@[i]@ == decode_utf8(
                    name_bytes(data@, dict_slot(data@, off as int, unit as int, i)),
                )
        },
{
    let ghost s = data@;
    if off > data.len() || data.len() - off < 8 {
        return Err(NdsError::Truncated { what: "BTX0 dictionary header", need: off.saturating_add(8), got: data.len() });
    }
    if data[off] != 0 {
        return Err(NdsError::Invalid { what: "BTX0 dictionary revision (always 0)" });
    }
    let num = data[off + 1] as usize;
    if num == 0 {
        return Err(NdsError::Invalid { what: "BTX0 dictionary entry count" });
    }
    let size_blk = u16le(data, off + 2)? as usize;
    if u16le(data, off + 4)? != 8 {
        return Err(NdsError::Invalid { what: "BTX0 dictionary dummy field (always 8)" });
    }
    let ofs_entry = u16le(data, off + 6)? as usize;
    if ofs_entry != 12 + 4 * num {
        return Err(NdsError::Invalid { what: "BTX0 dictionary ofsEntry (must follow the trie nodes)" });
    }
    if unit > 0xFFFF {
        return Err(NdsError::Invalid { what: "BTX0 dictionary sizeUnit" });
    }
    proof {
        assert(unit * num <= 0xFFFF * 255) by (nonlinear_arith)
            requires
                unit <= 0xFFFF,
                num <= 255,
        ;
    }
    let ofs_name = 4 + unit * num;
    if size_blk != ofs_entry + ofs_name + 16 * num {
        return Err(NdsError::Invalid { what: "BTX0 dictionary sizeDictBlk (must end after the name slots)" });
    }
    if size_blk > data.len() - off {
        return Err(NdsError::Truncated { what: "BTX0 dictionary", need: off.saturating_add(size_blk), got: data.len() });
    }
    if u16le(data, off + ofs_entry)? as usize != unit {
        return Err(NdsError::Invalid { what: "BTX0 dictionary sizeUnit" });
    }
    if u16le(data, off + ofs_entry + 2)? as usize != ofs_name {
        return Err(NdsError::Invalid { what: "BTX0 dictionary ofsName (must follow the packed entries)" });
    }
    let names_base = off + ofs_entry + ofs_name;
    let mut names: Vec<&'a str> = Vec::new();
    let mut i: usize = 0;
    while i < num
        invariant
            s == data@,
            num == dict_num(s, off as int),
            ofs_entry == dict_entry(s, off as int),
            names_base == off + ofs_entry + 4 + unit * num,
            names_base + 16 * num <= data.len(),
            unit <= 0xFFFF,
            i <= num,
            names@.len() == i,
            forall|j: int| 0 <= j < i ==> #[trigger] name_ok(s, dict_slot(s, off as int, unit as int, j)),
            forall|j: int|
                0 <= j < i ==> #[trigger] names@[j]@ == decode_utf8(
                    name_bytes(s, dict_slot(s, off as int, unit as int, j)),
                ),
        decreases num - i,
    {
        let slot = names_base + 16 * i;
        assert(slot == dict_slot(s, off as int, unit as int, i as int));
        let name = match read_name(data, slot) {
            Ok(n) => n,
            Err(e) => {
                return Err(e);
            },
        };
        names.push(name);
        i = i + 1;
    }
    let nodes = slice_range(data, off + 8, off + ofs_entry);
    Ok((Dict { num, size_blk, ofs_entry, nodes }, names))
}

/// Whether the container and the three info records are well formed.
pub open spec fn btx_head_ok(s: Seq<u8>) -> bool {
    let flag = spec_u16le(s, 0x46);
    &&& s.len() >= 0x50
    &&& spec_magic(s, 0, 0x42, 0x54, 0x58, 0x30)
    &&& spec_u16le(s, 0x04) == 0xFEFF
    &&& spec_u16le(s, 0x06) == 1
    &&& spec_u32le(s, 0x08) == s.len()
    &&& spec_u16le(s, 0x0C) == 0x10
    &&& spec_u16le(s, 0x0E) == 1
    &&& spec_u32le(s, 0x10) == 0x14
    &&& spec_magic(s, 0x14, 0x54, 0x45, 0x58, 0x30)
    &&& 0x14 + spec_u32le(s, 0x18) == s.len()
    &&& spec_u32le(s, 0x1C) == 0
    &&& spec_u16le(s, 0x22) == 0x3C
    &&& spec_u32le(s, 0x24) == 0
    &&& spec_u32le(s, 0x2C) == 0
    &&& spec_u16le(s, 0x30) == 0
    &&& spec_u16le(s, 0x32) == 0x3C
    &&& spec_u32le(s, 0x34) == 0
    &&& spec_u32le(s, 0x40) == 0
    &&& (flag == 0 || flag == 0x8000)
    &&& spec_u16le(s, 0x4A) == 0
}

/// The texture data size field (in 8-byte units).
pub open spec fn size_tex(s: Seq<u8>) -> int {
    spec_u16le(s, 0x20) as int
}

/// The palette data size field (in 8-byte units).
pub open spec fn size_pltt(s: Seq<u8>) -> int {
    spec_u16le(s, 0x44) as int
}

/// The palette dictionary offset (block-relative).
pub open spec fn pltt_dict_off(s: Seq<u8>) -> int {
    spec_u16le(s, 0x48) as int
}

/// The texture data offset (block-relative).
pub open spec fn ofs_tex(s: Seq<u8>) -> int {
    spec_u32le(s, 0x28) as int
}

/// The palette data offset (block-relative).
pub open spec fn ofs_pltt(s: Seq<u8>) -> int {
    spec_u32le(s, 0x4C) as int
}

/// Whether the two dictionaries and the two data areas abut and the
/// palette data ends the file.
pub open spec fn btx_layout_ok(s: Seq<u8>) -> bool {
    &&& dict_ok(s, 0x50, 8)
    &&& pltt_dict_off(s) == 0x3C + dict_blk(s, 0x50)
    &&& dict_ok(s, 0x14 + pltt_dict_off(s), 4)
    &&& ofs_tex(s) == pltt_dict_off(s) + dict_blk(s, 0x14 + pltt_dict_off(s))
    &&& ofs_pltt(s) == ofs_tex(s) + size_tex(s) * 8
    &&& 0x14 + ofs_pltt(s) + size_pltt(s) * 8 == s.len()
}

/// The texture data area.
pub open spec fn tex_area(s: Seq<u8>) -> Seq<u8> {
    s.subrange(0x14 + ofs_tex(s), 0x14 + ofs_tex(s) + size_tex(s) * 8)
}

/// The palette data area.
pub open spec fn pltt_area(s: Seq<u8>) -> Seq<u8> {
    s.subrange(0x14 + ofs_pltt(s), s.len() as int)
}

/// Where the payload of texture `i` sits.
pub open spec fn tex_entry_at(s: Seq<u8>, i: int) -> int {
    0x50 + dict_entry(s, 0x50) + 4 + 8 * i
}

/// `TEXIMAGE_PARAM` of texture `i`.
pub open spec fn tex_param(s: Seq<u8>, i: int) -> int {
    spec_u32le(s, tex_entry_at(s, i)) as int
}

/// The size word of texture `i`.
pub open spec fn tex_word1(s: Seq<u8>, i: int) -> int {
    spec_u32le(s, tex_entry_at(s, i) + 4) as int
}

/// Whether the payload of texture `i` is well formed.
pub open spec fn tex_entry_ok(s: Seq<u8>, i: int) -> bool {
    let p = tex_param(s, i);
    let w = tex_word1(s, i);
    &&& (p / 0x10000) % 0x10 == 0
    &&& tex_fmt_valid((p / 0x4000000) % 8)
    &&& p / 0x40000000 == 0
    &&& (w / 0x400000) % 0x200 == 0
    &&& w / 0x80000000 == 1
    &&& (p / 0x100000) % 8 <= 5
    &&& w % 0x800 == tex_side((p / 0x100000) % 8)
    &&& (w / 0x800) % 0x800 == tex_side((p / 0x800000) % 8)
    &&& (p % 0x10000) * 8 < size_tex(s) * 8
}

/// Where the payload of palette `i` sits.
pub open spec fn pltt_entry_at(s: Seq<u8>, i: int) -> int {
    0x14 + pltt_dict_off(s) + dict_entry(s, 0x14 + pltt_dict_off(s)) + 4 + 4 * i
}

/// Whether the payload of palette `i` is well formed.
pub open spec fn pltt_entry_ok(s: Seq<u8>, i: int) -> bool {
    let b = spec_u16le(s, pltt_entry_at(s, i)) as int;
    &&& b < 0x2000
    &&& b * 8 < size_pltt(s) * 8
}

/// Whether every entry is well formed and some texture starts the
/// texture data.
#[verifier::opaque]
pub open spec fn btx_entries_ok(s: Seq<u8>) -> bool {
    &&& forall|i: int| 0 <= i < dict_num(s, 0x50) ==> #[trigger] tex_entry_ok(s, i)
    &&& exists|i: int| 0 <= i < dict_num(s, 0x50) && #[trigger] tex_param(s, i) % 0x10000 == 0
    &&& forall|i: int|
        0 <= i < dict_num(s, 0x14 + pltt_dict_off(s)) ==> #[trigger] pltt_entry_ok(s, i)
}

/// Whether `s` is a texture archive the parser accepts.
pub open spec fn btx_ok(s: Seq<u8>) -> bool {
    btx_head_ok(s) && btx_layout_ok(s) && btx_entries_ok(s)
}

/// Texture `t` is texture `i` of `s`.
pub open spec fn texture_parsed(t: BtxTexture, s: Seq<u8>, i: int) -> bool {
    let p = tex_param(s, i);
    let w = tex_word1(s, i);
    let fmt = tex_fmt_of((p / 0x4000000) % 8);
    let offset = (p % 0x10000) * 8;
    let width = w % 0x800;
    let height = (w / 0x800) % 0x800;
    let declared = width * height * tex_bpp(fmt) / 8;
    let area = tex_area(s);
    let end = if offset + declared < area.len() {
        offset + declared
    } else {
        area.len() as int
    };
    &&& t.spec_name()@ == decode_utf8(name_bytes(s, dict_slot(s, 0x50, 8, i)))
    &&& t.spec_offset() == offset
    &&& t.spec_declared_size() == declared
    &&& t.spec_width() == width
    &&& t.spec_height() == height
    &&& t.spec_fmt() == fmt
    &&& t.spec_color0() == ((p / 0x20000000) % 2 == 1)
    &&& t.spec_data() == area.subrange(offset, end)
}

/// Palette `q` is palette `i` of `s`.
pub open spec fn palette_parsed(q: BtxPalette, s: Seq<u8>, i: int) -> bool {
    let b = spec_u16le(s, pltt_entry_at(s, i)) as int;
    let off = 0x14 + pltt_dict_off(s);
    &&& q.spec_name()@ == decode_utf8(name_bytes(s, dict_slot(s, off, 4, i)))
    &&& q.spec_offset() == b * 8
    &&& q.spec_word1() == spec_u16le(s, pltt_entry_at(s, i) + 2)
    &&& q.spec_data() == pltt_area(s).subrange(b * 8, pltt_area(s).len() as int)
}

/// A parsed BTX texture archive. Borrows the file bytes; see
/// [`Btx::parse`].
#[derive(Debug)]
pub struct Btx<'a> {
    textures: Vec<BtxTexture<'a>>,
    palettes: Vec<BtxPalette<'a>>,
    tex_data: &'a [u8],
    pltt_data: &'a [u8],
    uses_pltt4: bool,
    tex_nodes: &'a [u8],
    pltt_nodes: &'a [u8],
    t44_ofs_tex: u32,
    t44_ofs_pltt_idx: u32,
}

/// The header fields a well-formed archive declares.
struct BtxHeader {
    size_tex: usize,
    ofs_tex: usize,
    t44_ofs_tex: u32,
    t44_ofs_pltt_idx: u32,
    size_pltt: usize,
    uses_pltt4: bool,
    pltt_dict_off: usize,
    ofs_pltt: usize,
}

fn read_btx_header(data: &[u8]) -> (res: Result<BtxHeader, NdsError>)
    ensures
        res is Ok <==> btx_head_ok(data@),
        res matches Ok(h) ==> {
            &&& h.size_tex == size_tex(data@)
            &&& h.ofs_tex == ofs_tex(data@)
            &&& h.t44_ofs_tex == spec_u32le(data@, 0x38)
            &&& h.t44_ofs_pltt_idx == spec_u32le(data@, 0x3C)
            &&& h.size_pltt == size_pltt(data@)
            &&& h.uses_pltt4 == (spec_u16le(data@, 0x46) == 0x8000)
            &&& h.pltt_dict_off == pltt_dict_off(data@)
            &&& h.ofs_pltt == ofs_pltt(data@)
        },
{
    if data.len() < 0x50 {
        return Err(NdsError::Truncated { what: "BTX0 container header", need: 0x50, got: data.len() });
    }
    if !has_magic(data, 0, 0x42, 0x54, 0x58, 0x30) {
        return Err(NdsError::Invalid { what: "not a BTX0 texture archive" });
    }
    if u16le(data, 0x04)? != 0xFEFF || u16le(data, 0x06)? != 1 || u32le(data, 0x08)? as usize
        != data.len() || u16le(data, 0x0C)? != 0x10 || u16le(data, 0x0E)? != 1 || u32le(data, 0x10)?
        != 0x14 {
        return Err(NdsError::Invalid { what: "BTX0 container header" });
    }
    if !has_magic(data, 0x14, 0x54, 0x45, 0x58, 0x30) {
        return Err(NdsError::Invalid { what: "BTX0 block is not a TEX0 texture block" });
    }
    if u32le(data, 0x18)? as usize != data.len() - 0x14 {
        return Err(NdsError::Invalid { what: "TEX0 block (must end the file)" });
    }
    if u32le(data, 0x1C)? != 0 || u16le(data, 0x22)? != 0x3C || u32le(data, 0x24)? != 0 {
        return Err(NdsError::Invalid { what: "TEX0 texInfo" });
    }
    let size_tex = u16le(data, 0x20)? as usize;
    let ofs_tex = u32le(data, 0x28)? as usize;
    if u32le(data, 0x2C)? != 0 || u16le(data, 0x30)? != 0 || u16le(data, 0x32)? != 0x3C || u32le(
        data,
        0x34,
    )? != 0 {
        return Err(NdsError::Invalid { what: "TEX0 tex4x4Info (no COMP4x4 textures)" });
    }
    let t44_ofs_tex = u32le(data, 0x38)?;
    let t44_ofs_pltt_idx = u32le(data, 0x3C)?;
    if u32le(data, 0x40)? != 0 {
        return Err(NdsError::Invalid { what: "TEX0 plttInfo vram key (always zero)" });
    }
    let size_pltt = u16le(data, 0x44)? as usize;
    let flag = u16le(data, 0x46)?;
    if flag != 0 && flag != 0x8000 {
        return Err(NdsError::Invalid { what: "TEX0 plttInfo flag (only bit 15, USEPLTT4, is defined)" });
    }
    let pltt_dict_off = u16le(data, 0x48)? as usize;
    if u16le(data, 0x4A)? != 0 {
        return Err(NdsError::Invalid { what: "TEX0 plttInfo dummy (always zero)" });
    }
    let ofs_pltt = u32le(data, 0x4C)? as usize;
    Ok(
        BtxHeader {
            size_tex,
            ofs_tex,
            t44_ofs_tex,
            t44_ofs_pltt_idx,
            size_pltt,
            uses_pltt4: flag == 0x8000,
            pltt_dict_off,
            ofs_pltt,
        },
    )
}

/// The texture-payload facts `read_textures` needs from the layout.
pub open spec fn tex_entries_fit(s: Seq<u8>) -> bool {
    &&& dict_ok(s, 0x50, 8)
    &&& tex_entry_at(s, dict_num(s, 0x50)) <= s.len()
}

fn read_textures<'a>(data: &'a [u8], area: &'a [u8], names: &Vec<&'a str>, num: usize, entries: usize) -> (res: Result<
    Vec<BtxTexture<'a>>,
    NdsError,
>)
    requires
        tex_entries_fit(data@),
        num == dict_num(data@, 0x50),
        entries == tex_entry_at(data@, 0),
        area@ == tex_area(data@),
        area@.len() == size_tex(data@) * 8,
        names@.len() == num,
        forall|i: int|
            0 <= i < num ==> #[trigger] names@[i]@ == decode_utf8(
                name_bytes(data@, dict_slot(data@, 0x50, 8, i)),
            ),
    ensures
        res is Ok <==> ((forall|i: int| 0 <= i < num ==> #[trigger] tex_entry_ok(data@, i)) && exists|
            i: int,
        | 0 <= i < num && #[trigger] tex_param(data@, i) % 0x10000 == 0),
        res matches Ok(ts) ==> {
            &&& ts@.len() == num
            &&& forall|i: int| 0 <= i < num ==> #[trigger] texture_parsed(ts@[i], data@, i)
            &&& forall|i: int| 0 <= i < num ==> #[trigger] tex_ok_fields(ts@[i])
        },
{
    let ghost s = data@;
    let mut ts: Vec<BtxTexture<'a>> = Vec::new();
    let mut found: bool = false;
    let mut i: usize = 0;
    while i < num
        invariant
            s == data@,
            tex_entries_fit(s),
            num == dict_num(s, 0x50),
            entries == tex_entry_at(s, 0),
            area@ == tex_area(s),
            area@.len() == size_tex(s) * 8,
            names@.len() == num,
            forall|j: int|
                0 <= j < num ==> #[trigger] names@[j]@ == decode_utf8(
                    name_bytes(s, dict_slot(s, 0x50, 8, j)),
                ),
            i <= num,
            ts@.len() == i,
            found == exists|j: int| 0 <= j < i && #[trigger] tex_param(s, j) % 0x10000 == 0,
            forall|j: int| 0 <= j < i ==> #[trigger] tex_entry_ok(s, j),
            forall|j: int| 0 <= j < i ==> #[trigger] texture_parsed(ts@[j], s, j),
            forall|j: int| 0 <= j < i ==> #[trigger] tex_ok_fields(ts@[j]),
        decreases num - i,
    {
        let at = entries + 8 * i;
        assert(at == tex_entry_at(s, i as int));
        let (t, p) = match read_texture(data, area, names[i], at, i) {
            Ok(r) => r,
            Err(e) => {
                return Err(e);
            },
        };
        ts.push(t);
        if p % 0x10000 == 0 {
            found = true;
        }
        i = i + 1;
    }
    if !found {
        return Err(NdsError::Invalid { what: "texture data (must start with the first texture)" });
    }
    Ok(ts)
}

#[verifier::rlimit(80)]
#[verifier::spinoff_prover]
fn read_texture<'a>(data: &'a [u8], area: &'a [u8], name: &'a str, at: usize, i: usize) -> (res: Result<
    (BtxTexture<'a>, u32),
    NdsError,
>)
    requires
        tex_entries_fit(data@),
        i < dict_num(data@, 0x50),
        at == tex_entry_at(data@, i as int),
        area@ == tex_area(data@),
        area@.len() == size_tex(data@) * 8,
        name@ == decode_utf8(name_bytes(data@, dict_slot(data@, 0x50, 8, i as int))),
    ensures
        res is Ok <==> tex_entry_ok(data@, i as int),
        res matches Ok((t, p)) ==> {
            &&& p == tex_param(data@, i as int)
            &&& texture_parsed(t, data@, i as int)
            &&& tex_ok_fields(t)
        },
{
    let ghost s = data@;
    proof {
        lemma_tex_entry_in_bounds(s, i as int);
    }
        let p = u32le(data, at)?;
        let w = u32le(data, at + 4)?;
        assert(p == tex_param(s, i as int));
        assert(w == tex_word1(s, i as int));
        if p / 0x10000 % 0x10 != 0 || p / 0x40000000 != 0 || w / 0x400000 % 0x200 != 0 || w / 0x80000000 != 1 {
            assert(!tex_entry_ok(s, i as int));
            return Err(NdsError::Invalid { what: "TEXIMAGE_PARAM reserved bits" });
        }
        let fmt = match TexFmt::from_raw(p / 0x4000000 % 8) {
            Ok(f) => f,
            Err(e) => {
                assert(!tex_entry_ok(s, i as int));
                return Err(e);
            },
        };
        if p / 0x100000 % 8 > 5 {
            assert(!tex_entry_ok(s, i as int));
            return Err(NdsError::Invalid { what: "TEXIMAGE_PARAM width (a power of two from 8 to 256)" });
        }
        let width = w % 0x800;
        let height = w / 0x800 % 0x800;
        if width != side_of(p / 0x100000 % 8) || height != side_of(p / 0x800000 % 8) {
            assert(!tex_entry_ok(s, i as int));
            return Err(NdsError::Invalid { what: "TEXIMAGE_PARAM size (width/height must equal 8<<exponent)" });
        }
        let offset = (p % 0x10000) as usize * 8;
        if offset >= area.len() {
            assert(!tex_entry_ok(s, i as int));
            return Err(NdsError::Invalid { what: "texture offset (outside the texture data)" });
        }
        proof {
            assert(width * height <= 1024 * 1024) by (nonlinear_arith)
                requires
                    width <= 1024,
                    height <= 1024,
            ;
        }
        let wh = width as usize * height as usize;
        let bpp = fmt.bpp() as usize;
        proof {
            assert(wh * bpp <= wh * 8) by (nonlinear_arith)
                requires
                    bpp <= 8,
            ;
        }
        let declared = wh * bpp / 8;
        let end = if declared < area.len() - offset {
            offset + declared
        } else {
            area.len()
        };
        let t = BtxTexture {
            name,
            offset,
            declared_size: declared,
            width: width as u16,
            height: height as u16,
            fmt,
            color0_transparent: p / 0x20000000 % 2 == 1,
            data: slice_range(area, offset, end),
        };
        assert(tex_entry_ok(s, i as int));
        assert(texture_parsed(t, s, i as int));
        proof {
            assert(name_ok(s, dict_slot(s, 0x50, 8, i as int)));
            lemma_name_fits(s, dict_slot(s, 0x50, 8, i as int));
            assert(tex_side((p / 0x100000 % 8) as int) == t.width);
            assert(tex_side((p / 0x800000 % 8) as int) == t.height);
        }
        Ok((t, p))
}

proof fn lemma_tex_entry_in_bounds(s: Seq<u8>, i: int)
    requires
        tex_entries_fit(s),
        0 <= i < dict_num(s, 0x50),
    ensures
        tex_entry_at(s, i) + 8 <= s.len(),
{
}

/// A slot's name, decoded and encoded again, is the slot bytes, at most
/// 16 of them.
proof fn lemma_name_fits(s: Seq<u8>, slot: int)
    requires
        name_ok(s, slot),
        0 <= slot,
        slot + 16 <= s.len(),
    ensures
        encode_utf8(decode_utf8(name_bytes(s, slot))) == name_bytes(s, slot),
        name_bytes(s, slot).len() <= 16,
{
    lemma_slot_nul_bounds(s, slot, 0);
    decode_utf8_encode_utf8(name_bytes(s, slot));
}

proof fn lemma_slot_nul_bounds(s: Seq<u8>, slot: int, k: int)
    requires
        0 <= k <= 16,
    ensures
        k <= slot_nul(s, slot, k) <= 16,
    decreases 16 - k,
{
    if k < 16 && s[slot + k] != 0 {
        lemma_slot_nul_bounds(s, slot, k + 1);
    }
}

/// The fields of a parsed texture that its serialized payload relies
/// on: sides that are powers of two from 8 (the width at most 256), an
/// 8-aligned 16-bit image offset, and a name that fits its slot.
pub open spec fn tex_ok_fields(t: BtxTexture) -> bool {
    &&& exists|e: int| 0 <= e <= 5 && tex_side(e) == t.spec_width()
    &&& exists|e: int| 0 <= e < 8 && tex_side(e) == t.spec_height()
    &&& t.spec_offset() % 8 == 0
    &&& t.spec_offset() / 8 < 0x10000
    &&& t.spec_name().spec_bytes().len() <= 16
}

fn read_palettes<'a>(data: &'a [u8], area: &'a [u8], names: &Vec<&'a str>, num: usize, entries: usize) -> (res: Result<
    Vec<BtxPalette<'a>>,
    NdsError,
>)
    requires
        dict_ok(data@, 0x14 + pltt_dict_off(data@), 4),
        num == dict_num(data@, 0x14 + pltt_dict_off(data@)),
        entries == pltt_entry_at(data@, 0),
        area@ == pltt_area(data@),
        area@.len() == size_pltt(data@) * 8,
        names@.len() == num,
        forall|i: int|
            0 <= i < num ==> #[trigger] names@[i]@ == decode_utf8(
                name_bytes(data@, dict_slot(data@, 0x14 + pltt_dict_off(data@), 4, i)),
            ),
    ensures
        res is Ok <==> forall|i: int| 0 <= i < num ==> #[trigger] pltt_entry_ok(data@, i),
        res matches Ok(ps) ==> {
            &&& ps@.len() == num
            &&& forall|i: int| 0 <= i < num ==> #[trigger] palette_parsed(ps@[i], data@, i)
            &&& forall|i: int| 0 <= i < num ==> #[trigger] pltt_ok_fields(ps@[i])
        },
{
    let ghost s = data@;
    let ghost off = 0x14 + pltt_dict_off(s);
    let mut ps: Vec<BtxPalette<'a>> = Vec::new();
    let mut i: usize = 0;
    while i < num
        invariant
            s == data@,
            off == 0x14 + pltt_dict_off(s),
            dict_ok(s, off, 4),
            num == dict_num(s, off),
            entries == pltt_entry_at(s, 0),
            area@ == pltt_area(s),
            area@.len() == size_pltt(s) * 8,
            names@.len() == num,
            forall|j: int|
                0 <= j < num ==> #[trigger] names@[j]@ == decode_utf8(
                    name_bytes(s, dict_slot(s, off, 4, j)),
                ),
            i <= num,
            ps@.len() == i,
            forall|j: int| 0 <= j < i ==> #[trigger] pltt_entry_ok(s, j),
            forall|j: int| 0 <= j < i ==> #[trigger] palette_parsed(ps@[j], s, j),
            forall|j: int| 0 <= j < i ==> #[trigger] pltt_ok_fields(ps@[j]),
        decreases num - i,
    {
        let at = entries + 4 * i;
        assert(at == pltt_entry_at(s, i as int));
        let base = u16le(data, at)?;
        let word1 = u16le(data, at + 2)?;
        if base >= 0x2000 {
            assert(!pltt_entry_ok(s, i as int));
            return Err(NdsError::Invalid { what: "palette base bits 13-15 (always zero)" });
        }
        let offset = base as usize * 8;
        if offset >= area.len() {
            assert(!pltt_entry_ok(s, i as int));
            return Err(NdsError::Invalid { what: "palette offset (outside the palette data)" });
        }
        let q = BtxPalette { name: names[i], offset, word1, data: slice_range(area, offset, area.len()) };
        proof {
            assert(name_ok(s, dict_slot(s, off, 4, i as int)));
            lemma_name_fits(s, dict_slot(s, off, 4, i as int));
        }
        assert(palette_parsed(q, s, i as int));
        ps.push(q);
        i = i + 1;
    }
    Ok(ps)
}

/// The fields of a parsed palette that its serialized payload relies
/// on: an 8-aligned offset below 0x10000 bytes and a name that fits its
/// slot.
pub open spec fn pltt_ok_fields(q: BtxPalette) -> bool {
    &&& q.spec_offset() % 8 == 0
    &&& q.spec_offset() / 8 < 0x2000
    &&& q.spec_name().spec_bytes().len() <= 16
}

// The serialized form of a texture archive.
/// `TEXIMAGE_PARAM` of a parsed texture.
pub open spec fn param_of(t: BtxTexture) -> u32 {
    (t.spec_offset() / 8 + tex_exp(t.spec_width() as int) * 0x100000 + tex_exp(
        t.spec_height() as int,
    ) * 0x800000 + tex_fmt_raw(t.spec_fmt()) * 0x4000000 + if t.spec_color0() {
        0x20000000int
    } else {
        0
    }) as u32
}

/// The size word of a parsed texture.
pub open spec fn word1_of(t: BtxTexture) -> u32 {
    (0x80000000 + t.spec_height() * 0x800 + t.spec_width()) as u32
}

/// A name in its 16-byte slot, zero-padded.
pub open spec fn slot_bytes(name: &str) -> Seq<u8> {
    name.spec_bytes() + zeros(16 - name.spec_bytes().len())
}

/// The payloads of the first `i` textures.
pub open spec fn tex_payloads(ts: Seq<BtxTexture>, i: int) -> Seq<u8>
    decreases i,
{
    if i <= 0 {
        Seq::<u8>::empty()
    } else {
        tex_payloads(ts, i - 1) + le32(param_of(ts[i - 1])) + le32(word1_of(ts[i - 1]))
    }
}

/// The name slots of the first `i` textures.
pub open spec fn tex_slots(ts: Seq<BtxTexture>, i: int) -> Seq<u8>
    decreases i,
{
    if i <= 0 {
        Seq::<u8>::empty()
    } else {
        tex_slots(ts, i - 1) + slot_bytes(ts[i - 1].spec_name())
    }
}

/// The payloads of the first `i` palettes.
pub open spec fn pltt_payloads(ps: Seq<BtxPalette>, i: int) -> Seq<u8>
    decreases i,
{
    if i <= 0 {
        Seq::<u8>::empty()
    } else {
        pltt_payloads(ps, i - 1) + le16((ps[i - 1].spec_offset() / 8) as u16) + le16(
            ps[i - 1].spec_word1(),
        )
    }
}

/// The name slots of the first `i` palettes.
pub open spec fn pltt_slots(ps: Seq<BtxPalette>, i: int) -> Seq<u8>
    decreases i,
{
    if i <= 0 {
        Seq::<u8>::empty()
    } else {
        pltt_slots(ps, i - 1) + slot_bytes(ps[i - 1].spec_name())
    }
}

impl<'a> Btx<'a> {
    /// The size of the texture dictionary as written.
    pub open spec fn spec_tex_blk(&self) -> int {
        let n = self.spec_textures().len() as int;
        (12 + 4 * n) + (4 + 8 * n) + 16 * n
    }

    /// The size of the palette dictionary as written.
    pub open spec fn spec_pltt_blk(&self) -> int {
        let n = self.spec_palettes().len() as int;
        (12 + 4 * n) + (4 + 4 * n) + 16 * n
    }

    /// The block-relative offset of the texture data as written.
    pub open spec fn spec_ofs_tex(&self) -> int {
        0x3C + self.spec_tex_blk() + self.spec_pltt_blk()
    }

    /// The block-relative offset of the palette data as written.
    pub open spec fn spec_ofs_pltt(&self) -> int {
        self.spec_ofs_tex() + self.spec_tex_data().len()
    }

    /// The file length as written.
    pub open spec fn spec_total(&self) -> int {
        0x14 + self.spec_ofs_pltt() + self.spec_pltt_data().len()
    }

    /// The container header and the block table as written.
    pub open spec fn spec_head_bytes(&self) -> Seq<u8> {
        seq![0x42u8, 0x54, 0x58, 0x30] + le16(0xFEFF) + le16(1) + le32(self.spec_total() as u32)
            + le16(0x10) + le16(1) + le32(0x14)
    }

    /// The TEX0 header and the three info records as written.
    pub open spec fn spec_info_bytes(&self) -> Seq<u8> {
        seq![0x54u8, 0x45, 0x58, 0x30] + le32((self.spec_total() - 0x14) as u32) + le32(0) + le16(
            (self.spec_tex_data().len() / 8) as u16,
        ) + le16(0x3C) + le32(0) + le32(self.spec_ofs_tex() as u32) + le32(0) + le16(0) + le16(0x3C)
            + le32(0) + le32(self.spec_t44_ofs_tex()) + le32(self.spec_t44_ofs_pltt_idx()) + le32(0)
            + le16((self.spec_pltt_data().len() / 8) as u16) + le16(
            if self.spec_uses_pltt4() {
                0x8000u16
            } else {
                0u16
            },
        ) + le16((0x3C + self.spec_tex_blk()) as u16) + le16(0) + le32(self.spec_ofs_pltt() as u32)
    }

    /// The texture dictionary as written.
    pub open spec fn spec_tex_dict_bytes(&self) -> Seq<u8> {
        let ts = self.spec_textures();
        let n = ts.len() as int;
        seq![0u8, n as u8] + le16(self.spec_tex_blk() as u16) + le16(8) + le16((12 + 4 * n) as u16)
            + self.spec_tex_nodes() + le16(8) + le16((4 + 8 * n) as u16) + tex_payloads(ts, n)
            + tex_slots(ts, n)
    }

    /// The palette dictionary as written.
    pub open spec fn spec_pltt_dict_bytes(&self) -> Seq<u8> {
        let ps = self.spec_palettes();
        let n = ps.len() as int;
        seq![0u8, n as u8] + le16(self.spec_pltt_blk() as u16) + le16(8) + le16((12 + 4 * n) as u16)
            + self.spec_pltt_nodes() + le16(4) + le16((4 + 4 * n) as u16) + pltt_payloads(ps, n)
            + pltt_slots(ps, n)
    }

    /// The container form [`Btx::to_bytes`] writes.
    pub open spec fn spec_bytes(&self) -> Seq<u8> {
        self.spec_head_bytes() + self.spec_info_bytes() + self.spec_tex_dict_bytes()
            + self.spec_pltt_dict_bytes() + self.spec_tex_data() + self.spec_pltt_data()
    }
}

fn read_entries<'a>(
    data: &'a [u8],
    tex_data: &'a [u8],
    pltt_data: &'a [u8],
    tex_names: &Vec<&'a str>,
    pltt_names: &Vec<&'a str>,
    n_tex: usize,
    n_pltt: usize,
    tex_entries: usize,
    pltt_entries: usize,
) -> (res: Result<(Vec<BtxTexture<'a>>, Vec<BtxPalette<'a>>), NdsError>)
    requires
        btx_head_ok(data@),
        btx_layout_ok(data@),
        tex_data@ == tex_area(data@),
        pltt_data@ == pltt_area(data@),
        n_tex == dict_num(data@, 0x50),
        n_pltt == dict_num(data@, 0x14 + pltt_dict_off(data@)),
        tex_entries == tex_entry_at(data@, 0),
        pltt_entries == pltt_entry_at(data@, 0),
        tex_names@.len() == n_tex,
        forall|i: int|
            0 <= i < n_tex ==> #[trigger] tex_names@[i]@ == decode_utf8(
                name_bytes(data@, dict_slot(data@, 0x50, 8, i)),
            ),
        pltt_names@.len() == n_pltt,
        forall|i: int|
            0 <= i < n_pltt ==> #[trigger] pltt_names@[i]@ == decode_utf8(
                name_bytes(data@, dict_slot(data@, 0x14 + pltt_dict_off(data@), 4, i)),
            ),
    ensures
        res is Ok <==> btx_entries_ok(data@),
        res matches Ok((ts, ps)) ==> {
            &&& ts@.len() == n_tex
            &&& forall|i: int| 0 <= i < n_tex ==> #[trigger] texture_parsed(ts@[i], data@, i)
            &&& forall|i: int| 0 <= i < n_tex ==> #[trigger] tex_ok_fields(ts@[i])
            &&& ps@.len() == n_pltt
            &&& forall|i: int| 0 <= i < n_pltt ==> #[trigger] palette_parsed(ps@[i], data@, i)
            &&& forall|i: int| 0 <= i < n_pltt ==> #[trigger] pltt_ok_fields(ps@[i])
        },
{
    reveal(btx_entries_ok);
    let ghost s = data@;
    assert(tex_entries_fit(s));
    let textures = read_textures(data, tex_data, tex_names, n_tex, tex_entries)?;
    let palettes = read_palettes(data, pltt_data, pltt_names, n_pltt, pltt_entries)?;
    Ok((textures, palettes))
}

impl<'a> Btx<'a> {
    #[verifier::type_invariant]
    spec fn inv(self) -> bool {
        &&& self.textures@.len() < 256
        &&& self.palettes@.len() < 256
        &&& forall|i: int| 0 <= i < self.textures@.len() ==> #[trigger] tex_ok_fields(self.textures@[i])
        &&& forall|i: int| 0 <= i < self.palettes@.len() ==> #[trigger] pltt_ok_fields(self.palettes@[i])
        &&& self.tex_nodes@.len() == 4 + 4 * self.textures@.len()
        &&& self.pltt_nodes@.len() == 4 + 4 * self.palettes@.len()
        &&& self.tex_data@.len() <= 0xFFFF * 8
        &&& self.pltt_data@.len() <= 0xFFFF * 8
    }

    /// The textures.
    pub closed spec fn spec_textures(&self) -> Seq<BtxTexture<'a>> {
        self.textures@
    }

    /// The palettes.
    pub closed spec fn spec_palettes(&self) -> Seq<BtxPalette<'a>> {
        self.palettes@
    }

    /// The texture data area.
    pub closed spec fn spec_tex_data(&self) -> Seq<u8> {
        self.tex_data@
    }

    /// The palette data area.
    pub closed spec fn spec_pltt_data(&self) -> Seq<u8> {
        self.pltt_data@
    }

    /// Whether the palettes are 4-color sets.
    pub closed spec fn spec_uses_pltt4(&self) -> bool {
        self.uses_pltt4
    }

    /// The texture dictionary's trie nodes as read.
    pub closed spec fn spec_tex_nodes(&self) -> Seq<u8> {
        self.tex_nodes@
    }

    /// The palette dictionary's trie nodes as read.
    pub closed spec fn spec_pltt_nodes(&self) -> Seq<u8> {
        self.pltt_nodes@
    }

    /// The unvalidated `tex4x4Info` texture pointer.
    pub closed spec fn spec_t44_ofs_tex(&self) -> u32 {
        self.t44_ofs_tex
    }

    /// The unvalidated `tex4x4Info` palette-index pointer.
    pub closed spec fn spec_t44_ofs_pltt_idx(&self) -> u32 {
        self.t44_ofs_pltt_idx
    }

    /// How a parse of `s` relates the fields to the bytes.
    pub open spec fn parsed_from(&self, s: Seq<u8>) -> bool {
        let poff = 0x14 + pltt_dict_off(s);
        &&& self.spec_textures().len() == dict_num(s, 0x50)
        &&& forall|i: int|
            0 <= i < dict_num(s, 0x50) ==> #[trigger] texture_parsed(self.spec_textures()[i], s, i)
        &&& self.spec_palettes().len() == dict_num(s, poff)
        &&& forall|i: int|
            0 <= i < dict_num(s, poff) ==> #[trigger] palette_parsed(self.spec_palettes()[i], s, i)
        &&& self.spec_tex_data() == tex_area(s)
        &&& self.spec_pltt_data() == pltt_area(s)
        &&& self.spec_uses_pltt4() == (spec_u16le(s, 0x46) == 0x8000)
        &&& self.spec_tex_nodes() == s.subrange(0x58, 0x50 + dict_entry(s, 0x50))
        &&& self.spec_pltt_nodes() == s.subrange(poff + 8, poff + dict_entry(s, poff))
        &&& self.spec_t44_ofs_tex() == spec_u32le(s, 0x38)
        &&& self.spec_t44_ofs_pltt_idx() == spec_u32le(s, 0x3C)
    }

    /// Parses a complete BTX file, enforcing the full layout: the
    /// container constants (bom, version 0x0001, one TEX0 block at 0x14
    /// ending the file), the zero key, flag and dummy fields, the absence
    /// of COMP4x4 textures, every derived dictionary field, the abutting
    /// dictionaries and data areas, texture sides matching their
    /// exponents, and texture and palette offsets inside their areas.
    pub fn parse(data: &'a [u8]) -> (res: Result<Self, NdsError>)
        ensures
            res is Ok <==> btx_ok(data@),
            res matches Ok(b) ==> b.parsed_from(data@),
    {
        let ghost s = data@;
        let h = read_btx_header(data)?;
        let (tex_dict, tex_names) = parse_dict(data, 0x50, 8)?;
        if h.pltt_dict_off != 0x3C + tex_dict.size_blk {
            return Err(NdsError::Invalid { what: "TEX0 plttInfo ofsDict (must follow the texture dictionary)" });
        }
        let poff = 0x14 + h.pltt_dict_off;
        let (pltt_dict, pltt_names) = parse_dict(data, poff, 4)?;
        if h.ofs_tex != h.pltt_dict_off + pltt_dict.size_blk {
            return Err(NdsError::Invalid { what: "TEX0 ofsTex (must follow the palette dictionary)" });
        }
        if h.ofs_pltt != h.ofs_tex + h.size_tex * 8 {
            return Err(NdsError::Invalid { what: "TEX0 ofsPlttData (must follow the texture data)" });
        }
        if h.ofs_pltt > data.len() - 0x14 || h.size_pltt * 8 != data.len() - 0x14 - h.ofs_pltt {
            return Err(NdsError::Invalid { what: "TEX0 palette data (must end the file)" });
        }
        assert(btx_layout_ok(s));
        let tex_data = slice_range(data, 0x14 + h.ofs_tex, 0x14 + h.ofs_tex + h.size_tex * 8);
        let pltt_data = slice_range(data, 0x14 + h.ofs_pltt, data.len());
        let (textures, palettes) = read_entries(
            data,
            tex_data,
            pltt_data,
            &tex_names,
            &pltt_names,
            tex_dict.num,
            pltt_dict.num,
            0x50 + tex_dict.ofs_entry + 4,
            poff + pltt_dict.ofs_entry + 4,
        )?;
        Ok(
            Btx {
                textures,
                palettes,
                tex_data,
                pltt_data,
                uses_pltt4: h.uses_pltt4,
                tex_nodes: tex_dict.nodes,
                pltt_nodes: pltt_dict.nodes,
                t44_ofs_tex: h.t44_ofs_tex,
                t44_ofs_pltt_idx: h.t44_ofs_pltt_idx,
            },
        )
    }

    /// All textures, in dictionary order.
    pub fn textures(&self) -> (res: &[BtxTexture<'a>])
        ensures
            res@ == self.spec_textures(),
    {
        self.textures.as_slice()
    }

    /// The number of textures.
    pub fn texture_count(&self) -> (res: usize)
        ensures
            res == self.spec_textures().len(),
    {
        self.textures.len()
    }

    /// All palettes, in dictionary order.
    pub fn palettes(&self) -> (res: &[BtxPalette<'a>])
        ensures
            res@ == self.spec_palettes(),
    {
        self.palettes.as_slice()
    }

    /// The number of palettes.
    pub fn palette_count(&self) -> (res: usize)
        ensures
            res == self.spec_palettes().len(),
    {
        self.palettes.len()
    }

    /// The whole texture-data area.
    pub fn texture_data(&self) -> (res: &'a [u8])
        ensures
            res@ == self.spec_tex_data(),
    {
        self.tex_data
    }

    /// The whole palette-data area.
    pub fn palette_data(&self) -> (res: &'a [u8])
        ensures
            res@ == self.spec_pltt_data(),
    {
        self.pltt_data
    }

    /// Whether the palettes are 16-byte 4-color sets (`USEPLTT4`).
    pub fn uses_pltt4(&self) -> (res: bool)
        ensures
            res == self.spec_uses_pltt4(),
    {
        self.uses_pltt4
    }

    /// The first texture named `name`, if any.
    pub fn texture_by_name(&self, name: &str) -> (res: Option<&BtxTexture<'a>>)
        ensures
            res is Some <==> exists|k: int|
                0 <= k < self.spec_textures().len() && (#[trigger] self.spec_textures()[k]).spec_name()@
                    == name@,
            res matches Some(t) ==> exists|k: int|
                0 <= k < self.spec_textures().len() && t == &self.spec_textures()[k] && (
                #[trigger] self.spec_textures()[k]).spec_name()@ == name@ && forall|j: int|
                    0 <= j < k ==> self.spec_textures()[j].spec_name()@ != name@,
    {
        let mut i: usize = 0;
        while i < self.textures.len()
            invariant
                i <= self.textures@.len(),
                forall|j: int| 0 <= j < i ==> self.textures@[j].name@ != name@,
            decreases self.textures@.len() - i,
        {
            if str_eq(self.textures[i].name, name) {
                assert(self.spec_textures()[i as int].spec_name()@ == name@);
                return Some(&self.textures[i]);
            }
            i = i + 1;
        }
        None
    }

    /// The first palette named `name`, if any.
    pub fn palette_by_name(&self, name: &str) -> (res: Option<&BtxPalette<'a>>)
        ensures
            res is Some <==> exists|k: int|
                0 <= k < self.spec_palettes().len() && (#[trigger] self.spec_palettes()[k]).spec_name()@
                    == name@,
            res matches Some(q) ==> exists|k: int|
                0 <= k < self.spec_palettes().len() && q == &self.spec_palettes()[k] && (
                #[trigger] self.spec_palettes()[k]).spec_name()@ == name@ && forall|j: int|
                    0 <= j < k ==> self.spec_palettes()[j].spec_name()@ != name@,
    {
        let mut i: usize = 0;
        while i < self.palettes.len()
            invariant
                i <= self.palettes@.len(),
                forall|j: int| 0 <= j < i ==> self.palettes@[j].name@ != name@,
            decreases self.palettes@.len() - i,
        {
            if str_eq(self.palettes[i].name, name) {
                assert(self.spec_palettes()[i as int].spec_name()@ == name@);
                return Some(&self.palettes[i]);
            }
            i = i + 1;
        }
        None
    }
}

/// Appends `name` and pads it with zeros to its 16-byte slot.
fn push_name_slot(out: &mut Vec<u8>, name: &str)
    requires
        name.spec_bytes().len() <= 16,
    ensures
        final(out)@ == old(out)@ + slot_bytes(name),
{
    let b = name.as_bytes();
    push_bytes(out, b);
    let ghost mid = out@;
    let mut k: usize = b.len();
    while k < 16
        invariant
            b@ == name.spec_bytes(),
            b@.len() <= k <= 16,
            out@ == mid + zeros(k - b@.len()),
        decreases 16 - k,
    {
        out.push(0);
        k = k + 1;
        assert(out@ =~= mid + zeros(k - b@.len()));
    }
    assert(out@ =~= old(out)@ + slot_bytes(name));
}

/// The `TEXIMAGE_PARAM` word of a texture.
fn texture_param(t: &BtxTexture) -> (res: u32)
    requires
        tex_ok_fields(*t),
    ensures
        res == param_of(*t),
{
    let we = exp_of(t.width);
    let he = exp_of(t.height);
    let fr = t.fmt.raw();
    let c: u32 = if t.color0_transparent {
        0x20000000
    } else {
        0
    };
    (t.offset / 8) as u32 + we * 0x100000 + he * 0x800000 + fr * 0x4000000 + c
}

impl<'a> Btx<'a> {
    /// The texture dictionary as written.
    fn tex_dict_bytes(&self) -> (res: Vec<u8>)
        ensures
            res@ == self.spec_tex_dict_bytes(),
    {
        proof {
            use_type_invariant(self);
        }
        let ghost ts = self.spec_textures();
        let n = self.textures.len();
        let mut out: Vec<u8> = Vec::new();
        out.push(0);
        out.push(n as u8);
        push_le16(&mut out, (16 + 28 * n) as u16);
        push_le16(&mut out, 8);
        push_le16(&mut out, (12 + 4 * n) as u16);
        push_bytes(&mut out, self.tex_nodes);
        push_le16(&mut out, 8);
        push_le16(&mut out, (4 + 8 * n) as u16);
        let ghost head = out@;
        let mut i: usize = 0;
        while i < n
            invariant
                n == self.textures@.len(),
                ts == self.textures@,
                i <= n,
                forall|j: int| 0 <= j < n ==> #[trigger] tex_ok_fields(self.textures@[j]),
                out@ == head + tex_payloads(ts, i as int),
            decreases n - i,
        {
            let t = &self.textures[i];
            let p = texture_param(t);
            push_le32(&mut out, p);
            push_le32(&mut out, 0x80000000u32 + t.height as u32 * 0x800 + t.width as u32);
            i = i + 1;
            assert(out@ =~= head + tex_payloads(ts, i as int));
        }
        let ghost mid = out@;
        let mut i: usize = 0;
        while i < n
            invariant
                n == self.textures@.len(),
                ts == self.textures@,
                i <= n,
                forall|j: int| 0 <= j < n ==> #[trigger] tex_ok_fields(self.textures@[j]),
                out@ == mid + tex_slots(ts, i as int),
            decreases n - i,
        {
            assert(tex_ok_fields(self.textures@[i as int]));
            push_name_slot(&mut out, self.textures[i].name);
            i = i + 1;
            assert(out@ =~= mid + tex_slots(ts, i as int));
        }
        out
    }

    /// The palette dictionary as written.
    fn pltt_dict_bytes(&self) -> (res: Vec<u8>)
        ensures
            res@ == self.spec_pltt_dict_bytes(),
    {
        proof {
            use_type_invariant(self);
        }
        let ghost ps = self.spec_palettes();
        let n = self.palettes.len();
        let mut out: Vec<u8> = Vec::new();
        out.push(0);
        out.push(n as u8);
        push_le16(&mut out, (16 + 24 * n) as u16);
        push_le16(&mut out, 8);
        push_le16(&mut out, (12 + 4 * n) as u16);
        push_bytes(&mut out, self.pltt_nodes);
        push_le16(&mut out, 4);
        push_le16(&mut out, (4 + 4 * n) as u16);
        let ghost head = out@;
        let mut i: usize = 0;
        while i < n
            invariant
                n == self.palettes@.len(),
                ps == self.palettes@,
                i <= n,
                forall|j: int| 0 <= j < n ==> #[trigger] pltt_ok_fields(self.palettes@[j]),
                out@ == head + pltt_payloads(ps, i as int),
            decreases n - i,
        {
            let q = &self.palettes[i];
            assert(pltt_ok_fields(self.palettes@[i as int]));
            push_le16(&mut out, (q.offset / 8) as u16);
            push_le16(&mut out, q.word1);
            i = i + 1;
            assert(out@ =~= head + pltt_payloads(ps, i as int));
        }
        let ghost mid = out@;
        let mut i: usize = 0;
        while i < n
            invariant
                n == self.palettes@.len(),
                ps == self.palettes@,
                i <= n,
                forall|j: int| 0 <= j < n ==> #[trigger] pltt_ok_fields(self.palettes@[j]),
                out@ == mid + pltt_slots(ps, i as int),
            decreases n - i,
        {
            assert(pltt_ok_fields(self.palettes@[i as int]));
            push_name_slot(&mut out, self.palettes[i].name);
            i = i + 1;
            assert(out@ =~= mid + pltt_slots(ps, i as int));
        }
        out
    }

    /// The container header as written.
    fn head_bytes(&self) -> (res: Vec<u8>)
        ensures
            res@ == self.spec_head_bytes(),
    {
        proof {
            use_type_invariant(self);
        }
        let total = 0x14 + 0x3C + (16 + 28 * self.textures.len()) + (16 + 24 * self.palettes.len())
            + self.tex_data.len() + self.pltt_data.len();
        let mut out = magic_vec(0x42, 0x54, 0x58, 0x30);
        push_le16(&mut out, 0xFEFF);
        push_le16(&mut out, 1);
        push_le32(&mut out, total as u32);
        push_le16(&mut out, 0x10);
        push_le16(&mut out, 1);
        push_le32(&mut out, 0x14);
        assert(out@ =~= self.spec_head_bytes());
        out
    }

    /// The TEX0 header and the three info records as written.
    #[verifier::rlimit(30)]
    fn info_bytes(&self) -> (res: Vec<u8>)
        ensures
            res@ == self.spec_info_bytes(),
    {
        proof {
            use_type_invariant(self);
        }
        let pltt_dict_off = 0x3C + (16 + 28 * self.textures.len());
        let ofs_tex = pltt_dict_off + (16 + 24 * self.palettes.len());
        let ofs_pltt = ofs_tex + self.tex_data.len();
        let total = 0x14 + ofs_pltt + self.pltt_data.len();
        assert(total == self.spec_total());
        let mut out = magic_vec(0x54, 0x45, 0x58, 0x30);
        push_le32(&mut out, (total - 0x14) as u32);
        push_le32(&mut out, 0);
        push_le16(&mut out, (self.tex_data.len() / 8) as u16);
        push_le16(&mut out, 0x3C);
        push_le32(&mut out, 0);
        push_le32(&mut out, ofs_tex as u32);
        let ghost a = out@;
        push_le32(&mut out, 0);
        push_le16(&mut out, 0);
        push_le16(&mut out, 0x3C);
        push_le32(&mut out, 0);
        push_le32(&mut out, self.t44_ofs_tex);
        push_le32(&mut out, self.t44_ofs_pltt_idx);
        let ghost b = out@;
        push_le32(&mut out, 0);
        push_le16(&mut out, (self.pltt_data.len() / 8) as u16);
        push_le16(
            &mut out,
            if self.uses_pltt4 {
                0x8000
            } else {
                0
            },
        );
        push_le16(&mut out, pltt_dict_off as u16);
        push_le16(&mut out, 0);
        push_le32(&mut out, ofs_pltt as u32);
        assert(out@ =~= self.spec_info_bytes());
        out
    }

    /// Serializes the archive: the container header, the three info
    /// records, both dictionaries with their trie nodes as read, then
    /// the texture and palette data areas as read. Every derived field
    /// is recomputed from the entries; for a parsed file the result is
    /// the file itself.
    pub fn to_bytes(&self) -> (res: Vec<u8>)
        ensures
            res@ == self.spec_bytes(),
    {
        let mut out = self.head_bytes();
        let info = self.info_bytes();
        push_bytes(&mut out, info.as_slice());
        let td = self.tex_dict_bytes();
        push_bytes(&mut out, td.as_slice());
        let pd = self.pltt_dict_bytes();
        push_bytes(&mut out, pd.as_slice());
        push_bytes(&mut out, self.tex_data);
        push_bytes(&mut out, self.pltt_data);
        assert(out@ =~= self.spec_bytes());
        out
    }
}

/// Whether the name slot at `slot` is zero after its name.
pub open spec fn slot_padded(s: Seq<u8>, slot: int) -> bool {
    forall|k: int| slot_nul(s, slot, 0) <= k < 16 ==> #[trigger] s[slot + k] == 0
}

/// Whether every name slot of the dictionary at `off` is zero after its
/// name.
pub open spec fn dict_padded(s: Seq<u8>, off: int, unit: int) -> bool {
    forall|i: int| 0 <= i < dict_num(s, off) ==> #[trigger] slot_padded(s, dict_slot(s, off, unit, i))
}

/// Whether both dictionaries pad their names with zeros.
pub open spec fn btx_padded(s: Seq<u8>) -> bool {
    dict_padded(s, 0x50, 8) && dict_padded(s, 0x14 + pltt_dict_off(s), 4)
}

proof fn lemma_param_fields(p: u32)
    requires
        (p / 0x10000) % 0x10 == 0,
        p / 0x40000000 == 0,
    ensures
        p == p % 0x10000 + ((p / 0x100000) % 8) * 0x100000 + ((p / 0x800000) % 8) * 0x800000 + ((p
            / 0x4000000) % 8) * 0x4000000 + ((p / 0x20000000) % 2) * 0x20000000,
{
    assert(p == p % 0x10000 + ((p / 0x100000) % 8) * 0x100000 + ((p / 0x800000) % 8) * 0x800000 + ((p
        / 0x4000000) % 8) * 0x4000000 + ((p / 0x20000000) % 2) * 0x20000000) by (bit_vector)
        requires
            (p / 0x10000) % 0x10 == 0,
            p / 0x40000000 == 0,
    ;
}

proof fn lemma_word1_fields(w: u32)
    requires
        (w / 0x400000) % 0x200 == 0,
        w / 0x80000000 == 1,
    ensures
        w == 0x80000000 + ((w / 0x800) % 0x800) * 0x800 + w % 0x800,
{
    assert(w == 0x80000000 + ((w / 0x800) % 0x800) * 0x800 + w % 0x800) by (bit_vector)
        requires
            (w / 0x400000) % 0x200 == 0,
            w / 0x80000000 == 1,
    ;
}

/// The payload written for a parsed texture is the payload read.
proof fn lemma_texture_payload(t: BtxTexture, s: Seq<u8>, i: int)
    requires
        texture_parsed(t, s, i),
        tex_entry_ok(s, i),
        0 <= tex_entry_at(s, i),
        tex_entry_at(s, i) + 8 <= s.len(),
    ensures
        s.subrange(tex_entry_at(s, i), tex_entry_at(s, i) + 8) == le32(param_of(t)) + le32(word1_of(t)),
{
    let at = tex_entry_at(s, i);
    let p = spec_u32le(s, at);
    let w = spec_u32le(s, at + 4);
    lemma_param_fields(p);
    lemma_word1_fields(w);
    let ew = (p / 0x100000) % 8;
    let eh = (p / 0x800000) % 8;
    assert(tex_exp(tex_side(ew as int)) == ew);
    assert(tex_exp(tex_side(eh as int)) == eh);
    let r = (p / 0x4000000) % 8;
    assert(tex_fmt_raw(tex_fmt_of(r as int)) == r);
    assert(((p % 0x10000) * 8) / 8 == p % 0x10000);
    assert(param_of(t) == p);
    assert(word1_of(t) == w);
    lemma_u32le_bytes(s, at);
    lemma_u32le_bytes(s, at + 4);
    lemma_subrange_concat(s, at, at + 4, at + 8);
}

/// A slot holding a well-formed, zero-padded name is the name's slot
/// form.
proof fn lemma_slot_bytes(name: &str, s: Seq<u8>, slot: int)
    requires
        name@ == decode_utf8(name_bytes(s, slot)),
        name_ok(s, slot),
        slot_padded(s, slot),
        0 <= slot,
        slot + 16 <= s.len(),
    ensures
        s.subrange(slot, slot + 16) == slot_bytes(name),
{
    lemma_name_fits(s, slot);
    let nb = name_bytes(s, slot);
    assert(name.spec_bytes() == nb);
    let n = slot_nul(s, slot, 0);
    lemma_slot_nul_bounds(s, slot, 0);
    assert forall|k: int| 0 <= k < 16 implies #[trigger] s.subrange(slot, slot + 16)[k] == slot_bytes(
        name,
    )[k] by {
        if k >= n {
            assert(s[slot + k] == 0);
        }
    }
    assert(s.subrange(slot, slot + 16) =~= slot_bytes(name));
}

/// The first `i` texture payloads as read are the payloads written.
proof fn lemma_tex_payloads(ts: Seq<BtxTexture>, s: Seq<u8>, i: int)
    requires
        0 <= i <= ts.len(),
        ts.len() == dict_num(s, 0x50),
        tex_entry_at(s, 0) >= 0,
        tex_entry_at(s, ts.len() as int) <= s.len(),
        forall|j: int| 0 <= j < ts.len() ==> #[trigger] texture_parsed(ts[j], s, j),
        forall|j: int| 0 <= j < ts.len() ==> #[trigger] tex_entry_ok(s, j),
    ensures
        s.subrange(tex_entry_at(s, 0), tex_entry_at(s, i)) == tex_payloads(ts, i),
    decreases i,
{
    if i == 0 {
        assert(s.subrange(tex_entry_at(s, 0), tex_entry_at(s, 0)) =~= Seq::<u8>::empty());
    } else {
        lemma_tex_payloads(ts, s, i - 1);
        assert(texture_parsed(ts[i - 1], s, i - 1));
        assert(tex_entry_ok(s, i - 1));
        lemma_texture_payload(ts[i - 1], s, i - 1);
        lemma_subrange_concat(s, tex_entry_at(s, 0), tex_entry_at(s, i - 1), tex_entry_at(s, i));
        assert(tex_payloads(ts, i) =~= tex_payloads(ts, i - 1) + (le32(param_of(ts[i - 1])) + le32(
            word1_of(ts[i - 1]),
        )));
    }
}

/// The first `i` texture name slots as read are the slots written.
proof fn lemma_tex_slots(ts: Seq<BtxTexture>, s: Seq<u8>, i: int)
    requires
        0 <= i <= ts.len(),
        ts.len() == dict_num(s, 0x50),
        dict_ok(s, 0x50, 8),
        dict_padded(s, 0x50, 8),
        forall|j: int| 0 <= j < ts.len() ==> #[trigger] texture_parsed(ts[j], s, j),
    ensures
        s.subrange(dict_slot(s, 0x50, 8, 0), dict_slot(s, 0x50, 8, i)) == tex_slots(ts, i),
    decreases i,
{
    if i == 0 {
        assert(s.subrange(dict_slot(s, 0x50, 8, 0), dict_slot(s, 0x50, 8, 0)) =~= Seq::<u8>::empty());
    } else {
        lemma_tex_slots(ts, s, i - 1);
        let slot = dict_slot(s, 0x50, 8, i - 1);
        assert(texture_parsed(ts[i - 1], s, i - 1));
        assert(name_ok(s, slot));
        assert(slot_padded(s, slot));
        lemma_slot_bytes(ts[i - 1].spec_name(), s, slot);
        lemma_subrange_concat(s, dict_slot(s, 0x50, 8, 0), slot, slot + 16);
    }
}

/// The first `i` palette payloads as read are the payloads written.
proof fn lemma_pltt_payloads(ps: Seq<BtxPalette>, s: Seq<u8>, i: int)
    requires
        0 <= i <= ps.len(),
        ps.len() == dict_num(s, 0x14 + pltt_dict_off(s)),
        pltt_entry_at(s, 0) >= 0,
        pltt_entry_at(s, ps.len() as int) <= s.len(),
        forall|j: int| 0 <= j < ps.len() ==> #[trigger] palette_parsed(ps[j], s, j),
        forall|j: int| 0 <= j < ps.len() ==> #[trigger] pltt_entry_ok(s, j),
    ensures
        s.subrange(pltt_entry_at(s, 0), pltt_entry_at(s, i)) == pltt_payloads(ps, i),
    decreases i,
{
    if i == 0 {
        assert(s.subrange(pltt_entry_at(s, 0), pltt_entry_at(s, 0)) =~= Seq::<u8>::empty());
    } else {
        lemma_pltt_payloads(ps, s, i - 1);
        let at = pltt_entry_at(s, i - 1);
        assert(palette_parsed(ps[i - 1], s, i - 1));
        assert(pltt_entry_ok(s, i - 1));
        let b = spec_u16le(s, at);
        assert((b as int * 8) / 8 == b);
        lemma_u16le_bytes(s, at);
        lemma_u16le_bytes(s, at + 2);
        lemma_subrange_concat(s, at, at + 2, at + 4);
        lemma_subrange_concat(s, pltt_entry_at(s, 0), at, at + 4);
        assert(pltt_payloads(ps, i) =~= pltt_payloads(ps, i - 1) + (le16(
            (ps[i - 1].spec_offset() / 8) as u16,
        ) + le16(ps[i - 1].spec_word1())));
    }
}

/// The first `i` palette name slots as read are the slots written.
proof fn lemma_pltt_slots(ps: Seq<BtxPalette>, s: Seq<u8>, i: int)
    requires
        0 <= i <= ps.len(),
        ps.len() == dict_num(s, 0x14 + pltt_dict_off(s)),
        dict_ok(s, 0x14 + pltt_dict_off(s), 4),
        dict_padded(s, 0x14 + pltt_dict_off(s), 4),
        forall|j: int| 0 <= j < ps.len() ==> #[trigger] palette_parsed(ps[j], s, j),
    ensures
        s.subrange(
            dict_slot(s, 0x14 + pltt_dict_off(s), 4, 0),
            dict_slot(s, 0x14 + pltt_dict_off(s), 4, i),
        ) == pltt_slots(ps, i),
    decreases i,
{
    let off = 0x14 + pltt_dict_off(s);
    if i == 0 {
        assert(s.subrange(dict_slot(s, off, 4, 0), dict_slot(s, off, 4, 0)) =~= Seq::<u8>::empty());
    } else {
        lemma_pltt_slots(ps, s, i - 1);
        let slot = dict_slot(s, off, 4, i - 1);
        assert(palette_parsed(ps[i - 1], s, i - 1));
        assert(name_ok(s, slot));
        assert(slot_padded(s, slot));
        lemma_slot_bytes(ps[i - 1].spec_name(), s, slot);
        lemma_subrange_concat(s, dict_slot(s, off, 4, 0), slot, slot + 16);
    }
}

/// The texture dictionary as read is the dictionary written.
proof fn lemma_tex_dict(b: Btx, s: Seq<u8>)
    requires
        btx_ok(s),
        btx_padded(s),
        b.parsed_from(s),
    ensures
        s.subrange(0x50, 0x50 + b.spec_tex_blk()) == b.spec_tex_dict_bytes(),
{
    reveal(btx_entries_ok);
    let ts = b.spec_textures();
    let n = dict_num(s, 0x50);
    let e = dict_entry(s, 0x50);
    let o = 0x50int;
    assert(s.subrange(o, o + 2) =~= seq![0u8, n as u8]);
    lemma_u16le_bytes(s, o + 2);
    lemma_u16le_bytes(s, o + 4);
    lemma_u16le_bytes(s, o + 6);
    lemma_u16le_bytes(s, o + e);
    lemma_u16le_bytes(s, o + e + 2);
    lemma_tex_payloads(ts, s, n);
    lemma_tex_slots(ts, s, n);
    assert(tex_entry_at(s, 0) == o + e + 4);
    assert(tex_entry_at(s, n) == dict_slot(s, o, 8, 0));
    lemma_subrange_concat(s, o, o + 2, o + 4);
    lemma_subrange_concat(s, o, o + 4, o + 6);
    lemma_subrange_concat(s, o, o + 6, o + 8);
    lemma_subrange_concat(s, o, o + 8, o + e);
    lemma_subrange_concat(s, o, o + e, o + e + 2);
    lemma_subrange_concat(s, o, o + e + 2, o + e + 4);
    lemma_subrange_concat(s, o, o + e + 4, tex_entry_at(s, n));
    lemma_subrange_concat(s, o, tex_entry_at(s, n), dict_slot(s, o, 8, n));
}

/// The palette dictionary as read is the dictionary written.
proof fn lemma_pltt_dict(b: Btx, s: Seq<u8>)
    requires
        btx_ok(s),
        btx_padded(s),
        b.parsed_from(s),
    ensures
        s.subrange(0x14 + pltt_dict_off(s), 0x14 + pltt_dict_off(s) + b.spec_pltt_blk())
            == b.spec_pltt_dict_bytes(),
{
    reveal(btx_entries_ok);
    let ps = b.spec_palettes();
    let o = 0x14 + pltt_dict_off(s);
    let n = dict_num(s, o);
    let e = dict_entry(s, o);
    assert(s.subrange(o, o + 2) =~= seq![0u8, n as u8]);
    lemma_u16le_bytes(s, o + 2);
    lemma_u16le_bytes(s, o + 4);
    lemma_u16le_bytes(s, o + 6);
    lemma_u16le_bytes(s, o + e);
    lemma_u16le_bytes(s, o + e + 2);
    lemma_pltt_payloads(ps, s, n);
    lemma_pltt_slots(ps, s, n);
    assert(pltt_entry_at(s, 0) == o + e + 4);
    assert(pltt_entry_at(s, n) == dict_slot(s, o, 4, 0));
    lemma_subrange_concat(s, o, o + 2, o + 4);
    lemma_subrange_concat(s, o, o + 4, o + 6);
    lemma_subrange_concat(s, o, o + 6, o + 8);
    lemma_subrange_concat(s, o, o + 8, o + e);
    lemma_subrange_concat(s, o, o + e, o + e + 2);
    lemma_subrange_concat(s, o, o + e + 2, o + e + 4);
    lemma_subrange_concat(s, o, o + e + 4, pltt_entry_at(s, n));
    lemma_subrange_concat(s, o, pltt_entry_at(s, n), dict_slot(s, o, 4, n));
}

/// The sizes the serializer derives are the sizes read.
proof fn lemma_btx_sizes(b: Btx, s: Seq<u8>)
    requires
        btx_ok(s),
        b.parsed_from(s),
    ensures
        0x3C + b.spec_tex_blk() == pltt_dict_off(s),
        b.spec_ofs_tex() == ofs_tex(s),
        b.spec_ofs_pltt() == ofs_pltt(s),
        b.spec_total() == s.len(),
        b.spec_tex_data().len() == size_tex(s) * 8,
        b.spec_pltt_data().len() == size_pltt(s) * 8,
{
}

/// The container header as read is the header written.
proof fn lemma_btx_head(b: Btx, s: Seq<u8>)
    requires
        btx_ok(s),
        b.parsed_from(s),
    ensures
        s.subrange(0, 0x14) == b.spec_head_bytes(),
{
    lemma_btx_sizes(b, s);
    assert(s.subrange(0, 4) =~= seq![0x42u8, 0x54, 0x58, 0x30]);
    lemma_u16le_bytes(s, 4);
    lemma_u16le_bytes(s, 6);
    lemma_u32le_bytes(s, 8);
    lemma_u16le_bytes(s, 0x0C);
    lemma_u16le_bytes(s, 0x0E);
    lemma_u32le_bytes(s, 0x10);
    lemma_subrange_concat(s, 0, 4, 6);
    lemma_subrange_concat(s, 0, 6, 8);
    lemma_subrange_concat(s, 0, 8, 12);
    lemma_subrange_concat(s, 0, 12, 14);
    lemma_subrange_concat(s, 0, 14, 16);
    lemma_subrange_concat(s, 0, 16, 20);
}

/// The TEX0 header and the info records as read are those written.
#[verifier::rlimit(40)]
proof fn lemma_btx_info(b: Btx, s: Seq<u8>)
    requires
        btx_ok(s),
        b.parsed_from(s),
    ensures
        s.subrange(0x14, 0x50) == b.spec_info_bytes(),
{
    lemma_btx_sizes(b, s);
    assert(s.subrange(0x14, 0x18) =~= seq![0x54u8, 0x45, 0x58, 0x30]);
    lemma_u32le_bytes(s, 0x18);
    lemma_u32le_bytes(s, 0x1C);
    lemma_u16le_bytes(s, 0x20);
    lemma_u16le_bytes(s, 0x22);
    lemma_u32le_bytes(s, 0x24);
    lemma_u32le_bytes(s, 0x28);
    lemma_u32le_bytes(s, 0x2C);
    lemma_u16le_bytes(s, 0x30);
    lemma_u16le_bytes(s, 0x32);
    lemma_u32le_bytes(s, 0x34);
    lemma_u32le_bytes(s, 0x38);
    lemma_u32le_bytes(s, 0x3C);
    lemma_u32le_bytes(s, 0x40);
    lemma_u16le_bytes(s, 0x44);
    lemma_u16le_bytes(s, 0x46);
    lemma_u16le_bytes(s, 0x48);
    lemma_u16le_bytes(s, 0x4A);
    lemma_u32le_bytes(s, 0x4C);
    let o = 0x14int;
    lemma_subrange_concat(s, o, 0x18, 0x1C);
    lemma_subrange_concat(s, o, 0x1C, 0x20);
    lemma_subrange_concat(s, o, 0x20, 0x22);
    lemma_subrange_concat(s, o, 0x22, 0x24);
    lemma_subrange_concat(s, o, 0x24, 0x28);
    lemma_subrange_concat(s, o, 0x28, 0x2C);
    lemma_subrange_concat(s, o, 0x2C, 0x30);
    lemma_subrange_concat(s, o, 0x30, 0x32);
    lemma_subrange_concat(s, o, 0x32, 0x34);
    lemma_subrange_concat(s, o, 0x34, 0x38);
    lemma_subrange_concat(s, o, 0x38, 0x3C);
    lemma_subrange_concat(s, o, 0x3C, 0x40);
    lemma_subrange_concat(s, o, 0x40, 0x44);
    lemma_subrange_concat(s, o, 0x44, 0x46);
    lemma_subrange_concat(s, o, 0x46, 0x48);
    lemma_subrange_concat(s, o, 0x48, 0x4A);
    lemma_subrange_concat(s, o, 0x4A, 0x4C);
    lemma_subrange_concat(s, o, 0x4C, 0x50);
}

/// Six abutting pieces that cover `d` concatenate to `d`.
proof fn lemma_six_pieces(
    d: Seq<u8>,
    c: (int, int, int, int, int),
    pieces: (Seq<u8>, Seq<u8>, Seq<u8>, Seq<u8>, Seq<u8>, Seq<u8>),
)
    requires
        0 <= c.0 <= c.1 <= c.2 <= c.3 <= c.4 <= d.len(),
        d.subrange(0, c.0) == pieces.0,
        d.subrange(c.0, c.1) == pieces.1,
        d.subrange(c.1, c.2) == pieces.2,
        d.subrange(c.2, c.3) == pieces.3,
        d.subrange(c.3, c.4) == pieces.4,
        d.subrange(c.4, d.len() as int) == pieces.5,
    ensures
        pieces.0 + pieces.1 + pieces.2 + pieces.3 + pieces.4 + pieces.5 == d,
{
    lemma_subrange_concat(d, 0, c.0, c.1);
    lemma_subrange_concat(d, 0, c.1, c.2);
    lemma_subrange_concat(d, 0, c.2, c.3);
    lemma_subrange_concat(d, 0, c.3, c.4);
    lemma_subrange_concat(d, 0, c.4, d.len() as int);
    assert(d.subrange(0, d.len() as int) =~= d);
}

/// Re-serializing a parsed texture archive gives back exactly its
/// bytes, wherever its name slots are zero after each name.
pub proof fn lemma_btx_bytes_roundtrip(d: Seq<u8>, b: Btx)
    requires
        btx_ok(d),
        btx_padded(d),
        b.parsed_from(d),
    ensures
        b.spec_bytes() == d,
{
    lemma_btx_sizes(b, d);
    lemma_btx_head(b, d);
    lemma_btx_info(b, d);
    lemma_tex_dict(b, d);
    lemma_pltt_dict(b, d);
    let p = 0x14 + pltt_dict_off(d);
    let t = 0x14 + ofs_tex(d);
    let q = 0x14 + ofs_pltt(d);
    assert(d.subrange(t, q) == b.spec_tex_data());
    assert(d.subrange(q, d.len() as int) == b.spec_pltt_data());
    lemma_six_pieces(
        d,
        (0x14, 0x50, p, t, q),
        (
            b.spec_head_bytes(),
            b.spec_info_bytes(),
            b.spec_tex_dict_bytes(),
            b.spec_pltt_dict_bytes(),
            b.spec_tex_data(),
            b.spec_pltt_data(),
        ),
    );
}

} // verus!

//! NCGR — Nitro Character: raw BG/sprite tile data. Magic `RGCN`.
//!
//! A NCGR holds one sheet of 8×8 tiles in up to two sections:
//!
//! - CHAR (`RAHC`): the tile data, prefixed by a character header:
//!
//!   ```text
//!   +0x00 2  H        tile rows (0xFFFF = none; linear OBJ data)
//!   +0x02 2  W        tile columns (0xFFFF = none)
//!   +0x04 4  fmt      GXTexFmt (3 = 4bpp, 4 = 8bpp)
//!   +0x08 4  mapping  GXOBJVRamModeChar (see CharMapping)
//!   +0x0C 4  charFmt  low byte = character format; bit 8 = VRAM-transfer
//!   +0x10 4  szByte   tile data size in bytes
//!   +0x14 4  dataOff  tile data offset from the header start (always 24)
//!   ```
//!
//! - CPOS (`SOPC`, optional): the sheet size again, width then height in
//!   tiles, as `u32 0, u16 W, u16 H`.

use vstd::prelude::*;
use crate::formats::{
    nitro_sections, nitro_ok, nitro_count, nitro_section_at, nitro_section_ok, nitro_sec_off,
    pixel_fmt_raw, NitroSection, PixelFmt,
};
use crate::nds::{
    NdsError, spec_u16le, spec_u32le, u16le, u32le, slice_range, le16, le32, push_le16, push_le32,
    push_bytes, lemma_u16le_bytes, lemma_u32le_bytes, lemma_subrange_concat,
};

verus! {

/// How a sheet of OBJ tiles maps into VRAM (`GXOBJVRamModeChar`); the
/// raw values are the packed `GX_DISPCNT` bits.
#[derive(Debug, Clone, Copy, PartialEq, Eq, Hash, Structural)]
pub enum CharMapping {
    /// 2D mapping (raw 0).
    TwoD,
    /// 1D mapping, 32 KB boundary (raw 0x10).
    OneD32K,
    /// 1D mapping, 64 KB boundary (raw 0x00100010).
    OneD64K,
    /// 1D mapping, 128 KB boundary (raw 0x00200010).
    OneD128K,
    /// 1D mapping, 256 KB boundary (raw 0x00300010).
    OneD256K,
}

/// The raw value of a mapping mode.
pub open spec fn char_mapping_raw(m: CharMapping) -> u32 {
    match m {
        CharMapping::TwoD => 0,
        CharMapping::OneD32K => 0x10,
        CharMapping::OneD64K => 0x0010_0010,
        CharMapping::OneD128K => 0x0020_0010,
        CharMapping::OneD256K => 0x0030_0010,
    }
}

/// Whether `raw` names a mapping mode.
pub open spec fn char_mapping_valid(raw: u32) -> bool {
    raw == 0 || raw == 0x10 || raw == 0x0010_0010 || raw == 0x0020_0010 || raw == 0x0030_0010
}

impl CharMapping {
    /// Decodes a raw `GXOBJVRamModeChar`; fails for any other value.
    pub fn from_raw(raw: u32) -> (res: Result<Self, NdsError>)
        ensures
            res is Ok <==> char_mapping_valid(raw),
            res matches Ok(m) ==> char_mapping_raw(m) == raw,
    {
        if raw == 0 {
            Ok(CharMapping::TwoD)
        } else if raw == 0x10 {
            Ok(CharMapping::OneD32K)
        } else if raw == 0x0010_0010 {
            Ok(CharMapping::OneD64K)
        } else if raw == 0x0020_0010 {
            Ok(CharMapping::OneD128K)
        } else if raw == 0x0030_0010 {
            Ok(CharMapping::OneD256K)
        } else {
            Err(NdsError::Invalid { what: "unknown GXOBJVRamModeChar" })
        }
    }

    /// The raw value (the inverse of [`CharMapping::from_raw`]).
    pub fn raw(self) -> (res: u32)
        ensures
            res == char_mapping_raw(self),
    {
        match self {
            CharMapping::TwoD => 0,
            CharMapping::OneD32K => 0x10,
            CharMapping::OneD64K => 0x0010_0010,
            CharMapping::OneD128K => 0x0020_0010,
            CharMapping::OneD256K => 0x0030_0010,
        }
    }
}

/// The CHAR section of a well-formed character file.
pub open spec fn char_sec(s: Seq<u8>) -> NitroSection {
    nitro_section_at(s, 0)
}

/// Whether `s` is a character file the parser accepts.
pub open spec fn ncgr_ok(s: Seq<u8>) -> bool {
    let sec = char_sec(s);
    let o = sec.offset as int;
    let fmt = spec_u32le(s, o + 0x0C);
    &&& nitro_ok(s, seq![0x52u8, 0x47, 0x43, 0x4E], 2)
    &&& sec.spec_is(0x52, 0x41, 0x48, 0x43)
    &&& o + 0x20 <= s.len()
    &&& (fmt == 3 || fmt == 4)
    &&& char_mapping_valid(spec_u32le(s, o + 0x10))
    &&& spec_u32le(s, o + 0x1C) == 0x18
    &&& 0x20 + spec_u32le(s, o + 0x18) == sec.size
    &&& nitro_count(s) == 2 ==> {
        let c = nitro_section_at(s, 1);
        &&& c.spec_is(0x53, 0x4F, 0x50, 0x43)
        &&& c.size == 0x10
        &&& spec_u32le(s, c.offset + 8) == 0
    }
}

/// A parsed NCGR. Borrows the file bytes; see [`Ncgr::parse`].
#[derive(Debug)]
pub struct Ncgr<'a> {
    version: u16,
    height: u16,
    width: u16,
    pixel_fmt: PixelFmt,
    mapping: CharMapping,
    character_fmt: u32,
    tiles: &'a [u8],
    cpos: Option<(u16, u16)>,
}

/// Whether `data` begins with a NCGR header.
pub fn is_ncgr(data: &[u8]) -> (res: bool)
    ensures
        res == (data@.len() >= 6 && data@[0] == 0x52 && data@[1] == 0x47 && data@[2] == 0x43
            && data@[3] == 0x4E && data@[4] == 0xFF && data@[5] == 0xFE),
{
    data.len() >= 6 && data[0] == 0x52 && data[1] == 0x47 && data[2] == 0x43 && data[3] == 0x4E
        && data[4] == 0xFF && data[5] == 0xFE
}

impl<'a> Ncgr<'a> {
    #[verifier::type_invariant]
    spec fn inv(self) -> bool {
        self.tiles@.len() <= u32::MAX
    }

    /// The container version.
    pub closed spec fn spec_version(&self) -> u16 {
        self.version
    }

    /// The raw `H` field.
    pub closed spec fn spec_height(&self) -> u16 {
        self.height
    }

    /// The raw `W` field.
    pub closed spec fn spec_width(&self) -> u16 {
        self.width
    }

    /// The pixel format.
    pub closed spec fn spec_pixel_fmt(&self) -> PixelFmt {
        self.pixel_fmt
    }

    /// The mapping mode.
    pub closed spec fn spec_mapping(&self) -> CharMapping {
        self.mapping
    }

    /// The raw `characterFmt` field.
    pub closed spec fn spec_character_fmt(&self) -> u32 {
        self.character_fmt
    }

    /// The tile bytes.
    pub closed spec fn spec_tiles(&self) -> Seq<u8> {
        self.tiles@
    }

    /// The CPOS pair, when present.
    pub closed spec fn spec_cpos(&self) -> Option<(u16, u16)> {
        self.cpos
    }

    /// How a parse of `s` relates the fields to the bytes.
    pub open spec fn parsed_from(&self, s: Seq<u8>) -> bool {
        let o = char_sec(s).offset as int;
        &&& self.spec_version() == spec_u16le(s, 6)
        &&& self.spec_height() == spec_u16le(s, o + 8)
        &&& self.spec_width() == spec_u16le(s, o + 0x0A)
        &&& pixel_fmt_raw(self.spec_pixel_fmt()) == spec_u32le(s, o + 0x0C)
        &&& char_mapping_raw(self.spec_mapping()) == spec_u32le(s, o + 0x10)
        &&& self.spec_character_fmt() == spec_u32le(s, o + 0x14)
        &&& self.spec_tiles() == s.subrange(o + 0x20, o + char_sec(s).size)
        &&& self.spec_cpos() == (if nitro_count(s) == 2 {
            let c = nitro_section_at(s, 1).offset as int;
            Some((spec_u16le(s, c + 0x0C), spec_u16le(s, c + 0x0E)))
        } else {
            None
        })
    }

    /// The container header [`Ncgr::to_bytes`] writes.
    pub open spec fn spec_head(&self) -> Seq<u8> {
        let total = 0x30 + self.spec_tiles().len() + if self.spec_cpos() is Some {
            0x10int
        } else {
            0
        };
        let count: u16 = if self.spec_cpos() is Some {
            2
        } else {
            1
        };
        seq![0x52u8, 0x47, 0x43, 0x4E] + le16(0xFEFF) + le16(self.spec_version()) + le32(
            total as u32,
        ) + le16(0x10) + le16(count)
    }

    /// The CHAR section [`Ncgr::to_bytes`] writes.
    pub open spec fn spec_char(&self) -> Seq<u8> {
        let tiles = self.spec_tiles();
        seq![0x52u8, 0x41, 0x48, 0x43] + le32((0x20 + tiles.len()) as u32) + le16(self.spec_height())
            + le16(self.spec_width()) + le32(pixel_fmt_raw(self.spec_pixel_fmt())) + le32(
            char_mapping_raw(self.spec_mapping()),
        ) + le32(self.spec_character_fmt()) + le32(tiles.len() as u32) + le32(0x18) + tiles
    }

    /// The CPOS section [`Ncgr::to_bytes`] writes (empty without one).
    pub open spec fn spec_cpos_bytes(&self) -> Seq<u8> {
        match self.spec_cpos() {
            Some((w, h)) => seq![0x53u8, 0x4F, 0x50, 0x43] + le32(0x10) + le32(0) + le16(w) + le16(h),
            None => Seq::<u8>::empty(),
        }
    }

    /// The container form [`Ncgr::to_bytes`] writes.
    pub open spec fn spec_bytes(&self) -> Seq<u8> {
        self.spec_head() + self.spec_char() + self.spec_cpos_bytes()
    }

    /// Parses a complete NCGR file. Fails when the container, the CHAR
    /// section or the CPOS section is malformed or inconsistent.
    pub fn parse(data: &'a [u8]) -> (res: Result<Self, NdsError>)
        ensures
            res is Ok <==> ncgr_ok(data@),
            res matches Ok(n) ==> n.parsed_from(data@),
    {
        let (version, sections) = nitro_sections(data, [0x52, 0x47, 0x43, 0x4E], 2)?;
        assert(seq![0x52u8, 0x47, 0x43, 0x4E] =~= [0x52u8, 0x47, 0x43, 0x4E]@);
        Self::from_sections(data, version, &sections)
    }

    fn from_sections(data: &'a [u8], version: u16, sections: &Vec<NitroSection>) -> (res: Result<
        Self,
        NdsError,
    >)
        requires
            nitro_ok(data@, seq![0x52u8, 0x47, 0x43, 0x4E], 2),
            version == spec_u16le(data@, 6),
            sections@.len() == nitro_count(data@),
            forall|i: int|
                0 <= i < sections@.len() ==> #[trigger] sections@[i] == nitro_section_at(data@, i),
        ensures
            res is Ok <==> ncgr_ok(data@),
            res matches Ok(n) ==> n.parsed_from(data@),
    {
        let sec = sections[0];
        assert(nitro_section_ok(data@, nitro_sec_off(data@, 0)));
        if !sec.is(0x52, 0x41, 0x48, 0x43) {
            return Err(NdsError::Invalid { what: "NCGR's first section is not CHAR" });
        }
        let height = u16le(data, sec.offset + 8)?;
        let width = u16le(data, sec.offset + 0xA)?;
        let pixel_fmt = PixelFmt::from_raw(u32le(data, sec.offset + 0xC)?)?;
        let mapping = CharMapping::from_raw(u32le(data, sec.offset + 0x10)?)?;
        let character_fmt = u32le(data, sec.offset + 0x14)?;
        let sz_byte = u32le(data, sec.offset + 0x18)?;
        let data_off = u32le(data, sec.offset + 0x1C)?;
        if data_off != 0x18 {
            return Err(NdsError::Invalid { what: "CHAR tile data offset (always 0x18 on retail files)" });
        }
        if 0x20 + sz_byte as u64 != sec.size as u64 {
            return Err(NdsError::Invalid { what: "CHAR section size disagrees with its tile data" });
        }
        let tiles = slice_range(data, sec.offset + 0x20, sec.offset + sec.size);
        let mut cpos: Option<(u16, u16)> = None;
        if sections.len() == 2 {
            let c = sections[1];
            assert(nitro_section_ok(data@, nitro_sec_off(data@, 1)));
            if !c.is(0x53, 0x4F, 0x50, 0x43) {
                return Err(NdsError::Invalid { what: "NCGR's second section is not CPOS" });
            }
            if c.size != 0x10 {
                return Err(NdsError::Invalid { what: "CPOS section body" });
            }
            if u32le(data, c.offset + 8)? != 0 {
                return Err(NdsError::Invalid { what: "CPOS section body" });
            }
            let w = u16le(data, c.offset + 0xC)?;
            let h = u16le(data, c.offset + 0xE)?;
            cpos = Some((w, h));
        }
        Ok(Ncgr { version, height, width, pixel_fmt, mapping, character_fmt, tiles, cpos })
    }

    /// The container version (0x0100 or 0x0101 in HeartGold).
    pub fn version(&self) -> (res: u16)
        ensures
            res == self.spec_version(),
    {
        self.version
    }

    /// The sheet height in tiles; `None` for linear OBJ data
    /// (`H == 0xFFFF`).
    pub fn height(&self) -> (res: Option<u16>)
        ensures
            res == (if self.spec_height() == 0xFFFF {
                None
            } else {
                Some(self.spec_height())
            }),
    {
        if self.height != 0xFFFF {
            Some(self.height)
        } else {
            None
        }
    }

    /// The sheet width in tiles; `None` for linear OBJ data
    /// (`W == 0xFFFF`).
    pub fn width(&self) -> (res: Option<u16>)
        ensures
            res == (if self.spec_width() == 0xFFFF {
                None
            } else {
                Some(self.spec_width())
            }),
    {
        if self.width != 0xFFFF {
            Some(self.width)
        } else {
            None
        }
    }

    /// The pixel format (4 or 8 bpp).
    pub fn pixel_fmt(&self) -> (res: PixelFmt)
        ensures
            res == self.spec_pixel_fmt(),
    {
        self.pixel_fmt
    }

    /// Bits per pixel: 4 or 8.
    pub fn bpp(&self) -> (res: u8)
        ensures
            res == (if self.spec_pixel_fmt() == PixelFmt::Pltt16 { 4u8 } else { 8u8 }),
    {
        self.pixel_fmt.bpp()
    }

    /// The OBJ VRAM mapping mode.
    pub fn mapping(&self) -> (res: CharMapping)
        ensures
            res == self.spec_mapping(),
    {
        self.mapping
    }

    /// The raw `characterFmt` field.
    pub fn character_fmt(&self) -> (res: u32)
        ensures
            res == self.spec_character_fmt(),
    {
        self.character_fmt
    }

    /// Whether `characterFmt` carries the VRAM-transfer flag (bit 8).
    pub fn has_vram_transfer(&self) -> (res: bool)
        ensures
            res == (self.spec_character_fmt() & 0x100 != 0),
    {
        self.character_fmt & 0x100 != 0
    }

    /// The tile data, `szByte` bytes of raw pixels.
    pub fn tile_data(&self) -> (res: &'a [u8])
        ensures
            res@ == self.spec_tiles(),
    {
        self.tiles
    }

    /// The number of complete 8×8 tiles in the sheet.
    pub fn tile_count(&self) -> (res: usize)
        ensures
            res == self.spec_tiles().len() / (if self.spec_pixel_fmt() == PixelFmt::Pltt16 {
                32nat
            } else {
                64
            }),
    {
        self.tiles.len() / self.pixel_fmt.tile_size()
    }

    /// The CPOS sheet size, `(width, height)` in tiles, when present.
    pub fn cpos(&self) -> (res: Option<(u16, u16)>)
        ensures
            res == self.spec_cpos(),
    {
        self.cpos
    }

    fn head_bytes(&self) -> (res: Vec<u8>)
        requires
            self.spec_tiles().len() <= u32::MAX,
        ensures
            res@ == self.spec_head(),
    {
        let n = self.tiles.len();
        let total: u64 = 0x30 + n as u64 + if self.cpos.is_some() {
            0x10u64
        } else {
            0
        };
        let count: u16 = if self.cpos.is_some() {
            2
        } else {
            1
        };
        let mut out: Vec<u8> = Vec::new();
        out.push(0x52);
        out.push(0x47);
        out.push(0x43);
        out.push(0x4E);
        push_le16(&mut out, 0xFEFF);
        push_le16(&mut out, self.version);
        push_le32(&mut out, #[verifier::truncate] (total as u32));
        push_le16(&mut out, 0x10);
        push_le16(&mut out, count);
        assert(out@ =~= self.spec_head());
        out
    }

    fn char_bytes(&self) -> (res: Vec<u8>)
        requires
            self.spec_tiles().len() <= u32::MAX,
        ensures
            res@ == self.spec_char(),
    {
        let n = self.tiles.len();
        let mut chr: Vec<u8> = Vec::new();
        chr.push(0x52);
        chr.push(0x41);
        chr.push(0x48);
        chr.push(0x43);
        push_le32(&mut chr, #[verifier::truncate] ((0x20 + n as u64) as u32));
        push_le16(&mut chr, self.height);
        push_le16(&mut chr, self.width);
        push_le32(&mut chr, self.pixel_fmt.raw());
        push_le32(&mut chr, self.mapping.raw());
        push_le32(&mut chr, self.character_fmt);
        push_le32(&mut chr, n as u32);
        push_le32(&mut chr, 0x18);
        let ghost fixed = chr@;
        push_bytes(&mut chr, self.tiles);
        assert(fixed =~= seq![0x52u8, 0x41, 0x48, 0x43] + le32((0x20 + self.spec_tiles().len()) as u32) + le16(self.spec_height())
            + le16(self.spec_width()) + le32(pixel_fmt_raw(self.spec_pixel_fmt())) + le32(
            char_mapping_raw(self.spec_mapping()),
        ) + le32(self.spec_character_fmt()) + le32(self.spec_tiles().len() as u32) + le32(0x18));
        chr
    }

    fn cpos_bytes(&self) -> (res: Vec<u8>)
        ensures
            res@ == self.spec_cpos_bytes(),
    {
        let mut tail: Vec<u8> = Vec::new();
        if let Some((w, h)) = self.cpos {
            tail.push(0x53);
            tail.push(0x4F);
            tail.push(0x50);
            tail.push(0x43);
            push_le32(&mut tail, 0x10);
            push_le32(&mut tail, 0);
            push_le16(&mut tail, w);
            push_le16(&mut tail, h);
        }
        assert(tail@ =~= self.spec_cpos_bytes());
        tail
    }

    /// Re-serializes the parsed NCGR into its container form.
    pub fn to_bytes(&self) -> (res: Vec<u8>)
        ensures
            res@ == self.spec_bytes(),
    {
        proof {
            use_type_invariant(self);
        }
        let mut out = self.head_bytes();
        let chr = self.char_bytes();
        push_bytes(&mut out, chr.as_slice());
        let tail = self.cpos_bytes();
        push_bytes(&mut out, tail.as_slice());
        out
    }
}

/// Re-serializing a parsed character file gives back exactly its bytes.
#[verifier::spinoff_prover]
#[verifier::rlimit(40)]
pub proof fn lemma_ncgr_bytes_roundtrip(d: Seq<u8>, n: Ncgr)
    requires
        ncgr_ok(d),
        n.parsed_from(d),
    ensures
        n.spec_bytes() == d,
{
    let o = 0x10int;
    assert(nitro_sec_off(d, 0) == o);
    assert(nitro_section_ok(d, nitro_sec_off(d, 0)));
    let size = char_sec(d).size as int;
    assert(size == spec_u32le(d, o + 4));
    let tl = n.spec_tiles().len() as int;
    assert(tl == size - 0x20);
    // The header.
    lemma_u16le_bytes(d, 4);
    lemma_u16le_bytes(d, 6);
    lemma_u32le_bytes(d, 8);
    lemma_u16le_bytes(d, 0x0C);
    lemma_u16le_bytes(d, 0x0E);
    lemma_subrange_concat(d, 0, 4, 6);
    lemma_subrange_concat(d, 0, 6, 8);
    lemma_subrange_concat(d, 0, 8, 12);
    lemma_subrange_concat(d, 0, 12, 14);
    lemma_subrange_concat(d, 0, 14, 16);
    assert(nitro_sec_off(d, 1) == o + size);
    if nitro_count(d) == 2 {
        assert(nitro_section_ok(d, nitro_sec_off(d, 1)));
        assert(nitro_sec_off(d, 2) == o + size + 0x10);
    }
    assert(d.len() == 0x30 + tl + if n.spec_cpos() is Some {
        0x10int
    } else {
        0
    });
    assert(d.subrange(0, 16) == n.spec_head());
    // The CHAR section.
    lemma_u32le_bytes(d, o + 4);
    lemma_u16le_bytes(d, o + 8);
    lemma_u16le_bytes(d, o + 0x0A);
    lemma_u32le_bytes(d, o + 0x0C);
    lemma_u32le_bytes(d, o + 0x10);
    lemma_u32le_bytes(d, o + 0x14);
    lemma_u32le_bytes(d, o + 0x18);
    lemma_u32le_bytes(d, o + 0x1C);
    assert(d.subrange(o, o + 4) =~= seq![0x52u8, 0x41, 0x48, 0x43]);
    lemma_subrange_concat(d, o, o + 4, o + 8);
    lemma_subrange_concat(d, o, o + 8, o + 10);
    lemma_subrange_concat(d, o, o + 10, o + 12);
    lemma_subrange_concat(d, o, o + 12, o + 16);
    lemma_subrange_concat(d, o, o + 16, o + 20);
    lemma_subrange_concat(d, o, o + 20, o + 24);
    lemma_subrange_concat(d, o, o + 24, o + 28);
    lemma_subrange_concat(d, o, o + 28, o + 32);
    lemma_subrange_concat(d, o, o + 32, o + size);
    assert(d.subrange(o, o + size) == n.spec_char());
    lemma_subrange_concat(d, 0, o, o + size);
    // The CPOS section.
    if nitro_count(d) == 2 {
        let c = o + size;
        lemma_u32le_bytes(d, c + 4);
        lemma_u32le_bytes(d, c + 8);
        lemma_u16le_bytes(d, c + 0x0C);
        lemma_u16le_bytes(d, c + 0x0E);
        assert(d.subrange(c, c + 4) =~= seq![0x53u8, 0x4F, 0x50, 0x43]);
        lemma_subrange_concat(d, c, c + 4, c + 8);
        lemma_subrange_concat(d, c, c + 8, c + 12);
        lemma_subrange_concat(d, c, c + 12, c + 14);
        lemma_subrange_concat(d, c, c + 14, c + 16);
        assert(d.subrange(c, c + 16) == n.spec_cpos_bytes());
        lemma_subrange_concat(d, 0, c, c + 16);
    } else {
        assert(n.spec_cpos_bytes() =~= Seq::<u8>::empty());
    }
    assert(d.subrange(0, d.len() as int) =~= d);
}

} // verus!

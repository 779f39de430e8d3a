//! NCLR — Nitro Color: BG/sprite palettes. Magic `RLCN`.
//!
//! Beyond the shared container header a NCLR carries up to two
//! sections, in order:
//!
//! - PLTT (`TTLP`): a palette header followed by the palette bytes:
//!
//!   ```text
//!   +0x00 4  fmt     GXTexFmt (3 = 4bpp/16 colors, 4 = 8bpp/256 colors;
//!                    the follower-sprite archives store 0x000A0004)
//!   +0x04 4  bExt    1 = extended-palette bank
//!   +0x08 4  szByte  logical palette size the game consumes
//!   +0x0C 4  dataOff palette offset from the header start (always 16)
//!   ```
//!
//!   `szByte` can exceed the bytes actually stored: the section may
//!   hold only the unique palettes while PMCP maps each slot onto one.
//! - PMCP (optional): `u16 numPalette`, `u16 pad (0xBEEF)`, `u32 table
//!   offset (always 8)`, then `numPalette` u16 indices into the stored
//!   palettes.

use vstd::prelude::*;
use crate::formats::{
    nitro_sections, nitro_ok, nitro_count, nitro_section_at, nitro_section_ok, nitro_sec_off,
    NitroSection, PixelFmt,
};
use crate::nds::{NdsError, spec_u16le, spec_u32le, u16le, u32le, slice_range};

verus! {

/// The raw `fmt` of the follower-sprite palettes: ordinary 16-color
/// palettes with flag bits above the `GXTexFmt` value.
pub const FLAGGED_16C_FMT: u32 = 0x000A_0004;

/// The palette-mapping table: which stored palette each slot uses.
#[derive(Debug)]
pub struct Pmcp {
    num_palettes: u16,
    indices: Vec<u16>,
}

impl Pmcp {
    /// The number of palette slots.
    pub closed spec fn spec_num_palettes(&self) -> u16 {
        self.num_palettes
    }

    /// The stored-palette index of each slot.
    pub closed spec fn spec_indices(&self) -> Seq<u16> {
        self.indices@
    }

    /// The number of palette slots.
    pub fn num_palettes(&self) -> (res: u16)
        ensures
            res == self.spec_num_palettes(),
    {
        self.num_palettes
    }

    /// The stored-palette index that slot `slot` uses; fails past the
    /// last slot.
    pub fn palette_of(&self, slot: usize) -> (res: Result<u16, NdsError>)
        ensures
            slot < self.spec_indices().len() ==> res == Ok::<u16, NdsError>(
                self.spec_indices()[slot as int],
            ),
            slot >= self.spec_indices().len() ==> res is Err,
    {
        if slot < self.indices.len() {
            Ok(self.indices[slot])
        } else {
            Err(NdsError::Invalid { what: "PMCP palette slot out of range" })
        }
    }
}

/// Whether the PMCP section `sec` of `s` is well formed.
pub open spec fn pmcp_ok(s: Seq<u8>, sec: NitroSection) -> bool {
    let o = sec.offset as int;
    &&& o + 0x10 <= s.len()
    &&& spec_u16le(s, o + 0x0A) == 0xBEEF
    &&& spec_u32le(s, o + 0x0C) == 8
    &&& sec.size == 0x10 + 2 * spec_u16le(s, o + 8)
}

/// The PLTT section of a well-formed palette file.
pub open spec fn pltt(s: Seq<u8>) -> NitroSection {
    nitro_section_at(s, 0)
}

/// Whether `s` is a palette file the parser accepts.
pub open spec fn nclr_ok(s: Seq<u8>) -> bool {
    let sec = pltt(s);
    let o = sec.offset as int;
    let fmt = spec_u32le(s, o + 8);
    &&& nitro_ok(s, seq![0x52u8, 0x4C, 0x43, 0x4E], 2)
    &&& sec.spec_is(0x54, 0x54, 0x4C, 0x50)
    &&& o + 0x18 <= s.len()
    &&& (fmt == 3 || fmt == 4 || fmt == FLAGGED_16C_FMT)
    &&& spec_u32le(s, o + 0x14) == 0x10
    &&& sec.size >= 0x18
    &&& nitro_count(s) == 2 ==> {
        &&& nitro_section_at(s, 1).spec_is(0x50, 0x4D, 0x43, 0x50)
        &&& pmcp_ok(s, nitro_section_at(s, 1))
    }
}

/// A parsed NCLR. Borrows the file bytes; see [`Nclr::parse`].
#[derive(Debug)]
pub struct Nclr<'a> {
    version: u16,
    pixel_fmt: PixelFmt,
    fmt_raw: u32,
    extended: bool,
    stored: &'a [u8],
    logical_size: u32,
    pmcp: Option<Pmcp>,
}

/// Whether `data` begins with a NCLR header.
pub fn is_nclr(data: &[u8]) -> (res: bool)
    ensures
        res == (data@.len() >= 6 && data@[0] == 0x52 && data@[1] == 0x4C && data@[2] == 0x43
            && data@[3] == 0x4E && data@[4] == 0xFF && data@[5] == 0xFE),
{
    data.len() >= 6 && data[0] == 0x52 && data[1] == 0x4C && data[2] == 0x43 && data[3] == 0x4E
        && data[4] == 0xFF && data[5] == 0xFE
}

fn parse_pmcp(data: &[u8], sec: &NitroSection) -> (res: Result<Pmcp, NdsError>)
    requires
        nitro_section_ok(data@, sec.offset as int),
        sec.size == spec_u32le(data@, sec.offset + 4),
    ensures
        res is Ok <==> pmcp_ok(data@, *sec),
        res matches Ok(p) ==> {
            let o = sec.offset as int;
            &&& p.spec_num_palettes() == spec_u16le(data@, o + 8)
            &&& p.spec_indices().len() == p.spec_num_palettes()
            &&& forall|i: int|
                0 <= i < p.spec_indices().len() ==> #[trigger] p.spec_indices()[i] == spec_u16le(
                    data@,
                    o + 0x10 + 2 * i,
                )
        },
{
    let o = sec.offset;
    let len = data.len();
    assert(o + 0x10 <= len || !pmcp_ok(data@, *sec));
    if len - o < 0x10 {
        return Err(NdsError::Truncated { what: "PMCP header", need: o.saturating_add(0x10), got: len });
    }
    let num = u16le(data, o + 8)?;
    let pad = u16le(data, o + 0xA)?;
    let table_off = u32le(data, o + 0xC)?;
    if pad != 0xBEEF {
        return Err(NdsError::Invalid { what: "PMCP pad (the SDK's 0xBEEF marker)" });
    }
    if table_off != 8 {
        return Err(NdsError::Invalid { what: "PMCP table offset (always 8 on retail files)" });
    }
    if sec.size != 0x10 + 2 * num as usize {
        return Err(NdsError::Invalid { what: "PMCP section size disagrees with the palette count" });
    }
    let mut indices: Vec<u16> = Vec::new();
    let mut i: usize = 0;
    while i < num as usize
        invariant
            o == sec.offset,
            o + 0x10 + 2 * num <= data@.len(),
            data@.len() == data.len(),
            i <= num,
            indices@.len() == i,
            forall|k: int| 0 <= k < i ==> #[trigger] indices@[k] == spec_u16le(data@, o + 0x10 + 2 * k),
        decreases num - i,
    {
        let v = u16le(data, o + 0x10 + 2 * i)?;
        indices.push(v);
        i = i + 1;
    }
    Ok(Pmcp { num_palettes: num, indices })
}

impl<'a> Nclr<'a> {
    /// The container version.
    pub closed spec fn spec_version(&self) -> u16 {
        self.version
    }

    /// The pixel format.
    pub closed spec fn spec_pixel_fmt(&self) -> PixelFmt {
        self.pixel_fmt
    }

    /// The raw `fmt` field.
    pub closed spec fn spec_fmt_raw(&self) -> u32 {
        self.fmt_raw
    }

    /// Whether the bank is an extended-palette bank.
    pub closed spec fn spec_extended(&self) -> bool {
        self.extended
    }

    /// The stored palette bytes.
    pub closed spec fn spec_stored(&self) -> Seq<u8> {
        self.stored@
    }

    /// The logical palette size.
    pub closed spec fn spec_logical_size(&self) -> u32 {
        self.logical_size
    }

    /// Whether a PMCP table is present.
    pub closed spec fn spec_has_pmcp(&self) -> bool {
        self.pmcp is Some
    }

    /// The PMCP table, when present.
    pub closed spec fn spec_pmcp(&self) -> Pmcp {
        self.pmcp->0
    }

    /// Parses a complete NCLR file. Fails when the container, the PLTT
    /// section or the PMCP section is malformed or inconsistent.
    pub fn parse(data: &'a [u8]) -> (res: Result<Self, NdsError>)
        ensures
            res is Ok <==> nclr_ok(data@),
            res matches Ok(n) ==> {
                let o = pltt(data@).offset as int;
                let fmt = spec_u32le(data@, o + 8);
                &&& n.spec_version() == spec_u16le(data@, 6)
                &&& n.spec_fmt_raw() == fmt
                &&& n.spec_pixel_fmt() == (if fmt == 4 {
                    PixelFmt::Pltt256
                } else {
                    PixelFmt::Pltt16
                })
                &&& n.spec_extended() == (spec_u32le(data@, o + 0x0C) != 0)
                &&& n.spec_logical_size() == spec_u32le(data@, o + 0x10)
                &&& n.spec_stored() == data@.subrange(o + 0x18, o + pltt(data@).size)
                &&& n.spec_has_pmcp() == (nitro_count(data@) == 2)
                &&& n.spec_has_pmcp() ==> {
                    let p = nitro_section_at(data@, 1).offset as int;
                    &&& n.spec_pmcp().spec_num_palettes() == spec_u16le(data@, p + 8)
                    &&& n.spec_pmcp().spec_indices().len() == n.spec_pmcp().spec_num_palettes()
                    &&& forall|i: int|
                        0 <= i < n.spec_pmcp().spec_indices().len()
                            ==> #[trigger] n.spec_pmcp().spec_indices()[i] == spec_u16le(
                            data@,
                            p + 0x10 + 2 * i,
                        )
                }
            },
    {
        let (version, sections) = nitro_sections(data, [0x52, 0x4C, 0x43, 0x4E], 2)?;
        assert(seq![0x52u8, 0x4C, 0x43, 0x4E] =~= [0x52u8, 0x4C, 0x43, 0x4E]@);
        let sec = sections[0];
        assert(nitro_section_ok(data@, nitro_sec_off(data@, 0)));
        if !sec.is(0x54, 0x54, 0x4C, 0x50) {
            return Err(NdsError::Invalid { what: "NCLR's first section is not PLTT" });
        }
        let fmt_raw = u32le(data, sec.offset + 8)?;
        let pixel_fmt = if fmt_raw == 3 || fmt_raw == FLAGGED_16C_FMT {
            PixelFmt::Pltt16
        } else if fmt_raw == 4 {
            PixelFmt::Pltt256
        } else {
            return Err(NdsError::Invalid { what: "unsupported palette GXTexFmt" });
        };
        let extended = u32le(data, sec.offset + 0xC)? != 0;
        let logical_size = u32le(data, sec.offset + 0x10)?;
        let data_off = u32le(data, sec.offset + 0x14)?;
        if data_off != 0x10 {
            return Err(NdsError::Invalid { what: "PLTT palette offset (always 0x10 on retail files)" });
        }
        if sec.size < 0x18 {
            return Err(NdsError::Truncated { what: "PLTT palette data", need: sec.offset + 0x18, got: data.len() });
        }
        let stored = slice_range(data, sec.offset + 0x18, sec.offset + sec.size);
        let mut pmcp: Option<Pmcp> = None;
        if sections.len() == 2 {
            let p = sections[1];
            assert(nitro_section_ok(data@, nitro_sec_off(data@, 1)));
            if !p.is(0x50, 0x4D, 0x43, 0x50) {
                return Err(NdsError::Invalid { what: "NCLR's second section is not PMCP" });
            }
            pmcp = Some(parse_pmcp(data, &p)?);
        }
        Ok(Nclr { version, pixel_fmt, fmt_raw, extended, stored, logical_size, pmcp })
    }

    /// The container version (always 0x0100 in HeartGold).
    pub fn version(&self) -> (res: u16)
        ensures
            res == self.spec_version(),
    {
        self.version
    }

    /// The pixel format the palettes are indexed against.
    pub fn pixel_fmt(&self) -> (res: PixelFmt)
        ensures
            res == self.spec_pixel_fmt(),
    {
        self.pixel_fmt
    }

    /// Bits per pixel: 4 or 8.
    pub fn bpp(&self) -> (res: u8)
        ensures
            res == (if self.spec_pixel_fmt() == PixelFmt::Pltt16 { 4u8 } else { 8u8 }),
    {
        self.pixel_fmt.bpp()
    }

    /// The raw `fmt` field as stored, flag bits included.
    pub fn fmt_raw(&self) -> (res: u32)
        ensures
            res == self.spec_fmt_raw(),
    {
        self.fmt_raw
    }

    /// Whether this is an extended-palette bank.
    pub fn is_extended(&self) -> (res: bool)
        ensures
            res == self.spec_extended(),
    {
        self.extended
    }

    /// The palette bytes actually stored (BGR555, two bytes a color).
    pub fn palette_data(&self) -> (res: &'a [u8])
        ensures
            res@ == self.spec_stored(),
    {
        self.stored
    }

    /// The number of stored colors.
    pub fn color_count(&self) -> (res: usize)
        ensures
            res == self.spec_stored().len() / 2,
    {
        self.stored.len() / 2
    }

    /// The logical palette size (`szByte`) the game consumes.
    pub fn logical_size(&self) -> (res: u32)
        ensures
            res == self.spec_logical_size(),
    {
        self.logical_size
    }

    /// Whether the file stores fewer bytes than the game consumes (the
    /// PMCP table then maps the slots).
    pub fn is_compressed(&self) -> (res: bool)
        ensures
            res == (self.spec_logical_size() > self.spec_stored().len()),
    {
        self.logical_size as usize > self.stored.len()
    }

    /// The PMCP palette-mapping table, if present.
    pub fn pmcp(&self) -> (res: Option<&Pmcp>)
        ensures
            res is Some == self.spec_has_pmcp(),
            res matches Some(p) ==> *p == self.spec_pmcp(),
    {
        match &self.pmcp {
            Some(p) => Some(p),
            None => None,
        }
    }
}

} // verus!

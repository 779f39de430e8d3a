//! NSCR — Nitro Screen: BG map data (which tile goes where). Magic
//! `RCSN`.
//!
//! A single SCRN (`NRCS`) section holding a screen header followed
//! immediately by the map entries:
//!
//! ```text
//! +0x00 2  width        screen width in pixels
//! +0x02 2  height       screen height in pixels
//! +0x04 2  colorMode    0 = 16 colors, 1 = 256 colors (2 also occurs)
//! +0x06 2  screenFormat 0 = text BG (u16 entries: tile | palette<<12 |
//!                      flip bits); 1 and 2 are rotation variants
//! +0x08 4  szByte       map entry bytes that follow this header
//! ```
//!
//! `szByte` is authoritative for the entry bytes; the dimensions are
//! whole tiles.

use vstd::prelude::*;
use crate::formats::{nitro_sections, nitro_ok, nitro_section_at, nitro_section_ok, nitro_sec_off, NitroSection};
use crate::nds::{NdsError, spec_u16le, spec_u32le, u16le, u32le, slice_range};

verus! {

/// The SCRN section of a well-formed screen file.
pub open spec fn scrn(s: Seq<u8>) -> NitroSection {
    nitro_section_at(s, 0)
}

/// Whether `s` is a screen file the parser accepts.
pub open spec fn nscr_ok(s: Seq<u8>) -> bool {
    let sec = scrn(s);
    let o = sec.offset as int;
    &&& nitro_ok(s, seq![0x52u8, 0x43, 0x53, 0x4E], 1)
    &&& sec.spec_is(0x4E, 0x52, 0x43, 0x53)
    &&& o + 0x14 <= s.len()
    &&& spec_u16le(s, o + 8) % 8 == 0
    &&& spec_u16le(s, o + 0x0A) % 8 == 0
    &&& spec_u32le(s, o + 0x10) + 0x14 == sec.size
}

/// A parsed NSCR. Borrows the file bytes; see [`Nscr::parse`].
#[derive(Debug)]
pub struct Nscr<'a> {
    version: u16,
    width: u16,
    height: u16,
    color_mode: u16,
    screen_format: u16,
    entries: &'a [u8],
}

/// Whether `data` begins with a NSCR header.
pub fn is_nscr(data: &[u8]) -> (res: bool)
    ensures
        res == (data@.len() >= 6 && data@.subrange(0, 6) == seq![0x52u8, 0x43, 0x53, 0x4E, 0xFF, 0xFE]),
{
    let r = data.len() >= 6 && data[0] == 0x52 && data[1] == 0x43 && data[2] == 0x53 && data[3]
        == 0x4E && data[4] == 0xFF && data[5] == 0xFE;
    proof {
        if data@.len() >= 6 {
            let t = data@.subrange(0, 6);
            if r {
                assert(t =~= seq![0x52u8, 0x43, 0x53, 0x4E, 0xFF, 0xFE]);
            } else {
                assert(t[0] == data@[0] && t[1] == data@[1] && t[2] == data@[2] && t[3] == data@[3]
                    && t[4] == data@[4] && t[5] == data@[5]);
            }
        }
    }
    r
}

impl<'a> Nscr<'a> {
    /// The container version.
    pub closed spec fn spec_version(&self) -> u16 {
        self.version
    }

    /// The width in pixels.
    pub closed spec fn spec_width(&self) -> u16 {
        self.width
    }

    /// The height in pixels.
    pub closed spec fn spec_height(&self) -> u16 {
        self.height
    }

    /// The raw color mode.
    pub closed spec fn spec_color_mode(&self) -> u16 {
        self.color_mode
    }

    /// The raw screen format.
    pub closed spec fn spec_screen_format(&self) -> u16 {
        self.screen_format
    }

    /// The map entry bytes.
    pub closed spec fn spec_entries(&self) -> Seq<u8> {
        self.entries@
    }

    /// Parses a complete NSCR file. Fails when the container or the SCRN
    /// section is malformed, the dimensions are not whole tiles, or
    /// `szByte` disagrees with the section size.
    pub fn parse(data: &'a [u8]) -> (res: Result<Self, NdsError>)
        ensures
            res is Ok <==> nscr_ok(data@),
            res matches Ok(n) ==> {
                let o = scrn(data@).offset as int;
                &&& n.spec_version() == spec_u16le(data@, 6)
                &&& n.spec_width() == spec_u16le(data@, o + 8)
                &&& n.spec_height() == spec_u16le(data@, o + 0x0A)
                &&& n.spec_color_mode() == spec_u16le(data@, o + 0x0C)
                &&& n.spec_screen_format() == spec_u16le(data@, o + 0x0E)
                &&& n.spec_entries() == data@.subrange(o + 0x14, o + scrn(data@).size)
            },
    {
        let (version, sections) = nitro_sections(data, [0x52, 0x43, 0x53, 0x4E], 1)?;
        assert(seq![0x52u8, 0x43, 0x53, 0x4E] =~= [0x52u8, 0x43, 0x53, 0x4E]@);
        let sec = sections[0];
        assert(sec == scrn(data@));
        assert(nitro_section_ok(data@, nitro_sec_off(data@, 0)));
        if !sec.is(0x4E, 0x52, 0x43, 0x53) {
            return Err(NdsError::Invalid { what: "NSCR's first section is not SCRN" });
        }
        let width = u16le(data, sec.offset + 8)?;
        let height = u16le(data, sec.offset + 0xA)?;
        let color_mode = u16le(data, sec.offset + 0xC)?;
        let screen_format = u16le(data, sec.offset + 0xE)?;
        let sz_byte = u32le(data, sec.offset + 0x10)?;
        if width % 8 != 0 || height % 8 != 0 {
            return Err(NdsError::Invalid { what: "NSCR dimensions are not a whole number of tiles" });
        }
        if sec.size < 0x14 || sz_byte as usize != sec.size - 0x14 {
            return Err(NdsError::Invalid { what: "SCRN section size disagrees with its map data" });
        }
        let entries = slice_range(data, sec.offset + 0x14, sec.offset + sec.size);
        Ok(Nscr { version, width, height, color_mode, screen_format, entries })
    }

    /// The container version (always 0x0100 in HeartGold).
    pub fn version(&self) -> (res: u16)
        ensures
            res == self.spec_version(),
    {
        self.version
    }

    /// The screen width in pixels.
    pub fn width(&self) -> (res: u16)
        ensures
            res == self.spec_width(),
    {
        self.width
    }

    /// The screen height in pixels.
    pub fn height(&self) -> (res: u16)
        ensures
            res == self.spec_height(),
    {
        self.height
    }

    /// The screen width in 8×8 tiles.
    pub fn width_tiles(&self) -> (res: u16)
        ensures
            res == self.spec_width() / 8,
    {
        self.width / 8
    }

    /// The screen height in 8×8 tiles.
    pub fn height_tiles(&self) -> (res: u16)
        ensures
            res == self.spec_height() / 8,
    {
        self.height / 8
    }

    /// The raw `colorMode`.
    pub fn color_mode(&self) -> (res: u16)
        ensures
            res == self.spec_color_mode(),
    {
        self.color_mode
    }

    /// The raw `screenFormat`.
    pub fn screen_format(&self) -> (res: u16)
        ensures
            res == self.spec_screen_format(),
    {
        self.screen_format
    }

    /// The map entry bytes (`szByte` of them).
    pub fn entries(&self) -> (res: &'a [u8])
        ensures
            res@ == self.spec_entries(),
    {
        self.entries
    }

    /// Entry `(x, y)` of a text screen (`screen_format == 0`): tile
    /// index | palette << 12 | hflip 0x400 | vflip 0x800. Fails for
    /// another format, a coordinate outside the screen, or an entry past
    /// the stored bytes.
    pub fn entry(&self, x: u16, y: u16) -> (res: Result<u16, NdsError>)
        ensures
            ({
                let idx = y * (self.spec_width() / 8) + x;
                let ok = self.spec_screen_format() == 0 && x < self.spec_width() / 8 && y
                    < self.spec_height() / 8 && 2 * idx + 2 <= self.spec_entries().len();
                &&& res is Ok <==> ok
                &&& ok ==> res == Ok::<u16, NdsError>(spec_u16le(self.spec_entries(), 2 * idx))
            }),
    {
        if self.screen_format != 0 {
            return Err(NdsError::Invalid { what: "entry() only decodes text-format screens" });
        }
        let wt = self.width / 8;
        if x >= wt || y >= self.height / 8 {
            return Err(NdsError::Invalid { what: "screen coordinate out of range" });
        }
        proof {
            assert(y * wt <= 0x2000 * 0x2000) by (nonlinear_arith)
                requires
                    y < 0x2000,
                    wt <= 0x2000,
            ;
        }
        let idx: usize = y as usize * wt as usize + x as usize;
        u16le(self.entries, 2 * idx)
    }
}

} // verus!

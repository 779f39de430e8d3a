//! The font system: the raw binary font members and their glyph decode.
//!
//! A font member is not a Nitro container; its layout:
//!
//! ```text
//! u32 headerSize       glyph data starts here
//! u32 widthDataStart   numGlyphs width bytes start here (0: fixed width)
//! u32 numGlyphs
//! u8  fixedWidth       per-glyph advance when the width table is off
//! u8  fixedHeight      pixel rows copied per glyph
//! u8  glyphWidth       glyph width in tiles (1–2)
//! u8  glyphHeight      glyph height in tiles (1–2)
//! ```
//!
//! Each glyph is `16 × glyphWidth × glyphHeight` source bytes in
//! row-major tile order; each 16-byte source tile is 8 little-endian
//! u16s, one per row, whose high byte holds the left half row and low
//! byte the right half; every 2 bits are one pixel's level (`0`
//! transparent, `1` foreground, `2` shadow, `3` background), the high
//! pair at the leftmost pixel.
//!
//! Decoded glyphs land in a uniform 16×16 block layout: tile `(tx, ty)`
//! row `py` pixel `px` sits at `(ty·2+tx)·64 + (py mod 8)·8 + (px mod 8)`.

use vstd::prelude::*;
use crate::nds::{NdsError, spec_u32le, slice_range};
use vstd::slice::slice_to_vec;
use crate::formats::msg::EOS;

verus! {

/// The control-code marker unit: a control code is the marker, a
/// command unit, a parameter count, then that many parameters.
pub const EXT_CTRL_CODE_BEGIN: u16 = 0xFFFE;

/// The linefeed unit.
pub const CHAR_LF: u16 = 0xE000;

/// The fallback glyph index: a code unit beyond the table's last glyph
/// renders glyph 427.
pub const FALLBACK_GLYPH_INDEX: u32 = 427;

/// The level of block-layout pixel `k` of a glyph decoded from `src`
/// with `gw × gh` tiles (0 outside the glyph's tiles).
pub open spec fn glyph_level(src: Seq<u8>, gw: int, gh: int, k: int) -> u8 {
    let block = k / 64;
    let tx = block % 2;
    let ty = block / 2;
    let py = (k % 64) / 8;
    let px = k % 8;
    if tx < gw && ty < gh {
        let at = (ty * gw + tx) * 16 + py * 2;
        let byte = if px < 4 {
            src[at + 1]
        } else {
            src[at]
        };
        let j = px % 4;
        let shift = if j == 0 {
            64int
        } else if j == 1 {
            16
        } else if j == 2 {
            4
        } else {
            1
        };
        ((byte as int / shift) % 4) as u8
    } else {
        0
    }
}

/// The 256 block-layout levels of a glyph decoded from `src`.
pub open spec fn glyph_pixels(src: Seq<u8>, gw: int, gh: int) -> Seq<u8> {
    Seq::new(256, |k: int| glyph_level(src, gw, gh, k))
}

/// The header size field.
pub open spec fn font_header_size(s: Seq<u8>) -> int {
    spec_u32le(s, 0) as int
}

/// The width table offset field.
pub open spec fn font_width_start(s: Seq<u8>) -> int {
    spec_u32le(s, 4) as int
}

/// The glyph count field.
pub open spec fn font_num_glyphs(s: Seq<u8>) -> int {
    spec_u32le(s, 8) as int
}

/// The source bytes of one glyph.
pub open spec fn font_glyph_bytes(s: Seq<u8>) -> int {
    16 * s[14] * s[15]
}

/// The source bytes of glyph `i`.
pub open spec fn font_glyph_src(s: Seq<u8>, i: int) -> Seq<u8> {
    let gb = font_glyph_bytes(s);
    s.subrange(font_header_size(s) + i * gb, font_header_size(s) + (i + 1) * gb)
}

/// Whether `s` is a font the parser accepts.
pub open spec fn font_ok(s: Seq<u8>) -> bool {
    let n = font_num_glyphs(s);
    &&& s.len() >= 16
    &&& 1 <= s[14] <= 2
    &&& 1 <= s[15] <= 2
    &&& 1 <= s[13] <= s[15] * 8
    &&& font_width_start(s) != 0 ==> font_width_start(s) + n <= s.len() && n > 427
    &&& font_header_size(s) <= s.len()
    &&& n * font_glyph_bytes(s) <= s.len() - font_header_size(s)
}

/// The advance skipped from a control-code marker at `i`: the marker,
/// the command, the count and the parameters (the rest of the units
/// when the count is missing).
pub open spec fn skip_len(u: Seq<u16>, i: int) -> int {
    if i + 2 < u.len() {
        3 + u[i + 2]
    } else {
        u.len() - i
    }
}

/// One font's decoded data.
#[derive(Debug, PartialEq, Eq)]
pub struct Font {
    fixed_width: u8,
    fixed_height: u8,
    glyph_width: u8,
    glyph_height: u8,
    num_glyphs: u32,
    /// Per-glyph advance widths; empty for a fixed-width font.
    widths: Vec<u8>,
    /// Per-glyph decoded levels in the block layout.
    glyphs: Vec<[u8; 256]>,
}

/// One decoded glyph.
#[derive(Debug, Clone, Copy, PartialEq, Eq)]
pub struct Glyph {
    /// Levels in the uniform 16×16 block layout: `0` transparent, `1`
    /// foreground, `2` shadow, `3` background.
    pub pixels: [u8; 256],
    /// The advance width.
    pub width: u8,
    /// The pixel rows the copy blits.
    pub height: u8,
    /// The glyph's width in 8px tiles (1–2).
    pub tile_width: u8,
    /// The glyph's height in 8px tiles (1–2).
    pub tile_height: u8,
}

/// The block-layout index of glyph pixel `(px, py)`.
pub open spec fn block_index(px: int, py: int) -> int {
    ((py / 8) * 2 + px / 8) * 64 + (py % 8) * 8 + px % 8
}

impl Glyph {
    /// The level at glyph pixel `(px, py)`, 0 outside the glyph's tiles.
    pub fn level(&self, px: usize, py: usize) -> (res: u8)
        requires
            px >= self.tile_width * 8 || py >= self.tile_height * 8 || block_index(px as int, py as int)
                < 256,
        ensures
            res == if px >= self.tile_width * 8 || py >= self.tile_height * 8 {
                0
            } else {
                self.pixels@[block_index(px as int, py as int)]
            },
    {
        if px >= self.tile_width as usize * 8 || py >= self.tile_height as usize * 8 {
            return 0;
        }
        let tx = px / 8;
        let ty = py / 8;
        self.pixels[(ty * 2 + tx) * 64 + (py % 8) * 8 + (px % 8)]
    }
}

impl Font {
    #[verifier::type_invariant]
    spec fn inv(self) -> bool {
        &&& 1 <= self.glyph_width <= 2
        &&& 1 <= self.glyph_height <= 2
        &&& self.glyphs@.len() == self.num_glyphs
        &&& self.widths@.len() == 0 || (self.widths@.len() == self.num_glyphs && self.num_glyphs > 427)
    }

    /// The per-glyph advance when the font has no width table.
    pub closed spec fn spec_fixed_width(&self) -> u8 {
        self.fixed_width
    }

    /// The pixel rows every glyph copies.
    pub closed spec fn spec_fixed_height(&self) -> u8 {
        self.fixed_height
    }

    /// The glyph width in tiles.
    pub closed spec fn spec_glyph_width(&self) -> u8 {
        self.glyph_width
    }

    /// The glyph height in tiles.
    pub closed spec fn spec_glyph_height(&self) -> u8 {
        self.glyph_height
    }

    /// The glyph count.
    pub closed spec fn spec_num_glyphs(&self) -> u32 {
        self.num_glyphs
    }

    /// The width table (empty for a fixed-width font).
    pub closed spec fn spec_widths(&self) -> Seq<u8> {
        self.widths@
    }

    /// The levels of glyph `i`.
    pub closed spec fn spec_glyph(&self, i: int) -> Seq<u8> {
        self.glyphs@[i]@
    }

    /// How a parse of `s` relates the font to the bytes.
    pub open spec fn parsed_from(&self, s: Seq<u8>) -> bool {
        let n = font_num_glyphs(s);
        &&& self.spec_fixed_width() == s[12]
        &&& self.spec_fixed_height() == s[13]
        &&& self.spec_glyph_width() == s[14]
        &&& self.spec_glyph_height() == s[15]
        &&& self.spec_num_glyphs() == n
        &&& self.spec_widths() == if font_width_start(s) != 0 {
            s.subrange(font_width_start(s), font_width_start(s) + n)
        } else {
            Seq::<u8>::empty()
        }
        &&& forall|i: int|
            0 <= i < n ==> #[trigger] self.spec_glyph(i) == glyph_pixels(
                font_glyph_src(s, i),
                s[14] as int,
                s[15] as int,
            )
    }

    /// The glyph index character `id` renders: `id - 1` within the
    /// table, else the fallback glyph.
    pub open spec fn spec_index_of(&self, id: u16) -> u32 {
        if id <= self.spec_num_glyphs() {
            (id - 1) as u32
        } else {
            427
        }
    }

    /// The advance of glyph `index`: the fixed width without a table,
    /// else its table entry, the fallback glyph's past the table.
    pub open spec fn spec_width_at(&self, index: u32) -> u8 {
        if self.spec_widths().len() == 0 {
            self.spec_fixed_width()
        } else if index < self.spec_widths().len() {
            self.spec_widths()[index as int]
        } else {
            self.spec_widths()[427]
        }
    }

    /// The advance of character `id`.
    pub open spec fn spec_char_width(&self, id: u16) -> u8 {
        self.spec_width_at(self.spec_index_of(id))
    }

    /// The summed advance (each plus `sp`) of the units from `i` on, up
    /// to EOS or the end, control codes skipped, plus `acc`; `None`
    /// where a unit 0 is met (its index has no glyph).
    pub open spec fn spec_walk(&self, u: Seq<u16>, sp: int, i: int, acc: int) -> Option<int>
        decreases if i < u.len() { u.len() - i } else { 0 },
    {
        if i < 0 || i >= u.len() || u[i] == EOS {
            Some(acc)
        } else if u[i] == EXT_CTRL_CODE_BEGIN {
            self.spec_walk(u, sp, i + skip_len(u, i), acc)
        } else if u[i] == 0 {
            None
        } else {
            self.spec_walk(u, sp, i + 1, acc + self.spec_char_width(u[i]) + sp)
        }
    }

    /// [`Font::spec_walk`] stopping at the first linefeed too.
    pub open spec fn spec_walk_line(&self, u: Seq<u16>, sp: int, i: int, acc: int) -> Option<int>
        decreases if i < u.len() { u.len() - i } else { 0 },
    {
        if i < 0 || i >= u.len() || u[i] == EOS || u[i] == CHAR_LF {
            Some(acc)
        } else if u[i] == EXT_CTRL_CODE_BEGIN {
            self.spec_walk_line(u, sp, i + skip_len(u, i), acc)
        } else if u[i] == 0 {
            None
        } else {
            self.spec_walk_line(u, sp, i + 1, acc + self.spec_char_width(u[i]) + sp)
        }
    }

    /// The widest line from `i` on: `(best, peak)` where `best` is the
    /// widest line's advance less one `sp` (at least `best_in`) and
    /// `peak` the largest running line sum; `cur` is the running sum of
    /// the current line. `None` where a unit 0 is met.
    pub open spec fn spec_walk_lines(&self, u: Seq<u16>, sp: int, i: int, cur: int, best: int, peak: int) -> Option<
        (int, int),
    >
        decreases if i < u.len() { u.len() - i } else { 0 },
    {
        if i < 0 || i >= u.len() || u[i] == EOS {
            Some((if best < cur - sp { cur - sp } else { best }, peak))
        } else if u[i] == EXT_CTRL_CODE_BEGIN {
            self.spec_walk_lines(u, sp, i + skip_len(u, i), cur, best, peak)
        } else if u[i] == CHAR_LF {
            self.spec_walk_lines(u, sp, i + 1, 0, if best < cur - sp { cur - sp } else { best }, peak)
        } else if u[i] == 0 {
            None
        } else {
            let c = cur + self.spec_char_width(u[i]) + sp;
            self.spec_walk_lines(u, sp, i + 1, c, best, if peak < c { c } else { peak })
        }
    }

    /// Parses a font member: the header, the width table (when
    /// `widthDataStart` is not 0) and every glyph. Fails when the header
    /// is truncated, the glyph shape is beyond 1–2 tiles, the fixed
    /// height is 0 or exceeds the glyph's rows, the width table or glyph
    /// data run past the member, or a width table cannot serve the
    /// fallback glyph 427.
    pub fn parse(data: &[u8]) -> (res: Result<Self, NdsError>)
        ensures
            res is Ok <==> font_ok(data@),
            res matches Ok(f) ==> f.parsed_from(data@),
    {
        let ghost s = data@;
        if data.len() < 16 {
            return Err(NdsError::Invalid { what: "font header is truncated" });
        }
        let header_size = data[0] as u32 + data[1] as u32 * 0x100 + data[2] as u32 * 0x10000
            + data[3] as u32 * 0x1000000;
        let width_start = data[4] as u32 + data[5] as u32 * 0x100 + data[6] as u32 * 0x10000
            + data[7] as u32 * 0x1000000;
        let num = data[8] as u32 + data[9] as u32 * 0x100 + data[10] as u32 * 0x10000 + data[11] as u32
            * 0x1000000;
        let fixed_width = data[12];
        let fixed_height = data[13];
        let glyph_width = data[14];
        let glyph_height = data[15];
        if glyph_width < 1 || glyph_width > 2 || glyph_height < 1 || glyph_height > 2 {
            return Err(NdsError::Invalid { what: "font glyph shape is beyond the game's table" });
        }
        if fixed_height == 0 || fixed_height as usize > glyph_height as usize * 8 {
            return Err(NdsError::Invalid { what: "font fixed height exceeds its glyph shape" });
        }
        let num_glyphs = num as usize;
        let mut widths: Vec<u8> = Vec::new();
        if width_start != 0 {
            let start = width_start as usize;
            if num_glyphs > data.len() || start > data.len() - num_glyphs {
                return Err(NdsError::Invalid { what: "width table overruns the member" });
            }
            widths = slice_to_vec(slice_range(data, start, start + num_glyphs));
            if widths.len() <= FALLBACK_GLYPH_INDEX as usize {
                return Err(NdsError::Invalid { what: "font width table is too short for the fallback glyph" });
            }
        }
        proof {
            assert(16 <= 16 * (glyph_width as usize) * (glyph_height as usize) <= 64) by (nonlinear_arith)
                requires
                    1 <= glyph_width <= 2,
                    1 <= glyph_height <= 2,
            ;
        }
        let glyph_bytes: usize = 16 * (glyph_width as usize) * (glyph_height as usize);
        let hs = header_size as usize;
        if hs > data.len() {
            return Err(NdsError::Invalid { what: "glyph data overruns the member" });
        }
        let free = data.len() - hs;
        let room = free / glyph_bytes;
        if num_glyphs > room {
            proof {
                assert(num_glyphs * glyph_bytes > free) by (nonlinear_arith)
                    requires
                        num_glyphs > room,
                        room == free / glyph_bytes,
                        glyph_bytes > 0,
                ;
            }
            return Err(NdsError::Invalid { what: "glyph data is truncated" });
        }
        proof {
            assert(num_glyphs * glyph_bytes <= free) by (nonlinear_arith)
                requires
                    num_glyphs <= room,
                    room == free / glyph_bytes,
                    glyph_bytes > 0,
            ;
        }
        let mut glyphs: Vec<[u8; 256]> = Vec::new();
        let mut i: usize = 0;
        while i < num_glyphs
            invariant
                s == data@,
                s.len() >= 16,
                glyph_width == s[14],
                glyph_height == s[15],
                1 <= glyph_width <= 2,
                1 <= glyph_height <= 2,
                glyph_bytes == font_glyph_bytes(s),
                hs == font_header_size(s),
                num_glyphs * glyph_bytes <= data.len() - hs,
                i <= num_glyphs,
                glyphs@.len() == i,
                forall|k: int|
                    0 <= k < i ==> #[trigger] glyphs@[k]@ == glyph_pixels(
                        font_glyph_src(s, k),
                        s[14] as int,
                        s[15] as int,
                    ),
            decreases num_glyphs - i,
        {
            proof {
                assert((i + 1) * glyph_bytes <= num_glyphs * glyph_bytes) by (nonlinear_arith)
                    requires
                        i < num_glyphs,
                ;
                assert((i + 1) * glyph_bytes == i * glyph_bytes + glyph_bytes) by (nonlinear_arith);
            }
            let at = hs + i * glyph_bytes;
            let src = slice_range(data, at, at + glyph_bytes);
            glyphs.push(decompress_glyph(src, glyph_width, glyph_height));
            i = i + 1;
        }
        Ok(
            Font {
                fixed_width,
                fixed_height,
                glyph_width,
                glyph_height,
                num_glyphs: num,
                widths,
                glyphs,
            },
        )
    }

    /// The advance of character `id`: the remap of
    /// [`Font::index_of`], then [`Font::width_at`].
    pub fn char_width(&self, id: u16) -> (res: u8)
        requires
            id != 0,
        ensures
            res == self.spec_char_width(id),
    {
        let index = self.index_of(id);
        self.width_at(index)
    }

    /// The advance of glyph `index`: the fixed width without a table,
    /// else its table entry, the fallback glyph's past the table.
    pub fn width_at(&self, index: u32) -> (res: u8)
        ensures
            res == self.spec_width_at(index),
    {
        proof {
            use_type_invariant(self);
        }
        if self.widths.len() == 0 {
            return self.fixed_width;
        }
        if (index as u64) < self.widths.len() as u64 {
            self.widths[index as usize]
        } else {
            self.widths[FALLBACK_GLYPH_INDEX as usize]
        }
    }

    /// The glyph index character `id` renders: `id - 1` while within
    /// the table (the last glyph is reachable), else the fallback glyph.
    pub fn index_of(&self, id: u16) -> (res: u32)
        requires
            id != 0,
        ensures
            res == self.spec_index_of(id),
    {
        if id as u32 <= self.num_glyphs {
            id as u32 - 1
        } else {
            FALLBACK_GLYPH_INDEX
        }
    }

    /// One glyph: its levels (all 0 when the index has no glyph), its
    /// advance, the font's fixed height and the glyph shape.
    pub fn glyph(&self, id: u16) -> (res: Glyph)
        requires
            id != 0,
        ensures
            res.pixels@ == if self.spec_index_of(id) < self.spec_num_glyphs() {
                self.spec_glyph(self.spec_index_of(id) as int)
            } else {
                Seq::new(256, |_k: int| 0u8)
            },
            res.width == self.spec_char_width(id),
            res.height == self.spec_fixed_height(),
            res.tile_width == self.spec_glyph_width(),
            res.tile_height == self.spec_glyph_height(),
    {
        proof {
            use_type_invariant(self);
        }
        let index = self.index_of(id);
        let pixels = if (index as u64) < self.glyphs.len() as u64 {
            self.glyphs[index as usize]
        } else {
            let z = [0u8; 256];
            assert(z@ =~= Seq::new(256, |_k: int| 0u8));
            z
        };
        Glyph {
            pixels,
            width: self.width_at(index),
            height: self.fixed_height,
            tile_width: self.glyph_width,
            tile_height: self.glyph_height,
        }
    }

    /// The glyph count.
    pub fn num_glyphs(&self) -> (res: u32)
        ensures
            res == self.spec_num_glyphs(),
    {
        self.num_glyphs
    }

    /// The pixel height every glyph copies.
    pub fn fixed_height(&self) -> (res: u8)
        ensures
            res == self.spec_fixed_height(),
    {
        self.fixed_height
    }

    /// Whether [`Font::string_width`] can measure `units`: no unit before
    /// EOS is the zero character and the advance fits in 32 bits.
    pub fn string_width_fits(&self, units: &[u16], letter_spacing: u8) -> (res: bool)
        requires
            units.len() < usize::MAX - 0x10003,
        ensures
            res == (self.spec_walk(units@, letter_spacing as int, 0, 0) matches Some(v) && v <= u32::MAX),
    {
        let ghost u = units@;
        let ghost sp = letter_spacing as int;
        let mut acc: u64 = 0;
        let mut i: usize = 0;
        while i < units.len() && units[i] != EOS
            invariant
                u == units@,
                sp == letter_spacing,
                units.len() < usize::MAX - 0x10003,
                acc <= u32::MAX,
                self.spec_walk(u, sp, i as int, acc as int) == self.spec_walk(u, sp, 0, 0),
            decreases if i < units.len() { units.len() - i } else { 0 },
        {
            if units[i] == EXT_CTRL_CODE_BEGIN {
                i = i + skip_ctrl(units, i);
            } else if units[i] == 0 {
                return false;
            } else {
                let w = self.char_width(units[i]);
                acc = acc + w as u64 + letter_spacing as u64;
                i = i + 1;
                if acc > u32::MAX as u64 {
                    proof {
                        self.lemma_walk_grows(u, sp, i as int, acc as int);
                    }
                    return false;
                }
            }
        }
        true
    }

    /// Whether [`Font::first_line_width`] can measure `units`: no unit
    /// before EOS or the first linefeed is the zero character and the
    /// advance fits in 32 bits.
    pub fn first_line_width_fits(&self, units: &[u16], letter_spacing: u8) -> (res: bool)
        requires
            units.len() < usize::MAX - 0x10003,
        ensures
            res == (self.spec_walk_line(units@, letter_spacing as int, 0, 0) matches Some(v) && v <= u32::MAX),
    {
        let ghost u = units@;
        let ghost sp = letter_spacing as int;
        let mut acc: u64 = 0;
        let mut i: usize = 0;
        while i < units.len() && units[i] != EOS && units[i] != CHAR_LF
            invariant
                u == units@,
                sp == letter_spacing,
                units.len() < usize::MAX - 0x10003,
                acc <= u32::MAX,
                self.spec_walk_line(u, sp, i as int, acc as int) == self.spec_walk_line(u, sp, 0, 0),
            decreases if i < units.len() { units.len() - i } else { 0 },
        {
            if units[i] == EXT_CTRL_CODE_BEGIN {
                i = i + skip_ctrl(units, i);
            } else if units[i] == 0 {
                return false;
            } else {
                let w = self.char_width(units[i]);
                acc = acc + w as u64 + letter_spacing as u64;
                i = i + 1;
                if acc > u32::MAX as u64 {
                    proof {
                        self.lemma_walk_line_grows(u, sp, i as int, acc as int);
                    }
                    return false;
                }
            }
        }
        true
    }

    /// The advance of a unit string up to EOS: control codes skipped,
    /// each character's advance plus `letter_spacing`, one
    /// `letter_spacing` taken off at the end (saturating).
    pub fn string_width(&self, units: &[u16], letter_spacing: u8) -> (res: u32)
        requires
            units.len() < usize::MAX - 0x10003,
            self.spec_walk(units@, letter_spacing as int, 0, 0) matches Some(v) && v <= u32::MAX,
        ensures
            self.spec_walk(units@, letter_spacing as int, 0, 0) matches Some(v) && res == if v
                >= letter_spacing {
                v - letter_spacing
            } else {
                0
            },
    {
        let ghost u = units@;
        let ghost sp = letter_spacing as int;
        let mut ret: u32 = 0;
        let mut i: usize = 0;
        while i < units.len() && units[i] != EOS
            invariant
                u == units@,
                sp == letter_spacing,
                units.len() < usize::MAX - 0x10003,
                self.spec_walk(u, sp, i as int, ret as int) == self.spec_walk(u, sp, 0, 0),
                self.spec_walk(u, sp, 0, 0) matches Some(v) && v <= u32::MAX,
            decreases if i < units.len() { units.len() - i } else { 0 },
        {
            proof {
                self.lemma_walk_grows(u, sp, i as int, ret as int);
            }
            if units[i] == EXT_CTRL_CODE_BEGIN {
                i = i + skip_ctrl(units, i);
            } else {
                let w = self.char_width(units[i]);
                proof {
                    self.lemma_walk_grows(u, sp, i + 1, ret + w + sp);
                }
                ret = ret + w as u32 + letter_spacing as u32;
                i = i + 1;
            }
        }
        ret.saturating_sub(letter_spacing as u32)
    }

    /// Like [`Font::string_width`], stopping at the first linefeed too.
    pub fn first_line_width(&self, units: &[u16], letter_spacing: u8) -> (res: u32)
        requires
            units.len() < usize::MAX - 0x10003,
            self.spec_walk_line(units@, letter_spacing as int, 0, 0) matches Some(v) && v <= u32::MAX,
        ensures
            self.spec_walk_line(units@, letter_spacing as int, 0, 0) matches Some(v) && res == if v
                >= letter_spacing {
                v - letter_spacing
            } else {
                0
            },
    {
        let ghost u = units@;
        let ghost sp = letter_spacing as int;
        let mut ret: u32 = 0;
        let mut i: usize = 0;
        while i < units.len() && units[i] != EOS && units[i] != CHAR_LF
            invariant
                u == units@,
                sp == letter_spacing,
                units.len() < usize::MAX - 0x10003,
                self.spec_walk_line(u, sp, i as int, ret as int) == self.spec_walk_line(u, sp, 0, 0),
                self.spec_walk_line(u, sp, 0, 0) matches Some(v) && v <= u32::MAX,
            decreases if i < units.len() { units.len() - i } else { 0 },
        {
            proof {
                self.lemma_walk_line_grows(u, sp, i as int, ret as int);
            }
            if units[i] == EXT_CTRL_CODE_BEGIN {
                i = i + skip_ctrl(units, i);
            } else {
                let w = self.char_width(units[i]);
                proof {
                    self.lemma_walk_line_grows(u, sp, i + 1, ret + w + sp);
                }
                ret = ret + w as u32 + letter_spacing as u32;
                i = i + 1;
            }
        }
        ret.saturating_sub(letter_spacing as u32)
    }

    /// The widest line's advance, each line measured as
    /// [`Font::string_width`] does.
    pub fn multiline_width(&self, units: &[u16], letter_spacing: u8) -> (res: u32)
        requires
            units.len() < usize::MAX - 0x10003,
            self.spec_walk_lines(units@, letter_spacing as int, 0, 0, 0, 0) matches Some(r) && r.1
                <= u32::MAX,
        ensures
            self.spec_walk_lines(units@, letter_spacing as int, 0, 0, 0, 0) matches Some(r) && res
                == r.0,
    {
        let ghost u = units@;
        let ghost sp = letter_spacing as int;
        let mut cur: u32 = 0;
        let mut best: u32 = 0;
        let ghost mut peak: int = 0;
        let mut i: usize = 0;
        while i < units.len() && units[i] != EOS
            invariant
                u == units@,
                sp == letter_spacing,
                units.len() < usize::MAX - 0x10003,
                cur <= peak,
                best <= peak,
                0 <= peak,
                self.spec_walk_lines(u, sp, i as int, cur as int, best as int, peak) == self.spec_walk_lines(
                    u,
                    sp,
                    0,
                    0,
                    0,
                    0,
                ),
                self.spec_walk_lines(u, sp, 0, 0, 0, 0) matches Some(r) && r.1 <= u32::MAX,
            decreases if i < units.len() { units.len() - i } else { 0 },
        {
            proof {
                self.lemma_walk_lines_peak(u, sp, i as int, cur as int, best as int, peak);
            }
            if units[i] == EXT_CTRL_CODE_BEGIN {
                i = i + skip_ctrl(units, i);
            } else if units[i] == CHAR_LF {
                if best < cur.saturating_sub(letter_spacing as u32) {
                    best = cur - letter_spacing as u32;
                }
                cur = 0;
                i = i + 1;
            } else {
                let w = self.char_width(units[i]);
                proof {
                    let c = cur + w + sp;
                    self.lemma_walk_lines_peak(u, sp, i + 1, c, best as int, if peak < c { c } else { peak });
                    if peak < c {
                        peak = c;
                    }
                }
                cur = cur + w as u32 + letter_spacing as u32;
                i = i + 1;
            }
        }
        if best < cur.saturating_sub(letter_spacing as u32) {
            best = cur - letter_spacing as u32;
        }
        best
    }

    /// A walk ends at no less than where it is.
    proof fn lemma_walk_grows(&self, u: Seq<u16>, sp: int, i: int, acc: int)
        requires
            sp >= 0,
        ensures
            self.spec_walk(u, sp, i, acc) matches Some(v) ==> v >= acc,
        decreases if i < u.len() { u.len() - i } else { 0 },
    {
        if i < 0 || i >= u.len() || u[i] == EOS {
        } else if u[i] == EXT_CTRL_CODE_BEGIN {
            self.lemma_walk_grows(u, sp, i + skip_len(u, i), acc);
        } else if u[i] == 0 {
        } else {
            self.lemma_walk_grows(u, sp, i + 1, acc + self.spec_char_width(u[i]) + sp);
        }
    }

    /// A line walk ends at no less than where it is.
    proof fn lemma_walk_line_grows(&self, u: Seq<u16>, sp: int, i: int, acc: int)
        requires
            sp >= 0,
        ensures
            self.spec_walk_line(u, sp, i, acc) matches Some(v) ==> v >= acc,
        decreases if i < u.len() { u.len() - i } else { 0 },
    {
        if i < 0 || i >= u.len() || u[i] == EOS || u[i] == CHAR_LF {
        } else if u[i] == EXT_CTRL_CODE_BEGIN {
            self.lemma_walk_line_grows(u, sp, i + skip_len(u, i), acc);
        } else if u[i] == 0 {
        } else {
            self.lemma_walk_line_grows(u, sp, i + 1, acc + self.spec_char_width(u[i]) + sp);
        }
    }

    /// A multi-line walk's peak is no less than its starting peak, and
    /// its result is no more than its peak.
    proof fn lemma_walk_lines_peak(&self, u: Seq<u16>, sp: int, i: int, cur: int, best: int, peak: int)
        requires
            sp >= 0,
            0 <= cur <= peak,
            best <= peak,
        ensures
            self.spec_walk_lines(u, sp, i, cur, best, peak) matches Some(r) ==> r.1 >= peak && r.0 <= r.1,
        decreases if i < u.len() { u.len() - i } else { 0 },
    {
        if i < 0 || i >= u.len() || u[i] == EOS {
        } else if u[i] == EXT_CTRL_CODE_BEGIN {
            self.lemma_walk_lines_peak(u, sp, i + skip_len(u, i), cur, best, peak);
        } else if u[i] == CHAR_LF {
            self.lemma_walk_lines_peak(
                u,
                sp,
                i + 1,
                0,
                if best < cur - sp {
                    cur - sp
                } else {
                    best
                },
                peak,
            );
        } else if u[i] == 0 {
        } else {
            let c = cur + self.spec_char_width(u[i]) + sp;
            self.lemma_walk_lines_peak(
                u,
                sp,
                i + 1,
                c,
                best,
                if peak < c {
                    c
                } else {
                    peak
                },
            );
        }
    }
}

/// The advance from a control-code marker at `i`.
fn skip_ctrl(units: &[u16], i: usize) -> (res: usize)
    requires
        i < units.len(),
        units.len() < usize::MAX - 0x10003,
    ensures
        res == skip_len(units@, i as int),
{
    if i + 2 < units.len() {
        3 + units[i + 2] as usize
    } else {
        units.len() - i
    }
}

/// The level of block-layout pixel `k` of the glyph in `src`.
fn level_at(src: &[u8], gw: u8, gh: u8, k: usize) -> (res: u8)
    requires
        1 <= gw <= 2,
        1 <= gh <= 2,
        src@.len() == 16 * gw * gh,
        k < 256,
    ensures
        res == glyph_level(src@, gw as int, gh as int, k as int),
{
    let block = k / 64;
    let tx = block % 2;
    let ty = block / 2;
    let py = (k % 64) / 8;
    let px = k % 8;
    if tx < gw as usize && ty < gh as usize {
        proof {
            assert((ty * gw + tx + 1) * 16 <= 16 * gw * gh) by (nonlinear_arith)
                requires
                    ty < gh,
                    tx < gw,
                    1 <= gw <= 2,
                    1 <= gh <= 2,
            ;
        }
        let at = (ty * gw as usize + tx) * 16 + py * 2;
        let byte = if px < 4 {
            src[at + 1]
        } else {
            src[at]
        };
        let j = px % 4;
        let shift: u8 = if j == 0 {
            64
        } else if j == 1 {
            16
        } else if j == 2 {
            4
        } else {
            1
        };
        (byte / shift) % 4
    } else {
        0
    }
}

/// Decodes one glyph's source tiles into the block layout.
fn decompress_glyph(src: &[u8], glyph_width: u8, glyph_height: u8) -> (res: [u8; 256])
    requires
        1 <= glyph_width <= 2,
        1 <= glyph_height <= 2,
        src@.len() == 16 * glyph_width * glyph_height,
    ensures
        res@ == glyph_pixels(src@, glyph_width as int, glyph_height as int),
{
    let mut out = [0u8; 256];
    let mut k: usize = 0;
    while k < 256
        invariant
            1 <= glyph_width <= 2,
            1 <= glyph_height <= 2,
            src@.len() == 16 * glyph_width * glyph_height,
            k <= 256,
            forall|j: int| 0 <= j < k ==> #[trigger] out@[j] == glyph_level(
                src@,
                glyph_width as int,
                glyph_height as int,
                j,
            ),
        decreases 256 - k,
    {
        let v = level_at(src, glyph_width, glyph_height, k);
        out[k] = v;
        k = k + 1;
    }
    assert(out@ =~= glyph_pixels(src@, glyph_width as int, glyph_height as int));
    out
}

/// One font's print metrics.
#[derive(Debug, Clone, Copy, PartialEq, Eq)]
pub struct FontInfo {
    /// The widest advance any glyph takes.
    pub max_letter_width: u8,
    /// The linefeed advance (pixels).
    pub max_letter_height: u8,
    /// The advance added after each glyph.
    pub letter_spacing: u8,
    /// The extra advance added on linefeed.
    pub line_spacing: u8,
    /// An unused field, always 0.
    pub unk: u8,
    /// The default foreground palette index.
    pub fg_color: u8,
    /// The default background palette index.
    pub bg_color: u8,
    /// The default shadow palette index.
    pub shadow_color: u8,
}

/// The print metrics of font `font_id` (ids past 5 take font 5's):
/// fonts 0–4 share one set, font 5 is one pixel narrower.
pub open spec fn spec_font_info(font_id: u8) -> FontInfo {
    FontInfo {
        max_letter_width: if font_id >= 5 {
            0x0A
        } else {
            0x0B
        },
        max_letter_height: 0x10,
        letter_spacing: 0,
        line_spacing: 0,
        unk: 0,
        fg_color: 1,
        bg_color: 0x0F,
        shadow_color: 2,
    }
}

/// The print metrics of font `font_id` (ids past 5 take font 5's).
pub fn font_info(font_id: u8) -> (res: FontInfo)
    ensures
        res == spec_font_info(font_id),
{
    FontInfo {
        max_letter_width: if font_id >= 5 {
            0x0A
        } else {
            0x0B
        },
        max_letter_height: 0x10,
        letter_spacing: 0,
        line_spacing: 0,
        unk: 0,
        fg_color: 1,
        bg_color: 0x0F,
        shadow_color: 2,
    }
}

} // verus!

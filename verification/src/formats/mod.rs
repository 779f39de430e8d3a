//! NitroSDK file formats stored inside the ROM: the NARC archive and
//! the graphics, text and sound containers it holds.
//!
//! Every graphics container shares one header (0x10 bytes): the file
//! magic, the byte-order mark 0xFEFF, a version, the total file size,
//! the header size 0x10 and the section count. The sections follow the
//! header back to back up to the file end, each `magic + u32 size` with
//! the size counting the 8-byte section header.
//!
//! A label bank (`LBAL`) is an offset table without a count: `u32`
//! offsets relative to the end of the table, then the NUL-terminated
//! strings. The first offset is 0 and the offsets increase strictly, so
//! the table ends at the first word that breaks that run (the first
//! bytes of the first string, read as a word, are far past the body).

pub mod narc;
pub mod nscr;
pub mod nclr;
pub mod ncgr;
pub mod ncer;
pub mod nanr;
pub mod btx;
pub mod msg;
pub mod sdat;




pub use narc::{Narc, is_narc};

use vstd::prelude::*;
use vstd::utf8::*;
use crate::nds::{NdsError, utf8, spec_u16le, spec_u32le, u16le, u32le, slice_range};

verus! {

/// The pixel format of a tile sheet or palette (`GXTexFmt`).
#[derive(Debug, Clone, Copy, PartialEq, Eq, Hash, Structural)]
pub enum PixelFmt {
    /// 16 colors, 4 bits per pixel (`GX_TEXFMT_PLTT16`, 3).
    Pltt16,
    /// 256 colors, 8 bits per pixel (`GX_TEXFMT_PLTT256`, 4).
    Pltt256,
}

/// The raw `GXTexFmt` value of a format.
pub open spec fn pixel_fmt_raw(f: PixelFmt) -> u32 {
    match f {
        PixelFmt::Pltt16 => 3,
        PixelFmt::Pltt256 => 4,
    }
}

impl PixelFmt {
    /// Decodes a raw `GXTexFmt`; only 3 and 4 are tile formats.
    pub fn from_raw(raw: u32) -> (res: Result<Self, NdsError>)
        ensures
            raw == 3 ==> res == Ok::<PixelFmt, NdsError>(PixelFmt::Pltt16),
            raw == 4 ==> res == Ok::<PixelFmt, NdsError>(PixelFmt::Pltt256),
            raw != 3 && raw != 4 ==> res is Err,
    {
        if raw == 3 {
            Ok(PixelFmt::Pltt16)
        } else if raw == 4 {
            Ok(PixelFmt::Pltt256)
        } else {
            Err(NdsError::Invalid { what: "unsupported GXTexFmt" })
        }
    }

    /// The raw `GXTexFmt` value (the inverse of [`PixelFmt::from_raw`]).
    pub fn raw(self) -> (res: u32)
        ensures
            res == pixel_fmt_raw(self),
    {
        match self {
            PixelFmt::Pltt16 => 3,
            PixelFmt::Pltt256 => 4,
        }
    }

    /// Bits per pixel: 4 or 8.
    pub fn bpp(self) -> (res: u8)
        ensures
            res == (if self == PixelFmt::Pltt16 { 4u8 } else { 8u8 }),
    {
        match self {
            PixelFmt::Pltt16 => 4,
            PixelFmt::Pltt256 => 8,
        }
    }

    /// Bytes per 8×8 tile: 32 or 64.
    pub fn tile_size(self) -> (res: usize)
        ensures
            res == (if self == PixelFmt::Pltt16 { 32usize } else { 64usize }),
    {
        match self {
            PixelFmt::Pltt16 => 32,
            PixelFmt::Pltt256 => 64,
        }
    }
}

/// One section of a Nitro container.
#[derive(Debug, Clone, Copy, PartialEq, Eq)]
pub struct NitroSection {
    /// The section magic as stored.
    pub magic: [u8; 4],
    /// Offset of the section header from the file start.
    pub offset: usize,
    /// Section size, including its 8-byte header.
    pub size: usize,
}

/// Where section `i` starts: right after the header, then after each
/// section before it.
pub open spec fn nitro_sec_off(s: Seq<u8>, i: int) -> int
    decreases i,
{
    if i <= 0 {
        0x10
    } else {
        nitro_sec_off(s, i - 1) + spec_u32le(s, nitro_sec_off(s, i - 1) + 4)
    }
}

/// Whether a section header at `off` is whole and its size keeps the
/// section inside `s`.
pub open spec fn nitro_section_ok(s: Seq<u8>, off: int) -> bool {
    &&& 0 <= off
    &&& off + 8 <= s.len()
    &&& spec_u32le(s, off + 4) >= 8
    &&& off + spec_u32le(s, off + 4) <= s.len()
}

/// The section count a container header declares.
pub open spec fn nitro_count(s: Seq<u8>) -> int {
    spec_u16le(s, 0x0E) as int
}

/// Whether `s` is a well-formed container with file magic `magic` and
/// between one and `max` sections.
pub open spec fn nitro_ok(s: Seq<u8>, magic: Seq<u8>, max: int) -> bool {
    &&& s.len() >= 0x10
    &&& s.subrange(0, 4) == magic
    &&& spec_u16le(s, 4) == 0xFEFF
    &&& spec_u32le(s, 8) == s.len()
    &&& spec_u16le(s, 0x0C) == 0x10
    &&& 1 <= nitro_count(s) <= max
    &&& forall|i: int| 0 <= i < nitro_count(s) ==> #[trigger] nitro_section_ok(s, nitro_sec_off(s, i))
    &&& nitro_sec_off(s, nitro_count(s)) == s.len()
}

/// Section `i` of a well-formed container.
pub open spec fn nitro_section_at(s: Seq<u8>, i: int) -> NitroSection {
    let off = nitro_sec_off(s, i);
    NitroSection {
        magic: [s[off], s[off + 1], s[off + 2], s[off + 3]],
        offset: off as usize,
        size: spec_u32le(s, off + 4) as usize,
    }
}

impl NitroSection {
    /// Whether the section magic is `m0 m1 m2 m3`.
    pub open spec fn spec_is(self, m0: u8, m1: u8, m2: u8, m3: u8) -> bool {
        self.magic@ == seq![m0, m1, m2, m3]
    }

    /// Whether the section magic is `m0 m1 m2 m3`.
    pub fn is(&self, m0: u8, m1: u8, m2: u8, m3: u8) -> (res: bool)
        ensures
            res == self.spec_is(m0, m1, m2, m3),
    {
        let r = self.magic[0] == m0 && self.magic[1] == m1 && self.magic[2] == m2 && self.magic[3]
            == m3;
        assert(r ==> self.magic@ =~= seq![m0, m1, m2, m3]);
        r
    }
}

/// Reads the container header and the section table of `data`: the
/// version and the sections in file order. Fails when the magic,
/// byte-order mark, file size, header size or section count (1 to
/// `max`) is wrong, or the sections do not tile the rest of the file.
pub fn nitro_sections(data: &[u8], magic: [u8; 4], max: usize) -> (res: Result<
    (u16, Vec<NitroSection>),
    NdsError,
>)
    ensures
        res is Ok <==> nitro_ok(data@, magic@, max as int),
        res matches Ok((version, sections)) ==> {
            &&& version == spec_u16le(data@, 6)
            &&& sections@.len() == nitro_count(data@)
            &&& forall|i: int|
                0 <= i < sections@.len() ==> #[trigger] sections@[i] == nitro_section_at(data@, i)
        },
{
    if data.len() < 0x10 {
        return Err(NdsError::Truncated { what: "Nitro header", need: 0x10, got: data.len() });
    }
    if !(data[0] == magic[0] && data[1] == magic[1] && data[2] == magic[2] && data[3] == magic[3]) {
        proof {
            if data@.subrange(0, 4) == magic@ {
                assert(data@.subrange(0, 4)[0] == data@[0]);
                assert(data@.subrange(0, 4)[1] == data@[1]);
                assert(data@.subrange(0, 4)[2] == data@[2]);
                assert(data@.subrange(0, 4)[3] == data@[3]);
            }
        }
        return Err(NdsError::Invalid { what: "Nitro file magic" });
    }
    assert(data@.subrange(0, 4) =~= magic@);
    let bom = u16le(data, 4)?;
    let version = u16le(data, 6)?;
    let file_size = u32le(data, 8)?;
    let header_size = u16le(data, 0x0C)?;
    let count = u16le(data, 0x0E)?;
    if bom != 0xFEFF {
        return Err(NdsError::Invalid { what: "Nitro byte-order mark" });
    }
    if file_size as usize != data.len() {
        return Err(NdsError::Invalid { what: "Nitro file size disagrees with the data" });
    }
    if header_size != 0x10 {
        return Err(NdsError::Invalid { what: "Nitro header size" });
    }
    if count == 0 || count as usize > max {
        return Err(NdsError::Invalid { what: "Nitro section count" });
    }
    let mut sections: Vec<NitroSection> = Vec::new();
    let mut off: usize = 0x10;
    let mut i: usize = 0;
    while i < count as usize
        invariant
            data@.len() >= 0x10,
            count as int == nitro_count(data@),
            i <= count,
            off as int == nitro_sec_off(data@, i as int),
            off <= data@.len(),
            sections@.len() == i,
            forall|k: int| 0 <= k < i ==> #[trigger] nitro_section_ok(data@, nitro_sec_off(data@, k)),
            forall|k: int| 0 <= k < i ==> #[trigger] sections@[k] == nitro_section_at(data@, k),
        decreases count - i,
    {
        if data.len() - off < 8 {
            assert(!nitro_section_ok(data@, nitro_sec_off(data@, i as int)));
            return Err(NdsError::Truncated { what: "Nitro section header", need: off.saturating_add(8), got: data.len() });
        }
        let size = u32le(data, off + 4)?;
        if size < 8 || size as usize > data.len() - off {
            assert(!nitro_section_ok(data@, nitro_sec_off(data@, i as int)));
            return Err(NdsError::Invalid { what: "Nitro section overruns the file" });
        }
        let sec = NitroSection {
            magic: [data[off], data[off + 1], data[off + 2], data[off + 3]],
            offset: off,
            size: size as usize,
        };
        assert(sec == nitro_section_at(data@, i as int));
        sections.push(sec);
        off = off + size as usize;
        i = i + 1;
    }
    if off != data.len() {
        return Err(NdsError::Invalid { what: "Nitro sections do not end at the file end" });
    }
    Ok((version, sections))
}

/// Offset word `i` of a label-bank body.
pub open spec fn label_word(b: Seq<u8>, i: int) -> int {
    spec_u32le(b, 4 * i) as int
}

/// The length of the offset table from word `i` on: words continue
/// while they fit, point inside the body and increase strictly from 0.
pub open spec fn label_run(b: Seq<u8>, i: nat) -> nat
    decreases b.len() - 4 * i,
{
    if 4 * (i + 1) <= b.len() && label_word(b, i as int) < b.len() && (if i == 0 {
        label_word(b, 0) == 0
    } else {
        label_word(b, i as int) > label_word(b, i - 1)
    }) {
        label_run(b, i + 1)
    } else {
        i
    }
}

/// The number of labels in a label-bank body.
pub open spec fn label_count(b: Seq<u8>) -> nat {
    label_run(b, 0)
}

/// The first NUL at or after `p` (the body length when there is none).
pub open spec fn nul_from(b: Seq<u8>, p: int) -> int
    decreases b.len() - p,
{
    if p < 0 || p >= b.len() {
        b.len() as int
    } else if b[p] == 0 {
        p
    } else {
        nul_from(b, p + 1)
    }
}

/// Where the string of label `i` starts.
pub open spec fn label_start(b: Seq<u8>, i: int) -> int {
    4 * label_count(b) + label_word(b, i)
}

/// The bytes of label `i` (before its NUL).
pub open spec fn label_bytes(b: Seq<u8>, i: int) -> Seq<u8> {
    b.subrange(label_start(b, i), nul_from(b, label_start(b, i)))
}

/// Whether label `i` starts inside the body, is NUL-terminated there
/// and is valid UTF-8.
pub open spec fn label_ok(b: Seq<u8>, i: int) -> bool {
    &&& label_start(b, i) < b.len()
    &&& nul_from(b, label_start(b, i)) < b.len()
    &&& valid_utf8(label_bytes(b, i))
}

proof fn lemma_nul_from_bounds(b: Seq<u8>, p: int)
    requires
        0 <= p,
    ensures
        p <= nul_from(b, p) || p > b.len(),
        nul_from(b, p) <= b.len(),
        nul_from(b, p) < b.len() ==> b[nul_from(b, p)] == 0,
        forall|k: int| p <= k < nul_from(b, p) ==> b[k] != 0,
    decreases b.len() - p,
{
    if p < b.len() && b[p] != 0 {
        lemma_nul_from_bounds(b, p + 1);
    }
}

proof fn lemma_label_run_bounds(b: Seq<u8>, i: nat)
    requires
        4 * i <= b.len(),
    ensures
        i <= label_run(b, i),
        4 * label_run(b, i) <= b.len(),
    decreases b.len() - 4 * i,
{
    if 4 * (i + 1) <= b.len() && label_word(b, i as int) < b.len() && (if i == 0 {
        label_word(b, 0) == 0
    } else {
        label_word(b, i as int) > label_word(b, i - 1)
    }) {
        lemma_label_run_bounds(b, i + 1);
    }
}

/// Counts the offset table of a label-bank body.
fn count_labels(body: &[u8]) -> (res: usize)
    ensures
        res == label_count(body@),
        4 * res <= body@.len(),
{
    proof {
        lemma_label_run_bounds(body@, 0);
    }
    let mut i: usize = 0;
    let mut prev: u32 = 0;
    while i < body.len() / 4
        invariant
            4 * i <= body@.len(),
            label_run(body@, i as nat) == label_count(body@),
            i > 0 ==> prev as int == label_word(body@, i - 1),
        decreases body@.len() - 4 * i,
    {
        let w = match u32le(body, 4 * i) {
            Ok(w) => w,
            Err(_) => {
                return i;
            },
        };
        let keep = (w as usize) < body.len() && (if i == 0 {
            w == 0
        } else {
            w > prev
        });
        if !keep {
            return i;
        }
        prev = w;
        i = i + 1;
    }
    i
}

/// The first NUL at or after `p` in `body`.
fn find_nul(body: &[u8], p: usize) -> (res: usize)
    ensures
        res == nul_from(body@, p as int),
{
    let mut q: usize = p;
    if p >= body.len() {
        return body.len();
    }
    while q < body.len()
        invariant
            p <= q <= body@.len(),
            nul_from(body@, p as int) == nul_from(body@, q as int),
        decreases body@.len() - q,
    {
        if body[q] == 0 {
            return q;
        }
        q = q + 1;
    }
    q
}

/// Reads a label bank (`LBAL`) section at `off` of `size` bytes: the
/// labels in table order. Fails when the section lies outside `data`,
/// or a label starts past the body, runs off it without a NUL, or is not
/// UTF-8.
pub fn nitro_labels<'a>(data: &'a [u8], off: usize, size: usize) -> (res: Result<
    Vec<&'a str>,
    NdsError,
>)
    ensures
        off + 8 <= off + size <= data@.len() ==> {
            let b = data@.subrange(off + 8, off + size);
            &&& res is Ok <==> forall|i: int| 0 <= i < label_count(b) ==> #[trigger] label_ok(b, i)
            &&& res matches Ok(labels) ==> {
                &&& labels@.len() == label_count(b)
                &&& forall|i: int|
                    0 <= i < labels@.len() ==> #[trigger] labels@[i]@ == decode_utf8(
                        label_bytes(b, i),
                    )
            }
        },
        !(off + 8 <= off + size <= data@.len()) ==> res is Err,
{
    if size < 8 || off > data.len() || size > data.len() - off {
        return Err(NdsError::Truncated { what: "label bank", need: off.saturating_add(size), got: data.len() });
    }
    let body = slice_range(data, off + 8, off + size);
    let ghost b = body@;
    let n = count_labels(body);
    let mut labels: Vec<&'a str> = Vec::new();
    let mut i: usize = 0;
    while i < n
        invariant
            b == body@,
            b == data@.subrange(off + 8, off + size),
            off + 8 <= off + size <= data@.len(),
            b.len() == body.len(),
            n == label_count(b),
            4 * n <= b.len(),
            i <= n,
            labels@.len() == i,
            forall|k: int| 0 <= k < i ==> #[trigger] label_ok(b, k),
            forall|k: int| 0 <= k < i ==> #[trigger] labels@[k]@ == decode_utf8(label_bytes(b, k)),
        decreases n - i,
    {
        assert(4 * i + 4 <= b.len());
        let w = match u32le(body, 4 * i) {
            Ok(w) => w,
            Err(e) => {
                return Err(e);
            },
        };
        let rel = w as usize;
        if rel >= body.len() - 4 * n {
            assert(label_word(b, i as int) == w);
            assert(!label_ok(b, i as int));
            return Err(NdsError::Invalid { what: "label offset past the label bank" });
        }
        let start = 4 * n + rel;
        assert(start as int == label_start(b, i as int));
        let end = find_nul(body, start);
        proof {
            lemma_nul_from_bounds(b, start as int);
        }
        if end >= body.len() {
            assert(!label_ok(b, i as int));
            return Err(NdsError::Invalid { what: "label without a terminating NUL" });
        }
        let bytes = slice_range(body, start, end);
        assert(label_start(b, i as int) < b.len());
        match utf8(bytes) {
            Some(s) => labels.push(s),
            None => {
                assert(bytes@ == label_bytes(b, i as int));
                assert(!label_ok(b, i as int));
                return Err(NdsError::Invalid { what: "label is not UTF-8" });
            },
        }
        i = i + 1;
    }
    Ok(labels)
}

} // verus!

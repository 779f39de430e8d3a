//! NCER — Nitro Cell Resource: a bank of sprite cells. Magic `RECN`.
//!
//! Each cell is one pose: a set of raw OAM register triples (attr0/1/2)
//! placing tiles from the paired NCGR sheet, plus flip and bounding
//! metadata. A retail file carries exactly three sections, in order:
//!
//! - KBEC (the cell bank):
//!
//!   ```text
//!   +0x00 2  nCells
//!   +0x02 2  cellBankAttr   bit 0 = extended records (with bounding
//!                           boxes); all other bits zero
//!   +0x04 4  cellRecordsOffset (always 0x18)
//!   +0x08 4  mapping        the character-data mapping (see CellMapping)
//!   +0x0C 4  vramTransferOffset (0 = none; body-relative)
//!   +0x10 4  reserved (always 0)
//!   +0x14 4  ucatOffset     (0 = none; body-relative)
//!   ```
//!
//!   then the cell records, the OAM data and the optional VRAM transfer
//!   and UCAT blocks, each starting exactly where the previous ends:
//!
//!   - cell records, `nCells` × (8 or 0x10 bytes): `u16 nOAM, u16
//!     cellAttr, u16 oamDataOffset, u16 reserved`; extended records add
//!     `s16 maxX, s16 maxY, s16 minX, s16 minY`. `cellAttr` packs bits
//!     0–5 bounding-sphere radius, 8 h-flip, 9 v-flip, 10 hv-flip, 11
//!     bounding-rect flag. Cell `i`'s OAM data sits at `6 × ΣnOAM` of
//!     the cells before it.
//!   - OAM data, 6 bytes per entry, padded to 4-byte alignment (relative
//!     to the body) when a block follows; a section that ends after the
//!     OAM data ends there exactly or 4-aligned.
//!   - VRAM transfer: `u32 szByteMax, u32 reserved (8)`, then one
//!     `(u32 srcOffset, u32 size)` pair per cell.
//!   - UCAT (`TACU`): `u32 size (0x10 + 8 × nCells), u16 nCells, u16
//!     attrsPerCell (1), u32 reserved (8)`, one derived pointer per cell
//!     (`8 + 4 × nCells + 4 × i`), then one `u32` attribute per cell.
//! - LBAL: the label bank; its count is independent of `nCells`.
//! - UEXT (`TXEU`): always 0x0C bytes with a zero body.

use vstd::prelude::*;
use crate::formats::{
    nitro_sections, nitro_labels, nitro_ok, nitro_count, nitro_section_at, nitro_section_ok,
    nitro_sec_off, label_count, label_ok, label_bytes, label_word, label_start, nul_from, NitroSection,
    lemma_label_run_bounds, lemma_nul_from_bounds,
};
use crate::nds::{
    NdsError, spec_u16le, spec_u32le, u16le, u32le, has_magic, spec_magic, slice_range, le16, le32,
    push_le16, push_le32, push_bytes, magic_vec, push_magic, lemma_u16le_bytes, lemma_u32le_bytes, lemma_subrange_concat,
};
use vstd::string::StringSliceAdditionalSpecFns;
use vstd::utf8::*;

verus! {

/// How the bank's paired sheet maps into OBJ VRAM (the SDK's
/// character-data mapping, raw values 0–4).
#[derive(Debug, Clone, Copy, PartialEq, Eq, Hash, Structural)]
pub enum CellMapping {
    /// 1D mapping, 32 KB boundary (raw 0).
    OneD32K,
    /// 1D mapping, 64 KB boundary (raw 1).
    OneD64K,
    /// 1D mapping, 128 KB boundary (raw 2).
    OneD128K,
    /// 1D mapping, 256 KB boundary (raw 3).
    OneD256K,
    /// 2D mapping (raw 4).
    TwoD,
}

/// The raw value of a mapping.
pub open spec fn cell_mapping_raw(m: CellMapping) -> u32 {
    match m {
        CellMapping::OneD32K => 0,
        CellMapping::OneD64K => 1,
        CellMapping::OneD128K => 2,
        CellMapping::OneD256K => 3,
        CellMapping::TwoD => 4,
    }
}

impl CellMapping {
    /// Decodes a raw mapping value; fails above 4.
    pub fn from_raw(raw: u32) -> (res: Result<Self, NdsError>)
        ensures
            res is Ok <==> raw <= 4,
            res matches Ok(m) ==> cell_mapping_raw(m) == raw,
    {
        if raw == 0 {
            Ok(CellMapping::OneD32K)
        } else if raw == 1 {
            Ok(CellMapping::OneD64K)
        } else if raw == 2 {
            Ok(CellMapping::OneD128K)
        } else if raw == 3 {
            Ok(CellMapping::OneD256K)
        } else if raw == 4 {
            Ok(CellMapping::TwoD)
        } else {
            Err(NdsError::Invalid { what: "unknown character-data mapping" })
        }
    }

    /// The raw value (the inverse of [`CellMapping::from_raw`]).
    pub fn raw(self) -> (res: u32)
        ensures
            res == cell_mapping_raw(self),
    {
        match self {
            CellMapping::OneD32K => 0,
            CellMapping::OneD64K => 1,
            CellMapping::OneD128K => 2,
            CellMapping::OneD256K => 3,
            CellMapping::TwoD => 4,
        }
    }
}

/// A cell's bounding box, from an extended cell record.
#[derive(Debug, Clone, Copy, PartialEq, Eq, Structural)]
pub struct BoundingBox {
    /// Right edge.
    pub max_x: i16,
    /// Bottom edge.
    pub max_y: i16,
    /// Left edge.
    pub min_x: i16,
    /// Top edge.
    pub min_y: i16,
}

/// One cell: a pose built from OAM entries. Borrows the file bytes.
#[derive(Debug)]
pub struct Cell<'a> {
    /// Number of OAM entries that make up the cell.
    pub oam_count: usize,
    attr: u16,
    oam: &'a [u8],
    bounds: Option<BoundingBox>,
}

impl<'a> Cell<'a> {
    /// The OAM entry count.
    pub closed spec fn spec_count(&self) -> usize {
        self.oam_count
    }

    /// The raw `cellAttr`.
    pub closed spec fn spec_attr(&self) -> u16 {
        self.attr
    }

    /// The cell's OAM bytes.
    pub closed spec fn spec_oam(&self) -> Seq<u8> {
        self.oam@
    }

    /// The bounding box of an extended record.
    pub closed spec fn spec_bounds(&self) -> Option<BoundingBox> {
        self.bounds
    }

    /// The bounding-sphere radius (`cellAttr` bits 0–5).
    pub fn radius(&self) -> (res: u8)
        ensures
            res == self.spec_attr() % 64,
    {
        let a = self.attr;
        proof {
            lemma_attr_bits(a);
        }
        (a & 0x3F) as u8
    }

    /// Whether the cell is h-flipped (`cellAttr` bit 8).
    pub fn h_flip(&self) -> (res: bool)
        ensures
            res == ((self.spec_attr() / 0x100) % 2 == 1),
    {
        let a = self.attr;
        proof {
            lemma_attr_bits(a);
        }
        a & 0x100 != 0
    }

    /// Whether the cell is v-flipped (`cellAttr` bit 9).
    pub fn v_flip(&self) -> (res: bool)
        ensures
            res == ((self.spec_attr() / 0x200) % 2 == 1),
    {
        let a = self.attr;
        proof {
            lemma_attr_bits(a);
        }
        a & 0x200 != 0
    }

    /// Whether the cell is flipped across both axes (`cellAttr` bit 10).
    pub fn hv_flip(&self) -> (res: bool)
        ensures
            res == ((self.spec_attr() / 0x400) % 2 == 1),
    {
        let a = self.attr;
        proof {
            lemma_attr_bits(a);
        }
        a & 0x400 != 0
    }

    /// Whether the cell uses rectangular bounds (`cellAttr` bit 11).
    pub fn has_bounding_rect(&self) -> (res: bool)
        ensures
            res == ((self.spec_attr() / 0x800) % 2 == 1),
    {
        let a = self.attr;
        proof {
            lemma_attr_bits(a);
        }
        a & 0x800 != 0
    }

    /// OAM entry `i` as its registers `(attr0, attr1, attr2)`; `None`
    /// past the cell's data.
    pub fn oam_attr(&self, i: usize) -> (res: Option<(u16, u16, u16)>)
        ensures
            6 * i + 6 <= self.spec_oam().len() ==> res == Some((
                spec_u16le(self.spec_oam(), 6 * i),
                spec_u16le(self.spec_oam(), 6 * i + 2),
                spec_u16le(self.spec_oam(), 6 * i + 4),
            )),
            6 * i + 6 > self.spec_oam().len() ==> res is None,
    {
        if i >= self.oam.len() / 6 {
            return None;
        }
        let a0 = match u16le(self.oam, 6 * i) {
            Ok(v) => v,
            Err(_) => {
                return None;
            },
        };
        let a1 = match u16le(self.oam, 6 * i + 2) {
            Ok(v) => v,
            Err(_) => {
                return None;
            },
        };
        let a2 = match u16le(self.oam, 6 * i + 4) {
            Ok(v) => v,
            Err(_) => {
                return None;
            },
        };
        Some((a0, a1, a2))
    }

    /// The bounding box, when the bank uses extended records.
    pub fn bounding_box(&self) -> (res: Option<BoundingBox>)
        ensures
            res == self.spec_bounds(),
    {
        self.bounds
    }
}

/// The flag bits of a cell attribute as arithmetic.
proof fn lemma_attr_bits(a: u16)
    by (bit_vector)
    ensures
        a & 0x3F == a % 64,
        (a & 0x100 != 0) == ((a / 0x100) % 2 == 1),
        (a & 0x200 != 0) == ((a / 0x200) % 2 == 1),
        (a & 0x400 != 0) == ((a / 0x400) % 2 == 1),
        (a & 0x800 != 0) == ((a / 0x800) % 2 == 1),
{
}

/// The VRAM transfer block: DMA sources for streaming cell graphics.
#[derive(Debug)]
pub struct VramTransfer {
    /// The most any one cell transfers.
    pub sz_byte_max: u32,
    /// One `(srcOffset, size)` pair per cell.
    pub blocks: Vec<(u32, u32)>,
}

/// The UCAT user-attribute block: one `u32` per cell.
#[derive(Debug)]
pub struct Ucat {
    attrs: Vec<u32>,
}

impl Ucat {
    /// The attributes, in cell order.
    pub closed spec fn spec_attrs(&self) -> Seq<u32> {
        self.attrs@
    }

    /// The user attribute of cell `i`.
    pub fn attr(&self, i: usize) -> (res: Option<u32>)
        ensures
            i < self.spec_attrs().len() ==> res == Some(self.spec_attrs()[i as int]),
            i >= self.spec_attrs().len() ==> res is None,
    {
        if i < self.attrs.len() {
            Some(self.attrs[i])
        } else {
            None
        }
    }

    /// All per-cell user attributes, in cell order.
    pub fn attrs(&self) -> (res: &[u32])
        ensures
            res@ == self.spec_attrs(),
    {
        self.attrs.as_slice()
    }
}

// The layout of a cell bank, as functions of the file bytes.
/// The KBEC section.
pub open spec fn kbec(s: Seq<u8>) -> NitroSection {
    nitro_section_at(s, 0)
}

/// The LBAL section.
pub open spec fn ncer_labl(s: Seq<u8>) -> NitroSection {
    nitro_section_at(s, 1)
}

/// The UEXT section.
pub open spec fn ncer_uext(s: Seq<u8>) -> NitroSection {
    nitro_section_at(s, 2)
}

/// Where the KBEC body starts.
pub open spec fn kb(s: Seq<u8>) -> int {
    kbec(s).offset + 8
}

/// Where the KBEC body ends.
pub open spec fn ke(s: Seq<u8>) -> int {
    kbec(s).offset + kbec(s).size
}

/// The cell count.
pub open spec fn ncer_n(s: Seq<u8>) -> int {
    spec_u16le(s, kb(s)) as int
}

/// Whether the records are extended.
pub open spec fn ncer_ext(s: Seq<u8>) -> bool {
    spec_u16le(s, kb(s) + 2) == 1
}

/// Bytes per cell record.
pub open spec fn ncer_stride(s: Seq<u8>) -> int {
    if ncer_ext(s) {
        16
    } else {
        8
    }
}

/// Where record `i` starts.
pub open spec fn rec_at(s: Seq<u8>, i: int) -> int {
    kb(s) + 0x18 + i * ncer_stride(s)
}

/// The OAM count of record `i`.
pub open spec fn oam_n(s: Seq<u8>, i: int) -> int {
    spec_u16le(s, rec_at(s, i)) as int
}

/// The OAM entries of the records before `i`.
pub open spec fn oam_before(s: Seq<u8>, i: int) -> int
    decreases i,
{
    if i <= 0 {
        0
    } else {
        oam_before(s, i - 1) + oam_n(s, i - 1)
    }
}

/// Where the records end and the OAM data starts.
pub open spec fn cells_end(s: Seq<u8>) -> int {
    rec_at(s, ncer_n(s))
}

/// Where the OAM data ends.
pub open spec fn oam_end(s: Seq<u8>) -> int {
    cells_end(s) + 6 * oam_before(s, ncer_n(s))
}

/// The OAM end rounded up to 4 bytes from the body start.
pub open spec fn padded_end(s: Seq<u8>) -> int {
    kb(s) + ((oam_end(s) - kb(s) + 3) / 4) * 4
}

/// The VRAM transfer offset field.
pub open spec fn vram_field(s: Seq<u8>) -> u32 {
    spec_u32le(s, kb(s) + 0x0C)
}

/// The UCAT offset field.
pub open spec fn ucat_field(s: Seq<u8>) -> u32 {
    spec_u32le(s, kb(s) + 0x14)
}

/// Where the VRAM block (or, without one, the OAM data and its
/// padding) ends.
pub open spec fn vram_end(s: Seq<u8>) -> int {
    if vram_field(s) != 0 {
        padded_end(s) + 8 + 8 * ncer_n(s)
    } else if ucat_field(s) != 0 {
        padded_end(s)
    } else {
        ke(s)
    }
}

/// Where the UCAT block ends (the last block's end).
pub open spec fn ucat_end(s: Seq<u8>) -> int {
    if ucat_field(s) != 0 {
        vram_end(s) + 0x10 + 8 * ncer_n(s)
    } else {
        vram_end(s)
    }
}

/// The box of an extended record at `at`.
pub open spec fn rec_bounds(s: Seq<u8>, at: int) -> BoundingBox {
    BoundingBox {
        max_x: spec_u16le(s, at + 8) as i16,
        max_y: spec_u16le(s, at + 10) as i16,
        min_x: spec_u16le(s, at + 12) as i16,
        min_y: spec_u16le(s, at + 14) as i16,
    }
}

/// Whether a box is the writer's empty-cell sentinel (max = `i16::MIN`,
/// min = `i16::MAX`).
pub open spec fn sentinel_box(b: BoundingBox) -> bool {
    b.max_x == i16::MIN && b.max_y == i16::MIN && b.min_x == i16::MAX && b.min_y == i16::MAX
}

/// Whether record `i` is well formed: known attribute bits, zero
/// padding, the OAM offset chain, and (extended) a real box unless the
/// cell is empty or carries the sentinel.
pub open spec fn cell_ok(s: Seq<u8>, i: int) -> bool {
    let at = rec_at(s, i);
    &&& spec_u16le(s, at + 2) < 0x4000
    &&& spec_u16le(s, at + 6) == 0
    &&& spec_u16le(s, at + 4) == 6 * oam_before(s, i)
    &&& ncer_ext(s) ==> ({
        let b = rec_bounds(s, at);
        sentinel_box(b) || oam_n(s, i) == 0 || (b.min_x <= b.max_x && b.min_y <= b.max_y)
    })
}

/// Whether the UCAT pointer `i` is the derived one.
pub open spec fn ucat_ptr_ok(s: Seq<u8>, i: int) -> bool {
    spec_u32le(s, vram_end(s) + 0x10 + 4 * i) == 8 + 4 * ncer_n(s) + 4 * i
}

/// Whether the KBEC header is well formed.
pub open spec fn kbec_head_ok(s: Seq<u8>) -> bool {
    let b = kb(s);
    &&& b + 0x18 <= ke(s)
    &&& ncer_n(s) >= 1
    &&& spec_u16le(s, b + 2) <= 1
    &&& spec_u32le(s, b + 4) == 0x18
    &&& spec_u32le(s, b + 8) <= 4
    &&& spec_u32le(s, b + 0x10) == 0
}

/// Whether the cell records fit and are well formed.
#[verifier::opaque]
pub open spec fn kbec_cells_ok(s: Seq<u8>) -> bool {
    &&& cells_end(s) <= ke(s)
    &&& forall|i: int| 0 <= i < ncer_n(s) ==> #[trigger] cell_ok(s, i)
}

/// Whether the OAM data, the optional VRAM and UCAT blocks and the
/// padding tile the rest of the body.
#[verifier::opaque]
pub open spec fn kbec_blocks_ok(s: Seq<u8>) -> bool {
    let b = kb(s);
    let n = ncer_n(s);
    &&& oam_end(s) <= ke(s)
    &&& (vram_field(s) == 0 && ucat_field(s) == 0 ==> ke(s) == padded_end(s) || ke(s) == oam_end(s))
    &&& (vram_field(s) != 0 ==> {
        &&& vram_field(s) == padded_end(s) - b
        &&& padded_end(s) + 8 + 8 * n <= ke(s)
        &&& spec_u32le(s, padded_end(s) + 4) == 8
    })
    &&& (ucat_field(s) != 0 ==> {
        let at = vram_end(s);
        &&& ucat_field(s) == at - b
        &&& at + 0x10 + 8 * n <= ke(s)
        &&& spec_magic(s, at, 0x54, 0x41, 0x43, 0x55)
        &&& spec_u32le(s, at + 4) == 0x10 + 8 * n
        &&& spec_u16le(s, at + 8) == n
        &&& spec_u16le(s, at + 0x0A) == 1
        &&& spec_u32le(s, at + 0x0C) == 8
        &&& forall|i: int| 0 <= i < n ==> #[trigger] ucat_ptr_ok(s, i)
    })
    &&& ucat_end(s) == ke(s)
}

/// Whether the cell bank body is well formed.
pub open spec fn kbec_ok(s: Seq<u8>) -> bool {
    kbec_head_ok(s) && kbec_cells_ok(s) && kbec_blocks_ok(s)
}

/// Whether the container holds the three sections in order, with a
/// zero UEXT block.
pub open spec fn ncer_container_ok(s: Seq<u8>) -> bool {
    &&& nitro_ok(s, seq![0x52u8, 0x45, 0x43, 0x4E], 3)
    &&& spec_u16le(s, 6) == 0x0100
    &&& nitro_count(s) == 3
    &&& kbec(s).spec_is(0x4B, 0x42, 0x45, 0x43)
    &&& ncer_labl(s).spec_is(0x4C, 0x42, 0x41, 0x4C)
    &&& ncer_uext(s).spec_is(0x54, 0x58, 0x45, 0x55)
    &&& ncer_uext(s).size == 0x0C
    &&& spec_u32le(s, ncer_uext(s).offset + 8) == 0
}

/// The body of the label bank.
pub open spec fn ncer_label_body(s: Seq<u8>) -> Seq<u8> {
    let l = ncer_labl(s);
    s.subrange(l.offset + 8, l.offset + l.size)
}

/// Whether `s` is a cell bank the parser accepts.
pub open spec fn ncer_ok(s: Seq<u8>) -> bool {
    &&& ncer_container_ok(s)
    &&& kbec_ok(s)
    &&& forall|i: int|
        0 <= i < label_count(ncer_label_body(s)) ==> #[trigger] label_ok(ncer_label_body(s), i)
}

/// Cell `c` is record `i` of `s`.
pub open spec fn cell_parsed(c: Cell, s: Seq<u8>, i: int) -> bool {
    let at = rec_at(s, i);
    let start = cells_end(s) + 6 * oam_before(s, i);
    &&& c.spec_count() == oam_n(s, i)
    &&& c.spec_attr() == spec_u16le(s, at + 2)
    &&& c.spec_oam() == s.subrange(start, start + 6 * oam_n(s, i))
    &&& c.spec_bounds() == (if ncer_ext(s) {
        Some(rec_bounds(s, at))
    } else {
        None
    })
}

// The serialized form of a cell bank.
/// The OAM entries of the first `i` cells.
pub open spec fn cells_oam_total(cells: Seq<Cell>, i: int) -> int
    decreases i,
{
    if i <= 0 {
        0
    } else {
        cells_oam_total(cells, i - 1) + cells[i - 1].spec_count()
    }
}

/// The box words of an extended record (nothing for a plain one).
pub open spec fn bounds_bytes(c: Cell) -> Seq<u8> {
    match c.spec_bounds() {
        Some(b) => le16(b.max_x as u16) + le16(b.max_y as u16) + le16(b.min_x as u16) + le16(
            b.min_y as u16,
        ),
        None => Seq::<u8>::empty(),
    }
}

/// The record of cell `c` whose OAM data starts at byte `off`.
pub open spec fn record_bytes(c: Cell, off: int) -> Seq<u8> {
    le16(c.spec_count() as u16) + le16(c.spec_attr()) + le16(off as u16) + le16(0) + bounds_bytes(c)
}

/// The records of the first `i` cells.
pub open spec fn records_bytes(cells: Seq<Cell>, i: int) -> Seq<u8>
    decreases i,
{
    if i <= 0 {
        Seq::<u8>::empty()
    } else {
        records_bytes(cells, i - 1) + record_bytes(cells[i - 1], 6 * cells_oam_total(cells, i - 1))
    }
}

/// The OAM data of the first `i` cells.
pub open spec fn oam_bytes(cells: Seq<Cell>, i: int) -> Seq<u8>
    decreases i,
{
    if i <= 0 {
        Seq::<u8>::empty()
    } else {
        oam_bytes(cells, i - 1) + cells[i - 1].spec_oam()
    }
}

/// `k` zero bytes.
pub open spec fn zeros(k: int) -> Seq<u8> {
    Seq::new(k as nat, |_i: int| 0u8)
}

/// The first `i` transfer pairs.
pub open spec fn blocks_bytes(blocks: Seq<(u32, u32)>, i: int) -> Seq<u8>
    decreases i,
{
    if i <= 0 {
        Seq::<u8>::empty()
    } else {
        blocks_bytes(blocks, i - 1) + le32(blocks[i - 1].0) + le32(blocks[i - 1].1)
    }
}

/// The first `i` words of `words`.
pub open spec fn words_bytes(words: Seq<u32>, i: int) -> Seq<u8>
    decreases i,
{
    if i <= 0 {
        Seq::<u8>::empty()
    } else {
        words_bytes(words, i - 1) + le32(words[i - 1])
    }
}

/// The first `i` derived UCAT pointers of an `n`-cell bank.
pub open spec fn ucat_ptrs_bytes(n: int, i: int) -> Seq<u8>
    decreases i,
{
    if i <= 0 {
        Seq::<u8>::empty()
    } else {
        ucat_ptrs_bytes(n, i - 1) + le32((8 + 4 * n + 4 * (i - 1)) as u32)
    }
}

/// The strings of the first `i` labels, each NUL-terminated.
pub open spec fn label_strings(labels: Seq<&str>, i: int) -> Seq<u8>
    decreases i,
{
    if i <= 0 {
        Seq::<u8>::empty()
    } else {
        label_strings(labels, i - 1) + labels[i - 1].spec_bytes() + seq![0u8]
    }
}

/// The offset table of the first `i` labels (running sums of the
/// string lengths).
pub open spec fn label_table(labels: Seq<&str>, i: int) -> Seq<u8>
    decreases i,
{
    if i <= 0 {
        Seq::<u8>::empty()
    } else {
        label_table(labels, i - 1) + le32(label_strings(labels, i - 1).len() as u32)
    }
}

/// A parsed NCER. Borrows the file bytes; see [`Ncer::parse`].
#[derive(Debug)]
pub struct Ncer<'a> {
    version: u16,
    mapping: CellMapping,
    cells: Vec<Cell<'a>>,
    oam_pad: usize,
    vram: Option<VramTransfer>,
    ucat: Option<Ucat>,
    labels: Vec<&'a str>,
}

/// Whether `data` begins with a NCER header.
pub fn is_ncer(data: &[u8]) -> (res: bool)
    ensures
        res == (data@.len() >= 6 && data@[0] == 0x52 && data@[1] == 0x45 && data@[2] == 0x43
            && data@[3] == 0x4E && data@[4] == 0xFF && data@[5] == 0xFE),
{
    data.len() >= 6 && data[0] == 0x52 && data[1] == 0x45 && data[2] == 0x43 && data[3] == 0x4E
        && data[4] == 0xFF && data[5] == 0xFE
}

/// The fields of a cell record as read (count, attribute, box).
type CellRec = (usize, u16, Option<BoundingBox>);

/// The KBEC header fields of a well-formed bank.
struct KbecHeader {
    n: usize,
    ext: bool,
    mapping: CellMapping,
    vram_off: u32,
    ucat_off: u32,
}

fn read_header(data: &[u8], body: usize, body_end: usize) -> (res: Result<KbecHeader, NdsError>)
    requires
        body <= body_end <= data.len(),
    ensures
        ({
            let s = data@;
            let ok = body + 0x18 <= body_end && spec_u16le(s, body as int) >= 1 && spec_u16le(
                s,
                body + 2,
            ) <= 1 && spec_u32le(s, body + 4) == 0x18 && spec_u32le(s, body + 8) <= 4
                && spec_u32le(s, body + 0x10) == 0;
            &&& res is Ok <==> ok
            &&& res matches Ok(h) ==> {
                &&& h.n == spec_u16le(s, body as int)
                &&& h.ext == (spec_u16le(s, body + 2) == 1)
                &&& cell_mapping_raw(h.mapping) == spec_u32le(s, body + 8)
                &&& h.vram_off == spec_u32le(s, body + 0x0C)
                &&& h.ucat_off == spec_u32le(s, body + 0x14)
            }
        }),
{
    if body_end - body < 0x18 {
        return Err(NdsError::Truncated { what: "NCER KBEC header", need: body_end, got: body_end });
    }
    let n = u16le(data, body)?;
    if n == 0 {
        return Err(NdsError::Invalid { what: "NCER cell count" });
    }
    let bank_attr = u16le(data, body + 2)?;
    if bank_attr > 1 {
        return Err(NdsError::Invalid { what: "NCER cellBankAttr (only bit 0 exists)" });
    }
    if u32le(data, body + 4)? != 0x18 {
        return Err(NdsError::Invalid { what: "NCER cellRecordsOffset (always 0x18)" });
    }
    let mapping = CellMapping::from_raw(u32le(data, body + 8)?)?;
    let vram_off = u32le(data, body + 0xC)?;
    if u32le(data, body + 0x10)? != 0 {
        return Err(NdsError::Invalid { what: "NCER KBEC reserved field" });
    }
    let ucat_off = u32le(data, body + 0x14)?;
    Ok(KbecHeader { n: n as usize, ext: bank_attr == 1, mapping, vram_off, ucat_off })
}

fn read_bounds(data: &[u8], at: usize) -> (res: BoundingBox)
    requires
        at + 16 <= data.len(),
    ensures
        res == rec_bounds(data@, at as int),
{
    let max_x = match u16le(data, at + 8) {
        Ok(v) => v,
        Err(_) => 0,
    };
    let max_y = match u16le(data, at + 10) {
        Ok(v) => v,
        Err(_) => 0,
    };
    let min_x = match u16le(data, at + 12) {
        Ok(v) => v,
        Err(_) => 0,
    };
    let min_y = match u16le(data, at + 14) {
        Ok(v) => v,
        Err(_) => 0,
    };
    BoundingBox {
        max_x: #[verifier::truncate] (max_x as i16),
        max_y: #[verifier::truncate] (max_y as i16),
        min_x: #[verifier::truncate] (min_x as i16),
        min_y: #[verifier::truncate] (min_y as i16),
    }
}

/// Reads the cell records: their fields, and the OAM entries in all.
fn read_records(data: &[u8], body: usize, body_end: usize, n: usize, ext: bool) -> (res: Result<
    (Vec<CellRec>, u64),
    NdsError,
>)
    requires
        body == kb(data@),
        body_end == ke(data@),
        kb(data@) + 0x18 <= ke(data@) <= data.len(),
        n == ncer_n(data@),
        ext == ncer_ext(data@),
    ensures
        ({
            let s = data@;
            &&& res is Ok <==> kbec_cells_ok(s)
            &&& res matches Ok((recs, total)) ==> {
                &&& cells_end(s) <= ke(s)
                &&& recs@.len() == ncer_n(s)
                &&& total == oam_before(s, ncer_n(s))
                &&& forall|i: int|
                    0 <= i < recs@.len() ==> {
                        &&& (#[trigger] recs@[i]).0 == oam_n(s, i)
                        &&& recs@[i].1 == spec_u16le(s, rec_at(s, i) + 2)
                        &&& recs@[i].2 == (if ncer_ext(s) {
                            Some(rec_bounds(s, rec_at(s, i)))
                        } else {
                            None
                        })
                    }
            }
        }),
{
    let ghost s = data@;
    reveal(kbec_cells_ok);
    let stride: usize = if ext {
        16
    } else {
        8
    };
    assert(stride == ncer_stride(s));
    if n * stride > body_end - body - 0x18 {
        assert(cells_end(s) > ke(s));
        return Err(NdsError::Truncated { what: "NCER cell records", need: body_end, got: body_end });
    }
    let mut recs: Vec<CellRec> = Vec::new();
    let mut total: u64 = 0;
    let mut i: usize = 0;
    while i < n
        invariant
            s == data@,
            body == kb(s),
            body_end == ke(s),
            ke(s) <= s.len(),
            n == ncer_n(s),
            stride == ncer_stride(s),
            ext == ncer_ext(s),
            cells_end(s) <= ke(s),
            i <= n,
            recs@.len() == i,
            total == oam_before(s, i as int),
            total <= 0xFFFF * (i as int),
            forall|j: int| 0 <= j < i ==> #[trigger] cell_ok(s, j),
            forall|j: int|
                0 <= j < i ==> {
                    &&& (#[trigger] recs@[j]).0 == oam_n(s, j)
                    &&& recs@[j].1 == spec_u16le(s, rec_at(s, j) + 2)
                    &&& recs@[j].2 == (if ncer_ext(s) {
                        Some(rec_bounds(s, rec_at(s, j)))
                    } else {
                        None
                    })
                },
        decreases n - i,
    {
        proof {
            assert(i * stride + stride <= n * stride) by (nonlinear_arith)
                requires
                    i < n,
            ;
        }
        let at = body + 0x18 + i * stride;
        assert(at == rec_at(s, i as int));
        let count = match u16le(data, at) {
            Ok(v) => v,
            Err(e) => {
                return Err(e);
            },
        };
        let attr = match u16le(data, at + 2) {
            Ok(v) => v,
            Err(e) => {
                return Err(e);
            },
        };
        let oam_off = match u16le(data, at + 4) {
            Ok(v) => v,
            Err(e) => {
                return Err(e);
            },
        };
        let pad = match u16le(data, at + 6) {
            Ok(v) => v,
            Err(e) => {
                return Err(e);
            },
        };
        if attr >= 0x4000 || pad != 0 || oam_off as u64 != 6 * total {
            assert(!cell_ok(s, i as int));
            reveal(kbec_cells_ok);
            return Err(NdsError::Invalid { what: "NCER cell record" });
        }
        let bounds = if ext {
            let b = read_bounds(data, at);
            let sentinel = b.max_x == i16::MIN && b.max_y == i16::MIN && b.min_x == i16::MAX
                && b.min_y == i16::MAX;
            if !sentinel && count > 0 && (b.min_x > b.max_x || b.min_y > b.max_y) {
                assert(!cell_ok(s, i as int));
                reveal(kbec_cells_ok);
                return Err(NdsError::Invalid { what: "NCER cell bounding box (min > max)" });
            }
            Some(b)
        } else {
            None
        };
        assert(cell_ok(s, i as int));
        recs.push((count as usize, attr, bounds));
        total = total + count as u64;
        i = i + 1;
    }
    Ok((recs, total))
}

fn read_vram(data: &[u8], at: usize, n: usize) -> (res: Result<VramTransfer, NdsError>)
    requires
        at + 8 + 8 * n <= data.len(),
    ensures
        res is Ok <==> spec_u32le(data@, at + 4) == 8,
        res matches Ok(v) ==> {
            &&& v.sz_byte_max == spec_u32le(data@, at as int)
            &&& v.blocks@.len() == n
            &&& forall|i: int|
                0 <= i < n ==> #[trigger] v.blocks@[i] == (
                    spec_u32le(data@, at + 8 + 8 * i),
                    spec_u32le(data@, at + 12 + 8 * i),
                )
        },
{
    let sz_byte_max = u32le(data, at)?;
    if u32le(data, at + 4)? != 8 {
        return Err(NdsError::Invalid { what: "NCER VRAM transfer reserved field" });
    }
    let mut blocks: Vec<(u32, u32)> = Vec::new();
    let mut i: usize = 0;
    while i < n
        invariant
            at + 8 + 8 * n <= data.len(),
            i <= n,
            blocks@.len() == i,
            forall|j: int|
                0 <= j < i ==> #[trigger] blocks@[j] == (
                    spec_u32le(data@, at + 8 + 8 * j),
                    spec_u32le(data@, at + 12 + 8 * j),
                ),
        decreases n - i,
    {
        let src = u32le(data, at + 8 + 8 * i)?;
        let size = u32le(data, at + 12 + 8 * i)?;
        blocks.push((src, size));
        i = i + 1;
    }
    Ok(VramTransfer { sz_byte_max, blocks })
}

fn read_ucat(data: &[u8], at: usize, n: usize) -> (res: Result<Ucat, NdsError>)
    requires
        at + 0x10 + 8 * n <= data.len(),
        at == vram_end(data@),
        n == ncer_n(data@),
    ensures
        ({
            let s = data@;
            let ok = spec_magic(s, at as int, 0x54, 0x41, 0x43, 0x55) && spec_u32le(s, at + 4) == 0x10
                + 8 * n && spec_u16le(s, at + 8) == n && spec_u16le(s, at + 0x0A) == 1 && spec_u32le(
                s,
                at + 0x0C,
            ) == 8 && forall|i: int| 0 <= i < n ==> #[trigger] ucat_ptr_ok(s, i);
            &&& res is Ok <==> ok
            &&& res matches Ok(u) ==> {
                &&& u.spec_attrs().len() == n
                &&& forall|i: int|
                    0 <= i < n ==> #[trigger] u.spec_attrs()[i] == spec_u32le(
                        s,
                        at + 0x10 + 4 * n + 4 * i,
                    )
            }
        }),
{
    if !has_magic(data, at, 0x54, 0x41, 0x43, 0x55) {
        return Err(NdsError::Invalid { what: "NCER UCAT magic" });
    }
    if u32le(data, at + 4)? as usize != 0x10 + 8 * n {
        return Err(NdsError::Invalid { what: "NCER UCAT size" });
    }
    if u16le(data, at + 8)? as usize != n {
        return Err(NdsError::Invalid { what: "NCER UCAT numCells (must match the bank)" });
    }
    if u16le(data, at + 0xA)? != 1 {
        return Err(NdsError::Invalid { what: "NCER UCAT attrsPerCell (always 1)" });
    }
    if u32le(data, at + 0xC)? != 8 {
        return Err(NdsError::Invalid { what: "NCER UCAT reserved field" });
    }
    let mut i: usize = 0;
    while i < n
        invariant
            at + 0x10 + 8 * n <= data.len(),
            at == vram_end(data@),
            n == ncer_n(data@),
            i <= n,
            forall|j: int| 0 <= j < i ==> #[trigger] ucat_ptr_ok(data@, j),
        decreases n - i,
    {
        if u32le(data, at + 0x10 + 4 * i)? as usize != 8 + 4 * n + 4 * i {
            assert(!ucat_ptr_ok(data@, i as int));
            return Err(NdsError::Invalid { what: "NCER UCAT pointer derivation" });
        }
        i = i + 1;
    }
    let mut attrs: Vec<u32> = Vec::new();
    let mut i: usize = 0;
    while i < n
        invariant
            at + 0x10 + 8 * n <= data.len(),
            i <= n,
            attrs@.len() == i,
            forall|j: int|
                0 <= j < i ==> #[trigger] attrs@[j] == spec_u32le(data@, at + 0x10 + 4 * n + 4 * j),
        decreases n - i,
    {
        attrs.push(u32le(data, at + 0x10 + 4 * n + 4 * i)?);
        i = i + 1;
    }
    Ok(Ucat { attrs })
}

impl<'a> Ncer<'a> {
    #[verifier::type_invariant]
    spec fn inv(self) -> bool {
        &&& self.cells@.len() >= 1
        &&& self.cells@.len() <= 0xFFFF
        &&& forall|i: int|
            0 <= i < self.cells@.len() ==> (#[trigger] self.cells@[i]).bounds is Some
                == self.cells@[0].bounds is Some
        &&& forall|i: int|
            0 <= i < self.cells@.len() ==> (#[trigger] self.cells@[i]).oam@.len() == 6
                * self.cells@[i].oam_count
        &&& forall|i: int| 0 <= i < self.cells@.len() ==> (#[trigger] self.cells@[i]).oam_count <= 0xFFFF
        &&& self.oam_pad <= 3
        &&& (self.vram matches Some(v) ==> v.blocks@.len() == self.cells@.len())
        &&& (self.ucat matches Some(u) ==> u.attrs@.len() == self.cells@.len())
    }

    /// The container version.
    pub closed spec fn spec_version(&self) -> u16 {
        self.version
    }

    /// The mapping.
    pub closed spec fn spec_mapping(&self) -> CellMapping {
        self.mapping
    }

    /// The cells, in bank order.
    pub closed spec fn spec_cells(&self) -> Seq<Cell<'a>> {
        self.cells@
    }

    /// The alignment bytes kept after the OAM data.
    pub closed spec fn spec_oam_pad(&self) -> usize {
        self.oam_pad
    }

    /// The VRAM transfer block.
    pub closed spec fn spec_vram(&self) -> Option<VramTransfer> {
        self.vram
    }

    /// The UCAT block.
    pub closed spec fn spec_ucat(&self) -> Option<Ucat> {
        self.ucat
    }

    /// The labels.
    pub closed spec fn spec_labels(&self) -> Seq<&'a str> {
        self.labels@
    }

    /// How a parse of `s` relates the fields to the bytes.
    pub open spec fn parsed_from(&self, s: Seq<u8>) -> bool {
        let n = ncer_n(s);
        let body = ncer_label_body(s);
        &&& self.spec_version() == spec_u16le(s, 6)
        &&& cell_mapping_raw(self.spec_mapping()) == spec_u32le(s, kb(s) + 8)
        &&& self.spec_cells().len() == n
        &&& forall|i: int| 0 <= i < n ==> #[trigger] cell_parsed(self.spec_cells()[i], s, i)
        &&& self.spec_oam_pad() == (if vram_field(s) == 0 && ucat_field(s) == 0 && ke(s)
            == padded_end(s) {
            padded_end(s) - oam_end(s)
        } else {
            0
        })
        &&& self.spec_vram() is Some == (vram_field(s) != 0)
        &&& (self.spec_vram() matches Some(v) ==> {
            &&& v.sz_byte_max == spec_u32le(s, padded_end(s))
            &&& v.blocks@.len() == n
            &&& forall|i: int|
                0 <= i < n ==> #[trigger] v.blocks@[i] == (
                    spec_u32le(s, padded_end(s) + 8 + 8 * i),
                    spec_u32le(s, padded_end(s) + 12 + 8 * i),
                )
        })
        &&& self.spec_ucat() is Some == (ucat_field(s) != 0)
        &&& (self.spec_ucat() matches Some(u) ==> {
            &&& u.spec_attrs().len() == n
            &&& forall|i: int|
                0 <= i < n ==> #[trigger] u.spec_attrs()[i] == spec_u32le(
                    s,
                    vram_end(s) + 0x10 + 4 * n + 4 * i,
                )
        })
        &&& self.spec_labels().len() == label_count(body)
        &&& forall|i: int|
            0 <= i < self.spec_labels().len() ==> #[trigger] self.spec_labels()[i]@ == decode_utf8(
                label_bytes(body, i),
            )
    }

    /// Parses a complete NCER file, enforcing the full layout: the
    /// container, the KBEC header constants, every cell record, the OAM
    /// offset chain, the VRAM and UCAT blocks sitting exactly after the
    /// data before them and ending the section, the UCAT pointers, the
    /// labels and the UEXT block.
    #[verifier::rlimit(40)]
    pub fn parse(data: &'a [u8]) -> (res: Result<Self, NdsError>)
        ensures
            res is Ok <==> ncer_ok(data@),
            res matches Ok(n) ==> n.parsed_from(data@),
    {
        let ghost s = data@;
        let (version, l, body, body_end) = read_container(data)?;
        let h = read_header(data, body, body_end)?;
        let n = h.n;
        let (recs, total) = read_records(data, body, body_end, n, h.ext)?;
        let stride: usize = if h.ext {
            16
        } else {
            8
        };
        let rec_end = body + 0x18 + n * stride;
        assert(rec_end == cells_end(s));
        if total > ((body_end - rec_end) / 6) as u64 {
            assert(oam_end(s) > ke(s));
            reveal(kbec_blocks_ok);
            return Err(NdsError::Truncated { what: "NCER OAM data", need: body_end, got: body_end });
        }
        let data_end = rec_end + 6 * total as usize;
        assert(data_end == oam_end(s));
        let cells = build_cells(data, &recs, rec_end, n);
        let (oam_pad, vram, ucat) = read_blocks(data, body, body_end, n, h.vram_off, h.ucat_off, data_end)?;
        assert(kbec_ok(s));
        assert(ncer_label_body(s) == data@.subrange(l.offset + 8, l.offset + l.size));
        let labels = nitro_labels(data, l.offset, l.size)?;
        proof {
            assert(cells@.len() >= 1);
        }
        let r = Ncer { version, mapping: h.mapping, cells, oam_pad, vram, ucat, labels };
        assert(r.parsed_from(s));
        Ok(r)
    }
}

impl<'a> Ncer<'a> {
    /// The number of cells.
    pub open spec fn spec_n(&self) -> int {
        self.spec_cells().len() as int
    }

    /// Whether the records are extended.
    pub open spec fn spec_ext(&self) -> bool {
        self.spec_cells()[0].spec_bounds() is Some
    }

    /// The bytes before the alignment padding: header, records, OAM data.
    pub open spec fn spec_pre_len(&self) -> int {
        0x18 + records_bytes(self.spec_cells(), self.spec_n()).len() as int + oam_bytes(
            self.spec_cells(),
            self.spec_n(),
        ).len() as int
    }

    /// The alignment padding after the OAM data.
    pub open spec fn spec_pad_len(&self) -> int {
        if self.spec_vram() is Some || self.spec_ucat() is Some {
            (4 - self.spec_pre_len() % 4) % 4
        } else {
            self.spec_oam_pad() as int
        }
    }

    /// The VRAM transfer block as written.
    pub open spec fn spec_vram_bytes(&self) -> Seq<u8> {
        match self.spec_vram() {
            Some(v) => le32(v.sz_byte_max) + le32(8) + blocks_bytes(v.blocks@, v.blocks@.len() as int),
            None => Seq::<u8>::empty(),
        }
    }

    /// The UCAT block as written.
    pub open spec fn spec_ucat_bytes(&self) -> Seq<u8> {
        let n = self.spec_n();
        match self.spec_ucat() {
            Some(u) => seq![0x54u8, 0x41, 0x43, 0x55] + le32((0x10 + 8 * n) as u32) + le16(n as u16)
                + le16(1) + le32(8) + ucat_ptrs_bytes(n, n) + words_bytes(
                u.spec_attrs(),
                u.spec_attrs().len() as int,
            ),
            None => Seq::<u8>::empty(),
        }
    }

    /// The body offset of the VRAM block (0 without one).
    pub open spec fn spec_vram_off(&self) -> int {
        if self.spec_vram() is Some {
            self.spec_pre_len() + self.spec_pad_len()
        } else {
            0
        }
    }

    /// The body offset of the UCAT block (0 without one).
    pub open spec fn spec_ucat_off(&self) -> int {
        if self.spec_ucat() is Some {
            self.spec_pre_len() + self.spec_pad_len() + self.spec_vram_bytes().len()
        } else {
            0
        }
    }

    /// The KBEC body as written.
    #[verifier::opaque]
    pub open spec fn spec_kbec_body(&self) -> Seq<u8> {
        let n = self.spec_n();
        le16(n as u16) + le16(
            if self.spec_ext() {
                1u16
            } else {
                0u16
            },
        ) + le32(0x18) + le32(cell_mapping_raw(self.spec_mapping())) + le32(
            self.spec_vram_off() as u32,
        ) + le32(0) + le32(self.spec_ucat_off() as u32) + records_bytes(self.spec_cells(), n)
            + oam_bytes(self.spec_cells(), n) + zeros(self.spec_pad_len()) + self.spec_vram_bytes()
            + self.spec_ucat_bytes()
    }

    /// The LBAL body as written.
    #[verifier::opaque]
    pub open spec fn spec_labl_body(&self) -> Seq<u8> {
        let l = self.spec_labels();
        label_table(l, l.len() as int) + label_strings(l, l.len() as int)
    }

    /// The container form [`Ncer::to_bytes`] writes.
    pub open spec fn spec_bytes(&self) -> Seq<u8> {
        let kbec = self.spec_kbec_body();
        let labl = self.spec_labl_body();
        let total = 0x10 + 8 + kbec.len() + 8 + labl.len() + 0x0C;
        seq![0x52u8, 0x45, 0x43, 0x4E] + le16(0xFEFF) + le16(self.spec_version()) + le32(
            total as u32,
        ) + le16(0x10) + le16(3) + seq![0x4Bu8, 0x42, 0x45, 0x43] + le32((8 + kbec.len()) as u32)
            + kbec + seq![0x4Cu8, 0x42, 0x41, 0x4C] + le32((8 + labl.len()) as u32) + labl + seq![
            0x54u8,
            0x58,
            0x45,
            0x55,
        ] + le32(0x0C) + le32(0)
    }

    /// The container version (always 0x0100 on retail files).
    pub fn version(&self) -> (res: u16)
        ensures
            res == self.spec_version(),
    {
        self.version
    }

    /// The OBJ VRAM mapping the bank's cells assume.
    pub fn mapping(&self) -> (res: CellMapping)
        ensures
            res == self.spec_mapping(),
    {
        self.mapping
    }

    /// The number of cells in the bank.
    pub fn cell_count(&self) -> (res: usize)
        ensures
            res == self.spec_cells().len(),
    {
        self.cells.len()
    }

    /// All cells, in bank order.
    pub fn cells(&self) -> (res: &[Cell<'a>])
        ensures
            res@ == self.spec_cells(),
    {
        self.cells.as_slice()
    }

    /// Cell `i`, if it exists.
    pub fn cell(&self, i: usize) -> (res: Option<&Cell<'a>>)
        ensures
            i < self.spec_cells().len() ==> res == Some(&self.spec_cells()[i as int]),
            i >= self.spec_cells().len() ==> res is None,
    {
        if i < self.cells.len() {
            Some(&self.cells[i])
        } else {
            None
        }
    }

    /// Whether the bank uses extended cell records (with boxes).
    pub fn is_extended(&self) -> (res: bool)
        ensures
            self.spec_cells().len() >= 1,
            res == self.spec_ext(),
    {
        proof {
            use_type_invariant(self);
        }
        self.cells[0].bounds.is_some()
    }

    /// The VRAM transfer block, if the bank has one.
    pub fn vram_transfer(&self) -> (res: Option<&VramTransfer>)
        ensures
            res is Some == self.spec_vram() is Some,
            res matches Some(v) ==> *v == self.spec_vram()->0,
    {
        match &self.vram {
            Some(v) => Some(v),
            None => None,
        }
    }

    /// The UCAT user-attribute block, if the bank has one.
    pub fn ucat(&self) -> (res: Option<&Ucat>)
        ensures
            res is Some == self.spec_ucat() is Some,
            res matches Some(u) ==> *u == self.spec_ucat()->0,
    {
        match &self.ucat {
            Some(u) => Some(u),
            None => None,
        }
    }

    /// The bank's labels, in section order (their count is independent
    /// of the cell count).
    pub fn labels(&self) -> (res: &[&'a str])
        ensures
            res@ == self.spec_labels(),
    {
        self.labels.as_slice()
    }

    fn vram_vec(&self) -> (res: Vec<u8>)
        ensures
            res@ == self.spec_vram_bytes(),
            res@.len() == if self.spec_vram() is Some { 8 + 8 * self.spec_n() } else { 0 },
    {
        proof {
            use_type_invariant(self);
        }
        let mut out: Vec<u8> = Vec::new();
        if let Some(v) = &self.vram {
            push_le32(&mut out, v.sz_byte_max);
            push_le32(&mut out, 8);
            let mut i: usize = 0;
            while i < v.blocks.len()
                invariant
                    i <= v.blocks@.len(),
                    out@ == le32(v.sz_byte_max) + le32(8) + blocks_bytes(v.blocks@, i as int),
                    out@.len() == 8 + 8 * i,
                decreases v.blocks@.len() - i,
            {
                let (src, size) = v.blocks[i];
                push_le32(&mut out, src);
                push_le32(&mut out, size);
                i = i + 1;
                assert(out@ =~= le32(v.sz_byte_max) + le32(8) + blocks_bytes(v.blocks@, i as int));
            }
        }
        out
    }

    fn ucat_vec(&self) -> (res: Vec<u8>)
        ensures
            res@ == self.spec_ucat_bytes(),
    {
        proof {
            use_type_invariant(self);
        }
        let n = self.cells.len();
        let mut out: Vec<u8> = Vec::new();
        if let Some(u) = &self.ucat {
            out.push(0x54);
            out.push(0x41);
            out.push(0x43);
            out.push(0x55);
            push_le32(&mut out, (0x10 + 8 * n) as u32);
            push_le16(&mut out, n as u16);
            push_le16(&mut out, 1);
            push_le32(&mut out, 8);
            let ghost head = out@;
            assert(head =~= seq![0x54u8, 0x41, 0x43, 0x55] + le32((0x10 + 8 * n) as u32) + le16(n as u16) + le16(1) + le32(8));
            let mut i: usize = 0;
            while i < n
                invariant
                    n <= 0xFFFF,
                    i <= n,
                    out@ == head + ucat_ptrs_bytes(n as int, i as int),
                decreases n - i,
            {
                push_le32(&mut out, (8 + 4 * n + 4 * i) as u32);
                i = i + 1;
                assert(out@ =~= head + ucat_ptrs_bytes(n as int, i as int));
            }
            let ghost mid = out@;
            let mut j: usize = 0;
            while j < u.attrs.len()
                invariant
                    j <= u.attrs@.len(),
                    out@ == mid + words_bytes(u.attrs@, j as int),
                decreases u.attrs@.len() - j,
            {
                push_le32(&mut out, u.attrs[j]);
                j = j + 1;
                assert(out@ =~= mid + words_bytes(u.attrs@, j as int));
            }
            assert(out@ =~= self.spec_ucat_bytes());
        }
        out
    }

    fn kbec_body_vec(&self) -> (res: Vec<u8>)
        ensures
            res@ == self.spec_kbec_body(),
    {
        reveal(Ncer::spec_kbec_body);
        proof {
            use_type_invariant(self);
        }
        let n = self.cells.len();
        let ext = self.cells[0].bounds.is_some();
        let recs = self.records_vec();
        let oams = self.oams_vec();
        let pre: u64 = 0x18 + recs.len() as u64 + oams.len() as u64;
        let has_block = self.vram.is_some() || self.ucat.is_some();
        let pad: u64 = if has_block {
            (4 - pre % 4) % 4
        } else {
            self.oam_pad as u64
        };
        let vram = self.vram_vec();
        let ucat = self.ucat_vec();
        let vram_off: u64 = if self.vram.is_some() {
            pre + pad
        } else {
            0
        };
        let ucat_off: u64 = if self.ucat.is_some() {
            pre + pad + vram.len() as u64
        } else {
            0
        };
        let mut out: Vec<u8> = Vec::new();
        push_le16(&mut out, n as u16);
        push_le16(&mut out, if ext { 1 } else { 0 });
        push_le32(&mut out, 0x18);
        push_le32(&mut out, self.mapping.raw());
        push_le32(&mut out, #[verifier::truncate] (vram_off as u32));
        push_le32(&mut out, 0);
        push_le32(&mut out, #[verifier::truncate] (ucat_off as u32));
        push_bytes(&mut out, recs.as_slice());
        push_bytes(&mut out, oams.as_slice());
        let ghost before_pad = out@;
        let mut k: u64 = 0;
        while k < pad
            invariant
                k <= pad,
                out@ == before_pad + zeros(k as int),
            decreases pad - k,
        {
            out.push(0);
            k = k + 1;
            assert(out@ =~= before_pad + zeros(k as int));
        }
        push_bytes(&mut out, vram.as_slice());
        push_bytes(&mut out, ucat.as_slice());
        out
    }

    fn labl_body_vec(&self) -> (res: Vec<u8>)
        ensures
            res@ == self.spec_labl_body(),
    {
        reveal(Ncer::spec_labl_body);
        let mut table: Vec<u8> = Vec::new();
        let mut strings: Vec<u8> = Vec::new();
        let mut i: usize = 0;
        while i < self.labels.len()
            invariant
                i <= self.labels@.len(),
                table@ == label_table(self.labels@, i as int),
                strings@ == label_strings(self.labels@, i as int),
            decreases self.labels@.len() - i,
        {
            push_le32(&mut table, #[verifier::truncate] (strings.len() as u32));
            push_bytes(&mut strings, self.labels[i].as_bytes());
            strings.push(0);
            i = i + 1;
            assert(strings@ =~= label_strings(self.labels@, i as int));
        }
        push_bytes(&mut table, strings.as_slice());
        table
    }

    /// Re-serializes the parsed NCER into its container form: every
    /// layout constant is re-derived (the KBEC header fields, the OAM
    /// offset chain, the VRAM and UCAT offsets and the UCAT pointers, the
    /// label offsets as running sums of the label lengths), the alignment
    /// padding is zero, and the label bank ends at its last label's NUL.
    pub fn to_bytes(&self) -> (res: Vec<u8>)
        ensures
            res@ == self.spec_bytes(),
    {
        let ghost body = self.spec_kbec_body();
        let ghost lbody = self.spec_labl_body();
        let kbec = self.kbec_body_vec();
        let labl = self.labl_body_vec();
        let kbec_len = kbec.len() as u128;
        let labl_len = labl.len() as u128;
        let total: u128 = 0x10 + 8 + kbec_len + 8 + labl_len + 0xC;
        let mut out = magic_vec(0x52, 0x45, 0x43, 0x4E);
        push_le16(&mut out, 0xFEFF);
        push_le16(&mut out, self.version);
        push_le32(&mut out, #[verifier::truncate] (total as u32));
        push_le16(&mut out, 0x10);
        push_le16(&mut out, 3);
        push_magic(&mut out, 0x4B, 0x42, 0x45, 0x43);
        push_le32(&mut out, #[verifier::truncate] ((8 + kbec_len) as u32));
        push_bytes(&mut out, kbec.as_slice());
        push_magic(&mut out, 0x4C, 0x42, 0x41, 0x4C);
        push_le32(&mut out, #[verifier::truncate] ((8 + labl_len) as u32));
        push_bytes(&mut out, labl.as_slice());
        push_magic(&mut out, 0x54, 0x58, 0x45, 0x55);
        push_le32(&mut out, 0xC);
        push_le32(&mut out, 0);
        out
    }

    fn records_vec(&self) -> (res: Vec<u8>)
        ensures
            res@ == records_bytes(self.spec_cells(), self.spec_n()),
            res@.len() == self.spec_n() * if self.spec_ext() { 16int } else { 8 },
    {
        proof {
            use_type_invariant(self);
        }
        let n = self.cells.len();
        let mut out: Vec<u8> = Vec::new();
        let mut off: u64 = 0;
        let mut i: usize = 0;
        while i < n
            invariant
                n == self.cells@.len(),
                n <= 0xFFFF,
                forall|j: int|
                    0 <= j < n ==> (#[trigger] self.cells@[j]).bounds is Some
                        == self.cells@[0].bounds is Some,
                forall|j: int| 0 <= j < n ==> (#[trigger] self.cells@[j]).oam_count <= 0xFFFF,
                i <= n,
                off == 6 * cells_oam_total(self.cells@, i as int),
                off <= 0x5FFFA * i,
                out@ == records_bytes(self.cells@, i as int),
                out@.len() == i * if self.cells@[0].bounds is Some { 16int } else { 8 },
            decreases n - i,
        {
            let c = &self.cells[i];
            assert(self.cells@[i as int].oam_count <= 0xFFFF);
            let ghost before = out@;
            push_le16(&mut out, c.oam_count as u16);
            push_le16(&mut out, c.attr);
            push_le16(&mut out, #[verifier::truncate] (off as u16));
            push_le16(&mut out, 0);
            if let Some(b) = c.bounds {
                push_le16(&mut out, #[verifier::truncate] (b.max_x as u16));
                push_le16(&mut out, #[verifier::truncate] (b.max_y as u16));
                push_le16(&mut out, #[verifier::truncate] (b.min_x as u16));
                push_le16(&mut out, #[verifier::truncate] (b.min_y as u16));
            }
            assert(out@ =~= before + record_bytes(self.cells@[i as int], off as int));
            off = off + 6 * c.oam_count as u64;
            i = i + 1;
            proof {
                assert(i * if self.cells@[0].bounds is Some { 16int } else { 8 } == (i - 1) * if self.cells@[0].bounds is Some { 16int } else { 8 } + if self.cells@[0].bounds is Some { 16int } else { 8 }) by (nonlinear_arith);
            }
        }
        out
    }

    fn oams_vec(&self) -> (res: Vec<u8>)
        ensures
            res@ == oam_bytes(self.spec_cells(), self.spec_n()),
            res@.len() <= 0x5FFFA * self.spec_n(),
    {
        proof {
            use_type_invariant(self);
        }
        let n = self.cells.len();
        let mut out: Vec<u8> = Vec::new();
        let mut i: usize = 0;
        while i < n
            invariant
                n == self.cells@.len(),
                forall|j: int|
                    0 <= j < n ==> (#[trigger] self.cells@[j]).oam@.len() == 6 * self.cells@[j].oam_count,
                forall|j: int| 0 <= j < n ==> (#[trigger] self.cells@[j]).oam_count <= 0xFFFF,
                i <= n,
                out@ == oam_bytes(self.cells@, i as int),
                out@.len() <= 0x5FFFA * i,
            decreases n - i,
        {
            assert(self.cells@[i as int].oam@.len() == 6 * self.cells@[i as int].oam_count);
            assert(self.cells@[i as int].oam_count <= 0xFFFF);
            push_bytes(&mut out, self.cells[i].oam);
            i = i + 1;
        }
        out
    }
}

fn read_container(data: &[u8]) -> (res: Result<(u16, NitroSection, usize, usize), NdsError>)
    ensures
        res is Ok <==> ncer_container_ok(data@),
        res matches Ok((version, l, body, body_end)) ==> {
            &&& version == spec_u16le(data@, 6)
            &&& l == ncer_labl(data@)
            &&& l.offset + 8 <= l.offset + l.size <= data@.len()
            &&& body == kb(data@)
            &&& body_end == ke(data@)
            &&& body <= body_end
            &&& body_end + 0x14 <= data.len()
        },
{
    let ghost s = data@;
    let (version, sections) = nitro_sections(data, [0x52, 0x45, 0x43, 0x4E], 3)?;
    assert(seq![0x52u8, 0x45, 0x43, 0x4E] =~= [0x52u8, 0x45, 0x43, 0x4E]@);
    if version != 0x0100 {
        return Err(NdsError::Invalid { what: "NCER version (always 0x0100 on retail files)" });
    }
    if sections.len() != 3 {
        return Err(NdsError::Invalid { what: "NCER section count" });
    }
    let k = sections[0];
    let l = sections[1];
    let u = sections[2];
    assert(nitro_section_ok(s, nitro_sec_off(s, 0)));
    assert(nitro_section_ok(s, nitro_sec_off(s, 1)));
    assert(nitro_section_ok(s, nitro_sec_off(s, 2)));
    if !k.is(0x4B, 0x42, 0x45, 0x43) || !l.is(0x4C, 0x42, 0x41, 0x4C) || !u.is(0x54, 0x58, 0x45, 0x55) {
        return Err(NdsError::Invalid { what: "NCER section order" });
    }
    if u.size != 0xC {
        return Err(NdsError::Invalid { what: "NCER UEXT block (always 0x0C bytes of zero)" });
    }
    if u32le(data, u.offset + 8)? != 0 {
        return Err(NdsError::Invalid { what: "NCER UEXT block (always 0x0C bytes of zero)" });
    }
    Ok((version, l, k.offset + 8, k.offset + k.size))
}

#[verifier::rlimit(30)]
fn read_blocks(
    data: &[u8],
    body: usize,
    body_end: usize,
    n: usize,
    vram_off: u32,
    ucat_off: u32,
    data_end: usize,
) -> (res: Result<(usize, Option<VramTransfer>, Option<Ucat>), NdsError>)
    requires
        body == kb(data@),
        body_end == ke(data@),
        body <= body_end,
        body_end + 0x14 <= data.len(),
        n == ncer_n(data@),
        vram_off == vram_field(data@),
        ucat_off == ucat_field(data@),
        data_end == oam_end(data@),
        body <= data_end <= body_end,
    ensures
        ({
            let s = data@;
            &&& res is Ok <==> kbec_blocks_ok(s)
            &&& res matches Ok((oam_pad, vram, ucat)) ==> {
                &&& oam_pad == (if vram_field(s) == 0 && ucat_field(s) == 0 && ke(s) == padded_end(s) {
                    padded_end(s) - oam_end(s)
                } else {
                    0
                })
                &&& oam_pad <= 3
                &&& vram is Some == (vram_field(s) != 0)
                &&& (vram matches Some(v) ==> {
                    &&& v.sz_byte_max == spec_u32le(s, padded_end(s))
                    &&& v.blocks@.len() == n
                    &&& forall|i: int|
                        0 <= i < n ==> #[trigger] v.blocks@[i] == (
                            spec_u32le(s, padded_end(s) + 8 + 8 * i),
                            spec_u32le(s, padded_end(s) + 12 + 8 * i),
                        )
                })
                &&& ucat is Some == (ucat_field(s) != 0)
                &&& (ucat matches Some(u) ==> {
                    &&& u.spec_attrs().len() == n
                    &&& u.attrs@.len() == n
                    &&& forall|i: int|
                        0 <= i < n ==> #[trigger] u.spec_attrs()[i] == spec_u32le(
                            s,
                            vram_end(s) + 0x10 + 4 * n + 4 * i,
                        )
                })
            }
        }),
{
    let ghost s = data@;
    reveal(kbec_blocks_ok);
    let padded = body + ((data_end - body + 3) / 4) * 4;
    assert(padded == padded_end(s));
    let mut oam_pad: usize = 0;
    if vram_off == 0 && ucat_off == 0 {
        if body_end == padded {
            oam_pad = padded - data_end;
        } else if body_end != data_end {
            return Err(NdsError::Invalid { what: "NCER KBEC section does not end at the OAM data" });
        }
    }
    let mut end = if vram_off != 0 || ucat_off != 0 {
        padded
    } else {
        body_end
    };
    let mut vram: Option<VramTransfer> = None;
    if vram_off != 0 {
        if vram_off as usize != padded - body {
            return Err(NdsError::Invalid { what: "NCER vramTransferOffset (must follow the OAM data exactly)" });
        }
        if padded > body_end || n > (body_end - padded) / 8 || 8 * n + 8 > body_end - padded {
            return Err(NdsError::Invalid { what: "NCER VRAM transfer block overruns the section" });
        }
        vram = Some(read_vram(data, padded, n)?);
        end = padded + 8 + 8 * n;
    }
    assert(end == vram_end(s));
    let mut ucat: Option<Ucat> = None;
    if ucat_off != 0 {
        if ucat_off as usize != end - body {
            return Err(NdsError::Invalid { what: "NCER ucatOffset (must follow the preceding block exactly)" });
        }
        if end > body_end || n > (body_end - end) / 8 || 8 * n + 0x10 > body_end - end {
            return Err(NdsError::Invalid { what: "NCER UCAT block overruns the section" });
        }
        ucat = Some(read_ucat(data, end, n)?);
        end = end + 0x10 + 8 * n;
    }
    assert(end == ucat_end(s));
    if end != body_end {
        return Err(NdsError::Invalid { what: "NCER KBEC blocks do not tile the section" });
    }
    Ok((oam_pad, vram, ucat))
}

fn build_cells<'a>(data: &'a [u8], recs: &Vec<CellRec>, rec_end: usize, n: usize) -> (res: Vec<
    Cell<'a>,
>)
    requires
        recs@.len() == n,
        n == ncer_n(data@),
        rec_end == cells_end(data@),
        oam_end(data@) <= data.len(),
        forall|i: int|
            0 <= i < recs@.len() ==> {
                &&& (#[trigger] recs@[i]).0 == oam_n(data@, i)
                &&& recs@[i].1 == spec_u16le(data@, rec_at(data@, i) + 2)
                &&& recs@[i].2 == (if ncer_ext(data@) {
                    Some(rec_bounds(data@, rec_at(data@, i)))
                } else {
                    None
                })
            },
    ensures
        res@.len() == n,
        forall|i: int| 0 <= i < n ==> #[trigger] cell_parsed(res@[i], data@, i),
        forall|i: int| 0 <= i < n ==> (#[trigger] res@[i]).oam@.len() == 6 * res@[i].oam_count,
        forall|i: int| 0 <= i < n ==> (#[trigger] res@[i]).oam_count <= 0xFFFF,
        forall|i: int| 0 <= i < n ==> (#[trigger] res@[i]).bounds is Some == ncer_ext(data@),
{
    let ghost s = data@;
    let mut cells: Vec<Cell<'a>> = Vec::new();
    let mut at = rec_end;
    let mut i: usize = 0;
    while i < n
        invariant
            s == data@,
            recs@.len() == n,
            n == ncer_n(s),
            rec_end == cells_end(s),
            oam_end(s) <= data.len(),
            i <= n,
            at == rec_end + 6 * oam_before(s, i as int),
            cells@.len() == i,
            forall|j: int|
                0 <= j < recs@.len() ==> {
                    &&& (#[trigger] recs@[j]).0 == oam_n(s, j)
                    &&& recs@[j].1 == spec_u16le(s, rec_at(s, j) + 2)
                    &&& recs@[j].2 == (if ncer_ext(s) {
                        Some(rec_bounds(s, rec_at(s, j)))
                    } else {
                        None
                    })
                },
            forall|j: int| 0 <= j < i ==> #[trigger] cell_parsed(cells@[j], s, j),
            forall|j: int| 0 <= j < i ==> (#[trigger] cells@[j]).oam@.len() == 6 * cells@[j].oam_count,
            forall|j: int| 0 <= j < i ==> (#[trigger] cells@[j]).oam_count <= 0xFFFF,
            forall|j: int| 0 <= j < i ==> (#[trigger] cells@[j]).bounds is Some == ncer_ext(s),
        decreases n - i,
    {
        proof {
            lemma_oam_before_mono(s, i as int + 1, n as int);
        }
        let (count, attr, bounds) = recs[i];
        let oam = slice_range(data, at, at + 6 * count);
        let c = Cell { oam_count: count, attr, oam, bounds };
        assert(cell_parsed(c, s, i as int));
        cells.push(c);
        at = at + 6 * count;
        i = i + 1;
    }
    cells
}

/// The OAM count before a record never exceeds that before a later one.
proof fn lemma_oam_before_mono(s: Seq<u8>, i: int, j: int)
    requires
        0 <= i <= j,
    ensures
        oam_before(s, i) <= oam_before(s, j),
    decreases j - i,
{
    if i < j {
        lemma_oam_before_mono(s, i, j - 1);
    }
}

/// A 16-bit word read as signed and written back is the word.
proof fn lemma_i16_roundtrip(u: u16)
    ensures
        (u as i16) as u16 == u,
{
    assert((u as i16) as u16 == u) by (bit_vector);
}

/// The OAM totals of the parsed cells are the totals of the records.
proof fn lemma_oam_totals(cells: Seq<Cell>, s: Seq<u8>, i: int)
    requires
        0 <= i <= cells.len(),
        forall|j: int| 0 <= j < cells.len() ==> #[trigger] cell_parsed(cells[j], s, j),
    ensures
        cells_oam_total(cells, i) == oam_before(s, i),
    decreases i,
{
    if i > 0 {
        lemma_oam_totals(cells, s, i - 1);
        assert(cell_parsed(cells[i - 1], s, i - 1));
    }
}

/// The records of the first `i` parsed cells, as written, are the
/// records read.
proof fn lemma_records_bytes(cells: Seq<Cell>, s: Seq<u8>, i: int)
    requires
        0 <= i <= cells.len(),
        cells.len() == ncer_n(s),
        kbec_head_ok(s),
        kbec_cells_ok(s),
        ke(s) <= s.len(),
        0 <= kb(s),
        forall|j: int| 0 <= j < cells.len() ==> #[trigger] cell_parsed(cells[j], s, j),
    ensures
        s.subrange(rec_at(s, 0), rec_at(s, i)) == records_bytes(cells, i),
    decreases i,
{
    reveal(kbec_cells_ok);
    if i == 0 {
        assert(s.subrange(rec_at(s, 0), rec_at(s, 0)) =~= Seq::<u8>::empty());
    } else {
        lemma_records_bytes(cells, s, i - 1);
        let c = cells[i - 1];
        let at = rec_at(s, i - 1);
        assert(cell_parsed(c, s, i - 1));
        assert(cell_ok(s, i - 1));
        lemma_oam_totals(cells, s, i - 1);
        assert(rec_at(s, i) <= cells_end(s)) by (nonlinear_arith)
            requires
                i <= ncer_n(s),
                rec_at(s, i) == kb(s) + 0x18 + i * ncer_stride(s),
                cells_end(s) == kb(s) + 0x18 + ncer_n(s) * ncer_stride(s),
                ncer_stride(s) > 0,
        ;
        assert(at + ncer_stride(s) == rec_at(s, i)) by (nonlinear_arith)
            requires
                at == kb(s) + 0x18 + (i - 1) * ncer_stride(s),
                rec_at(s, i) == kb(s) + 0x18 + i * ncer_stride(s),
        ;
        lemma_u16le_bytes(s, at);
        lemma_u16le_bytes(s, at + 2);
        lemma_u16le_bytes(s, at + 4);
        lemma_u16le_bytes(s, at + 6);
        lemma_subrange_concat(s, at, at + 2, at + 4);
        lemma_subrange_concat(s, at, at + 4, at + 6);
        lemma_subrange_concat(s, at, at + 6, at + 8);
        if ncer_ext(s) {
            lemma_u16le_bytes(s, at + 8);
            lemma_u16le_bytes(s, at + 10);
            lemma_u16le_bytes(s, at + 12);
            lemma_u16le_bytes(s, at + 14);
            lemma_i16_roundtrip(spec_u16le(s, at + 8));
            lemma_i16_roundtrip(spec_u16le(s, at + 10));
            lemma_i16_roundtrip(spec_u16le(s, at + 12));
            lemma_i16_roundtrip(spec_u16le(s, at + 14));
            lemma_subrange_concat(s, at, at + 8, at + 10);
            lemma_subrange_concat(s, at, at + 10, at + 12);
            lemma_subrange_concat(s, at, at + 12, at + 14);
            lemma_subrange_concat(s, at, at + 14, at + 16);
            assert(s.subrange(at + 8, at + 16) =~= bounds_bytes(c));
        } else {
            assert(bounds_bytes(c) =~= Seq::<u8>::empty());
        }
        assert(s.subrange(at, rec_at(s, i)) =~= record_bytes(c, 6 * cells_oam_total(cells, i - 1)));
        lemma_subrange_concat(s, rec_at(s, 0), at, rec_at(s, i));
    }
}

/// The OAM data of the first `i` parsed cells is the data read.
proof fn lemma_oam_bytes(cells: Seq<Cell>, s: Seq<u8>, i: int)
    requires
        0 <= i <= cells.len(),
        cells.len() == ncer_n(s),
        0 <= cells_end(s),
        oam_end(s) <= s.len(),
        forall|j: int| 0 <= j < cells.len() ==> #[trigger] cell_parsed(cells[j], s, j),
    ensures
        s.subrange(cells_end(s), cells_end(s) + 6 * oam_before(s, i)) == oam_bytes(cells, i),
    decreases i,
{
    lemma_oam_before_mono(s, 0, ncer_n(s));
    lemma_oam_before_mono(s, i, ncer_n(s));
    if i == 0 {
        assert(s.subrange(cells_end(s), cells_end(s)) =~= Seq::<u8>::empty());
    } else {
        lemma_oam_bytes(cells, s, i - 1);
        assert(cell_parsed(cells[i - 1], s, i - 1));
        lemma_oam_before_mono(s, i, ncer_n(s));
        lemma_oam_before_mono(s, i - 1, i);
        lemma_oam_before_mono(s, 0, i - 1);
        lemma_subrange_concat(
            s,
            cells_end(s),
            cells_end(s) + 6 * oam_before(s, i - 1),
            cells_end(s) + 6 * oam_before(s, i),
        );
    }
}

/// The first `i` transfer pairs as written are the pairs read at `at`.
proof fn lemma_blocks_bytes(blocks: Seq<(u32, u32)>, s: Seq<u8>, at: int, i: int)
    requires
        0 <= i <= blocks.len(),
        0 <= at,
        at + 8 * blocks.len() <= s.len(),
        forall|k: int|
            0 <= k < blocks.len() ==> #[trigger] blocks[k] == (spec_u32le(s, at + 8 * k), spec_u32le(
                s,
                at + 4 + 8 * k,
            )),
    ensures
        s.subrange(at, at + 8 * i) == blocks_bytes(blocks, i),
    decreases i,
{
    if i == 0 {
        assert(s.subrange(at, at) =~= Seq::<u8>::empty());
    } else {
        lemma_blocks_bytes(blocks, s, at, i - 1);
        let p = at + 8 * (i - 1);
        assert(blocks[i - 1] == (spec_u32le(s, p), spec_u32le(s, p + 4)));
        lemma_u32le_bytes(s, p);
        lemma_u32le_bytes(s, p + 4);
        lemma_subrange_concat(s, p, p + 4, p + 8);
        lemma_subrange_concat(s, at, p, p + 8);
        assert(blocks_bytes(blocks, i) =~= blocks_bytes(blocks, i - 1) + (le32(blocks[i - 1].0) + le32(
            blocks[i - 1].1,
        )));
    }
}

/// The first `i` words as written are the words read at `at`.
proof fn lemma_words_bytes(words: Seq<u32>, s: Seq<u8>, at: int, i: int)
    requires
        0 <= i <= words.len(),
        0 <= at,
        at + 4 * words.len() <= s.len(),
        forall|k: int| 0 <= k < words.len() ==> #[trigger] words[k] == spec_u32le(s, at + 4 * k),
    ensures
        s.subrange(at, at + 4 * i) == words_bytes(words, i),
    decreases i,
{
    if i == 0 {
        assert(s.subrange(at, at) =~= Seq::<u8>::empty());
    } else {
        lemma_words_bytes(words, s, at, i - 1);
        let p = at + 4 * (i - 1);
        assert(words[i - 1] == spec_u32le(s, p));
        lemma_u32le_bytes(s, p);
        lemma_subrange_concat(s, at, p, p + 4);
    }
}

/// The first `i` derived UCAT pointers as written are the pointers read.
proof fn lemma_ucat_ptrs_bytes(s: Seq<u8>, i: int)
    requires
        0 <= i <= ncer_n(s),
        0 <= vram_end(s),
        vram_end(s) + 0x10 + 4 * ncer_n(s) <= s.len(),
        forall|k: int| 0 <= k < ncer_n(s) ==> #[trigger] ucat_ptr_ok(s, k),
    ensures
        s.subrange(vram_end(s) + 0x10, vram_end(s) + 0x10 + 4 * i) == ucat_ptrs_bytes(ncer_n(s), i),
    decreases i,
{
    let at = vram_end(s) + 0x10;
    if i == 0 {
        assert(s.subrange(at, at) =~= Seq::<u8>::empty());
    } else {
        lemma_ucat_ptrs_bytes(s, i - 1);
        let p = at + 4 * (i - 1);
        assert(ucat_ptr_ok(s, i - 1));
        lemma_u32le_bytes(s, p);
        lemma_subrange_concat(s, at, p, p + 4);
    }
}

/// Where the string of label `i` of `b` ends, its NUL included, when the
/// strings are packed: where the next one starts, the body end for the
/// last.
pub open spec fn label_end(b: Seq<u8>, i: int) -> int {
    if i + 1 < label_count(b) {
        label_start(b, i + 1)
    } else {
        b.len() as int
    }
}

/// Whether a label-bank body is packed: the offsets run from 0 and each
/// string, its NUL included, ends where the next one starts, the last at
/// the body end (an empty body without labels).
pub open spec fn labels_packed(b: Seq<u8>) -> bool {
    &&& label_count(b) == 0 ==> b.len() == 0
    &&& label_count(b) > 0 ==> label_word(b, 0) == 0
    &&& forall|i: int| 0 <= i < label_count(b) ==> nul_from(b, label_start(b, i)) + 1 == #[trigger] label_end(b, i)
}

/// The strings of the first `i` labels of a packed body are its bytes
/// from the end of the table to label `i`.
proof fn lemma_label_strings(labels: Seq<&str>, b: Seq<u8>, i: int)
    requires
        0 <= i <= label_count(b),
        labels.len() == label_count(b),
        labels_packed(b),
        forall|k: int| 0 <= k < label_count(b) ==> #[trigger] label_ok(b, k),
        forall|k: int| 0 <= k < labels.len() ==> #[trigger] labels[k]@ == decode_utf8(label_bytes(b, k)),
    ensures
        b.subrange(4 * (label_count(b) as int), if i < label_count(b) {
            label_start(b, i)
        } else {
            b.len() as int
        }) == label_strings(labels, i),
    decreases i,
{
    let n = label_count(b) as int;
    lemma_label_run_bounds(b, 0);
    if i == 0 {
        if n > 0 {
            assert(label_start(b, 0) == 4 * n);
        }
        assert(b.subrange(4 * n, if 0 < n {
            label_start(b, 0)
        } else {
            b.len() as int
        }) =~= Seq::<u8>::empty());
    } else {
        lemma_label_strings(labels, b, i - 1);
        let k = i - 1;
        assert(label_ok(b, k));
        assert(nul_from(b, label_start(b, k)) + 1 == label_end(b, k));
        let st = label_start(b, k);
        let nul = nul_from(b, st);
        lemma_nul_from_bounds(b, st);
        assert(labels[k]@ == decode_utf8(label_bytes(b, k)));
        decode_utf8_encode_utf8(label_bytes(b, k));
        assert(labels[k].spec_bytes() == label_bytes(b, k));
        assert(b.subrange(nul, nul + 1) =~= seq![0u8]);
        lemma_subrange_concat(b, st, nul, nul + 1);
        if k > 0 || n > 0 {
            lemma_subrange_concat(b, 4 * n, st, nul + 1);
        }
        assert(label_strings(labels, i) == label_strings(labels, k) + labels[k].spec_bytes() + seq![0u8]);
        assert(b.subrange(4 * n, nul + 1) =~= label_strings(labels, k) + labels[k].spec_bytes() + seq![0u8]);
    }
}

/// The offset table of the first `i` labels of a packed body is its
/// first `4 i` bytes.
proof fn lemma_label_table(labels: Seq<&str>, b: Seq<u8>, i: int)
    requires
        0 <= i <= label_count(b),
        labels.len() == label_count(b),
        labels_packed(b),
        forall|k: int| 0 <= k < label_count(b) ==> #[trigger] label_ok(b, k),
        forall|k: int| 0 <= k < labels.len() ==> #[trigger] labels[k]@ == decode_utf8(label_bytes(b, k)),
    ensures
        b.subrange(0, 4 * i) == label_table(labels, i),
    decreases i,
{
    lemma_label_run_bounds(b, 0);
    if i == 0 {
        assert(b.subrange(0, 0) =~= Seq::<u8>::empty());
    } else {
        lemma_label_table(labels, b, i - 1);
        let k = i - 1;
        lemma_label_strings(labels, b, k);
        assert(label_ok(b, k));
        assert(label_strings(labels, k).len() == label_word(b, k));
        lemma_u32le_bytes(b, 4 * k);
        lemma_subrange_concat(b, 0, 4 * k, 4 * i);
    }
}

/// A packed label-bank body is the table and the strings of its labels.
proof fn lemma_label_body(labels: Seq<&str>, b: Seq<u8>)
    requires
        labels.len() == label_count(b),
        labels_packed(b),
        forall|k: int| 0 <= k < label_count(b) ==> #[trigger] label_ok(b, k),
        forall|k: int| 0 <= k < labels.len() ==> #[trigger] labels[k]@ == decode_utf8(label_bytes(b, k)),
    ensures
        b == label_table(labels, labels.len() as int) + label_strings(labels, labels.len() as int),
{
    let n = label_count(b) as int;
    lemma_label_run_bounds(b, 0);
    lemma_label_table(labels, b, n);
    lemma_label_strings(labels, b, n);
    lemma_subrange_concat(b, 0, 4 * n, b.len() as int);
    assert(b.subrange(0, b.len() as int) =~= b);
}

/// Whether the alignment bytes after the OAM data are zero.
pub open spec fn ncer_pad_zero(s: Seq<u8>) -> bool {
    forall|k: int| oam_end(s) <= k < padded_end(s) && k < ke(s) ==> #[trigger] s[k] == 0
}

/// The parts of a parse of `s` the KBEC body relies on, with the body
/// inside the file.
pub open spec fn kbec_parsed(n: Ncer, s: Seq<u8>) -> bool {
    &&& kbec_head_ok(s)
    &&& kbec_cells_ok(s)
    &&& kbec_blocks_ok(s)
    &&& 0 <= kb(s)
    &&& ke(s) <= s.len()
    &&& n.spec_cells().len() == ncer_n(s)
    &&& forall|i: int| 0 <= i < ncer_n(s) ==> #[trigger] cell_parsed(n.spec_cells()[i], s, i)
    &&& n.spec_oam_pad() == (if vram_field(s) == 0 && ucat_field(s) == 0 && ke(s) == padded_end(s) {
        padded_end(s) - oam_end(s)
    } else {
        0
    })
    &&& n.spec_vram() is Some == (vram_field(s) != 0)
    &&& n.spec_ucat() is Some == (ucat_field(s) != 0)
    &&& cell_mapping_raw(n.spec_mapping()) == spec_u32le(s, kb(s) + 8)
}

/// The record and OAM bytes of a parsed bank are those read.
proof fn lemma_kbec_data(n: Ncer, s: Seq<u8>)
    requires
        kbec_parsed(n, s),
    ensures
        records_bytes(n.spec_cells(), n.spec_n()) == s.subrange(rec_at(s, 0), cells_end(s)),
        oam_bytes(n.spec_cells(), n.spec_n()) == s.subrange(cells_end(s), oam_end(s)),
        kb(s) + 0x18 == rec_at(s, 0) <= cells_end(s) <= oam_end(s) <= ke(s),
{
    reveal(kbec_cells_ok);
    reveal(kbec_blocks_ok);
    let cells = n.spec_cells();
    lemma_oam_before_mono(s, 0, ncer_n(s));
    assert(rec_at(s, 0) <= cells_end(s)) by (nonlinear_arith)
        requires
            ncer_n(s) >= 0,
            cells_end(s) == kb(s) + 0x18 + ncer_n(s) * ncer_stride(s),
            rec_at(s, 0) == kb(s) + 0x18 + 0 * ncer_stride(s),
            ncer_stride(s) > 0,
    ;
    lemma_records_bytes(cells, s, ncer_n(s));
    lemma_oam_bytes(cells, s, ncer_n(s));
}

/// Rounding `p` up to a multiple of four adds `(4 - p % 4) % 4`.
proof fn lemma_pad_arith(p: int)
    requires
        0 <= p,
    ensures
        ((p + 3) / 4) * 4 - p == (4 - p % 4) % 4,
        p <= ((p + 3) / 4) * 4 <= p + 3,
{
    let q = p / 4;
    let r = p % 4;
    assert(p == 4 * q + r);
    if r == 0 {
        assert((p + 3) / 4 == q);
    } else {
        assert((p + 3) / 4 == q + 1);
    }
}

/// The header, records and OAM data of a parsed bank span the body up
/// to the end of the OAM data, and its extension flag is the one read.
proof fn lemma_kbec_pre(n: Ncer, s: Seq<u8>)
    requires
        kbec_parsed(n, s),
    ensures
        n.spec_pre_len() == oam_end(s) - kb(s),
        n.spec_ext() == ncer_ext(s),
{
    lemma_kbec_data(n, s);
    assert(cell_parsed(n.spec_cells()[0], s, 0));
}

/// The padding of a parsed bank is the one read.
proof fn lemma_kbec_pad(n: Ncer, s: Seq<u8>)
    requires
        kbec_parsed(n, s),
        n.spec_pre_len() == oam_end(s) - kb(s),
    ensures
        n.spec_pad_len() == if vram_field(s) != 0 || ucat_field(s) != 0 || ke(s) == padded_end(s) {
            padded_end(s) - oam_end(s)
        } else {
            0
        },
        oam_end(s) <= padded_end(s) <= oam_end(s) + 3,
{
    lemma_kbec_data(n, s);
    lemma_pad_arith(oam_end(s) - kb(s));
}

/// The KBEC header as read is the header written.
proof fn lemma_kbec_head(n: Ncer, s: Seq<u8>)
    requires
        kbec_parsed(n, s),
        n.spec_vram_off() == vram_field(s),
        n.spec_ucat_off() == ucat_field(s),
        n.spec_ext() == ncer_ext(s),
    ensures
        s.subrange(kb(s), kb(s) + 0x18) == le16(n.spec_n() as u16) + le16(
            if n.spec_ext() {
                1u16
            } else {
                0u16
            },
        ) + le32(0x18) + le32(cell_mapping_raw(n.spec_mapping())) + le32(n.spec_vram_off() as u32) + le32(0)
            + le32(n.spec_ucat_off() as u32),
{
    let b = kb(s);
    lemma_u16le_bytes(s, b);
    lemma_u16le_bytes(s, b + 2);
    lemma_u32le_bytes(s, b + 4);
    lemma_u32le_bytes(s, b + 8);
    lemma_u32le_bytes(s, b + 12);
    lemma_u32le_bytes(s, b + 16);
    lemma_u32le_bytes(s, b + 20);
    lemma_subrange_concat(s, b, b + 2, b + 4);
    lemma_subrange_concat(s, b, b + 4, b + 8);
    lemma_subrange_concat(s, b, b + 8, b + 12);
    lemma_subrange_concat(s, b, b + 12, b + 16);
    lemma_subrange_concat(s, b, b + 16, b + 20);
    lemma_subrange_concat(s, b, b + 20, b + 24);
}

/// The VRAM and UCAT blocks as read are the blocks written.
proof fn lemma_kbec_blocks(n: Ncer, s: Seq<u8>, pe: int)
    requires
        kbec_parsed(n, s),
        pe == (if vram_field(s) != 0 || ucat_field(s) != 0 {
            padded_end(s)
        } else {
            ke(s)
        }),
        blocks_parsed(n, s),
    ensures
        s.subrange(pe, ke(s)) == n.spec_vram_bytes() + n.spec_ucat_bytes(),
        n.spec_vram_bytes().len() == vram_end(s) - pe,
{
    reveal(kbec_blocks_ok);
    let nn = ncer_n(s);
    let ve = vram_end(s);
    if vram_field(s) != 0 {
        let v = n.spec_vram()->0;
        lemma_u32le_bytes(s, pe);
        lemma_u32le_bytes(s, pe + 4);
        assert forall|i: int| 0 <= i < v.blocks@.len() implies #[trigger] v.blocks@[i] == (
            spec_u32le(s, pe + 8 + 8 * i),
            spec_u32le(s, pe + 8 + 4 + 8 * i),
        ) by {
            assert(v.blocks@[i] == (spec_u32le(s, padded_end(s) + 8 + 8 * i), spec_u32le(s, padded_end(s) + 12 + 8 * i)));
        }
        lemma_blocks_bytes(v.blocks@, s, pe + 8, nn);
        lemma_subrange_concat(s, pe, pe + 4, pe + 8);
        lemma_subrange_concat(s, pe, pe + 8, pe + 8 + 8 * nn);
        assert(s.subrange(pe, ve) == n.spec_vram_bytes());
    } else {
        assert(s.subrange(pe, ve) =~= n.spec_vram_bytes());
    }
    if ucat_field(s) != 0 {
        let u = n.spec_ucat()->0;
        assert(s.subrange(ve, ve + 4) =~= seq![0x54u8, 0x41, 0x43, 0x55]);
        lemma_u32le_bytes(s, ve + 4);
        lemma_u16le_bytes(s, ve + 8);
        lemma_u16le_bytes(s, ve + 10);
        lemma_u32le_bytes(s, ve + 12);
        lemma_ucat_ptrs_bytes(s, nn);
        assert forall|i: int| 0 <= i < u.spec_attrs().len() implies #[trigger] u.spec_attrs()[i] == spec_u32le(
            s,
            ve + 0x10 + 4 * nn + 4 * i,
        ) by {
        }
        lemma_words_bytes(u.spec_attrs(), s, ve + 0x10 + 4 * nn, nn);
        lemma_subrange_concat(s, ve, ve + 4, ve + 8);
        lemma_subrange_concat(s, ve, ve + 8, ve + 10);
        lemma_subrange_concat(s, ve, ve + 10, ve + 12);
        lemma_subrange_concat(s, ve, ve + 12, ve + 16);
        lemma_subrange_concat(s, ve, ve + 16, ve + 16 + 4 * nn);
        lemma_subrange_concat(s, ve, ve + 16 + 4 * nn, ve + 16 + 8 * nn);
        assert(s.subrange(ve, ucat_end(s)) == n.spec_ucat_bytes());
    } else {
        assert(s.subrange(ve, ucat_end(s)) =~= n.spec_ucat_bytes());
    }
    lemma_subrange_concat(s, pe, ve, ke(s));
}

/// Whether the VRAM and UCAT blocks of `n` are those of `s`.
pub open spec fn blocks_parsed(n: Ncer, s: Seq<u8>) -> bool {
    &&& (n.spec_vram() matches Some(v) ==> {
        &&& v.sz_byte_max == spec_u32le(s, padded_end(s))
        &&& v.blocks@.len() == ncer_n(s)
        &&& forall|i: int|
            0 <= i < ncer_n(s) ==> #[trigger] v.blocks@[i] == (
                spec_u32le(s, padded_end(s) + 8 + 8 * i),
                spec_u32le(s, padded_end(s) + 12 + 8 * i),
            )
    })
    &&& (n.spec_ucat() matches Some(u) ==> {
        &&& u.spec_attrs().len() == ncer_n(s)
        &&& forall|i: int|
            0 <= i < ncer_n(s) ==> #[trigger] u.spec_attrs()[i] == spec_u32le(
                s,
                vram_end(s) + 0x10 + 4 * ncer_n(s) + 4 * i,
            )
    })
}

/// The KBEC body of a parsed bank with zero padding, as written, is the
/// body read.
#[verifier::rlimit(40)]
proof fn lemma_kbec_body(n: Ncer, s: Seq<u8>)
    requires
        kbec_parsed(n, s),
        blocks_parsed(n, s),
        ncer_pad_zero(s),
    ensures
        s.subrange(kb(s), ke(s)) == n.spec_kbec_body(),
{
    reveal(kbec_blocks_ok);
    lemma_kbec_data(n, s);
    lemma_kbec_pre(n, s);
    lemma_kbec_pad(n, s);
    let pe = if vram_field(s) != 0 || ucat_field(s) != 0 {
        padded_end(s)
    } else {
        ke(s)
    };
    lemma_kbec_blocks(n, s, pe);
    assert(n.spec_vram_off() == vram_field(s));
    assert(n.spec_ucat_off() == ucat_field(s));
    lemma_kbec_head(n, s);
    assert(pe - oam_end(s) == n.spec_pad_len());
    assert(s.subrange(oam_end(s), pe) =~= zeros(n.spec_pad_len()));
    let b = kb(s);
    lemma_subrange_concat(s, b, b + 0x18, cells_end(s));
    lemma_subrange_concat(s, b, cells_end(s), oam_end(s));
    lemma_subrange_concat(s, b, oam_end(s), pe);
    lemma_subrange_concat(s, b, pe, ke(s));
    reveal(Ncer::spec_kbec_body);
    assert(s.subrange(b, ke(s)) =~= n.spec_kbec_body());
}

/// The container of a well-formed bank: its three sections in order,
/// the last ending the file.
proof fn lemma_ncer_sections(d: Seq<u8>)
    requires
        ncer_ok(d),
    ensures
        kbec(d).offset == 0x10,
        ncer_labl(d).offset == 0x10 + kbec(d).size,
        ncer_uext(d).offset == 0x10 + kbec(d).size + ncer_labl(d).size,
        d.len() == 0x10 + kbec(d).size + ncer_labl(d).size + 0x0C,
        kbec(d).size >= 8,
        ncer_labl(d).size >= 8,
        kbec(d).size == spec_u32le(d, 0x14),
        ncer_labl(d).size == spec_u32le(d, ncer_labl(d).offset + 4),
        ncer_uext(d).size == spec_u32le(d, ncer_uext(d).offset + 4),
{
    assert(nitro_section_ok(d, nitro_sec_off(d, 0)));
    assert(nitro_section_ok(d, nitro_sec_off(d, 1)));
    assert(nitro_section_ok(d, nitro_sec_off(d, 2)));
    assert(nitro_sec_off(d, 3) == d.len());
}

/// A parse of a well-formed bank holds what the KBEC body relies on.
proof fn lemma_ncer_parsed_parts(d: Seq<u8>, n: Ncer)
    requires
        ncer_ok(d),
        n.parsed_from(d),
    ensures
        kbec_parsed(n, d),
        blocks_parsed(n, d),
{
    lemma_ncer_sections(d);
}

/// The container header of a well-formed bank.
proof fn lemma_ncer_head(d: Seq<u8>)
    requires
        ncer_ok(d),
    ensures
        d.subrange(0, 0x10) == seq![0x52u8, 0x45, 0x43, 0x4E] + le16(0xFEFF) + le16(spec_u16le(d, 6))
            + le32(d.len() as u32) + le16(0x10) + le16(3),
{
    lemma_u16le_bytes(d, 4);
    lemma_u16le_bytes(d, 6);
    lemma_u32le_bytes(d, 8);
    lemma_u16le_bytes(d, 0x0C);
    lemma_u16le_bytes(d, 0x0E);
    lemma_subrange_concat(d, 0, 4, 6);
    lemma_subrange_concat(d, 0, 6, 8);
    lemma_subrange_concat(d, 0, 8, 12);
    lemma_subrange_concat(d, 0, 12, 14);
    lemma_subrange_concat(d, 0, 14, 16);
}

/// A section at `off` is its magic, its size and its body.
proof fn lemma_section_bytes(d: Seq<u8>, off: int, size: int, magic: Seq<u8>, body: Seq<u8>)
    requires
        0 <= off,
        8 <= size,
        off + size <= d.len(),
        d.subrange(off, off + 4) == magic,
        spec_u32le(d, off + 4) == size,
        d.subrange(off + 8, off + size) == body,
    ensures
        d.subrange(off, off + size) == magic + le32(size as u32) + body,
{
    lemma_u32le_bytes(d, off + 4);
    lemma_subrange_concat(d, off, off + 4, off + 8);
    lemma_subrange_concat(d, off, off + 8, off + size);
}

/// Four consecutive pieces of `d` that cover it make it up.
proof fn lemma_four_pieces(d: Seq<u8>, c: (int, int, int), p: (Seq<u8>, Seq<u8>, Seq<u8>, Seq<u8>))
    requires
        0 <= c.0 <= c.1 <= c.2 <= d.len(),
        d.subrange(0, c.0) == p.0,
        d.subrange(c.0, c.1) == p.1,
        d.subrange(c.1, c.2) == p.2,
        d.subrange(c.2, d.len() as int) == p.3,
    ensures
        p.0 + p.1 + p.2 + p.3 == d,
{
    lemma_subrange_concat(d, 0, c.0, c.1);
    lemma_subrange_concat(d, 0, c.1, c.2);
    lemma_subrange_concat(d, 0, c.2, d.len() as int);
    assert(d.subrange(0, d.len() as int) =~= d);
}

/// The header and the three sections of a parsed bank, as written, are
/// those read.
proof fn lemma_ncer_pieces(d: Seq<u8>, n: Ncer)
    requires
        ncer_ok(d),
        ncer_pad_zero(d),
        labels_packed(ncer_label_body(d)),
        n.parsed_from(d),
    ensures
        d.subrange(0, 0x10) == seq![0x52u8, 0x45, 0x43, 0x4E] + le16(0xFEFF) + le16(n.spec_version())
            + le32(d.len() as u32) + le16(0x10) + le16(3),
        d.subrange(0x10, 0x10 + kbec(d).size) == seq![0x4Bu8, 0x42, 0x45, 0x43] + le32(
            kbec(d).size as u32,
        ) + n.spec_kbec_body(),
        d.subrange(ncer_labl(d).offset as int, ncer_labl(d).offset + ncer_labl(d).size)
            == seq![0x4Cu8, 0x42, 0x41, 0x4C] + le32(ncer_labl(d).size as u32) + n.spec_labl_body(),
        d.subrange(ncer_uext(d).offset as int, d.len() as int) == seq![0x54u8, 0x58, 0x45, 0x55]
            + le32(0x0C) + le32(0),
        n.spec_kbec_body().len() == kbec(d).size - 8,
        n.spec_labl_body().len() == ncer_labl(d).size - 8,
{
    lemma_ncer_sections(d);
    let o0 = 0x10int;
    let z0 = kbec(d).size as int;
    let o1 = o0 + z0;
    let z1 = ncer_labl(d).size as int;
    let o2 = o1 + z1;
    lemma_ncer_parsed_parts(d, n);
    lemma_kbec_body(n, d);
    let lb = ncer_label_body(d);
    lemma_label_body(n.spec_labels(), lb);
    reveal(Ncer::spec_labl_body);
    assert(lb == n.spec_labl_body());
    lemma_ncer_head(d);
    let kmagic = seq![0x4Bu8, 0x42, 0x45, 0x43];
    let lmagic = seq![0x4Cu8, 0x42, 0x41, 0x4C];
    let umagic = seq![0x54u8, 0x58, 0x45, 0x55];
    assert(d.subrange(o0, o0 + 4) =~= kmagic);
    assert(d.subrange(o1, o1 + 4) =~= lmagic);
    assert(d.subrange(o2, o2 + 4) =~= umagic);
    lemma_section_bytes(d, o0, z0, kmagic, n.spec_kbec_body());
    lemma_section_bytes(d, o1, z1, lmagic, n.spec_labl_body());
    lemma_u32le_bytes(d, o2 + 8);
    lemma_section_bytes(d, o2, 0x0C, umagic, le32(0));
}

/// Re-serializing a parsed cell bank gives back exactly its bytes, when
/// the alignment bytes after its OAM data are zero and its label
/// strings are packed.
pub proof fn lemma_ncer_bytes_roundtrip(d: Seq<u8>, n: Ncer)
    requires
        ncer_ok(d),
        ncer_pad_zero(d),
        labels_packed(ncer_label_body(d)),
        n.parsed_from(d),
    ensures
        n.spec_bytes() == d,
{
    lemma_ncer_sections(d);
    lemma_ncer_pieces(d, n);
    let o0 = 0x10int;
    let o1 = o0 + kbec(d).size;
    let o2 = o1 + ncer_labl(d).size;
    let kbody = n.spec_kbec_body();
    let lbody = n.spec_labl_body();
    let h = seq![0x52u8, 0x45, 0x43, 0x4E] + le16(0xFEFF) + le16(n.spec_version()) + le32(
        d.len() as u32,
    ) + le16(0x10) + le16(3);
    let k = seq![0x4Bu8, 0x42, 0x45, 0x43] + le32(kbec(d).size as u32) + kbody;
    let l = seq![0x4Cu8, 0x42, 0x41, 0x4C] + le32(ncer_labl(d).size as u32) + lbody;
    let u = seq![0x54u8, 0x58, 0x45, 0x55] + le32(0x0C) + le32(0);
    lemma_four_pieces(d, (o0, o1, o2), (h, k, l, u));
    assert(8 + kbody.len() == kbec(d).size);
    assert(8 + lbody.len() == ncer_labl(d).size);
    assert(0x10 + 8 + kbody.len() + 8 + lbody.len() + 0x0C == d.len());
    let km = seq![0x4Bu8, 0x42, 0x45, 0x43];
    let lm = seq![0x4Cu8, 0x42, 0x41, 0x4C];
    let um = seq![0x54u8, 0x58, 0x45, 0x55];
    lemma_assoc3(h, km, le32(kbec(d).size as u32), kbody);
    lemma_assoc3(h + k, lm, le32(ncer_labl(d).size as u32), lbody);
    lemma_assoc3(h + k + l, um, le32(0x0C), le32(0));
}

/// Appending three pieces at once appends them one by one.
proof fn lemma_assoc3(x: Seq<u8>, a: Seq<u8>, b: Seq<u8>, c: Seq<u8>)
    ensures
        x + (a + b + c) == x + a + b + c,
{
    assert(x + (a + b + c) =~= x + a + b + c);
}

} // verus!

//! Land data: one 32 × 32-tile cell of the overworld, with its terrain
//! attributes, prop placements, the cell's model and its BDHC height
//! data.
//!
//! Header (0x14 bytes): `u32 attrSize (0x800), propSize (0x30 × n),
//! modelSize, bdhcSize; u16 magic 0x1234; u16 extraSize`. The sections
//! follow contiguously in this order:
//!
//! ```text
//! attrs  0x800       u16 per tile, index (x % 32) + (z % 32) * 32
//! extra  extraSize   kept raw
//! props  0x30 each   one placement per record
//! model  modelSize   the cell's model
//! bdhc   bdhcSize    "BDHC" height data
//! ```
//!
//! Attribute words: bits 0–7 the tile behavior, bit 15 impassable.
//!
//! BDHC: `"BDHC"`, six `u16` counts, then six arrays whose element sizes
//! are 8, 12, 4, 8, 8 and 2 bytes: points, slopes, heights, plates,
//! strips, access list.

use vstd::prelude::*;
use vstd::slice::slice_subrange;
use vstd::slice::slice_to_vec;

use crate::nds::{NdsError, u16le, u32le, spec_u16le, spec_u32le};

verus! {

/// NitroFS path of the land-data archive.
pub const LAND_NARC: &'static str = "a/0/6/5";
/// Members in the retail archive.
pub const LAND_COUNT: usize = 676;
/// Header bytes before the attribute section.
pub const HEADER_SIZE: usize = 0x14;
/// Bytes in the attribute section.
pub const ATTRIBUTE_BYTES: usize = 0x800;
/// Attributes per cell (32 × 32).
pub const ATTRIBUTE_COUNT: usize = 0x400;
/// Bytes of one prop record.
pub const PROP_RECORD_SIZE: usize = 0x30;
/// The header's magic word.
pub const MAGIC: u16 = 0x1234;
/// Props the prop manager holds per cell.
pub const MAX_PROPS: usize = 32;
/// Attribute bit 15: the tile cannot be entered.
pub const IMPASSABLE: u16 = 0x8000;

/// The element size of BDHC array `i`, in count order.
pub open spec fn bdhc_element_size(i: int) -> int {
    if i == 0 {
        8
    } else if i == 1 {
        12
    } else if i == 2 {
        4
    } else if i == 3 {
        8
    } else if i == 4 {
        8
    } else {
        2
    }
}

/// The tile behavior (bits 0–7) of an attribute word.
pub fn behavior(attribute: u16) -> (res: u8)
    ensures
        res == attribute as u8,
        res == attribute % 256,
{
    proof {
        assert(attribute as u8 == attribute % 256) by (bit_vector);
    }
    attribute as u8
}

/// Whether an attribute word marks the tile impassable.
pub fn impassable(attribute: u16) -> (res: bool)
    ensures
        res == (attribute & IMPASSABLE != 0),
        res == (attribute >= 0x8000),
{
    proof {
        assert((attribute & 0x8000 != 0) == (attribute >= 0x8000)) by (bit_vector);
    }
    attribute & IMPASSABLE != 0
}

/// The header's section sizes.
#[derive(Debug, Clone, Copy, PartialEq, Eq)]
pub struct SectionSizes {
    /// The attribute section's size.
    pub attributes: u32,
    /// The prop section's size.
    pub props: u32,
    /// The model's size.
    pub model: u32,
    /// The BDHC block's size.
    pub bdhc: u32,
    /// The extra section's size.
    pub extra: u16,
}

/// The section sizes a header holds.
pub open spec fn spec_section_sizes(b: Seq<u8>) -> SectionSizes {
    SectionSizes {
        attributes: spec_u32le(b, 0),
        props: spec_u32le(b, 4),
        model: spec_u32le(b, 8),
        bdhc: spec_u32le(b, 12),
        extra: spec_u16le(b, 18),
    }
}

impl SectionSizes {
    /// Reads the header; fails when the member is shorter than the
    /// header or the magic is not [`MAGIC`].
    pub fn parse(bytes: &[u8]) -> (res: Result<Self, NdsError>)
        ensures
            res is Ok <==> bytes@.len() >= HEADER_SIZE && spec_u16le(bytes@, 16) == MAGIC,
            res matches Ok(s) ==> s == spec_section_sizes(bytes@),
    {
        if bytes.len() < HEADER_SIZE {
            return Err(
                NdsError::Truncated { what: "land data header", need: HEADER_SIZE, got: bytes.len() },
            );
        }
        if u16le(bytes, 16)? != MAGIC {
            return Err(NdsError::Invalid { what: "land data magic" });
        }
        Ok(SectionSizes {
            attributes: u32le(bytes, 0)?,
            props: u32le(bytes, 4)?,
            model: u32le(bytes, 8)?,
            bdhc: u32le(bytes, 12)?,
            extra: u16le(bytes, 18)?,
        })
    }
}

/// One prop placed in a cell.
#[derive(Debug, Clone, Copy, PartialEq, Eq)]
pub struct PropPlacement {
    /// The member of the area's prop archive.
    pub model_id: i32,
    /// fx32 translation, relative to the cell origin.
    pub translation: [i32; 3],
    /// The rotation as stored; the per-cell draw never reads it.
    pub rotation: [i32; 3],
    /// fx32 scale per axis.
    pub scale: [i32; 3],
}

/// Word `i` of a record, as signed.
pub open spec fn record_word(r: Seq<u8>, i: int) -> i32 {
    spec_u32le(r, 4 * i) as i32
}

/// The placement a record holds.
pub open spec fn spec_prop(r: Seq<u8>) -> PropPlacement {
    PropPlacement {
        model_id: record_word(r, 0),
        translation: [record_word(r, 1), record_word(r, 2), record_word(r, 3)],
        rotation: [record_word(r, 4), record_word(r, 5), record_word(r, 6)],
        scale: [record_word(r, 7), record_word(r, 8), record_word(r, 9)],
    }
}

fn word(record: &[u8], i: usize) -> (res: Result<i32, NdsError>)
    requires
        i < 10,
    ensures
        4 * i + 4 <= record@.len() ==> res == Ok::<i32, NdsError>(record_word(record@, i as int)),
        4 * i + 4 > record@.len() ==> res is Err,
{
    let v = u32le(record, i * 4)?;
    Ok(v as i32)
}

impl PropPlacement {
    /// Decodes one record: ten little-endian words (model, translation,
    /// rotation, scale). Fails when the record is shorter than 40 bytes.
    pub fn parse(record: &[u8]) -> (res: Result<Self, NdsError>)
        ensures
            res is Ok <==> record@.len() >= 40,
            res matches Ok(p) ==> p == spec_prop(record@),
    {
        let w9 = word(record, 9)?;
        let w0 = word(record, 0)?;
        let w1 = word(record, 1)?;
        let w2 = word(record, 2)?;
        let w3 = word(record, 3)?;
        let w4 = word(record, 4)?;
        let w5 = word(record, 5)?;
        let w6 = word(record, 6)?;
        let w7 = word(record, 7)?;
        let w8 = word(record, 8)?;
        let p = PropPlacement {
            model_id: w0,
            translation: [w1, w2, w3],
            rotation: [w4, w5, w6],
            scale: [w7, w8, w9],
        };
        proof {
            let q = spec_prop(record@);
            assert(p.translation@ =~= q.translation@);
            assert(p.rotation@ =~= q.rotation@);
            assert(p.scale@ =~= q.scale@);
        }
        Ok(p)
    }
}

/// The cell's BDHC block, raw.
#[derive(Debug, Clone, PartialEq, Eq, Default)]
pub struct Bdhc {
    /// The six header counts: points, slopes, heights, plates, strips,
    /// access-list entries.
    pub counts: [u16; 6],
    /// The six arrays, raw, in the same order.
    pub sections: [Vec<u8>; 6],
}

/// Count `i` of a BDHC block.
pub open spec fn bdhc_count(b: Seq<u8>, i: int) -> int {
    spec_u16le(b, 4 + 2 * i) as int
}

/// Where BDHC array `i` starts: after the 16-byte header and the arrays
/// before it.
pub open spec fn bdhc_start(b: Seq<u8>, i: int) -> int
    decreases i,
{
    if i <= 0 {
        16
    } else {
        bdhc_start(b, i - 1) + bdhc_count(b, i - 1) * bdhc_element_size(i - 1)
    }
}

/// Whether a non-empty block is well formed: the magic, and counts that
/// account for exactly the block's bytes.
pub open spec fn bdhc_ok(b: Seq<u8>) -> bool {
    &&& b.len() >= 16
    &&& b[0] == 0x42 && b[1] == 0x44 && b[2] == 0x48 && b[3] == 0x43
    &&& bdhc_start(b, 6) == b.len()
}

/// The block a well-formed BDHC encodes.
pub open spec fn bdhc_matches(block: Bdhc, b: Seq<u8>) -> bool {
    &&& forall|i: int| 0 <= i < 6 ==> block.counts@[i] as int == bdhc_count(b, i)
    &&& forall|i: int|
        0 <= i < 6 ==> #[trigger] block.sections@[i]@ == b.subrange(
            bdhc_start(b, i),
            bdhc_start(b, i + 1),
        )
}

proof fn lemma_bdhc_start_monotone(b: Seq<u8>, i: int, j: int)
    requires
        0 <= i <= j,
    ensures
        bdhc_start(b, i) <= bdhc_start(b, j),
    decreases j - i,
{
    if i < j {
        lemma_bdhc_start_monotone(b, i, j - 1);
        assert(bdhc_count(b, j - 1) >= 0);
        assert(bdhc_count(b, j - 1) * bdhc_element_size(j - 1) >= 0) by (nonlinear_arith)
            requires
                bdhc_count(b, j - 1) >= 0,
                bdhc_element_size(j - 1) >= 0,
        ;
    }
}

fn bdhc_section(bytes: &[u8], p: usize, count: u16, size: usize, i: Ghost<int>) -> (res: Result<
    (Vec<u8>, usize),
    NdsError,
>)
    requires
        p <= bytes@.len(),
        size <= 12,
    ensures
        p + count * size <= bytes@.len() ==> (res matches Ok((v, q)) && q == p + count * size
            && v@ == bytes@.subrange(p as int, q as int)),
        p + count * size > bytes@.len() ==> res is Err,
{
    proof {
        assert(count * size <= 0xFFFF * 12) by (nonlinear_arith)
            requires
                count <= 0xFFFF,
                size <= 12,
        ;
    }
    let n = count as usize * size;
    if n > bytes.len() - p {
        return Err(
            NdsError::Truncated { what: "BDHC section", need: p.saturating_add(n), got: bytes.len() },
        );
    }
    let s = slice_subrange(bytes, p, p + n);
    Ok((slice_to_vec(s), p + n))
}

/// An empty block.
pub open spec fn empty_bdhc(block: Bdhc) -> bool {
    &&& forall|i: int| 0 <= i < 6 ==> block.counts@[i] == 0
    &&& forall|i: int| 0 <= i < 6 ==> #[trigger] block.sections@[i]@.len() == 0
}

impl Bdhc {
    /// Parses a BDHC block; an empty slice is an empty block. Fails when
    /// the magic is wrong or the counts do not account for exactly the
    /// block's bytes.
    pub fn parse(bytes: &[u8]) -> (res: Result<Self, NdsError>)
        ensures
            res is Ok <==> bytes@.len() == 0 || bdhc_ok(bytes@),
            res matches Ok(block) ==> if bytes@.len() == 0 {
                empty_bdhc(block)
            } else {
                bdhc_matches(block, bytes@)
            },
    {
        if bytes.len() == 0 {
            return Ok(
                Bdhc {
                    counts: [0u16; 6],
                    sections: [Vec::new(), Vec::new(), Vec::new(), Vec::new(), Vec::new(), Vec::new()],
                },
            );
        }
        if bytes.len() < 4 || bytes[0] != 0x42 || bytes[1] != 0x44 || bytes[2] != 0x48 || bytes[3]
            != 0x43 {
            return Err(NdsError::Invalid { what: "BDHC magic" });
        }
        let c0 = u16le(bytes, 4)?;
        let c1 = u16le(bytes, 6)?;
        let c2 = u16le(bytes, 8)?;
        let c3 = u16le(bytes, 10)?;
        let c4 = u16le(bytes, 12)?;
        let c5 = u16le(bytes, 14)?;
        let ghost b = bytes@;
        proof {
            reveal_with_fuel(bdhc_start, 7);
            lemma_bdhc_start_monotone(b, 0, 6);
            lemma_bdhc_start_monotone(b, 1, 6);
            lemma_bdhc_start_monotone(b, 2, 6);
            lemma_bdhc_start_monotone(b, 3, 6);
            lemma_bdhc_start_monotone(b, 4, 6);
            lemma_bdhc_start_monotone(b, 5, 6);
        }
        let (s0, p) = bdhc_section(bytes, 16, c0, 8, Ghost(0))?;
        let (s1, p) = bdhc_section(bytes, p, c1, 12, Ghost(1))?;
        let (s2, p) = bdhc_section(bytes, p, c2, 4, Ghost(2))?;
        let (s3, p) = bdhc_section(bytes, p, c3, 8, Ghost(3))?;
        let (s4, p) = bdhc_section(bytes, p, c4, 8, Ghost(4))?;
        let (s5, p) = bdhc_section(bytes, p, c5, 2, Ghost(5))?;
        if p != bytes.len() {
            return Err(NdsError::Invalid { what: "BDHC section sizes" });
        }
        let block = Bdhc { counts: [c0, c1, c2, c3, c4, c5], sections: [s0, s1, s2, s3, s4, s5] };
        proof {
            assert(bdhc_matches(block, b));
        }
        Ok(block)
    }

    /// The points array (8-byte elements).
    pub fn points(&self) -> (res: &[u8])
        ensures
            res@ == self.sections@[0]@,
    {
        self.sections[0].as_slice()
    }

    /// The slopes array (12-byte elements).
    pub fn slopes(&self) -> (res: &[u8])
        ensures
            res@ == self.sections@[1]@,
    {
        self.sections[1].as_slice()
    }

    /// The heights array (4-byte elements).
    pub fn heights(&self) -> (res: &[u8])
        ensures
            res@ == self.sections@[2]@,
    {
        self.sections[2].as_slice()
    }

    /// The plates array (8-byte elements).
    pub fn plates(&self) -> (res: &[u8])
        ensures
            res@ == self.sections@[3]@,
    {
        self.sections[3].as_slice()
    }

    /// The strips array (8-byte elements).
    pub fn strips(&self) -> (res: &[u8])
        ensures
            res@ == self.sections@[4]@,
    {
        self.sections[4].as_slice()
    }

    /// The access list (`u16` elements).
    pub fn access_list(&self) -> (res: &[u8])
        ensures
            res@ == self.sections@[5]@,
    {
        self.sections[5].as_slice()
    }
}

/// One parsed land-data member.
#[derive(Debug, Clone, PartialEq, Eq)]
pub struct LandData {
    /// The section sizes from the header.
    pub sizes: SectionSizes,
    /// Terrain attributes, index `(x % 32) + (z % 32) * 32`.
    pub attributes: [u16; ATTRIBUTE_COUNT],
    /// The extra section, raw.
    pub extra: Vec<u8>,
    /// Prop placements, in archive order.
    pub props: Vec<PropPlacement>,
    /// The cell's model, raw.
    pub model: Vec<u8>,
    /// The BDHC height data.
    pub bdhc: Bdhc,
}

/// Where each section of a member starts, by its header.
pub open spec fn land_extra_start() -> int {
    (HEADER_SIZE + ATTRIBUTE_BYTES) as int
}

/// Where the prop section starts.
pub open spec fn land_props_start(s: SectionSizes) -> int {
    land_extra_start() + s.extra
}

/// Where the model starts.
pub open spec fn land_model_start(s: SectionSizes) -> int {
    land_props_start(s) + s.props
}

/// Where the BDHC block starts.
pub open spec fn land_bdhc_start(s: SectionSizes) -> int {
    land_model_start(s) + s.model
}

/// Whether a member's header and sections are consistent: the header
/// parses, the attribute section is 0x800 bytes, the prop section a
/// whole number of records, the sections add up to the member, and the
/// BDHC block is well formed.
pub open spec fn land_ok(b: Seq<u8>) -> bool {
    let s = spec_section_sizes(b);
    &&& b.len() >= HEADER_SIZE
    &&& spec_u16le(b, 16) == MAGIC
    &&& s.attributes == ATTRIBUTE_BYTES
    &&& s.props % (PROP_RECORD_SIZE as u32) == 0
    &&& land_bdhc_start(s) + s.bdhc == b.len()
    &&& {
        let blk = b.subrange(land_bdhc_start(s), b.len() as int);
        blk.len() == 0 || bdhc_ok(blk)
    }
}

impl LandData {
    /// Parses a member. Fails when the header is malformed, the
    /// attribute section is not 0x800 bytes, the prop section is not a
    /// whole number of records, the sections do not add up to the member
    /// length, or the BDHC block is inconsistent.
    pub fn parse(bytes: &[u8]) -> (res: Result<Self, NdsError>)
        ensures
            res is Ok <==> land_ok(bytes@),
            res matches Ok(land) ==> {
                let s = spec_section_sizes(bytes@);
                &&& land.sizes == s
                &&& forall|i: int|
                    0 <= i < ATTRIBUTE_COUNT ==> #[trigger] land.attributes@[i] == spec_u16le(
                        bytes@,
                        HEADER_SIZE + 2 * i,
                    )
                &&& land.extra@ == bytes@.subrange(land_extra_start(), land_props_start(s))
                &&& land.props@.len() == s.props / (PROP_RECORD_SIZE as u32)
                &&& forall|k: int|
                    0 <= k < land.props@.len() ==> #[trigger] land.props@[k] == spec_prop(
                        bytes@.subrange(
                            land_props_start(s) + k * PROP_RECORD_SIZE,
                            land_props_start(s) + (k + 1) * PROP_RECORD_SIZE,
                        ),
                    )
                &&& land.model@ == bytes@.subrange(land_model_start(s), land_bdhc_start(s))
            },
    {
        let sizes = SectionSizes::parse(bytes)?;
        if sizes.attributes as usize != ATTRIBUTE_BYTES {
            return Err(NdsError::Invalid { what: "land attribute section size" });
        }
        if sizes.props as usize % PROP_RECORD_SIZE != 0 {
            return Err(NdsError::Invalid { what: "land prop section size" });
        }
        let total: u64 = HEADER_SIZE as u64 + sizes.attributes as u64 + sizes.extra as u64
            + sizes.props as u64 + sizes.model as u64 + sizes.bdhc as u64;
        if total != bytes.len() as u64 {
            return Err(NdsError::Invalid { what: "land data section sizes" });
        }
        let ghost b = bytes@;
        let mut attributes = [0u16; ATTRIBUTE_COUNT];
        let mut i: usize = 0;
        while i < ATTRIBUTE_COUNT
            invariant
                i <= ATTRIBUTE_COUNT,
                bytes@.len() >= HEADER_SIZE + ATTRIBUTE_BYTES,
                forall|j: int| 0 <= j < i ==> #[trigger] attributes@[j] == spec_u16le(
                    bytes@,
                    HEADER_SIZE + 2 * j,
                ),
            decreases ATTRIBUTE_COUNT - i,
        {
            let a = u16le(bytes, HEADER_SIZE + 2 * i)?;
            attributes[i] = a;
            i = i + 1;
        }
        let p = HEADER_SIZE + ATTRIBUTE_BYTES;
        let q = p + sizes.extra as usize;
        let extra = slice_to_vec(slice_subrange(bytes, p, q));
        let r = q + sizes.props as usize;
        let prop_bytes = slice_subrange(bytes, q, r);
        let n = sizes.props as usize / PROP_RECORD_SIZE;
        proof {
            assert(n * PROP_RECORD_SIZE == sizes.props) by (nonlinear_arith)
                requires
                    sizes.props % 48 == 0,
                    n == sizes.props / 48,
            ;
        }
        let mut props: Vec<PropPlacement> = Vec::new();
        let mut k: usize = 0;
        while k < n
            invariant
                k <= n,
                q <= r <= bytes@.len(),
                n * PROP_RECORD_SIZE == prop_bytes@.len(),
                prop_bytes@ == bytes@.subrange(q as int, r as int),
                props@.len() == k,
                forall|m: int|
                    0 <= m < k ==> #[trigger] props@[m] == spec_prop(
                        prop_bytes@.subrange(m * PROP_RECORD_SIZE, (m + 1) * PROP_RECORD_SIZE),
                    ),
            decreases n - k,
        {
            proof {
                assert((k + 1) * PROP_RECORD_SIZE <= n * PROP_RECORD_SIZE) by (nonlinear_arith)
                    requires
                        k < n,
                ;
            }
            let rec = slice_subrange(prop_bytes, k * PROP_RECORD_SIZE, (k + 1) * PROP_RECORD_SIZE);
            let prop = PropPlacement::parse(rec)?;
            props.push(prop);
            k = k + 1;
        }
        let t = r + sizes.model as usize;
        let model = slice_to_vec(slice_subrange(bytes, r, t));
        let bdhc = Bdhc::parse(slice_subrange(bytes, t, bytes.len()))?;
        let land = LandData { sizes, attributes, extra, props, model, bdhc };
        proof {
            assert forall|m: int| 0 <= m < land.props@.len() implies #[trigger] land.props@[m]
                == spec_prop(
                b.subrange(
                    land_props_start(sizes) + m * PROP_RECORD_SIZE,
                    land_props_start(sizes) + (m + 1) * PROP_RECORD_SIZE,
                ),
            ) by {
                assert((m + 1) * PROP_RECORD_SIZE <= n * PROP_RECORD_SIZE) by (nonlinear_arith)
                    requires
                        m < n,
                ;
                assert(prop_bytes@.subrange(m * PROP_RECORD_SIZE, (m + 1) * PROP_RECORD_SIZE)
                    =~= b.subrange(
                    land_props_start(sizes) + m * PROP_RECORD_SIZE,
                    land_props_start(sizes) + (m + 1) * PROP_RECORD_SIZE,
                ));
            }
        }
        Ok(land)
    }

    /// The attribute of tile `(x, z)` within the cell (0..32 each).
    pub fn attribute(&self, x: usize, z: usize) -> (res: Option<u16>)
        ensures
            x < 32 && z < 32 ==> res == Some(self.attributes@[x + z * 32]),
            !(x < 32 && z < 32) ==> res is None,
    {
        if x >= 32 || z >= 32 {
            return None;
        }
        Some(self.attributes[x + z * 32])
    }
}

} // verus!

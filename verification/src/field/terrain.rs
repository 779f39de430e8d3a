//! Terrain attributes over a window of matrix cells: a tile whose cell
//! is not resident answers "no behavior" (0xFF) and counts as
//! impassable.
//!
//! Coordinates are matrix-wide tile coordinates: cell `(x / 32, z / 32)`,
//! word `(x % 32) + (z % 32) * 32` (see [`super::land`]).

use vstd::prelude::*;

use super::land::{ATTRIBUTE_COUNT, IMPASSABLE};
use super::map_object::Collision;

verus! {

/// The behavior of a tile with no loaded cell.
pub const TILE_BEHAVIOR_NONE: u8 = 0xFF;
/// Distinct blocks the cache of the original holds.
pub const MAX_BLOCKS: usize = 16;

/// Attribute blocks for a rectangle of cells.
#[derive(Debug, Clone, PartialEq, Eq)]
pub struct TerrainAttributes {
    x0: i32,
    z0: i32,
    width: usize,
    height: usize,
    blocks: Vec<Option<Box<[u16; ATTRIBUTE_COUNT]>>>,
}

/// The cell of a tile coordinate (floor division by 32).
pub open spec fn cell_of(v: int) -> int {
    v / 32
}

/// The offset of a tile coordinate within its cell.
pub open spec fn offset_in_cell(v: int) -> int {
    v % 32
}

fn floor_cell(v: i32) -> (res: (i32, usize))
    ensures
        res.0 == cell_of(v as int),
        res.1 == offset_in_cell(v as int),
{
    let c = v >> 5u32;
    let o = (v & 31i32) as usize;
    proof {
        assert(v >> 5u32 == v / 32) by (bit_vector);
        assert(v & 31i32 == v % 32) by (bit_vector);
    }
    (c, o)
}

impl TerrainAttributes {
    /// The window's first cell x.
    pub closed spec fn spec_x0(self) -> i32 {
        self.x0
    }

    /// The window's first cell z.
    pub closed spec fn spec_z0(self) -> i32 {
        self.z0
    }

    /// The window's width in cells.
    pub closed spec fn spec_width(self) -> usize {
        self.width
    }

    /// The window's height in cells.
    pub closed spec fn spec_height(self) -> usize {
        self.height
    }

    /// The slot of cell `(cx, cz)` in the window, if it lies inside.
    pub open spec fn spec_slot(self, cx: int, cz: int) -> Option<int> {
        let dx = cx - self.spec_x0();
        let dz = cz - self.spec_z0();
        if dx < 0 || dz < 0 || dx >= self.spec_width() || dz >= self.spec_height() {
            None
        } else {
            Some(dz * self.spec_width() + dx)
        }
    }

    /// The resident blocks, by slot.
    pub closed spec fn blocks(self) -> Seq<Option<Seq<u16>>> {
        self.blocks@.map_values(
            |b: Option<Box<[u16; ATTRIBUTE_COUNT]>>|
                match b {
                    Some(a) => Some(a@),
                    None => None,
                },
        )
    }

    /// The block of cell `(cx, cz)`, if it is resident.
    pub open spec fn spec_cell(self, cx: int, cz: int) -> Option<Seq<u16>> {
        match self.spec_slot(cx, cz) {
            Some(i) => self.blocks()[i],
            None => None,
        }
    }

    /// The attribute word of tile `(x, z)`, if its cell is resident.
    pub open spec fn spec_attr_at(self, x: int, z: int) -> Option<u16> {
        match self.spec_cell(cell_of(x), cell_of(z)) {
            Some(b) => Some(b[offset_in_cell(x) + offset_in_cell(z) * 32]),
            None => None,
        }
    }

    /// The slots match the window.
    pub closed spec fn wf(self) -> bool {
        &&& self.blocks@.len() == self.width * self.height
        &&& self.x0 + self.width <= i32::MAX
        &&& self.z0 + self.height <= i32::MAX
    }

    /// An empty window covering cells `x0..x0+width`, `z0..z0+height`.
    pub fn new(x0: i32, z0: i32, width: usize, height: usize) -> (res: Self)
        requires
            width * height <= usize::MAX,
            x0 + width <= i32::MAX,
            z0 + height <= i32::MAX,
        ensures
            res.wf(),
            res.spec_x0() == x0,
            res.spec_z0() == z0,
            res.spec_width() == width,
            res.spec_height() == height,
            res.blocks().len() == width * height,
            forall|i: int| 0 <= i < width * height ==> #[trigger] res.blocks()[i] is None,
    {
        let n = width * height;
        let mut blocks: Vec<Option<Box<[u16; ATTRIBUTE_COUNT]>>> = Vec::new();
        let mut i: usize = 0;
        while i < n
            invariant
                i <= n,
                blocks@.len() == i,
                forall|j: int| 0 <= j < i ==> #[trigger] blocks@[j] is None,
            decreases n - i,
        {
            blocks.push(None);
            i = i + 1;
        }
        TerrainAttributes { x0, z0, width, height, blocks }
    }

    /// The window as `(x0, z0, width, height)` in cells.
    pub fn window(&self) -> (res: (i32, i32, usize, usize))
        requires
            self.wf(),
        ensures
            res == (self.spec_x0(), self.spec_z0(), self.spec_width(), self.spec_height()),
    {
        (self.x0, self.z0, self.width, self.height)
    }

    fn slot(&self, cell_x: i32, cell_z: i32) -> (res: Option<usize>)
        requires
            self.wf(),
        ensures
            res matches Some(i) ==> self.spec_slot(cell_x as int, cell_z as int) == Some(i as int)
                && i < self.blocks@.len(),
            res is None ==> self.spec_slot(cell_x as int, cell_z as int) is None,
    {
        let dx = cell_x as i64 - self.x0 as i64;
        let dz = cell_z as i64 - self.z0 as i64;
        if dx < 0 || dz < 0 || dx as u64 >= self.width as u64 || dz as u64 >= self.height as u64 {
            return None;
        }
        let dx = dx as usize;
        let dz = dz as usize;
        let n = self.blocks.len();
        proof {
            assert(dz * self.width + dx < self.blocks@.len() && dz * self.width
                <= self.blocks@.len()) by (nonlinear_arith)
                requires
                    dz < self.height,
                    dx < self.width,
                    self.blocks@.len() == self.width * self.height,
            ;
        }
        Some(dz * self.width + dx)
    }

    /// Stores a cell's attributes; `false` when the cell lies outside
    /// the window (nothing is stored).
    pub fn insert(&mut self, cell_x: i32, cell_z: i32, attributes: &[u16; ATTRIBUTE_COUNT]) -> (res:
        bool)
        requires
            old(self).wf(),
        ensures
            final(self).wf(),
            res == old(self).spec_slot(cell_x as int, cell_z as int) is Some,
            final(self).spec_x0() == old(self).spec_x0(),
            final(self).spec_z0() == old(self).spec_z0(),
            final(self).spec_width() == old(self).spec_width(),
            final(self).spec_height() == old(self).spec_height(),
            res ==> final(self).blocks() == old(self).blocks().update(
                old(self).spec_slot(cell_x as int, cell_z as int)->0,
                Some(attributes@),
            ),
            !res ==> final(self).blocks() == old(self).blocks(),
    {
        match self.slot(cell_x, cell_z) {
            Some(i) => {
                let b = Box::new(*attributes);
                self.blocks.set(i, Some(b));
                proof {
                    assert(self.blocks() =~= old(self).blocks().update(i as int, Some(attributes@)));
                }
                true
            },
            None => false,
        }
    }

    /// A resident cell's block.
    pub fn cell(&self, cell_x: i32, cell_z: i32) -> (res: Option<&[u16; ATTRIBUTE_COUNT]>)
        requires
            self.wf(),
        ensures
            match res {
                Some(b) => self.spec_cell(cell_x as int, cell_z as int) == Some(b@),
                None => self.spec_cell(cell_x as int, cell_z as int) is None,
            },
    {
        let i = match self.slot(cell_x, cell_z) {
            Some(i) => i,
            None => return None,
        };
        match &self.blocks[i] {
            Some(b) => Some(&**b),
            None => None,
        }
    }

    /// Resident cells in the window.
    pub fn loaded_cells(&self) -> (res: usize)
        requires
            self.wf(),
        ensures
            res == self.blocks().filter(|b: Option<Seq<u16>>| b is Some).len(),
    {
        let mut count: usize = 0;
        let mut i: usize = 0;
        while i < self.blocks.len()
            invariant
                i <= self.blocks@.len(),
                count <= i,
                count == self.blocks().take(i as int).filter(|b: Option<Seq<u16>>| b is Some).len(),
            decreases self.blocks@.len() - i,
        {
            proof {
                let s = self.blocks();
                assert(s.take(i + 1) =~= s.take(i as int).push(s[i as int]));
                s.take(i as int).lemma_filter_push(s[i as int], |b: Option<Seq<u16>>| b is Some);
            }
            if self.blocks[i].is_some() {
                count = count + 1;
            }
            i = i + 1;
        }
        proof {
            assert(self.blocks().take(self.blocks@.len() as int) =~= self.blocks());
        }
        count
    }

    /// The attribute word of tile `(x, z)`, when its cell is resident.
    pub fn attr(&self, x: i32, z: i32) -> (res: Option<u16>)
        requires
            self.wf(),
        ensures
            res == self.spec_attr_at(x as int, z as int),
    {
        let (cx, tx) = floor_cell(x);
        let (cz, tz) = floor_cell(z);
        let block = match self.cell(cx, cz) {
            Some(b) => b,
            None => return None,
        };
        Some(block[tx + tz * 32])
    }

    /// The behavior (bits 0–7) of tile `(x, z)`, or
    /// [`TILE_BEHAVIOR_NONE`] outside the resident cells.
    pub fn behavior(&self, x: i32, z: i32) -> (res: u8)
        requires
            self.wf(),
        ensures
            res == match self.spec_attr_at(x as int, z as int) {
                Some(a) => a as u8,
                None => TILE_BEHAVIOR_NONE,
            },
    {
        match self.attr(x, z) {
            Some(a) => a as u8,
            None => TILE_BEHAVIOR_NONE,
        }
    }

    /// Whether tile `(x, z)` is impassable; tiles outside the resident
    /// cells cannot be entered.
    pub fn impassable(&self, x: i32, z: i32) -> (res: bool)
        requires
            self.wf(),
        ensures
            res == match self.spec_attr_at(x as int, z as int) {
                Some(a) => a & IMPASSABLE != 0,
                None => true,
            },
    {
        match self.attr(x, z) {
            Some(a) => a & IMPASSABLE != 0,
            None => true,
        }
    }
}

} // verus!

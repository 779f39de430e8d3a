//! Map matrices: the grid of cells a map is made of.
//!
//! Member layout: `u8 width, height, hasHeaders, hasAltitudes, nameLength;
//! u8 name[nameLength]; [u16 headers[w*h]]; [u8 altitudes[w*h]];
//! u16 landDataIds[w*h]`, cell index `z * width + x`. Without a headers
//! section every cell reports the loading map; without altitudes every
//! cell is at altitude 0.
//!
//! Cell origins: `x = (cellX << 21) + (1 << 20)`, `y = altitude << 15`,
//! `z = (cellZ << 21) + (1 << 20)`: a cell is 32 tiles of 16 units (512
//! units) with its model centred, and one altitude step is 8 units.

use vstd::prelude::*;
use vstd::slice::slice_subrange;
use vstd::slice::slice_to_vec;
use vstd::utf8::*;

use crate::nds::{NdsError, u16le, spec_u16le, utf8};

verus! {

/// NitroFS path of the matrix archive.
pub const MATRIX_NARC: &'static str = "a/0/4/1";
/// Members in the retail archive.
pub const MATRIX_COUNT: usize = 288;
/// The largest cell count (matrix 0 is 47 × 17).
pub const MAX_CELLS: usize = 799;
/// The longest embedded name.
pub const MAX_NAME_LENGTH: usize = 16;
/// Tiles along each edge of a cell.
pub const CELL_TILES: i32 = 32;
/// World units per tile (fx32 integer part).
pub const TILE_UNITS: i32 = 16;
/// World units per cell edge.
pub const CELL_UNITS: i32 = CELL_TILES * TILE_UNITS;
/// World units per altitude step.
pub const ALTITUDE_UNITS: i32 = 8;
/// A land-data id marking a cell with no map.
pub const NO_LAND: u16 = 0xFFFF;

/// One parsed matrix member.
#[derive(Debug, Clone, PartialEq, Eq)]
pub struct MapMatrix {
    /// Member index in [`MATRIX_NARC`].
    pub id: u16,
    /// Cells across.
    pub width: u8,
    /// Cells down.
    pub height: u8,
    /// The embedded name, trailing NULs removed.
    pub name: String,
    /// Whether the member carried a headers section.
    pub has_headers: bool,
    /// Whether the member carried an altitudes section.
    pub has_altitudes: bool,
    /// Map header id per cell (`z * width + x`); the loading map's id
    /// everywhere when [`Self::has_headers`] is false.
    pub headers: Vec<u16>,
    /// Altitude per cell; zeros when [`Self::has_altitudes`] is false.
    pub altitudes: Vec<u8>,
    /// Land-data member per cell, [`NO_LAND`] for none.
    pub land_ids: Vec<u16>,
}

/// `s` without its trailing NUL bytes.
pub open spec fn trim_nul(s: Seq<u8>) -> Seq<u8>
    decreases s.len(),
{
    if s.len() > 0 && s.last() == 0 {
        trim_nul(s.drop_last())
    } else {
        s
    }
}

/// The `n` little-endian `u16`s from `at`.
pub open spec fn u16s_at(b: Seq<u8>, at: int, n: int) -> Seq<u16> {
    Seq::new(n as nat, |i: int| spec_u16le(b, at + 2 * i))
}

/// The cell count of a member.
pub open spec fn matrix_cells(b: Seq<u8>) -> int {
    b[0] as int * b[1] as int
}

/// Where the name of a member ends.
pub open spec fn matrix_name_end(b: Seq<u8>) -> int {
    5 + b[4] as int
}

/// Where the altitudes of a member start.
pub open spec fn matrix_alt_start(b: Seq<u8>) -> int {
    matrix_name_end(b) + if b[2] != 0 {
        2 * matrix_cells(b)
    } else {
        0
    }
}

/// Where the land ids of a member start.
pub open spec fn matrix_land_start(b: Seq<u8>) -> int {
    matrix_alt_start(b) + if b[3] != 0 {
        matrix_cells(b)
    } else {
        0
    }
}

/// The member's name bytes, trailing NULs removed.
pub open spec fn matrix_name_bytes(b: Seq<u8>) -> Seq<u8> {
    trim_nul(b.subrange(5, matrix_name_end(b)))
}

/// Whether a member parses: a size of 1 to 799 cells, a name of at most
/// 16 bytes that is UTF-8, and every section present.
pub open spec fn matrix_ok(b: Seq<u8>) -> bool {
    &&& b.len() >= 5
    &&& 1 <= matrix_cells(b) <= MAX_CELLS
    &&& b[4] <= MAX_NAME_LENGTH
    &&& matrix_name_end(b) <= b.len()
    &&& valid_utf8(matrix_name_bytes(b))
    &&& matrix_land_start(b) + 2 * matrix_cells(b) <= b.len()
}

/// The matrix a well-formed member encodes.
pub open spec fn matrix_matches(m: MapMatrix, id: u16, b: Seq<u8>, map_id: u16) -> bool {
    {
            let n = matrix_cells(b);
            &&& m.id == id
            &&& m.width == b[0]
            &&& m.height == b[1]
            &&& m.name@ == decode_utf8(matrix_name_bytes(b))
            &&& m.has_headers == (b[2] != 0)
            &&& m.has_altitudes == (b[3] != 0)
            &&& m.headers@ == if b[2] != 0 {
                u16s_at(b, matrix_name_end(b), n)
            } else {
                Seq::new(n as nat, |i: int| map_id)
            }
            &&& m.altitudes@ == if b[3] != 0 {
                b.subrange(matrix_alt_start(b), matrix_alt_start(b) + n)
            } else {
                Seq::new(n as nat, |i: int| 0u8)
            }
            &&& m.land_ids@ == u16s_at(b, matrix_land_start(b), n)
        }
}

fn read_u16s(bytes: &[u8], p: usize, n: usize) -> (res: Result<Vec<u16>, NdsError>)
    requires
        n <= MAX_CELLS,
        p <= bytes@.len(),
    ensures
        p + 2 * n <= bytes@.len() ==> (res matches Ok(v) && v@ == u16s_at(bytes@, p as int, n as int)),
        p + 2 * n > bytes@.len() ==> res is Err,
{
    if bytes.len() - p < 2 * n {
        return Err(
            NdsError::Truncated { what: "map matrix", need: p.saturating_add(2 * n), got: bytes.len() },
        );
    }
    let len = bytes.len();
    let mut v: Vec<u16> = Vec::new();
    let mut i: usize = 0;
    while i < n
        invariant
            i <= n <= MAX_CELLS,
            len == bytes@.len(),
            p + 2 * n <= bytes@.len(),
            v@ == u16s_at(bytes@, p as int, i as int),
        decreases n - i,
    {
        let x = u16le(bytes, p + 2 * i)?;
        v.push(x);
        i = i + 1;
        proof {
            assert(v@ =~= u16s_at(bytes@, p as int, i as int));
        }
    }
    Ok(v)
}

fn filled<T: Copy>(value: T, n: usize) -> (res: Vec<T>)
    ensures
        res@ == Seq::new(n as nat, |i: int| value),
{
    let mut v: Vec<T> = Vec::new();
    let mut i: usize = 0;
    while i < n
        invariant
            i <= n,
            v@ == Seq::new(i as nat, |k: int| value),
        decreases n - i,
    {
        v.push(value);
        i = i + 1;
        proof {
            assert(v@ =~= Seq::new(i as nat, |k: int| value));
        }
    }
    v
}

fn trimmed_len(name: &[u8]) -> (res: usize)
    ensures
        res <= name@.len(),
        name@.subrange(0, res as int) == trim_nul(name@),
{
    let mut n = name.len();
    proof {
        assert(name@.subrange(0, n as int) =~= name@);
    }
    while n > 0 && name[n - 1] == 0
        invariant
            n <= name@.len(),
            trim_nul(name@.subrange(0, n as int)) == trim_nul(name@),
        decreases n,
    {
        proof {
            let s = name@.subrange(0, n as int);
            assert(s.drop_last() =~= name@.subrange(0, n - 1));
        }
        n = n - 1;
    }
    proof {
        assert(name@.subrange(0, n as int) == trim_nul(name@.subrange(0, n as int)));
    }
    n
}

impl MapMatrix {
    /// Decodes member `id`'s bytes; `map_id` fills the headers of a
    /// member without a headers section. Fails when the member is
    /// truncated, has no cells or more than [`MAX_CELLS`], or its name
    /// is longer than [`MAX_NAME_LENGTH`] or not UTF-8.
    pub fn parse(id: u16, bytes: &[u8], map_id: u16) -> (res: Result<Self, NdsError>)
        ensures
            res is Ok <==> matrix_ok(bytes@),
            res matches Ok(m) ==> matrix_matches(m, id, bytes@, map_id),
    {
        if bytes.len() < 5 {
            return Err(NdsError::Truncated { what: "map matrix", need: 5, got: bytes.len() });
        }
        let width = bytes[0];
        let height = bytes[1];
        proof {
            assert(width * height <= 255 * 255) by (nonlinear_arith)
                requires
                    width <= 255,
                    height <= 255,
            ;
        }
        let cells = width as usize * height as usize;
        if cells == 0 || cells > MAX_CELLS {
            return Err(NdsError::Invalid { what: "map matrix size" });
        }
        let name_length = bytes[4] as usize;
        if name_length > MAX_NAME_LENGTH {
            return Err(NdsError::Invalid { what: "map matrix name length" });
        }
        let mut p: usize = 5;
        if bytes.len() - p < name_length {
            return Err(
                NdsError::Truncated { what: "map matrix", need: p + name_length, got: bytes.len() },
            );
        }
        let raw = slice_subrange(bytes, p, p + name_length);
        let keep = trimmed_len(raw);
        let name = match utf8(slice_subrange(raw, 0, keep)) {
            Some(s) => s.to_owned(),
            None => {
                return Err(NdsError::Invalid { what: "map matrix name" });
            },
        };
        p = p + name_length;
        let has_headers = bytes[2] != 0;
        let has_altitudes = bytes[3] != 0;
        let headers = if has_headers {
            let h = read_u16s(bytes, p, cells)?;
            p = p + cells * 2;
            h
        } else {
            filled(map_id, cells)
        };
        let altitudes = if has_altitudes {
            if bytes.len() - p < cells {
                return Err(
                    NdsError::Truncated { what: "map matrix", need: p + cells, got: bytes.len() },
                );
            }
            let a = slice_to_vec(slice_subrange(bytes, p, p + cells));
            p = p + cells;
            a
        } else {
            filled(0u8, cells)
        };
        let land_ids = read_u16s(bytes, p, cells)?;
        Ok(MapMatrix {
            id,
            width,
            height,
            name,
            has_headers,
            has_altitudes,
            headers,
            altitudes,
            land_ids,
        })
    }

    /// `width * height`.
    pub fn cell_count(&self) -> (res: usize)
        ensures
            res == self.width * self.height,
    {
        proof {
            assert(self.width * self.height <= 255 * 255) by (nonlinear_arith)
                requires
                    self.width <= 255,
                    self.height <= 255,
            ;
        }
        self.width as usize * self.height as usize
    }

    /// The cell index `(x, z)` names, when inside the matrix.
    pub open spec fn spec_index(self, x: i32, z: i32) -> Option<int> {
        if x < 0 || z < 0 || x >= self.width || z >= self.height {
            None
        } else {
            Some(z * self.width + x)
        }
    }

    /// Cell index of `(x, z)`, when inside the matrix.
    pub fn index(&self, x: i32, z: i32) -> (res: Option<usize>)
        ensures
            res matches Some(i) ==> self.spec_index(x, z) == Some(i as int),
            res is None ==> self.spec_index(x, z) is None,
    {
        if x < 0 || z < 0 || x >= self.width as i32 || z >= self.height as i32 {
            return None;
        }
        proof {
            assert(z * self.width + x < 256 * 256) by (nonlinear_arith)
                requires
                    0 <= x < self.width <= 255,
                    0 <= z < self.height <= 255,
            ;
        }
        Some(z as usize * self.width as usize + x as usize)
    }

    /// The map header of cell `(x, z)`.
    pub fn header(&self, x: i32, z: i32) -> (res: Option<u16>)
        requires
            self.headers@.len() == self.width * self.height,
        ensures
            res == match self.spec_index(x, z) {
                Some(i) => Some(self.headers@[i]),
                None => None,
            },
    {
        match self.index(x, z) {
            Some(i) => {
                proof {
                    assert(i < self.width * self.height) by (nonlinear_arith)
                        requires
                            i == z * self.width + x,
                            0 <= x < self.width,
                            0 <= z < self.height,
                    ;
                }
                Some(self.headers[i])
            },
            None => None,
        }
    }

    /// The altitude of cell `(x, z)`.
    pub fn altitude(&self, x: i32, z: i32) -> (res: Option<u8>)
        requires
            self.altitudes@.len() == self.width * self.height,
        ensures
            res == match self.spec_index(x, z) {
                Some(i) => Some(self.altitudes@[i]),
                None => None,
            },
    {
        match self.index(x, z) {
            Some(i) => {
                proof {
                    assert(i < self.width * self.height) by (nonlinear_arith)
                        requires
                            i == z * self.width + x,
                            0 <= x < self.width,
                            0 <= z < self.height,
                    ;
                }
                Some(self.altitudes[i])
            },
            None => None,
        }
    }

    /// The land-data member of cell `(x, z)`.
    pub fn land_id(&self, x: i32, z: i32) -> (res: Option<u16>)
        requires
            self.land_ids@.len() == self.width * self.height,
        ensures
            res == match self.spec_index(x, z) {
                Some(i) => Some(self.land_ids@[i]),
                None => None,
            },
    {
        match self.index(x, z) {
            Some(i) => {
                proof {
                    assert(i < self.width * self.height) by (nonlinear_arith)
                        requires
                            i == z * self.width + x,
                            0 <= x < self.width,
                            0 <= z < self.height,
                    ;
                }
                Some(self.land_ids[i])
            },
            None => None,
        }
    }

    /// World origin (fx32) of cell `(x, z)`: the cell centre at its
    /// altitude.
    pub fn cell_origin(&self, x: i32, z: i32) -> (res: Option<[i32; 3]>)
        requires
            self.altitudes@.len() == self.width * self.height,
        ensures
            res == match self.spec_index(x, z) {
                Some(i) => Some(
                    [
                        (x * 0x200000 + 0x100000) as i32,
                        (self.altitudes@[i] * 0x8000) as i32,
                        (z * 0x200000 + 0x100000) as i32,
                    ],
                ),
                None => None,
            },
    {
        let altitude = match self.altitude(x, z) {
            Some(a) => a,
            None => return None,
        };
        Some([x * 0x200000 + 0x100000, altitude as i32 * 0x8000, z * 0x200000 + 0x100000])
    }

    /// The cell holding tile `(x, z)` in matrix-wide tile coordinates
    /// (floor division by 32).
    pub fn cell_of_tile(x: i32, z: i32) -> (res: (i32, i32))
        ensures
            res.0 == x as int / 32,
            res.1 == z as int / 32,
    {
        proof {
            assert(x >> 5u32 == x / 32) by (bit_vector);
            assert(z >> 5u32 == z / 32) by (bit_vector);
        }
        (x >> 5u32, z >> 5u32)
    }
}

} // verus!

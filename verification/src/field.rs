//! The field map's data layer: map headers, matrices, land data, area
//! data, terrain attributes, map events, script headers, the overlay
//! tables, and the movement and input state machines of the player.

use vstd::prelude::*;

pub mod map_object;
pub mod input;
pub mod avatar;
pub mod land;
pub mod terrain;
pub mod model;
pub mod height;
pub mod matrix;
pub mod events;
pub mod map_header;
pub mod script_header;
pub mod area;
pub mod ov01;
pub mod lighting;
pub mod time_state;
pub mod scene;

use land::{ATTRIBUTE_COUNT, Bdhc, PropPlacement};
use matrix::MapMatrix;
use model::{Mesh, Texture};
use map_header::{MapHeader, MapType, FollowMode};
use area::AreaData;
use ov01::CameraPreset;
use terrain::TerrainAttributes;
use events::MapEvents;
use script_header::InitScripts;

verus! {

/// Cells loaded on each side of the player's cell: a 3 × 3 window.
pub const LOAD_RADIUS: i32 = 1;

/// A rectangle of matrix cells.
#[derive(Debug, Clone, Copy, PartialEq, Eq, Hash)]
pub struct CellWindow {
    /// First cell column.
    pub x0: i32,
    /// First cell row.
    pub z0: i32,
    /// Columns.
    pub width: usize,
    /// Rows.
    pub height: usize,
}

/// `v` clamped to `lo..=hi`.
pub open spec fn clamp(v: int, lo: int, hi: int) -> int {
    if v < lo {
        lo
    } else if v > hi {
        hi
    } else {
        v
    }
}

fn clamp_i32(v: i32, lo: i32, hi: i32) -> (res: i32)
    requires
        lo <= hi,
    ensures
        res == clamp(v as int, lo as int, hi as int),
{
    if v < lo {
        lo
    } else if v > hi {
        hi
    } else {
        v
    }
}

/// The cells within `radius` of cell `(cx, cz)` of a `width` × `height`
/// matrix, each bound clamped to the matrix.
pub open spec fn window_around(width: int, height: int, cx: int, cz: int, radius: int) -> CellWindow {
    let x0 = clamp(cx - radius, 0, width - 1);
    let z0 = clamp(cz - radius, 0, height - 1);
    let x1 = clamp(cx + radius, 0, width - 1);
    let z1 = clamp(cz + radius, 0, height - 1);
    CellWindow {
        x0: x0 as i32,
        z0: z0 as i32,
        width: (x1 - x0 + 1) as usize,
        height: (z1 - z0 + 1) as usize,
    }
}

impl CellWindow {
    /// The whole matrix.
    pub fn all(matrix: &MapMatrix) -> (res: Self)
        ensures
            res == (CellWindow {
                x0: 0,
                z0: 0,
                width: matrix.width as usize,
                height: matrix.height as usize,
            }),
    {
        CellWindow { x0: 0, z0: 0, width: matrix.width as usize, height: matrix.height as usize }
    }

    /// The cells within `radius` of cell `(cx, cz)`, clamped to the
    /// matrix.
    pub fn around(matrix: &MapMatrix, cx: i32, cz: i32, radius: i32) -> (res: Self)
        requires
            matrix.width >= 1,
            matrix.height >= 1,
            i32::MIN <= cx - radius <= i32::MAX,
            i32::MIN <= cx + radius <= i32::MAX,
            i32::MIN <= cz - radius <= i32::MAX,
            i32::MIN <= cz + radius <= i32::MAX,
        ensures
            res == window_around(matrix.width as int, matrix.height as int, cx as int, cz as int, radius as int),
    {
        let w = matrix.width as i32 - 1;
        let h = matrix.height as i32 - 1;
        let x0 = clamp_i32(cx - radius, 0, w);
        let z0 = clamp_i32(cz - radius, 0, h);
        let x1 = clamp_i32(cx + radius, 0, w);
        let z1 = clamp_i32(cz + radius, 0, h);
        CellWindow {
            x0,
            z0,
            width: #[verifier::truncate] ((x1 as i64 - x0 as i64 + 1) as usize),
            height: #[verifier::truncate] ((z1 as i64 - z0 as i64 + 1) as usize),
        }
    }

    /// Whether cell `(x, z)` lies in the window.
    pub fn contains(&self, x: i32, z: i32) -> (res: bool)
        ensures
            res == (self.x0 <= x && self.z0 <= z && x - self.x0 < self.width && z - self.z0
                < self.height),
    {
        x >= self.x0 && z >= self.z0 && ((x as i64 - self.x0 as i64) as u64) < self.width as u64
            && ((z as i64 - self.z0 as i64) as u64) < self.height as u64
    }
}

/// One resident matrix cell: its land geometry in world space, its
/// terrain attributes and its height data.
#[derive(Debug, Clone, PartialEq, Eq)]
pub struct LandCell {
    /// Cell column in the matrix.
    pub cell_x: u8,
    /// Cell row in the matrix.
    pub cell_z: u8,
    /// The matrix's map header id for the cell.
    pub map_id: u16,
    /// The land-data member.
    pub land_id: u16,
    /// World origin (fx32) the cell's model and props are placed at.
    pub origin: [i32; 3],
    /// The cell's model in world space.
    pub meshes: Vec<Mesh>,
    /// Terrain attributes, index `(x % 32) + (z % 32) * 32`.
    pub attrs: [u16; ATTRIBUTE_COUNT],
    /// The cell's height data.
    pub bdhc: Bdhc,
}

/// One placed prop: the model drawn, the cell it came from, its archive
/// record, its world translation (the record's plus the cell origin's x
/// and z) and the model in world space.
#[derive(Debug, Clone, PartialEq, Eq)]
pub struct PropInstance {
    /// The model actually drawn (the placement's, or 0 when the area's
    /// building set does not contain it).
    pub model_id: i32,
    /// The cell the placement came from.
    pub cell: [u8; 2],
    /// The archive record.
    pub placement: PropPlacement,
    /// World translation (fx32).
    pub translation: [i32; 3],
    /// The model in world space.
    pub meshes: Vec<Mesh>,
}

/// A loaded map: header, matrix, resident cells and props, camera,
/// player image, terrain, events and init scripts.
#[derive(Debug, Clone, PartialEq, Eq)]
pub struct FieldScene {
    /// Map-header id.
    pub map_id: u16,
    /// The map's internal name.
    pub name: String,
    /// The map header.
    pub header: MapHeader,
    /// The map's matrix.
    pub matrix: MapMatrix,
    /// The map's area data.
    pub area: AreaData,
    /// The window of cells that were loaded.
    pub window: CellWindow,
    /// Resident cells (matrix cells without land data are skipped).
    pub cells: Vec<LandCell>,
    /// Props of the resident cells, in cell then archive order.
    pub props: Vec<PropInstance>,
    /// Every cell's and prop's meshes concatenated in draw order.
    pub meshes: Vec<Mesh>,
    /// The camera preset the map header selects.
    pub camera: CameraPreset,
    /// The south-facing player image.
    pub player: Texture,
    /// Position in matrix-wide tile coordinates; one tile is 16 world
    /// units.
    pub position: [i32; 2],
    /// Terrain attributes over the window.
    pub terrain: TerrainAttributes,
    /// The map's events.
    pub events: MapEvents,
    /// The map's init scripts.
    pub init_scripts: InitScripts,
}

/// The header of no map: every field zero, the invalid map type, and
/// following prevented.
pub open spec fn empty_header() -> MapHeader {
    MapHeader {
        wild_encounter_bank: 0,
        area_data_bank: 0,
        move_model_bank: 0,
        world_map_x: 0,
        world_map_y: 0,
        matrix_id: 0,
        scripts_bank: 0,
        script_header_bank: 0,
        msg_bank: 0,
        day_music_id: 0,
        night_music_id: 0,
        events_bank: 0,
        mapsec: 0,
        area_icon: 0,
        mom_call_intro_param: 0,
        region_no: 0,
        weather: 0,
        map_type: MapType::Invalid,
        camera_type: 0,
        follow_mode: FollowMode::Prevent,
        battle_bg: 0,
        bike_allowed: false,
        running_allowed_unused: false,
        escape_rope_allowed: false,
        fly_allowed: false,
        outgoing_calls: false,
        incoming_calls: false,
        radio_signal: false,
    }
}

/// Whether `m` is the matrix of no map: no cells, no name, no sections.
pub open spec fn empty_matrix(m: MapMatrix) -> bool {
    &&& m.id == 0
    &&& m.width == 0
    &&& m.height == 0
    &&& m.name@.len() == 0
    &&& !m.has_headers
    &&& !m.has_altitudes
    &&& m.headers@.len() == 0
    &&& m.altitudes@.len() == 0
    &&& m.land_ids@.len() == 0
}

/// The area data of no map: every field zero.
pub open spec fn empty_area() -> AreaData {
    AreaData { bank: 0, building_set: 0, map_texture: 0, unknown: 0, outdoor: 0, light_selector: 0 }
}

impl FieldScene {
    /// A minimal scene for renderer tests: no map data, only the given
    /// world-space `meshes`, the player image, the player's tile and a
    /// camera preset. Everything else is empty (a 0 × 0 window, no
    /// cells, props, events or scripts).
    pub fn synthetic(map_id: u16, meshes: Vec<Mesh>, player: Texture, position: [i32; 2], camera: CameraPreset) -> (res:
        Self)
        ensures
            res.map_id == map_id,
            res.name@.len() == 0,
            res.header == empty_header(),
            empty_matrix(res.matrix),
            res.area == empty_area(),
            res.window == (CellWindow { x0: 0, z0: 0, width: 0, height: 0 }),
            res.cells@.len() == 0,
            res.props@.len() == 0,
            res.meshes == meshes,
            res.camera == camera,
            res.player == player,
            res.position == position,
            res.terrain.spec_x0() == 0 && res.terrain.spec_z0() == 0 && res.terrain.spec_width() == 0
                && res.terrain.spec_height() == 0,
            res.events.bg@.len() == 0 && res.events.objects@.len() == 0 && res.events.warps@.len() == 0
                && res.events.coords@.len() == 0,
            res.init_scripts.records@.len() == 0 && res.init_scripts.frame_table@.len() == 0,
    {
        FieldScene {
            map_id,
            name: String::new(),
            header: MapHeader {
                wild_encounter_bank: 0,
                area_data_bank: 0,
                move_model_bank: 0,
                world_map_x: 0,
                world_map_y: 0,
                matrix_id: 0,
                scripts_bank: 0,
                script_header_bank: 0,
                msg_bank: 0,
                day_music_id: 0,
                night_music_id: 0,
                events_bank: 0,
                mapsec: 0,
                area_icon: 0,
                mom_call_intro_param: 0,
                region_no: 0,
                weather: 0,
                map_type: MapType::Invalid,
                camera_type: 0,
                follow_mode: FollowMode::Prevent,
                battle_bg: 0,
                bike_allowed: false,
                running_allowed_unused: false,
                escape_rope_allowed: false,
                fly_allowed: false,
                outgoing_calls: false,
                incoming_calls: false,
                radio_signal: false,
            },
            matrix: MapMatrix {
                id: 0,
                width: 0,
                height: 0,
                name: String::new(),
                has_headers: false,
                has_altitudes: false,
                headers: Vec::new(),
                altitudes: Vec::new(),
                land_ids: Vec::new(),
            },
            area: AreaData { bank: 0, building_set: 0, map_texture: 0, unknown: 0, outdoor: 0, light_selector: 0 },
            window: CellWindow { x0: 0, z0: 0, width: 0, height: 0 },
            cells: Vec::new(),
            props: Vec::new(),
            meshes,
            camera,
            player,
            position,
            terrain: TerrainAttributes::new(0, 0, 0, 0),
            events: MapEvents { bg: Vec::new(), objects: Vec::new(), warps: Vec::new(), coords: Vec::new() },
            init_scripts: InitScripts { records: Vec::new(), frame_table: Vec::new() },
        }
    }

    /// The window a load keeps resident with the player on tile `(x, z)`:
    /// the cells within [`LOAD_RADIUS`] of the player's cell (`None`), the
    /// whole matrix (`Some(usize::MAX)`), or the cells within `r` of it
    /// (`Some(r)`, `r` capped at `i32::MAX`).
    pub fn resident_window(matrix: &MapMatrix, x: i32, z: i32, radius: Option<usize>) -> (res: CellWindow)
        requires
            matrix.width >= 1,
            matrix.height >= 1,
            match radius {
                Some(r) => r == usize::MAX || {
                    let k = if r > i32::MAX { i32::MAX as int } else { r as int };
                    &&& i32::MIN <= x as int / 32 - k
                    &&& x as int / 32 + k <= i32::MAX
                    &&& i32::MIN <= z as int / 32 - k
                    &&& z as int / 32 + k <= i32::MAX
                },
                None => true,
            },
        ensures
            res == match radius {
                None => window_around(
                    matrix.width as int,
                    matrix.height as int,
                    x as int / 32,
                    z as int / 32,
                    LOAD_RADIUS as int,
                ),
                Some(r) => if r == usize::MAX {
                    CellWindow { x0: 0, z0: 0, width: matrix.width as usize, height: matrix.height as usize }
                } else {
                    window_around(
                        matrix.width as int,
                        matrix.height as int,
                        x as int / 32,
                        z as int / 32,
                        if r > i32::MAX { i32::MAX as int } else { r as int },
                    )
                },
            },
    {
        let (cx, cz) = MapMatrix::cell_of_tile(x, z);
        match radius {
            None => {
                proof {
                    assert(-0x4000000 <= cx < 0x4000000) by (nonlinear_arith)
                        requires cx == x as int / 32, i32::MIN <= x <= i32::MAX;
                    assert(-0x4000000 <= cz < 0x4000000) by (nonlinear_arith)
                        requires cz == z as int / 32, i32::MIN <= z <= i32::MAX;
                }
                CellWindow::around(matrix, cx, cz, LOAD_RADIUS)
            },
            Some(r) => {
                if r == usize::MAX {
                    CellWindow::all(matrix)
                } else {
                    let k: i32 = if r > i32::MAX as usize {
                        i32::MAX
                    } else {
                        r as i32
                    };
                    CellWindow::around(matrix, cx, cz, k)
                }
            },
        }
    }

    /// The model a prop placement draws: its own when the area's building
    /// set lists it, model 0 otherwise.
    pub fn prop_model_id(building_ids: &[u16], model_id: i32) -> (res: i32)
        ensures
            res == if model_id >= 0 && building_ids@.contains(model_id as u16) {
                model_id
            } else {
                0
            },
    {
        let key = #[verifier::truncate] (model_id as u16);
        let mut i: usize = 0;
        while i < building_ids.len()
            invariant
                i <= building_ids@.len(),
                key == #[verifier::truncate] (model_id as u16),
                forall|j: int| 0 <= j < i ==> building_ids@[j] != key,
            decreases building_ids@.len() - i,
        {
            if building_ids[i] == key {
                assert(building_ids@[i as int] == #[verifier::truncate] (model_id as u16));
                return if model_id >= 0 {
                    model_id
                } else {
                    0
                };
            }
            i = i + 1;
        }
        assert(!building_ids@.contains(#[verifier::truncate] (model_id as u16)));
        0
    }

    /// Where a prop stands in the world: the cell origin plus the
    /// placement's offset on x and z, the placement's own height.
    pub fn prop_translation(origin: [i32; 3], translation: [i32; 3]) -> (res: [i32; 3])
        requires
            i32::MIN <= origin[0] + translation[0] <= i32::MAX,
            i32::MIN <= origin[2] + translation[2] <= i32::MAX,
        ensures
            res[0] == origin[0] + translation[0],
            res[1] == translation[1],
            res[2] == origin[2] + translation[2],
    {
        [origin[0] + translation[0], translation[1], origin[2] + translation[2]]
    }

    /// The first resident cell holding tile `(x, z)`.
    pub fn cell_at(&self, x: i32, z: i32) -> (res: Option<&LandCell>)
        ensures
            res is Some <==> exists|k: int|
                0 <= k < self.cells@.len() && (#[trigger] self.cells@[k]).cell_x == x as int / 32
                    && self.cells@[k].cell_z == z as int / 32,
            res matches Some(c) ==> exists|k: int|
                0 <= k < self.cells@.len() && c == &self.cells@[k] && (#[trigger] self.cells@[k]).cell_x
                    == x as int / 32 && self.cells@[k].cell_z == z as int / 32 && forall|j: int|
                    0 <= j < k ==> !(self.cells@[j].cell_x == x as int / 32 && self.cells@[j].cell_z == z as int
                        / 32),
    {
        let (cx, cz) = MapMatrix::cell_of_tile(x, z);
        let mut i: usize = 0;
        while i < self.cells.len()
            invariant
                cx == x as int / 32,
                cz == z as int / 32,
                i <= self.cells@.len(),
                forall|j: int|
                    0 <= j < i ==> !(self.cells@[j].cell_x == cx && self.cells@[j].cell_z == cz),
            decreases self.cells@.len() - i,
        {
            if self.cells[i].cell_x as i32 == cx && self.cells[i].cell_z as i32 == cz {
                return Some(&self.cells[i]);
            }
            i = i + 1;
        }
        None
    }
}

} // verus!

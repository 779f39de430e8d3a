//! Map objects: the player, NPCs and props on the field, and the
//! per-tick movement-command state machine that drives them.
//!
//! Coordinates: a tile is 16 world units, fx32 `<< 12`; an object on
//! tile `(x, z)` stands at its centre.

use vstd::prelude::*;

pub mod flag;
pub mod family;

verus! {

/// fx32 one.
pub const FX32_ONE: i32 = 4096;
/// One tile in fx32.
pub const TILE_FX32: i32 = 65536;
/// Half a tile in fx32.
pub const HALF_TILE_FX32: i32 = 32768;
/// One height unit in fx32.
pub const Y_UNIT_FX32: i32 = 32768;

/// The attribute word of a tile outside any loaded terrain: behavior
/// 0xFF, passable bit clear.
pub const ATTR_NONE: u16 = 0x00FF;

/// The "no behavior" tile behavior.
pub const BEHAVIOR_NONE: u8 = 0xFF;

/// The terrain a map object collides against: the attribute word of a
/// tile, of which bit 15 marks it impassable and the low byte is its
/// behavior.
pub trait Collision {
    /// The attribute word of tile `(x, z)`.
    spec fn spec_attr(&self, x: i32, z: i32) -> u16;

    /// The attribute word of tile `(x, z)`.
    fn attr(&self, x: i32, z: i32) -> (res: u16)
        ensures
            res == self.spec_attr(x, z),
    ;

    /// Whether tile `(x, z)` is impassable.
    fn impassable(&self, x: i32, z: i32) -> (res: bool)
        ensures
            res == (self.spec_attr(x, z) & 0x8000 != 0),
    {
        self.attr(x, z) & 0x8000 != 0
    }

    /// The behavior of tile `(x, z)`.
    fn behavior(&self, x: i32, z: i32) -> (res: u8)
        ensures
            res == (self.spec_attr(x, z) & 0xFF) as u8,
    {
        (self.attr(x, z) & 0xFF) as u8
    }

    /// Whether tile `(x, z)` can be surfed.
    spec fn spec_surfable(&self, x: i32, z: i32) -> bool;

    /// Whether tile `(x, z)` can be surfed.
    fn surfable(&self, x: i32, z: i32) -> (res: bool)
        ensures
            res == self.spec_surfable(x, z),
    ;
}

/// No terrain at all: every tile reads [`ATTR_NONE`].
#[derive(Debug, Clone, Copy, Default, PartialEq, Eq)]
pub struct NoTerrain;

impl Collision for NoTerrain {
    open spec fn spec_attr(&self, x: i32, z: i32) -> u16 {
        ATTR_NONE
    }

    open spec fn spec_surfable(&self, x: i32, z: i32) -> bool {
        false
    }

    fn attr(&self, x: i32, z: i32) -> (res: u16) {
        ATTR_NONE
    }

    fn surfable(&self, x: i32, z: i32) -> (res: bool) {
        false
    }
}

/// A facing direction.
#[derive(Debug, Clone, Copy, PartialEq, Eq, Hash, Structural)]
pub enum Direction {
    /// -z.
    North,
    /// +z.
    South,
    /// -x.
    West,
    /// +x.
    East,
}

/// The index of a direction (North 0, South 1, West 2, East 3).
pub open spec fn dir_index(d: Direction) -> u32 {
    match d {
        Direction::North => 0u32,
        Direction::South => 1u32,
        Direction::West => 2u32,
        Direction::East => 3u32,
    }
}

/// The direction with index `i`, if any.
pub open spec fn dir_of(i: int) -> Option<Direction> {
    if i == 0 {
        Some(Direction::North)
    } else if i == 1 {
        Some(Direction::South)
    } else if i == 2 {
        Some(Direction::West)
    } else if i == 3 {
        Some(Direction::East)
    } else {
        None
    }
}

/// The x step of a direction.
pub open spec fn dir_dx(d: Direction) -> i32 {
    match d {
        Direction::West => -1i32,
        Direction::East => 1i32,
        _ => 0i32,
    }
}

/// The z step of a direction.
pub open spec fn dir_dz(d: Direction) -> i32 {
    match d {
        Direction::North => -1i32,
        Direction::South => 1i32,
        _ => 0i32,
    }
}

/// The opposite of a direction.
pub open spec fn dir_reverse(d: Direction) -> Direction {
    match d {
        Direction::North => Direction::South,
        Direction::South => Direction::North,
        Direction::West => Direction::East,
        Direction::East => Direction::West,
    }
}

impl Direction {
    /// The four directions in index order.
    pub fn all() -> (res: [Direction; 4])
        ensures
            forall|i: int| 0 <= i < 4 ==> dir_of(i) == Some(#[trigger] res@[i]),
    {
        [Direction::North, Direction::South, Direction::West, Direction::East]
    }

    /// The direction with index `index` (North 0, South 1, West 2,
    /// East 3), `None` past 3.
    pub fn from_index(index: u32) -> (res: Option<Self>)
        ensures
            res == dir_of(index as int),
    {
        match index {
            0 => Some(Direction::North),
            1 => Some(Direction::South),
            2 => Some(Direction::West),
            3 => Some(Direction::East),
            _ => None,
        }
    }

    /// The direction's index.
    pub fn index(self) -> (res: u32)
        ensures
            res == dir_index(self),
    {
        match self {
            Direction::North => 0,
            Direction::South => 1,
            Direction::West => 2,
            Direction::East => 3,
        }
    }

    /// The x step of one tile in this direction.
    pub fn delta_x(self) -> (res: i32)
        ensures
            res == dir_dx(self),
    {
        match self {
            Direction::North | Direction::South => 0,
            Direction::West => -1,
            Direction::East => 1,
        }
    }

    /// The z step of one tile in this direction.
    pub fn delta_z(self) -> (res: i32)
        ensures
            res == dir_dz(self),
    {
        match self {
            Direction::North => -1,
            Direction::South => 1,
            Direction::West | Direction::East => 0,
        }
    }

    /// The opposite direction.
    pub fn reverse(self) -> (res: Self)
        ensures
            res == dir_reverse(self),
    {
        match self {
            Direction::North => Direction::South,
            Direction::South => Direction::North,
            Direction::West => Direction::East,
            Direction::East => Direction::West,
        }
    }
}

/// Reversing twice is the identity, a direction's index names it, and
/// a step and its reverse cancel.
pub proof fn lemma_direction_laws(d: Direction)
    ensures
        dir_reverse(dir_reverse(d)) == d,
        dir_of(dir_index(d) as int) == Some(d),
        dir_dx(dir_reverse(d)) == -dir_dx(d),
        dir_dz(dir_reverse(d)) == -dir_dz(d),
        dir_reverse(d) != d,
{
}

/// An fx32 position.
#[derive(Debug, Clone, Copy, PartialEq, Eq, Hash, Default)]
pub struct VecFx32 {
    /// x.
    pub x: i32,
    /// y.
    pub y: i32,
    /// z.
    pub z: i32,
}

/// Whether the fx32 centre of tile `(x, y, z)` fits an `i32`.
pub open spec fn tile_fits(x: i32, y: i32, z: i32) -> bool {
    &&& i32::MIN <= x * TILE_FX32 + HALF_TILE_FX32 <= i32::MAX
    &&& i32::MIN <= y * Y_UNIT_FX32 <= i32::MAX
    &&& i32::MIN <= z * TILE_FX32 + HALF_TILE_FX32 <= i32::MAX
}

/// The fx32 centre of tile `(x, y, z)`.
pub open spec fn spec_from_tile(x: i32, y: i32, z: i32) -> VecFx32 {
    VecFx32 {
        x: (x * TILE_FX32 + HALF_TILE_FX32) as i32,
        y: (y * Y_UNIT_FX32) as i32,
        z: (z * TILE_FX32 + HALF_TILE_FX32) as i32,
    }
}

impl VecFx32 {
    /// The fx32 centre of tile `(x, z)` at height unit `y`.
    pub fn from_tile(x: i32, y: i32, z: i32) -> (res: Self)
        requires
            tile_fits(x, y, z),
        ensures
            res == spec_from_tile(x, y, z),
    {
        VecFx32 {
            x: x * TILE_FX32 + HALF_TILE_FX32,
            y: y * Y_UNIT_FX32,
            z: z * TILE_FX32 + HALF_TILE_FX32,
        }
    }
}

/// The step-end command value.
pub const MOVEMENT_STEP_END: u8 = 254;
/// The no-command value.
pub const MOVEMENT_NONE: u8 = 255;
/// The number of dense command values (0..113).
pub const MOVEMENT_CMD_COUNT: u8 = 113;

/// A movement command.
#[derive(Debug, Clone, Copy, PartialEq, Eq, Hash, Structural)]
pub enum MovementCmd {
    /// Movement command 0.
    FaceNorth,
    /// Movement command 1.
    FaceSouth,
    /// Movement command 2.
    FaceWest,
    /// Movement command 3.
    FaceEast,
    /// Movement command 4.
    WalkSlowestNorth,
    /// Movement command 5.
    WalkSlowestSouth,
    /// Movement command 6.
    WalkSlowestWest,
    /// Movement command 7.
    WalkSlowestEast,
    /// Movement command 8.
    WalkSlowerNorth,
    /// Movement command 9.
    WalkSlowerSouth,
    /// Movement command 10.
    WalkSlowerWest,
    /// Movement command 11.
    WalkSlowerEast,
    /// Movement command 12.
    WalkNormalNorth,
    /// Movement command 13.
    WalkNormalSouth,
    /// Movement command 14.
    WalkNormalWest,
    /// Movement command 15.
    WalkNormalEast,
    /// Movement command 16.
    WalkFasterNorth,
    /// Movement command 17.
    WalkFasterSouth,
    /// Movement command 18.
    WalkFasterWest,
    /// Movement command 19.
    WalkFasterEast,
    /// Movement command 20.
    WalkFastestNorth,
    /// Movement command 21.
    WalkFastestSouth,
    /// Movement command 22.
    WalkFastestWest,
    /// Movement command 23.
    WalkFastestEast,
    /// Movement command 24.
    WalkOnSpotSlowestNorth,
    /// Movement command 25.
    WalkOnSpotSlowestSouth,
    /// Movement command 26.
    WalkOnSpotSlowestWest,
    /// Movement command 27.
    WalkOnSpotSlowestEast,
    /// Movement command 28.
    WalkOnSpotSlowerNorth,
    /// Movement command 29.
    WalkOnSpotSlowerSouth,
    /// Movement command 30.
    WalkOnSpotSlowerWest,
    /// Movement command 31.
    WalkOnSpotSlowerEast,
    /// Movement command 32.
    WalkOnSpotNormalNorth,
    /// Movement command 33.
    WalkOnSpotNormalSouth,
    /// Movement command 34.
    WalkOnSpotNormalWest,
    /// Movement command 35.
    WalkOnSpotNormalEast,
    /// Movement command 36.
    WalkOnSpotFasterNorth,
    /// Movement command 37.
    WalkOnSpotFasterSouth,
    /// Movement command 38.
    WalkOnSpotFasterWest,
    /// Movement command 39.
    WalkOnSpotFasterEast,
    /// Movement command 40.
    WalkOnSpotFastestNorth,
    /// Movement command 41.
    WalkOnSpotFastestSouth,
    /// Movement command 42.
    WalkOnSpotFastestWest,
    /// Movement command 43.
    WalkOnSpotFastestEast,
    /// Movement command 44.
    JumpOnSpotNorth,
    /// Movement command 45.
    JumpOnSpotSouth,
    /// Movement command 46.
    JumpOnSpotWest,
    /// Movement command 47.
    JumpOnSpotEast,
    /// Movement command 48.
    Jump1North,
    /// Movement command 49.
    Jump1South,
    /// Movement command 50.
    Jump1West,
    /// Movement command 51.
    Jump1East,
    /// Movement command 52.
    Jump1AltNorth,
    /// Movement command 53.
    Jump1AltSouth,
    /// Movement command 54.
    Jump1AltWest,
    /// Movement command 55.
    Jump1AltEast,
    /// Movement command 56.
    Jump2North,
    /// Movement command 57.
    Jump2South,
    /// Movement command 58.
    Jump2West,
    /// Movement command 59.
    Jump2East,
    /// Movement command 60.
    Cmd060,
    /// Movement command 61.
    Cmd061,
    /// Movement command 62.
    Cmd062,
    /// Movement command 63.
    Cmd063,
    /// Movement command 64.
    Cmd064,
    /// Movement command 65.
    Cmd065,
    /// Movement command 66.
    Cmd066,
    /// Movement command 67.
    Cmd067,
    /// Movement command 68.
    Cmd068,
    /// Movement command 69.
    Cmd069,
    /// Movement command 70.
    Cmd070,
    /// Movement command 71.
    LockFacing,
    /// Movement command 72.
    UnlockFacing,
    /// Movement command 73.
    Cmd073,
    /// Movement command 74.
    Cmd074,
    /// Movement command 75.
    EmoteExclamation,
    /// Movement command 76.
    Cmd076,
    /// Movement command 77.
    Cmd077,
    /// Movement command 78.
    Cmd078,
    /// Movement command 79.
    Cmd079,
    /// Movement command 80.
    Cmd080,
    /// Movement command 81.
    Cmd081,
    /// Movement command 82.
    Cmd082,
    /// Movement command 83.
    Cmd083,
    /// Movement command 84.
    WalkInstantNorth,
    /// Movement command 85.
    WalkInstantSouth,
    /// Movement command 86.
    WalkInstantWest,
    /// Movement command 87.
    WalkInstantEast,
    /// Movement command 88.
    RunNorth,
    /// Movement command 89.
    RunSouth,
    /// Movement command 90.
    RunWest,
    /// Movement command 91.
    RunEast,
    /// Movement command 92.
    Cmd092,
    /// Movement command 93.
    Cmd093,
    /// Movement command 94.
    Cmd094,
    /// Movement command 95.
    Cmd095,
    /// Movement command 96.
    Cmd096,
    /// Movement command 97.
    Cmd097,
    /// Movement command 98.
    Cmd098,
    /// Movement command 99.
    Cmd099,
    /// Movement command 100.
    Cmd100,
    /// Movement command 101.
    Cmd101,
    /// Movement command 102.
    Cmd102,
    /// Movement command 103.
    EmoteQuestion,
    /// Movement command 104.
    Cmd104,
    /// Movement command 105.
    Cmd105,
    /// Movement command 106.
    Cmd106,
    /// Movement command 107.
    Cmd107,
    /// Movement command 108.
    Cmd108,
    /// Movement command 109.
    Cmd109,
    /// Movement command 110.
    Cmd110,
    /// Movement command 111.
    Cmd111,
    /// Movement command 112.
    Cmd112,
    /// Movement command 254.
    End,
    /// Movement command 255.
    NoCommand,
}

/// The byte value of a command.
pub open spec fn cmd_value(c: MovementCmd) -> u8 {
    match c {
        MovementCmd::FaceNorth => 0u8,
        MovementCmd::FaceSouth => 1u8,
        MovementCmd::FaceWest => 2u8,
        MovementCmd::FaceEast => 3u8,
        MovementCmd::WalkSlowestNorth => 4u8,
        MovementCmd::WalkSlowestSouth => 5u8,
        MovementCmd::WalkSlowestWest => 6u8,
        MovementCmd::WalkSlowestEast => 7u8,
        MovementCmd::WalkSlowerNorth => 8u8,
        MovementCmd::WalkSlowerSouth => 9u8,
        MovementCmd::WalkSlowerWest => 10u8,
        MovementCmd::WalkSlowerEast => 11u8,
        MovementCmd::WalkNormalNorth => 12u8,
        MovementCmd::WalkNormalSouth => 13u8,
        MovementCmd::WalkNormalWest => 14u8,
        MovementCmd::WalkNormalEast => 15u8,
        MovementCmd::WalkFasterNorth => 16u8,
        MovementCmd::WalkFasterSouth => 17u8,
        MovementCmd::WalkFasterWest => 18u8,
        MovementCmd::WalkFasterEast => 19u8,
        MovementCmd::WalkFastestNorth => 20u8,
        MovementCmd::WalkFastestSouth => 21u8,
        MovementCmd::WalkFastestWest => 22u8,
        MovementCmd::WalkFastestEast => 23u8,
        MovementCmd::WalkOnSpotSlowestNorth => 24u8,
        MovementCmd::WalkOnSpotSlowestSouth => 25u8,
        MovementCmd::WalkOnSpotSlowestWest => 26u8,
        MovementCmd::WalkOnSpotSlowestEast => 27u8,
        MovementCmd::WalkOnSpotSlowerNorth => 28u8,
        MovementCmd::WalkOnSpotSlowerSouth => 29u8,
        MovementCmd::WalkOnSpotSlowerWest => 30u8,
        MovementCmd::WalkOnSpotSlowerEast => 31u8,
        MovementCmd::WalkOnSpotNormalNorth => 32u8,
        MovementCmd::WalkOnSpotNormalSouth => 33u8,
        MovementCmd::WalkOnSpotNormalWest => 34u8,
        MovementCmd::WalkOnSpotNormalEast => 35u8,
        MovementCmd::WalkOnSpotFasterNorth => 36u8,
        MovementCmd::WalkOnSpotFasterSouth => 37u8,
        MovementCmd::WalkOnSpotFasterWest => 38u8,
        MovementCmd::WalkOnSpotFasterEast => 39u8,
        MovementCmd::WalkOnSpotFastestNorth => 40u8,
        MovementCmd::WalkOnSpotFastestSouth => 41u8,
        MovementCmd::WalkOnSpotFastestWest => 42u8,
        MovementCmd::WalkOnSpotFastestEast => 43u8,
        MovementCmd::JumpOnSpotNorth => 44u8,
        MovementCmd::JumpOnSpotSouth => 45u8,
        MovementCmd::JumpOnSpotWest => 46u8,
        MovementCmd::JumpOnSpotEast => 47u8,
        MovementCmd::Jump1North => 48u8,
        MovementCmd::Jump1South => 49u8,
        MovementCmd::Jump1West => 50u8,
        MovementCmd::Jump1East => 51u8,
        MovementCmd::Jump1AltNorth => 52u8,
        MovementCmd::Jump1AltSouth => 53u8,
        MovementCmd::Jump1AltWest => 54u8,
        MovementCmd::Jump1AltEast => 55u8,
        MovementCmd::Jump2North => 56u8,
        MovementCmd::Jump2South => 57u8,
        MovementCmd::Jump2West => 58u8,
        MovementCmd::Jump2East => 59u8,
        MovementCmd::Cmd060 => 60u8,
        MovementCmd::Cmd061 => 61u8,
        MovementCmd::Cmd062 => 62u8,
        MovementCmd::Cmd063 => 63u8,
        MovementCmd::Cmd064 => 64u8,
        MovementCmd::Cmd065 => 65u8,
        MovementCmd::Cmd066 => 66u8,
        MovementCmd::Cmd067 => 67u8,
        MovementCmd::Cmd068 => 68u8,
        MovementCmd::Cmd069 => 69u8,
        MovementCmd::Cmd070 => 70u8,
        MovementCmd::LockFacing => 71u8,
        MovementCmd::UnlockFacing => 72u8,
        MovementCmd::Cmd073 => 73u8,
        MovementCmd::Cmd074 => 74u8,
        MovementCmd::EmoteExclamation => 75u8,
        MovementCmd::Cmd076 => 76u8,
        MovementCmd::Cmd077 => 77u8,
        MovementCmd::Cmd078 => 78u8,
        MovementCmd::Cmd079 => 79u8,
        MovementCmd::Cmd080 => 80u8,
        MovementCmd::Cmd081 => 81u8,
        MovementCmd::Cmd082 => 82u8,
        MovementCmd::Cmd083 => 83u8,
        MovementCmd::WalkInstantNorth => 84u8,
        MovementCmd::WalkInstantSouth => 85u8,
        MovementCmd::WalkInstantWest => 86u8,
        MovementCmd::WalkInstantEast => 87u8,
        MovementCmd::RunNorth => 88u8,
        MovementCmd::RunSouth => 89u8,
        MovementCmd::RunWest => 90u8,
        MovementCmd::RunEast => 91u8,
        MovementCmd::Cmd092 => 92u8,
        MovementCmd::Cmd093 => 93u8,
        MovementCmd::Cmd094 => 94u8,
        MovementCmd::Cmd095 => 95u8,
        MovementCmd::Cmd096 => 96u8,
        MovementCmd::Cmd097 => 97u8,
        MovementCmd::Cmd098 => 98u8,
        MovementCmd::Cmd099 => 99u8,
        MovementCmd::Cmd100 => 100u8,
        MovementCmd::Cmd101 => 101u8,
        MovementCmd::Cmd102 => 102u8,
        MovementCmd::EmoteQuestion => 103u8,
        MovementCmd::Cmd104 => 104u8,
        MovementCmd::Cmd105 => 105u8,
        MovementCmd::Cmd106 => 106u8,
        MovementCmd::Cmd107 => 107u8,
        MovementCmd::Cmd108 => 108u8,
        MovementCmd::Cmd109 => 109u8,
        MovementCmd::Cmd110 => 110u8,
        MovementCmd::Cmd111 => 111u8,
        MovementCmd::Cmd112 => 112u8,
        MovementCmd::End => 254u8,
        MovementCmd::NoCommand => 255u8,
    }
}

/// The four-command row (North, South, West, East) that contains the
/// command value `v`, if any.
pub open spec fn direction_row(v: u8) -> Option<(u8, u8, u8, u8)> {
    if v < 0x3C || (0x4C <= v < 0x5C) || (0x60 <= v < 0x64) {
        let b = (v / 4 * 4) as u8;
        Some((b, (b + 1) as u8, (b + 2) as u8, (b + 3) as u8))
    } else if v == 0x5C || v == 0x5D {
        Some((0x5Cu8, 0x5Du8, 0x5Cu8, 0x5Du8))
    } else if v == 0x5E || v == 0x5F {
        Some((0x5Eu8, 0x5Fu8, 0x5Eu8, 0x5Fu8))
    } else {
        None
    }
}

/// The member of a row for a direction.
pub open spec fn row_pick(row: (u8, u8, u8, u8), d: Direction) -> u8 {
    match d {
        Direction::North => row.0,
        Direction::South => row.1,
        Direction::West => row.2,
        Direction::East => row.3,
    }
}

/// The direction a command value stands for in its row: the first
/// position of the value in the row that contains it.
pub open spec fn value_direction(v: u8) -> Option<Direction> {
    match direction_row(v) {
        Some(row) => if row.0 == v {
            Some(Direction::North)
        } else if row.1 == v {
            Some(Direction::South)
        } else if row.2 == v {
            Some(Direction::West)
        } else {
            Some(Direction::East)
        },
        None => None,
    }
}

/// The walking parameters of a linear command value: direction, speed
/// per tick, ticks, and animation.
pub open spec fn spec_linear(v: u8) -> Option<(Direction, i32, i16, u16)> {
    let d = dir_of((v % 4) as int).unwrap();
    let f = v / 4 * 4;
    if f == 4 {
        Some((d, 0x800i32, 32i16, 1u16))
    } else if f == 8 {
        Some((d, 0x1000i32, 16i16, 2u16))
    } else if f == 12 {
        Some((d, 0x2000i32, 8i16, 3u16))
    } else if f == 16 {
        Some((d, 0x4000i32, 4i16, 4u16))
    } else if f == 20 {
        Some((d, 0x8000i32, 2i16, 5u16))
    } else if f == 84 {
        Some((d, 0x10000i32, 1i16, 0u16))
    } else if f == 88 {
        Some((d, 0x4000i32, 4i16, 9u16))
    } else {
        None
    }
}

/// The on-the-spot parameters of a command value: direction, ticks,
/// and animation.
pub open spec fn spec_on_spot(v: u8) -> Option<(Direction, i16, u16)> {
    let d = dir_of((v % 4) as int).unwrap();
    let f = v / 4 * 4;
    if f == 24 {
        Some((d, 32i16, 1u16))
    } else if f == 28 {
        Some((d, 16i16, 2u16))
    } else if f == 32 {
        Some((d, 8i16, 3u16))
    } else if f == 36 {
        Some((d, 4i16, 4u16))
    } else if f == 40 {
        Some((d, 2i16, 5u16))
    } else {
        None
    }
}

impl MovementCmd {
    /// The command with byte value `value`: every value below 113, the
    /// step end (254) and the no-command value (255).
    pub fn from_u8(value: u8) -> (res: Option<Self>)
        ensures
            res is Some <==> value < MOVEMENT_CMD_COUNT || value == MOVEMENT_STEP_END || value
                == MOVEMENT_NONE,
            res matches Some(c) ==> cmd_value(c) == value,
    {
        match value {
            0 => Some(MovementCmd::FaceNorth),
            1 => Some(MovementCmd::FaceSouth),
            2 => Some(MovementCmd::FaceWest),
            3 => Some(MovementCmd::FaceEast),
            4 => Some(MovementCmd::WalkSlowestNorth),
            5 => Some(MovementCmd::WalkSlowestSouth),
            6 => Some(MovementCmd::WalkSlowestWest),
            7 => Some(MovementCmd::WalkSlowestEast),
            8 => Some(MovementCmd::WalkSlowerNorth),
            9 => Some(MovementCmd::WalkSlowerSouth),
            10 => Some(MovementCmd::WalkSlowerWest),
            11 => Some(MovementCmd::WalkSlowerEast),
            12 => Some(MovementCmd::WalkNormalNorth),
            13 => Some(MovementCmd::WalkNormalSouth),
            14 => Some(MovementCmd::WalkNormalWest),
            15 => Some(MovementCmd::WalkNormalEast),
            16 => Some(MovementCmd::WalkFasterNorth),
            17 => Some(MovementCmd::WalkFasterSouth),
            18 => Some(MovementCmd::WalkFasterWest),
            19 => Some(MovementCmd::WalkFasterEast),
            20 => Some(MovementCmd::WalkFastestNorth),
            21 => Some(MovementCmd::WalkFastestSouth),
            22 => Some(MovementCmd::WalkFastestWest),
            23 => Some(MovementCmd::WalkFastestEast),
            24 => Some(MovementCmd::WalkOnSpotSlowestNorth),
            25 => Some(MovementCmd::WalkOnSpotSlowestSouth),
            26 => Some(MovementCmd::WalkOnSpotSlowestWest),
            27 => Some(MovementCmd::WalkOnSpotSlowestEast),
            28 => Some(MovementCmd::WalkOnSpotSlowerNorth),
            29 => Some(MovementCmd::WalkOnSpotSlowerSouth),
            30 => Some(MovementCmd::WalkOnSpotSlowerWest),
            31 => Some(MovementCmd::WalkOnSpotSlowerEast),
            32 => Some(MovementCmd::WalkOnSpotNormalNorth),
            33 => Some(MovementCmd::WalkOnSpotNormalSouth),
            34 => Some(MovementCmd::WalkOnSpotNormalWest),
            35 => Some(MovementCmd::WalkOnSpotNormalEast),
            36 => Some(MovementCmd::WalkOnSpotFasterNorth),
            37 => Some(MovementCmd::WalkOnSpotFasterSouth),
            38 => Some(MovementCmd::WalkOnSpotFasterWest),
            39 => Some(MovementCmd::WalkOnSpotFasterEast),
            40 => Some(MovementCmd::WalkOnSpotFastestNorth),
            41 => Some(MovementCmd::WalkOnSpotFastestSouth),
            42 => Some(MovementCmd::WalkOnSpotFastestWest),
            43 => Some(MovementCmd::WalkOnSpotFastestEast),
            44 => Some(MovementCmd::JumpOnSpotNorth),
            45 => Some(MovementCmd::JumpOnSpotSouth),
            46 => Some(MovementCmd::JumpOnSpotWest),
            47 => Some(MovementCmd::JumpOnSpotEast),
            48 => Some(MovementCmd::Jump1North),
            49 => Some(MovementCmd::Jump1South),
            50 => Some(MovementCmd::Jump1West),
            51 => Some(MovementCmd::Jump1East),
            52 => Some(MovementCmd::Jump1AltNorth),
            53 => Some(MovementCmd::Jump1AltSouth),
            54 => Some(MovementCmd::Jump1AltWest),
            55 => Some(MovementCmd::Jump1AltEast),
            56 => Some(MovementCmd::Jump2North),
            57 => Some(MovementCmd::Jump2South),
            58 => Some(MovementCmd::Jump2West),
            59 => Some(MovementCmd::Jump2East),
            60 => Some(MovementCmd::Cmd060),
            61 => Some(MovementCmd::Cmd061),
            62 => Some(MovementCmd::Cmd062),
            63 => Some(MovementCmd::Cmd063),
            64 => Some(MovementCmd::Cmd064),
            65 => Some(MovementCmd::Cmd065),
            66 => Some(MovementCmd::Cmd066),
            67 => Some(MovementCmd::Cmd067),
            68 => Some(MovementCmd::Cmd068),
            69 => Some(MovementCmd::Cmd069),
            70 => Some(MovementCmd::Cmd070),
            71 => Some(MovementCmd::LockFacing),
            72 => Some(MovementCmd::UnlockFacing),
            73 => Some(MovementCmd::Cmd073),
            74 => Some(MovementCmd::Cmd074),
            75 => Some(MovementCmd::EmoteExclamation),
            76 => Some(MovementCmd::Cmd076),
            77 => Some(MovementCmd::Cmd077),
            78 => Some(MovementCmd::Cmd078),
            79 => Some(MovementCmd::Cmd079),
            80 => Some(MovementCmd::Cmd080),
            81 => Some(MovementCmd::Cmd081),
            82 => Some(MovementCmd::Cmd082),
            83 => Some(MovementCmd::Cmd083),
            84 => Some(MovementCmd::WalkInstantNorth),
            85 => Some(MovementCmd::WalkInstantSouth),
            86 => Some(MovementCmd::WalkInstantWest),
            87 => Some(MovementCmd::WalkInstantEast),
            88 => Some(MovementCmd::RunNorth),
            89 => Some(MovementCmd::RunSouth),
            90 => Some(MovementCmd::RunWest),
            91 => Some(MovementCmd::RunEast),
            92 => Some(MovementCmd::Cmd092),
            93 => Some(MovementCmd::Cmd093),
            94 => Some(MovementCmd::Cmd094),
            95 => Some(MovementCmd::Cmd095),
            96 => Some(MovementCmd::Cmd096),
            97 => Some(MovementCmd::Cmd097),
            98 => Some(MovementCmd::Cmd098),
            99 => Some(MovementCmd::Cmd099),
            100 => Some(MovementCmd::Cmd100),
            101 => Some(MovementCmd::Cmd101),
            102 => Some(MovementCmd::Cmd102),
            103 => Some(MovementCmd::EmoteQuestion),
            104 => Some(MovementCmd::Cmd104),
            105 => Some(MovementCmd::Cmd105),
            106 => Some(MovementCmd::Cmd106),
            107 => Some(MovementCmd::Cmd107),
            108 => Some(MovementCmd::Cmd108),
            109 => Some(MovementCmd::Cmd109),
            110 => Some(MovementCmd::Cmd110),
            111 => Some(MovementCmd::Cmd111),
            112 => Some(MovementCmd::Cmd112),
            254 => Some(MovementCmd::End),
            255 => Some(MovementCmd::NoCommand),
            _ => None,
        }
    }

    /// The command's byte value.
    pub fn as_u8(self) -> (res: u8)
        ensures
            res == cmd_value(self),
    {
        match self {
            MovementCmd::FaceNorth => 0,
            MovementCmd::FaceSouth => 1,
            MovementCmd::FaceWest => 2,
            MovementCmd::FaceEast => 3,
            MovementCmd::WalkSlowestNorth => 4,
            MovementCmd::WalkSlowestSouth => 5,
            MovementCmd::WalkSlowestWest => 6,
            MovementCmd::WalkSlowestEast => 7,
            MovementCmd::WalkSlowerNorth => 8,
            MovementCmd::WalkSlowerSouth => 9,
            MovementCmd::WalkSlowerWest => 10,
            MovementCmd::WalkSlowerEast => 11,
            MovementCmd::WalkNormalNorth => 12,
            MovementCmd::WalkNormalSouth => 13,
            MovementCmd::WalkNormalWest => 14,
            MovementCmd::WalkNormalEast => 15,
            MovementCmd::WalkFasterNorth => 16,
            MovementCmd::WalkFasterSouth => 17,
            MovementCmd::WalkFasterWest => 18,
            MovementCmd::WalkFasterEast => 19,
            MovementCmd::WalkFastestNorth => 20,
            MovementCmd::WalkFastestSouth => 21,
            MovementCmd::WalkFastestWest => 22,
            MovementCmd::WalkFastestEast => 23,
            MovementCmd::WalkOnSpotSlowestNorth => 24,
            MovementCmd::WalkOnSpotSlowestSouth => 25,
            MovementCmd::WalkOnSpotSlowestWest => 26,
            MovementCmd::WalkOnSpotSlowestEast => 27,
            MovementCmd::WalkOnSpotSlowerNorth => 28,
            MovementCmd::WalkOnSpotSlowerSouth => 29,
            MovementCmd::WalkOnSpotSlowerWest => 30,
            MovementCmd::WalkOnSpotSlowerEast => 31,
            MovementCmd::WalkOnSpotNormalNorth => 32,
            MovementCmd::WalkOnSpotNormalSouth => 33,
            MovementCmd::WalkOnSpotNormalWest => 34,
            MovementCmd::WalkOnSpotNormalEast => 35,
            MovementCmd::WalkOnSpotFasterNorth => 36,
            MovementCmd::WalkOnSpotFasterSouth => 37,
            MovementCmd::WalkOnSpotFasterWest => 38,
            MovementCmd::WalkOnSpotFasterEast => 39,
            MovementCmd::WalkOnSpotFastestNorth => 40,
            MovementCmd::WalkOnSpotFastestSouth => 41,
            MovementCmd::WalkOnSpotFastestWest => 42,
            MovementCmd::WalkOnSpotFastestEast => 43,
            MovementCmd::JumpOnSpotNorth => 44,
            MovementCmd::JumpOnSpotSouth => 45,
            MovementCmd::JumpOnSpotWest => 46,
            MovementCmd::JumpOnSpotEast => 47,
            MovementCmd::Jump1North => 48,
            MovementCmd::Jump1South => 49,
            MovementCmd::Jump1West => 50,
            MovementCmd::Jump1East => 51,
            MovementCmd::Jump1AltNorth => 52,
            MovementCmd::Jump1AltSouth => 53,
            MovementCmd::Jump1AltWest => 54,
            MovementCmd::Jump1AltEast => 55,
            MovementCmd::Jump2North => 56,
            MovementCmd::Jump2South => 57,
            MovementCmd::Jump2West => 58,
            MovementCmd::Jump2East => 59,
            MovementCmd::Cmd060 => 60,
            MovementCmd::Cmd061 => 61,
            MovementCmd::Cmd062 => 62,
            MovementCmd::Cmd063 => 63,
            MovementCmd::Cmd064 => 64,
            MovementCmd::Cmd065 => 65,
            MovementCmd::Cmd066 => 66,
            MovementCmd::Cmd067 => 67,
            MovementCmd::Cmd068 => 68,
            MovementCmd::Cmd069 => 69,
            MovementCmd::Cmd070 => 70,
            MovementCmd::LockFacing => 71,
            MovementCmd::UnlockFacing => 72,
            MovementCmd::Cmd073 => 73,
            MovementCmd::Cmd074 => 74,
            MovementCmd::EmoteExclamation => 75,
            MovementCmd::Cmd076 => 76,
            MovementCmd::Cmd077 => 77,
            MovementCmd::Cmd078 => 78,
            MovementCmd::Cmd079 => 79,
            MovementCmd::Cmd080 => 80,
            MovementCmd::Cmd081 => 81,
            MovementCmd::Cmd082 => 82,
            MovementCmd::Cmd083 => 83,
            MovementCmd::WalkInstantNorth => 84,
            MovementCmd::WalkInstantSouth => 85,
            MovementCmd::WalkInstantWest => 86,
            MovementCmd::WalkInstantEast => 87,
            MovementCmd::RunNorth => 88,
            MovementCmd::RunSouth => 89,
            MovementCmd::RunWest => 90,
            MovementCmd::RunEast => 91,
            MovementCmd::Cmd092 => 92,
            MovementCmd::Cmd093 => 93,
            MovementCmd::Cmd094 => 94,
            MovementCmd::Cmd095 => 95,
            MovementCmd::Cmd096 => 96,
            MovementCmd::Cmd097 => 97,
            MovementCmd::Cmd098 => 98,
            MovementCmd::Cmd099 => 99,
            MovementCmd::Cmd100 => 100,
            MovementCmd::Cmd101 => 101,
            MovementCmd::Cmd102 => 102,
            MovementCmd::EmoteQuestion => 103,
            MovementCmd::Cmd104 => 104,
            MovementCmd::Cmd105 => 105,
            MovementCmd::Cmd106 => 106,
            MovementCmd::Cmd107 => 107,
            MovementCmd::Cmd108 => 108,
            MovementCmd::Cmd109 => 109,
            MovementCmd::Cmd110 => 110,
            MovementCmd::Cmd111 => 111,
            MovementCmd::Cmd112 => 112,
            MovementCmd::End => 254,
            MovementCmd::NoCommand => 255,
        }
    }

    /// The command of `family`'s row for `direction`: the row that holds
    /// the value `family`, its member for the direction.
    pub fn for_direction(family: u8, direction: Direction) -> (res: Option<Self>)
        ensures
            match direction_row(family) {
                Some(row) => res matches Some(c) && cmd_value(c) == row_pick(row, direction),
                None => res is None,
            },
    {
        let row = Self::row(family);
        match row {
            Some((n, s, w, e)) => {
                let v = match direction {
                    Direction::North => n,
                    Direction::South => s,
                    Direction::West => w,
                    Direction::East => e,
                };
                Self::from_u8(v)
            },
            None => None,
        }
    }

    fn row(v: u8) -> (res: Option<(u8, u8, u8, u8)>)
        ensures
            res == direction_row(v),
    {
        if v < 0x3C || (0x4C <= v && v < 0x5C) || (0x60 <= v && v < 0x64) {
            let b = v / 4 * 4;
            Some((b, b + 1, b + 2, b + 3))
        } else if v == 0x5C || v == 0x5D {
            Some((0x5C, 0x5D, 0x5C, 0x5D))
        } else if v == 0x5E || v == 0x5F {
            Some((0x5E, 0x5F, 0x5E, 0x5F))
        } else {
            None
        }
    }

    /// The direction this command moves or faces in: its position in the
    /// direction row that contains it.
    pub fn direction(self) -> (res: Option<Direction>)
        ensures
            res == value_direction(cmd_value(self)),
    {
        let v = self.as_u8();
        match Self::row(v) {
            Some((n, s, w, _)) => if n == v {
                Some(Direction::North)
            } else if s == v {
                Some(Direction::South)
            } else if w == v {
                Some(Direction::West)
            } else {
                Some(Direction::East)
            },
            None => None,
        }
    }

    /// Whether the command is a bump (walk on the spot, slower).
    pub fn is_bump(self) -> (res: bool)
        ensures
            res == (0x1C <= cmd_value(self) <= 0x1F),
    {
        let v = self.as_u8();
        0x1C <= v && v <= 0x1F
    }

    /// Whether the command is a run step.
    pub fn is_run(self) -> (res: bool)
        ensures
            res == (0x58 <= cmd_value(self) <= 0x5B),
    {
        let v = self.as_u8();
        0x58 <= v && v <= 0x5B
    }

    /// The walking parameters (direction, speed per tick, ticks,
    /// animation) of a linear walk or run command.
    pub fn linear(self) -> (res: Option<(Direction, i32, i16, u16)>)
        ensures
            res == spec_linear(cmd_value(self)),
    {
        let value = self.as_u8();
        let dir = match Direction::from_index((value % 4) as u32) {
            Some(d) => d,
            None => return None,
        };
        let f = value / 4 * 4;
        if f == 4 {
            Some((dir, 0x800, 32, 1))
        } else if f == 8 {
            Some((dir, 0x1000, 16, 2))
        } else if f == 12 {
            Some((dir, 0x2000, 8, 3))
        } else if f == 16 {
            Some((dir, 0x4000, 4, 4))
        } else if f == 20 {
            Some((dir, 0x8000, 2, 5))
        } else if f == 84 {
            Some((dir, 0x10000, 1, 0))
        } else if f == 88 {
            Some((dir, 0x4000, 4, 9))
        } else {
            None
        }
    }

    /// The on-the-spot parameters (direction, ticks, animation) of a
    /// walk-on-the-spot command.
    pub fn on_spot(self) -> (res: Option<(Direction, i16, u16)>)
        ensures
            res == spec_on_spot(cmd_value(self)),
    {
        let value = self.as_u8();
        let dir = match Direction::from_index((value % 4) as u32) {
            Some(d) => d,
            None => return None,
        };
        let f = value / 4 * 4;
        if f == 24 {
            Some((dir, 32, 1))
        } else if f == 28 {
            Some((dir, 16, 2))
        } else if f == 32 {
            Some((dir, 8, 3))
        } else if f == 36 {
            Some((dir, 4, 4))
        } else if f == 40 {
            Some((dir, 2, 5))
        } else {
            None
        }
    }
}

/// A command's byte value names it again: [`MovementCmd::from_u8`]
/// undoes [`MovementCmd::as_u8`].
pub proof fn lemma_cmd_value_injective(a: MovementCmd, b: MovementCmd)
    ensures
        cmd_value(a) == cmd_value(b) ==> a == b,
        cmd_value(a) < MOVEMENT_CMD_COUNT || cmd_value(a) == MOVEMENT_STEP_END || cmd_value(a)
            == MOVEMENT_NONE,
{
}

/// What one step function returned.
#[derive(Debug, Clone, Copy, PartialEq, Eq, Structural)]
pub enum StepResult {
    /// The runner calls the next step now.
    Continue,
    /// The runner stops for this tick.
    Yield,
}

/// An attempt to hold or run a command the machine cannot run.
#[derive(Debug, Clone, Copy, PartialEq, Eq, Structural)]
pub enum MovementError {
    /// `End` and `None` cannot be held.
    NotHoldable(MovementCmd),
    /// The command's step family has no step functions.
    Unimplemented(MovementCmd),
}

/// What one object tick observed: the edge flags that the tick
/// consumed.
#[derive(Debug, Clone, Copy, PartialEq, Eq, Default)]
pub struct TickReport {
    /// A movement began, or the standing tile became valid.
    pub started: bool,
    /// A movement completed.
    pub ended: bool,
    /// The runner met a command it cannot execute; the object was
    /// marked finished so the machine stays live.
    pub unimplemented: Option<MovementCmd>,
}

/// The work record of the linear and on-the-spot steps: animation
/// group, frames left, direction index and speed per frame.
#[derive(Debug, Clone, Copy, PartialEq, Eq, Default)]
pub struct StepWork {
    /// The animation group.
    pub anim: u16,
    /// Frames left.
    pub frames: i16,
    /// The direction index.
    pub direction: u32,
    /// fx32 speed per frame.
    pub speed: i32,
}

/// The command whose byte value is `v`.
pub open spec fn cmd_with_value(v: u8) -> MovementCmd {
    choose|c: MovementCmd| cmd_value(c) == v
}

/// The cleared work record.
pub open spec fn empty_work() -> StepWork {
    StepWork { anim: 0, frames: 0, direction: 0, speed: 0 }
}

/// The movement-relevant state of a map object.
#[derive(Debug, Clone, PartialEq, Eq)]
pub struct MapObject {
    /// [`flag`] bits.
    pub flags: u32,
    /// The second flag word.
    pub flags2: u32,
    /// The object id; 0xFF for the player.
    pub id: u32,
    /// The sprite id.
    pub sprite_id: u32,
    /// The autonomous movement type; 1 = player.
    pub movement: u32,
    /// The facing at creation.
    pub initial_facing: Direction,
    /// The current facing.
    pub current_facing: Direction,
    /// The queued facing.
    pub next_facing: Direction,
    /// The facing before the last turn.
    pub previous_facing: Direction,
    /// The queued facing before the last queue.
    pub next_facing_backup: Direction,
    /// The x range; -1 = unbounded.
    pub x_range: i32,
    /// The y range; -1 = unbounded.
    pub y_range: i32,
    /// The tile at creation, `[x, y, z]`.
    pub initial: [i32; 3],
    /// The tile the object is leaving.
    pub previous: [i32; 3],
    /// The tile the object occupies or is entering, advanced at a
    /// move's first step.
    pub current: [i32; 3],
    /// The interpolated world position.
    pub position: VecFx32,
    /// The facing vector.
    pub facing_vector: VecFx32,
    /// The animation group.
    pub anim_group: u32,
    /// The held movement command.
    pub movement_cmd: MovementCmd,
    /// The step of the held command.
    pub movement_step: u32,
    /// The behavior of the current tile.
    pub current_behavior: u16,
    /// The behavior of the previous tile.
    pub previous_behavior: u16,
    /// The previous-tile behavior latched at a move's end.
    pub end_behavior: u16,
    /// The step functions' work record.
    pub work: StepWork,
}

impl MapObject {
    /// Whether any of `bits` is set.
    pub open spec fn has(self, bits: u32) -> bool {
        self.flags & bits != 0
    }

    /// The object with `bits` set.
    pub open spec fn set(self, bits: u32) -> MapObject {
        MapObject { flags: self.flags | bits, ..self }
    }

    /// The object with `bits` cleared.
    pub open spec fn cleared(self, bits: u32) -> MapObject {
        MapObject { flags: self.flags & !bits, ..self }
    }

    /// The object turned to `d`, unless its facing is locked.
    pub open spec fn faced(self, d: Direction) -> MapObject {
        if self.has(flag::FACING_LOCKED) {
            self
        } else {
            MapObject { previous_facing: self.current_facing, current_facing: d, ..self }
        }
    }

    /// The object with `d` queued as its next facing.
    pub open spec fn queued(self, d: Direction) -> MapObject {
        MapObject { next_facing_backup: self.next_facing, next_facing: d, ..self }
    }

    /// The object with its previous tile latched to the current one.
    pub open spec fn latched(self) -> MapObject {
        MapObject { previous: self.current, ..self }
    }

    /// The object moved one tile along `d` (tile coordinates only).
    pub open spec fn stepped(self, d: Direction) -> MapObject {
        MapObject {
            previous: self.current,
            current: [
                self.current[0].wrapping_add(dir_dx(d)),
                self.current[1],
                self.current[2].wrapping_add(dir_dz(d)),
            ],
            ..self
        }
    }

    /// The object's position moved by `speed` along `d`.
    pub open spec fn pushed(self, d: Direction, speed: i32) -> MapObject {
        let p = self.position;
        MapObject {
            position: match d {
                Direction::North => VecFx32 { z: p.z.wrapping_sub(speed), ..p },
                Direction::South => VecFx32 { z: p.z.wrapping_add(speed), ..p },
                Direction::West => VecFx32 { x: p.x.wrapping_sub(speed), ..p },
                Direction::East => VecFx32 { x: p.x.wrapping_add(speed), ..p },
            },
            ..self
        }
    }

    /// The held movement dropped: no command, step 0, marked finished.
    pub open spec fn unheld(self) -> MapObject {
        MapObject {
            movement_cmd: MovementCmd::NoCommand,
            movement_step: 0,
            ..self.cleared(flag::HELD_MOVEMENT).set(flag::HELD_MOVEMENT_DONE)
        }
    }

    /// The height refresh: no height map is loaded, so only the flags
    /// change.
    pub open spec fn height_refreshed(self) -> MapObject {
        if self.has(flag::IGNORE_HEIGHTS) {
            self.cleared(flag::HEIGHT_STALE)
        } else {
            self.set(flag::HEIGHT_STALE)
        }
    }

    /// The behaviors (previous, current) that a refresh reads.
    pub open spec fn behaviors_read<C: Collision>(self, terrain: &C) -> (u8, u8) {
        if self.flags2 & 4 != 0 {
            (BEHAVIOR_NONE, BEHAVIOR_NONE)
        } else {
            (
                (terrain.spec_attr(self.previous[0], self.previous[2]) & 0xFF) as u8,
                (terrain.spec_attr(self.current[0], self.current[2]) & 0xFF) as u8,
            )
        }
    }

    /// The behavior refresh: the object after it, and whether the
    /// current tile has a behavior.
    pub open spec fn behaviors_refreshed<C: Collision>(self, terrain: &C) -> (MapObject, bool) {
        let (p, c) = self.behaviors_read(terrain);
        let o = MapObject { previous_behavior: p as u16, current_behavior: c as u16, ..self };
        if c == BEHAVIOR_NONE {
            (o.set(flag::BEHAVIOR_STALE), false)
        } else {
            (o.cleared(flag::BEHAVIOR_STALE), true)
        }
    }

    /// The object as created at tile `(x, z)`.
    pub open spec fn spec_create(
        x: i32,
        z: i32,
        direction: Direction,
        sprite_id: u32,
        movement: u32,
    ) -> MapObject {
        MapObject {
            flags: flag::ACTIVE | flag::BEHAVIOR_STALE | flag::HEIGHT_STALE | flag::HELD_MOVEMENT_DONE
                | flag::START_MOVEMENT,
            flags2: 0,
            id: 0,
            sprite_id,
            movement,
            initial_facing: direction,
            current_facing: direction,
            next_facing: direction,
            previous_facing: direction,
            next_facing_backup: direction,
            x_range: 0,
            y_range: 0,
            initial: [x, 0, z],
            previous: [x, 0, z],
            current: [x, 0, z],
            position: spec_from_tile(x, 0, z),
            facing_vector: VecFx32 { x: 0, y: 0, z: 0 },
            anim_group: 0,
            movement_cmd: MovementCmd::NoCommand,
            movement_step: 0,
            current_behavior: 0,
            previous_behavior: 0,
            end_behavior: 0,
            work: empty_work(),
        }
    }

    /// A plain object at tile `(x, z)`, elevation 0, facing `direction`:
    /// active, with stale behavior and height, a pending movement
    /// start, and no held movement.
    pub fn create(x: i32, z: i32, direction: Direction, sprite_id: u32, movement: u32) -> (res: Self)
        requires
            tile_fits(x, 0, z),
        ensures
            res == Self::spec_create(x, z, direction, sprite_id, movement),
    {
        let mut object = MapObject {
            flags: 0,
            flags2: 0,
            id: 0,
            sprite_id,
            movement,
            initial_facing: direction,
            current_facing: direction,
            next_facing: direction,
            previous_facing: direction,
            next_facing_backup: direction,
            x_range: 0,
            y_range: 0,
            initial: [x, 0, z],
            previous: [x, 0, z],
            current: [x, 0, z],
            position: VecFx32::from_tile(x, 0, z),
            facing_vector: VecFx32 { x: 0, y: 0, z: 0 },
            anim_group: 0,
            movement_cmd: MovementCmd::NoCommand,
            movement_step: 0,
            current_behavior: 0,
            previous_behavior: 0,
            end_behavior: 0,
            work: StepWork { anim: 0, frames: 0, direction: 0, speed: 0 },
        };
        object.flags = object.flags | (flag::ACTIVE | flag::BEHAVIOR_STALE | flag::HEIGHT_STALE);
        object.set_facing_direction_direct(direction);
        object.set_next_facing_direction(direction);
        object.clear_held_movement();
        object.flags = object.flags | flag::START_MOVEMENT;
        assert((((0u32 | (flag::ACTIVE | flag::BEHAVIOR_STALE | flag::HEIGHT_STALE))
            & !flag::HELD_MOVEMENT) | flag::HELD_MOVEMENT_DONE) | flag::START_MOVEMENT
            == flag::ACTIVE | flag::BEHAVIOR_STALE | flag::HEIGHT_STALE | flag::HELD_MOVEMENT_DONE
            | flag::START_MOVEMENT) by (bit_vector);
        object
    }

    /// Whether any of `bits` is set.
    pub fn test_flags(&self, bits: u32) -> (res: bool)
        ensures
            res == self.has(bits),
    {
        self.flags & bits != 0
    }

    /// Sets `bits`.
    pub fn set_flags(&mut self, bits: u32)
        ensures
            *final(self) == old(self).set(bits),
    {
        self.flags = self.flags | bits;
    }

    /// Clears `bits`.
    pub fn clear_flags(&mut self, bits: u32)
        ensures
            *final(self) == old(self).cleared(bits),
    {
        self.flags = self.flags & !bits;
    }

    /// Sets the facing, lock or not.
    pub fn set_facing_direction_direct(&mut self, direction: Direction)
        ensures
            *final(self) == (MapObject { current_facing: direction, ..*old(self) }),
    {
        self.current_facing = direction;
    }

    /// Turns to `direction`, remembering the old facing; a no-op while
    /// the facing is locked.
    pub fn set_facing_direction(&mut self, direction: Direction)
        ensures
            *final(self) == old(self).faced(direction),
    {
        if !self.test_flags(flag::FACING_LOCKED) {
            self.previous_facing = self.current_facing;
            self.current_facing = direction;
        }
    }

    /// Queues `direction` as the next facing.
    pub fn set_next_facing_direction(&mut self, direction: Direction)
        ensures
            *final(self) == old(self).queued(direction),
    {
        self.next_facing_backup = self.next_facing;
        self.next_facing = direction;
    }

    /// Turns to and queues `direction`.
    pub fn set_or_queue_facing(&mut self, direction: Direction)
        ensures
            *final(self) == old(self).faced(direction).queued(direction),
    {
        self.set_facing_direction(direction);
        self.set_next_facing_direction(direction);
    }

    /// Whether a movement command can be loaded: active, not in
    /// single-movement mode, and no unfinished held movement.
    pub open spec fn spec_ready(self) -> bool {
        &&& self.has(flag::ACTIVE)
        &&& !self.has(flag::SINGLE_MOVEMENT)
        &&& (!self.has(flag::HELD_MOVEMENT) || self.has(flag::HELD_MOVEMENT_DONE))
    }

    /// Whether a movement command can be loaded.
    pub fn ready_for_movement(&self) -> (res: bool)
        ensures
            res == self.spec_ready(),
    {
        if !self.test_flags(flag::ACTIVE) || self.test_flags(flag::SINGLE_MOVEMENT) {
            return false;
        }
        !self.test_flags(flag::HELD_MOVEMENT) || self.test_flags(flag::HELD_MOVEMENT_DONE)
    }

    /// The object with `command` held at step 0, unfinished.
    pub open spec fn holding(self, command: MovementCmd) -> MapObject {
        MapObject {
            movement_cmd: command,
            movement_step: 0,
            ..self.set(flag::HELD_MOVEMENT).cleared(flag::HELD_MOVEMENT_DONE)
        }
    }

    /// Loads `command` at step 0, marked held and unfinished.
    /// `End` and `None` cannot be held: for them the object is left
    /// unchanged and the error names the command.
    pub fn set_held_movement(&mut self, command: MovementCmd) -> (res: Result<(), MovementError>)
        ensures
            cmd_value(command) < MOVEMENT_CMD_COUNT ==> res is Ok && *final(self) == old(
                self,
            ).holding(command),
            cmd_value(command) >= MOVEMENT_CMD_COUNT ==> res == Err::<(), MovementError>(
                MovementError::NotHoldable(command),
            ) && *final(self) == *old(self),
    {
        if command.as_u8() >= MOVEMENT_CMD_COUNT {
            return Err(MovementError::NotHoldable(command));
        }
        self.movement_cmd = command;
        self.movement_step = 0;
        self.set_flags(flag::HELD_MOVEMENT);
        self.clear_flags(flag::HELD_MOVEMENT_DONE);
        Ok(())
    }

    /// Whether no held movement is in progress.
    pub open spec fn spec_idle(self) -> bool {
        !self.has(flag::HELD_MOVEMENT) || self.has(flag::HELD_MOVEMENT_DONE)
    }

    /// Whether no held movement is in progress (none loaded, or it
    /// finished).
    pub fn is_movement_idle(&self) -> (res: bool)
        ensures
            res == self.spec_idle(),
    {
        !self.test_flags(flag::HELD_MOVEMENT) || self.test_flags(flag::HELD_MOVEMENT_DONE)
    }

    /// Clears a finished held movement: `true` when there was nothing to
    /// clear or it had finished (both held bits are then cleared),
    /// `false`, with nothing changed, while one still runs.
    pub fn clear_held_movement_if_idle(&mut self) -> (res: bool)
        ensures
            res == old(self).spec_idle(),
            !old(self).has(flag::HELD_MOVEMENT) ==> *final(self) == *old(self),
            old(self).has(flag::HELD_MOVEMENT) && old(self).has(flag::HELD_MOVEMENT_DONE)
                ==> *final(self) == old(self).cleared(
                flag::HELD_MOVEMENT | flag::HELD_MOVEMENT_DONE,
            ),
            !res ==> *final(self) == *old(self),
    {
        if !self.test_flags(flag::HELD_MOVEMENT) {
            return true;
        }
        if !self.test_flags(flag::HELD_MOVEMENT_DONE) {
            return false;
        }
        self.clear_flags(flag::HELD_MOVEMENT | flag::HELD_MOVEMENT_DONE);
        true
    }

    /// Drops the held command and marks the object finished.
    pub fn clear_held_movement(&mut self)
        ensures
            *final(self) == old(self).unheld(),
    {
        self.clear_flags(flag::HELD_MOVEMENT);
        self.set_flags(flag::HELD_MOVEMENT_DONE);
        self.movement_cmd = MovementCmd::NoCommand;
        self.movement_step = 0;
    }

    /// previous := current.
    pub fn latch_previous(&mut self)
        ensures
            *final(self) == old(self).latched(),
    {
        self.previous = self.current;
    }

    /// previous := current, then current advances one tile along
    /// `direction` (y unchanged).
    pub fn advance_tile(&mut self, direction: Direction)
        ensures
            *final(self) == old(self).stepped(direction),
    {
        self.latch_previous();
        let x = self.current[0].wrapping_add(direction.delta_x());
        let z = self.current[2].wrapping_add(direction.delta_z());
        self.current[0] = x;
        self.current[2] = z;
        proof {
            assert(self.current@ =~= old(self).stepped(direction).current@);
            assert(self.current == old(self).stepped(direction).current);
        }
    }

    /// Moves the position by `speed` along `direction`'s axis.
    pub fn advance_position(&mut self, direction: Direction, speed: i32)
        ensures
            *final(self) == old(self).pushed(direction, speed),
    {
        match direction {
            Direction::North => self.position.z = self.position.z.wrapping_sub(speed),
            Direction::South => self.position.z = self.position.z.wrapping_add(speed),
            Direction::West => self.position.x = self.position.x.wrapping_sub(speed),
            Direction::East => self.position.x = self.position.x.wrapping_add(speed),
        }
    }

    /// Refreshes the elevation. No height map is loaded, so the lookup
    /// counts as failed: an object that ignores heights clears its
    /// stale-height bit, any other sets it. Returns whether a height
    /// was found: never.
    pub fn update_height(&mut self) -> (res: bool)
        ensures
            *final(self) == old(self).height_refreshed(),
            !res,
    {
        if self.test_flags(flag::IGNORE_HEIGHTS) {
            self.clear_flags(flag::HEIGHT_STALE);
        } else {
            self.set_flags(flag::HEIGHT_STALE);
        }
        false
    }

    /// Latches the behaviors of the previous and current tiles; objects
    /// with `flags2` bit 2 keep "no behavior" for both. Returns `true`,
    /// clearing the stale-behavior bit, when the current tile has a
    /// behavior; sets the bit otherwise.
    pub fn refresh_behaviors<C: Collision>(&mut self, terrain: &C) -> (res: bool)
        ensures
            (*final(self), res) == old(self).behaviors_refreshed(terrain),
    {
        let (previous, current) = if self.flags2 & 4 != 0 {
            (BEHAVIOR_NONE, BEHAVIOR_NONE)
        } else {
            (
                terrain.behavior(self.previous[0], self.previous[2]),
                terrain.behavior(self.current[0], self.current[2]),
            )
        };
        self.previous_behavior = previous as u16;
        self.current_behavior = current as u16;
        if current == BEHAVIOR_NONE {
            self.set_flags(flag::BEHAVIOR_STALE);
            false
        } else {
            self.clear_flags(flag::BEHAVIOR_STALE);
            true
        }
    }

    /// Frames left in the work record.
    pub fn work_frames(&self) -> (res: i16)
        ensures
            res == self.work.frames,
    {
        self.work.frames
    }

    /// The object after the face step: turned, animation group 0,
    /// previous tile latched, next step.
    pub open spec fn after_face(self, d: Direction) -> MapObject {
        let o = self.faced(d).latched();
        MapObject { anim_group: 0, movement_step: (o.movement_step + 1) as u32, ..o }
    }

    /// The object after the linear-move init: tile coordinates advance
    /// now, the position follows over `frames` ticks.
    pub open spec fn after_linear_init(
        self,
        d: Direction,
        speed: i32,
        frames: i16,
        anim: u16,
    ) -> MapObject {
        let w = StepWork { anim, frames, direction: dir_index(d), speed };
        let o = MapObject { work: w, ..self }.stepped(d).faced(d).queued(d).set(
            flag::START_MOVEMENT,
        );
        MapObject { anim_group: anim as u32, movement_step: (o.movement_step + 1) as u32, ..o }
    }

    /// The object and step result after one linear-move frame.
    pub open spec fn after_linear_advance(self) -> (MapObject, StepResult) {
        let o1 = match dir_of(self.work.direction as int) {
            Some(d) => self.pushed(d, self.work.speed),
            None => self,
        };
        let o2 = o1.height_refreshed();
        let frames = o2.work.frames.wrapping_sub(1);
        let o3 = MapObject { work: StepWork { frames, ..o2.work }, ..o2 };
        if frames > 0 {
            (o3, StepResult::Yield)
        } else {
            let o4 = o3.set(flag::END_MOVEMENT | flag::HELD_MOVEMENT_DONE).latched();
            (
                MapObject { anim_group: 0, movement_step: (o4.movement_step + 1) as u32, ..o4 },
                StepResult::Continue,
            )
        }
    }

    /// The object after the walk-on-the-spot init; the stored count is
    /// `frames + 1`.
    pub open spec fn after_on_spot_init(self, d: Direction, frames: i16, anim: u16) -> MapObject {
        let w = StepWork { anim, frames: frames.wrapping_add(1), direction: 0, speed: 0 };
        let o = MapObject { work: w, ..self }.faced(d);
        let o2 = MapObject { anim_group: anim as u32, ..o }.latched();
        MapObject { movement_step: (o2.movement_step + 1) as u32, ..o2 }
    }

    /// The object and step result after one on-the-spot frame; the end
    /// raises no end-of-movement flag.
    pub open spec fn after_on_spot_wait(self) -> (MapObject, StepResult) {
        let frames = self.work.frames.wrapping_sub(1);
        let o = MapObject { work: StepWork { frames, ..self.work }, ..self };
        if frames > 0 {
            (o, StepResult::Yield)
        } else {
            let o2 = o.set(flag::HELD_MOVEMENT_DONE);
            (
                MapObject { anim_group: 0, movement_step: (o2.movement_step + 1) as u32, ..o2 },
                StepResult::Continue,
            )
        }
    }

    /// The terminal step: marked finished; the step does not advance.
    pub open spec fn after_finish(self) -> (MapObject, StepResult) {
        (self.set(flag::HELD_MOVEMENT_DONE), StepResult::Yield)
    }

    /// Step `step` of `command` on this object.
    pub open spec fn spec_run_step(self, command: MovementCmd, step: u32) -> Result<
        (MapObject, StepResult),
        MovementError,
    > {
        let v = cmd_value(command);
        if v < 4 && value_direction(v) is Some {
            if step == 0 {
                Ok((self.after_face(value_direction(v)->0), StepResult::Continue))
            } else {
                Ok(self.after_finish())
            }
        } else if spec_linear(v) is Some {
            let (d, speed, frames, anim) = spec_linear(v)->0;
            if step == 0 {
                Ok((self.after_linear_init(d, speed, frames, anim), StepResult::Continue))
            } else if step == 1 {
                Ok(self.after_linear_advance())
            } else {
                Ok(self.after_finish())
            }
        } else if spec_on_spot(v) is Some {
            let (d, frames, anim) = spec_on_spot(v)->0;
            if step == 0 {
                Ok((self.after_on_spot_init(d, frames, anim), StepResult::Continue))
            } else if step == 1 {
                Ok(self.after_on_spot_wait())
            } else {
                Ok(self.after_finish())
            }
        } else {
            Err(MovementError::Unimplemented(command))
        }
    }

    fn step_face(&mut self, direction: Direction)
        requires
            old(self).movement_step < u32::MAX,
        ensures
            *final(self) == old(self).after_face(direction),
    {
        self.set_facing_direction(direction);
        self.latch_previous();
        self.anim_group = 0;
        self.movement_step = self.movement_step + 1;
    }

    fn step_linear_init(&mut self, direction: Direction, speed: i32, frames: i16, anim: u16)
        requires
            old(self).movement_step < u32::MAX,
        ensures
            *final(self) == old(self).after_linear_init(direction, speed, frames, anim),
    {
        self.work = StepWork { anim, frames, direction: direction.index(), speed };
        self.advance_tile(direction);
        self.set_or_queue_facing(direction);
        self.set_flags(flag::START_MOVEMENT);
        self.anim_group = anim as u32;
        self.movement_step = self.movement_step + 1;
    }

    fn step_linear_advance(&mut self) -> (res: StepResult)
        requires
            old(self).movement_step < u32::MAX,
        ensures
            (*final(self), res) == old(self).after_linear_advance(),
    {
        match Direction::from_index(self.work.direction) {
            Some(direction) => {
                let speed = self.work.speed;
                self.advance_position(direction, speed);
            },
            None => {},
        }
        self.update_height();
        let frames = self.work.frames.wrapping_sub(1);
        self.work.frames = frames;
        if frames > 0 {
            return StepResult::Yield;
        }
        self.set_flags(flag::END_MOVEMENT | flag::HELD_MOVEMENT_DONE);
        self.latch_previous();
        self.anim_group = 0;
        self.movement_step = self.movement_step + 1;
        StepResult::Continue
    }

    fn step_on_spot_init(&mut self, direction: Direction, frames: i16, anim: u16)
        requires
            old(self).movement_step < u32::MAX,
        ensures
            *final(self) == old(self).after_on_spot_init(direction, frames, anim),
    {
        self.work = StepWork { anim, frames: frames.wrapping_add(1), direction: 0, speed: 0 };
        self.set_facing_direction(direction);
        self.anim_group = anim as u32;
        self.latch_previous();
        self.movement_step = self.movement_step + 1;
    }

    fn step_on_spot_wait(&mut self) -> (res: StepResult)
        requires
            old(self).movement_step < u32::MAX,
        ensures
            (*final(self), res) == old(self).after_on_spot_wait(),
    {
        let frames = self.work.frames.wrapping_sub(1);
        self.work.frames = frames;
        if frames > 0 {
            return StepResult::Yield;
        }
        self.set_flags(flag::HELD_MOVEMENT_DONE);
        self.anim_group = 0;
        self.movement_step = self.movement_step + 1;
        StepResult::Continue
    }

    fn step_finish(&mut self) -> (res: StepResult)
        ensures
            (*final(self), res) == old(self).after_finish(),
    {
        self.set_flags(flag::HELD_MOVEMENT_DONE);
        StepResult::Yield
    }

    /// Runs step `step` of `command`: the face, linear-move and
    /// on-the-spot families; any other command is
    /// [`MovementError::Unimplemented`] and leaves the object unchanged.
    pub fn run_step(&mut self, command: MovementCmd, step: u32) -> (res: Result<
        StepResult,
        MovementError,
    >)
        requires
            step <= 1 ==> old(self).movement_step < u32::MAX,
        ensures
            match old(self).spec_run_step(command, step) {
                Ok((o, r)) => res == Ok::<StepResult, MovementError>(r) && *final(self) == o,
                Err(e) => res == Err::<StepResult, MovementError>(e) && *final(self) == *old(self),
            },
            res == Ok::<StepResult, MovementError>(StepResult::Continue) ==> step <= 1
                && final(self).movement_step == old(self).movement_step + 1,
    {
        let v = command.as_u8();
        if v < 4 {
            match command.direction() {
                Some(direction) => {
                    if step == 0 {
                        self.step_face(direction);
                        return Ok(StepResult::Continue);
                    } else {
                        return Ok(self.step_finish());
                    }
                },
                None => {},
            }
        }
        match command.linear() {
            Some((direction, speed, frames, anim)) => {
                if step == 0 {
                    self.step_linear_init(direction, speed, frames, anim);
                    return Ok(StepResult::Continue);
                } else if step == 1 {
                    return Ok(self.step_linear_advance());
                } else {
                    return Ok(self.step_finish());
                }
            },
            None => {},
        }
        match command.on_spot() {
            Some((direction, frames, anim)) => {
                if step == 0 {
                    self.step_on_spot_init(direction, frames, anim);
                    return Ok(StepResult::Continue);
                } else if step == 1 {
                    return Ok(self.step_on_spot_wait());
                } else {
                    return Ok(self.step_finish());
                }
            },
            None => {},
        }
        Err(MovementError::Unimplemented(command))
    }

    /// The held command run until a step yields: the object after, and
    /// the command if it was unimplemented (then retired as finished).
    pub open spec fn spec_run_held(self) -> (MapObject, Option<MovementCmd>)
        decreases 2 - self.movement_step,
    {
        let command = self.movement_cmd;
        if command == MovementCmd::NoCommand {
            (self, None)
        } else {
            match self.spec_run_step(command, self.movement_step) {
                Ok((o, StepResult::Continue)) => {
                    if self.movement_step < 2 && o.movement_step == self.movement_step + 1 {
                        o.spec_run_held()
                    } else {
                        (o, None)
                    }
                },
                Ok((o, StepResult::Yield)) => (o, None),
                Err(_) => (self.set(flag::HELD_MOVEMENT_DONE), Some(command)),
            }
        }
    }

    /// Runs the held command's steps until one yields. An unimplemented
    /// command is reported and retired as if it had finished, so the
    /// object never wedges.
    pub fn run_held_movement(&mut self) -> (res: Option<MovementCmd>)
        ensures
            (*final(self), res) == old(self).spec_run_held(),
    {
        loop
            invariant
                self.spec_run_held() == old(self).spec_run_held(),
            decreases 2 - self.movement_step,
        {
            let ghost before = *self;
            let command = self.movement_cmd;
            if command == MovementCmd::NoCommand {
                return None;
            }
            let step = self.movement_step;
            match self.run_step(command, step) {
                Ok(StepResult::Continue) => {
                    assert(before.spec_run_held() == self.spec_run_held());
                },
                Ok(StepResult::Yield) => {
                    return None;
                },
                Err(_) => {
                    self.step_finish();
                    return Some(command);
                },
            }
        }
    }

    /// One object tick: the object after it, and what it observed.
    pub open spec fn spec_tick<C: Collision>(self, terrain: &C) -> (MapObject, TickReport) {
        let o1 = if self.has(flag::HEIGHT_STALE) {
            self.height_refreshed()
        } else {
            self
        };
        let o2 = if o1.has(flag::BEHAVIOR_STALE) {
            let (a, found) = o1.behaviors_refreshed(terrain);
            if found {
                a.set(flag::START_MOVEMENT)
            } else {
                a
            }
        } else {
            o1
        };
        let started = o2.has(flag::START_MOVEMENT);
        let o3 = if started {
            o2.behaviors_refreshed(terrain).0
        } else {
            o2
        };
        let o4 = o3.cleared(flag::START_MOVEMENT | flag::UNK16);
        let (o5, unimplemented) = if o4.has(flag::HELD_MOVEMENT) {
            o4.spec_run_held()
        } else {
            (o4, None)
        };
        let (o6, started_again) = if o5.has(flag::UNK16) {
            (o5.behaviors_refreshed(terrain).0, false)
        } else if o5.has(flag::START_MOVEMENT) {
            (o5.behaviors_refreshed(terrain).0, true)
        } else {
            (o5, false)
        };
        let o7 = o6.cleared(flag::START_MOVEMENT | flag::UNK16);
        let (o8, ended) = if o7.has(flag::UNK17) {
            (o7.behaviors_refreshed(terrain).0, false)
        } else if o7.has(flag::END_MOVEMENT) {
            ((MapObject { end_behavior: o7.previous_behavior, ..o7 }).behaviors_refreshed(terrain).0, true)
        } else {
            (o7, false)
        };
        (
            o8.cleared(flag::END_MOVEMENT | flag::UNK17),
            TickReport { started: started || started_again, ended, unimplemented },
        )
    }

    /// The object's per-frame update:
    ///
    /// 1. a stale height is re-fetched;
    /// 2. a stale standing-tile behavior is refreshed, and becoming
    ///    valid raises the movement-start flag;
    /// 3. a pending movement start refreshes the behaviors and is
    ///    consumed;
    /// 4. the held movement runs, if one is loaded;
    /// 5. a movement start raised by the steps refreshes the behaviors
    ///    and is consumed;
    /// 6. a movement end latches the previous-tile behavior, refreshes,
    ///    and is consumed.
    pub fn tick<C: Collision>(&mut self, terrain: &C) -> (res: TickReport)
        ensures
            (*final(self), res) == old(self).spec_tick(terrain),
    {
        let mut report = TickReport { started: false, ended: false, unimplemented: None };
        if self.test_flags(flag::HEIGHT_STALE) {
            self.update_height();
        }
        if self.test_flags(flag::BEHAVIOR_STALE) && self.refresh_behaviors(terrain) {
            self.set_flags(flag::START_MOVEMENT);
        }
        if self.test_flags(flag::START_MOVEMENT) {
            self.refresh_behaviors(terrain);
            report.started = true;
        }
        self.clear_flags(flag::START_MOVEMENT | flag::UNK16);
        if self.test_flags(flag::HELD_MOVEMENT) {
            report.unimplemented = self.run_held_movement();
        }
        if self.test_flags(flag::UNK16) {
            self.refresh_behaviors(terrain);
        } else if self.test_flags(flag::START_MOVEMENT) {
            self.refresh_behaviors(terrain);
            report.started = true;
        }
        self.clear_flags(flag::START_MOVEMENT | flag::UNK16);
        if self.test_flags(flag::UNK17) {
            self.refresh_behaviors(terrain);
        } else if self.test_flags(flag::END_MOVEMENT) {
            self.end_behavior = self.previous_behavior;
            self.refresh_behaviors(terrain);
            report.ended = true;
        }
        self.clear_flags(flag::END_MOVEMENT | flag::UNK17);
        report
    }
}


/// One entry of a scripted movement list: a command and how many times
/// to hold it.
#[derive(Debug, Clone, Copy, PartialEq, Eq, Structural)]
pub struct MovementEntry {
    /// The command to hold.
    pub cmd: MovementCmd,
    /// How many times to repeat it.
    pub count: u16,
}

/// The states of the list machine.
#[derive(Debug, Clone, Copy, PartialEq, Eq, Structural)]
enum ListState {
    Init,
    WaitReady,
    SetCommand,
    WaitCommand,
    LoopCheck,
    Done,
}

/// How many state changes the machine can still make in one tick
/// before it stops.
spec fn list_rank(state: ListState) -> int {
    match state {
        ListState::SetCommand => 0,
        ListState::Done => 0,
        ListState::WaitReady => 1,
        ListState::Init => 2,
        ListState::LoopCheck => 3,
        ListState::WaitCommand => 4,
    }
}

/// Applies a movement list to one object, one command at a time; it
/// runs before the object's own tick each frame.
#[derive(Debug, Clone, PartialEq, Eq)]
pub struct MovementList<'a> {
    entries: &'a [MovementEntry],
    state: ListState,
    finished: bool,
    repeat: u32,
    index: usize,
}

impl<'a> MovementList<'a> {
    /// How many state changes the machine can still make in one tick
    /// before it stops.
    pub closed spec fn rank(self) -> int {
        list_rank(self.state)
    }

    /// The list's entries.
    pub closed spec fn entries(self) -> Seq<MovementEntry> {
        self.entries@
    }

    /// Whether the list has run out.
    pub closed spec fn finished(self) -> bool {
        self.finished
    }

    /// The index of the entry being run.
    pub closed spec fn index(self) -> int {
        self.index as int
    }

    /// The machine's counters are in range.
    pub closed spec fn wf(self) -> bool {
        &&& self.repeat <= 0x10000
        &&& (self.state != ListState::Init && self.state != ListState::Done ==> self.repeat
            <= 0xFFFF)
        &&& self.index <= self.entries@.len()
        &&& (self.state == ListState::WaitCommand || self.state == ListState::LoopCheck)
            ==> self.index < self.entries@.len()
    }

    /// The command of the entry being run; `End` past the last entry.
    closed spec fn cur(self) -> MovementCmd {
        if self.index < self.entries@.len() {
            self.entries@[self.index as int].cmd
        } else {
            MovementCmd::End
        }
    }

    /// One state function: the machine and object after it, whether
    /// the machine runs on in this tick, and the error that ends it.
    closed spec fn step_once(self, object: MapObject) -> (
        MovementList<'a>,
        MapObject,
        bool,
        Option<MovementError>,
    ) {
        match self.state {
            ListState::Init => (
                MovementList { repeat: 0, state: ListState::WaitReady, ..self },
                object,
                true,
                None,
            ),
            ListState::WaitReady => if object.spec_ready() {
                (MovementList { state: ListState::SetCommand, ..self }, object, true, None)
            } else {
                (self, object, false, None)
            },
            ListState::SetCommand => {
                let cmd = self.cur();
                if cmd_value(cmd) >= MOVEMENT_CMD_COUNT {
                    (
                        MovementList { finished: true, state: ListState::Done, ..self },
                        object,
                        false,
                        Some(MovementError::NotHoldable(cmd)),
                    )
                } else {
                    (
                        MovementList { state: ListState::WaitCommand, ..self },
                        object.holding(cmd),
                        false,
                        None,
                    )
                }
            },
            ListState::WaitCommand => if object.spec_idle() {
                (MovementList { state: ListState::LoopCheck, ..self }, object, true, None)
            } else {
                (self, object, false, None)
            },
            ListState::LoopCheck => {
                let r = (self.repeat + 1) as u32;
                let count: u32 = if self.index < self.entries@.len() {
                    self.entries@[self.index as int].count as u32
                } else {
                    0
                };
                if r < count {
                    (
                        MovementList { repeat: r, state: ListState::WaitReady, ..self },
                        object,
                        true,
                        None,
                    )
                } else {
                    let s2 = MovementList { repeat: r, index: (self.index + 1) as usize, ..self };
                    if s2.cur() == MovementCmd::End {
                        (
                            MovementList { finished: true, state: ListState::Done, ..s2 },
                            object,
                            false,
                            None,
                        )
                    } else {
                        (MovementList { state: ListState::Init, ..s2 }, object, true, None)
                    }
                }
            },
            ListState::Done => (self, object, false, None),
        }
    }

    /// One tick of the machine: its state functions run while they ask
    /// to; the machine and object after, and the error that ended the
    /// list, if any.
    pub closed spec fn spec_tick(self, object: MapObject) -> (
        MovementList<'a>,
        MapObject,
        Result<(), MovementError>,
    )
        decreases self.rank(),
    {
        let (s, o, again, err) = self.step_once(object);
        match err {
            Some(e) => (s, o, Err(e)),
            None => if again && s.rank() < self.rank() {
                s.spec_tick(o)
            } else {
                (s, o, Ok(()))
            },
        }
    }

    /// A machine over `entries`; the list ends at the first `End`
    /// entry, or the slice's end.
    pub fn new(entries: &'a [MovementEntry]) -> (res: Self)
        ensures
            res.wf(),
            res.entries() == entries@,
            !res.finished(),
            res.index() == 0,
    {
        MovementList { entries, state: ListState::Init, finished: false, repeat: 0, index: 0 }
    }

    /// Whether the list has run out.
    pub fn is_finished(&self) -> (res: bool)
        ensures
            res == self.finished(),
    {
        self.finished
    }

    fn current(&self) -> (res: MovementCmd)
        ensures
            res == self.cur(),
    {
        if self.index < self.entries.len() {
            self.entries[self.index].cmd
        } else {
            MovementCmd::End
        }
    }

    /// Runs the state functions while they ask to. A command the object
    /// cannot hold ends the list with [`MovementError::NotHoldable`].
    pub fn tick(&mut self, object: &mut MapObject) -> (res: Result<(), MovementError>)
        requires
            old(self).wf(),
        ensures
            final(self).wf(),
            (*final(self), *final(object), res) == old(self).spec_tick(*old(object)),
            final(self).entries() == old(self).entries(),
    {
        loop
            invariant
                self.wf(),
                self.entries@ == old(self).entries@,
                self.spec_tick(*object) == old(self).spec_tick(*old(object)),
            decreases list_rank(self.state),
        {
            let ghost before = *self;
            let ghost obj_before = *object;
            let again = match self.state {
                ListState::Init => {
                    self.repeat = 0;
                    self.state = ListState::WaitReady;
                    true
                },
                ListState::WaitReady => {
                    if !object.ready_for_movement() {
                        false
                    } else {
                        self.state = ListState::SetCommand;
                        true
                    }
                },
                ListState::SetCommand => {
                    let cmd = self.current();
                    match object.set_held_movement(cmd) {
                        Err(e) => {
                            self.finished = true;
                            self.state = ListState::Done;
                            return Err(e);
                        },
                        Ok(()) => {},
                    }
                    self.state = ListState::WaitCommand;
                    false
                },
                ListState::WaitCommand => {
                    if !object.is_movement_idle() {
                        false
                    } else {
                        self.state = ListState::LoopCheck;
                        true
                    }
                },
                ListState::LoopCheck => {
                    self.repeat = self.repeat + 1;
                    let count: u32 = if self.index < self.entries.len() {
                        self.entries[self.index].count as u32
                    } else {
                        0
                    };
                    if self.repeat < count {
                        self.state = ListState::WaitReady;
                        true
                    } else {
                        self.index = self.index + 1;
                        if self.current() == MovementCmd::End {
                            self.finished = true;
                            self.state = ListState::Done;
                            false
                        } else {
                            self.state = ListState::Init;
                            true
                        }
                    }
                },
                ListState::Done => false,
            };
            if !again {
                return Ok(());
            }
            assert(before.spec_tick(obj_before) == self.spec_tick(*object));
        }
    }
}

/// A one-tile step keeps an object's sprite on its tile: when the
/// position is the centre of the current tile, stepping one tile along
/// `d` (east x + 1, west x - 1, south z + 1, north z - 1) and moving the
/// position by a whole tile along `d` leaves the position at the centre
/// of the new tile.
pub proof fn lemma_step_keeps_sprite_on_tile(o: MapObject, d: Direction)
    requires
        o.position == spec_from_tile(o.current[0], o.current[1], o.current[2]),
        -0x7000 <= o.current[0] <= 0x7000,
        -0x7000 <= o.current[2] <= 0x7000,
        -0x7000 <= o.current[1] <= 0x7000,
    ensures
        ({
            let t = o.stepped(d).current;
            let x = o.current[0] as int;
            let z = o.current[2] as int;
            &&& t[1] == o.current[1]
            &&& d == Direction::East ==> t[0] == x + 1 && t[2] == z
            &&& d == Direction::West ==> t[0] == x - 1 && t[2] == z
            &&& d == Direction::South ==> t[0] == x && t[2] == z + 1
            &&& d == Direction::North ==> t[0] == x && t[2] == z - 1
            &&& o.stepped(d).pushed(d, TILE_FX32).position == spec_from_tile(t[0], t[1], t[2])
        }),
{
    let x = o.current[0];
    let z = o.current[2];
    assert(x.wrapping_add(1i32) == x + 1) by (bit_vector)
        requires
            -0x7000 <= x <= 0x7000,
    ;
    assert(x.wrapping_add(-1i32) == x - 1) by (bit_vector)
        requires
            -0x7000 <= x <= 0x7000,
    ;
    assert(x.wrapping_add(0i32) == x) by (bit_vector);
    assert(z.wrapping_add(1i32) == z + 1) by (bit_vector)
        requires
            -0x7000 <= z <= 0x7000,
    ;
    assert(z.wrapping_add(-1i32) == z - 1) by (bit_vector)
        requires
            -0x7000 <= z <= 0x7000,
    ;
    assert(z.wrapping_add(0i32) == z) by (bit_vector);
    let px = o.position.x;
    let pz = o.position.z;
    assert(px == x * 65536 + 32768);
    assert(pz == z * 65536 + 32768);
    assert(-0x70000000 <= px <= 0x70010000) by (nonlinear_arith)
        requires
            px == x * 65536 + 32768,
            -0x7000 <= x <= 0x7000,
    ;
    assert(-0x70000000 <= pz <= 0x70010000) by (nonlinear_arith)
        requires
            pz == z * 65536 + 32768,
            -0x7000 <= z <= 0x7000,
    ;
    assert(px.wrapping_add(65536i32) == px + 65536 && px.wrapping_sub(65536i32) == px - 65536) by (bit_vector)
        requires
            -0x70000000 <= px <= 0x70010000,
    ;
    assert(pz.wrapping_add(65536i32) == pz + 65536 && pz.wrapping_sub(65536i32) == pz - 65536) by (bit_vector)
        requires
            -0x70000000 <= pz <= 0x70010000,
    ;
}

/// Every linear movement command covers exactly one tile: its speed
/// times its frame count is one tile (0x10000 fx32), both positive, and
/// it moves north, south, west or east as its value is 0, 1, 2 or 3
/// modulo 4.
pub proof fn lemma_linear_covers_one_tile(v: u8)
    ensures
        spec_linear(v) matches Some((d, speed, frames, _anim)) ==> {
            &&& speed > 0
            &&& frames > 0
            &&& speed * frames == 0x10000
            &&& v % 4 == 0 ==> d == Direction::North
            &&& v % 4 == 1 ==> d == Direction::South
            &&& v % 4 == 2 ==> d == Direction::West
            &&& v % 4 == 3 ==> d == Direction::East
        },
{
}

} // verus!

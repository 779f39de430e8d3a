//! Map events: each member is four count-prefixed arrays in order:
//!
//! ```text
//! u32 numBg;    BgEvent[numBg]       20 B: u16 scriptId, type; s32 x, z, y; u16 dir, pad
//! u32 numObj;   ObjectEvent[numObj]  32 B: u16 id, spriteId, movement, type, eventFlag,
//!                                          scriptId; s16 facingDirection; u16 param[3];
//!                                          s16 xRange, yRange; u16 x, z; s32 y
//! u32 numWarp;  WarpEvent[numWarp]   12 B: u16 x, z, header, anchor; u32 y
//! u32 numCoord; CoordEvent[numCoord] 16 B: u16 scriptId; s16 x, z; u16 w, h, y, val, var
//! ```
//!
//! The game reads a member into a 0x800-byte buffer; every retail member
//! fits.

use vstd::prelude::*;

use crate::nds::{NdsError, u16le, u32le, spec_u16le, spec_u32le};

verus! {

/// NitroFS path of the events archive.
pub const EVENTS_NARC: &'static str = "a/0/3/2";
/// Members in the retail archive.
pub const EVENTS_COUNT: usize = 491;
/// Bytes of a background event.
pub const BG_EVENT_SIZE: usize = 20;
/// Bytes of an object event.
pub const OBJECT_EVENT_SIZE: usize = 32;
/// Bytes of a warp event.
pub const WARP_EVENT_SIZE: usize = 12;
/// Bytes of a coordinate event.
pub const COORD_EVENT_SIZE: usize = 16;
/// The game's member buffer.
pub const MAX_BYTES: usize = 0x800;

/// A background (signpost, hidden item) event.
#[derive(Debug, Clone, Copy, PartialEq, Eq, Hash)]
pub struct BgEvent {
    /// The script.
    pub script_id: u16,
    /// The event type.
    pub kind: u16,
    /// Tile x.
    pub x: i32,
    /// Tile z.
    pub z: i32,
    /// Height.
    pub y: i32,
    /// The facing that triggers it.
    pub dir: u16,
}

/// A map object (NPC, item ball) event.
#[derive(Debug, Clone, Copy, PartialEq, Eq, Hash)]
pub struct ObjectEvent {
    /// The local object id.
    pub id: u16,
    /// The sprite.
    pub sprite_id: u16,
    /// The movement type.
    pub movement: u16,
    /// The object type.
    pub kind: u16,
    /// The flag hiding the object.
    pub event_flag: u16,
    /// The script.
    pub script_id: u16,
    /// The facing.
    pub facing_direction: i16,
    /// Three parameters.
    pub param: [u16; 3],
    /// The x range.
    pub x_range: i16,
    /// The y range.
    pub y_range: i16,
    /// Tile x.
    pub x: u16,
    /// Tile z.
    pub z: u16,
    /// Height.
    pub y: i32,
}

/// A warp (door, stairs, edge) event.
#[derive(Debug, Clone, Copy, PartialEq, Eq, Hash)]
pub struct WarpEvent {
    /// Tile x.
    pub x: u16,
    /// Tile z.
    pub z: u16,
    /// The destination map id.
    pub header: u16,
    /// The destination warp index.
    pub anchor: u16,
    /// Height.
    pub y: u32,
}

/// A coordinate-trigger event.
#[derive(Debug, Clone, Copy, PartialEq, Eq, Hash)]
pub struct CoordEvent {
    /// The script.
    pub script_id: u16,
    /// Tile x of the area's corner.
    pub x: i16,
    /// Tile z of the area's corner.
    pub z: i16,
    /// Width in tiles.
    pub w: u16,
    /// Depth in tiles.
    pub h: u16,
    /// Height.
    pub y: u16,
    /// The value `var` must hold.
    pub val: u16,
    /// The game variable checked.
    pub var: u16,
}

/// One member's events.
#[derive(Debug, Clone, PartialEq, Eq, Default)]
pub struct MapEvents {
    /// Background events.
    pub bg: Vec<BgEvent>,
    /// Object events.
    pub objects: Vec<ObjectEvent>,
    /// Warp events.
    pub warps: Vec<WarpEvent>,
    /// Coordinate events.
    pub coords: Vec<CoordEvent>,
}

/// The background event at `p`.
pub open spec fn spec_bg(b: Seq<u8>, p: int) -> BgEvent {
    BgEvent {
        script_id: spec_u16le(b, p),
        kind: spec_u16le(b, p + 2),
        x: spec_u32le(b, p + 4) as i32,
        z: spec_u32le(b, p + 8) as i32,
        y: spec_u32le(b, p + 12) as i32,
        dir: spec_u16le(b, p + 16),
    }
}

/// The object event at `p`.
pub open spec fn spec_object(b: Seq<u8>, p: int) -> ObjectEvent {
    ObjectEvent {
        id: spec_u16le(b, p),
        sprite_id: spec_u16le(b, p + 2),
        movement: spec_u16le(b, p + 4),
        kind: spec_u16le(b, p + 6),
        event_flag: spec_u16le(b, p + 8),
        script_id: spec_u16le(b, p + 10),
        facing_direction: spec_u16le(b, p + 12) as i16,
        param: [spec_u16le(b, p + 14), spec_u16le(b, p + 16), spec_u16le(b, p + 18)],
        x_range: spec_u16le(b, p + 20) as i16,
        y_range: spec_u16le(b, p + 22) as i16,
        x: spec_u16le(b, p + 24),
        z: spec_u16le(b, p + 26),
        y: spec_u32le(b, p + 28) as i32,
    }
}

/// The warp event at `p`.
pub open spec fn spec_warp(b: Seq<u8>, p: int) -> WarpEvent {
    WarpEvent {
        x: spec_u16le(b, p),
        z: spec_u16le(b, p + 2),
        header: spec_u16le(b, p + 4),
        anchor: spec_u16le(b, p + 6),
        y: spec_u32le(b, p + 8),
    }
}

/// The coordinate event at `p`.
pub open spec fn spec_coord(b: Seq<u8>, p: int) -> CoordEvent {
    CoordEvent {
        script_id: spec_u16le(b, p),
        x: spec_u16le(b, p + 2) as i16,
        z: spec_u16le(b, p + 4) as i16,
        w: spec_u16le(b, p + 6),
        h: spec_u16le(b, p + 8),
        y: spec_u16le(b, p + 10),
        val: spec_u16le(b, p + 12),
        var: spec_u16le(b, p + 14),
    }
}

/// Where array `k` (0 background, 1 objects, 2 warps, 3 coordinates)
/// of a member starts, its count first.
pub open spec fn events_at(b: Seq<u8>, k: int) -> int
    decreases k,
{
    if k <= 0 {
        0
    } else {
        events_at(b, k - 1) + 4 + spec_u32le(b, events_at(b, k - 1)) * event_size(k - 1)
    }
}

/// The element size of array `k`.
pub open spec fn event_size(k: int) -> int {
    if k == 0 {
        20
    } else if k == 1 {
        32
    } else if k == 2 {
        12
    } else {
        16
    }
}

/// The count of array `k`.
pub open spec fn event_count(b: Seq<u8>, k: int) -> int {
    spec_u32le(b, events_at(b, k)) as int
}

/// Whether a member parses: the four arrays, each after its count,
/// account for exactly its bytes.
pub open spec fn events_ok(b: Seq<u8>) -> bool {
    &&& events_at(b, 1) + 4 <= b.len()
    &&& events_at(b, 2) + 4 <= b.len()
    &&& events_at(b, 3) + 4 <= b.len()
    &&& events_at(b, 4) == b.len()
    &&& 4 <= b.len()
}

proof fn lemma_events_at_grows(b: Seq<u8>, k: int)
    requires
        0 <= k,
    ensures
        events_at(b, k) >= 0,
        events_at(b, k + 1) >= events_at(b, k) + 4,
    decreases k,
{
    reveal_with_fuel(events_at, 2);
    if k > 0 {
        lemma_events_at_grows(b, k - 1);
    }
    assert(spec_u32le(b, events_at(b, k)) * event_size(k) >= 0) by (nonlinear_arith)
        requires
            event_size(k) >= 0,
    ;
}

fn read_count(bytes: &[u8], p: usize) -> (res: Result<(usize, usize), NdsError>)
    ensures
        p + 4 <= bytes@.len() ==> (res matches Ok((n, q)) && n == spec_u32le(bytes@, p as int)
            && q == p + 4),
        p + 4 > bytes@.len() ==> res is Err,
{
    let len = bytes.len();
    let n = u32le(bytes, p)?;
    Ok((n as usize, p + 4))
}

fn check_room(bytes: &[u8], p: usize, n: usize, size: usize) -> (res: Result<(), NdsError>)
    requires
        1 <= size <= 32,
    ensures
        res is Ok <==> p + n * size <= bytes@.len(),
{
    if p > bytes.len() || n > (bytes.len() - p) / size {
        proof {
            if p <= bytes@.len() {
                assert(n * size > bytes@.len() - p) by (nonlinear_arith)
                    requires
                        n > (bytes@.len() - p) / (size as int),
                        size >= 1,
                        bytes@.len() - p >= 0,
                ;
            }
        }
        return Err(
            NdsError::Truncated {
                what: "map events",
                need: bytes.len().saturating_add(1),
                got: bytes.len(),
            },
        );
    }
    proof {
        assert(n * size <= bytes@.len() - p) by (nonlinear_arith)
            requires
                n <= (bytes@.len() - p) / (size as int),
                size >= 1,
        ;
    }
    Ok(())
}

proof fn lemma_room(len: int, p: int, n: int, size: int, i: int)
    requires
        p + n * size <= len,
        0 <= i < n,
        size >= 1,
        p >= 0,
    ensures
        p + i * size + size <= len,
{
    assert(i * size + size <= n * size) by (nonlinear_arith)
        requires
            i < n,
            size >= 1,
    ;
}

impl MapEvents {
    /// Decodes a member. Fails when a count overruns the member or
    /// bytes remain after the last array.
    pub fn parse(bytes: &[u8]) -> (res: Result<Self, NdsError>)
        ensures
            res is Ok <==> events_ok(bytes@),
            res matches Ok(e) ==> {
                let b = bytes@;
                &&& e.bg@.len() == event_count(b, 0)
                &&& e.objects@.len() == event_count(b, 1)
                &&& e.warps@.len() == event_count(b, 2)
                &&& e.coords@.len() == event_count(b, 3)
                &&& forall|i: int|
                    0 <= i < e.bg@.len() ==> #[trigger] e.bg@[i] == spec_bg(
                        b,
                        events_at(b, 0) + 4 + 20 * i,
                    )
                &&& forall|i: int|
                    0 <= i < e.objects@.len() ==> #[trigger] e.objects@[i] == spec_object(
                        b,
                        events_at(b, 1) + 4 + 32 * i,
                    )
                &&& forall|i: int|
                    0 <= i < e.warps@.len() ==> #[trigger] e.warps@[i] == spec_warp(
                        b,
                        events_at(b, 2) + 4 + 12 * i,
                    )
                &&& forall|i: int|
                    0 <= i < e.coords@.len() ==> #[trigger] e.coords@[i] == spec_coord(
                        b,
                        events_at(b, 3) + 4 + 16 * i,
                    )
            },
    {
        let ghost b = bytes@;
        proof {
            reveal_with_fuel(events_at, 5);
            lemma_events_at_grows(b, 0);
            lemma_events_at_grows(b, 1);
            lemma_events_at_grows(b, 2);
            lemma_events_at_grows(b, 3);
        }
        let len = bytes.len();
        let (n, mut p) = read_count(bytes, 0)?;
        check_room(bytes, p, n, BG_EVENT_SIZE)?;
        let mut bg: Vec<BgEvent> = Vec::new();
        let start = p;
        let mut i: usize = 0;
        while i < n
            invariant
                i <= n,
                len == bytes@.len(),
                start + n * 20 <= len,
                p == start + 20 * i,
                bg@.len() == i,
                forall|j: int| 0 <= j < i ==> #[trigger] bg@[j] == spec_bg(bytes@, start + 20 * j),
            decreases n - i,
        {
            proof {
                lemma_room(len as int, start as int, n as int, 20, i as int);
            }
            let e = BgEvent {
                script_id: u16le(bytes, p)?,
                kind: u16le(bytes, p + 2)?,
                x: u32le(bytes, p + 4)? as i32,
                z: u32le(bytes, p + 8)? as i32,
                y: u32le(bytes, p + 12)? as i32,
                dir: u16le(bytes, p + 16)?,
            };
            bg.push(e);
            p = p + BG_EVENT_SIZE;
            i = i + 1;
        }
        let (n, q) = read_count(bytes, p)?;
        p = q;
        check_room(bytes, p, n, OBJECT_EVENT_SIZE)?;
        let mut objects: Vec<ObjectEvent> = Vec::new();
        let start = p;
        let mut i: usize = 0;
        while i < n
            invariant
                i <= n,
                len == bytes@.len(),
                start + n * 32 <= len,
                p == start + 32 * i,
                objects@.len() == i,
                forall|j: int|
                    0 <= j < i ==> #[trigger] objects@[j] == spec_object(bytes@, start + 32 * j),
            decreases n - i,
        {
            proof {
                lemma_room(len as int, start as int, n as int, 32, i as int);
            }
            let param = [u16le(bytes, p + 14)?, u16le(bytes, p + 16)?, u16le(bytes, p + 18)?];
            let e = ObjectEvent {
                id: u16le(bytes, p)?,
                sprite_id: u16le(bytes, p + 2)?,
                movement: u16le(bytes, p + 4)?,
                kind: u16le(bytes, p + 6)?,
                event_flag: u16le(bytes, p + 8)?,
                script_id: u16le(bytes, p + 10)?,
                facing_direction: u16le(bytes, p + 12)? as i16,
                param,
                x_range: u16le(bytes, p + 20)? as i16,
                y_range: u16le(bytes, p + 22)? as i16,
                x: u16le(bytes, p + 24)?,
                z: u16le(bytes, p + 26)?,
                y: u32le(bytes, p + 28)? as i32,
            };
            proof {
                assert(e.param@ =~= spec_object(bytes@, p as int).param@);
                assert(e.param == spec_object(bytes@, p as int).param);
            }
            objects.push(e);
            p = p + OBJECT_EVENT_SIZE;
            i = i + 1;
        }
        let (n, q) = read_count(bytes, p)?;
        p = q;
        check_room(bytes, p, n, WARP_EVENT_SIZE)?;
        let mut warps: Vec<WarpEvent> = Vec::new();
        let start = p;
        let mut i: usize = 0;
        while i < n
            invariant
                i <= n,
                len == bytes@.len(),
                start + n * 12 <= len,
                p == start + 12 * i,
                warps@.len() == i,
                forall|j: int| 0 <= j < i ==> #[trigger] warps@[j] == spec_warp(bytes@, start + 12 * j),
            decreases n - i,
        {
            proof {
                lemma_room(len as int, start as int, n as int, 12, i as int);
            }
            let e = WarpEvent {
                x: u16le(bytes, p)?,
                z: u16le(bytes, p + 2)?,
                header: u16le(bytes, p + 4)?,
                anchor: u16le(bytes, p + 6)?,
                y: u32le(bytes, p + 8)?,
            };
            warps.push(e);
            p = p + WARP_EVENT_SIZE;
            i = i + 1;
        }
        let (n, q) = read_count(bytes, p)?;
        p = q;
        check_room(bytes, p, n, COORD_EVENT_SIZE)?;
        let mut coords: Vec<CoordEvent> = Vec::new();
        let start = p;
        let mut i: usize = 0;
        while i < n
            invariant
                i <= n,
                len == bytes@.len(),
                start + n * 16 <= len,
                p == start + 16 * i,
                coords@.len() == i,
                forall|j: int| 0 <= j < i ==> #[trigger] coords@[j] == spec_coord(bytes@, start + 16 * j),
            decreases n - i,
        {
            proof {
                lemma_room(len as int, start as int, n as int, 16, i as int);
            }
            let e = CoordEvent {
                script_id: u16le(bytes, p)?,
                x: u16le(bytes, p + 2)? as i16,
                z: u16le(bytes, p + 4)? as i16,
                w: u16le(bytes, p + 6)?,
                h: u16le(bytes, p + 8)?,
                y: u16le(bytes, p + 10)?,
                val: u16le(bytes, p + 12)?,
                var: u16le(bytes, p + 14)?,
            };
            coords.push(e);
            p = p + COORD_EVENT_SIZE;
            i = i + 1;
        }
        if p != bytes.len() {
            return Err(NdsError::Invalid { what: "map events length" });
        }
        Ok(MapEvents { bg, objects, warps, coords })
    }

    /// The first warp on tile `(x, z)`.
    pub fn warp_at(&self, x: u16, z: u16) -> (res: Option<usize>)
        ensures
            match res {
                Some(i) => i < self.warps@.len() && self.warps@[i as int].x == x
                    && self.warps@[i as int].z == z && forall|j: int|
                    0 <= j < i ==> !(#[trigger] self.warps@[j].x == x && self.warps@[j].z == z),
                None => forall|j: int|
                    0 <= j < self.warps@.len() ==> !(#[trigger] self.warps@[j].x == x
                        && self.warps@[j].z == z),
            },
    {
        let mut i: usize = 0;
        while i < self.warps.len()
            invariant
                i <= self.warps@.len(),
                forall|j: int|
                    0 <= j < i ==> !(#[trigger] self.warps@[j].x == x && self.warps@[j].z == z),
            decreases self.warps@.len() - i,
        {
            if self.warps[i].x == x && self.warps[i].z == z {
                return Some(i);
            }
            i = i + 1;
        }
        None
    }
}

} // verus!

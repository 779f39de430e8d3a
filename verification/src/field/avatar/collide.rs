//! The bits of the avatar's collision check.

use vstd::prelude::*;

verus! {

/// The way is blocked (terrain, map edge, object, range).
pub const BLOCKED: u32 = 0x1;
/// Another object stands there.
pub const OBJECT: u32 = 0x2;
/// The target is a ledge to hop.
pub const LEDGE: u32 = 0x4;
/// Blocked by a warp entrance or a door.
pub const DOOR: u32 = 0x8;
/// The target is water.
pub const WATER: u32 = 0x20;

} // verus!

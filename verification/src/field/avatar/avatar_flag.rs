//! The player avatar's flag bits.

use vstd::prelude::*;

verus! {

/// Movement is forced by the terrain.
pub const FORCED_MOVEMENT: u32 = 0x1;
/// Set at creation, cleared after the first completed step; gates
/// forced-movement checks.
pub const UNK1: u32 = 0x2;
/// The bike gear latch.
pub const UNK2: u32 = 0x4;
/// The bike state is locked.
pub const LOCK_BIKE_STATE: u32 = 0x8;
/// Unnamed flag 4.
pub const UNK4: u32 = 0x10;
/// Unnamed flag 5.
pub const UNK5: u32 = 0x20;
/// A step was issued this frame.
pub const UNK6: u32 = 0x40;
/// Unnamed flag 7.
pub const UNK7: u32 = 0x80;

} // verus!

//! Map-object flag bits.

use vstd::prelude::*;

verus! {

/// The object is live.
pub const ACTIVE: u32 = 0x1;
/// A single movement is in flight.
pub const SINGLE_MOVEMENT: u32 = 0x2;
/// A movement started this tick.
pub const START_MOVEMENT: u32 = 0x4;
/// A movement ended this tick.
pub const END_MOVEMENT: u32 = 0x8;
/// A held (scripted or player) movement command is set.
pub const HELD_MOVEMENT: u32 = 0x10;
/// The held movement command has finished.
pub const HELD_MOVEMENT_DONE: u32 = 0x20;
/// Movement is paused.
pub const MOVEMENT_PAUSED: u32 = 0x40;
/// The facing direction cannot change.
pub const FACING_LOCKED: u32 = 0x80;
/// Unnamed flag 8.
pub const UNK8: u32 = 0x100;
/// The object is drawn.
pub const VISIBLE: u32 = 0x200;
/// The object survives map transitions.
pub const KEEP: u32 = 0x400;
/// The tile behaviors need a refresh.
pub const BEHAVIOR_STALE: u32 = 0x800;
/// The height needs a refresh.
pub const HEIGHT_STALE: u32 = 0x1000;
/// Unnamed flag 13.
pub const UNK13: u32 = 0x2000;
/// Unnamed flag 14.
pub const UNK14: u32 = 0x4000;
/// Unnamed flag 16.
pub const UNK16: u32 = 0x10000;
/// Unnamed flag 17.
pub const UNK17: u32 = 0x20000;
/// The object ignores terrain heights.
pub const IGNORE_HEIGHTS: u32 = 0x800000;
/// Unnamed flag 29.
pub const UNK29: u32 = 0x20000000;
/// Unnamed flag 30.
pub const UNK30: u32 = 0x40000000;

} // verus!

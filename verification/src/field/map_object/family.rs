//! Movement-command families: the North member of each four-direction
//! row of commands.

use vstd::prelude::*;

verus! {

/// Face a direction.
pub const FACE: u8 = 0;
/// Walk, slowest.
pub const WALK_SLOWEST: u8 = 4;
/// Walk, slower.
pub const WALK_SLOWER: u8 = 8;
/// Walk, normal speed.
pub const WALK_NORMAL: u8 = 12;
/// Walk, faster.
pub const WALK_FASTER: u8 = 16;
/// Walk, fastest.
pub const WALK_FASTEST: u8 = 20;
/// Walk on the spot, slowest.
pub const WALK_ON_SPOT_SLOWEST: u8 = 24;
/// Walk on the spot, slower (the bump).
pub const WALK_ON_SPOT_SLOWER: u8 = 28;
/// Walk on the spot, normal.
pub const WALK_ON_SPOT_NORMAL: u8 = 32;
/// Walk on the spot, faster.
pub const WALK_ON_SPOT_FASTER: u8 = 36;
/// Walk on the spot, fastest (the turn).
pub const WALK_ON_SPOT_FASTEST: u8 = 40;
/// Jump on the spot.
pub const JUMP_ON_SPOT: u8 = 44;
/// Jump one tile.
pub const JUMP_1: u8 = 48;
/// Jump one tile (alternate).
pub const JUMP_1_ALT: u8 = 52;
/// Jump two tiles (ledges).
pub const JUMP_2: u8 = 56;
/// Command row 76.
pub const CMD_076: u8 = 76;
/// Command row 80.
pub const CMD_080: u8 = 80;
/// Move a tile instantly.
pub const WALK_INSTANT: u8 = 84;
/// Run.
pub const RUN: u8 = 88;
/// Command row 92.
pub const CMD_092: u8 = 92;
/// Command row 96.
pub const CMD_096: u8 = 96;

} // verus!

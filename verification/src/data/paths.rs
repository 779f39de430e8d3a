//! Paths of the data tables in the game's filesystem.

use vstd::prelude::*;

verus! {

/// Base stats.
pub const PERSONAL: &'static str = "a/0/0/2";

/// Experience curves.
pub const GROWTBL: &'static str = "a/0/0/3";

/// Moves.
pub const WAZA: &'static str = "a/0/1/1";

/// Items.
pub const ITEM_DATA: &'static str = "a/0/1/7";

/// Level-up learnsets.
pub const WOTBL: &'static str = "a/0/3/3";

/// Evolutions.
pub const EVO: &'static str = "a/0/3/4";

/// The egg-species map: a raw file of 508 little-endian `u16`s.
pub const PMS: &'static str = "poketool/personal/pms.narc";

} // verus!

//! Field pocket ids: the raw `fieldPocket` nibble values of the item bitfield word.

use vstd::prelude::*;

verus! {

/// Items that live in the generic "Items" pocket.
pub const ITEMS: u8 = 0;
/// Healing items pocket.
pub const MEDICINE: u8 = 1;
/// Poké Ball pocket.
pub const BALLS: u8 = 2;
/// TM/HM pocket.
pub const TMHMS: u8 = 3;
/// Berry pocket.
pub const BERRIES: u8 = 4;
/// Mail pocket.
pub const MAIL: u8 = 5;
/// Battle items pocket.
pub const BATTLE_ITEMS: u8 = 6;
/// Key items pocket.
pub const KEY_ITEMS: u8 = 7;

} // verus!

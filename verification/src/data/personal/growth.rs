//! Experience growth-curve ids; each names one growth-curve table member.

use vstd::prelude::*;

verus! {

/// Medium-fast: n³.
pub const MEDIUM_FAST: u8 = 0;
/// Erratic.
pub const ERRATIC: u8 = 1;
/// Fluctuating.
pub const FLUCTUATING: u8 = 2;
/// Medium-slow.
pub const MEDIUM_SLOW: u8 = 3;
/// Fast: 4n³/5.
pub const FAST: u8 = 4;
/// Slow: 5n³/4.
pub const SLOW: u8 = 5;
/// Unused curve slot 6.
pub const UNUSED_6: u8 = 6;
/// Unused curve slot 7.
pub const UNUSED_7: u8 = 7;

} // verus!

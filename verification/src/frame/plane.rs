//! The blend plane mask bits: `BLDCNT` bits 0–5 (first target) and
//! 8–13 (second target).

use vstd::prelude::*;

verus! {

/// Engine BG0.
pub const BG0: u8 = 0x01;
/// Engine BG1.
pub const BG1: u8 = 0x02;
/// Engine BG2.
pub const BG2: u8 = 0x04;
/// Engine BG3.
pub const BG3: u8 = 0x08;
/// The OBJ (sprite) plane.
pub const OBJ: u8 = 0x10;
/// The backdrop.
pub const BD: u8 = 0x20;

} // verus!

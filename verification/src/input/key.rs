//! The button mask bits, `REG_KEYXY` layout (bit set = held).

use vstd::prelude::*;

verus! {

/// A.
pub const A: u16 = 0x1;
/// B.
pub const B: u16 = 0x2;
/// SELECT.
pub const SELECT: u16 = 0x4;
/// START.
pub const START: u16 = 0x8;
/// RIGHT.
pub const RIGHT: u16 = 0x10;
/// LEFT.
pub const LEFT: u16 = 0x20;
/// UP.
pub const UP: u16 = 0x40;
/// DOWN.
pub const DOWN: u16 = 0x80;
/// R shoulder.
pub const R: u16 = 0x100;
/// L shoulder.
pub const L: u16 = 0x200;
/// X.
pub const X: u16 = 0x400;
/// Y.
pub const Y: u16 = 0x800;

} // verus!

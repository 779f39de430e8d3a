//! Input: the button and stylus state one tick consumes. Convention
//! throughout the engine: bit set = held.

use vstd::prelude::*;

pub mod key;

verus! {

/// The buttons held: one bit per `REG_KEYXY` key, bit set = held.
#[derive(Debug, Clone, Copy, PartialEq, Eq, Default, Hash)]
pub struct Keys(pub u16);

impl Keys {
    /// No buttons held.
    pub fn idle() -> (res: Self)
        ensures
            res.0 == 0,
    {
        Keys(0)
    }

    /// Whether every button in `mask` (a `key::*` bit set) is held.
    pub fn down(self, mask: u16) -> (res: bool)
        ensures
            res == (self.0 & mask == mask),
    {
        self.0 & mask == mask
    }

    /// Whether any button in `mask` is held.
    pub fn any(self, mask: u16) -> (res: bool)
        ensures
            res == (self.0 & mask != 0),
    {
        self.0 & mask != 0
    }

    /// The buttons newly held this tick versus `prev`.
    pub fn pressed(self, prev: Self) -> (res: Self)
        ensures
            res.0 == self.0 & !prev.0,
    {
        Keys(self.0 & !prev.0)
    }
}

/// Stylus contact on the touch LCD: raw coordinates, 0–255 per axis.
#[derive(Debug, Clone, Copy, PartialEq, Eq, Hash)]
pub struct Touch {
    /// X coordinate, 0–255 (left = 0).
    pub x: u16,
    /// Y coordinate, 0–255 (top = 0).
    pub y: u16,
}

/// One tick's complete input: the buttons and the stylus, if down.
#[derive(Debug, Clone, Copy, PartialEq, Eq, Default)]
pub struct Input {
    /// Buttons held this tick.
    pub keys: Keys,
    /// Stylus contact, `None` when up.
    pub touch: Option<Touch>,
}

/// A key set is pressed against itself in nothing, and what is pressed
/// against any earlier set is held now and was not held then.
pub proof fn lemma_press_edge(now: Keys, prev: Keys, mask: u16)
    ensures
        now.0 & !now.0 == 0,
        (now.0 & !prev.0) & mask != 0 ==> now.0 & mask != 0,
        (now.0 & !prev.0) & prev.0 == 0,
{
    let a = now.0;
    let b = prev.0;
    assert(a & !a == 0) by (bit_vector);
    assert((a & !b) & mask != 0 ==> a & mask != 0) by (bit_vector);
    assert((a & !b) & b == 0) by (bit_vector);
}

} // verus!

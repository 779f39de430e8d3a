//! Decoders and rules for the data of a Nintendo DS game image: the
//! Nitro containers, the game-data tables, the field map layer and the
//! field movement state machines.

pub mod nds;
pub mod assets;
pub mod rtc;
pub mod formats;
pub mod data;
pub mod input;
pub mod frame;
pub mod font;
pub mod field;

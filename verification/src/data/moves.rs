//! Move data: the 16-byte rows of the `waza` table (`a/0/1/1`).

use vstd::prelude::*;
use crate::nds::{NdsError, spec_u16le, u16le};
use super::exact;

verus! {

/// A move's damage class, the `category` byte of each row.
#[derive(Debug, Clone, Copy, PartialEq, Eq, Structural)]
pub enum MoveCategory {
    /// Physical: contact damage from the attacker's Attack.
    Physical,
    /// Special: damage from the attacker's Special Attack.
    Special,
    /// Status: no damage, effect only.
    Status,
}

/// Bytes in one move row.
pub const MOVE_SIZE: usize = 16;

/// One move row, exactly as the table stores it.
#[derive(Debug, Clone, Copy, PartialEq, Eq)]
pub struct MoveEntry {
    /// The effect id the battle engine runs.
    pub effect: u16,
    /// The damage class.
    pub category: MoveCategory,
    /// Base power.
    pub power: u8,
    /// Type id (0 = Normal … 17 = Dark).
    pub type_: u8,
    /// Accuracy percent (0 means the effect decides).
    pub accuracy: u8,
    /// Base power points.
    pub pp: u8,
    /// The secondary-effect chance percent.
    pub effect_chance: u8,
    /// The move's target selector.
    pub range: u16,
    /// Turn priority bracket (-7…+7).
    pub priority: i8,
    /// Byte 0x0B, unconsumed.
    pub unk_0b: u8,
    /// Byte 0x0C, unconsumed.
    pub unk_0c: u8,
    /// Contest appeal type.
    pub contest_type: u8,
    /// Bytes 0x0E-0x0F, unconsumed.
    pub unk_0e: u16,
}

/// The category a category byte names, if any.
pub open spec fn spec_category(b: u8) -> Option<MoveCategory> {
    if b == 0 {
        Some(MoveCategory::Physical)
    } else if b == 1 {
        Some(MoveCategory::Special)
    } else if b == 2 {
        Some(MoveCategory::Status)
    } else {
        None
    }
}

impl MoveEntry {
    /// Parses one `waza` member; fails when it is not exactly 16 bytes or
    /// the category byte is not 0–2.
    pub fn parse(data: &[u8]) -> (res: Result<Self, NdsError>)
        ensures
            res is Ok <==> data@.len() == MOVE_SIZE && data@[2] <= 2,
            res matches Ok(m) ==> {
                &&& m.effect == spec_u16le(data@, 0)
                &&& spec_category(data@[2]) == Some(m.category)
                &&& m.power == data@[3]
                &&& m.type_ == data@[4]
                &&& m.accuracy == data@[5]
                &&& m.pp == data@[6]
                &&& m.effect_chance == data@[7]
                &&& m.range == spec_u16le(data@, 8)
                &&& m.priority == data@[0x0A] as i8
                &&& m.unk_0b == data@[0x0B]
                &&& m.unk_0c == data@[0x0C]
                &&& m.contest_type == data@[0x0D]
                &&& m.unk_0e == spec_u16le(data@, 0x0E)
            },
    {
        exact(data, MOVE_SIZE, "move entry")?;
        let category = if data[2] == 0 {
            MoveCategory::Physical
        } else if data[2] == 1 {
            MoveCategory::Special
        } else if data[2] == 2 {
            MoveCategory::Status
        } else {
            return Err(NdsError::Invalid { what: "move entry's damage category is not 0-2" });
        };
        Ok(
            MoveEntry {
                effect: u16le(data, 0)?,
                category,
                power: data[3],
                type_: data[4],
                accuracy: data[5],
                pp: data[6],
                effect_chance: data[7],
                range: u16le(data, 8)?,
                priority: data[0x0A] as i8,
                unk_0b: data[0x0B],
                unk_0c: data[0x0C],
                contest_type: data[0x0D],
                unk_0e: u16le(data, 0x0E)?,
            },
        )
    }
}

} // verus!

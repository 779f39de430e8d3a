//! Item data: the 34-byte rows of `item_data` (`a/0/1/7`).

use vstd::prelude::*;
use crate::nds::{NdsError, spec_u16le, u16le};
use super::exact;

pub mod pocket;

verus! {

/// The `naturalGiftType` value marking "this item grants no Natural
/// Gift" (31 is past the last real type id, 17).
pub const NO_NATURAL_GIFT: u8 = 31;

/// Bytes in one item row.
pub const ITEM_SIZE: usize = 34;

/// One item row, as the 34 bytes of the table lay it out. The 20
/// `partyParam` bytes stay raw; their meaning is per use-function.
#[derive(Debug, Clone, Copy, PartialEq, Eq)]
pub struct ItemEntry {
    /// Buy price (0 for unsellable/unbuyable).
    pub price: u16,
    /// Held-item effect id.
    pub hold_effect: u8,
    /// Parameter for the held effect.
    pub hold_effect_param: u8,
    /// Pluck effect id.
    pub pluck_effect: u8,
    /// Fling effect id.
    pub fling_effect: u8,
    /// Fling base power.
    pub fling_power: u8,
    /// Natural Gift base power.
    pub natural_gift_power: u8,
    /// Natural Gift type, a type id or [`NO_NATURAL_GIFT`].
    pub natural_gift_type: u8,
    /// Whether the item cannot be tossed.
    pub prevent_toss: bool,
    /// Whether the item can be selected.
    pub selectable: bool,
    /// The bag pocket the item lives in, a [`pocket`] id.
    pub field_pocket: u8,
    /// The battle bag pocket the item lives in.
    pub battle_pocket: u8,
    /// Field use-function id (0 = unusable in the field).
    pub field_use_func: u8,
    /// Battle use-function id (0 = unusable in battle).
    pub battle_use_func: u8,
    /// Party-menu use function id.
    pub party_use: u8,
    /// The raw 20-byte `ItemPartyParam` union.
    pub party_param: [u8; 20],
}

/// Whether `s` is a well-formed item row: exactly 34 bytes with a zero
/// pad byte at 0x0D.
pub open spec fn item_row_ok(s: Seq<u8>) -> bool {
    s.len() == ITEM_SIZE && s[0x0D] == 0
}

/// The item that a well-formed row `s` decodes to.
pub open spec fn item_fields(s: Seq<u8>, e: ItemEntry) -> bool {
    let bits = spec_u16le(s, 8);
    &&& e.price == spec_u16le(s, 0)
    &&& e.hold_effect == s[2]
    &&& e.hold_effect_param == s[3]
    &&& e.pluck_effect == s[4]
    &&& e.fling_effect == s[5]
    &&& e.fling_power == s[6]
    &&& e.natural_gift_power == s[7]
    &&& e.natural_gift_type == (bits & 0x1F) as u8
    &&& e.prevent_toss == ((bits >> 5u16) & 1 != 0)
    &&& e.selectable == ((bits >> 6u16) & 1 != 0)
    &&& e.field_pocket == ((bits >> 7u16) & 0xF) as u8
    &&& e.battle_pocket == ((bits >> 11u16) & 0x1F) as u8
    &&& e.field_use_func == s[0x0A]
    &&& e.battle_use_func == s[0x0B]
    &&& e.party_use == s[0x0C]
    &&& e.party_param@ == s.subrange(0x0E, 0x22)
}

impl ItemEntry {
    /// Parses one `item_data` member; fails when it is not exactly 34
    /// bytes or its 0x0D pad byte is not zero.
    pub fn parse(data: &[u8]) -> (res: Result<Self, NdsError>)
        ensures
            res is Ok <==> item_row_ok(data@),
            res matches Ok(e) ==> item_fields(data@, e),
    {
        exact(data, ITEM_SIZE, "item entry")?;
        if data[0x0D] != 0 {
            return Err(NdsError::Invalid { what: "item entry's padding byte at 0x0D is not zero" });
        }
        let bits = u16le(data, 0x08)?;
        let mut party_param = [0u8; 20];
        let mut i: usize = 0;
        while i < 20
            invariant
                data@.len() == ITEM_SIZE,
                i <= 20,
                forall|k: int| 0 <= k < i ==> party_param@[k] == data@[0x0E + k],
            decreases 20 - i,
        {
            party_param[i] = data[0x0E + i];
            i += 1;
        }
        assert(party_param@ =~= data@.subrange(0x0E, 0x22));
        Ok(
            ItemEntry {
                price: u16le(data, 0)?,
                hold_effect: data[0x02],
                hold_effect_param: data[0x03],
                pluck_effect: data[0x04],
                fling_effect: data[0x05],
                fling_power: data[0x06],
                natural_gift_power: data[0x07],
                natural_gift_type: (bits & 0x1F) as u8,
                prevent_toss: (bits >> 5u16) & 1 != 0,
                selectable: (bits >> 6u16) & 1 != 0,
                field_pocket: ((bits >> 7u16) & 0xF) as u8,
                battle_pocket: ((bits >> 11u16) & 0x1F) as u8,
                field_use_func: data[0x0A],
                battle_use_func: data[0x0B],
                party_use: data[0x0C],
                party_param,
            },
        )
    }
}

/// The flag word at 0x08 of an item row, `w = s[8] + 256 s[9]`, packs
/// its fields from the low bit up: the natural-gift type in bits 0-4,
/// prevent-toss in bit 5, selectable in bit 6, the field pocket in bits
/// 7-10 and the battle pocket in bits 11-15.
pub proof fn lemma_item_flag_word(s: Seq<u8>, e: ItemEntry)
    requires
        s.len() == ITEM_SIZE,
        item_fields(s, e),
    ensures
        ({
            let w = s[8] as int + 256 * s[9] as int;
            &&& e.natural_gift_type as int == w % 32
            &&& e.prevent_toss == ((w / 32) % 2 == 1)
            &&& e.selectable == ((w / 64) % 2 == 1)
            &&& e.field_pocket as int == (w / 128) % 16
            &&& e.battle_pocket as int == w / 2048
        }),
{
    let bits = spec_u16le(s, 8);
    assert(bits as int == s[8] as int + 256 * s[9] as int);
    assert(((bits & 0x1F) as u8) as int == bits % 32 && (((bits >> 5u16) & 1 != 0) == ((bits / 32) % 2 == 1))
        && (((bits >> 6u16) & 1 != 0) == ((bits / 64) % 2 == 1)) && (((bits >> 7u16) & 0xF) as u8) as int
        == (bits / 128) % 16 && (((bits >> 11u16) & 0x1F) as u8) as int == bits / 2048) by (bit_vector);
}

/// The other fields of an item row sit at fixed bytes: the price as a
/// little-endian `u16` at 0, one byte each for the hold effect and its
/// parameter, the pluck and fling effects, the fling power, the natural
/// gift power, the field and battle use functions and the party use flag
/// (bytes 2 to 7 and 0x0A to 0x0C), and the party parameters in bytes
/// 0x0E to 0x21.
pub proof fn lemma_item_bytes(s: Seq<u8>, e: ItemEntry)
    requires
        s.len() == ITEM_SIZE,
        item_fields(s, e),
    ensures
        e.price as int == s[0] as int + 256 * s[1] as int,
        e.hold_effect == s[2],
        e.hold_effect_param == s[3],
        e.pluck_effect == s[4],
        e.fling_effect == s[5],
        e.fling_power == s[6],
        e.natural_gift_power == s[7],
        e.field_use_func == s[10],
        e.battle_use_func == s[11],
        e.party_use == s[12],
        e.party_param@.len() == 20,
        forall|i: int| 0 <= i < 20 ==> #[trigger] e.party_param@[i] == s[14 + i],
{
    assert(spec_u16le(s, 0) as int == s[0] as int + 256 * s[1] as int);
}

} // verus!

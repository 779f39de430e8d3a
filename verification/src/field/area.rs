//! Area data: 8-byte records `u16 buildingSet; u16 mapTexture;
//! u16 unknown; u8 outdoor; u8 lightSelector`.
//!
//! `buildingSet` names the building-set id list (`u16 count; u16
//! ids[]`) and the building textures; `mapTexture` the map textures.
//! Byte 6 selects the prop model archive and its animation lists:
//! non-zero is outdoor, zero indoor.

use vstd::prelude::*;

use crate::nds::{NdsError, u16le, spec_u16le};

verus! {

/// NitroFS path of the area-data archive.
pub const AREA_NARC: &'static str = "a/0/4/2";
/// Members in the retail archive.
pub const AREA_COUNT: usize = 106;
/// Bytes per record.
pub const RECORD_SIZE: usize = 8;
/// Building-set id lists, by building set.
pub const BUILDING_SET_NARC: &'static str = "a/0/4/3";
/// Map (land model) textures, by map texture.
pub const MAP_TEXTURE_NARC: &'static str = "a/0/4/4";
/// Building (prop) textures, by building set.
pub const BUILDING_TEXTURE_NARC: &'static str = "a/0/7/0";
/// Outdoor prop models.
pub const BM_FIELD_NARC: &'static str = "a/0/4/0";
/// Indoor prop models.
pub const BM_ROOM_NARC: &'static str = "a/1/4/8";
/// Outdoor prop animation lists.
pub const BM_FIELD_ANIM_NARC: &'static str = "a/1/0/7";
/// Indoor prop animation lists.
pub const BM_ROOM_ANIM_NARC: &'static str = "a/1/0/8";

/// One area-data record.
#[derive(Debug, Clone, Copy, PartialEq, Eq, Hash)]
pub struct AreaData {
    /// The member index.
    pub bank: u8,
    /// The building set.
    pub building_set: u16,
    /// The map texture set.
    pub map_texture: u16,
    /// The third word (0xFFFF on the bedroom's area 25).
    pub unknown: u16,
    /// Byte 6 as stored: non-zero selects the outdoor archives.
    pub outdoor: u8,
    /// The light selector.
    pub light_selector: u8,
}

impl AreaData {
    /// Decodes record `bank`; fails when the record is shorter than 8
    /// bytes.
    pub fn parse(bank: u8, record: &[u8]) -> (res: Result<Self, NdsError>)
        ensures
            res is Ok <==> record@.len() >= RECORD_SIZE,
            res matches Ok(a) ==> a == (AreaData {
                bank,
                building_set: spec_u16le(record@, 0),
                map_texture: spec_u16le(record@, 2),
                unknown: spec_u16le(record@, 4),
                outdoor: record@[6],
                light_selector: record@[7],
            }),
    {
        if record.len() < RECORD_SIZE {
            return Err(NdsError::Truncated { what: "area data", need: RECORD_SIZE, got: record.len() });
        }
        Ok(AreaData {
            bank,
            building_set: u16le(record, 0)?,
            map_texture: u16le(record, 2)?,
            unknown: u16le(record, 4)?,
            outdoor: record[6],
            light_selector: record[7],
        })
    }

    /// Whether the area uses the outdoor archives.
    pub fn is_outdoor(&self) -> (res: bool)
        ensures
            res == (self.outdoor != 0),
    {
        self.outdoor != 0
    }

    /// The prop model archive this area's placements index.
    pub fn prop_model_narc(&self) -> (res: &'static str)
        ensures
            res@ == if self.outdoor != 0 {
                BM_FIELD_NARC@
            } else {
                BM_ROOM_NARC@
            },
    {
        if self.is_outdoor() {
            BM_FIELD_NARC
        } else {
            BM_ROOM_NARC
        }
    }

    /// The prop animation-list archive paired with
    /// [`Self::prop_model_narc`].
    pub fn prop_animation_narc(&self) -> (res: &'static str)
        ensures
            res@ == if self.outdoor != 0 {
                BM_FIELD_ANIM_NARC@
            } else {
                BM_ROOM_ANIM_NARC@
            },
    {
        if self.is_outdoor() {
            BM_FIELD_ANIM_NARC
        } else {
            BM_ROOM_ANIM_NARC
        }
    }
}

/// Decodes a building-set id list (`u16 count; u16 ids[count]`); fails
/// when the count overruns the list.
pub fn parse_building_ids(bytes: &[u8]) -> (res: Result<Vec<u16>, NdsError>)
    ensures
        res is Ok <==> bytes@.len() >= 2 && 2 + 2 * spec_u16le(bytes@, 0) <= bytes@.len(),
        res matches Ok(v) ==> v@ == Seq::new(
            spec_u16le(bytes@, 0) as nat,
            |i: int| spec_u16le(bytes@, 2 + 2 * i),
        ),
{
    let count = u16le(bytes, 0)? as usize;
    let mut v: Vec<u16> = Vec::new();
    let mut i: usize = 0;
    while i < count
        invariant
            i <= count <= 0xFFFF,
            bytes@.len() >= 2,
            count == spec_u16le(bytes@, 0),
            v@ == Seq::new(i as nat, |k: int| spec_u16le(bytes@, 2 + 2 * k)),
            2 + 2 * i <= bytes@.len() || i < count,
        decreases count - i,
    {
        let x = u16le(bytes, 2 + i * 2)?;
        v.push(x);
        i = i + 1;
        proof {
            assert(v@ =~= Seq::new(i as nat, |k: int| spec_u16le(bytes@, 2 + 2 * k)));
        }
    }
    Ok(v)
}

} // verus!

//! Map headers: the 24-byte records of the map table (little-endian
//! bitfields packed least significant bit first, 540 records in the
//! ARM9 image), plus the name table (540 × 16 NUL-padded names).
//!
//! Record layout:
//!
//! ```text
//! +0  u8  wildEncounterBank     +1  u8  areaDataBank
//! +2  u16 moveModelBank:4, worldMapX:6, worldMapY:6
//! +4  u16 matrixId, scriptsBank, scriptHeaderBank, msgBank,
//!         dayMusicId, nightMusicId, eventsBank
//! +18 u16 mapsec:8, areaIcon:4, momCallIntroParam:4
//! +20 u32 regionNo:1, weather:7, mapType:4, cameraType:6, followMode:2,
//!         battleBg:5, bikeAllowed:1, runningAllowed:1,
//!         escapeRopeAllowed:1, flyAllowed:1, outgoingCalls:1,
//!         incomingCalls:1, radioSignal:1
//! ```

use vstd::prelude::*;
use vstd::slice::slice_subrange;
use vstd::utf8::*;

use crate::nds::{NdsError, u16le, u32le, spec_u16le, spec_u32le, utf8};

verus! {

/// Records in the map table.
pub const MAP_HEADER_COUNT: usize = 540;
/// Bytes of one record.
pub const MAP_HEADER_SIZE: usize = 24;
/// RAM address of the map table in the retail (US) ARM9 image.
pub const MAP_HEADERS_ADDRESS: u32 = 0x020F_6BE0;
/// NitroFS path of the map name table.
pub const MAP_NAMES_PATH: &'static str = "fielddata/maptable/mapname.bin";
/// Bytes per name in the name table.
pub const MAP_NAME_SIZE: usize = 16;
/// The wild-encounter bank of a map without encounters.
pub const NO_WILD_ENCOUNTERS: u8 = 255;

/// The 4-bit map type.
#[derive(Debug, Clone, Copy, PartialEq, Eq, Hash, Default, Structural)]
pub enum MapType {
    /// Invalid (0).
    #[default]
    Invalid,
    /// City or town (1).
    CityTown,
    /// Route (2).
    Route,
    /// Cave (3).
    Cave,
    /// Interior (4).
    Interior,
    /// Pokémon Center (5, unused).
    PokemonCenter,
    /// Underground (6, a leftover).
    Underground,
}

/// The value of a map type.
pub open spec fn map_type_value(t: MapType) -> u32 {
    match t {
        MapType::Invalid => 0,
        MapType::CityTown => 1,
        MapType::Route => 2,
        MapType::Cave => 3,
        MapType::Interior => 4,
        MapType::PokemonCenter => 5,
        MapType::Underground => 6,
    }
}

/// The map type of a value, if any.
pub open spec fn map_type_of(v: u32) -> Option<MapType> {
    if v == 0 {
        Some(MapType::Invalid)
    } else if v == 1 {
        Some(MapType::CityTown)
    } else if v == 2 {
        Some(MapType::Route)
    } else if v == 3 {
        Some(MapType::Cave)
    } else if v == 4 {
        Some(MapType::Interior)
    } else if v == 5 {
        Some(MapType::PokemonCenter)
    } else if v == 6 {
        Some(MapType::Underground)
    } else {
        None
    }
}

impl MapType {
    fn from_raw(raw: u32) -> (res: Result<Self, NdsError>)
        ensures
            match map_type_of(raw) {
                Some(t) => res == Ok::<MapType, NdsError>(t),
                None => res is Err,
            },
    {
        match raw {
            0 => Ok(MapType::Invalid),
            1 => Ok(MapType::CityTown),
            2 => Ok(MapType::Route),
            3 => Ok(MapType::Cave),
            4 => Ok(MapType::Interior),
            5 => Ok(MapType::PokemonCenter),
            6 => Ok(MapType::Underground),
            _ => Err(NdsError::Invalid { what: "map header mapType" }),
        }
    }

    fn raw(self) -> (res: u32)
        ensures
            res == map_type_value(self),
    {
        match self {
            MapType::Invalid => 0,
            MapType::CityTown => 1,
            MapType::Route => 2,
            MapType::Cave => 3,
            MapType::Interior => 4,
            MapType::PokemonCenter => 5,
            MapType::Underground => 6,
        }
    }
}

/// The 2-bit follow mode.
#[derive(Debug, Clone, Copy, PartialEq, Eq, Hash, Default, Structural)]
pub enum FollowMode {
    /// Following is prevented (0).
    #[default]
    Prevent,
    /// Following is restricted by height (1).
    HeightRestrict,
    /// Following is allowed (2).
    Allow,
}

/// The value of a follow mode.
pub open spec fn follow_mode_value(m: FollowMode) -> u32 {
    match m {
        FollowMode::Prevent => 0,
        FollowMode::HeightRestrict => 1,
        FollowMode::Allow => 2,
    }
}

/// The follow mode of a value, if any.
pub open spec fn follow_mode_of(v: u32) -> Option<FollowMode> {
    if v == 0 {
        Some(FollowMode::Prevent)
    } else if v == 1 {
        Some(FollowMode::HeightRestrict)
    } else if v == 2 {
        Some(FollowMode::Allow)
    } else {
        None
    }
}

impl FollowMode {
    fn from_raw(raw: u32) -> (res: Result<Self, NdsError>)
        ensures
            match follow_mode_of(raw) {
                Some(m) => res == Ok::<FollowMode, NdsError>(m),
                None => res is Err,
            },
    {
        match raw {
            0 => Ok(FollowMode::Prevent),
            1 => Ok(FollowMode::HeightRestrict),
            2 => Ok(FollowMode::Allow),
            _ => Err(NdsError::Invalid { what: "map header followMode" }),
        }
    }

    fn raw(self) -> (res: u32)
        ensures
            res == follow_mode_value(self),
    {
        match self {
            FollowMode::Prevent => 0,
            FollowMode::HeightRestrict => 1,
            FollowMode::Allow => 2,
        }
    }
}

/// One decoded map header record.
#[derive(Debug, Clone, Copy, PartialEq, Eq, Hash, Default)]
pub struct MapHeader {
    /// The wild-encounter bank, [`NO_WILD_ENCOUNTERS`] for none.
    pub wild_encounter_bank: u8,
    /// The area-data member.
    pub area_data_bank: u8,
    /// The move-model bank (4 bits).
    pub move_model_bank: u8,
    /// The world-map x (6 bits).
    pub world_map_x: u8,
    /// The world-map y (6 bits).
    pub world_map_y: u8,
    /// The matrix member.
    pub matrix_id: u16,
    /// The member holding the map's scripts.
    pub scripts_bank: u16,
    /// The member holding the map's script header.
    pub script_header_bank: u16,
    /// The message bank.
    pub msg_bank: u16,
    /// The day music sequence.
    pub day_music_id: u16,
    /// The night music sequence.
    pub night_music_id: u16,
    /// The events member.
    pub events_bank: u16,
    /// The map section (8 bits).
    pub mapsec: u8,
    /// The area icon (4 bits).
    pub area_icon: u8,
    /// The mom-call intro parameter (4 bits).
    pub mom_call_intro_param: u8,
    /// The region (1 bit): 0 Johto, 1 Kanto.
    pub region_no: u8,
    /// The weather (7 bits).
    pub weather: u8,
    /// The map type (4 bits).
    pub map_type: MapType,
    /// The camera preset (6 bits).
    pub camera_type: u8,
    /// The follow mode (2 bits).
    pub follow_mode: FollowMode,
    /// The battle background (5 bits).
    pub battle_bg: u8,
    /// The bike may be used.
    pub bike_allowed: bool,
    /// Running is allowed (unused).
    pub running_allowed_unused: bool,
    /// An Escape Rope may be used.
    pub escape_rope_allowed: bool,
    /// Fly may be used.
    pub fly_allowed: bool,
    /// Calls can be made.
    pub outgoing_calls: bool,
    /// Calls can come in.
    pub incoming_calls: bool,
    /// The radio has a signal.
    pub radio_signal: bool,
}

/// `(w >> shift) & mask`.
pub open spec fn bits(w: u32, shift: u32, mask: u32) -> u32 {
    (w >> shift) & mask
}

/// Bit `n` of a word.
pub open spec fn bit(w: u32, n: u32) -> bool {
    w & (1u32 << n) != 0
}

/// The packed word at +20 of a record.
pub open spec fn header_w20(r: Seq<u8>) -> u32 {
    spec_u32le(r, 20)
}

/// Whether a record decodes: 24 bytes and a map type and follow mode
/// that have values.
pub open spec fn header_ok(r: Seq<u8>) -> bool {
    &&& r.len() >= MAP_HEADER_SIZE
    &&& map_type_of(bits(header_w20(r), 8, 15)) is Some
    &&& follow_mode_of(bits(header_w20(r), 18, 3)) is Some
}

/// The header a well-formed record encodes.
pub open spec fn spec_map_header(r: Seq<u8>) -> MapHeader {
    let w2 = spec_u16le(r, 2) as u32;
    let w18 = spec_u16le(r, 18) as u32;
    let w20 = header_w20(r);
    MapHeader {
        wild_encounter_bank: r[0],
        area_data_bank: r[1],
        move_model_bank: bits(w2, 0, 15) as u8,
        world_map_x: bits(w2, 4, 63) as u8,
        world_map_y: bits(w2, 10, 63) as u8,
        matrix_id: spec_u16le(r, 4),
        scripts_bank: spec_u16le(r, 6),
        script_header_bank: spec_u16le(r, 8),
        msg_bank: spec_u16le(r, 10),
        day_music_id: spec_u16le(r, 12),
        night_music_id: spec_u16le(r, 14),
        events_bank: spec_u16le(r, 16),
        mapsec: bits(w18, 0, 255) as u8,
        area_icon: bits(w18, 8, 15) as u8,
        mom_call_intro_param: bits(w18, 12, 15) as u8,
        region_no: bits(w20, 0, 1) as u8,
        weather: bits(w20, 1, 127) as u8,
        map_type: map_type_of(bits(w20, 8, 15))->0,
        camera_type: bits(w20, 12, 63) as u8,
        follow_mode: follow_mode_of(bits(w20, 18, 3))->0,
        battle_bg: bits(w20, 20, 31) as u8,
        bike_allowed: bit(w20, 25),
        running_allowed_unused: bit(w20, 26),
        escape_rope_allowed: bit(w20, 27),
        fly_allowed: bit(w20, 28),
        outgoing_calls: bit(w20, 29),
        incoming_calls: bit(w20, 30),
        radio_signal: bit(w20, 31),
    }
}

/// A flag's bit in a packed word.
pub open spec fn flag_bit(b: bool, n: u32) -> u32 {
    if b {
        1u32 << n
    } else {
        0
    }
}

/// The packed word at +2 of a header's record.
pub open spec fn pack_w2(h: MapHeader) -> u16 {
    ((h.move_model_bank & 15) as u16 | (((h.world_map_x & 63) as u16) << 4u16) | (((h.world_map_y
        & 63) as u16) << 10u16)) as u16
}

/// The packed word at +18 of a header's record.
pub open spec fn pack_w18(h: MapHeader) -> u16 {
    (h.mapsec as u16 | (((h.area_icon & 15) as u16) << 8u16) | (((h.mom_call_intro_param & 15)
        as u16) << 12u16)) as u16
}

/// The packed word at +20 of a header's record.
pub open spec fn pack_w20(h: MapHeader) -> u32 {
    (h.region_no & 1) as u32 | (((h.weather & 127) as u32) << 1u32) | (map_type_value(h.map_type)
        << 8u32) | (((h.camera_type & 63) as u32) << 12u32) | (follow_mode_value(h.follow_mode)
        << 18u32) | (((h.battle_bg & 31) as u32) << 20u32) | flag_bit(h.bike_allowed, 25)
        | flag_bit(h.running_allowed_unused, 26) | flag_bit(h.escape_rope_allowed, 27) | flag_bit(
        h.fly_allowed,
        28,
    ) | flag_bit(h.outgoing_calls, 29) | flag_bit(h.incoming_calls, 30) | flag_bit(
        h.radio_signal,
        31,
    )
}

/// The low byte of a `u16`.
pub open spec fn lo(w: u16) -> u8 {
    (w & 0xFF) as u8
}

/// The high byte of a `u16`.
pub open spec fn hi(w: u16) -> u8 {
    (w >> 8u16) as u8
}

/// Byte `n` of a `u32`.
pub open spec fn byte_of(w: u32, n: u32) -> u8 {
    ((w >> (8 * n)) & 0xFF) as u8
}

/// The 24-byte record of a header.
pub open spec fn spec_encode(h: MapHeader) -> Seq<u8> {
    let w2 = pack_w2(h);
    let w18 = pack_w18(h);
    let w20 = pack_w20(h);
    seq![
        h.wild_encounter_bank,
        h.area_data_bank,
        lo(w2),
        hi(w2),
        lo(h.matrix_id),
        hi(h.matrix_id),
        lo(h.scripts_bank),
        hi(h.scripts_bank),
        lo(h.script_header_bank),
        hi(h.script_header_bank),
        lo(h.msg_bank),
        hi(h.msg_bank),
        lo(h.day_music_id),
        hi(h.day_music_id),
        lo(h.night_music_id),
        hi(h.night_music_id),
        lo(h.events_bank),
        hi(h.events_bank),
        lo(w18),
        hi(w18),
        byte_of(w20, 0),
        byte_of(w20, 1),
        byte_of(w20, 2),
        byte_of(w20, 3),
    ]
}

/// Whether every bitfield of a header fits its width.
pub open spec fn header_in_range(h: MapHeader) -> bool {
    &&& h.move_model_bank < 16
    &&& h.world_map_x < 64
    &&& h.world_map_y < 64
    &&& h.area_icon < 16
    &&& h.mom_call_intro_param < 16
    &&& h.region_no < 2
    &&& h.weather < 128
    &&& h.camera_type < 64
    &&& h.battle_bg < 32
}

proof fn lemma_u16_bytes(w: u16)
    ensures
        lo(w) as int + hi(w) as int * 0x100 == w,
{
    assert((w & 0xFF) as u8 as int + (w >> 8u16) as u8 as int * 0x100 == w) by (bit_vector);
}

proof fn lemma_u32_bytes(w: u32)
    ensures
        byte_of(w, 0) as int + byte_of(w, 1) as int * 0x100 + byte_of(w, 2) as int * 0x10000
            + byte_of(w, 3) as int * 0x1000000 == w,
{
    assert(((w >> 0u32) & 0xFF) as u8 as int + ((w >> 8u32) & 0xFF) as u8 as int * 0x100 + ((w
        >> 16u32) & 0xFF) as u8 as int * 0x10000 + ((w >> 24u32) & 0xFF) as u8 as int * 0x1000000
        == w) by (bit_vector);
}

proof fn lemma_bytes_u16(a: u8, b: u8)
    ensures
        lo((a as int + b as int * 0x100) as u16) == a,
        hi((a as int + b as int * 0x100) as u16) == b,
{
    assert((((a as u16 + b as u16 * 256) as u16) & 0xFF) as u8 == a && (((a as u16 + b as u16
        * 256) as u16) >> 8u16) as u8 == b) by (bit_vector);
}

proof fn lemma_bytes_u32(a: u8, b: u8, c: u8, d: u8)
    ensures
        ({
            let w = (a as int + b as int * 0x100 + c as int * 0x10000 + d as int * 0x1000000) as u32;
            byte_of(w, 0) == a && byte_of(w, 1) == b && byte_of(w, 2) == c && byte_of(w, 3) == d
        }),
{
    assert({
        let w = ((a as u32) + (b as u32) * 0x100 + (c as u32) * 0x10000 + (d as u32) * 0x1000000) as u32;
        ((w >> 0u32) & 0xFF) as u8 == a && ((w >> 8u32) & 0xFF) as u8 == b && ((w >> 16u32) & 0xFF)
            as u8 == c && ((w >> 24u32) & 0xFF) as u8 == d
    }) by (bit_vector);
}

/// Packing the in-range fields of a record and reading them back gives
/// the fields.
proof fn lemma_unpack(h: MapHeader)
    requires
        header_in_range(h),
    ensures
        bits(pack_w2(h) as u32, 0, 15) == h.move_model_bank,
        bits(pack_w2(h) as u32, 4, 63) == h.world_map_x,
        bits(pack_w2(h) as u32, 10, 63) == h.world_map_y,
        bits(pack_w18(h) as u32, 0, 255) == h.mapsec,
        bits(pack_w18(h) as u32, 8, 15) == h.area_icon,
        bits(pack_w18(h) as u32, 12, 15) == h.mom_call_intro_param,
        bits(pack_w20(h), 0, 1) == h.region_no,
        bits(pack_w20(h), 1, 127) == h.weather,
        bits(pack_w20(h), 8, 15) == map_type_value(h.map_type),
        bits(pack_w20(h), 12, 63) == h.camera_type,
        bits(pack_w20(h), 18, 3) == follow_mode_value(h.follow_mode),
        bits(pack_w20(h), 20, 31) == h.battle_bg,
        bit(pack_w20(h), 25) == h.bike_allowed,
        bit(pack_w20(h), 26) == h.running_allowed_unused,
        bit(pack_w20(h), 27) == h.escape_rope_allowed,
        bit(pack_w20(h), 28) == h.fly_allowed,
        bit(pack_w20(h), 29) == h.outgoing_calls,
        bit(pack_w20(h), 30) == h.incoming_calls,
        bit(pack_w20(h), 31) == h.radio_signal,
{
    let a = h.move_model_bank;
    let x = h.world_map_x;
    let y = h.world_map_y;
    assert({
        let w = ((a & 15) as u16 | (((x & 63) as u16) << 4u16) | (((y & 63) as u16) << 10u16)) as u32;
        (w >> 0u32) & 15 == a as u32 && (w >> 4u32) & 63 == x as u32 && (w >> 10u32) & 63
            == y as u32
    }) by (bit_vector)
        requires
            a < 16,
            x < 64,
            y < 64,
    ;
    let m = h.mapsec;
    let i = h.area_icon;
    let c = h.mom_call_intro_param;
    assert({
        let w = (m as u16 | (((i & 15) as u16) << 8u16) | (((c & 15) as u16) << 12u16)) as u32;
        (w >> 0u32) & 255 == m as u32 && (w >> 8u32) & 15 == i as u32 && (w >> 12u32) & 15
            == c as u32
    }) by (bit_vector)
        requires
            i < 16,
            c < 16,
    ;
    let r = h.region_no;
    let we = h.weather;
    let t = map_type_value(h.map_type);
    let cam = h.camera_type;
    let f = follow_mode_value(h.follow_mode);
    let bb = h.battle_bg;
    let b25 = h.bike_allowed;
    let b26 = h.running_allowed_unused;
    let b27 = h.escape_rope_allowed;
    let b28 = h.fly_allowed;
    let b29 = h.outgoing_calls;
    let b30 = h.incoming_calls;
    let b31 = h.radio_signal;
    assert({
        let w = (r & 1) as u32 | (((we & 127) as u32) << 1u32) | (t << 8u32) | (((cam & 63) as u32)
            << 12u32) | (f << 18u32) | (((bb & 31) as u32) << 20u32) | (if b25 {
            1u32 << 25u32
        } else {
            0u32
        }) | (if b26 {
            1u32 << 26u32
        } else {
            0u32
        }) | (if b27 {
            1u32 << 27u32
        } else {
            0u32
        }) | (if b28 {
            1u32 << 28u32
        } else {
            0u32
        }) | (if b29 {
            1u32 << 29u32
        } else {
            0u32
        }) | (if b30 {
            1u32 << 30u32
        } else {
            0u32
        }) | (if b31 {
            1u32 << 31u32
        } else {
            0u32
        });
        &&& (w >> 0u32) & 1 == r as u32
        &&& (w >> 1u32) & 127 == we as u32
        &&& (w >> 8u32) & 15 == t
        &&& (w >> 12u32) & 63 == cam as u32
        &&& (w >> 18u32) & 3 == f
        &&& (w >> 20u32) & 31 == bb as u32
        &&& (w & (1u32 << 25u32) != 0) == b25
        &&& (w & (1u32 << 26u32) != 0) == b26
        &&& (w & (1u32 << 27u32) != 0) == b27
        &&& (w & (1u32 << 28u32) != 0) == b28
        &&& (w & (1u32 << 29u32) != 0) == b29
        &&& (w & (1u32 << 30u32) != 0) == b30
        &&& (w & (1u32 << 31u32) != 0) == b31
    }) by (bit_vector)
        requires
            r < 2,
            we < 128,
            t < 16,
            cam < 64,
            f < 4,
            bb < 32,
    ;
}

/// Reading a record's fields and packing them back gives the record's
/// words.
proof fn lemma_repack(r: Seq<u8>)
    requires
        header_ok(r),
    ensures
        pack_w2(spec_map_header(r)) == spec_u16le(r, 2),
        pack_w18(spec_map_header(r)) == spec_u16le(r, 18),
        pack_w20(spec_map_header(r)) == header_w20(r),
{
    let h = spec_map_header(r);
    let w2 = spec_u16le(r, 2);
    assert(((((w2 as u32) >> 0u32) & 15) as u8 & 15) as u16 | ((((((w2 as u32) >> 4u32) & 63) as u8
        & 63) as u16) << 4u16) | ((((((w2 as u32) >> 10u32) & 63) as u8 & 63) as u16) << 10u16)
        == w2) by (bit_vector);
    let w18 = spec_u16le(r, 18);
    assert(((((w18 as u32) >> 0u32) & 255) as u8) as u16 | ((((((w18 as u32) >> 8u32) & 15) as u8
        & 15) as u16) << 8u16) | ((((((w18 as u32) >> 12u32) & 15) as u8 & 15) as u16) << 12u16)
        == w18) by (bit_vector);
    let w = header_w20(r);
    let t = bits(w, 8, 15);
    let f = bits(w, 18, 3);
    assert(map_type_value(h.map_type) == t);
    assert(follow_mode_value(h.follow_mode) == f);
    let f25 = flag_bit(h.bike_allowed, 25);
    let f26 = flag_bit(h.running_allowed_unused, 26);
    let f27 = flag_bit(h.escape_rope_allowed, 27);
    let f28 = flag_bit(h.fly_allowed, 28);
    let f29 = flag_bit(h.outgoing_calls, 29);
    let f30 = flag_bit(h.incoming_calls, 30);
    let f31 = flag_bit(h.radio_signal, 31);
    assert((((w >> 0u32) & 1) as u8 & 1) as u32 | (((((w >> 1u32) & 127) as u8 & 127) as u32)
        << 1u32) | (((w >> 8u32) & 15) << 8u32) | (((((w >> 12u32) & 63) as u8 & 63) as u32)
        << 12u32) | (((w >> 18u32) & 3) << 18u32) | (((((w >> 20u32) & 31) as u8 & 31) as u32)
        << 20u32) | f25 | f26 | f27 | f28 | f29 | f30 | f31 == w) by (bit_vector)
        requires
            f25 == if w & (1u32 << 25u32) != 0 { 1u32 << 25u32 } else { 0 },
            f26 == if w & (1u32 << 26u32) != 0 { 1u32 << 26u32 } else { 0 },
            f27 == if w & (1u32 << 27u32) != 0 { 1u32 << 27u32 } else { 0 },
            f28 == if w & (1u32 << 28u32) != 0 { 1u32 << 28u32 } else { 0 },
            f29 == if w & (1u32 << 29u32) != 0 { 1u32 << 29u32 } else { 0 },
            f30 == if w & (1u32 << 30u32) != 0 { 1u32 << 30u32 } else { 0 },
            f31 == if w & (1u32 << 31u32) != 0 { 1u32 << 31u32 } else { 0 },
    ;
}

/// A record read back from the encoding of an in-range header is that
/// header: decoding undoes encoding.
pub proof fn lemma_parse_encode(h: MapHeader)
    requires
        header_in_range(h),
    ensures
        header_ok(spec_encode(h)),
        spec_map_header(spec_encode(h)) == h,
{
    let r = spec_encode(h);
    lemma_unpack(h);
    lemma_u16_bytes(pack_w2(h));
    lemma_u16_bytes(pack_w18(h));
    lemma_u32_bytes(pack_w20(h));
    lemma_u16_bytes(h.matrix_id);
    lemma_u16_bytes(h.scripts_bank);
    lemma_u16_bytes(h.script_header_bank);
    lemma_u16_bytes(h.msg_bank);
    lemma_u16_bytes(h.day_music_id);
    lemma_u16_bytes(h.night_music_id);
    lemma_u16_bytes(h.events_bank);
    assert(spec_u16le(r, 2) == pack_w2(h));
    assert(spec_u16le(r, 18) == pack_w18(h));
    assert(header_w20(r) == pack_w20(h));
    assert(map_type_of(map_type_value(h.map_type)) == Some(h.map_type));
    assert(follow_mode_of(follow_mode_value(h.follow_mode)) == Some(h.follow_mode));
}

/// Encoding the header a record decodes to gives the record back: every
/// bit of a record is a field.
pub proof fn lemma_encode_parse(r: Seq<u8>)
    requires
        header_ok(r),
    ensures
        spec_encode(spec_map_header(r)) == r.subrange(0, MAP_HEADER_SIZE as int),
{
    let h = spec_map_header(r);
    lemma_repack(r);
    lemma_bytes_u16(r[2], r[3]);
    lemma_bytes_u16(r[4], r[5]);
    lemma_bytes_u16(r[6], r[7]);
    lemma_bytes_u16(r[8], r[9]);
    lemma_bytes_u16(r[10], r[11]);
    lemma_bytes_u16(r[12], r[13]);
    lemma_bytes_u16(r[14], r[15]);
    lemma_bytes_u16(r[16], r[17]);
    lemma_bytes_u16(r[18], r[19]);
    lemma_bytes_u32(r[20], r[21], r[22], r[23]);
    assert(spec_encode(h) =~= r.subrange(0, MAP_HEADER_SIZE as int));
}

impl MapHeader {
    /// Decodes one 24-byte record. Fails when the record is short or
    /// the map type or follow mode has no value.
    pub fn parse(record: &[u8]) -> (res: Result<Self, NdsError>)
        ensures
            res is Ok <==> header_ok(record@),
            res matches Ok(h) ==> h == spec_map_header(record@),
    {
        if record.len() < MAP_HEADER_SIZE {
            return Err(
                NdsError::Truncated { what: "map header", need: MAP_HEADER_SIZE, got: record.len() },
            );
        }
        let w2 = u16le(record, 2)? as u32;
        let w18 = u16le(record, 18)? as u32;
        let w20 = u32le(record, 20)?;
        let map_type = MapType::from_raw((w20 >> 8u32) & 15)?;
        let follow_mode = FollowMode::from_raw((w20 >> 18u32) & 3)?;
        Ok(MapHeader {
            wild_encounter_bank: record[0],
            area_data_bank: record[1],
            move_model_bank: ((w2 >> 0u32) & 15) as u8,
            world_map_x: ((w2 >> 4u32) & 63) as u8,
            world_map_y: ((w2 >> 10u32) & 63) as u8,
            matrix_id: u16le(record, 4)?,
            scripts_bank: u16le(record, 6)?,
            script_header_bank: u16le(record, 8)?,
            msg_bank: u16le(record, 10)?,
            day_music_id: u16le(record, 12)?,
            night_music_id: u16le(record, 14)?,
            events_bank: u16le(record, 16)?,
            mapsec: ((w18 >> 0u32) & 255) as u8,
            area_icon: ((w18 >> 8u32) & 15) as u8,
            mom_call_intro_param: ((w18 >> 12u32) & 15) as u8,
            region_no: ((w20 >> 0u32) & 1) as u8,
            weather: ((w20 >> 1u32) & 127) as u8,
            map_type,
            camera_type: ((w20 >> 12u32) & 63) as u8,
            follow_mode,
            battle_bg: ((w20 >> 20u32) & 31) as u8,
            bike_allowed: w20 & (1u32 << 25u32) != 0,
            running_allowed_unused: w20 & (1u32 << 26u32) != 0,
            escape_rope_allowed: w20 & (1u32 << 27u32) != 0,
            fly_allowed: w20 & (1u32 << 28u32) != 0,
            outgoing_calls: w20 & (1u32 << 29u32) != 0,
            incoming_calls: w20 & (1u32 << 30u32) != 0,
            radio_signal: w20 & (1u32 << 31u32) != 0,
        })
    }

    /// Re-encodes the record exactly as the compiler laid it out.
    pub fn encode(&self) -> (res: [u8; MAP_HEADER_SIZE])
        ensures
            res@ == spec_encode(*self),
    {
        let w2: u16 = ((self.move_model_bank & 15) as u16 | (((self.world_map_x & 63) as u16)
            << 4u16) | (((self.world_map_y & 63) as u16) << 10u16)) as u16;
        let w18: u16 = (self.mapsec as u16 | (((self.area_icon & 15) as u16) << 8u16) | (((
        self.mom_call_intro_param & 15) as u16) << 12u16)) as u16;
        let b25: u32 = if self.bike_allowed { 1u32 << 25u32 } else { 0 };
        let b26: u32 = if self.running_allowed_unused { 1u32 << 26u32 } else { 0 };
        let b27: u32 = if self.escape_rope_allowed { 1u32 << 27u32 } else { 0 };
        let b28: u32 = if self.fly_allowed { 1u32 << 28u32 } else { 0 };
        let b29: u32 = if self.outgoing_calls { 1u32 << 29u32 } else { 0 };
        let b30: u32 = if self.incoming_calls { 1u32 << 30u32 } else { 0 };
        let b31: u32 = if self.radio_signal { 1u32 << 31u32 } else { 0 };
        let w20: u32 = (self.region_no & 1) as u32 | (((self.weather & 127) as u32) << 1u32) | (
        self.map_type.raw() << 8u32) | (((self.camera_type & 63) as u32) << 12u32) | (
        self.follow_mode.raw() << 18u32) | (((self.battle_bg & 31) as u32) << 20u32) | b25 | b26
            | b27 | b28 | b29 | b30 | b31;
        let r: [u8; MAP_HEADER_SIZE] = [
            self.wild_encounter_bank,
            self.area_data_bank,
            (w2 & 0xFF) as u8,
            (w2 >> 8u16) as u8,
            (self.matrix_id & 0xFF) as u8,
            (self.matrix_id >> 8u16) as u8,
            (self.scripts_bank & 0xFF) as u8,
            (self.scripts_bank >> 8u16) as u8,
            (self.script_header_bank & 0xFF) as u8,
            (self.script_header_bank >> 8u16) as u8,
            (self.msg_bank & 0xFF) as u8,
            (self.msg_bank >> 8u16) as u8,
            (self.day_music_id & 0xFF) as u8,
            (self.day_music_id >> 8u16) as u8,
            (self.night_music_id & 0xFF) as u8,
            (self.night_music_id >> 8u16) as u8,
            (self.events_bank & 0xFF) as u8,
            (self.events_bank >> 8u16) as u8,
            (w18 & 0xFF) as u8,
            (w18 >> 8u16) as u8,
            ((w20 >> 0u32) & 0xFF) as u8,
            ((w20 >> 8u32) & 0xFF) as u8,
            ((w20 >> 16u32) & 0xFF) as u8,
            ((w20 >> 24u32) & 0xFF) as u8,
        ];
        proof {
            assert(w20 == pack_w20(*self));
            assert(r@ =~= spec_encode(*self));
        }
        r
    }

    /// Whether the map has wild encounters.
    pub fn has_wild_encounters(&self) -> (res: bool)
        ensures
            res == (self.wild_encounter_bank != NO_WILD_ENCOUNTERS),
    {
        self.wild_encounter_bank != NO_WILD_ENCOUNTERS
    }
}

/// RAM address of map `id`'s record.
pub fn record_address(id: u16) -> (res: u32)
    ensures
        res == MAP_HEADERS_ADDRESS + id * MAP_HEADER_SIZE,
{
    let step: u32 = id as u32 * 24;
    MAP_HEADERS_ADDRESS + step
}

/// The name bytes of name-table entry `i`: up to the first NUL.
pub open spec fn name_bytes(names: Seq<u8>, i: int) -> Seq<u8> {
    let entry = names.subrange(i * MAP_NAME_SIZE, (i + 1) * MAP_NAME_SIZE);
    entry.subrange(0, first_nul(entry))
}

/// The index of the first NUL byte of `s`, or its length.
pub open spec fn first_nul(s: Seq<u8>) -> int
    decreases s.len(),
{
    if s.len() == 0 {
        0
    } else if s[0] == 0 {
        0
    } else {
        1 + first_nul(s.subrange(1, s.len() as int))
    }
}

/// The whole map table plus the name table.
#[derive(Debug, Clone, PartialEq, Eq)]
pub struct MapHeaders {
    headers: Vec<MapHeader>,
    names: Vec<String>,
}

/// Whether a table and name file decode: both long enough, every
/// record well formed and every name UTF-8.
pub open spec fn headers_ok(table: Seq<u8>, names: Seq<u8>) -> bool {
    &&& table.len() >= MAP_HEADER_COUNT * MAP_HEADER_SIZE
    &&& names.len() >= MAP_HEADER_COUNT * MAP_NAME_SIZE
    &&& forall|i: int|
        0 <= i < MAP_HEADER_COUNT ==> #[trigger] header_ok(
            table.subrange(i * MAP_HEADER_SIZE, (i + 1) * MAP_HEADER_SIZE),
        )
    &&& forall|i: int| 0 <= i < MAP_HEADER_COUNT ==> valid_utf8(#[trigger] name_bytes(names, i))
}

fn nul_index(entry: &[u8]) -> (res: usize)
    ensures
        res == first_nul(entry@),
        res <= entry@.len(),
{
    let mut i: usize = 0;
    proof {
        assert(entry@.subrange(0, entry@.len() as int) =~= entry@);
    }
    while i < entry.len() && entry[i] != 0
        invariant
            i <= entry@.len(),
            first_nul(entry@) == i + first_nul(entry@.subrange(i as int, entry@.len() as int)),
        decreases entry@.len() - i,
    {
        proof {
            let s = entry@.subrange(i as int, entry@.len() as int);
            assert(s.subrange(1, s.len() as int) =~= entry@.subrange(i + 1, entry@.len() as int));
        }
        i = i + 1;
    }
    proof {
        lemma_first_nul_bound(entry@.subrange(i as int, entry@.len() as int));
        if i < entry@.len() {
            assert(entry@.subrange(i as int, entry@.len() as int)[0] == 0);
        }
    }
    i
}

proof fn lemma_first_nul_bound(s: Seq<u8>)
    ensures
        0 <= first_nul(s) <= s.len(),
    decreases s.len(),
{
    if s.len() > 0 && s[0] != 0 {
        lemma_first_nul_bound(s.subrange(1, s.len() as int));
    }
}

impl MapHeaders {
    /// The headers, in id order.
    pub closed spec fn spec_headers(self) -> Seq<MapHeader> {
        self.headers@
    }

    /// The names, in id order.
    pub closed spec fn spec_names(self) -> Seq<Seq<char>> {
        self.names@.map_values(|s: String| s@)
    }

    /// Decodes a raw table (540 records) and name file. Fails when either
    /// input is short, a record is malformed or a name is not UTF-8.
    pub fn parse(table: &[u8], names: &[u8]) -> (res: Result<Self, NdsError>)
        ensures
            res is Ok <==> headers_ok(table@, names@),
            res matches Ok(t) ==> {
                &&& t.spec_headers().len() == MAP_HEADER_COUNT
                &&& t.spec_names().len() == MAP_HEADER_COUNT
                &&& forall|i: int|
                    0 <= i < MAP_HEADER_COUNT ==> #[trigger] t.spec_headers()[i] == spec_map_header(
                        table@.subrange(i * MAP_HEADER_SIZE, (i + 1) * MAP_HEADER_SIZE),
                    )
                &&& forall|i: int|
                    0 <= i < MAP_HEADER_COUNT ==> #[trigger] t.spec_names()[i] == decode_utf8(
                        name_bytes(names@, i),
                    )
            },
    {
        if table.len() < MAP_HEADER_COUNT * MAP_HEADER_SIZE {
            return Err(
                NdsError::Truncated {
                    what: "map header table",
                    need: MAP_HEADER_COUNT * MAP_HEADER_SIZE,
                    got: table.len(),
                },
            );
        }
        if names.len() < MAP_HEADER_COUNT * MAP_NAME_SIZE {
            return Err(
                NdsError::Truncated {
                    what: "map name table",
                    need: MAP_HEADER_COUNT * MAP_NAME_SIZE,
                    got: names.len(),
                },
            );
        }
        let mut headers: Vec<MapHeader> = Vec::new();
        let mut i: usize = 0;
        while i < MAP_HEADER_COUNT
            invariant
                i <= MAP_HEADER_COUNT,
                table@.len() >= MAP_HEADER_COUNT * MAP_HEADER_SIZE,
                headers@.len() == i,
                forall|j: int|
                    0 <= j < i ==> #[trigger] header_ok(
                        table@.subrange(j * MAP_HEADER_SIZE, (j + 1) * MAP_HEADER_SIZE),
                    ) && headers@[j] == spec_map_header(
                        table@.subrange(j * MAP_HEADER_SIZE, (j + 1) * MAP_HEADER_SIZE),
                    ),
            decreases MAP_HEADER_COUNT - i,
        {
            let rec = slice_subrange(table, i * MAP_HEADER_SIZE, (i + 1) * MAP_HEADER_SIZE);
            let h = MapHeader::parse(rec)?;
            headers.push(h);
            proof {
                assert(rec@ == table@.subrange(i * MAP_HEADER_SIZE, (i + 1) * MAP_HEADER_SIZE));
                assert(header_ok(table@.subrange(i * MAP_HEADER_SIZE, (i + 1) * MAP_HEADER_SIZE)));
            }
            i = i + 1;
        }
        let mut out: Vec<String> = Vec::new();
        let mut i: usize = 0;
        while i < MAP_HEADER_COUNT
            invariant
                i <= MAP_HEADER_COUNT,
                names@.len() >= MAP_HEADER_COUNT * MAP_NAME_SIZE,
                out@.len() == i,
                forall|j: int|
                    0 <= j < i ==> valid_utf8(#[trigger] name_bytes(names@, j)) && out@[j]@
                        == decode_utf8(name_bytes(names@, j)),
            decreases MAP_HEADER_COUNT - i,
        {
            let entry = slice_subrange(names, i * MAP_NAME_SIZE, (i + 1) * MAP_NAME_SIZE);
            let n = nul_index(entry);
            let name = slice_subrange(entry, 0, n);
            proof {
                assert(name@ == name_bytes(names@, i as int));
            }
            let s = match utf8(name) {
                Some(s) => s.to_owned(),
                None => {
                    return Err(NdsError::Invalid { what: "map name" });
                },
            };
            out.push(s);
            i = i + 1;
        }
        let t = MapHeaders { headers, names: out };
        proof {
            assert forall|j: int| 0 <= j < MAP_HEADER_COUNT implies #[trigger] t.spec_headers()[j]
                == spec_map_header(
                table@.subrange(j * MAP_HEADER_SIZE, (j + 1) * MAP_HEADER_SIZE),
            ) by {
                assert(header_ok(table@.subrange(j * MAP_HEADER_SIZE, (j + 1) * MAP_HEADER_SIZE)));
            }
            assert(t.spec_names().len() == MAP_HEADER_COUNT);
            assert forall|j: int| 0 <= j < MAP_HEADER_COUNT implies #[trigger] t.spec_names()[j]
                == decode_utf8(name_bytes(names@, j)) by {
                assert(valid_utf8(name_bytes(names@, j)));
                assert(t.spec_names()[j] == t.names@[j]@);
            }
        }
        Ok(t)
    }

    /// Map `id`'s header, if `id < 540`.
    pub fn get(&self, id: u16) -> (res: Option<&MapHeader>)
        ensures
            (id as int) < self.spec_headers().len() ==> res == Some(&self.spec_headers()[id as int]),
            (id as int) >= self.spec_headers().len() ==> res is None,
    {
        if (id as usize) < self.headers.len() {
            Some(&self.headers[id as usize])
        } else {
            None
        }
    }

    /// Map `id`'s internal name (`T20R0202` for the player's bedroom).
    pub fn name(&self, id: u16) -> (res: Option<&str>)
        ensures
            (id as int) < self.spec_names().len() ==> (res matches Some(s) && s@
                == self.spec_names()[id as int]),
            (id as int) >= self.spec_names().len() ==> res is None,
    {
        if (id as usize) < self.names.len() {
            Some(self.names[id as usize].as_str())
        } else {
            None
        }
    }

    /// Number of records.
    pub fn len(&self) -> (res: usize)
        ensures
            res == self.spec_headers().len(),
    {
        self.headers.len()
    }

    /// Whether the table is empty (never, for a parsed table).
    pub fn is_empty(&self) -> (res: bool)
        ensures
            res == (self.spec_headers().len() == 0),
    {
        self.headers.len() == 0
    }

    /// All headers in id order.
    pub fn iter(&self) -> (res: &[MapHeader])
        ensures
            res@ == self.spec_headers(),
    {
        self.headers.as_slice()
    }
}

} // verus!

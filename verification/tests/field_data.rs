use lib::field::area::{
    parse_building_ids, AreaData, BM_FIELD_ANIM_NARC, BM_FIELD_NARC, BM_ROOM_ANIM_NARC,
    BM_ROOM_NARC,
};
use lib::field::events::{MapEvents, WarpEvent, OBJECT_EVENT_SIZE};
use lib::field::height::{find_strip, fx_div, mul_fx, plate_height, scene_height, HeightMode};
use lib::field::land::{
    behavior, impassable, Bdhc, LandData, ATTRIBUTE_BYTES, ATTRIBUTE_COUNT, MAGIC,
    PROP_RECORD_SIZE,
};
use lib::field::map_header::{
    record_address, FollowMode, MapHeader, MapHeaders, MapType, MAP_HEADERS_ADDRESS,
    MAP_HEADER_COUNT, MAP_HEADER_SIZE, MAP_NAME_SIZE, NO_WILD_ENCOUNTERS,
};
use lib::field::map_object::{FX32_ONE, TILE_FX32};
use lib::field::matrix::MapMatrix;
use lib::field::ov01::{
    player_sprite, CameraPreset, CameraPresets, LandBase, Ov01, SpriteModelTable,
    CAMERA_PRESET_SIZE, LAND_BASE_SCALE_ADDRESS, SPRITE_HERO, SPRITE_HEROINE,
    SPRITE_MODEL_TABLE_ADDRESS,
};
use lib::field::script_header::{FrameTableEntry, InitScripts};
use lib::field::terrain::{TerrainAttributes, TILE_BEHAVIOR_NONE};
use lib::field::model::Texture;
use lib::field::{CellWindow, FieldScene, LandCell};

fn matrix(w: u8, h: u8) -> MapMatrix {
    let n = usize::from(w) * usize::from(h);
    MapMatrix {
        id: 0,
        width: w,
        height: h,
        name: String::new(),
        has_headers: false,
        has_altitudes: false,
        headers: vec![0; n],
        altitudes: vec![0; n],
        land_ids: vec![0; n],
    }
}

#[test]
fn windows_clamp_to_the_matrix() {
    let m = matrix(47, 17);
    assert_eq!(
        CellWindow::around(&m, 21, 12, 1),
        CellWindow { x0: 20, z0: 11, width: 3, height: 3 }
    );
    assert_eq!(
        CellWindow::around(&m, 0, 16, 1),
        CellWindow { x0: 0, z0: 15, width: 2, height: 2 }
    );
    assert_eq!(CellWindow::all(&m), CellWindow { x0: 0, z0: 0, width: 47, height: 17 });
    let one = matrix(1, 1);
    assert_eq!(CellWindow::around(&one, 0, 0, 1), CellWindow::all(&one));
    assert!(CellWindow::all(&m).contains(46, 16) && !CellWindow::all(&m).contains(47, 0));
}

#[test]
fn record_fields_and_archive_selection() {
    let indoor = AreaData::parse(25, &[1, 0, 25, 0, 0xFF, 0xFF, 0, 0]).unwrap();
    assert_eq!((indoor.building_set, indoor.map_texture, indoor.unknown), (1, 25, 0xFFFF));
    assert!(!indoor.is_outdoor());
    assert_eq!(indoor.prop_model_narc(), BM_ROOM_NARC);
    assert_eq!(indoor.prop_animation_narc(), BM_ROOM_ANIM_NARC);
    let outdoor = AreaData::parse(2, &[0, 0, 2, 0, 0, 0, 1, 1]).unwrap();
    assert!(outdoor.is_outdoor());
    assert_eq!(outdoor.prop_model_narc(), BM_FIELD_NARC);
    assert_eq!(outdoor.prop_animation_narc(), BM_FIELD_ANIM_NARC);
    assert_eq!(outdoor.light_selector, 1);
    assert!(AreaData::parse(0, &[0; 7]).is_err());
}

#[test]
fn building_lists_are_count_prefixed() {
    assert_eq!(parse_building_ids(&[2, 0, 5, 0, 9, 1]).unwrap(), vec![5, 265]);
    assert!(parse_building_ids(&[3, 0, 5, 0]).is_err());
}

#[test]
fn arrays_are_count_prefixed_and_exact() {
    let mut b = Vec::new();
    b.extend_from_slice(&0u32.to_le_bytes());
    b.extend_from_slice(&1u32.to_le_bytes());
    let mut obj = [0u8; OBJECT_EVENT_SIZE];
    obj[2..4].copy_from_slice(&376u16.to_le_bytes());
    obj[12..14].copy_from_slice(&(-1i16).to_le_bytes());
    obj[24..26].copy_from_slice(&8u16.to_le_bytes());
    obj[26..28].copy_from_slice(&10u16.to_le_bytes());
    b.extend_from_slice(&obj);
    b.extend_from_slice(&1u32.to_le_bytes());
    b.extend_from_slice(&[3, 0, 4, 0, 63, 0, 1, 0, 0, 0, 0, 0]);
    b.extend_from_slice(&0u32.to_le_bytes());
    let e = MapEvents::parse(&b).unwrap();
    assert_eq!(e.objects[0].sprite_id, 376);
    assert_eq!(e.objects[0].facing_direction, -1);
    assert_eq!((e.objects[0].x, e.objects[0].z), (8, 10));
    assert_eq!(e.warps[0], WarpEvent { x: 3, z: 4, header: 63, anchor: 1, y: 0 });
    assert_eq!(e.warp_at(3, 4), Some(0));
    assert_eq!(e.warp_at(4, 3), None);
    b.push(0);
    assert!(MapEvents::parse(&b).is_err());
    assert!(MapEvents::parse(&[5, 0, 0, 0]).is_err());
}

/// Element sizes of the six BDHC arrays.
const BDHC_SIZES: [usize; 6] = [8, 12, 4, 8, 8, 2];

struct Plate {
    corners: [(i32, i32); 2],
    normal: [i32; 3],
    height: i32,
}

/// A block of `plates` under `strips` z boundaries, every strip listing
/// every plate.
fn block(plates: &[Plate], strips: &[i32]) -> Bdhc {
    let mut b = b"BDHC".to_vec();
    let n = plates.len() as u16;
    for c in [n * 2, n, n, n, strips.len() as u16, n * strips.len() as u16] {
        b.extend_from_slice(&c.to_le_bytes());
    }
    for p in plates {
        for (x, z) in p.corners {
            b.extend_from_slice(&x.to_le_bytes());
            b.extend_from_slice(&z.to_le_bytes());
        }
    }
    for p in plates {
        for v in p.normal {
            b.extend_from_slice(&v.to_le_bytes());
        }
    }
    for p in plates {
        b.extend_from_slice(&p.height.to_le_bytes());
    }
    for (i, _) in plates.iter().enumerate() {
        let i = i as u16;
        for v in [i * 2, i * 2 + 1, i, i] {
            b.extend_from_slice(&v.to_le_bytes());
        }
    }
    for (s, z) in strips.iter().enumerate() {
        b.extend_from_slice(&z.to_le_bytes());
        b.extend_from_slice(&n.to_le_bytes());
        b.extend_from_slice(&((s as u16) * n).to_le_bytes());
    }
    for _ in strips {
        for i in 0..n {
            b.extend_from_slice(&i.to_le_bytes());
        }
    }
    Bdhc::parse(&b).expect("well-formed block")
}

fn flat(y_units: i32, corners: [(i32, i32); 2]) -> Plate {
    Plate { corners, normal: [0, FX32_ONE, 0], height: -y_units * FX32_ONE }
}

const HALF_CELL: i32 = 16 * TILE_FX32;
const WHOLE_CELL: [(i32, i32); 2] = [(-HALF_CELL, -HALF_CELL), (HALF_CELL, HALF_CELL)];

#[test]
fn a_flat_plate_answers_its_height_inside_and_nothing_outside() {
    let b = block(&[flat(16, WHOLE_CELL)], &[HALF_CELL]);
    assert_eq!(plate_height(&b, HeightMode::Nearest, 0, 0, 0), Some(16 * FX32_ONE));
    assert_eq!(
        plate_height(&b, HeightMode::Nearest, 0, HALF_CELL, -HALF_CELL),
        Some(16 * FX32_ONE),
        "corners are inclusive"
    );
    assert_eq!(plate_height(&b, HeightMode::Nearest, 0, HALF_CELL + 1, 0), None);
    assert_eq!(plate_height(&Bdhc::default(), HeightMode::Nearest, 0, 0, 0), None);
}

#[test]
fn a_sloped_plane_is_evaluated_with_the_rounded_fixed_point_products() {
    let b = block(
        &[Plate { corners: WHOLE_CELL, normal: [FX32_ONE, 2 * FX32_ONE, 0], height: 0 }],
        &[HALF_CELL],
    );
    let x = 12 * FX32_ONE + 3;
    let want = fx_div(mul_fx(FX32_ONE, x).wrapping_neg(), 2 * FX32_ONE).unwrap();
    assert_eq!(plate_height(&b, HeightMode::Nearest, 0, x, 0), Some(want));
    assert_eq!(want, -(6 * FX32_ONE + 1));
}

#[test]
fn modes_pick_among_overlapping_plates_as_the_asm_does() {
    let b = block(
        &[flat(16, WHOLE_CELL), flat(40, WHOLE_CELL), flat(8, WHOLE_CELL)],
        &[HALF_CELL],
    );
    assert_eq!(plate_height(&b, HeightMode::Highest, 0, 0, 0), Some(40 * FX32_ONE));
    assert_eq!(plate_height(&b, HeightMode::Lowest, 0, 0, 0), Some(8 * FX32_ONE));
    assert_eq!(plate_height(&b, HeightMode::Nearest, 30 * FX32_ONE, 0, 0), Some(40 * FX32_ONE));
    assert_eq!(
        plate_height(&b, HeightMode::Nearest, 12 * FX32_ONE, 0, 0),
        Some(16 * FX32_ONE),
        "equidistant hits keep the first"
    );
}

#[test]
fn the_strip_search_is_the_retail_one() {
    let mut strips = Vec::new();
    for z in [-8, 0, 8, 16] {
        strips.extend_from_slice(&(z * FX32_ONE).to_le_bytes());
        strips.extend_from_slice(&[0; 4]);
    }
    assert_eq!(find_strip(&strips, 0, 0), None);
    assert_eq!(find_strip(&strips, 1, 100), Some(0));
    assert_eq!(find_strip(&strips, 4, -20 * FX32_ONE), Some(0));
    assert_eq!(find_strip(&strips, 4, 4 * FX32_ONE), Some(2));
    assert_eq!(find_strip(&strips, 4, 12 * FX32_ONE), Some(3));
    assert_eq!(find_strip(&strips, 4, 40 * FX32_ONE), Some(3));
}

#[test]
fn scene_height_addresses_the_cell_and_its_centre() {
    let cell = LandCell {
        cell_x: 21,
        cell_z: 12,
        map_id: 60,
        land_id: 0,
        origin: [0; 3],
        meshes: Vec::new(),
        attrs: [0; ATTRIBUTE_COUNT],
        bdhc: block(&[flat(16, WHOLE_CELL)], &[HALF_CELL]),
    };
    let cells = [cell];
    let x = 695 * TILE_FX32 + TILE_FX32 / 2;
    let z = 397 * TILE_FX32 + TILE_FX32 / 2;
    assert_eq!(scene_height(&cells, HeightMode::Nearest, x, 0, z), Some(16 * FX32_ONE));
    assert_eq!(
        scene_height(&cells, HeightMode::Nearest, x + 32 * TILE_FX32, 0, z),
        None,
        "a tile in a cell that is not resident has no height"
    );
}

#[test]
fn fixed_point_helpers_round_and_truncate() {
    assert_eq!(mul_fx(FX32_ONE, FX32_ONE), FX32_ONE);
    assert_eq!(mul_fx(1, 0x800), 1);
    assert_eq!(mul_fx(1, 0x7FF), 0);
    assert_eq!(fx_div(FX32_ONE, 2 * FX32_ONE), Some(FX32_ONE / 2));
    assert_eq!(fx_div(-1, 2 * FX32_ONE), Some(0));
    assert_eq!(fx_div(5, 0), None);
}

fn land_member(extra: usize, props: usize, bdhc: &[u8]) -> Vec<u8> {
    let model = b"BMD0";
    let mut b = Vec::new();
    b.extend_from_slice(&(ATTRIBUTE_BYTES as u32).to_le_bytes());
    b.extend_from_slice(&((props * PROP_RECORD_SIZE) as u32).to_le_bytes());
    b.extend_from_slice(&(model.len() as u32).to_le_bytes());
    b.extend_from_slice(&(bdhc.len() as u32).to_le_bytes());
    b.extend_from_slice(&MAGIC.to_le_bytes());
    b.extend_from_slice(&(extra as u16).to_le_bytes());
    for i in 0..ATTRIBUTE_COUNT {
        b.extend_from_slice(&(i as u16).to_le_bytes());
    }
    b.extend(std::iter::repeat_n(0xEE, extra));
    for i in 0..props {
        let mut r = [0u8; PROP_RECORD_SIZE];
        r[..4].copy_from_slice(&(i as u32 + 1).to_le_bytes());
        r[4..8].copy_from_slice(&(-24 * 4096i32).to_le_bytes());
        for k in 7..10 {
            r[k * 4..k * 4 + 4].copy_from_slice(&4096u32.to_le_bytes());
        }
        b.extend_from_slice(&r);
    }
    b.extend_from_slice(model);
    b.extend_from_slice(bdhc);
    b
}

fn raw_bdhc(counts: [u16; 6]) -> Vec<u8> {
    let mut b = b"BDHC".to_vec();
    for c in counts {
        b.extend_from_slice(&c.to_le_bytes());
    }
    for (i, c) in counts.iter().enumerate() {
        b.extend(std::iter::repeat_n(i as u8, usize::from(*c) * BDHC_SIZES[i]));
    }
    b
}

#[test]
fn sections_are_laid_out_attrs_extra_props_model_bdhc() {
    let block = raw_bdhc([2, 1, 3, 1, 1, 4]);
    let land = LandData::parse(&land_member(8, 2, &block)).unwrap();
    assert_eq!(land.sizes.extra, 8);
    assert_eq!(land.extra, vec![0xEE; 8]);
    assert_eq!(land.props.len(), 2);
    assert_eq!(land.props[1].model_id, 2);
    assert_eq!(land.props[1].translation, [-24 * 4096, 0, 0]);
    assert_eq!(land.props[1].scale, [4096; 3]);
    assert_eq!(land.model, b"BMD0");
    assert_eq!(land.bdhc.counts, [2, 1, 3, 1, 1, 4]);
    assert_eq!(land.bdhc.points().len(), 16);
    assert_eq!(land.bdhc.slopes().len(), 12);
    assert_eq!(land.bdhc.heights().len(), 12);
    assert_eq!(land.bdhc.plates().len(), 8);
    assert_eq!(land.bdhc.strips().len(), 8);
    assert_eq!(land.bdhc.access_list().len(), 8);
    assert_eq!(land.attribute(1, 2), Some(65));
    assert_eq!(land.attribute(32, 0), None);
    assert_eq!(behavior(0x8086), 0x86);
    assert!(impassable(0x8000) && !impassable(0x005F));
}

#[test]
fn inconsistent_members_are_rejected() {
    let block = raw_bdhc([1, 0, 0, 0, 0, 0]);
    let mut bad = land_member(0, 1, &block);
    bad[16] = 0;
    assert!(LandData::parse(&bad).is_err(), "magic");
    let mut bad = land_member(0, 1, &block);
    bad.push(0);
    assert!(LandData::parse(&bad).is_err(), "trailing byte");
    let mut short = block.clone();
    short.pop();
    assert!(Bdhc::parse(&short).is_err());
    assert!(Bdhc::parse(b"XXXX").is_err());
    assert_eq!(Bdhc::parse(&[]).unwrap(), Bdhc::default());
}

#[test]
fn window_lookups_use_cell_then_word_indexing() {
    let mut t = TerrainAttributes::new(20, 11, 3, 3);
    let mut block = [0u16; ATTRIBUTE_COUNT];
    block[5 + 7 * 32] = 0x8086;
    block[0] = 0x005F;
    assert!(t.insert(21, 12, &block));
    assert!(!t.insert(23, 12, &block));
    assert_eq!(t.loaded_cells(), 1);
    assert_eq!(t.attr(21 * 32 + 5, 12 * 32 + 7), Some(0x8086));
    assert_eq!(t.behavior(21 * 32 + 5, 12 * 32 + 7), 0x86);
    assert!(t.impassable(21 * 32 + 5, 12 * 32 + 7));
    assert_eq!(t.behavior(21 * 32, 12 * 32), 0x5F);
    assert!(!t.impassable(21 * 32, 12 * 32));
    assert_eq!(t.attr(20 * 32, 11 * 32), None);
    assert_eq!(t.behavior(20 * 32, 11 * 32), TILE_BEHAVIOR_NONE);
    assert!(t.impassable(-1, -1));
    assert_eq!(t.window(), (20, 11, 3, 3));
    assert!(t.cell(21, 12).is_some() && t.cell(22, 12).is_none());
}

fn matrix_member(w: u8, h: u8, headers: bool, alts: bool) -> Vec<u8> {
    let n = usize::from(w) * usize::from(h);
    let mut b = vec![w, h, u8::from(headers), u8::from(alts), 3, b'a', b'b', b'c'];
    if headers {
        for i in 0..n {
            b.extend_from_slice(&(100 + i as u16).to_le_bytes());
        }
    }
    if alts {
        b.extend((0..n).map(|i| i as u8 + 1));
    }
    for i in 0..n {
        b.extend_from_slice(&(200 + i as u16).to_le_bytes());
    }
    b
}

#[test]
fn full_member_parses_and_indexes_row_major() {
    let m = MapMatrix::parse(7, &matrix_member(3, 2, true, true), 5).unwrap();
    assert_eq!((m.width, m.height, m.name.as_str()), (3, 2, "abc"));
    assert_eq!(m.cell_count(), 6);
    assert_eq!(m.header(2, 1), Some(105));
    assert_eq!(m.altitude(2, 1), Some(6));
    assert_eq!(m.land_id(0, 1), Some(203));
    assert_eq!(m.index(3, 0), None);
    assert_eq!(m.index(0, -1), None);
    assert_eq!(m.cell_origin(1, 1), Some([768 << 12, 5 << 15, 768 << 12]));
}

#[test]
fn missing_sections_fill_like_the_game() {
    let m = MapMatrix::parse(1, &matrix_member(1, 1, false, false), 64).unwrap();
    assert_eq!(m.headers, vec![64]);
    assert_eq!(m.altitudes, vec![0]);
    assert_eq!(m.land_ids, vec![200]);
    assert!(!m.has_headers && !m.has_altitudes);
    assert_eq!(m.cell_origin(0, 0), Some([256 << 12, 0, 256 << 12]));
}

#[test]
fn malformed_members_are_rejected() {
    assert!(MapMatrix::parse(0, &[1, 1, 0, 0], 0).is_err());
    assert!(MapMatrix::parse(0, &[0, 1, 0, 0, 0], 0).is_err());
    assert!(MapMatrix::parse(0, &[1, 1, 0, 0, 17], 0).is_err());
    assert!(MapMatrix::parse(0, &matrix_member(2, 2, true, true)[..10], 0).is_err());
}

#[test]
fn tile_to_cell_floors() {
    assert_eq!(MapMatrix::cell_of_tile(31, 32), (0, 1));
    assert_eq!(MapMatrix::cell_of_tile(-1, 0), (-1, 0));
}

/// Map 64 (the player's bedroom) with its constants resolved.
fn bedroom() -> MapHeader {
    MapHeader {
        wild_encounter_bank: NO_WILD_ENCOUNTERS,
        area_data_bank: 25,
        move_model_bank: 15,
        world_map_x: 21,
        world_map_y: 12,
        matrix_id: 72,
        scripts_bank: 846,
        script_header_bank: 619,
        msg_bank: 546,
        day_music_id: 1018,
        night_music_id: 1018,
        events_bank: 61,
        mapsec: 126,
        area_icon: 9,
        mom_call_intro_param: 0,
        region_no: 0,
        weather: 0,
        map_type: MapType::Interior,
        camera_type: 4,
        follow_mode: FollowMode::HeightRestrict,
        battle_bg: 6,
        bike_allowed: false,
        running_allowed_unused: true,
        escape_rope_allowed: false,
        fly_allowed: false,
        outgoing_calls: true,
        incoming_calls: true,
        radio_signal: true,
    }
}

#[test]
fn bedroom_record_roundtrips_through_the_bitfield_packing() {
    let h = bedroom();
    let bytes = h.encode();
    assert_eq!(&bytes[..4], &[0xFF, 0x19, 0x5F, 0x31]);
    assert_eq!(&bytes[20..], &[0x00, 0x44, 0x64, 0xE4]);
    assert_eq!(MapHeader::parse(&bytes).unwrap(), h);
    assert!(!h.has_wild_encounters());
}

#[test]
fn out_of_range_enumerators_are_rejected() {
    let mut bytes = bedroom().encode();
    bytes[21] = 0x0F;
    assert!(MapHeader::parse(&bytes).is_err());
    let mut bytes = bedroom().encode();
    bytes[22] |= 0x0C;
    assert!(MapHeader::parse(&bytes).is_err());
    assert!(MapHeader::parse(&bytes[..10]).is_err());
}

#[test]
fn record_addresses_step_by_24() {
    assert_eq!(record_address(0), MAP_HEADERS_ADDRESS);
    assert_eq!(record_address(64), 0x020F_71E0);
}

#[test]
fn table_parse_needs_all_records_and_names() {
    let table = vec![0u8; MAP_HEADER_COUNT * MAP_HEADER_SIZE];
    let names = vec![0u8; MAP_HEADER_COUNT * MAP_NAME_SIZE];
    let t = MapHeaders::parse(&table, &names).unwrap();
    assert_eq!(t.len(), MAP_HEADER_COUNT);
    assert_eq!(t.name(0), Some(""));
    assert!(t.get(540).is_none());
    assert!(MapHeaders::parse(&table[..100], &names).is_err());
}

#[test]
fn records_and_frame_table_decode() {
    let b = [
        0x01, 0x06, 0x00, 0x00, 0x00, 0x03, 0x0a, 0x00, 0x00, 0x00, 0x00, 0x41, 0x01, 0x06, 0x00,
        0x72, 0x40, 0x00, 0x00,
    ];
    let s = InitScripts::parse(&b).unwrap();
    assert_eq!(s.records.len(), 2);
    assert_eq!(s.on_resume(), Some(10));
    assert_eq!(s.on_transition(), None);
    assert_eq!(s.frame_table, vec![FrameTableEntry { var_a: 0x141, var_b: 6, script_id: 0x4072 }]);
    assert_eq!(InitScripts::parse(&[0, 0, 0, 0]).unwrap(), InitScripts::default());
    assert!(InitScripts::parse(&[1, 0, 0, 0, 0]).is_err(), "no terminator");
    assert!(InitScripts::parse(&[1, 9, 0, 0, 0, 0]).is_err(), "table past end");
    assert_eq!(InitScripts::parse(&[2, 0xFF, 0xFF, 0, 0, 0]).unwrap().on_transition(), None);
}

#[test]
fn preset_record_layout() {
    let mut r = [0u8; CAMERA_PRESET_SIZE];
    r[..4].copy_from_slice(&0x0061_B89Bu32.to_le_bytes());
    r[4..6].copy_from_slice(&0xDC82u16.to_le_bytes());
    r[12] = 1;
    r[14..16].copy_from_slice(&0x0281u16.to_le_bytes());
    r[16..20].copy_from_slice(&0x0009_6000u32.to_le_bytes());
    r[20..24].copy_from_slice(&0x006C_7000u32.to_le_bytes());
    r[28..32].copy_from_slice(&(-4096i32).to_le_bytes());
    let p = CameraPreset::parse(&r).unwrap();
    assert_eq!(p.distance, 0x0061_B89B);
    assert_eq!(p.angle, [0xDC82, 0, 0]);
    assert_eq!((p.perspective_type, p.fovy_angle), (1, 0x0281));
    assert_eq!((p.near, p.far), (0x0009_6000, 0x006C_7000));
    assert_eq!(p.look_at_offset, [0, -4096, 0]);
}

#[test]
fn overlay_tables_walk_the_image() {
    let mut image = vec![0u8; 64];
    image[8..14].copy_from_slice(&[0, 0, 69, 0, 0x60, 0x1C]);
    image[14..20].copy_from_slice(&[97, 0, 70, 0, 0x60, 0x1C]);
    image[20..22].copy_from_slice(&0xFFFFu16.to_le_bytes());
    let ov = Ov01::from_image(SPRITE_MODEL_TABLE_ADDRESS - 8, image);
    let t = SpriteModelTable::from_overlay(&ov).unwrap();
    assert_eq!(t.entries().len(), 2);
    assert_eq!(t.model_for_sprite(SPRITE_HERO), Some(69));
    assert_eq!(t.model_for_sprite(SPRITE_HEROINE), Some(70));
    assert_eq!(t.model_for_sprite(5), None);
    assert!(ov.bytes(ov.ram_address - 1, 1, "x").is_err());
    assert!(ov.bytes(ov.ram_address + 60, 8, "x").is_err());
    assert!(CameraPresets::from_overlay(&ov).is_err());
    assert_eq!(player_sprite(0), SPRITE_HERO);
    assert_eq!(player_sprite(1), SPRITE_HEROINE);
}

#[test]
fn land_base_transposes_the_row_vector_matrix() {
    let mut scale = Vec::new();
    for s in [FX32_ONE, 2 * FX32_ONE, 3 * FX32_ONE] {
        scale.extend_from_slice(&s.to_le_bytes());
    }
    let rows = [[0, 0, -FX32_ONE], [0, FX32_ONE, 0], [FX32_ONE, 0, 0]];
    let mut rotation = Vec::new();
    for row in rows {
        for v in row {
            rotation.extend_from_slice(&v.to_le_bytes());
        }
    }
    let base = LandBase::parse(&scale, &rotation).unwrap();
    assert_eq!(base.scale, [FX32_ONE, 2 * FX32_ONE, 3 * FX32_ONE]);
    assert_eq!(base.rotation, [[0, 0, FX32_ONE], [0, FX32_ONE, 0], [-FX32_ONE, 0, 0]]);
    let p = base.at([10, 20, 30]);
    assert_eq!(p.translation, [10, 20, 30]);
    assert_eq!(p.rotation, base.rotation);
    assert_eq!(p.scale, base.scale);
    assert!(LandBase::parse(&scale[..8], &rotation).is_err());
    let mut image = vec![0u8; 0x40];
    image[..12].copy_from_slice(&scale);
    image[12..48].copy_from_slice(&rotation);
    let ov = Ov01::from_image(LAND_BASE_SCALE_ADDRESS, image);
    assert_eq!(ov.land_base().unwrap(), base);
}

#[test]
fn the_identity_land_base_is_unit_scale() {
    let id = LandBase::identity();
    assert_eq!(id.scale, [FX32_ONE; 3]);
    assert_eq!(id.rotation, [[FX32_ONE, 0, 0], [0, FX32_ONE, 0], [0, 0, FX32_ONE]]);
}

#[test]
fn synthetic_scenes_hold_only_what_they_are_given() {
    let player = Texture { width: 1, height: 1, pixels: vec![[1, 2, 3, 4]] };
    let scene = FieldScene::synthetic(64, Vec::new(), player.clone(), [6, 6], CameraPreset::default());
    assert_eq!(scene.map_id, 64);
    assert_eq!(scene.position, [6, 6]);
    assert_eq!(scene.player, player);
    assert!(scene.name.is_empty() && scene.cells.is_empty() && scene.props.is_empty());
    assert_eq!(scene.window, CellWindow { x0: 0, z0: 0, width: 0, height: 0 });
    assert!(scene.cell_at(6, 6).is_none());
}

#[test]
fn cell_at_finds_the_first_resident_cell_of_a_tile() {
    let player = Texture { width: 0, height: 0, pixels: Vec::new() };
    let mut scene = FieldScene::synthetic(0, Vec::new(), player, [0, 0], CameraPreset::default());
    for (cx, cz, land_id) in [(20u8, 12u8, 1u16), (21, 12, 2), (21, 12, 3)] {
        scene.cells.push(LandCell {
            cell_x: cx,
            cell_z: cz,
            map_id: 0,
            land_id,
            origin: [0; 3],
            meshes: Vec::new(),
            attrs: [0; ATTRIBUTE_COUNT],
            bdhc: block(&[flat(16, WHOLE_CELL)], &[HALF_CELL]),
        });
    }
    // Tile (695, 397) is in cell (21, 12); the first such cell wins.
    assert_eq!(scene.cell_at(695, 397).map(|c| c.land_id), Some(2));
    assert_eq!(scene.cell_at(640, 384).map(|c| c.land_id), Some(1));
    assert!(scene.cell_at(0, 0).is_none());
}

#[test]
fn resident_window_follows_the_radius_choice() {
    let m = matrix(47, 17);
    // Tile (21 * 32 + 5, 12 * 32) sits in cell (21, 12).
    let (x, z) = (21 * 32 + 5, 12 * 32);
    assert_eq!(
        FieldScene::resident_window(&m, x, z, None),
        CellWindow { x0: 20, z0: 11, width: 3, height: 3 }
    );
    assert_eq!(FieldScene::resident_window(&m, x, z, Some(usize::MAX)), CellWindow::all(&m));
    assert_eq!(
        FieldScene::resident_window(&m, x, z, Some(0)),
        CellWindow { x0: 21, z0: 12, width: 1, height: 1 }
    );
    assert_eq!(
        FieldScene::resident_window(&m, x, z, Some(2)),
        CellWindow { x0: 19, z0: 10, width: 5, height: 5 }
    );
    // A radius wider than the matrix clamps to the whole matrix.
    assert_eq!(FieldScene::resident_window(&m, x, z, Some(1000)), CellWindow::all(&m));
    // Negative tiles fall in negative cells, clamped to the first.
    assert_eq!(
        FieldScene::resident_window(&m, -1, -1, None),
        CellWindow { x0: 0, z0: 0, width: 1, height: 1 }
    );
}

#[test]
fn props_draw_listed_models_at_the_cell_offset() {
    let ids = [3u16, 17, 42];
    assert_eq!(FieldScene::prop_model_id(&ids, 17), 17);
    assert_eq!(FieldScene::prop_model_id(&ids, 18), 0);
    assert_eq!(FieldScene::prop_model_id(&ids, -1), 0);
    assert_eq!(FieldScene::prop_model_id(&[0xFFFF], -1), 0);
    assert_eq!(FieldScene::prop_model_id(&[], 3), 0);
    assert_eq!(
        FieldScene::prop_translation([0x100000, 0x8000, 0x300000], [0x2000, -0x1000, -0x4000]),
        [0x102000, -0x1000, 0x2FC000]
    );
}

#[test]
fn resident_cells_skip_cells_without_land() {
    let mut m = matrix(3, 2);
    m.land_ids = vec![5, 0xFFFF, 7, 0xFFFF, 9, 0xFFFF];
    let all = CellWindow::all(&m);
    assert_eq!(FieldScene::resident_cells(&m, all), vec![(0, 0, 5), (2, 0, 7), (1, 1, 9)]);
    // A window reaching past the matrix keeps only cells inside it.
    let w = CellWindow { x0: 1, z0: 1, width: 3, height: 2 };
    assert_eq!(FieldScene::resident_cells(&m, w), vec![(1, 1, 9)]);
}

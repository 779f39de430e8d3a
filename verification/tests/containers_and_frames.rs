use lib::formats::narc::{is_narc, Narc};
use lib::frame::plane;
use lib::frame::{
    AssetId, Blend, DisplaySelect, EngineFrame, LogicalFrame, MasterBrightness, ScreenSize,
};
use lib::input::key;
use lib::input::{Input, Keys, Touch};

/// A NARC with named members: `a.bin` (member 0) at the root and
/// `sub/c.bin` (member 1), payloads `AAA` and `CCC` padded with 0xFF.
fn build_named_narc() -> Vec<u8> {
    let payloads: [&[u8]; 2] = [b"AAA", b"CCC"];
    let dir_count = 2usize;
    let root_subtable = dir_count * 8;
    let root_sub = [
        0x05, b'a', b'.', b'b', b'i', b'n', 0x80 + 3, b's', b'u', b'b', 0x01, 0xF0, 0x00,
    ];
    let sub_sub_off = root_subtable + root_sub.len();
    let sub_sub = [0x05, b'c', b'.', b'b', b'i', b'n', 0x00];
    let btnf_data_len = dir_count * 8 + root_sub.len() + sub_sub.len();

    let btaf_size = 12 + 8 * payloads.len();
    let gmif_size = 8 + 4 * payloads.len();
    let total = 0x10 + btaf_size + (8 + btnf_data_len) + gmif_size;

    let mut rom = vec![0u8; total];
    rom[0..4].copy_from_slice(b"NARC");
    rom[4..6].copy_from_slice(&0xFFFEu16.to_le_bytes());
    rom[6..8].copy_from_slice(&0x0100u16.to_le_bytes());
    rom[8..12].copy_from_slice(&(total as u32).to_le_bytes());
    rom[0x0C..0x0E].copy_from_slice(&0x10u16.to_le_bytes());
    rom[0x0E..0x10].copy_from_slice(&3u16.to_le_bytes());

    let mut off = 0x10;
    rom[off..off + 4].copy_from_slice(b"BTAF");
    rom[off + 4..off + 8].copy_from_slice(&(btaf_size as u32).to_le_bytes());
    rom[off + 8..off + 10].copy_from_slice(&2u16.to_le_bytes());
    for (i, (start, end)) in [(0u32, 3u32), (4, 7)].iter().enumerate() {
        rom[off + 12 + 8 * i..off + 16 + 8 * i].copy_from_slice(&start.to_le_bytes());
        rom[off + 16 + 8 * i..off + 20 + 8 * i].copy_from_slice(&end.to_le_bytes());
    }
    off += btaf_size;

    rom[off..off + 4].copy_from_slice(b"BTNF");
    rom[off + 4..off + 8].copy_from_slice(&((8 + btnf_data_len) as u32).to_le_bytes());
    let btnf = off + 8;
    let mut rec = |o: usize, sub: u32, top: u16, parent: u16| {
        rom[btnf + o..btnf + o + 4].copy_from_slice(&sub.to_le_bytes());
        rom[btnf + o + 4..btnf + o + 6].copy_from_slice(&top.to_le_bytes());
        rom[btnf + o + 6..btnf + o + 8].copy_from_slice(&parent.to_le_bytes());
    };
    rec(0, root_subtable as u32, 0, dir_count as u16);
    rec(8, sub_sub_off as u32, 1, 0xF000);
    rom[btnf + root_subtable..btnf + root_subtable + root_sub.len()].copy_from_slice(&root_sub);
    rom[btnf + sub_sub_off..btnf + sub_sub_off + sub_sub.len()].copy_from_slice(&sub_sub);
    off += 8 + btnf_data_len;

    rom[off..off + 4].copy_from_slice(b"GMIF");
    rom[off + 4..off + 8].copy_from_slice(&(gmif_size as u32).to_le_bytes());
    for (i, payload) in payloads.iter().enumerate() {
        rom[off + 8 + 4 * i..off + 8 + 4 * i + payload.len()].copy_from_slice(payload);
    }
    rom
}

#[test]
fn parses_named_members() {
    let data = build_named_narc();
    let narc = Narc::parse(&data).expect("named NARC must parse");

    assert_eq!(narc.file_count(), 2);
    assert_eq!(narc.file(0).unwrap(), b"AAA");
    assert_eq!(narc.file(1).unwrap(), b"CCC");
    assert_eq!(narc.name(0), Some("a.bin"));
    assert_eq!(narc.name(1), Some("sub/c.bin"));
    assert_eq!(narc.file_by_name("sub/c.bin"), Some(&b"CCC"[..]));
    assert!(narc.file_by_name("nope.bin").is_none());
    assert!(narc.file(2).is_err());
}

#[test]
fn parses_retail_style_index_only_archive() {
    let data = [
        b'N', b'A', b'R', b'C', 0xFE, 0xFF, 0x00, 0x01, 0x40, 0x00, 0x00, 0x00, 0x10, 0x00, 0x03,
        0x00, b'B', b'T', b'A', b'F', 0x14, 0x00, 0x00, 0x00, 0x01, 0x00, 0x00, 0x00, 0x00, 0x00,
        0x00, 0x00, 0x01, 0x00, 0x00, 0x00, b'B', b'T', b'N', b'F', 0x10, 0x00, 0x00, 0x00, 0x04,
        0x00, 0x00, 0x00, 0x00, 0x00, 0x01, 0x00, b'G', b'M', b'I', b'F', 0x0C, 0x00, 0x00, 0x00,
        0x00, 0xFF, 0xFF, 0xFF,
    ];
    assert!(is_narc(&data));
    let narc = Narc::parse(&data).expect("retail-style NARC must parse");
    assert_eq!(narc.file_count(), 1);
    assert_eq!(narc.file(0).unwrap(), &[0x00]);
    assert_eq!(narc.name(0), None);
}

#[test]
fn narc_rejects_broken_archives() {
    let good = build_named_narc();

    let mut bad_magic = good.clone();
    bad_magic[0..4].copy_from_slice(b"NARB");
    assert!(Narc::parse(&bad_magic).is_err());

    let truncated = &good[..good.len() - 4];
    assert!(Narc::parse(truncated).is_err());

    let mut bad_size = good.clone();
    bad_size[8..12].copy_from_slice(&((good.len() - 1) as u32).to_le_bytes());
    assert!(Narc::parse(&bad_size).is_err());

    let mut bad_range = good.clone();
    bad_range[0x1C..0x20].copy_from_slice(&0xFFFFu32.to_le_bytes());
    assert!(Narc::parse(&bad_range).is_err());

    let mut reversed = good.clone();
    reversed[0x1C..0x20].copy_from_slice(&3u32.to_le_bytes());
    reversed[0x20..0x24].copy_from_slice(&0u32.to_le_bytes());
    assert!(Narc::parse(&reversed).is_err());

    assert!(!is_narc(b"not a narc at all"));
    assert!(Narc::parse(b"NARC").is_err());
}

#[test]
fn key_bits_match_the_register_layout() {
    assert_eq!(key::A, 1 << 0);
    assert_eq!(key::B, 1 << 1);
    assert_eq!(key::SELECT, 1 << 2);
    assert_eq!(key::START, 1 << 3);
    assert_eq!(key::RIGHT, 1 << 4);
    assert_eq!(key::LEFT, 1 << 5);
    assert_eq!(key::UP, 1 << 6);
    assert_eq!(key::DOWN, 1 << 7);
    assert_eq!(key::R, 1 << 8);
    assert_eq!(key::L, 1 << 9);
    assert_eq!(key::X, 1 << 10);
    assert_eq!(key::Y, 1 << 11);
}

#[test]
fn keys_queries_hold_state() {
    let keys = Keys(key::A | key::UP | key::START);
    assert!(keys.down(key::A));
    assert!(keys.down(key::A | key::UP));
    assert!(!keys.down(key::A | key::B));
    assert!(keys.any(key::B | key::START));
    assert!(!keys.any(key::B | key::Y));
    assert_eq!(Keys::idle(), Keys(0));
}

#[test]
fn keys_detect_press_edges() {
    let prev = Keys(key::A);
    let now = Keys(key::A | key::START);
    let pressed = now.pressed(prev);
    assert!(pressed.down(key::START));
    assert!(!pressed.any(key::A));
    assert_eq!(now.pressed(now), Keys::idle());
}

#[test]
fn input_carries_keys_and_touch() {
    let idle = Input::default();
    assert_eq!(idle.keys, Keys::idle());
    assert_eq!(idle.touch, None);
    let touched = Input { keys: Keys(key::B), touch: Some(Touch { x: 128, y: 96 }) };
    assert!(touched.keys.down(key::B));
    assert_eq!(touched.touch, Some(Touch { x: 128, y: 96 }));
}

#[test]
fn default_frame_is_both_engines_dark() {
    let frame = LogicalFrame::default();
    assert_eq!(frame.display, DisplaySelect::MainOnTop);
    for engine in [&frame.main, &frame.sub] {
        assert_eq!(engine.backdrop, 0, "black backdrop");
        assert_eq!(engine.blend, Blend::default());
        assert_eq!(engine.brightness, MasterBrightness::default());
        assert!(engine.bgs.iter().all(|bg| !bg.enabled));
        assert!(engine.char_blocks.iter().all(|block| block.is_none()));
    }
}

#[test]
fn screen_sizes_cover_the_text_layouts() {
    let cases = [
        (ScreenSize::W256xH256, 32, 32),
        (ScreenSize::W512xH256, 64, 32),
        (ScreenSize::W256xH512, 32, 64),
        (ScreenSize::W512xH512, 64, 64),
    ];
    for (size, wide, tall) in cases {
        assert_eq!(size.tiles_wide(), wide);
        assert_eq!(size.tiles_tall(), tall);
    }
}

#[test]
fn asset_ids_sequence_like_the_store_assigns() {
    let a = AssetId::first();
    let b = a.next().next();
    assert_eq!(b.index(), 2);
    assert_ne!(a, b);
}

#[test]
fn asset_id_indices_round_trip() {
    assert_eq!(AssetId::from_index(7).index(), 7);
    assert_eq!(AssetId::first().index(), 0);
}

#[test]
fn layers_sharing_a_char_base_share_the_slot() {
    let mut sub = EngineFrame::default();
    sub.char_blocks[4] = Some(AssetId::first());
    sub.bgs[0].char_base = 4;
    sub.bgs[0].screen = Some(AssetId::first().next());
    sub.bgs[1].char_base = 4;
    sub.bgs[1].screen = Some(AssetId::first().next().next());
    assert_eq!(sub.bgs[0].char_base, sub.bgs[1].char_base);
    assert_eq!(sub.char_blocks[4], sub.char_blocks[sub.bgs[1].char_base as usize]);
}

#[test]
fn plane_mask_bits_match_the_sdk() {
    assert_eq!(plane::BG0, 0x01);
    assert_eq!(plane::BG1, 0x02);
    assert_eq!(plane::BG2, 0x04);
    assert_eq!(plane::BG3, 0x08);
    assert_eq!(plane::OBJ, 0x10);
    assert_eq!(plane::BD, 0x20);
}

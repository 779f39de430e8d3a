use lib::field::model::decode_texture;
use lib::formats::btx::{is_btx, Btx, BtxPalette, BtxTexture, TexFmt};

/// Two textures (16×16 PLTT16, then 8×8 A5I3 at offset 128) and two
/// palettes (at 0 and 32), laid out exactly as a retail file.
///
/// Fixed layout the negative tests patch into:
fn build_btx() -> Vec<u8> {
    let tex_a_size: usize = 16 * 16 / 2; // PLTT16, 4bpp
    let tex_b_size: usize = 8 * 8; // A5I3, 8bpp
    let tex_data_len: usize = tex_a_size + tex_b_size; // 192
    let pltt_data_len: usize = 64; // two 16-color palettes

    // Header + block table (0x18).
    // Dictionary headers sit at 0x50 (texture) and 0x98 (palette);
    // texture entries at 0x68/0x70, palette entries at 0xB0/0xB4;
    // texture data 0xD8..0x198, palette data 0x198..0x1D8 (file end).
    let mut rom = vec![0u8; 0x18];
    rom[0..4].copy_from_slice(b"BTX0");
    rom[4..6].copy_from_slice(&0xFEFFu16.to_le_bytes());
    rom[6..8].copy_from_slice(&0x0001u16.to_le_bytes());
    rom[0x0C..0x0E].copy_from_slice(&0x10u16.to_le_bytes());
    rom[0x0E..0x10].copy_from_slice(&1u16.to_le_bytes());
    rom[0x10..0x14].copy_from_slice(&0x14u32.to_le_bytes());

    // texInfo (0x1C..0x2C): sizeTex 192/8, ofsDict 0x3C.
    let mut tex_info = vec![0u8; 0x10];
    tex_info[4..6].copy_from_slice(&((tex_data_len / 8) as u16).to_le_bytes());
    tex_info[6..8].copy_from_slice(&0x3Cu16.to_le_bytes());

    // tex4x4Info (0x2C..0x40): zero size, dict mirrors 0x3C.
    let mut t44_info = vec![0u8; 0x14];
    t44_info[6..8].copy_from_slice(&0x3Cu16.to_le_bytes());

    // plttInfo (0x40..0x50): sizePltt 64/8, ofsDict patched below.
    let mut pltt_info = vec![0u8; 0x10];
    pltt_info[4..6].copy_from_slice(&((pltt_data_len / 8) as u16).to_le_bytes());
    // flag stays 0 (16-color palettes, not PLTT4).

    // Texture dictionary at 0x50: 2 entries, sizeUnit 8.
    let num = 2usize;
    let tex_ofs_entry = 12 + 4 * num; // 20
    let tex_ofs_name = 4 + 8 * num; // 20
    let tex_blk = tex_ofs_entry + tex_ofs_name + 16 * num; // 72
    let mut tex_dict = vec![0u8; 8 + 4 * (num + 1)]; // header + nodes
    tex_dict[1] = num as u8;
    tex_dict[2..4].copy_from_slice(&(tex_blk as u16).to_le_bytes());
    tex_dict[4..6].copy_from_slice(&8u16.to_le_bytes()); // dummy
    tex_dict[6..8].copy_from_slice(&(tex_ofs_entry as u16).to_le_bytes());
    let mut tex_rest = vec![0u8; 4 + 8 * num + 16 * num]; // entry header + entries + names
    tex_rest[0..2].copy_from_slice(&8u16.to_le_bytes()); // sizeUnit
    tex_rest[2..4].copy_from_slice(&(tex_ofs_name as u16).to_le_bytes());
    // Entry 0: off 0, 16x16 PLTT16 (exp 1), color0 transparent.
    let param0: u32 = (1 << 20) | (1 << 23) | (3 << 26) | (1 << 29);
    tex_rest[4..8].copy_from_slice(&param0.to_le_bytes());
    tex_rest[8..12].copy_from_slice(&(0x8000_0000u32 | (16 << 11) | 16).to_le_bytes());
    // Entry 1: off 128, 8x8 A5I3 (fmt 6, exp 0), color0 used.
    let param1: u32 = (128 / 8) | (6 << 26);
    tex_rest[12..16].copy_from_slice(&param1.to_le_bytes());
    tex_rest[16..20].copy_from_slice(&(0x8000_0000u32 | (8 << 11) | 8).to_le_bytes());
    for (i, name) in ["test_a", "shadow"].iter().enumerate() {
        let slot = 4 + 8 * num + 16 * i;
        tex_rest[slot..slot + name.len()].copy_from_slice(name.as_bytes());
    }
    tex_dict.extend(tex_rest);

    // Palette dictionary at 0x98: 2 entries, sizeUnit 4.
    let pltt_ofs_entry = 12 + 4 * num; // 20
    let pltt_ofs_name = 4 + 4 * num; // 12
    let pltt_blk = pltt_ofs_entry + pltt_ofs_name + 16 * num; // 64
    let mut pltt_dict = vec![0u8; 8 + 4 * (num + 1)];
    pltt_dict[1] = num as u8;
    pltt_dict[2..4].copy_from_slice(&(pltt_blk as u16).to_le_bytes());
    pltt_dict[4..6].copy_from_slice(&8u16.to_le_bytes());
    pltt_dict[6..8].copy_from_slice(&(pltt_ofs_entry as u16).to_le_bytes());
    let mut pltt_rest = vec![0u8; 4 + 4 * num + 16 * num];
    pltt_rest[0..2].copy_from_slice(&4u16.to_le_bytes());
    pltt_rest[2..4].copy_from_slice(&(pltt_ofs_name as u16).to_le_bytes());
    // Entry 0: base 0, word1 0. Entry 1: base 32/8=4, word1 1.
    pltt_rest[4..6].copy_from_slice(&0u16.to_le_bytes());
    pltt_rest[6..8].copy_from_slice(&0u16.to_le_bytes());
    pltt_rest[8..10].copy_from_slice(&4u16.to_le_bytes());
    pltt_rest[10..12].copy_from_slice(&1u16.to_le_bytes());
    for (i, name) in ["pal_a", "pal_b"].iter().enumerate() {
        let slot = 4 + 4 * num + 16 * i;
        pltt_rest[slot..slot + name.len()].copy_from_slice(name.as_bytes());
    }
    pltt_dict.extend(pltt_rest);

    // Texture data, then palette data, both recognizable bytes.
    let tex_data: Vec<u8> = (0..tex_data_len).map(|i| (0xA0 + i) as u8).collect();
    let pltt_data: Vec<u8> = (0..pltt_data_len).map(|i| (0x10 + i * 3) as u8).collect();

    // Assemble: header(0x10) + block table(4) + TEX0(8) + infos(0x34)
    // + dicts + data.
    let tex_data_start =
        0x14 + 8 + tex_info.len() + t44_info.len() + pltt_info.len() + tex_blk + pltt_blk;
    let pltt_data_start = tex_data_start + tex_data_len;
    let total = pltt_data_start + pltt_data_len;
    rom.resize(total, 0);
    rom[8..12].copy_from_slice(&(total as u32).to_le_bytes());
    let mut off = 0x14;
    rom[off..off + 4].copy_from_slice(b"TEX0");
    rom[off + 4..off + 8].copy_from_slice(&((total - 0x14) as u32).to_le_bytes());
    off += 8;
    rom[off..off + tex_info.len()].copy_from_slice(&tex_info);
    let ofs_tex = tex_data_start - 0x14;
    rom[off + 12..off + 16].copy_from_slice(&(ofs_tex as u32).to_le_bytes());
    off += tex_info.len();
    rom[off..off + t44_info.len()].copy_from_slice(&t44_info);
    off += t44_info.len();
    rom[off..off + pltt_info.len()].copy_from_slice(&pltt_info);
    let pltt_dict_off = 0x3C + tex_blk;
    rom[off + 8..off + 10].copy_from_slice(&(pltt_dict_off as u16).to_le_bytes());
    let ofs_pltt = pltt_data_start - 0x14;
    rom[off + 12..off + 16].copy_from_slice(&(ofs_pltt as u32).to_le_bytes());
    off += pltt_info.len();
    rom[off..off + tex_blk].copy_from_slice(&tex_dict);
    off += tex_blk;
    rom[off..off + pltt_blk].copy_from_slice(&pltt_dict);
    off += pltt_blk;
    rom[off..off + tex_data_len].copy_from_slice(&tex_data);
    off += tex_data_len;
    rom[off..off + pltt_data_len].copy_from_slice(&pltt_data);
    rom
}

#[test]
fn parses_container_dicts_entries_and_data() {
    let data = build_btx();
    assert!(is_btx(&data));
    let btx = Btx::parse(&data).expect("synthetic BTX must parse");

    assert!(!btx.uses_pltt4());
    assert_eq!(btx.texture_count(), 2);
    assert_eq!(btx.palette_count(), 2);
    assert_eq!(btx.texture_data().len(), 192);
    assert_eq!(btx.palette_data().len(), 64);

    let a = &btx.textures()[0];
    assert_eq!(a.name(), "test_a");
    assert_eq!((a.width(), a.height()), (16, 16));
    assert_eq!(a.fmt(), TexFmt::Pltt16);
    assert!(a.color0_transparent());
    assert_eq!(a.offset(), 0);
    assert_eq!(a.declared_size(), 128);
    assert_eq!(a.data(), &data[0xD8..0xD8 + 128]);
    assert_eq!(a.data()[0], 0xA0);

    let b = &btx.textures()[1];
    assert_eq!(b.name(), "shadow");
    assert_eq!((b.width(), b.height()), (8, 8));
    assert_eq!(b.fmt(), TexFmt::A5i3);
    assert!(!b.color0_transparent());
    assert_eq!(b.offset(), 128);
    assert_eq!(b.data(), &data[0xD8 + 128..0xD8 + 128 + 64]);

    let pal_a = &btx.palettes()[0];
    assert_eq!(pal_a.name(), "pal_a");
    assert_eq!(pal_a.offset(), 0);
    assert_eq!(pal_a.word1(), 0);
    assert_eq!(pal_a.data().len(), 64);
    assert_eq!(pal_a.data()[0], 0x10);

    let pal_b = &btx.palettes()[1];
    assert_eq!(pal_b.name(), "pal_b");
    assert_eq!(pal_b.offset(), 32);
    assert_eq!(pal_b.word1(), 1);
    assert_eq!(pal_b.data().len(), 32);

    assert_eq!(
        btx.texture_by_name("shadow").map(BtxTexture::name),
        Some("shadow")
    );
    assert_eq!(
        btx.palette_by_name("pal_b").map(BtxPalette::offset),
        Some(32)
    );
    assert!(btx.texture_by_name("missing").is_none());

    assert_eq!(btx.to_bytes(), data, "round-trips byte-exact");
}

#[test]
fn clamps_overrunning_texture_data() {
    // Retail-style overrun: shrink the texture data (sizeTex and
    // ofsPlttData) so entry 1's declared span pokes past its end.
    // The parser must clamp the slice instead of rejecting the file.
    let mut data = build_btx();
    let tex_bytes = 128 + 32; // only 32 of shadow's 64 bytes exist
    data[0x1C + 4..0x1C + 6].copy_from_slice(&((tex_bytes / 8) as u16).to_le_bytes());
    let new_pltt = 0xD8 + tex_bytes;
    data[0x40 + 12..0x40 + 16].copy_from_slice(&((new_pltt - 0x14) as u32).to_le_bytes());
    // Move the palette data up and shrink the file.
    data.truncate(new_pltt);
    data.extend_from_slice(&[0x55u8; 64]);
    let total = data.len();
    data[8..12].copy_from_slice(&(total as u32).to_le_bytes());
    data[0x14 + 4..0x14 + 8].copy_from_slice(&((total - 0x14) as u32).to_le_bytes());

    let btx = Btx::parse(&data).expect("overrunning retail shape must parse");
    let shadow = &btx.textures()[1];
    assert_eq!(shadow.declared_size(), 64);
    assert_eq!(shadow.data().len(), 32);
    assert_eq!(btx.texture_data().len(), 160);

    assert_eq!(btx.to_bytes(), data, "clamped file round-trips byte-exact");
}

#[test]
fn round_trips_verbatim_writer_artifacts() {
    // The two tex4x4Info data pointers are garbage on every retail
    // file — never validated, never derived — so the serializer must
    // copy them verbatim. Patch nonzero values in and confirm they
    // survive the round trip (along with the trie nodes, which
    // build_btx leaves mostly zero).
    let mut data = build_btx();
    data[0x14 + 0x24..0x14 + 0x28].copy_from_slice(&0xDEAD_BEEFu32.to_le_bytes());
    data[0x14 + 0x28..0x14 + 0x2C].copy_from_slice(&0x0BAD_F00Du32.to_le_bytes());
    data[0x14 + 0x3C + 8] = 0x7F; // texture trie node byte

    let btx = Btx::parse(&data).expect("garbage-patched BTX must parse");
    assert_eq!(btx.to_bytes(), data, "garbage pointers and nodes survive");
}

#[test]
fn rejects_broken_btx() {
    let good = build_btx();

    let mut bad_magic = good.clone();
    bad_magic[0..4].copy_from_slice(b"XTB0");
    assert!(!is_btx(&bad_magic));
    assert!(Btx::parse(&bad_magic).is_err());

    assert!(Btx::parse(&good[..good.len() - 1]).is_err());

    let u16at = |rom: &mut [u8], at: usize, value: u16| {
        rom[at..at + 2].copy_from_slice(&value.to_le_bytes());
    };
    let u32at = |rom: &mut [u8], at: usize, value: u32| {
        rom[at..at + 4].copy_from_slice(&value.to_le_bytes());
    };

    // Container fields (header is 0x10, block table at 0x10).
    let mut bad = good.clone();
    u16at(&mut bad, 0x06, 0x0100); // wrong version
    assert!(Btx::parse(&bad).is_err());
    u16at(&mut bad, 0x06, 1);
    u16at(&mut bad, 0x0E, 2); // two blocks
    assert!(Btx::parse(&bad).is_err());
    u16at(&mut bad, 0x0E, 1);
    u32at(&mut bad, 0x10, 0x18); // block not at 0x14
    assert!(Btx::parse(&bad).is_err());
    u32at(&mut bad, 0x10, 0x14);
    u32at(&mut bad, 0x14 + 4, 0x100); // TEX0 size wrong
    assert!(Btx::parse(&bad).is_err());

    // TEX0 info fields: texInfo at 0x1C, tex4x4 at 0x2C, pltt at 0x40.
    let mut bad = good.clone();
    u32at(&mut bad, 0x1C, 1); // vram key
    assert!(Btx::parse(&bad).is_err());
    u32at(&mut bad, 0x1C, 0);
    u16at(&mut bad, 0x30, 8); // a 4x4 texture exists
    assert!(Btx::parse(&bad).is_err());
    u16at(&mut bad, 0x30, 0);
    u16at(&mut bad, 0x46, 0x1234); // undefined pltt flag bits
    assert!(Btx::parse(&bad).is_err());
    u16at(&mut bad, 0x46, 0);

    // Region abutment: each pointer off by one must fail.
    let mut bad = good.clone();
    u16at(&mut bad, 0x48, 0x84 + 4); // palette dict not adjacent
    assert!(Btx::parse(&bad).is_err());
    let mut bad = good.clone();
    u32at(&mut bad, 0x28, 0xC8 + 4); // ofsTex not adjacent
    assert!(Btx::parse(&bad).is_err());
    let mut bad = good.clone();
    u32at(&mut bad, 0x4C, 0x188 - 8); // ofsPlttData not adjacent
    assert!(Btx::parse(&bad).is_err());

    // Dictionary structure (texture dict header at 0x50).
    let mut bad = good.clone();
    bad[0x50] = 1; // revision
    assert!(Btx::parse(&bad).is_err());
    let mut bad = good.clone();
    u16at(&mut bad, 0x50 + 4, 4); // dummy not 8
    assert!(Btx::parse(&bad).is_err());
    let mut bad = good.clone();
    u16at(&mut bad, 0x50 + 6, 24); // ofsEntry not 12+4*num
    assert!(Btx::parse(&bad).is_err());
    let mut bad = good.clone();
    u16at(&mut bad, 0x50 + 20, 16); // sizeUnit not 8
    assert!(Btx::parse(&bad).is_err());
    let mut bad = good.clone();
    u16at(&mut bad, 0x50 + 20 + 2, 24); // ofsName not 4+8*num
    assert!(Btx::parse(&bad).is_err());
    let mut bad = good.clone();
    u16at(&mut bad, 0x50 + 2, 60); // sizeDictBlk wrong
    assert!(Btx::parse(&bad).is_err());
    let mut bad = good.clone();
    bad[0x78] = 0xFF; // name not printable ASCII
    assert!(Btx::parse(&bad).is_err());

    // Texture entries at 0x68 and 0x70.
    let mut bad = good.clone();
    u32at(&mut bad, 0x68, 0x0001_0000); // bits 16-19 set
    assert!(Btx::parse(&bad).is_err());
    let mut bad = good.clone();
    u32at(
        &mut bad,
        0x68,
        (7 << 26) | (1 << 20) | (1 << 23) | (1 << 29),
    ); // DIRECT
    assert!(Btx::parse(&bad).is_err());
    let mut bad = good.clone();
    u32at(&mut bad, 0x68, (1 << 29) | (3 << 26) | (1 << 23)); // width exp 0, width 16
    assert!(Btx::parse(&bad).is_err());
    let mut bad = good.clone();
    u32at(&mut bad, 0x6C, 0x0000_8010); // bit 31 clear
    assert!(Btx::parse(&bad).is_err());
    let mut bad = good.clone();
    u32at(&mut bad, 0x6C, 0x8040_8010); // bits 22-30 set
    assert!(Btx::parse(&bad).is_err());
    let mut bad = good.clone();
    u32at(&mut bad, 0x70, 0x0FFF | (6 << 26)); // offset outside the data
    assert!(Btx::parse(&bad).is_err());
    let mut bad = good.clone();
    u32at(
        &mut bad,
        0x68,
        8 | (1 << 20) | (1 << 23) | (3 << 26) | (1 << 29),
    );
    u32at(&mut bad, 0x70, 16 | (6 << 26)); // no texture at offset 0
    assert!(Btx::parse(&bad).is_err());

    // Palette entries at 0xB0 and 0xB4.
    let mut bad = good.clone();
    u16at(&mut bad, 0xB0, 0x2000); // base bits 13-15 set
    assert!(Btx::parse(&bad).is_err());
    let mut bad = good.clone();
    u16at(&mut bad, 0xB4, 0x8); // 64 bytes, past the 64-byte area
    assert!(Btx::parse(&bad).is_err());

    assert!(!is_btx(b"not a btx at all"));
    assert!(Btx::parse(b"BTX0").is_err());
}

#[test]
fn decodes_bound_textures_against_their_palettes() {
    let data = build_btx();
    let btx = Btx::parse(&data).expect("synthetic BTX must parse");

    // 16x16 PLTT16, color 0 transparent: texel 0 is index 0 of the
    // first data byte 0xA0 (low nibble), texel 1 index 10 (high nibble).
    let a = decode_texture(&btx, "test_a", "pal_a").expect("bound texture decodes");
    assert_eq!((a.width, a.height), (16, 16));
    assert_eq!(a.pixels.len(), 256);
    assert_eq!(a.pixels[0], [132, 198, 33, 0]);
    assert_eq!(a.pixels[1], [99, 214, 156, 255]);

    // 8x8 A5I3 against the second palette: byte 32 is index 0, alpha
    // 4 * 255 / 31, and color 0 is opaque for this texture.
    let b = decode_texture(&btx, "shadow", "pal_b").expect("bound texture decodes");
    assert_eq!((b.width, b.height), (8, 8));
    assert_eq!(b.pixels[0], [132, 222, 231, 32]);

    assert!(decode_texture(&btx, "missing", "pal_a").is_err());
    assert!(decode_texture(&btx, "test_a", "missing").is_err());
    // A 16-color texture indexes past the 32-byte second palette's
    // last color only when its index reaches 16, which never happens;
    // the shadow texture's 64 bytes against a 32-byte palette decode.
    assert!(decode_texture(&btx, "test_a", "pal_b").is_ok());
}

#[test]
fn rejects_textures_wider_than_256() {
    let good = build_btx();
    let u32at = |rom: &mut [u8], at: usize, value: u32| {
        rom[at..at + 4].copy_from_slice(&value.to_le_bytes());
    };
    // Texture 0 as 512 x 16: width exponent 6, and a size word that
    // agrees with the exponents.
    let mut bad = good.clone();
    u32at(&mut bad, 0x68, (1 << 29) | (3 << 26) | (1 << 23) | (6 << 20));
    u32at(&mut bad, 0x6C, 0x8000_0000 | (16 << 11) | 512);
    assert!(Btx::parse(&bad).is_err());
    // The same entry at 256 x 16 is accepted.
    let mut ok = good.clone();
    u32at(&mut ok, 0x68, (1 << 29) | (3 << 26) | (1 << 23) | (5 << 20));
    u32at(&mut ok, 0x6C, 0x8000_0000 | (16 << 11) | 256);
    let b = Btx::parse(&ok).expect("256-wide texture parses");
    assert_eq!(b.textures()[0].width(), 256);
}

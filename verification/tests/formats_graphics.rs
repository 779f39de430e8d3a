use lib::formats::ncgr::{is_ncgr, CharMapping, Ncgr};
use lib::formats::nclr::{is_nclr, Nclr, FLAGGED_16C_FMT};
use lib::formats::nscr::{is_nscr, Nscr};
use lib::formats::PixelFmt;

/// A 32×16-pixel (4×2-tile) text screen with eight entries.
fn build_nscr() -> Vec<u8> {
    let entries: [u8; 16] = [
        0x4A, 0x00, 0x4B, 0x00, 0x4C, 0x00, 0x00, 0x00, 0x00, 0x00, 0x00, 0x00, 0x00, 0x00, 0x0C,
        0x04,
    ];
    let scrn_size = 8 + 0x0C + entries.len();
    let total = 0x10 + scrn_size;

    let mut rom = vec![0u8; total];
    rom[0..4].copy_from_slice(b"RCSN");
    rom[4..6].copy_from_slice(&0xFEFFu16.to_le_bytes());
    rom[6..8].copy_from_slice(&0x0100u16.to_le_bytes());
    rom[8..12].copy_from_slice(&(total as u32).to_le_bytes());
    rom[0xC..0xE].copy_from_slice(&0x10u16.to_le_bytes());
    rom[0xE..0x10].copy_from_slice(&1u16.to_le_bytes());

    rom[0x10..0x14].copy_from_slice(b"NRCS");
    rom[0x14..0x18].copy_from_slice(&(scrn_size as u32).to_le_bytes());
    rom[0x18..0x1A].copy_from_slice(&32u16.to_le_bytes());
    rom[0x1A..0x1C].copy_from_slice(&16u16.to_le_bytes());
    rom[0x1C..0x1E].copy_from_slice(&0u16.to_le_bytes());
    rom[0x1E..0x20].copy_from_slice(&0u16.to_le_bytes());
    rom[0x20..0x24].copy_from_slice(&(entries.len() as u32).to_le_bytes());
    rom[0x24..0x24 + entries.len()].copy_from_slice(&entries);
    rom
}

#[test]
fn parses_text_screen() {
    let data = build_nscr();
    assert!(is_nscr(&data));
    let nscr = Nscr::parse(&data).expect("NSCR must parse");

    assert_eq!(nscr.width(), 32);
    assert_eq!(nscr.height(), 16);
    assert_eq!(nscr.width_tiles(), 4);
    assert_eq!(nscr.height_tiles(), 2);
    assert_eq!(nscr.color_mode(), 0);
    assert_eq!(nscr.screen_format(), 0);
    assert_eq!(nscr.entries(), &data[0x24..0x34]);
    assert_eq!(nscr.entry(0, 0), Ok(0x004A));
    assert_eq!(nscr.entry(1, 0), Ok(0x004B));
    assert_eq!(nscr.entry(3, 1), Ok(0x040C));
    assert!(nscr.entry(4, 0).is_err());
    assert!(nscr.entry(0, 2).is_err());
}

#[test]
fn rejects_broken_nscr() {
    let good = build_nscr();

    let mut bad_magic = good.clone();
    bad_magic[0..4].copy_from_slice(b"RCSM");
    assert!(Nscr::parse(&bad_magic).is_err());

    assert!(Nscr::parse(&good[..good.len() - 2]).is_err());

    let mut bad_dims = good.clone();
    bad_dims[0x18..0x1A].copy_from_slice(&33u16.to_le_bytes());
    assert!(Nscr::parse(&bad_dims).is_err());

    let mut bad_size = good.clone();
    bad_size[0x20..0x24].copy_from_slice(&4u32.to_le_bytes());
    assert!(Nscr::parse(&bad_size).is_err());

    assert!(!is_nscr(b"not an nscr at all"));
    assert!(Nscr::parse(b"RCSN").is_err());
}

#[test]
fn a_section_shorter_than_its_header_is_rejected() {
    let mut data = build_nscr();
    data.truncate(0x24);
    data[8..12].copy_from_slice(&0x24u32.to_le_bytes());
    data[0x14..0x18].copy_from_slice(&0x10u32.to_le_bytes());
    assert!(Nscr::parse(&data).is_err());
}

/// Two stored 16-color palettes and a PMCP mapping three slots onto
/// them.
fn build_compressed_nclr() -> Vec<u8> {
    let colors: [u8; 2 * 16 * 2] = [0x55; 2 * 16 * 2];
    let pltt_size = 8 + 0x10 + colors.len();
    let pmcp = [0x03u16, 0xBEEF];
    let pmcp_indices = [0x0000u16, 0x0000, 0x0001];
    let pmcp_size = 8 + 8 + pmcp_indices.len() * 2;
    let total = 0x10 + pltt_size + pmcp_size;

    let mut rom = vec![0u8; total];
    rom[0..4].copy_from_slice(b"RLCN");
    rom[4..6].copy_from_slice(&0xFEFFu16.to_le_bytes());
    rom[6..8].copy_from_slice(&0x0100u16.to_le_bytes());
    rom[8..12].copy_from_slice(&(total as u32).to_le_bytes());
    rom[0xC..0xE].copy_from_slice(&0x10u16.to_le_bytes());
    rom[0xE..0x10].copy_from_slice(&2u16.to_le_bytes());

    rom[0x10..0x14].copy_from_slice(b"TTLP");
    rom[0x14..0x18].copy_from_slice(&(pltt_size as u32).to_le_bytes());
    rom[0x18..0x1C].copy_from_slice(&3u32.to_le_bytes());
    rom[0x1C..0x20].copy_from_slice(&0u32.to_le_bytes());
    rom[0x20..0x24].copy_from_slice(&((colors.len() * 3) as u32).to_le_bytes());
    rom[0x24..0x28].copy_from_slice(&0x10u32.to_le_bytes());
    rom[0x28..0x28 + colors.len()].copy_from_slice(&colors);

    let off = 0x10 + pltt_size;
    rom[off..off + 4].copy_from_slice(b"PMCP");
    rom[off + 4..off + 8].copy_from_slice(&(pmcp_size as u32).to_le_bytes());
    for (i, v) in pmcp.iter().enumerate() {
        rom[off + 8 + 2 * i..off + 10 + 2 * i].copy_from_slice(&v.to_le_bytes());
    }
    rom[off + 0xC..off + 0x10].copy_from_slice(&8u32.to_le_bytes());
    for (i, v) in pmcp_indices.iter().enumerate() {
        rom[off + 0x10 + 2 * i..off + 0x12 + 2 * i].copy_from_slice(&v.to_le_bytes());
    }
    rom
}

#[test]
fn parses_flagged_16color_fmt() {
    let mut data = build_compressed_nclr();
    data[0x18..0x1C].copy_from_slice(&FLAGGED_16C_FMT.to_le_bytes());
    let nclr = Nclr::parse(&data).expect("flagged-fmt NCLR must parse");
    assert_eq!(nclr.fmt_raw(), FLAGGED_16C_FMT);
    assert_eq!(nclr.pixel_fmt(), PixelFmt::Pltt16);
    assert_eq!(nclr.bpp(), 4);
}

#[test]
fn parses_compressed_palettes() {
    let data = build_compressed_nclr();
    assert!(is_nclr(&data));
    let nclr = Nclr::parse(&data).expect("compressed NCLR must parse");

    assert_eq!(nclr.version(), 0x0100);
    assert_eq!(nclr.pixel_fmt(), PixelFmt::Pltt16);
    assert_eq!(nclr.bpp(), 4);
    assert_eq!(nclr.fmt_raw(), 3);
    assert!(!nclr.is_extended());
    assert_eq!(nclr.color_count(), 32);
    assert!(nclr.is_compressed());
    assert_eq!(nclr.logical_size(), 192);

    let pmcp = nclr.pmcp().expect("PMCP present");
    assert_eq!(pmcp.num_palettes(), 3);
    assert_eq!(pmcp.palette_of(0), Ok(0));
    assert_eq!(pmcp.palette_of(1), Ok(0));
    assert_eq!(pmcp.palette_of(2), Ok(1));
    assert!(pmcp.palette_of(3).is_err());
}

#[test]
fn rejects_broken_nclr() {
    let good = build_compressed_nclr();

    let mut bad_magic = good.clone();
    bad_magic[0..4].copy_from_slice(b"RLCM");
    assert!(Nclr::parse(&bad_magic).is_err());

    assert!(Nclr::parse(&good[..good.len() - 2]).is_err());

    let mut bad_fmt = good.clone();
    bad_fmt[0x18..0x1C].copy_from_slice(&5u32.to_le_bytes());
    assert!(Nclr::parse(&bad_fmt).is_err());

    let mut bad_off = good.clone();
    bad_off[0x24..0x28].copy_from_slice(&0x20u32.to_le_bytes());
    assert!(Nclr::parse(&bad_off).is_err());

    let mut bad_pad = good.clone();
    bad_pad[0x72..0x74].copy_from_slice(&0x0000u16.to_le_bytes());
    assert!(Nclr::parse(&bad_pad).is_err());

    assert!(!is_nclr(b"not an nclr at all"));
    assert!(Nclr::parse(b"RLCN").is_err());
}

#[test]
fn an_eight_bit_palette_without_pmcp_is_plain() {
    let mut data = build_compressed_nclr();
    let pltt_end = 0x10 + 8 + 0x10 + 64;
    data.truncate(pltt_end);
    data[8..12].copy_from_slice(&(pltt_end as u32).to_le_bytes());
    data[0xE..0x10].copy_from_slice(&1u16.to_le_bytes());
    data[0x18..0x1C].copy_from_slice(&4u32.to_le_bytes());
    data[0x20..0x24].copy_from_slice(&64u32.to_le_bytes());
    let nclr = Nclr::parse(&data).expect("plain NCLR must parse");
    assert_eq!(nclr.pixel_fmt(), PixelFmt::Pltt256);
    assert_eq!(nclr.bpp(), 8);
    assert!(!nclr.is_compressed());
    assert!(nclr.pmcp().is_none());
}

/// One CHAR section with a 4bpp 2×1-tile sheet, optionally followed by
/// a CPOS section.
fn build_ncgr(with_cpos: bool) -> Vec<u8> {
    let tiles: &[u8] = &[0xAB; 2 * 32];
    let char_size = 8 + 0x18 + tiles.len();
    let cpos_size = if with_cpos { 0x10 } else { 0 };
    let total = 0x10 + char_size + cpos_size;

    let mut rom = vec![0u8; total];
    rom[0..4].copy_from_slice(b"RGCN");
    rom[4..6].copy_from_slice(&0xFEFFu16.to_le_bytes());
    rom[6..8].copy_from_slice(&0x0100u16.to_le_bytes());
    rom[8..12].copy_from_slice(&(total as u32).to_le_bytes());
    rom[0xC..0xE].copy_from_slice(&0x10u16.to_le_bytes());
    rom[0xE..0x10].copy_from_slice(&(if with_cpos { 2u16 } else { 1u16 }).to_le_bytes());

    rom[0x10..0x14].copy_from_slice(b"RAHC");
    rom[0x14..0x18].copy_from_slice(&(char_size as u32).to_le_bytes());
    let hdr = 0x18;
    rom[hdr..hdr + 2].copy_from_slice(&1u16.to_le_bytes());
    rom[hdr + 2..hdr + 4].copy_from_slice(&2u16.to_le_bytes());
    rom[hdr + 4..hdr + 8].copy_from_slice(&3u32.to_le_bytes());
    rom[hdr + 8..hdr + 12].copy_from_slice(&0u32.to_le_bytes());
    rom[hdr + 12..hdr + 16].copy_from_slice(&1u32.to_le_bytes());
    rom[hdr + 16..hdr + 20].copy_from_slice(&(tiles.len() as u32).to_le_bytes());
    rom[hdr + 20..hdr + 24].copy_from_slice(&0x18u32.to_le_bytes());
    rom[hdr + 24..hdr + 24 + tiles.len()].copy_from_slice(tiles);

    if with_cpos {
        let off = 0x10 + char_size;
        rom[off..off + 4].copy_from_slice(b"SOPC");
        rom[off + 4..off + 8].copy_from_slice(&0x10u32.to_le_bytes());
        rom[off + 0xC..off + 0xE].copy_from_slice(&2u16.to_le_bytes());
        rom[off + 0xE..off + 0x10].copy_from_slice(&1u16.to_le_bytes());
    }
    rom
}

#[test]
fn parses_char_with_and_without_cpos() {
    let data = build_ncgr(false);
    assert!(is_ncgr(&data));
    let ncgr = Ncgr::parse(&data).expect("CHAR-only NCGR must parse");
    assert_eq!(ncgr.height(), Some(1));
    assert_eq!(ncgr.width(), Some(2));
    assert_eq!(ncgr.pixel_fmt(), PixelFmt::Pltt16);
    assert_eq!(ncgr.bpp(), 4);
    assert_eq!(ncgr.mapping(), CharMapping::TwoD);
    assert!(!ncgr.has_vram_transfer());
    assert_eq!(ncgr.tile_data(), &[0xAB; 64]);
    assert_eq!(ncgr.tile_count(), 2);
    assert_eq!(ncgr.cpos(), None);

    let data = build_ncgr(true);
    let ncgr = Ncgr::parse(&data).expect("CHAR+CPOS NCGR must parse");
    assert_eq!(ncgr.cpos(), Some((2, 1)));
}

#[test]
fn decodes_1d_mapping_modes() {
    for (raw, expected) in [
        (0u32, CharMapping::TwoD),
        (0x10, CharMapping::OneD32K),
        (0x0010_0010, CharMapping::OneD64K),
        (0x0020_0010, CharMapping::OneD128K),
        (0x0030_0010, CharMapping::OneD256K),
    ] {
        let mut data = build_ncgr(false);
        data[0x18 + 8..0x18 + 12].copy_from_slice(&raw.to_le_bytes());
        let ncgr = Ncgr::parse(&data).expect("mapping-mode NCGR must parse");
        assert_eq!(ncgr.mapping(), expected);
        assert_eq!(ncgr.to_bytes(), data, "round-trips the raw mapping");
    }
}

#[test]
fn round_trips_synthetic_files() {
    for with_cpos in [false, true] {
        let data = build_ncgr(with_cpos);
        let ncgr = Ncgr::parse(&data).expect("synthetic NCGR must parse");
        assert_eq!(ncgr.to_bytes(), data, "byte-exact with and without CPOS");
    }
}

#[test]
fn rejects_broken_ncgr() {
    let good = build_ncgr(false);

    let mut bad_magic = good.clone();
    bad_magic[0..4].copy_from_slice(b"RGCM");
    assert!(Ncgr::parse(&bad_magic).is_err());

    assert!(Ncgr::parse(&good[..good.len() - 2]).is_err());

    let mut bad_fmt = good.clone();
    bad_fmt[0x1C..0x20].copy_from_slice(&6u32.to_le_bytes());
    assert!(Ncgr::parse(&bad_fmt).is_err());

    let mut bad_map = good.clone();
    bad_map[0x20..0x24].copy_from_slice(&0x40u32.to_le_bytes());
    assert!(Ncgr::parse(&bad_map).is_err());

    let mut bad_off = good.clone();
    bad_off[0x2C..0x30].copy_from_slice(&0x20u32.to_le_bytes());
    assert!(Ncgr::parse(&bad_off).is_err());

    assert!(!is_ncgr(b"not an ncgr at all"));
    assert!(Ncgr::parse(b"RGCN").is_err());
}

#[test]
fn linear_sheets_have_no_grid() {
    let mut data = build_ncgr(false);
    data[0x18..0x1C].copy_from_slice(&[0xFF, 0xFF, 0xFF, 0xFF]);
    data[0x18 + 12..0x18 + 16].copy_from_slice(&0x101u32.to_le_bytes());
    let ncgr = Ncgr::parse(&data).expect("linear NCGR must parse");
    assert_eq!(ncgr.height(), None);
    assert_eq!(ncgr.width(), None);
    assert!(ncgr.has_vram_transfer());
    assert_eq!(ncgr.to_bytes(), data);
}

#[test]
fn trailing_bytes_after_the_sections_are_rejected() {
    let mut data = build_ncgr(false);
    data.push(0);
    let total = data.len() as u32;
    data[8..12].copy_from_slice(&total.to_le_bytes());
    assert!(Ncgr::parse(&data).is_err());
}

use lib::font::{font_info, Font, CHAR_LF, FALLBACK_GLYPH_INDEX};
use lib::formats::msg::EOS;

/// The glyph count every parseable font must reach: the fallback
/// glyph 427's width read keeps `num_glyphs >= 428` true for any
/// font the parser accepts (the retail fonts all have 509).
const PADDED_GLYPHS: u32 = FALLBACK_GLYPH_INDEX + 1;

/// A minimal font, padded to the fallback coverage the parser
/// demands: 8×8 glyphs with a width table (widths 8..12 cycling).
fn font_bytes(num_glyphs: u32, glyph_width: u8, glyph_height: u8) -> Vec<u8> {
    let num_glyphs = num_glyphs.max(PADDED_GLYPHS);
    let header_size = 16u32 + num_glyphs; // widths after the header
    let glyph_bytes = 16 * usize::from(glyph_width) * usize::from(glyph_height);
    let mut data = Vec::new();
    data.extend_from_slice(&header_size.to_le_bytes());
    data.extend_from_slice(&16u32.to_le_bytes()); // widths at 16
    data.extend_from_slice(&num_glyphs.to_le_bytes());
    data.push(0); // fixedWidth
    data.push(glyph_height * 8); // fixedHeight
    data.push(glyph_width);
    data.push(glyph_height);
    for i in 0..num_glyphs {
        data.push(8 + (i as u8 % 5)); // widths 8..12
    }
    for i in 0..num_glyphs * glyph_bytes as u32 {
        // Deterministic pattern: level = (i / 2) % 4.
        data.push(((i / 2) % 4) as u8);
    }
    data
}

/// Glyph 0's data offset in a `font_bytes` fixture: right after
/// the 16-byte header and the padded width table.
fn glyph0_at() -> usize {
    16 + PADDED_GLYPHS as usize
}

#[test]
fn parses_header_and_widths() {
    let data = font_bytes(3, 1, 1);
    let font = Font::parse(&data).expect("parses");
    // The fixture pads to the fallback coverage; the widths it
    // asserts live in the first entries either way.
    assert_eq!(font.num_glyphs(), PADDED_GLYPHS);
    assert_eq!(font.fixed_height(), 8);
    assert_eq!(font.char_width(1), 8);
    assert_eq!(font.char_width(2), 9);
    // The last glyph is reachable: the loader's `<=` remap.
    assert_eq!(font.index_of(3), 2);
    // The padded table's last glyph is reachable through the
    // loader's `<=`, and anything beyond falls back to glyph 427.
    assert_eq!(font.index_of(PADDED_GLYPHS as u16), FALLBACK_GLYPH_INDEX);
    assert_eq!(font.index_of(PADDED_GLYPHS as u16 + 1), FALLBACK_GLYPH_INDEX);
}

#[test]
fn glyph_decode_maps_half_rows() {
    let mut data = font_bytes(1, 1, 1);
    let glyph_at = glyph0_at();
    // Row 0's little-endian u16 is 0x1BE4: the high byte 0x1B is
    // the left half row, the low byte 0xE4 the right. Within each
    // byte the lookup's index arithmetic puts the *high* 2-bit
    // pair at the leftmost pixel: 0x1B = 00 01 10 11 → levels
    // 0,1,2,3; 0xE4 = 11 10 01 00 → 3,2,1,0.
    data[glyph_at..glyph_at + 2].copy_from_slice(&0x1BE4u16.to_le_bytes());
    let font = Font::parse(&data).expect("parses");
    let glyph = font.glyph(1);
    assert_eq!(
        &glyph.pixels[0..8],
        &[0, 1, 2, 3, 3, 2, 1, 0],
        "high byte is the left half row, high pair first"
    );
    // Row 1 decodes from the pattern bytes: source bytes 2-3 are
    // 0x01,0x01 → u16 0x0101, level 1 at pixel 3 of each half.
    assert_eq!(&glyph.pixels[8..16], &[0, 0, 0, 1, 0, 0, 0, 1]);
    assert_eq!(glyph.level(3, 0), 3);
    assert_eq!(glyph.level(4, 0), 3);
    assert_eq!(glyph.level(3, 1), 1);
}

#[test]
fn sixteen_by_sixteen_places_four_blocks() {
    // A 16x16 glyph: 4 source tiles → 4 blocks, row-major
    // (TL, TR, BL, BR). Mark each tile's top-left pixel: u16
    // `level << 14` puts the level at the high byte's bits 7-6 —
    // pixel (0,0) of the block.
    let mut data = font_bytes(1, 2, 2);
    let glyph_at = glyph0_at();
    for (tile, level) in [(0usize, 1u8), (1, 2), (2, 3), (3, 1)] {
        let at = glyph_at + tile * 16;
        data[at..at + 2].copy_from_slice(&(u16::from(level) << 14).to_le_bytes());
    }
    let font = Font::parse(&data).expect("parses");
    let glyph = font.glyph(1);
    assert_eq!(glyph.level(0, 0), 1, "TL");
    assert_eq!(glyph.level(8, 0), 2, "TR");
    assert_eq!(glyph.level(0, 8), 3, "BL");
    assert_eq!(glyph.level(8, 8), 1, "BR");
    assert_eq!(glyph.height, 16);
}

#[test]
fn width_walkers_skip_control_codes() {
    let data = font_bytes(10, 1, 1);
    let font = Font::parse(&data).expect("parses");
    // Three chars, a skipped control block, one char. Chars 1, 2,
    // 3, 4 have widths 8, 9, 10, 11.
    let units = [1u16, 2, 3, 0xFFFE, 0xFF00, 1, 0x0003, 4, EOS];
    assert_eq!(font.string_width(&units, 0), 8 + 9 + 10 + 11);
    // First line stops at LF.
    let units = [1, 2, CHAR_LF, 3, EOS];
    assert_eq!(font.first_line_width(&units, 0), 8 + 9);
    // Multiline takes the widest line.
    let units = [1, 1, CHAR_LF, 1, 2, 3, EOS];
    assert_eq!(font.multiline_width(&units, 0), 8 + 9 + 10);
    // Letter spacing adds per glyph and comes off once at the end.
    let units = [1, 2, EOS];
    assert_eq!(font.string_width(&units, 2), 8 + 2 + 9 + 2 - 2);
}

#[test]
fn rejects_broken_fonts() {
    // Truncated header.
    assert!(Font::parse(&[0u8; 8]).is_err());
    // Glyph shape beyond the game's 2x2 table.
    let mut data = font_bytes(1, 1, 1);
    data[14] = 3;
    assert!(Font::parse(&data).is_err());
    // A width table too short for the fallback glyph read: the
    // fixture pads to 428, so shrink the declared count instead.
    let mut data = font_bytes(3, 1, 1);
    data[8..12].copy_from_slice(&3u32.to_le_bytes());
    assert!(Font::parse(&data).is_err());
    // Truncated glyph data.
    let mut data = font_bytes(2, 1, 1);
    data.truncate(data.len() - 16);
    assert!(Font::parse(&data).is_err());
    // fixedHeight beyond the glyph's tiles.
    let mut data = font_bytes(1, 1, 1);
    data[13] = 16;
    assert!(Font::parse(&data).is_err());
}

#[test]
fn font_info_matches_pret() {
    for id in 0..5 {
        let info = font_info(id);
        assert_eq!((info.max_letter_width, info.max_letter_height), (0x0B, 0x10));
        assert_eq!(
            (info.fg_color, info.bg_color, info.shadow_color),
            (1, 0x0F, 2)
        );
    }
    assert_eq!(font_info(5).max_letter_width, 0x0A);
}

#[test]
fn width_checks_say_when_a_string_can_be_measured() {
    let data = font_bytes(10, 1, 1);
    let font = Font::parse(&data).expect("parses");
    assert!(font.string_width_fits(&[1, 2, 3, EOS], 0));
    // A zero character before EOS has no width.
    assert!(!font.string_width_fits(&[1, 0, 3, EOS], 0));
    // After EOS nothing is read.
    assert!(font.string_width_fits(&[1, EOS, 0], 0));
    // The first line ends at the linefeed, before the zero character.
    assert!(font.first_line_width_fits(&[1, CHAR_LF, 0, EOS], 0));
    assert!(!font.string_width_fits(&[1, CHAR_LF, 0, EOS], 0));
}

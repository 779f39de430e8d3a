use lib::formats::ncer::{is_ncer, CellMapping, Ncer};

/// A NCER with two cells of two OAM entries each; the OAM bytes are
/// `attr0 = i*0x11`, `attr1 = 0x22`, `attr2 = 0x33`. Optional VRAM
/// transfer and UCAT blocks are appended when requested; labels name the
/// cells.
fn build_ncer(extended: bool, with_vram: bool, with_ucat: bool) -> Vec<u8> {
    let n_cells = 2usize;
    let oams_per_cell = 2usize;
    let stride = if extended { 0x10 } else { 0x8 };

    // Cell records.
    let mut kbec_body = vec![0u8; 0x18];
    kbec_body[0..2].copy_from_slice(&(n_cells as u16).to_le_bytes());
    kbec_body[2..4].copy_from_slice(&(extended as u16).to_le_bytes());
    kbec_body[4..8].copy_from_slice(&0x18u32.to_le_bytes());
    kbec_body[8..12].copy_from_slice(&0u32.to_le_bytes()); // 1D_32K mapping
    for i in 0..n_cells {
        let at = 0x18 + i * stride;
        kbec_body.resize(at + stride, 0);
        kbec_body[at..at + 2].copy_from_slice(&(oams_per_cell as u16).to_le_bytes());
        kbec_body[at + 2..at + 4].copy_from_slice(&0x0820u16.to_le_bytes()); // rect flag + radius 0x20
        kbec_body[at + 4..at + 6]
            .copy_from_slice(&((i * oams_per_cell * 6) as u16).to_le_bytes());
        if extended {
            kbec_body[at + 8..at + 10].copy_from_slice(&16i16.to_le_bytes()); // maxX
            kbec_body[at + 10..at + 12].copy_from_slice(&8i16.to_le_bytes()); // maxY
            kbec_body[at + 12..at + 14].copy_from_slice(&(-16i16).to_le_bytes()); // minX
            kbec_body[at + 14..at + 16].copy_from_slice(&(-8i16).to_le_bytes()); // minY
        }
    }

    // OAM data: 2 registers per entry.
    let total_oam = n_cells * oams_per_cell;
    let oam_start = kbec_body.len();
    kbec_body.resize(oam_start + 6 * total_oam, 0);
    for e in 0..total_oam {
        let at = oam_start + 6 * e;
        kbec_body[at..at + 2].copy_from_slice(&((e * 0x11) as u16).to_le_bytes());
        kbec_body[at + 2..at + 4].copy_from_slice(&0x22u16.to_le_bytes());
        kbec_body[at + 4..at + 6].copy_from_slice(&0x33u16.to_le_bytes());
    }
    // 4-byte alignment pad.
    kbec_body.resize((kbec_body.len() + 3) & !3, 0);

    // Optional VRAM transfer: max size, reserved 8, one pair per cell.
    let vram_off = if with_vram {
        let off = kbec_body.len();
        kbec_body.extend_from_slice(&0x100u32.to_le_bytes());
        kbec_body.extend_from_slice(&8u32.to_le_bytes());
        for i in 0..n_cells {
            kbec_body.extend_from_slice(&((i * 0x40) as u32).to_le_bytes());
            kbec_body.extend_from_slice(&0x40u32.to_le_bytes());
        }
        Some(off)
    } else {
        None
    };

    // Optional UCAT: header, derived pointers, then attributes.
    let ucat_off = if with_ucat {
        let off = kbec_body.len();
        let ucat_size = 0x10 + 8 * n_cells;
        kbec_body.extend_from_slice(b"TACU");
        kbec_body.extend_from_slice(&(ucat_size as u32).to_le_bytes());
        kbec_body.extend_from_slice(&(n_cells as u16).to_le_bytes());
        kbec_body.extend_from_slice(&1u16.to_le_bytes());
        kbec_body.extend_from_slice(&8u32.to_le_bytes());
        for i in 0..n_cells {
            kbec_body.extend_from_slice(&((8 + 4 * n_cells + 4 * i) as u32).to_le_bytes());
        }
        for i in 0..n_cells {
            kbec_body.extend_from_slice(&(0x1000 + i as u32).to_le_bytes());
        }
        Some(off)
    } else {
        None
    };

    let kbec_size = 8 + kbec_body.len();

    // LBAL: one label per cell.
    let names: Vec<&[u8]> = vec![b"left", b"right"];
    let mut labl_body = Vec::new();
    let table_size = 4 * names.len();
    let mut pos = table_size;
    let mut offsets = Vec::new();
    for name in &names {
        offsets.push((pos - table_size) as u32);
        pos += name.len() + 1;
    }
    for off in &offsets {
        labl_body.extend_from_slice(&off.to_le_bytes());
    }
    for name in &names {
        labl_body.extend_from_slice(name);
        labl_body.push(0);
    }
    let labl_size = 8 + labl_body.len();

    let total = 0x10 + kbec_size + labl_size + 0xC;
    let mut rom = vec![0u8; total];
    rom[0..4].copy_from_slice(b"RECN");
    rom[4..6].copy_from_slice(&0xFEFFu16.to_le_bytes());
    rom[6..8].copy_from_slice(&0x0100u16.to_le_bytes());
    rom[8..12].copy_from_slice(&(total as u32).to_le_bytes());
    rom[0xC..0xE].copy_from_slice(&0x10u16.to_le_bytes());
    rom[0xE..0x10].copy_from_slice(&3u16.to_le_bytes());

    let mut off = 0x10;
    rom[off..off + 4].copy_from_slice(b"KBEC");
    rom[off + 4..off + 8].copy_from_slice(&(kbec_size as u32).to_le_bytes());
    rom[off + 8..off + 8 + kbec_body.len()].copy_from_slice(&kbec_body);
    let vram_field = vram_off.unwrap_or(0);
    let ucat_field = ucat_off.unwrap_or(0);
    rom[off + 8 + 0xC..off + 8 + 0x10].copy_from_slice(&(vram_field as u32).to_le_bytes());
    rom[off + 8 + 0x14..off + 8 + 0x18].copy_from_slice(&(ucat_field as u32).to_le_bytes());
    off += kbec_size;

    rom[off..off + 4].copy_from_slice(b"LBAL");
    rom[off + 4..off + 8].copy_from_slice(&(labl_size as u32).to_le_bytes());
    rom[off + 8..off + 8 + labl_body.len()].copy_from_slice(&labl_body);
    off += labl_size;

    rom[off..off + 4].copy_from_slice(b"TXEU");
    rom[off + 4..off + 8].copy_from_slice(&0xCu32.to_le_bytes());
    rom
}


#[test]
fn parses_cells_labels_and_blocks() {
    for extended in [false, true] {
        for with_vram in [false, true] {
            for with_ucat in [false, true] {
                let data = build_ncer(extended, with_vram, with_ucat);
                assert!(is_ncer(&data));
                let ncer = Ncer::parse(&data).expect("synthetic NCER must parse");
                assert_eq!(ncer.version(), 0x0100);
                assert_eq!(ncer.mapping(), CellMapping::OneD32K);
                assert_eq!(ncer.cell_count(), 2);
                assert_eq!(ncer.is_extended(), extended);
                assert_eq!(ncer.labels(), ["left", "right"]);

                let cell = ncer.cell(0).unwrap();
                assert_eq!(cell.oam_count, 2);
                assert_eq!(cell.radius(), 0x20);
                assert!(cell.has_bounding_rect());
                assert!(!cell.h_flip());
                assert_eq!(cell.oam_attr(0), Some((0x00, 0x22, 0x33)));
                assert_eq!(cell.oam_attr(1), Some((0x11, 0x22, 0x33)));
                assert_eq!(ncer.cell(1).unwrap().oam_attr(0), Some((0x22, 0x22, 0x33)));
                if extended {
                    let b = cell.bounding_box().unwrap();
                    assert_eq!((b.max_x, b.max_y, b.min_x, b.min_y), (16, 8, -16, -8));
                } else {
                    assert_eq!(cell.bounding_box(), None);
                }

                match (with_vram, ncer.vram_transfer()) {
                    (true, Some(v)) => {
                        assert_eq!(v.sz_byte_max, 0x100);
                        assert_eq!(v.blocks, vec![(0, 0x40), (0x40, 0x40)]);
                    }
                    (false, None) => {}
                    _ => panic!("VRAM transfer presence mismatch"),
                }
                match (with_ucat, ncer.ucat()) {
                    (true, Some(u)) => {
                        assert_eq!(u.attrs(), &[0x1000, 0x1001]);
                        assert_eq!(u.attr(0), Some(0x1000));
                        assert_eq!(u.attr(2), None);
                    }
                    (false, None) => {}
                    _ => panic!("UCAT presence mismatch"),
                }

                assert_eq!(
                    ncer.to_bytes(),
                    data,
                    "byte-exact across every block combination"
                );
            }
        }
    }
}


#[test]
fn rejects_broken_ncer() {
    let good = build_ncer(true, true, true);

    let mut bad_magic = good.clone();
    bad_magic[0..4].copy_from_slice(b"RECM");
    assert!(Ncer::parse(&bad_magic).is_err());

    assert!(Ncer::parse(&good[..good.len() - 2]).is_err());

    // KBEC body starts at 0x18. Break each header invariant in turn.
    let field = |rom: &mut [u8], at: usize, value: u32| {
        rom[at..at + 4].copy_from_slice(&value.to_le_bytes());
    };
    let mut bad_attr = good.clone();
    bad_attr[0x18 + 2..0x18 + 4].copy_from_slice(&3u16.to_le_bytes()); // unknown bank bits
    assert!(Ncer::parse(&bad_attr).is_err());

    let mut bad_records_off = good.clone();
    field(&mut bad_records_off, 0x18 + 4, 0x20);
    assert!(Ncer::parse(&bad_records_off).is_err());

    let mut bad_mapping = good.clone();
    field(&mut bad_mapping, 0x18 + 8, 9);
    assert!(Ncer::parse(&bad_mapping).is_err());

    let mut bad_reserved = good.clone();
    field(&mut bad_reserved, 0x18 + 0x10, 1);
    assert!(Ncer::parse(&bad_reserved).is_err());

    // Break the OAM offset chain: second cell's pointer.
    let mut bad_chain = good.clone();
    bad_chain[0x18 + 0x10 + 4..0x18 + 0x10 + 6].copy_from_slice(&6u16.to_le_bytes());
    assert!(Ncer::parse(&bad_chain).is_err());

    // Break the VRAM offset (no longer directly after the OAM data).
    let mut bad_vram = good.clone();
    field(&mut bad_vram, 0x18 + 0xC, 0x40);
    assert!(Ncer::parse(&bad_vram).is_err());

    // Break the UCAT fixed field. With this fixture the blocks run
    // body+0x38 (cells end) +0x18 (OAM) = padded 0x50, VRAM 0x50..0x68,
    // UCAT at body+0x68 (absolute 0x80).
    let mut bad_ucat = good.clone();
    field(&mut bad_ucat, 0x18 + 0x68 + 0xC, 0);
    assert!(Ncer::parse(&bad_ucat).is_err());

    // Break the UCAT pointer derivation.
    let mut bad_ptr = good.clone();
    field(&mut bad_ptr, 0x18 + 0x68 + 0x10, 0);
    assert!(Ncer::parse(&bad_ptr).is_err());

    // UEXT body must be zero.
    let mut bad_uext = good.clone();
    bad_uext[good.len() - 1] = 1;
    assert!(Ncer::parse(&bad_uext).is_err());

    assert!(!is_ncer(b"not an ncer at all"));
    assert!(Ncer::parse(b"RECN").is_err());
}

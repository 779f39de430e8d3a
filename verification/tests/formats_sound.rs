use lib::formats::sdat::{is_sdat, BankInfo, GroupItem, GroupItemKind, PlayerInfo, Sdat, SseqInfo, SwarInfo, LISTS};

/// Builds a minimal, fully valid SDAT with one SSEQ/SBNK/SWAR file
/// and one entry per list (seqArc/strmPlayer/strm stay empty),
/// mirroring the retail SYMB back-to-back tiling and INFO record
/// interleaving. `with_symbols` toggles the SYMB block (block count
/// 4 vs 3).
///
/// The resulting layout, for reference (mutations below depend on
/// these offsets):
///
/// ```text
/// 0x040  SYMB  own 0xA8   (when present)
/// 0x0E8  INFO  own 0xA4
/// 0x18C  FAT   own 0x3C   (3 files)
/// 0x1C8  FILE  own 0x54   (files at 0x1E0, 0x20C, 0x214)
/// ```
fn build_sdat(with_symbols: bool) -> Vec<u8> {
    // ---- file image: an SSEQ of retail file 0's size, then SBNK/SWAR
    let mut seq_file = b"SSEQ".to_vec();
    seq_file.resize(0x2C, 0);
    let mut bank_file = b"SBNK".to_vec();
    bank_file.resize(8, 0);
    let mut war_file = b"SWAR".to_vec();
    war_file.resize(8, 0);
    let file_body: Vec<u8> = [seq_file, bank_file, war_file].concat();

    // ---- SYMB: sub-lists tile back-to-back from 0x40, then the pool
    let labels = [
        "SEQ_TEST\0",
        "BANK_TEST\0",
        "WAR_TEST\0",
        "PLAYER_TEST\0",
        "GROUP_TEST\0",
    ];
    let pool: String = labels.concat();
    let counts = [1u32, 0, 1, 1, 1, 1, 0, 0];
    // Which pool string each non-empty list points at (seq, bank,
    // waveArc, player, group in file order).
    let label_of = [
        Some(0),
        None,
        Some(1),
        Some(2),
        Some(3),
        Some(4),
        None,
        None,
    ];

    let mut rels = [0u32; LISTS];
    let mut cur = 0x40u32;
    for i in 0..LISTS {
        rels[i] = cur;
        cur += 4 + 4 * counts[i];
    }
    let pool_off = cur as usize;

    let mut symb = vec![0u8; 0x40];
    symb[0..4].copy_from_slice(b"SYMB");
    for (i, &r) in rels.iter().enumerate() {
        symb[8 + 4 * i..12 + 4 * i].copy_from_slice(&r.to_le_bytes());
    }
    let mut body = Vec::new();
    for i in 0..LISTS {
        body.extend_from_slice(&counts[i].to_le_bytes());
        if let Some(k) = label_of[i] {
            let at = pool_off + pool.find(labels[k]).expect("label in pool");
            body.extend_from_slice(&(at as u32).to_le_bytes());
        }
    }
    symb.extend_from_slice(&body);
    symb.extend_from_slice(pool.as_bytes());
    while !symb.len().is_multiple_of(4) {
        symb.push(0); // pad to the 4-byte alignment blocks walk by
    }
    let symb_own = symb.len() as u32;
    symb[4..8].copy_from_slice(&symb_own.to_le_bytes());

    // ---- INFO: list arrays at their rels, records in the gaps ----
    let info_rels: [u32; LISTS] = [0x40, 0x54, 0x58, 0x6C, 0x78, 0x88, 0x9C, 0xA0];
    let mut info = vec![0u8; 0x40];
    info[0..4].copy_from_slice(b"INFO");
    for (i, &r) in info_rels.iter().enumerate() {
        info[8 + 4 * i..12 + 4 * i].copy_from_slice(&r.to_le_bytes());
    }
    let u32b = |v: u32| v.to_le_bytes().to_vec();
    let u16b = |v: u16| v.to_le_bytes().to_vec();
    let mut b = Vec::new();
    // seq: count 1, record at 0x48
    b.extend(u32b(1));
    b.extend(u32b(0x48));
    // seq record: file 0, -, bank 0, vol 100, cpr 64, ppr 64, player 0, -
    b.extend(u16b(0));
    b.extend(u16b(0));
    b.extend(u16b(0));
    b.extend([100, 64, 64, 0]);
    b.extend(u16b(0));
    // seqArc: count 0
    b.extend(u32b(0));
    // bank: count 1, record at 0x60
    b.extend(u32b(1));
    b.extend(u32b(0x60));
    // bank record: file 1, -, swar 0, unused, unused, unused
    b.extend(u16b(1));
    b.extend(u16b(0));
    b.extend(u16b(0));
    b.extend(u16b(0xFFFF));
    b.extend(u16b(0xFFFF));
    b.extend(u16b(0xFFFF));
    // waveArc: count 1, record at 0x74
    b.extend(u32b(1));
    b.extend(u32b(0x74));
    // waveArc record: file 2, -
    b.extend(u16b(2));
    b.extend(u16b(0));
    // player: count 1, record at 0x80
    b.extend(u32b(1));
    b.extend(u32b(0x80));
    // player record: seq_count 1, -, channels 0xC000, heap 24200
    b.extend([1, 0]);
    b.extend(u16b(0xC000));
    b.extend(u32b(24_200));
    // group: count 1, record at 0x90
    b.extend(u32b(1));
    b.extend(u32b(0x90));
    // group record: 1 item {Seq, flags 7, -, index 0}
    b.extend(u32b(1));
    b.extend([0, 7]);
    b.extend(u16b(0));
    b.extend(u32b(0));
    // strmPlayer: count 0; strm: count 0
    b.extend(u32b(0));
    b.extend(u32b(0));
    info.extend_from_slice(&b);
    let info_own = info.len() as u32;
    info[4..8].copy_from_slice(&info_own.to_le_bytes());

    // ---- FAT: 3 entries, absolute offsets patched after assembly
    let fat_size = 12 + 16 * 3;
    let mut fat = Vec::with_capacity(fat_size);
    fat.extend_from_slice(b"FAT ");
    fat.extend_from_slice(&(fat_size as u32).to_le_bytes());
    fat.extend_from_slice(&3u32.to_le_bytes());
    for &(rel, size) in &[(0, 0x2Cusize), (0x2C, 8), (0x34, 8)] {
        fat.extend_from_slice(&((rel + 0x1000) as u32).to_le_bytes()); // patched below
        fat.extend_from_slice(&(size as u32).to_le_bytes());
        fat.extend_from_slice(&0u32.to_le_bytes());
        fat.extend_from_slice(&0u32.to_le_bytes());
    }

    // ---- FILE
    let file_block_size = 0x18 + file_body.len();
    let mut file_block = Vec::with_capacity(file_block_size);
    file_block.extend_from_slice(b"FILE");
    file_block.extend_from_slice(&(file_block_size as u32).to_le_bytes());
    file_block.extend_from_slice(&3u32.to_le_bytes());
    file_block.extend_from_slice(&[0u8; 12]);
    file_block.extend_from_slice(&file_body);

    // ---- assembly
    let symb_len = if with_symbols { symb.len() } else { 0 };
    let total = 0x40 + symb_len + info.len() + fat.len() + file_block.len();
    let file_off = 0x40 + symb_len + info.len() + fat.len();
    // Patch the FAT entries with absolute offsets (remove the marker).
    for (i, &(_, rel)) in [(0usize, 0), (1, 0x2C), (2, 0x34)].iter().enumerate() {
        let at = 12 + 16 * i;
        fat[at..at + 4].copy_from_slice(&((file_off + 0x18 + rel) as u32).to_le_bytes());
    }

    let mut out = vec![0u8; 0x40];
    out[0..4].copy_from_slice(b"SDAT");
    out[4..6].copy_from_slice(&0xFEFFu16.to_le_bytes());
    out[6..8].copy_from_slice(&0x0100u16.to_le_bytes());
    out[8..12].copy_from_slice(&(total as u32).to_le_bytes());
    out[0x0C..0x0E].copy_from_slice(&0x40u16.to_le_bytes());
    out[0x0E..0x10].copy_from_slice(&if with_symbols { 4u16 } else { 3u16 }.to_le_bytes());
    let mut cur = 0x40;
    if with_symbols {
        out[0x10..0x14].copy_from_slice(&(cur as u32).to_le_bytes());
        out[0x14..0x18].copy_from_slice(&(symb.len() as u32).to_le_bytes());
        cur += symb.len();
    }
    out[0x18..0x1C].copy_from_slice(&(cur as u32).to_le_bytes());
    out[0x1C..0x20].copy_from_slice(&(info.len() as u32).to_le_bytes());
    cur += info.len();
    out[0x20..0x24].copy_from_slice(&(cur as u32).to_le_bytes());
    out[0x24..0x28].copy_from_slice(&(fat.len() as u32).to_le_bytes());
    cur += fat.len();
    out[0x28..0x2C].copy_from_slice(&(cur as u32).to_le_bytes());
    out[0x2C..0x30].copy_from_slice(&(file_block.len() as u32).to_le_bytes());

    if with_symbols {
        out.extend_from_slice(&symb);
    }
    out.extend_from_slice(&info);
    out.extend_from_slice(&fat);
    out.extend_from_slice(&file_block);
    assert_eq!(out.len(), total);
    out
}

#[test]
fn parses_synthetic_archive() {
    let data = build_sdat(true);
    assert!(is_sdat(&data));
    let sdat = Sdat::parse(&data).expect("synthetic SDAT must parse");

    assert!(sdat.has_symbols());
    assert_eq!(sdat.file_count(), 3);
    assert_eq!(sdat.file(0).map(<[u8]>::len), Some(0x2C));
    assert_eq!(&sdat.file(0).unwrap()[0..4], b"SSEQ");
    assert_eq!(&sdat.file(1).unwrap()[0..4], b"SBNK");
    assert_eq!(&sdat.file(2).unwrap()[0..4], b"SWAR");
    assert!(sdat.file(3).is_none(), "out of range");
    assert_eq!(sdat.raw().len(), data.len());

    assert_eq!(sdat.seq_count(), 1);
    assert_eq!(sdat.seq_name(0), Some("SEQ_TEST"));
    assert_eq!(
        sdat.seq(0),
        Some(SseqInfo {
            file_id: 0,
            bank: 0,
            volume: 100,
            channel_priority: 64,
            player_priority: 64,
            player: 0,
        })
    );
    assert_eq!(sdat.bank_name(0), Some("BANK_TEST"));
    assert_eq!(
        sdat.bank(0),
        Some(BankInfo {
            file_id: 1,
            swar: [0, 0xFFFF, 0xFFFF, 0xFFFF],
        })
    );
    assert_eq!(sdat.wave_arc_name(0), Some("WAR_TEST"));
    assert_eq!(sdat.wave_arc(0), Some(SwarInfo { file_id: 2 }));
    assert_eq!(sdat.player_name(0), Some("PLAYER_TEST"));
    assert_eq!(
        sdat.player(0),
        Some(PlayerInfo {
            seq_count: 1,
            channels: 0xC000,
            heap_size: 24_200,
        })
    );
    assert_eq!(sdat.group_name(0), Some("GROUP_TEST"));
    let items = sdat.group(0).expect("group record is present");
    assert_eq!(items.len(), 1);
    assert_eq!(
        items[0],
        GroupItem {
            kind: GroupItemKind::Sequence,
            flags: 7,
            index: 0,
        }
    );
    assert_eq!(sdat.seq_arc_count(), 0);
    assert_eq!(sdat.strm_count(), 0);
}

#[test]
fn parses_symbol_free_archive() {
    let data = build_sdat(false);
    assert!(is_sdat(&data));
    let sdat = Sdat::parse(&data).expect("symbol-free SDAT must parse");

    assert!(!sdat.has_symbols());
    assert_eq!(sdat.seq_name(0), None);
    assert_eq!(sdat.bank_name(0), None);
    assert_eq!(sdat.player(0).map(|p| p.channels), Some(0xC000));
}

#[test]
fn sdat_rejects_broken_archives() {
    let good = build_sdat(true);
    let bad = |mutate: fn(&mut Vec<u8>)| {
        let mut bad = good.clone();
        mutate(&mut bad);
        assert!(Sdat::parse(&bad).is_err());
    };

    bad(|d| d[0] = b'X'); // magic
    bad(|d| d[4] = 0x00); // byte-order mark
    bad(|d| d[6] = 0x02); // version
    bad(|d| d[8] -= 1); // file size
    bad(|d| d[0x0C] = 0x10); // header size
    bad(|d| d[0x0E] = 3); // block count vs present SYMB
    bad(|d| d[0x30] = 1); // header padding
    bad(|d| d[0x14] += 1); // SYMB pair size beyond its own size
    bad(|d| d[0x44] += 1); // SYMB own size not 4-byte aligned
    bad(|d| d[0x48] = 0); // SYMB sub-list absent
    bad(|d| d[0x48] = 0x44); // SYMB sub-lists do not tile
    bad(|d| d[0x88] = 1); // SSAR folder symbol list (seqArc count)
    bad(|d| d[0x84..0x88].copy_from_slice(&4u32.to_le_bytes())); // symbol inside the header
    bad(|d| d[0x110] = 1); // INFO header padding
    bad(|d| d[0xF4] = 0x30); // INFO sub-lists out of order
    bad(|d| d[0x128] = 2); // INFO count disagrees with SYMB
    bad(|d| d[0x12C] = 0); // symbol names an absent record
    bad(|d| d[0x12C..0x130].copy_from_slice(&0xFFFFu32.to_le_bytes())); // record outside its region
    bad(|d| d[0x136] = 128); // SEQ volume
    bad(|d| d[0x139] = 5); // SEQ player out of range
    bad(|d| d[0x17C] = 4); // GROUP item type
    bad(|d| d[0x194] = 4); // FAT count disagrees with block size
    bad(|d| d[0x1A8] += 1); // FAT file unaligned
    bad(|d| d[0x1D0] = 2); // FILE count disagrees with FAT
    bad(|d| d[0x1D8] = 1); // FILE header padding
    bad(|d| d[0x20C..0x210].copy_from_slice(b"XBNK")); // SBNK file magic
    bad(|d| d.truncate(0x21C - 4)); // truncation

    // The seqArc INFO mutation above leaves a zero count list — it
    // only exercises the offsets-array walk; the named check needs a
    // real mutation. Point the seq record at the SBNK file instead:
    bad(|d| d[0x130..0x132].copy_from_slice(&1u16.to_le_bytes())); // SEQ file is not an SSEQ

    assert!(!is_sdat(b"SDAT not really an archive"));
    assert!(Sdat::parse(b"SDAT").is_err());
}

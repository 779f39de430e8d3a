use lib::formats::nanr::{is_nanr, AnimElement, AnimResult, Nanr, PlayMode};

/// A NANR with one sequence of two frames that share a deduplicated
/// SRT result, plus a UAAT block when requested; `labels` names the
/// sequences.
fn build_nanr(with_uaat: bool, labels: &[&[u8]]) -> Vec<u8> {
    let n_seq = 1usize;
    let frame_count = 2usize;

    // KNBA header + one sequence record.
    let mut kbna_body = vec![0u8; 0x18 + 0x10 * n_seq];
    kbna_body[0..2].copy_from_slice(&(n_seq as u16).to_le_bytes());
    kbna_body[2..4].copy_from_slice(&(frame_count as u16).to_le_bytes());
    kbna_body[4..8].copy_from_slice(&0x18u32.to_le_bytes());
    let frame_off = 0x18 + 0x10 * n_seq;
    kbna_body[8..12].copy_from_slice(&(frame_off as u32).to_le_bytes());
    let result_off = frame_off + 8 * frame_count; // frames, then pool
    kbna_body[12..16].copy_from_slice(&(result_off as u32).to_le_bytes());
    let seq_at = 0x18;
    kbna_body[seq_at..seq_at + 2].copy_from_slice(&(frame_count as u16).to_le_bytes());
    kbna_body[seq_at + 2..seq_at + 4].copy_from_slice(&1u16.to_le_bytes()); // loopStart
    kbna_body[seq_at + 4..seq_at + 6].copy_from_slice(&1u16.to_le_bytes()); // SRT
    kbna_body[seq_at + 6..seq_at + 8].copy_from_slice(&1u16.to_le_bytes()); // animType
    kbna_body[seq_at + 8..seq_at + 12].copy_from_slice(&2u32.to_le_bytes()); // FORWARD_LOOP
    kbna_body[seq_at + 12..seq_at + 16].copy_from_slice(&0u32.to_le_bytes()); // frameData

    // Frame records: both reference the same pool offset (patched in
    // once the SRT result lands).
    let mut fr = frame_off;
    for delay in [0u16, 3] {
        kbna_body.resize(fr + 8, 0);
        kbna_body[fr + 4..fr + 6].copy_from_slice(&delay.to_le_bytes());
        kbna_body[fr + 6..fr + 8].copy_from_slice(&0xBEEFu16.to_le_bytes());
        fr += 8;
    }

    // Results pool: one spare u16 at pool offset 0, then the shared
    // SRT result at pool offset 2.
    kbna_body.extend_from_slice(&0xFFFFu16.to_le_bytes());
    let srt_pool_off = kbna_body.len() - result_off;
    kbna_body.extend_from_slice(&5u16.to_le_bytes()); // cell
    kbna_body.extend_from_slice(&90u16.to_le_bytes()); // rotation
    kbna_body.extend_from_slice(&0x100u32.to_le_bytes()); // scaleX (fx32)
    kbna_body.extend_from_slice(&0x180u32.to_le_bytes()); // scaleY
    kbna_body.extend_from_slice(&(-4i16).to_le_bytes()); // x
    kbna_body.extend_from_slice(&6i16.to_le_bytes()); // y
    for k in 0..frame_count {
        let f = frame_off + 8 * k;
        kbna_body[f..f + 4].copy_from_slice(&(srt_pool_off as u32).to_le_bytes());
    }

    // Optional UAAT block.
    let uaat_off = if with_uaat {
        let off = kbna_body.len();
        let uaat_size = 0x10 + 0x10 * n_seq + 8 * frame_count;
        kbna_body.extend_from_slice(b"TAAU");
        kbna_body.extend_from_slice(&(uaat_size as u32).to_le_bytes());
        kbna_body.extend_from_slice(&(n_seq as u16).to_le_bytes());
        kbna_body.extend_from_slice(&1u16.to_le_bytes());
        kbna_body.extend_from_slice(&8u32.to_le_bytes());
        // Per-seq record.
        kbna_body.extend_from_slice(&(frame_count as u16).to_le_bytes());
        kbna_body.extend_from_slice(&0xBEEFu16.to_le_bytes());
        let ptrs_base = off + 0x10 + 0x0C * n_seq;
        let seqattr_base = ptrs_base + 4 * frame_count;
        let frameattr_base = seqattr_base + 4 * n_seq;
        kbna_body.extend_from_slice(&((seqattr_base - off - 8) as u32).to_le_bytes());
        kbna_body.extend_from_slice(&((ptrs_base - off - 8) as u32).to_le_bytes());
        // Frame single pointers.
        for j in 0..frame_count {
            kbna_body
                .extend_from_slice(&((frameattr_base - off - 8 + 4 * j) as u32).to_le_bytes());
        }
        // Sequence attributes, then frame attributes.
        kbna_body.extend_from_slice(&0xA5u32.to_le_bytes());
        for j in 0..frame_count {
            kbna_body.extend_from_slice(&(0x100 + j as u32).to_le_bytes());
        }
        Some(off)
    } else {
        None
    };

    let kbna_size = 8 + kbna_body.len();

    // LBAL: strictly increasing offsets relative to the table end.
    let mut labl_body = Vec::new();
    let table_size = 4 * labels.len();
    let mut pos = table_size;
    for label in labels {
        labl_body.extend_from_slice(&((pos - table_size) as u32).to_le_bytes());
        pos += label.len() + 1;
    }
    for label in labels {
        labl_body.extend_from_slice(label);
        labl_body.push(0);
    }

    let total = 0x10 + kbna_size + (8 + labl_body.len()) + 0xC;
    let mut rom = vec![0u8; total];
    rom[0..4].copy_from_slice(b"RNAN");
    rom[4..6].copy_from_slice(&0xFEFFu16.to_le_bytes());
    rom[6..8].copy_from_slice(&0x0100u16.to_le_bytes());
    rom[8..12].copy_from_slice(&(total as u32).to_le_bytes());
    rom[0xC..0xE].copy_from_slice(&0x10u16.to_le_bytes());
    rom[0xE..0x10].copy_from_slice(&3u16.to_le_bytes());

    let mut off = 0x10;
    rom[off..off + 4].copy_from_slice(b"KNBA");
    rom[off + 4..off + 8].copy_from_slice(&(kbna_size as u32).to_le_bytes());
    rom[off + 8..off + 8 + kbna_body.len()].copy_from_slice(&kbna_body);
    let uaat_field = uaat_off.unwrap_or(0);
    rom[off + 8 + 0x14..off + 8 + 0x18].copy_from_slice(&(uaat_field as u32).to_le_bytes());
    off += kbna_size;

    rom[off..off + 4].copy_from_slice(b"LBAL");
    rom[off + 4..off + 8].copy_from_slice(&((8 + labl_body.len()) as u32).to_le_bytes());
    rom[off + 8..off + 8 + labl_body.len()].copy_from_slice(&labl_body);
    off += 8 + labl_body.len();

    rom[off..off + 4].copy_from_slice(b"TXEU");
    rom[off + 4..off + 8].copy_from_slice(&0xCu32.to_le_bytes());
    rom
}


#[test]
fn parses_sequences_frames_results_and_uaat() {
    for with_uaat in [false, true] {
        let data = build_nanr(with_uaat, &[b"idle"]);
        assert!(is_nanr(&data));
        let nanr = Nanr::parse(&data).expect("synthetic NANR must parse");
        assert_eq!(nanr.version(), 0x0100);
        assert_eq!(nanr.sequence_count(), 1);
        assert_eq!(nanr.total_frames(), 2);

        let seq = nanr.sequence(0).unwrap();
        assert_eq!(seq.frame_count(), 2);
        assert_eq!(seq.loop_start(), 1);
        assert_eq!(seq.element(), AnimElement::Srt);
        assert_eq!(seq.play_mode(), PlayMode::ForwardLoop);
        assert_eq!(seq.label(), "idle");
        assert_eq!(seq.frame_start(), 0);
        assert_eq!(seq.frames()[0].delay, 0);
        assert_eq!(seq.frames()[1].delay, 3);

        // Both frames decode the same shared (deduplicated) SRT result.
        let result = AnimResult::Srt {
            cell: 5,
            rotation: 90,
            scale_x: 0x100,
            scale_y: 0x180,
            x: -4,
            y: 6,
        };
        assert_eq!(seq.result(0), Some(result));
        assert_eq!(seq.result(1), Some(result));
        assert_eq!(seq.result(2), None);

        match (with_uaat, nanr.uaat()) {
            (true, Some(u)) => {
                assert_eq!(u.seq_attrs(), &[0xA5]);
                assert_eq!(u.frame_attrs(), &[0x100, 0x101]);
                assert_eq!(u.seq_attr(0), Some(0xA5));
                assert_eq!(u.seq_attr(1), None);
                assert_eq!(nanr.frame_attr(0, 1), Some(0x101));
                assert_eq!(nanr.frame_attr(0, 2), None);
                assert_eq!(nanr.frame_attr(1, 0), None);
            }
            (false, None) => {}
            _ => panic!("UAAT presence mismatch"),
        }
    }
}


#[test]
fn rejects_broken_nanr() {
    let good = build_nanr(true, &[b"idle"]);

    let mut bad_magic = good.clone();
    bad_magic[0..4].copy_from_slice(b"RNAM");
    assert!(Nanr::parse(&bad_magic).is_err());

    assert!(Nanr::parse(&good[..good.len() - 2]).is_err());

    let field = |rom: &mut [u8], at: usize, value: u32| {
        rom[at..at + 4].copy_from_slice(&value.to_le_bytes());
    };

    // KNBA body starts at 0x18. Break each header invariant in turn.
    let mut bad_seq_off = good.clone();
    field(&mut bad_seq_off, 0x18 + 4, 0x20);
    assert!(Nanr::parse(&bad_seq_off).is_err());

    let mut bad_reserved = good.clone();
    field(&mut bad_reserved, 0x18 + 0x10, 1);
    assert!(Nanr::parse(&bad_reserved).is_err());

    // The sequence record sits at body+0x18, its frames at body+0x28.
    let mut bad_loop = good.clone();
    bad_loop[0x18 + 0x18 + 2..0x18 + 0x18 + 4].copy_from_slice(&2u16.to_le_bytes());
    assert!(Nanr::parse(&bad_loop).is_err());

    let mut bad_element = good.clone();
    bad_element[0x18 + 0x18 + 4..0x18 + 0x18 + 6].copy_from_slice(&3u16.to_le_bytes());
    assert!(Nanr::parse(&bad_element).is_err());

    let mut bad_type = good.clone();
    bad_type[0x18 + 0x18 + 6..0x18 + 0x18 + 8].copy_from_slice(&0u16.to_le_bytes());
    assert!(Nanr::parse(&bad_type).is_err());

    let mut bad_play = good.clone();
    field(&mut bad_play, 0x18 + 0x18 + 8, 0);
    assert!(Nanr::parse(&bad_play).is_err());

    // Frame records: marker, pool bounds, and the frame-count total.
    let mut bad_beef = good.clone();
    bad_beef[0x18 + 0x28 + 6..0x18 + 0x28 + 8].copy_from_slice(&0xDEADu16.to_le_bytes());
    assert!(Nanr::parse(&bad_beef).is_err());

    let mut bad_result = good.clone();
    field(&mut bad_result, 0x18 + 0x28, 0x1000);
    assert!(Nanr::parse(&bad_result).is_err());

    let mut bad_total = good.clone();
    bad_total[0x18 + 2..0x18 + 4].copy_from_slice(&3u16.to_le_bytes());
    assert!(Nanr::parse(&bad_total).is_err());

    // Label count must equal the sequence count: two labels, one
    // sequence.
    let bad_labels = build_nanr(true, &[b"idle", b"run"]);
    assert!(Nanr::parse(&bad_labels).is_err());

    // Break the UAAT reserved field (UAAT starts where the pool ends).
    let uaat_field =
        u32::from_le_bytes(good[0x18 + 0x14..0x18 + 0x18].try_into().unwrap()) as usize;
    let mut bad_uaat = good.clone();
    field(&mut bad_uaat, 0x18 + uaat_field + 0xC, 0);
    assert!(Nanr::parse(&bad_uaat).is_err());

    // Break the UAAT sequence-attribute pointer derivation.
    let mut bad_ptr = good.clone();
    field(&mut bad_ptr, 0x18 + uaat_field + 0x14, 0);
    assert!(Nanr::parse(&bad_ptr).is_err());

    assert!(!is_nanr(b"not a nanr at all"));
    assert!(Nanr::parse(b"RNAN").is_err());
}

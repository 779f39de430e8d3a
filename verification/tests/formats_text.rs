use lib::formats::msg::{MsgBank, EOS, ENTRY_MUL, TEXT_ADD, TEXT_MUL};

/// Encrypts `units` exactly as Decrypt2 undoes, for building fixtures.
fn encrypt_units(out: &mut Vec<u8>, n: usize, units: &[u16]) {
    let mut seed = ((n as u64 + 1) * TEXT_MUL) as u16;
    for &u in units {
        out.extend_from_slice(&(u ^ seed).to_le_bytes());
        seed = seed.wrapping_add(TEXT_ADD as u16);
    }
}

/// Encrypts entry `n` in place, exactly as Decrypt1 undoes, for
/// building fixtures.
fn encrypt_entry(data: &mut [u8], key: u16, n: usize, offset: u32, length: u32) {
    let seed = (u64::from(key) * ENTRY_MUL * (n as u64 + 1)) & 0xFFFF;
    let seed = seed as u32 | (seed as u32) << 16;
    data[4 + 8 * n..8 + 8 * n].copy_from_slice(&(offset ^ seed).to_le_bytes());
    data[8 + 8 * n..12 + 8 * n].copy_from_slice(&(length ^ seed).to_le_bytes());
}

/// Builds a well-formed MAT with the given messages (EOS is appended to
/// each automatically, as every retail message carries one).
fn build_mat(key: u16, messages: &[&[u16]]) -> Vec<u8> {
    let mut data = vec![0u8; 4 + 8 * messages.len()];
    data[0..2].copy_from_slice(&(messages.len() as u16).to_le_bytes());
    data[2..4].copy_from_slice(&key.to_le_bytes());
    let mut cursor = data.len();
    for (n, &units) in messages.iter().enumerate() {
        let full: Vec<u16> = units.iter().copied().chain([EOS]).collect();
        encrypt_entry(&mut data, key, n, cursor as u32, full.len() as u32);
        encrypt_units(&mut data, n, &full);
        cursor += 2 * full.len();
    }
    data
}

#[test]
fn parses_and_decrypts_messages() {
    // 0x12b.. spells "bulbasaur" in the generation's charmap.
    let bulbasaur = [
        0x12c, 0x13f, 0x136, 0x12c, 0x12b, 0x13d, 0x12b, 0x13f, 0x13c,
    ];
    let with_ctrl = [0xE000, 0xFFFE, 0x0101, 2, 0x0001, 0x0002, 0x12b];
    let data = build_mat(0xFEE8, &[&[0x1be, 0x1be], &bulbasaur, &with_ctrl]);
    assert_eq!(data.len(), 4 + 8 * 3 + 2 * (3 + 10 + 8));

    let bank = MsgBank::parse(&data).expect("fixture must parse");
    assert_eq!(bank.message_count(), 3);
    assert_eq!(bank.key(), 0xFEE8);
    assert_eq!(bank.message(0), Some(&[0x1be, 0x1be, EOS][..]));
    assert_eq!(
        bank.message(1),
        Some(
            &[
                0x12c, 0x13f, 0x136, 0x12c, 0x12b, 0x13d, 0x12b, 0x13f, 0x13c, EOS
            ][..]
        )
    );
    assert_eq!(
        bank.message(2),
        Some(&[0xE000, 0xFFFE, 0x0101, 2, 0x0001, 0x0002, 0x12b, EOS][..])
    );
    assert_eq!(bank.message(3), None);
    assert_eq!(bank.messages().len(), 3);
    assert_eq!(bank.raw(), &data[..]);

    // A different key must yield different ciphertext: fixture with key
    // 0 is not the same bytes as key 0xFEE8.
    let other = build_mat(0x0001, &[&[0x1be, 0x1be]]);
    let other = MsgBank::parse(&other).expect("fixture must parse");
    assert_eq!(other.message(0), bank.message(0));
    assert_ne!(&other.raw()[4..], &bank.raw()[4..]);
}

#[test]
fn parses_empty_bank() {
    let data = build_mat(0x1234, &[]);
    assert_eq!(data.len(), 4);
    let bank = MsgBank::parse(&data).expect("empty bank must parse");
    assert_eq!(bank.message_count(), 0);
    assert_eq!(bank.messages().len(), 0);
    assert_eq!(bank.message(0), None);
}

#[test]
fn rejects_broken_mat() {
    let good = build_mat(0xFEE8, &[&[0x1be], &[0x12b, 0x12c]]);

    // Header or entry table truncated.
    assert!(MsgBank::parse(&good[..3]).is_err());
    let cut_table = &good[..4 + 8];
    assert!(MsgBank::parse(cut_table).is_err());

    // Entry offset pointing into the table instead of after it.
    let mut bad = good.clone();
    bad[4..8].copy_from_slice(&0u32.to_le_bytes());
    assert!(MsgBank::parse(&bad).is_err());

    // Gap between the two messages (entries not packed).
    let mut bad = good.clone();
    let entry1_off = 4 + 8;
    let mut off1 = u32::from_le_bytes(bad[entry1_off..entry1_off + 4].try_into().unwrap());
    off1 ^= 1;
    bad[entry1_off..entry1_off + 4].copy_from_slice(&off1.to_le_bytes());
    assert!(MsgBank::parse(&bad).is_err());

    // Trailing slack: the member is one byte longer than its messages.
    let mut bad = good.clone();
    bad.push(0);
    assert!(MsgBank::parse(&bad).is_err());

    // Message span overrunning the member.
    let mut bad = good.clone();
    bad.truncate(bad.len() - 2);
    assert!(MsgBank::parse(&bad).is_err());

    // A message that does not end with EOS. Rebuild the fixture with
    // the terminator stripped: entry lengths still say "included", so
    // the plaintext's last unit is wrong.
    let mut bad = good.clone();
    let last = bad.len();
    let mut unit = u16::from_le_bytes(bad[last - 2..last].try_into().unwrap());
    // The last unit sits at message index 1, unit index 1 (the EOS slot).
    let mut seed = (2 * TEXT_MUL) as u16;
    seed = seed.wrapping_add(TEXT_ADD as u16);
    unit ^= seed;
    unit ^= 0x1234; // decrypt, break, re-encrypt
    unit ^= seed;
    bad[last - 2..last].copy_from_slice(&unit.to_le_bytes());
    assert!(MsgBank::parse(&bad).is_err());

    // Zero-length message: a one-message MAT whose entry claims a
    // length of 0.
    let mut bad = vec![0u8; 12];
    bad[0..2].copy_from_slice(&1u16.to_le_bytes());
    bad[2..4].copy_from_slice(&0x1234u16.to_le_bytes());
    encrypt_entry(&mut bad, 0x1234, 0, 12, 0);
    assert!(MsgBank::parse(&bad).is_err());

    // A wrong bank key decrypts the entries to garbage.
    let mut bad = good.clone();
    bad[2..4].copy_from_slice(&0u16.to_le_bytes());
    assert!(MsgBank::parse(&bad).is_err());
}

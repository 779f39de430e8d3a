use lib::data::items::{pocket, ItemEntry, ITEM_SIZE, NO_NATURAL_GIFT};
use lib::data::moves::{MoveCategory, MoveEntry, MOVE_SIZE};
use lib::data::personal::{
    growth, BaseStats, EvYields, Evolution, EvolutionTable, GrowthTable, LearnMove, Learnset,
    BASE_STATS_SIZE,
};
use lib::data::{exact, paths, DataError, GameData, EVOLUTION_SLOTS, GROWTH_LEVELS, SPECIES_ROWS};
use lib::nds::NdsError;

/// A Potion-shaped fixture (item 17 in the retail table).
fn potion_bytes() -> Vec<u8> {
    let mut b = vec![0u8; ITEM_SIZE];
    b[0..2].copy_from_slice(&300u16.to_le_bytes());
    b[3] = 20;
    b[6] = 30;
    b[0x07] = 0;
    let bits = 1u16 | (1 << 6) | (pocket::MEDICINE as u16) << 7 | (4u16) << 11;
    b[0x08..0x0A].copy_from_slice(&bits.to_le_bytes());
    b[0x0A] = 1;
    b[0x0B] = 2;
    b[0x0C] = 1;
    b[0x0E] = 20;
    b
}

#[test]
fn parses_every_item_field() {
    let item = ItemEntry::parse(&potion_bytes()).expect("fixture parses");
    assert_eq!(item.price, 300);
    assert_eq!(item.hold_effect, 0);
    assert_eq!(item.hold_effect_param, 20);
    assert_eq!(item.fling_power, 30);
    assert_eq!(item.natural_gift_power, 0);
    assert_eq!(item.natural_gift_type, 1);
    assert!(!item.prevent_toss);
    assert!(item.selectable);
    assert_eq!(item.field_pocket, pocket::MEDICINE);
    assert_eq!(item.battle_pocket, 4);
    assert_eq!((item.field_use_func, item.battle_use_func, item.party_use), (1, 2, 1));
    assert_eq!(item.party_param[0], 20);
    assert_eq!(item.party_param[1..], [0u8; 19]);
}

#[test]
fn bitfield_decode_covers_both_pocket_nibbles() {
    let mut b = potion_bytes();
    let bits = (31u16 & 0x1F) | (pocket::BALLS as u16) << 7 | (1u16) << 11;
    b[0x08..0x0A].copy_from_slice(&bits.to_le_bytes());
    b[0x0A] = 0;
    let item = ItemEntry::parse(&b).expect("fixture parses");
    assert_eq!(item.natural_gift_type, NO_NATURAL_GIFT);
    assert!(!item.selectable);
    assert_eq!(item.field_pocket, pocket::BALLS);
    assert_eq!(item.battle_pocket, 1);
}

#[test]
fn rejects_wrong_sizes_and_pad() {
    let good = potion_bytes();
    assert!(ItemEntry::parse(&good[..33]).is_err(), "truncated");
    let mut long = good.clone();
    long.push(0);
    assert!(ItemEntry::parse(&long).is_err(), "trailing slack");

    let mut drift = good.clone();
    drift[0x0D] = 1;
    assert!(ItemEntry::parse(&drift).is_err(), "pad byte drifted");
}

#[test]
fn exact_rejects_short_and_long_but_not_equal() {
    assert!(exact(&[0; 4], 4, "row").is_ok());
    assert_eq!(
        exact(&[0; 3], 4, "row"),
        Err(NdsError::Truncated { what: "row", need: 4, got: 3 })
    );
    assert_eq!(exact(&[0; 5], 4, "row"), Err(NdsError::Invalid { what: "row" }));
}

#[test]
fn egg_species_prefers_the_incense_special_cases() {
    let incense: [u16; 9] = [113, 122, 143, 183, 185, 202, 226, 315, 358];
    let mut egg_species = vec![0u16; SPECIES_ROWS];
    for (species, entry) in egg_species.iter_mut().enumerate() {
        *entry = species as u16;
    }
    egg_species[183] = 298;
    let data = GameData::from_rows(
        Vec::new(),
        Vec::new(),
        Vec::new(),
        Vec::new(),
        Vec::new(),
        Vec::new(),
        egg_species,
    );
    for species in incense {
        assert_eq!(data.egg_species(species), Some(species));
    }
    assert_eq!(data.egg_species(1), Some(1));
    assert_eq!(data.egg_species(493), Some(493));
    assert_eq!(data.egg_species(SPECIES_ROWS as u16), None);
}

#[test]
fn table_lookups_past_the_last_row_are_none() {
    let data = GameData::from_rows(
        Vec::new(),
        Vec::new(),
        Vec::new(),
        vec![ItemEntry::parse(&potion_bytes()).unwrap()],
        Vec::new(),
        Vec::new(),
        Vec::new(),
    );
    assert_eq!(data.item(0).map(|i| i.price), Some(300));
    assert!(data.item(1).is_none());
    assert!(data.base_stats(0).is_none());
    assert!(data.move_data(0).is_none());
    assert_eq!(data.item_count(), 1);
    assert_eq!(data.species_count(), 0);
}

#[test]
fn a_wrong_sized_egg_map_fails_the_load() {
    let res = GameData::load(&[], &[], &[], &[], &[], &[], &[0u8; 3]);
    assert!(res.is_err());
}

/// A Quick Attack-shaped fixture.
fn quick_attack_bytes() -> Vec<u8> {
    let mut b = vec![0u8; MOVE_SIZE];
    b[0..2].copy_from_slice(&103u16.to_le_bytes());
    b[2] = 0;
    b[3] = 40;
    b[4] = 0;
    b[5] = 100;
    b[6] = 30;
    b[7] = 0;
    b[8..0x0A].copy_from_slice(&0x0Au16.to_le_bytes());
    b[0x0A] = 1;
    b[0x0B] = 115;
    b[0x0C] = 5;
    b[0x0D] = 4;
    b[0x0E..0x10].copy_from_slice(&0u16.to_le_bytes());
    b
}

#[test]
fn parses_every_move_field() {
    let entry = MoveEntry::parse(&quick_attack_bytes()).expect("fixture parses");
    assert_eq!(entry.effect, 103);
    assert_eq!(entry.category, MoveCategory::Physical);
    assert_eq!(entry.power, 40);
    assert_eq!(entry.type_, 0);
    assert_eq!(entry.accuracy, 100);
    assert_eq!(entry.pp, 30);
    assert_eq!(entry.effect_chance, 0);
    assert_eq!(entry.range, 0x0A);
    assert_eq!(entry.priority, 1);
    assert_eq!(entry.unk_0b, 115);
    assert_eq!(entry.unk_0c, 5);
    assert_eq!(entry.contest_type, 4);
    assert_eq!(entry.unk_0e, 0);
}

#[test]
fn categories_come_from_the_category_byte() {
    let mut b = quick_attack_bytes();
    b[2] = 1;
    assert_eq!(MoveEntry::parse(&b).expect("fixture parses").category, MoveCategory::Special);
    b[2] = 2;
    assert_eq!(MoveEntry::parse(&b).expect("fixture parses").category, MoveCategory::Status);
    b[2] = 3;
    assert!(MoveEntry::parse(&b).is_err(), "category 3 is not a class");
}

#[test]
fn negative_priority_parses_as_signed() {
    let mut b = quick_attack_bytes();
    b[0x0A] = 0xFF;
    assert_eq!(MoveEntry::parse(&b).expect("fixture parses").priority, -1);
}

#[test]
fn rejects_wrong_sizes() {
    let good = quick_attack_bytes();
    assert!(MoveEntry::parse(&good[..15]).is_err(), "truncated");
    let mut long = good.clone();
    long.push(0);
    assert!(MoveEntry::parse(&long).is_err(), "trailing slack");
}

/// A Bulbasaur-shaped `personal` fixture.
fn personal_bytes() -> Vec<u8> {
    let mut b = vec![0u8; BASE_STATS_SIZE];
    b[0..6].copy_from_slice(&[45, 49, 49, 45, 65, 65]);
    b[6..8].copy_from_slice(&[12, 3]);
    b[8] = 45;
    b[9] = 64;
    b[0x0B] = 1;
    b[0x0C..0x0E].copy_from_slice(&5u16.to_le_bytes());
    b[0x0E..0x10].copy_from_slice(&0xBu16.to_le_bytes());
    b[0x10] = 31;
    b[0x11] = 20;
    b[0x12] = 70;
    b[0x13] = growth::MEDIUM_SLOW;
    b[0x14..0x16].copy_from_slice(&[1, 7]);
    b[0x16] = 65;
    b[0x18] = 9;
    b[0x19] = 0x83;
    b[0x1C..0x20].copy_from_slice(&0x8435_0720u32.to_le_bytes());
    b[0x20..0x24].copy_from_slice(&0x0210_1E08u32.to_le_bytes());
    b[0x24..0x28].copy_from_slice(&0x9266_2420u32.to_le_bytes());
    b[0x28..0x2C].copy_from_slice(&2u32.to_le_bytes());
    b
}

#[test]
fn parses_every_personal_field() {
    let stats = BaseStats::parse(&personal_bytes()).expect("fixture parses");
    assert_eq!((stats.hp, stats.atk, stats.def), (45, 49, 49));
    assert_eq!((stats.speed, stats.spatk, stats.spdef), (45, 65, 65));
    assert_eq!(stats.types, [12, 3]);
    assert_eq!(stats.catch_rate, 45);
    assert_eq!(stats.exp_yield, 64);
    assert_eq!(
        stats.ev_yields,
        EvYields { hp: 0, atk: 0, def: 0, speed: 0, spatk: 1, spdef: 0 }
    );
    assert_eq!((stats.item_1, stats.item_2), (5, 0xB));
    assert_eq!(stats.gender_ratio, 31);
    assert_eq!(stats.egg_cycles, 20);
    assert_eq!(stats.friendship, 70);
    assert_eq!(stats.growth_rate, growth::MEDIUM_SLOW);
    assert_eq!(stats.egg_groups, [1, 7]);
    assert_eq!(stats.abilities, [65, 0]);
    assert_eq!(stats.great_marsh_rate, 9);
    assert_eq!(stats.color, 3);
    assert!(stats.flip);
    assert_eq!(stats.tmhm, [0x8435_0720, 0x0210_1E08, 0x9266_2420, 2]);
}

#[test]
fn tmhm_bits_read_word_then_bit() {
    let stats = BaseStats::parse(&personal_bytes()).expect("fixture parses");
    assert!(stats.tmhm_bit(21), "TM22");
    assert!(!stats.tmhm_bit(25), "TM26");
    assert!(stats.tmhm_bit(92), "HM01 Cut");
    assert!(!stats.tmhm_bit(99), "HM08");
}

#[test]
fn rejects_wrong_sizes_and_drifted_padding() {
    let good = personal_bytes();
    assert!(BaseStats::parse(&good[..43]).is_err(), "truncated");
    let mut long = good.clone();
    long.push(0);
    assert!(BaseStats::parse(&long).is_err(), "trailing slack");

    let mut drift = good.clone();
    drift[0x0B] = 0x10;
    assert!(BaseStats::parse(&drift).is_err());

    let mut drift = good.clone();
    drift[0x1A] = 1;
    assert!(BaseStats::parse(&drift).is_err());
}

#[test]
fn growth_curve_is_indexed_by_level() {
    let mut b = Vec::new();
    for level in 0..GROWTH_LEVELS {
        b.extend_from_slice(&(level as u32 * 7).to_le_bytes());
    }
    let curve = GrowthTable::parse(&b).expect("fixture parses");
    assert_eq!(curve.exp(0), 0);
    assert_eq!(curve.exp(1), 7);
    assert_eq!(curve.exp(100), 700);

    assert!(GrowthTable::parse(&b[..b.len() - 4]).is_err());
    assert!(GrowthTable::parse(&b[..b.len() - 3]).is_err());
    let mut odd = b.clone();
    odd.push(0);
    assert!(GrowthTable::parse(&odd).is_err());
}

#[test]
fn learnset_reads_entries_until_terminator() {
    let entries = [(1u16 << 9) | 33, (3u16 << 9) | 45];
    let mut b = Vec::new();
    for e in entries {
        b.extend_from_slice(&e.to_le_bytes());
    }
    b.extend_from_slice(&0xFFFFu16.to_le_bytes());
    b.extend_from_slice(&0u16.to_le_bytes());
    let learnset = Learnset::parse(&b).expect("fixture parses");
    assert_eq!(
        learnset.entries(),
        &[LearnMove { level: 1, move_id: 33 }, LearnMove { level: 3, move_id: 45 }]
    );

    let mut bad = b.clone();
    bad.truncate(bad.len() - 4);
    assert!(Learnset::parse(&bad).is_err());
    let mut bad = b.clone();
    let last = bad.len() - 2;
    bad[last] = 1;
    assert!(Learnset::parse(&bad).is_err());
    let mut bad = b.clone();
    bad.push(0);
    assert!(Learnset::parse(&bad).is_err());

    let empty = 0xFFFFu16.to_le_bytes();
    let learnset = Learnset::parse(&empty).expect("empty learnset parses");
    assert!(learnset.entries().is_empty());
}

#[test]
fn evolution_table_stops_at_the_first_none_slot() {
    let mut b = Vec::new();
    b.extend_from_slice(&[4u16, 16, 2].map(u16::to_le_bytes).concat());
    b.extend_from_slice(&[0u16; 18].map(u16::to_le_bytes).concat());
    b.extend_from_slice(&0u16.to_le_bytes());
    let table = EvolutionTable::parse(&b).expect("fixture parses");
    assert_eq!(table.entries(), &[Evolution { method: 4, param: 16, target: 2 }]);

    let mut b = Vec::new();
    for slot in 0..EVOLUTION_SLOTS {
        for word in [7u16, 82 + u16::try_from(slot).unwrap(), 134] {
            b.extend_from_slice(&word.to_le_bytes());
        }
    }
    b.extend_from_slice(&0u16.to_le_bytes());
    let table = EvolutionTable::parse(&b).expect("fixture parses");
    assert_eq!(table.entries().len(), EVOLUTION_SLOTS);

    assert!(EvolutionTable::parse(&b[..b.len() - 1]).is_err());
    let mut bad = b.clone();
    bad.push(0);
    assert!(EvolutionTable::parse(&bad).is_err());
    let mut bad = b.clone();
    bad[b.len() - 2] = 1;
    assert!(EvolutionTable::parse(&bad).is_err());
}

/// An index-only archive holding `members`, with a root-only filename
/// table.
fn index_narc(members: &[&[u8]]) -> Vec<u8> {
    let n = members.len();
    let data_len: usize = members.iter().map(|m| m.len()).sum();
    let btaf = 12 + 8 * n;
    let total = 0x10 + btaf + 16 + 8 + data_len;
    let mut b = Vec::new();
    b.extend_from_slice(b"NARC");
    b.extend_from_slice(&[0xFE, 0xFF, 0x00, 0x01]);
    b.extend_from_slice(&(total as u32).to_le_bytes());
    b.extend_from_slice(&[0x10, 0x00, 0x03, 0x00]);
    b.extend_from_slice(b"BTAF");
    b.extend_from_slice(&(btaf as u32).to_le_bytes());
    b.extend_from_slice(&(n as u16).to_le_bytes());
    b.extend_from_slice(&[0, 0]);
    let mut at = 0u32;
    for m in members {
        b.extend_from_slice(&at.to_le_bytes());
        at += m.len() as u32;
        b.extend_from_slice(&at.to_le_bytes());
    }
    b.extend_from_slice(b"BTNF");
    b.extend_from_slice(&16u32.to_le_bytes());
    b.extend_from_slice(&[0x04, 0x00, 0x00, 0x00, 0x00, 0x00, 0x01, 0x00]);
    b.extend_from_slice(b"GMIF");
    b.extend_from_slice(&((8 + data_len) as u32).to_le_bytes());
    for m in members {
        b.extend_from_slice(m);
    }
    b
}

#[test]
fn load_names_the_failing_table_and_its_fault() {
    // The personal archive does not parse.
    match GameData::load(&[], &[], &[], &[], &[], &[], &[]) {
        Err(DataError::Corrupt { what, row: None, .. }) => assert_eq!(what, paths::PERSONAL),
        other => panic!("unexpected {other:?}"),
    }
    // The personal archive parses but holds one member, not 508.
    let one = index_narc(&[&[0u8; 4]]);
    assert_eq!(
        GameData::load(&one, &[], &[], &[], &[], &[], &[]).err(),
        Some(DataError::WrongCount { what: paths::PERSONAL, expected: 508, got: 1 })
    );
}

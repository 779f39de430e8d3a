//! Species-level game data: base stats, growth curves, learnsets and
//! evolutions, each a fixed-layout binary row of a table archive.
//!
//! Field semantics that are not named (bit padding, unknown bytes) are
//! checked against the value the generator writes, so a drifted dump
//! fails instead of parsing to plausible-looking garbage.

use vstd::prelude::*;
use crate::nds::{NdsError, spec_u16le, spec_u32le, u16le, u32le};
use super::{exact, GROWTH_LEVELS, EVOLUTION_SLOTS};

pub mod growth;

verus! {

/// Bytes in one base-stats row.
pub const BASE_STATS_SIZE: usize = 0x2C;

/// A species' effort-value yields, packed two bits each across bytes
/// 0x0A–0x0B of [`BaseStats`].
#[derive(Debug, Clone, Copy, PartialEq, Eq)]
pub struct EvYields {
    /// HP EVs gained on defeat.
    pub hp: u8,
    /// Attack EVs gained on defeat.
    pub atk: u8,
    /// Defense EVs gained on defeat.
    pub def: u8,
    /// Speed EVs gained on defeat.
    pub speed: u8,
    /// Special Attack EVs gained on defeat.
    pub spatk: u8,
    /// Special Defense EVs gained on defeat.
    pub spdef: u8,
}

/// One species row of the base-stats table: 0x2C bytes.
#[derive(Debug, Clone, Copy, PartialEq, Eq)]
pub struct BaseStats {
    /// Base HP.
    pub hp: u8,
    /// Base Attack.
    pub atk: u8,
    /// Base Defense.
    pub def: u8,
    /// Base Speed.
    pub speed: u8,
    /// Base Special Attack.
    pub spatk: u8,
    /// Base Special Defense.
    pub spdef: u8,
    /// Type pair (`[t, t]` for single-typed species).
    pub types: [u8; 2],
    /// Catch rate.
    pub catch_rate: u8,
    /// Experience yield on defeat.
    pub exp_yield: u8,
    /// Effort-value yields (each 0–3).
    pub ev_yields: EvYields,
    /// Wild held item 1.
    pub item_1: u16,
    /// Wild held item 2.
    pub item_2: u16,
    /// Gender ratio code, kept raw.
    pub gender_ratio: u8,
    /// Egg cycles until hatching.
    pub egg_cycles: u8,
    /// Base friendship.
    pub friendship: u8,
    /// Growth curve id, a [`growth`] constant.
    pub growth_rate: u8,
    /// Egg-group pair, 0 = none.
    pub egg_groups: [u8; 2],
    /// Ability pair (ability 2 is 0 for single-ability species).
    pub abilities: [u8; 2],
    /// Great Marsh flee rate.
    pub great_marsh_rate: u8,
    /// Pokédex color, low 7 bits.
    pub color: u8,
    /// Whether the Pokédex picture is flipped.
    pub flip: bool,
    /// The 128 TM/HM compatibility bits, as read by [`BaseStats::tmhm_bit`].
    pub tmhm: [u32; 4],
}

/// Whether `s` is a well-formed base-stats row: 0x2C bytes, a zero EV
/// pad nibble and zero padding at 0x1A–0x1B.
pub open spec fn base_stats_ok(s: Seq<u8>) -> bool {
    &&& s.len() == BASE_STATS_SIZE
    &&& s[0x0B] >> 4u8 == 0
    &&& s[0x1A] == 0
    &&& s[0x1B] == 0
}

/// Whether `b` is what the well-formed row `s` decodes to.
pub open spec fn base_stats_fields(s: Seq<u8>, b: BaseStats) -> bool {
    &&& b.hp == s[0] && b.atk == s[1] && b.def == s[2] && b.speed == s[3]
    &&& b.spatk == s[4] && b.spdef == s[5]
    &&& b.types@ == seq![s[6], s[7]]
    &&& b.catch_rate == s[8] && b.exp_yield == s[9]
    &&& b.ev_yields == EvYields {
        hp: s[0x0A] & 3,
        atk: (s[0x0A] >> 2u8) & 3,
        def: (s[0x0A] >> 4u8) & 3,
        speed: (s[0x0A] >> 6u8) & 3,
        spatk: s[0x0B] & 3,
        spdef: (s[0x0B] >> 2u8) & 3,
    }
    &&& b.item_1 == spec_u16le(s, 0x0C) && b.item_2 == spec_u16le(s, 0x0E)
    &&& b.gender_ratio == s[0x10] && b.egg_cycles == s[0x11] && b.friendship == s[0x12]
    &&& b.growth_rate == s[0x13]
    &&& b.egg_groups@ == seq![s[0x14], s[0x15]]
    &&& b.abilities@ == seq![s[0x16], s[0x17]]
    &&& b.great_marsh_rate == s[0x18]
    &&& b.color == s[0x19] & 0x7F
    &&& b.flip == (s[0x19] >> 7u8 != 0)
    &&& b.tmhm@ == seq![spec_u32le(s, 0x1C), spec_u32le(s, 0x20), spec_u32le(s, 0x24), spec_u32le(s, 0x28)]
}

impl BaseStats {
    /// Parses one base-stats member; fails when it is not exactly 0x2C
    /// bytes or the generator-zero padding is not zero.
    pub fn parse(data: &[u8]) -> (res: Result<Self, NdsError>)
        ensures
            res is Ok <==> base_stats_ok(data@),
            res matches Ok(b) ==> base_stats_fields(data@, b),
    {
        exact(data, BASE_STATS_SIZE, "personal entry")?;
        let ev_yields = EvYields {
            hp: data[0x0A] & 3,
            atk: (data[0x0A] >> 2u8) & 3,
            def: (data[0x0A] >> 4u8) & 3,
            speed: (data[0x0A] >> 6u8) & 3,
            spatk: data[0x0B] & 3,
            spdef: (data[0x0B] >> 2u8) & 3,
        };
        if data[0x0B] >> 4u8 != 0 {
            return Err(NdsError::Invalid { what: "personal EV-yield bit padding is not zero" });
        }
        if data[0x1A] != 0 || data[0x1B] != 0 {
            return Err(NdsError::Invalid { what: "personal entry's padding at 0x1A is not zero" });
        }
        let b = BaseStats {
            hp: data[0x00],
            atk: data[0x01],
            def: data[0x02],
            speed: data[0x03],
            spatk: data[0x04],
            spdef: data[0x05],
            types: [data[0x06], data[0x07]],
            catch_rate: data[0x08],
            exp_yield: data[0x09],
            ev_yields,
            item_1: u16le(data, 0x0C)?,
            item_2: u16le(data, 0x0E)?,
            gender_ratio: data[0x10],
            egg_cycles: data[0x11],
            friendship: data[0x12],
            growth_rate: data[0x13],
            egg_groups: [data[0x14], data[0x15]],
            abilities: [data[0x16], data[0x17]],
            great_marsh_rate: data[0x18],
            color: data[0x19] & 0x7F,
            flip: data[0x19] >> 7u8 != 0,
            tmhm: [u32le(data, 0x1C)?, u32le(data, 0x20)?, u32le(data, 0x24)?, u32le(data, 0x28)?],
        };
        assert(b.types@ =~= seq![data@[6], data@[7]]);
        assert(b.egg_groups@ =~= seq![data@[0x14], data@[0x15]]);
        assert(b.abilities@ =~= seq![data@[0x16], data@[0x17]]);
        assert(b.tmhm@ =~= seq![spec_u32le(data@, 0x1C), spec_u32le(data@, 0x20), spec_u32le(data@, 0x24), spec_u32le(data@, 0x28)]);
        Ok(b)
    }

    /// Whether the species can learn TM/HM number `tmhm`: bit `tmhm % 32`
    /// of word `tmhm / 32` (TM01 is 0 … HM08 is 99).
    pub fn tmhm_bit(&self, tmhm: u8) -> (res: bool)
        requires
            tmhm < 128,
        ensures
            res == ((self.tmhm[(tmhm / 32) as int] >> (tmhm % 32) as u32) & 1 != 0),
    {
        let word = self.tmhm[(tmhm / 32) as usize];
        (word >> (tmhm % 32) as u32) & 1 != 0
    }
}

/// One experience growth curve: the total experience needed to reach
/// each level 0–100.
#[derive(Debug, Clone, PartialEq, Eq)]
pub struct GrowthTable(Vec<u32>);

impl GrowthTable {
    /// The experience column of every level.
    pub closed spec fn levels(&self) -> Seq<u32> {
        self.0@
    }

    /// Parses one growth-curve member; fails unless it is exactly
    /// 101 × 4 bytes.
    pub fn parse(data: &[u8]) -> (res: Result<Self, NdsError>)
        ensures
            res is Ok <==> data@.len() == GROWTH_LEVELS * 4,
            res matches Ok(g) ==> g.levels().len() == GROWTH_LEVELS && forall|l: int|
                0 <= l < GROWTH_LEVELS ==> #[trigger] g.levels()[l] == spec_u32le(data@, 4 * l),
    {
        exact(data, GROWTH_LEVELS * 4, "growth curve")?;
        let mut table: Vec<u32> = Vec::new();
        let mut level: usize = 0;
        while level < GROWTH_LEVELS
            invariant
                data@.len() == GROWTH_LEVELS * 4,
                level <= GROWTH_LEVELS,
                table@.len() == level,
                forall|l: int| 0 <= l < level ==> #[trigger] table@[l] == spec_u32le(data@, 4 * l),
            decreases GROWTH_LEVELS - level,
        {
            table.push(u32le(data, 4 * level)?);
            level += 1;
        }
        Ok(GrowthTable(table))
    }

    /// The total experience needed to reach `level` (0–100).
    pub fn exp(&self, level: u8) -> (res: u32)
        requires
            level <= 100,
            self.levels().len() == GROWTH_LEVELS,
        ensures
            res == self.levels()[level as int],
    {
        self.0[level as usize]
    }
}

/// One `(level, move)` pair of a level-up learnset, decoded from the
/// entry `(level << 9) | move`.
#[derive(Debug, Clone, Copy, PartialEq, Eq)]
pub struct LearnMove {
    /// The level at which the move is learned.
    pub level: u8,
    /// The move learned, a move row id.
    pub move_id: u16,
}

/// The learnset word `i` of `s`.
pub open spec fn learn_word(s: Seq<u8>, i: int) -> u16 {
    spec_u16le(s, 2 * i)
}

/// Whether word `t` is the first 0xFFFF terminator of `s`.
pub open spec fn learnset_end(s: Seq<u8>, t: int) -> bool {
    &&& 0 <= t
    &&& 2 * t + 2 <= s.len()
    &&& learn_word(s, t) == 0xFFFF
    &&& forall|j: int| 0 <= j < t ==> #[trigger] learn_word(s, j) != 0xFFFF
}

/// Whether `s` is a well-formed learnset: whole words, a terminator,
/// and only zero bytes after it.
pub open spec fn learnset_ok(s: Seq<u8>) -> bool {
    &&& s.len() % 2 == 0
    &&& exists|t: int|
        #[trigger] learnset_end(s, t) && forall|b: int| 2 * t + 2 <= b < s.len() ==> s[b] == 0
}

/// The entry that learnset word `w` decodes to.
pub open spec fn learn_move(w: u16) -> LearnMove {
    LearnMove { level: (w >> 9u16) as u8, move_id: w & 0x1FF }
}

/// One species' level-up learnset: `(level << 9) | move` entries,
/// terminated by 0xFFFF, then zero padding.
#[derive(Debug, Clone, PartialEq, Eq, Default)]
pub struct Learnset {
    entries: Vec<LearnMove>,
}

impl Learnset {
    /// The moves in learn order.
    pub closed spec fn moves(&self) -> Seq<LearnMove> {
        self.entries@
    }

    /// Parses one learnset member; fails when it is odd-length, has no
    /// 0xFFFF terminator, or carries nonzero bytes after it.
    pub fn parse(data: &[u8]) -> (res: Result<Self, NdsError>)
        ensures
            res is Ok <==> learnset_ok(data@),
            res matches Ok(l) ==> exists|t: int|
                #[trigger] learnset_end(data@, t) && l.moves() == Seq::new(
                    t as nat,
                    |j: int| learn_move(learn_word(data@, j)),
                ),
    {
        if data.len() % 2 != 0 {
            return Err(NdsError::Invalid { what: "learnset is not a whole number of entries" });
        }
        let mut entries: Vec<LearnMove> = Vec::new();
        let mut id: usize = 0;
        while id < data.len() / 2
            invariant
                data@.len() % 2 == 0,
                id <= data@.len() / 2,
                entries@.len() == id,
                forall|j: int| 0 <= j < id ==> #[trigger] learn_word(data@, j) != 0xFFFF,
                forall|j: int|
                    0 <= j < id ==> #[trigger] entries@[j] == learn_move(learn_word(data@, j)),
            decreases data@.len() / 2 - id,
        {
            let word = u16le(data, 2 * id)?;
            if word == 0xFFFF {
                assert(learnset_end(data@, id as int));
                let mut b = 2 * (id + 1);
                while b < data.len()
                    invariant
                        2 * id + 2 <= b <= data@.len(),
                        learn_word(data@, id as int) == 0xFFFF,
                        forall|j: int| 0 <= j < id ==> #[trigger] learn_word(data@, j) != 0xFFFF,
                        forall|c: int| 2 * id + 2 <= c < b ==> data@[c] == 0,
                    decreases data@.len() - b,
                {
                    if data[b] != 0 {
                        proof {
                            assert forall|t: int| #[trigger] learnset_end(data@, t) implies t == id by {
                                if t < id {
                                    assert(learn_word(data@, t) != 0xFFFF);
                                } else if t > id {
                                    assert(learn_word(data@, id as int) != 0xFFFF);
                                }
                            }
                        }
                        return Err(
                            NdsError::Invalid {
                                what: "learnset carries nonzero bytes after its terminator",
                            },
                        );
                    }
                    b += 1;
                }
                let l = Learnset { entries };
                assert(l.moves() =~= Seq::new(id as nat, |j: int| learn_move(learn_word(data@, j))));
                return Ok(l);
            }
            entries.push(LearnMove { level: (word >> 9u16) as u8, move_id: word & 0x1FF });
            id += 1;
        }
        proof {
            assert forall|t: int| !#[trigger] learnset_end(data@, t) by {
                if 0 <= t && 2 * t + 2 <= data@.len() {
                    assert(learn_word(data@, t) != 0xFFFF);
                }
            }
        }
        Err(NdsError::Invalid { what: "learnset is not 0xFFFF-terminated" })
    }

    /// The learnable moves in learn order.
    pub fn entries(&self) -> (res: &[LearnMove])
        ensures
            res@ == self.moves(),
    {
        self.entries.as_slice()
    }
}

/// `EVO_NONE`: the evolution method that terminates a species' list.
pub const EVO_NONE: u16 = 0;

/// One evolution possibility: a 6-byte `(method, param, target)` triple.
#[derive(Debug, Clone, Copy, PartialEq, Eq)]
pub struct Evolution {
    /// The method id; 0 ([`EVO_NONE`]) terminates the list.
    pub method: u16,
    /// The method's parameter: a level, an item id, or unused.
    pub param: u16,
    /// The species evolved into.
    pub target: u16,
}

/// Bytes in one evolution member: seven slots and a zero pad word.
pub const EVOLUTION_SIZE: usize = 44;

/// The evolution slot `k` of `s`.
pub open spec fn evolution_slot(s: Seq<u8>, k: int) -> Evolution {
    Evolution {
        method: spec_u16le(s, 6 * k),
        param: spec_u16le(s, 6 * k + 2),
        target: spec_u16le(s, 6 * k + 4),
    }
}

/// One species' evolution possibilities: seven [`Evolution`] slots.
#[derive(Debug, Clone, PartialEq, Eq)]
pub struct EvolutionTable {
    slots: Vec<Evolution>,
}

impl EvolutionTable {
    /// All seven slots, terminator padding included.
    pub closed spec fn all_slots(&self) -> Seq<Evolution> {
        self.slots@
    }

    /// Parses one evolution member; fails when it is not 44 bytes or its
    /// trailing pad word is not zero.
    pub fn parse(data: &[u8]) -> (res: Result<Self, NdsError>)
        ensures
            res is Ok <==> data@.len() == EVOLUTION_SIZE && spec_u16le(data@, 42) == 0,
            res matches Ok(t) ==> t.all_slots() == Seq::new(
                EVOLUTION_SLOTS as nat,
                |k: int| evolution_slot(data@, k),
            ),
    {
        exact(data, EVOLUTION_SLOTS * 6 + 2, "evolution entry")?;
        if u16le(data, EVOLUTION_SLOTS * 6)? != 0 {
            return Err(NdsError::Invalid { what: "evolution entry's padding word is not zero" });
        }
        let mut slots: Vec<Evolution> = Vec::new();
        let mut slot: usize = 0;
        while slot < EVOLUTION_SLOTS
            invariant
                data@.len() == EVOLUTION_SIZE,
                slot <= EVOLUTION_SLOTS,
                slots@.len() == slot,
                forall|k: int| 0 <= k < slot ==> #[trigger] slots@[k] == evolution_slot(data@, k),
            decreases EVOLUTION_SLOTS - slot,
        {
            slots.push(
                Evolution {
                    method: u16le(data, 6 * slot)?,
                    param: u16le(data, 6 * slot + 2)?,
                    target: u16le(data, 6 * slot + 4)?,
                },
            );
            slot += 1;
        }
        let t = EvolutionTable { slots };
        assert(t.all_slots() =~= Seq::new(EVOLUTION_SLOTS as nat, |k: int| evolution_slot(data@, k)));
        Ok(t)
    }

    /// The active evolution list: every slot up to the first
    /// [`EVO_NONE`] terminator (possibly empty).
    pub fn entries(&self) -> (res: &[Evolution])
        ensures
            res@ == self.all_slots().subrange(0, res@.len() as int),
            forall|k: int| 0 <= k < res@.len() ==> #[trigger] res@[k].method != EVO_NONE,
            res@.len() == self.all_slots().len() || self.all_slots()[res@.len() as int].method
                == EVO_NONE,
    {
        let mut end: usize = 0;
        while end < self.slots.len() && self.slots[end].method != EVO_NONE
            invariant
                end <= self.slots@.len(),
                forall|k: int| 0 <= k < end ==> #[trigger] self.slots@[k].method != EVO_NONE,
            decreases self.slots@.len() - end,
        {
            end += 1;
        }
        crate::nds::slice_range(self.slots.as_slice(), 0, end)
    }
}

} // verus!

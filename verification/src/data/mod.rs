//! Game data tables: species, moves, items, read from the game's own
//! table archives.
//!
//! [`GameData::load`] parses every row of every table eagerly and
//! rejects wrong member counts, wrong row sizes, and generator-zero
//! padding that is not zero.

use vstd::prelude::*;
use crate::formats::narc::{Narc, narc_ok, narc_layout_ok, narc_member_count, narc_member_data, narc_members};
use crate::data::personal::{base_stats_ok, base_stats_fields, learnset_ok, learnset_end, learn_move, learn_word, evolution_slot, EVOLUTION_SIZE};
use crate::data::items::{item_row_ok, item_fields};
use crate::data::moves::{MOVE_SIZE, spec_category};
use crate::nds::spec_u32le;
use crate::nds::{NdsError, spec_u16le, u16le};

pub mod items;
pub mod moves;
pub mod paths;
pub mod personal;

pub use items::{ItemEntry, NO_NATURAL_GIFT, pocket};
pub use moves::{MoveCategory, MoveEntry};
pub use personal::{
    BaseStats, EVO_NONE, EvYields, Evolution, EvolutionTable, GrowthTable, LearnMove, Learnset,
    growth,
};

verus! {

/// Rows in the species-indexed tables.
pub const SPECIES_ROWS: usize = 508;

/// Rows in the growth-curve table.
pub const GROWTH_RATES: usize = 8;

/// Experience columns per curve: levels 0 through 100.
pub const GROWTH_LEVELS: usize = 101;

/// Rows in the move table.
pub const MOVE_ROWS: usize = 471;

/// Rows in the item table.
pub const ITEM_ROWS: usize = 514;

/// Evolution slots per species.
pub const EVOLUTION_SLOTS: usize = 7;

/// The nine species whose eggs hatch as themselves by default (the
/// incense-breeding families).
pub open spec fn incense_species(s: u16) -> bool {
    s == 113 || s == 122 || s == 143 || s == 183 || s == 185 || s == 202 || s == 226 || s == 315
        || s == 358
}

/// Failures while reading the game data tables.
#[derive(Debug, Clone, Copy, PartialEq, Eq)]
pub enum DataError {
    /// A table's archive has no member `id`.
    Missing {
        /// The table.
        what: &'static str,
        /// The member id.
        id: usize,
    },
    /// A table or one of its rows failed to parse.
    Corrupt {
        /// The failing table.
        what: &'static str,
        /// The failing row, or `None` for the archive itself.
        row: Option<usize>,
        /// The underlying parse error.
        source: NdsError,
    },
    /// A table's member count differs from the retail image's.
    WrongCount {
        /// The failing table.
        what: &'static str,
        /// The retail member count.
        expected: usize,
        /// The member count found.
        got: usize,
    },
}

/// Pins `data` to exactly `size` bytes: truncated when short, invalid
/// when long.
pub fn exact(data: &[u8], size: usize, what: &'static str) -> (res: Result<(), NdsError>)
    ensures
        data@.len() < size ==> res == Err::<(), NdsError>(
            NdsError::Truncated { what, need: size, got: data@.len() as usize },
        ),
        data@.len() > size ==> res == Err::<(), NdsError>(NdsError::Invalid { what }),
        data@.len() == size ==> res is Ok,
{
    if data.len() < size {
        return Err(NdsError::Truncated { what, need: size, got: data.len() });
    }
    if data.len() > size {
        return Err(NdsError::Invalid { what });
    }
    Ok(())
}

/// A row of a game-data table: how its bytes validate and decode.
pub trait TableRow: Sized {
    /// Whether `s` is a well-formed row.
    spec fn row_valid(s: Seq<u8>) -> bool;

    /// Whether `r` is what the well-formed row `s` decodes to.
    spec fn decodes(s: Seq<u8>, r: Self) -> bool;

    /// Decodes one row; fails exactly on malformed rows.
    fn decode(data: &[u8]) -> (res: Result<Self, NdsError>)
        ensures
            res is Ok <==> Self::row_valid(data@),
            res matches Ok(r) ==> Self::decodes(data@, r),
    ;
}

impl TableRow for BaseStats {
    open spec fn row_valid(s: Seq<u8>) -> bool {
        base_stats_ok(s)
    }

    open spec fn decodes(s: Seq<u8>, r: Self) -> bool {
        base_stats_fields(s, r)
    }

    fn decode(data: &[u8]) -> (res: Result<Self, NdsError>) {
        BaseStats::parse(data)
    }
}

impl TableRow for GrowthTable {
    open spec fn row_valid(s: Seq<u8>) -> bool {
        s.len() == GROWTH_LEVELS * 4
    }

    open spec fn decodes(s: Seq<u8>, r: Self) -> bool {
        r.levels().len() == GROWTH_LEVELS && forall|l: int|
            0 <= l < GROWTH_LEVELS ==> #[trigger] r.levels()[l] == spec_u32le(s, 4 * l)
    }

    fn decode(data: &[u8]) -> (res: Result<Self, NdsError>) {
        GrowthTable::parse(data)
    }
}

impl TableRow for MoveEntry {
    open spec fn row_valid(s: Seq<u8>) -> bool {
        s.len() == MOVE_SIZE && s[2] <= 2
    }

    open spec fn decodes(s: Seq<u8>, m: Self) -> bool {
        &&& m.effect == spec_u16le(s, 0)
        &&& spec_category(s[2]) == Some(m.category)
        &&& m.power == s[3]
        &&& m.type_ == s[4]
        &&& m.accuracy == s[5]
        &&& m.pp == s[6]
        &&& m.effect_chance == s[7]
        &&& m.range == spec_u16le(s, 8)
        &&& m.priority == s[0x0A] as i8
        &&& m.unk_0b == s[0x0B]
        &&& m.unk_0c == s[0x0C]
        &&& m.contest_type == s[0x0D]
        &&& m.unk_0e == spec_u16le(s, 0x0E)
    }

    fn decode(data: &[u8]) -> (res: Result<Self, NdsError>) {
        MoveEntry::parse(data)
    }
}

impl TableRow for ItemEntry {
    open spec fn row_valid(s: Seq<u8>) -> bool {
        item_row_ok(s)
    }

    open spec fn decodes(s: Seq<u8>, r: Self) -> bool {
        item_fields(s, r)
    }

    fn decode(data: &[u8]) -> (res: Result<Self, NdsError>) {
        ItemEntry::parse(data)
    }
}

impl TableRow for Learnset {
    open spec fn row_valid(s: Seq<u8>) -> bool {
        learnset_ok(s)
    }

    open spec fn decodes(s: Seq<u8>, r: Self) -> bool {
        exists|t: int|
            #[trigger] learnset_end(s, t) && r.moves() == Seq::new(
                t as nat,
                |j: int| learn_move(learn_word(s, j)),
            )
    }

    fn decode(data: &[u8]) -> (res: Result<Self, NdsError>) {
        Learnset::parse(data)
    }
}

impl TableRow for EvolutionTable {
    open spec fn row_valid(s: Seq<u8>) -> bool {
        s.len() == EVOLUTION_SIZE && spec_u16le(s, 42) == 0
    }

    open spec fn decodes(s: Seq<u8>, r: Self) -> bool {
        r.all_slots() == Seq::new(EVOLUTION_SLOTS as nat, |k: int| evolution_slot(s, k))
    }

    fn decode(data: &[u8]) -> (res: Result<Self, NdsError>) {
        EvolutionTable::parse(data)
    }
}

/// Whether `rows` is the decode of every one of the `expected` members
/// of the table archive `s`.
pub open spec fn table_rows<T: TableRow>(s: Seq<u8>, expected: usize, rows: Seq<T>) -> bool {
    &&& narc_layout_ok(s)
    &&& narc_member_count(s) == expected
    &&& rows.len() == expected
    &&& forall|i: int|
        0 <= i < expected ==> T::row_valid(narc_member_data(s, i)) && T::decodes(
            #[trigger] narc_member_data(s, i),
            rows[i],
        )
}

/// Whether the table archive `s` parses and holds `expected` well-formed
/// rows.
pub open spec fn table_ok<T: TableRow>(s: Seq<u8>, expected: usize) -> bool {
    &&& narc_ok(s)
    &&& narc_member_count(s) == expected
    &&& forall|i: int| 0 <= i < expected ==> #[trigger] T::row_valid(narc_member_data(s, i))
}

/// Whether `e` is the error reading the table archive `s` (named `what`)
/// gives: [`DataError::Corrupt`] without a row when the archive does not
/// parse, [`DataError::WrongCount`] when it holds another member count,
/// else [`DataError::Corrupt`] naming its first malformed row.
pub open spec fn table_error<T: TableRow>(s: Seq<u8>, expected: usize, what: &'static str, e: DataError) -> bool {
    if !narc_ok(s) {
        e matches DataError::Corrupt { what: w, row: None, .. } && w == what
    } else if narc_member_count(s) != expected {
        e == DataError::WrongCount { what, expected, got: narc_member_count(s) as usize }
    } else {
        e matches DataError::Corrupt { what: w, row: Some(r), .. } && w == what && r < expected
            && !T::row_valid(narc_member_data(s, r as int)) && forall|j: int|
            0 <= j < r ==> #[trigger] T::row_valid(narc_member_data(s, j))
    }
}

/// Parses the `expected` members of the table archive `archive`, row by
/// row.
///
/// Fails with [`DataError::Corrupt`] (no row) when the archive does not
/// parse, [`DataError::WrongCount`] when its member count differs from
/// `expected`, and [`DataError::Corrupt`] naming the row when a row fails
/// its layout validation.
fn members<T: TableRow>(archive: &[u8], expected: usize, what: &'static str) -> (res: Result<
    Vec<T>,
    DataError,
>)
    ensures
        res is Ok <==> table_ok::<T>(archive@, expected),
        res matches Ok(v) ==> table_rows(archive@, expected, v@),
        res matches Err(e) ==> table_error::<T>(archive@, expected, what, e),
{
    let narc = match Narc::parse(archive) {
        Ok(n) => n,
        Err(source) => {
            return Err(DataError::Corrupt { what, row: None, source });
        },
    };
    let got = narc.file_count();
    if got != expected {
        return Err(DataError::WrongCount { what, expected, got });
    }
    let mut rows: Vec<T> = Vec::new();
    let mut id: usize = 0;
    while id < expected
        invariant
            narc.bytes() == archive@,
            narc_layout_ok(archive@),
            narc_ok(archive@),
            narc_member_count(archive@) == expected,
            narc.ranges() == narc_members(archive@),
            narc.ranges().len() == expected,
            narc.body() == crate::formats::narc::gmif_off(archive@) + 8,
            id <= expected,
            rows@.len() == id,
            forall|i: int|
                0 <= i < id ==> T::row_valid(narc_member_data(archive@, i)) && T::decodes(
                    #[trigger] narc_member_data(archive@, i),
                    rows@[i],
                ),
        decreases expected - id,
    {
        let raw = match narc.file(id) {
            Ok(raw) => raw,
            Err(_) => {
                return Err(DataError::Missing { what, id });
            },
        };
        assert(raw@ == narc_member_data(archive@, id as int));
        match T::decode(raw) {
            Ok(r) => rows.push(r),
            Err(source) => {
                return Err(DataError::Corrupt { what, row: Some(id), source });
            },
        }
        id += 1;
    }
    Ok(rows)
}

/// Whether the six table archives and the egg-species map are all well
/// formed.
pub open spec fn game_data_ok(
    personal: Seq<u8>,
    growtbl: Seq<u8>,
    waza: Seq<u8>,
    item_data: Seq<u8>,
    wotbl: Seq<u8>,
    evo: Seq<u8>,
    pms: Seq<u8>,
) -> bool {
    &&& table_ok::<BaseStats>(personal, SPECIES_ROWS)
    &&& table_ok::<GrowthTable>(growtbl, GROWTH_RATES)
    &&& table_ok::<MoveEntry>(waza, MOVE_ROWS)
    &&& table_ok::<ItemEntry>(item_data, ITEM_ROWS)
    &&& table_ok::<Learnset>(wotbl, SPECIES_ROWS)
    &&& table_ok::<EvolutionTable>(evo, SPECIES_ROWS)
    &&& pms.len() == SPECIES_ROWS * 2
}

/// Whether `e` is the error loading the tables gives: that of the first
/// malformed table, in load order, named by its path; for a wrong-sized
/// egg-species map, [`DataError::Corrupt`] naming that file without a
/// row, over the size error.
pub open spec fn game_data_error(
    personal: Seq<u8>,
    growtbl: Seq<u8>,
    waza: Seq<u8>,
    item_data: Seq<u8>,
    wotbl: Seq<u8>,
    evo: Seq<u8>,
    pms: Seq<u8>,
    e: DataError,
) -> bool {
    if !table_ok::<BaseStats>(personal, SPECIES_ROWS) {
        table_error::<BaseStats>(personal, SPECIES_ROWS, paths::PERSONAL, e)
    } else if !table_ok::<GrowthTable>(growtbl, GROWTH_RATES) {
        table_error::<GrowthTable>(growtbl, GROWTH_RATES, paths::GROWTBL, e)
    } else if !table_ok::<MoveEntry>(waza, MOVE_ROWS) {
        table_error::<MoveEntry>(waza, MOVE_ROWS, paths::WAZA, e)
    } else if !table_ok::<ItemEntry>(item_data, ITEM_ROWS) {
        table_error::<ItemEntry>(item_data, ITEM_ROWS, paths::ITEM_DATA, e)
    } else if !table_ok::<Learnset>(wotbl, SPECIES_ROWS) {
        table_error::<Learnset>(wotbl, SPECIES_ROWS, paths::WOTBL, e)
    } else if !table_ok::<EvolutionTable>(evo, SPECIES_ROWS) {
        table_error::<EvolutionTable>(evo, SPECIES_ROWS, paths::EVO, e)
    } else {
        e == DataError::Corrupt {
            what: paths::PMS,
            row: None,
            source: if pms.len() < SPECIES_ROWS * 2 {
                NdsError::Truncated { what: "egg-species table", need: (SPECIES_ROWS * 2) as usize, got: pms.len() as usize }
            } else {
                NdsError::Invalid { what: "egg-species table" }
            },
        }
    }
}

/// Every row of every table, parsed and validated.
#[derive(Debug, Clone)]
pub struct GameData {
    personal: Vec<BaseStats>,
    growth: Vec<GrowthTable>,
    moves: Vec<MoveEntry>,
    items: Vec<ItemEntry>,
    learnsets: Vec<Learnset>,
    evolutions: Vec<EvolutionTable>,
    egg_species: Vec<u16>,
}

impl GameData {
    /// The base-stats rows, species-indexed.
    pub closed spec fn personal_rows(&self) -> Seq<BaseStats> {
        self.personal@
    }

    /// The growth-curve rows, growth-rate-indexed.
    pub closed spec fn growth_rows(&self) -> Seq<GrowthTable> {
        self.growth@
    }

    /// The move rows, move-id-indexed.
    pub closed spec fn move_rows(&self) -> Seq<MoveEntry> {
        self.moves@
    }

    /// The item rows, item-id-indexed.
    pub closed spec fn item_rows(&self) -> Seq<ItemEntry> {
        self.items@
    }

    /// The learnset rows, species-indexed.
    pub closed spec fn learnset_rows(&self) -> Seq<Learnset> {
        self.learnsets@
    }

    /// The evolution rows, species-indexed.
    pub closed spec fn evolution_rows(&self) -> Seq<EvolutionTable> {
        self.evolutions@
    }

    /// The egg-species map, species-indexed.
    pub closed spec fn egg_map(&self) -> Seq<u16> {
        self.egg_species@
    }

    /// Parses every data table from the raw bytes of the table files:
    /// the six table archives and the egg-species map (508 little-endian
    /// `u16`s).
    ///
    /// Fails, on the first table in that order that is wrong, when an
    /// archive does not parse, its member count differs from the retail
    /// image's, or a row fails its layout validation, and then when the
    /// egg-species map is not exactly 1016 bytes.
    pub fn load(
        personal: &[u8],
        growtbl: &[u8],
        waza: &[u8],
        item_data: &[u8],
        wotbl: &[u8],
        evo: &[u8],
        pms: &[u8],
    ) -> (res: Result<Self, DataError>)
        ensures
            res is Ok <==> game_data_ok(personal@, growtbl@, waza@, item_data@, wotbl@, evo@, pms@),
            res matches Ok(g) ==> {
                &&& table_rows(personal@, SPECIES_ROWS, g.personal_rows())
                &&& table_rows(growtbl@, GROWTH_RATES, g.growth_rows())
                &&& table_rows(waza@, MOVE_ROWS, g.move_rows())
                &&& table_rows(item_data@, ITEM_ROWS, g.item_rows())
                &&& table_rows(wotbl@, SPECIES_ROWS, g.learnset_rows())
                &&& table_rows(evo@, SPECIES_ROWS, g.evolution_rows())
                &&& g.egg_map().len() == SPECIES_ROWS
                &&& forall|i: int|
                    0 <= i < SPECIES_ROWS ==> #[trigger] g.egg_map()[i] == spec_u16le(pms@, 2 * i)
            },
            res matches Err(e) ==> game_data_error(personal@, growtbl@, waza@, item_data@, wotbl@, evo@, pms@, e),
    {
        let personal = members::<BaseStats>(personal, SPECIES_ROWS, paths::PERSONAL)?;
        let growth = members::<GrowthTable>(growtbl, GROWTH_RATES, paths::GROWTBL)?;
        let moves = members::<MoveEntry>(waza, MOVE_ROWS, paths::WAZA)?;
        let items = members::<ItemEntry>(item_data, ITEM_ROWS, paths::ITEM_DATA)?;
        let learnsets = members::<Learnset>(wotbl, SPECIES_ROWS, paths::WOTBL)?;
        let evolutions = members::<EvolutionTable>(evo, SPECIES_ROWS, paths::EVO)?;
        if let Err(source) = exact(pms, SPECIES_ROWS * 2, "egg-species table") {
            return Err(DataError::Corrupt { what: paths::PMS, row: None, source });
        }
        let mut egg_species: Vec<u16> = Vec::new();
        let mut species: usize = 0;
        while species < SPECIES_ROWS
            invariant
                pms@.len() == SPECIES_ROWS * 2,
                species <= SPECIES_ROWS,
                egg_species@.len() == species,
                forall|i: int| 0 <= i < species ==> #[trigger] egg_species@[i] == spec_u16le(pms@, 2 * i),
            decreases SPECIES_ROWS - species,
        {
            match u16le(pms, 2 * species) {
                Ok(v) => egg_species.push(v),
                Err(source) => {
                    return Err(DataError::Corrupt { what: paths::PMS, row: None, source });
                },
            }
            species += 1;
        }
        Ok(GameData { personal, growth, moves, items, learnsets, evolutions, egg_species })
    }

    /// A store built directly from rows (for callers that assemble data
    /// without the table archives).
    pub fn from_rows(
        personal: Vec<BaseStats>,
        growth: Vec<GrowthTable>,
        moves: Vec<MoveEntry>,
        items: Vec<ItemEntry>,
        learnsets: Vec<Learnset>,
        evolutions: Vec<EvolutionTable>,
        egg_species: Vec<u16>,
    ) -> (res: Self)
        ensures
            res.personal_rows() == personal@,
            res.growth_rows() == growth@,
            res.move_rows() == moves@,
            res.item_rows() == items@,
            res.learnset_rows() == learnsets@,
            res.evolution_rows() == evolutions@,
            res.egg_map() == egg_species@,
    {
        GameData { personal, growth, moves, items, learnsets, evolutions, egg_species }
    }

    /// Base stats of `species` (`None` past the last row).
    pub fn base_stats(&self, species: u16) -> (res: Option<&BaseStats>)
        ensures
            res == (if (species as int) < self.personal_rows().len() {
                Some(&self.personal_rows()[species as int])
            } else {
                None
            }),
    {
        if (species as usize) < self.personal.len() {
            Some(&self.personal[species as usize])
        } else {
            None
        }
    }

    /// The experience curve named by a growth id.
    pub fn growth_table(&self, rate: u8) -> (res: Option<&GrowthTable>)
        ensures
            res == (if (rate as int) < self.growth_rows().len() {
                Some(&self.growth_rows()[rate as int])
            } else {
                None
            }),
    {
        if (rate as usize) < self.growth.len() {
            Some(&self.growth[rate as usize])
        } else {
            None
        }
    }

    /// Move data for `move_id`.
    pub fn move_data(&self, move_id: u16) -> (res: Option<&MoveEntry>)
        ensures
            res == (if (move_id as int) < self.move_rows().len() {
                Some(&self.move_rows()[move_id as int])
            } else {
                None
            }),
    {
        if (move_id as usize) < self.moves.len() {
            Some(&self.moves[move_id as usize])
        } else {
            None
        }
    }

    /// Item data for `item_id`.
    pub fn item(&self, item_id: u16) -> (res: Option<&ItemEntry>)
        ensures
            res == (if (item_id as int) < self.item_rows().len() {
                Some(&self.item_rows()[item_id as int])
            } else {
                None
            }),
    {
        if (item_id as usize) < self.items.len() {
            Some(&self.items[item_id as usize])
        } else {
            None
        }
    }

    /// The level-up learnset of `species`.
    pub fn learnset(&self, species: u16) -> (res: Option<&Learnset>)
        ensures
            res == (if (species as int) < self.learnset_rows().len() {
                Some(&self.learnset_rows()[species as int])
            } else {
                None
            }),
    {
        if (species as usize) < self.learnsets.len() {
            Some(&self.learnsets[species as usize])
        } else {
            None
        }
    }

    /// The evolution possibilities of `species`.
    pub fn evolutions(&self, species: u16) -> (res: Option<&EvolutionTable>)
        ensures
            res == (if (species as int) < self.evolution_rows().len() {
                Some(&self.evolution_rows()[species as int])
            } else {
                None
            }),
    {
        if (species as usize) < self.evolutions.len() {
            Some(&self.evolutions[species as usize])
        } else {
            None
        }
    }

    /// The species an egg of `species` hatches as: the nine incense
    /// families hatch as themselves (the caller's held-item check decides
    /// when the baby applies), every other species reads the map.
    pub fn egg_species(&self, species: u16) -> (res: Option<u16>)
        ensures
            res == (if incense_species(species) {
                Some(species)
            } else if (species as int) < self.egg_map().len() {
                Some(self.egg_map()[species as int])
            } else {
                None
            }),
    {
        if species == 113 || species == 122 || species == 143 || species == 183 || species == 185
            || species == 202 || species == 226 || species == 315 || species == 358 {
            return Some(species);
        }
        if (species as usize) < self.egg_species.len() {
            Some(self.egg_species[species as usize])
        } else {
            None
        }
    }

    /// Rows in the species-indexed tables.
    pub fn species_count(&self) -> (res: usize)
        ensures
            res == self.personal_rows().len(),
    {
        self.personal.len()
    }

    /// Rows in the move table.
    pub fn move_count(&self) -> (res: usize)
        ensures
            res == self.move_rows().len(),
    {
        self.moves.len()
    }

    /// Rows in the item table.
    pub fn item_count(&self) -> (res: usize)
        ensures
            res == self.item_rows().len(),
    {
        self.items.len()
    }
}

} // verus!

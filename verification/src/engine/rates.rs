//! The rate tables in force: for each region at most one table of each kind,
//! the one loaded last.

use vstd::prelude::*;
use crate::fixed::SCALE;
use crate::text::{lemma_place_after_push, lemma_place_of, place_of, same_text};
use crate::types::demographic::{DEFAULT_SEX_RATIO, FertilityRate, FertilityTable, Gender,
    MigrationRate, MigrationTable, MortalityRate, MortalityTable};

verus! {

/// What a fertility table says of its region.
pub struct Births {
    pub rates: Seq<FertilityRate>,
    pub sex_ratio_at_birth: u64,
}

impl FertilityTable {
    /// What the table says of its region.
    pub open spec fn births(self) -> Births {
        Births { rates: self.rates@, sex_ratio_at_birth: self.sex_ratio_at_birth }
    }
}

/// The tables in force: for each kind, what the table of each region says.
/// A region has at most one table of a kind, the one put in force last.
pub struct Tables {
    pub mortality: Map<Seq<char>, Seq<MortalityRate>>,
    pub fertility: Map<Seq<char>, Births>,
    pub migration: Map<Seq<char>, Seq<MigrationRate>>,
}

impl Tables {
    /// No table for any region.
    pub open spec fn none() -> Tables {
        Tables { mortality: Map::empty(), fertility: Map::empty(), migration: Map::empty() }
    }

    /// The tables with `table` in force for its region.
    pub open spec fn with_mortality(self, table: MortalityTable) -> Tables {
        Tables { mortality: self.mortality.insert(table.region_id@, table.rates@), ..self }
    }

    /// The tables with `table` in force for its region.
    pub open spec fn with_fertility(self, table: FertilityTable) -> Tables {
        Tables { fertility: self.fertility.insert(table.region_id@, table.births()), ..self }
    }

    /// The tables with `table` in force for its region.
    pub open spec fn with_migration(self, table: MigrationTable) -> Tables {
        Tables { migration: self.migration.insert(table.region_id@, table.rates@), ..self }
    }

    /// The tables with each of `tables` put in force, one after the other.
    pub open spec fn with_mortality_tables(self, tables: Seq<MortalityTable>) -> Tables
        decreases tables.len(),
    {
        if tables.len() == 0 {
            self
        } else {
            self.with_mortality_tables(tables.drop_last()).with_mortality(tables.last())
        }
    }

    /// The tables with each of `tables` put in force, one after the other.
    pub open spec fn with_fertility_tables(self, tables: Seq<FertilityTable>) -> Tables
        decreases tables.len(),
    {
        if tables.len() == 0 {
            self
        } else {
            self.with_fertility_tables(tables.drop_last()).with_fertility(tables.last())
        }
    }

    /// The death rate that the tables give: 1.0, the whole cohort, where the
    /// region has no table or its table no row for the age.
    pub open spec fn base_mortality(self, region: Seq<char>, age: u32, gender: Gender) -> u64 {
        if self.mortality.dom().contains(region) {
            MortalityTable::rate_from(self.mortality[region], age, gender, 0)
        } else {
            SCALE
        }
    }

    /// The birth rate that the tables give: zero where the region has no table
    /// or its table no row for the age.
    pub open spec fn base_fertility(self, region: Seq<char>, age: u32) -> u64 {
        if self.fertility.dom().contains(region) {
            FertilityTable::rate_from(self.fertility[region].rates, age, 0)
        } else {
            0
        }
    }

    /// The region's sex ratio at birth: 105 boys to 100 girls where it has no
    /// fertility table.
    pub open spec fn sex_ratio(self, region: Seq<char>) -> u64 {
        if self.fertility.dom().contains(region) {
            self.fertility[region].sex_ratio_at_birth
        } else {
            DEFAULT_SEX_RATIO
        }
    }

    /// The net migration that the tables give: zero where the region has no
    /// table or its table no row for the age.
    pub open spec fn base_migration(self, region: Seq<char>, age: u32, gender: Gender) -> i64 {
        if self.migration.dom().contains(region) {
            MigrationTable::rate_from(self.migration[region], age, gender, 0)
        } else {
            0
        }
    }
}

/// The tables of one region.
struct RegionTables {
    id: String,
    mortality: Option<MortalityTable>,
    fertility: Option<FertilityTable>,
    migration: Option<MigrationTable>,
}

/// The rate tables in force.
pub struct RateRegistry {
    slots: Vec<RegionTables>,
}

impl RateRegistry {
    spec fn ids(&self) -> Seq<Seq<char>> {
        Seq::new(self.slots@.len(), |i: int| self.slots@[i].id@)
    }

    /// The mortality table in force for `region`, if one was loaded.
    spec fn mortality_table(&self, region: Seq<char>) -> Option<MortalityTable> {
        let place = place_of(self.ids(), region);
        if place < self.slots@.len() {
            self.slots@[place].mortality
        } else {
            None
        }
    }

    /// The fertility table in force for `region`, if one was loaded.
    spec fn fertility_table(&self, region: Seq<char>) -> Option<FertilityTable> {
        let place = place_of(self.ids(), region);
        if place < self.slots@.len() {
            self.slots@[place].fertility
        } else {
            None
        }
    }

    /// The migration table in force for `region`, if one was loaded.
    spec fn migration_table(&self, region: Seq<char>) -> Option<MigrationTable> {
        let place = place_of(self.ids(), region);
        if place < self.slots@.len() {
            self.slots@[place].migration
        } else {
            None
        }
    }

    /// The tables in force.
    pub closed spec fn view(&self) -> Tables {
        Tables {
            mortality: Map::new(
                |region: Seq<char>| self.mortality_table(region) is Some,
                |region: Seq<char>| self.mortality_table(region)->0.rates@,
            ),
            fertility: Map::new(
                |region: Seq<char>| self.fertility_table(region) is Some,
                |region: Seq<char>| self.fertility_table(region)->0.births(),
            ),
            migration: Map::new(
                |region: Seq<char>| self.migration_table(region) is Some,
                |region: Seq<char>| self.migration_table(region)->0.rates@,
            ),
        }
    }

    /// A registry without tables.
    pub fn new() -> (registry: Self)
        ensures
            registry@ == Tables::none(),
    {
        let registry = RateRegistry { slots: Vec::new() };
        proof {
            assert forall|region: Seq<char>| place_of(registry.ids(), region) == 0 by {
                lemma_place_of(registry.ids(), region);
            }
            assert(registry@.mortality =~= Map::<Seq<char>, Seq<MortalityRate>>::empty());
            assert(registry@.fertility =~= Map::<Seq<char>, Births>::empty());
            assert(registry@.migration =~= Map::<Seq<char>, Seq<MigrationRate>>::empty());
        }
        registry
    }

    /// The place of the region's slot; the number of slots where it has none.
    fn slot_of(&self, region_id: &str) -> (place: usize)
        ensures
            place == place_of(self.ids(), region_id@),
            place <= self.slots@.len(),
    {
        let n: usize = self.slots.len();
        let mut i: usize = 0;
        proof {
            lemma_place_of(self.ids(), region_id@);
        }
        while i < n
            invariant
                n == self.slots@.len(),
                i <= n,
                place_of(self.ids(), region_id@) == crate::text::place_from(
                    self.ids(),
                    region_id@,
                    i as int,
                ),
            decreases n - i,
        {
            if same_text(self.slots[i].id.as_str(), region_id) {
                assert(self.ids()[i as int] == region_id@);
                return i;
            }
            assert(self.ids()[i as int] != region_id@);
            i += 1;
        }
        n
    }

    /// The place of the region's slot, which is made where the region has none.
    fn slot_for(&mut self, region_id: &String) -> (place: usize)
        ensures
            place == place_of(final(self).ids(), region_id@),
            place < final(self).slots@.len(),
            forall|region: Seq<char>| #[trigger]
                final(self).mortality_table(region) == old(self).mortality_table(region),
            forall|region: Seq<char>| #[trigger]
                final(self).fertility_table(region) == old(self).fertility_table(region),
            forall|region: Seq<char>| #[trigger]
                final(self).migration_table(region) == old(self).migration_table(region),
    {
        let place: usize = self.slot_of(region_id.as_str());
        if place < self.slots.len() {
            return place;
        }
        self.slots.push(
            RegionTables { id: region_id.clone(), mortality: None, fertility: None, migration: None },
        );
        proof {
            assert(self.ids() =~= old(self).ids().push(region_id@));
            lemma_place_after_push(old(self).ids(), region_id@, region_id@);
            assert forall|region: Seq<char>| #[trigger]
                self.mortality_table(region) == old(self).mortality_table(region) by {
                lemma_place_after_push(old(self).ids(), region_id@, region);
                lemma_place_of(old(self).ids(), region);
            }
            assert forall|region: Seq<char>| #[trigger]
                self.fertility_table(region) == old(self).fertility_table(region) by {
                lemma_place_after_push(old(self).ids(), region_id@, region);
                lemma_place_of(old(self).ids(), region);
            }
            assert forall|region: Seq<char>| #[trigger]
                self.migration_table(region) == old(self).migration_table(region) by {
                lemma_place_after_push(old(self).ids(), region_id@, region);
                lemma_place_of(old(self).ids(), region);
            }
        }
        place
    }

    /// Puts `table` in force for its region, in place of the mortality table
    /// that held there before.
    pub fn load_mortality_table(&mut self, table: MortalityTable)
        ensures
            final(self)@ == old(self)@.with_mortality(table),
    {
        let place: usize = self.slot_for(&table.region_id);
        let ghost before = *self;
        self.slots[place].mortality = Some(table);
        proof {
            assert(self.ids() =~= before.ids());
            lemma_place_of(before.ids(), table.region_id@);
            assert forall|region: Seq<char>| #[trigger]
                self.mortality_table(region) == (if region == table.region_id@ {
                    Some(table)
                } else {
                    before.mortality_table(region)
                }) by {
                lemma_place_of(before.ids(), region);
            }
            assert forall|region: Seq<char>| #[trigger]
                self.fertility_table(region) == before.fertility_table(region) by {
                lemma_place_of(before.ids(), region);
            }
            assert forall|region: Seq<char>| #[trigger]
                self.migration_table(region) == before.migration_table(region) by {
                lemma_place_of(before.ids(), region);
            }
            assert(self@.mortality =~= old(self)@.mortality.insert(table.region_id@, table.rates@));
            assert(self@.fertility =~= old(self)@.fertility);
            assert(self@.migration =~= old(self)@.migration);
        }
    }

    /// Puts `table` in force for its region, in place of the fertility table
    /// that held there before.
    pub fn load_fertility_table(&mut self, table: FertilityTable)
        ensures
            final(self)@ == old(self)@.with_fertility(table),
    {
        let place: usize = self.slot_for(&table.region_id);
        let ghost before = *self;
        self.slots[place].fertility = Some(table);
        proof {
            assert(self.ids() =~= before.ids());
            lemma_place_of(before.ids(), table.region_id@);
            assert forall|region: Seq<char>| #[trigger]
                self.fertility_table(region) == (if region == table.region_id@ {
                    Some(table)
                } else {
                    before.fertility_table(region)
                }) by {
                lemma_place_of(before.ids(), region);
            }
            assert forall|region: Seq<char>| #[trigger]
                self.mortality_table(region) == before.mortality_table(region) by {
                lemma_place_of(before.ids(), region);
            }
            assert forall|region: Seq<char>| #[trigger]
                self.migration_table(region) == before.migration_table(region) by {
                lemma_place_of(before.ids(), region);
            }
            assert(self@.fertility =~= old(self)@.fertility.insert(table.region_id@, table.births()));
            assert(self@.mortality =~= old(self)@.mortality);
            assert(self@.migration =~= old(self)@.migration);
        }
    }

    /// Puts `table` in force for its region, in place of the migration table
    /// that held there before.
    pub fn load_migration_table(&mut self, table: MigrationTable)
        ensures
            final(self)@ == old(self)@.with_migration(table),
    {
        let place: usize = self.slot_for(&table.region_id);
        let ghost before = *self;
        self.slots[place].migration = Some(table);
        proof {
            assert(self.ids() =~= before.ids());
            lemma_place_of(before.ids(), table.region_id@);
            assert forall|region: Seq<char>| #[trigger]
                self.migration_table(region) == (if region == table.region_id@ {
                    Some(table)
                } else {
                    before.migration_table(region)
                }) by {
                lemma_place_of(before.ids(), region);
            }
            assert forall|region: Seq<char>| #[trigger]
                self.mortality_table(region) == before.mortality_table(region) by {
                lemma_place_of(before.ids(), region);
            }
            assert forall|region: Seq<char>| #[trigger]
                self.fertility_table(region) == before.fertility_table(region) by {
                lemma_place_of(before.ids(), region);
            }
            assert(self@.migration =~= old(self)@.migration.insert(table.region_id@, table.rates@));
            assert(self@.mortality =~= old(self)@.mortality);
            assert(self@.fertility =~= old(self)@.fertility);
        }
    }

    /// Puts each of `tables` in force, one after the other.
    pub fn load_mortality_tables(&mut self, tables: Vec<MortalityTable>)
        ensures
            final(self)@ == old(self)@.with_mortality_tables(tables@),
    {
        let ghost all = tables@;
        proof {
            assert(all.take(0) =~= Seq::<MortalityTable>::empty());
        }
        for table in it: tables
            invariant
                it.seq() == all,
                self@ == old(self)@.with_mortality_tables(all.take(it.index() as int)),
        {
            proof {
                assert(all.take(it.index() + 1).drop_last() =~= all.take(it.index() as int));
                assert(all.take(it.index() + 1).last() == table);
            }
            self.load_mortality_table(table);
        }
        proof {
            assert(all.take(all.len() as int) =~= all);
        }
    }

    /// Puts each of `tables` in force, one after the other.
    pub fn load_fertility_tables(&mut self, tables: Vec<FertilityTable>)
        ensures
            final(self)@ == old(self)@.with_fertility_tables(tables@),
    {
        let ghost all = tables@;
        proof {
            assert(all.take(0) =~= Seq::<FertilityTable>::empty());
        }
        for table in it: tables
            invariant
                it.seq() == all,
                self@ == old(self)@.with_fertility_tables(all.take(it.index() as int)),
        {
            proof {
                assert(all.take(it.index() + 1).drop_last() =~= all.take(it.index() as int));
                assert(all.take(it.index() + 1).last() == table);
            }
            self.load_fertility_table(table);
        }
        proof {
            assert(all.take(all.len() as int) =~= all);
        }
    }

    /// The mortality table in force for the region.
    pub fn mortality_of(&self, region_id: &str) -> (table: Option<&MortalityTable>)
        ensures
            match table {
                Some(found) => self@.mortality.dom().contains(region_id@)
                    && self@.mortality[region_id@] == found.rates@,
                None => !self@.mortality.dom().contains(region_id@),
            },
    {
        let place: usize = self.slot_of(region_id);
        if place < self.slots.len() {
            self.slots[place].mortality.as_ref()
        } else {
            None
        }
    }

    /// The fertility table in force for the region.
    pub fn fertility_of(&self, region_id: &str) -> (table: Option<&FertilityTable>)
        ensures
            match table {
                Some(found) => self@.fertility.dom().contains(region_id@)
                    && self@.fertility[region_id@] == found.births(),
                None => !self@.fertility.dom().contains(region_id@),
            },
    {
        let place: usize = self.slot_of(region_id);
        if place < self.slots.len() {
            self.slots[place].fertility.as_ref()
        } else {
            None
        }
    }

    /// The migration table in force for the region.
    pub fn migration_of(&self, region_id: &str) -> (table: Option<&MigrationTable>)
        ensures
            match table {
                Some(found) => self@.migration.dom().contains(region_id@)
                    && self@.migration[region_id@] == found.rates@,
                None => !self@.migration.dom().contains(region_id@),
            },
    {
        let place: usize = self.slot_of(region_id);
        if place < self.slots.len() {
            self.slots[place].migration.as_ref()
        } else {
            None
        }
    }

    /// The death rate of a cohort before shocks.
    pub fn mortality_rate(&self, age: u32, gender: Gender, region_id: &str) -> (rate: u64)
        ensures
            rate == self@.base_mortality(region_id@, age, gender),
    {
        match self.mortality_of(region_id) {
            Some(table) => table.get_rate(age, gender),
            None => SCALE,
        }
    }

    /// The birth rate of the women of an age before shocks.
    pub fn fertility_rate(&self, age: u32, region_id: &str) -> (rate: u64)
        ensures
            rate == self@.base_fertility(region_id@, age),
    {
        match self.fertility_of(region_id) {
            Some(table) => table.get_rate(age),
            None => 0,
        }
    }

    /// The boys born to 100 girls in the region.
    pub fn sex_ratio_at_birth(&self, region_id: &str) -> (ratio: u64)
        ensures
            ratio == self@.sex_ratio(region_id@),
    {
        match self.fertility_of(region_id) {
            Some(table) => table.sex_ratio_at_birth,
            None => DEFAULT_SEX_RATIO,
        }
    }

    /// The net migration of a cohort.
    pub fn migration_rate(&self, age: u32, gender: Gender, region_id: &str) -> (net: i64)
        ensures
            net == self@.base_migration(region_id@, age, gender),
    {
        match self.migration_of(region_id) {
            Some(table) => table.get_rate(age, gender),
            None => 0,
        }
    }
}

} // verus!

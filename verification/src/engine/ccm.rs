//! The cohort-component model: a population, the rate tables and the shocks in
//! force, and the projection of the population through one year.
//!
//! A year takes each projected region through four stages: babies are born
//! to the women of child-bearing age as the year finds them; every cohort
//! gains or loses its migrants; it loses its dead; what is left of it is a
//! year older, and the newborn are the cohort of age 0. A region without a
//! table is projected by the defaults of the tables: all die, none is born,
//! none migrates. A region that is not projected stays as it is.

use vstd::prelude::*;
use crate::engine::cohorts::YearRates;
use crate::engine::model::{Block, next_count};
use crate::engine::rates::{RateRegistry, Tables};
use crate::engine::shocks::ShockRegistry;
use crate::engine::state::{lemma_installed, block_of, installed, is_census, lemma_after_upto, lemma_block_after,
    lemma_sums_upto, lemma_totals_nonnegative, lemma_with_regions, listed_count, listed_total,
    Setting, state_count, state_total, state_wf, with_regions};
use crate::engine::store::CohortStore;
use crate::fixed::growth_rate;
use crate::sums::{lemma_prefix_sum_full, lemma_prefix_sum_step, lemma_sum_nonnegative,
    prefix_sum, sum};
use crate::text::{same_text, texts};
use crate::types::demographic::{Cohort, FertilityTable, Gender, MAX_AGE, MigrationTable,
    MortalityTable, ProjectionYear};
use crate::types::shock::Shock;

verus! {

/// Whether the list names the region.
pub fn names_contain(regions: &[String], region_id: &str) -> (named: bool)
    ensures
        named == texts(regions@).contains(region_id@),
{
    let n: usize = regions.len();
    let mut i: usize = 0;
    while i < n
        invariant
            n == regions@.len(),
            i <= n,
            forall|k: int| 0 <= k < i ==> texts(regions@)[k] != region_id@,
        decreases n - i,
    {
        if same_text(regions[i].as_str(), region_id) {
            assert(texts(regions@)[i as int] == region_id@);
            return true;
        }
        i += 1;
    }
    false
}

/// The year `year` for the regions of the list, under `tables` and `shocks`.
pub open spec fn setting_of(
    tables: Tables,
    shocks: Seq<Shock>,
    year: u32,
    regions: Seq<String>,
) -> Setting {
    Setting { tables, shocks, year, regions: texts(regions) }
}

/// Projects the population of `store` through `year`, for the regions of the
/// list, under the tables of `registry` and under `shocks`, where the year
/// fits; where it does not, no head is moved and there is no record.
pub fn project_store(
    store: &mut CohortStore,
    registry: &RateRegistry,
    shocks: &Vec<Shock>,
    year: u32,
    regions: &[String],
) -> (out: Option<ProjectionYear>)
    ensures
        final(store).wf(),
        out is Some <==> setting_of(registry@, shocks@, year, regions@).fits(old(store)@),
        out is Some ==> final(store)@ == setting_of(registry@, shocks@, year, regions@).state_after(
            old(store)@,
        ) && out->0 == setting_of(registry@, shocks@, year, regions@).record(old(store)@),
        out is None ==> final(store)@ == setting_of(registry@, shocks@, year, regions@).ground(
            old(store)@,
        ),
{
    let ghost w = setting_of(registry@, shocks@, year, regions@);
    let ghost s = store@;
    let ghost t = w.ground(s);
    proof {
        use_type_invariant(&*store);
        reveal(Setting::fits);
        reveal(Setting::state_after);
        reveal(Setting::record);
    }
    let before: u64 = store.total();
    // Every projected region gets its block.
    let m: usize = regions.len();
    let mut k: usize = 0;
    proof {
        assert(texts(regions@).take(0) =~= Seq::<Seq<char>>::empty());
    }
    while k < m
        invariant
            m == regions@.len(),
            k <= m,
            store.wf(),
            store@ == with_regions(s, texts(regions@).take(k as int)),
        decreases m - k,
    {
        proof {
            let names = texts(regions@);
            assert(names.take(k + 1).drop_last() =~= names.take(k as int));
            assert(names.take(k + 1).last() == regions@[k as int]@);
        }
        store.ensure_region(&regions[k]);
        k += 1;
    }
    proof {
        assert(texts(regions@).take(m as int) =~= texts(regions@));
        lemma_with_regions(s, w.regions);
        lemma_totals_nonnegative(t);
    }
    assert(store@ == t);
    // What the year holds for each block, and whether the year fits.
    let n: usize = store.len();
    let mut plans: Vec<Option<YearRates>> = Vec::new();
    let mut room: u128 = (u64::MAX - before) as u128;
    let mut i: usize = 0;
    let ghost growth = w.growth_by_block(t);
    proof {
        lemma_sums_upto(w, t, 0);
        lemma_prefix_sum_full(growth);
    }
    while i < n
        invariant
            n == t.len(),
            i <= n,
            state_wf(t),
            state_total(t) == before,
            store@ == t,
            store.wf(),
            w == setting_of(registry@, shocks@, year, regions@),
            growth == w.growth_by_block(t),
            t == w.ground(s),
            s == old(store)@,
            state_total(s) == before,
            plans@.len() == i,
            forall|j: int|
                0 <= j < i ==> match #[trigger] plans@[j] {
                    Some(rates) => w.lists(t[j].id) && rates.wf() && rates@ == w.rates(
                        t[j].id,
                    ),
                    None => !w.lists(t[j].id),
                },
            room + prefix_sum(growth, i as int) == u64::MAX - before,
            0 <= prefix_sum(growth, i as int) <= sum(growth),
        decreases n - i,
    {
        let region = store.region(i);
        proof {
            assert(t[i as int].wf());
            lemma_block_after(w, t[i as int]);
            lemma_prefix_sum_step(growth, i as int);
            lemma_sums_upto(w, t, i + 1);
            lemma_totals_nonnegative(t);
            assert(growth[i as int] == w.block_growth(t[i as int]));
        }
        if names_contain(regions, region.id().as_str()) {
            let rates = YearRates::resolve(registry, shocks, year, region.id().as_str());
            let born: u64 = region.births(&rates);
            let arriving: u128 = rates.inflow();
            let needed: u128 = (born as u128) + arriving;
            if needed > room {
                proof {
                    reveal(Setting::fits);
                    assert(prefix_sum(growth, i + 1) > u64::MAX - before);
                    assert(w.growth(s) == sum(growth));
                    assert(!w.fits(s));
                }
                return None;
            }
            room = room - needed;
            plans.push(Some(rates));
        } else {
            plans.push(None);
        }
        i += 1;
    }
    proof {
        reveal(Setting::fits);
        assert(w.fits(s));
    }
    // The year itself, block by block.
    let mut births: u128 = 0;
    let mut deaths: u128 = 0;
    let mut net_migration: i128 = 0;
    let mut i: usize = 0;
    proof {
        lemma_after_upto(w, t, 0);
        lemma_sums_upto(w, t, 0);
    }
    while i < n
        invariant
            n == t.len(),
            i <= n,
            state_wf(t),
            state_total(t) == before,
            state_total(t) + sum(w.growth_by_block(t)) <= u64::MAX,
            store@ == w.after_upto(t, i as int),
            store.wf(),
            w == setting_of(registry@, shocks@, year, regions@),
            plans@.len() == n,
            forall|j: int|
                0 <= j < n ==> match #[trigger] plans@[j] {
                    Some(rates) => w.lists(t[j].id) && rates.wf() && rates@ == w.rates(
                        t[j].id,
                    ),
                    None => !w.lists(t[j].id),
                },
            births == prefix_sum(w.births_by_block(t), i as int),
            deaths == prefix_sum(w.deaths_by_block(t), i as int),
            net_migration == prefix_sum(w.migration_by_block(t), i as int),
            births <= u64::MAX,
            deaths <= u64::MAX,
            -(u64::MAX as int) <= net_migration <= u64::MAX,
        decreases n - i,
    {
        proof {
            assert(t[i as int].wf());
            lemma_block_after(w, t[i as int]);
            lemma_after_upto(w, t, i as int);
            lemma_after_upto(w, t, i + 1);
            lemma_sums_upto(w, t, i as int);
            lemma_sums_upto(w, t, i + 1);
            lemma_totals_nonnegative(t);
            lemma_prefix_sum_step(w.births_by_block(t), i as int);
            lemma_prefix_sum_step(w.deaths_by_block(t), i as int);
            lemma_prefix_sum_step(w.migration_by_block(t), i as int);
            lemma_prefix_sum_step(w.growth_by_block(t), i as int);
            lemma_prefix_sum_step(w.change_by_block(t), i as int);
            assert(w.births_by_block(t)[i as int] == w.block_births(t[i as int]));
            assert(w.deaths_by_block(t)[i as int] == w.block_deaths(t[i as int]));
            assert(w.migration_by_block(t)[i as int] == w.block_migration(t[i as int]));
            assert(w.growth_by_block(t)[i as int] == w.block_growth(t[i as int]));
            assert(w.change_by_block(t)[i as int] == w.block_change(t[i as int]));
            let growth = w.growth_by_block(t);
            assert forall|j: int| 0 <= j < growth.len() implies 0 <= #[trigger] growth[j] by {
                assert(t[j].wf());
                lemma_block_after(w, t[j]);
            }
            lemma_sum_nonnegative(growth);
            assert(growth[i as int] <= sum(growth));
        }
        match &plans[i] {
            Some(rates) => {
                let region = store.region(i);
                let stepped = region.advance(rates);
                let tally = stepped.1;
                store.replace(i, stepped.0);
                births = births + (tally.births as u128);
                deaths = deaths + (tally.deaths as u128);
                net_migration = net_migration + tally.net_migration;
            },
            None => {
                proof {
                    assert(w.after_upto(t, i + 1) =~= w.after_upto(t, i as int));
                }
            },
        }
        i += 1;
    }
    proof {
        reveal(Setting::state_after);
        reveal(Setting::record);
        assert(w.after_upto(t, n as int) =~= w.state_after(s));
        lemma_prefix_sum_full(w.births_by_block(t));
        lemma_prefix_sum_full(w.deaths_by_block(t));
        lemma_prefix_sum_full(w.migration_by_block(t));
    }
    let after: u64 = store.total();
    Some(
        ProjectionYear {
            year,
            total_population: after,
            births: births as u64,
            deaths: deaths as u64,
            net_migration,
            natural_change: (births as i128) - (deaths as i128),
            growth_rate: growth_rate(before, after),
        },
    )
}

/// A population with the rate tables and the shocks that govern it.
pub struct CohortComponentModel {
    store: CohortStore,
    registry: RateRegistry,
    shocks: ShockRegistry,
}

impl CohortComponentModel {
    /// The population: the blocks of its regions.
    pub closed spec fn view(&self) -> Seq<Block> {
        self.store@
    }

    /// The rate tables in force.
    pub closed spec fn tables(&self) -> Tables {
        self.registry@
    }

    /// The shocks in force, in the order of their registration.
    pub closed spec fn shocks(&self) -> Seq<Shock> {
        self.shocks@
    }

    /// The population is well formed, and all heads together are within the
    /// largest representable number.
    pub open spec fn wf(&self) -> bool {
        &&& state_wf(self@)
        &&& state_total(self@) <= u64::MAX
    }

    /// The head count of one age, gender and region.
    pub open spec fn count(&self, age: u32, gender: Gender, region: Seq<char>) -> int {
        state_count(self@, region, age as int, gender)
    }

    /// The year `year` for the regions of the list, under the tables and the
    /// shocks in force.
    pub open spec fn setting(&self, year: u32, regions: Seq<String>) -> Setting {
        setting_of(self.tables(), self.shocks(), year, regions)
    }

    /// A model without population, tables or shocks.
    pub fn new() -> (model: Self)
        ensures
            model.wf(),
            model@ == Seq::<Block>::empty(),
            state_total(model@) == 0,
            model.shocks() == Seq::<Shock>::empty(),
            model.tables() == Tables::none(),
    {
        CohortComponentModel {
            store: CohortStore::new(),
            registry: RateRegistry::new(),
            shocks: ShockRegistry::new(),
        }
    }

    /// Discards the population and installs the one that `cohorts` describes.
    /// The heads of cohorts of the same age, gender and region are added up; a
    /// cohort older than the oldest age is outside the model and is left out.
    /// All heads together must be within the largest representable number:
    /// `population_fits` tells.
    pub fn load_population(&mut self, cohorts: &[Cohort])
        requires
            listed_total(cohorts@) <= u64::MAX,
        ensures
            final(self).wf(),
            final(self)@ == installed(cohorts@),
            state_total(final(self)@) == listed_total(cohorts@),
            forall|region: Seq<char>, age: u32, gender: Gender| #[trigger]
                state_count(final(self)@, region, age as int, gender) == listed_count(
                    cohorts@,
                    region,
                    age as int,
                    gender,
                ),
            final(self).tables() == old(self).tables(),
            final(self).shocks() == old(self).shocks(),
    {
        proof {
            lemma_installed(cohorts@);
        }
        self.store.load(cohorts);
    }

    /// Puts `table` in force for its region, in place of the mortality table
    /// that held there before.
    pub fn load_mortality_table(&mut self, table: MortalityTable)
        ensures
            final(self)@ == old(self)@,
            final(self).shocks() == old(self).shocks(),
            final(self).tables() == old(self).tables().with_mortality(table),
    {
        self.registry.load_mortality_table(table);
    }

    /// Puts `table` in force for its region, in place of the fertility table
    /// that held there before.
    pub fn load_fertility_table(&mut self, table: FertilityTable)
        ensures
            final(self)@ == old(self)@,
            final(self).shocks() == old(self).shocks(),
            final(self).tables() == old(self).tables().with_fertility(table),
    {
        self.registry.load_fertility_table(table);
    }

    /// Puts `table` in force for its region, in place of the migration table
    /// that held there before.
    pub fn load_migration_table(&mut self, table: MigrationTable)
        ensures
            final(self)@ == old(self)@,
            final(self).shocks() == old(self).shocks(),
            final(self).tables() == old(self).tables().with_migration(table),
    {
        self.registry.load_migration_table(table);
    }

    /// Registers `shock` after those already in force.
    pub fn add_shock(&mut self, shock: Shock)
        ensures
            final(self)@ == old(self)@,
            final(self).tables() == old(self).tables(),
            final(self).shocks() == old(self).shocks().push(shock),
    {
        self.shocks.add_shock(shock);
    }

    /// Lifts every shock.
    pub fn clear_shocks(&mut self)
        ensures
            final(self)@ == old(self)@,
            final(self).tables() == old(self).tables(),
            final(self).shocks() == Seq::<Shock>::empty(),
    {
        self.shocks.clear_shocks();
    }

    /// Attests what holds of every model: it is well formed.
    pub fn attest(&self)
        ensures
            self.wf(),
    {
        proof {
            use_type_invariant(&self.store);
        }
    }

    /// The head count of one age, gender and region; zero for a cohort that
    /// the population does not hold.
    pub fn get_count(&self, age: u32, gender: Gender, region_id: &str) -> (count: u64)
        ensures
            count == self.count(age, gender, region_id@),
            self.wf(),
    {
        proof {
            use_type_invariant(&self.store);
        }
        self.store.get(age, gender, region_id)
    }

    /// All heads of the population.
    pub fn total_population(&self) -> (total: u64)
        ensures
            total == state_total(self@),
            self.wf(),
    {
        self.store.total()
    }

    /// The cohorts that count somebody, each once.
    pub fn get_cohorts(&self) -> (cohorts: Vec<Cohort>)
        ensures
            is_census(cohorts@),
            listed_total(cohorts@) == state_total(self@),
            forall|q: Seq<char>, a: int, g: Gender| #[trigger]
                listed_count(cohorts@, q, a, g) == state_count(self@, q, a, g),
    {
        self.store.export()
    }

    /// Projects the population through `year`, for the regions of the list,
    /// where the year fits; where it does not, no head is moved and there is
    /// no record.
    pub fn try_project_one_year(&mut self, year: u32, regions: &[String]) -> (out: Option<
        ProjectionYear,
    >)
        ensures
            final(self).wf(),
            final(self).tables() == old(self).tables(),
            final(self).shocks() == old(self).shocks(),
            out is Some <==> old(self).setting(year, regions@).fits(old(self)@),
            out is Some ==> final(self)@ == old(self).setting(year, regions@).state_after(
                old(self)@,
            ) && out->0 == old(self).setting(year, regions@).record(old(self)@),
            out is None ==> final(self)@ == old(self).setting(year, regions@).ground(old(self)@),
    {
        project_store(&mut self.store, &self.registry, &self.shocks.shocks, year, regions)
    }

    /// Projects the population through `year`, for the regions of the list.
    /// The population with the births of the year and with all the arrivals
    /// that the tables name must be within the largest representable number;
    /// `try_project_one_year` is for callers who cannot know that.
    pub fn project_one_year(&mut self, year: u32, regions: &[String]) -> (out: ProjectionYear)
        requires
            old(self).setting(year, regions@).fits(old(self)@),
        ensures
            final(self).wf(),
            final(self).tables() == old(self).tables(),
            final(self).shocks() == old(self).shocks(),
            final(self)@ == old(self).setting(year, regions@).state_after(old(self)@),
            out == old(self).setting(year, regions@).record(old(self)@),
            state_total(final(self)@) == state_total(old(self)@) + out.births - out.deaths
                + out.net_migration,
            forall|region: Seq<char>, age: u32, gender: Gender|
                age <= MAX_AGE ==> #[trigger] final(self).count(age, gender, region) == (if texts(
                    regions@,
                ).contains(region) {
                    next_count(
                        block_of(old(self)@, region),
                        old(self).setting(year, regions@).rates(region),
                        gender,
                        age as int,
                    )
                } else {
                    old(self).count(age, gender, region)
                }),
    {
        proof {
            use_type_invariant(&self.store);
            crate::engine::state::lemma_record_exact(self.setting(year, regions@), self@);
            assert forall|region: Seq<char>, age: u32, gender: Gender| age <= MAX_AGE implies
                state_count(
                    self.setting(year, regions@).state_after(self@),
                    region,
                    age as int,
                    gender,
                ) == (if texts(regions@).contains(region) {
                    next_count(
                        block_of(self@, region),
                        self.setting(year, regions@).rates(region),
                        gender,
                        age as int,
                    )
                } else {
                    state_count(self@, region, age as int, gender)
                }) by {
                crate::engine::state::lemma_count_after(
                    self.setting(year, regions@),
                    self@,
                    region,
                    age as int,
                    gender,
                );
            }
        }
        let record = self.try_project_one_year(year, regions);
        record.unwrap()
    }
}

impl Default for CohortComponentModel {
    /// A model without population, tables or shocks.
    fn default() -> (model: Self)
        ensures
            model.wf(),
            model@ == Seq::<Block>::empty(),
            model.shocks() == Seq::<Shock>::empty(),
            model.tables() == Tables::none(),
    {
        CohortComponentModel::new()
    }
}

} // verus!

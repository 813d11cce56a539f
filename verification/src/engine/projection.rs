//! The scenario runner: a population taken through the years of a scenario,
//! one year after the other.

use vstd::prelude::*;
use crate::engine::ccm::{project_store, setting_of};
use crate::engine::keys::{cohort_key, key_of, parse_cohort_key, parsed_key};
use crate::engine::model::Block;
use crate::engine::population::{calculate_metadata, describes, heads};
use crate::engine::rates::{RateRegistry, Tables};
use crate::engine::shocks::ShockRegistry;
use crate::engine::state::{lemma_installed, installed, is_census, lemma_record_exact, listed_count, listed_total,
    Run, Setting, state_count, state_total, state_wf};
use crate::engine::store::{CohortStore, population_fits};
use crate::fixed::{percent_of, percentage};
use crate::host::{clock_elapsed_ms, clock_start, timestamp_now};
use crate::text::texts;
use crate::types::demographic::{Cohort, FertilityTable, Gender, MigrationTable, MortalityTable, Population,
    ProjectionProgress, ProjectionResult, ProjectionYear};
use crate::types::scenario::Scenario;
use crate::types::shock::Shock;

verus! {

/// Why a run gave no result.
#[derive(Debug)]
pub enum RunError {
    /// The scenario does not meet the rules; these are its errors. No year
    /// was projected.
    Rejected(Vec<String>),
    /// The initial population counts more heads than the largest
    /// representable number. No year was projected.
    PopulationTooLarge,
    /// The population outgrew the largest representable number in this year.
    /// The years before it were projected, and the population stands as they
    /// left it.
    YearTooLarge(u32),
    /// The run was called off before this year. The years before it were
    /// projected, and the population stands as they left it.
    Cancelled(u32),
}

/// The answer of a run that is never called off.
pub fn go_on(year: u32) -> (go: bool)
    ensures
        go,
{
    true
}

/// How far a run from `base_year` to `end_year` has come once `year` is
/// projected: the percentage is that of the years after the first.
pub open spec fn progress_percent(base_year: u32, end_year: u32, year: u32) -> int {
    percentage(
        if year >= base_year {
            year - base_year
        } else {
            0
        },
        if end_year >= base_year {
            end_year - base_year
        } else {
            0
        },
    )
}

/// Whether `progress` is the progress record of `scenario` once `year` is
/// projected.
pub open spec fn is_progress_of(scenario: Scenario, year: u32, progress: ProjectionProgress) -> bool {
    &&& progress.scenario_id@ == scenario.id@
    &&& progress.current_year == year
    &&& progress.total_years == scenario.spec_projection_years()
    &&& progress.percent_complete == progress_percent(
        scenario.base_year,
        scenario.end_year,
        year,
    )
    &&& progress.estimated_remaining_ms is None
}

/// The progress record of a run once `year` is projected.
pub fn progress_at(scenario: &Scenario, year: u32) -> (progress: ProjectionProgress)
    ensures
        is_progress_of(*scenario, year, progress),
{
    let done: u32 = if year >= scenario.base_year {
        year - scenario.base_year
    } else {
        0
    };
    let total: u32 = scenario.projection_years();
    let percent: u128 = percent_of(done as u64, total as u64);
    proof {
        assert(percent <= 0xffff_ffff * 100_000_000) by (nonlinear_arith)
            requires
                percent == percentage(done as int, total as int),
                0 <= done <= 0xffff_ffff,
                0 <= total,
                percentage(done as int, total as int) == (if total > 0 {
                    (done * 100 * 1_000_000) / (total as int)
                } else {
                    0int
                }),
        ;
    }
    ProjectionProgress {
        scenario_id: scenario.id.clone(),
        current_year: year,
        total_years: total,
        percent_complete: percent as u64,
        estimated_remaining_ms: None,
    }
}

/// A population with the tables and the shocks that govern it, and the runs
/// that take it through the years of a scenario.
pub struct DemographicEngine {
    store: CohortStore,
    registry: RateRegistry,
    shocks: ShockRegistry,
}

impl DemographicEngine {
    /// The population: the blocks of its regions.
    pub closed spec fn view(&self) -> Seq<Block> {
        self.store@
    }

    /// The rate tables in force.
    pub closed spec fn tables(&self) -> Tables {
        self.registry@
    }

    /// The shocks in force, in the order of their registration.
    pub closed spec fn shocks(&self) -> Seq<Shock> {
        self.shocks@
    }

    /// The population is well formed, and all heads together are within the
    /// largest representable number.
    pub open spec fn wf(&self) -> bool {
        &&& state_wf(self@)
        &&& state_total(self@) <= u64::MAX
    }

    /// The year `year` for the regions of the list, under the tables and the
    /// shocks in force.
    pub open spec fn setting(&self, year: u32, regions: Seq<String>) -> Setting {
        setting_of(self.tables(), self.shocks(), year, regions)
    }

    /// An engine without population, tables or shocks.
    pub fn new() -> (engine: Self)
        ensures
            engine.wf(),
            engine@ == Seq::<Block>::empty(),
            engine.shocks() == Seq::<Shock>::empty(),
            engine.tables() == Tables::none(),
    {
        DemographicEngine {
            store: CohortStore::new(),
            registry: RateRegistry::new(),
            shocks: ShockRegistry::new(),
        }
    }

    /// The key of a cohort.
    pub fn cohort_key(age: u32, gender: Gender, region_id: &str) -> (key: String)
        ensures
            key@ == key_of(age, gender, region_id@),
    {
        cohort_key(age, gender, region_id)
    }

    /// The cohort that a key names, if it names one.
    pub fn parse_key(key: &str) -> (parsed: Option<(u32, Gender, String)>)
        ensures
            match parsed {
                Some((age, gender, region)) => parsed_key(key@) == Some((age, gender, region@)),
                None => parsed_key(key@) is None,
            },
    {
        parse_cohort_key(key)
    }

    /// Discards the population and installs the one that `cohorts` describes.
    /// All heads together must be within the largest representable number:
    /// `population_fits` tells.
    pub fn load_population(&mut self, cohorts: &[Cohort])
        requires
            listed_total(cohorts@) <= u64::MAX,
        ensures
            final(self).wf(),
            final(self)@ == installed(cohorts@),
            state_total(final(self)@) == listed_total(cohorts@),
            forall|region: Seq<char>, age: u32, gender: Gender| #[trigger]
                state_count(final(self)@, region, age as int, gender) == listed_count(
                    cohorts@,
                    region,
                    age as int,
                    gender,
                ),
            final(self).tables() == old(self).tables(),
            final(self).shocks() == old(self).shocks(),
    {
        proof {
            lemma_installed(cohorts@);
        }
        self.store.load(cohorts);
    }

    /// Puts `table` in force for its region, in place of the mortality table
    /// that held there before.
    pub fn load_mortality_table(&mut self, table: MortalityTable)
        ensures
            final(self)@ == old(self)@,
            final(self).shocks() == old(self).shocks(),
            final(self).tables() == old(self).tables().with_mortality(table),
    {
        self.registry.load_mortality_table(table);
    }

    /// Puts `table` in force for its region, in place of the fertility table
    /// that held there before.
    pub fn load_fertility_table(&mut self, table: FertilityTable)
        ensures
            final(self)@ == old(self)@,
            final(self).shocks() == old(self).shocks(),
            final(self).tables() == old(self).tables().with_fertility(table),
    {
        self.registry.load_fertility_table(table);
    }

    /// Puts `table` in force for its region, in place of the migration table
    /// that held there before.
    pub fn load_migration_table(&mut self, table: MigrationTable)
        ensures
            final(self)@ == old(self)@,
            final(self).shocks() == old(self).shocks(),
            final(self).tables() == old(self).tables().with_migration(table),
    {
        self.registry.load_migration_table(table);
    }

    /// Registers `shock` after those already in force.
    pub fn add_shock(&mut self, shock: Shock)
        ensures
            final(self)@ == old(self)@,
            final(self).tables() == old(self).tables(),
            final(self).shocks() == old(self).shocks().push(shock),
    {
        self.shocks.add_shock(shock);
    }

    /// Lifts every shock.
    pub fn clear_shocks(&mut self)
        ensures
            final(self)@ == old(self)@,
            final(self).tables() == old(self).tables(),
            final(self).shocks() == Seq::<Shock>::empty(),
    {
        self.shocks.clear_shocks();
    }

    /// Attests what holds of every engine: it is well formed.
    pub fn attest(&self)
        ensures
            self.wf(),
    {
        proof {
            use_type_invariant(&self.store);
        }
    }

    /// The head count of one age, gender and region; zero for a cohort that
    /// the population does not hold.
    pub fn get_cohort_count(&self, age: u32, gender: Gender, region_id: &str) -> (count: u64)
        ensures
            count == state_count(self@, region_id@, age as int, gender),
            self.wf(),
    {
        proof {
            use_type_invariant(&self.store);
        }
        self.store.get(age, gender, region_id)
    }

    /// All heads of the population.
    pub fn total_population(&self) -> (total: u64)
        ensures
            total == state_total(self@),
            self.wf(),
    {
        self.store.total()
    }

    /// Projects the population through `year`, for the regions of the list,
    /// where the year fits; where it does not, no head is moved and there is
    /// no record.
    pub fn try_project_year(&mut self, year: u32, region_ids: &[String]) -> (out: Option<
        ProjectionYear,
    >)
        ensures
            final(self).wf(),
            final(self).tables() == old(self).tables(),
            final(self).shocks() == old(self).shocks(),
            out is Some <==> old(self).setting(year, region_ids@).fits(old(self)@),
            out is Some ==> final(self)@ == old(self).setting(year, region_ids@).state_after(
                old(self)@,
            ) && out->0 == old(self).setting(year, region_ids@).record(old(self)@),
            out is None ==> final(self)@ == old(self).setting(year, region_ids@).ground(
                old(self)@,
            ),
    {
        project_store(&mut self.store, &self.registry, &self.shocks.shocks, year, region_ids)
    }

    /// Projects the population through `year`, for the regions of the list,
    /// under the tables and the shocks in force. The population with the
    /// births of the year and with all the arrivals that the tables name must
    /// be within the largest representable number; `try_project_year` is for
    /// callers who cannot know that.
    pub fn project_year(&mut self, year: u32, region_ids: &[String]) -> (out: ProjectionYear)
        requires
            old(self).setting(year, region_ids@).fits(old(self)@),
        ensures
            final(self).wf(),
            final(self).tables() == old(self).tables(),
            final(self).shocks() == old(self).shocks(),
            final(self)@ == old(self).setting(year, region_ids@).state_after(old(self)@),
            out == old(self).setting(year, region_ids@).record(old(self)@),
            state_total(final(self)@) == state_total(old(self)@) + out.births - out.deaths
                + out.net_migration,
    {
        proof {
            use_type_invariant(&self.store);
            lemma_record_exact(self.setting(year, region_ids@), self@);
        }
        let record = project_store(
            &mut self.store,
            &self.registry,
            &self.shocks.shocks,
            year,
            region_ids,
        );
        record.unwrap()
    }

    /// The run that `scenario` asks for, under the tables in force.
    pub open spec fn run_of(&self, scenario: Scenario) -> Run {
        Run {
            tables: self.tables(),
            shocks: scenario.shocks@,
            regions: texts(scenario.regions@),
            base_year: scenario.base_year,
        }
    }

    /// Runs a scenario: installs the initial population, puts the tables in
    /// force, and projects every year from the first of the scenario to its
    /// last, each on what the year before it left. After each year
    /// `progress_callback` is handed the record of `progress_at`.
    ///
    /// The run is governed by the shocks of the scenario; those registered
    /// with the engine are lifted. A scenario that does not meet the rules is
    /// rejected before anything is touched.
    pub fn run_projection<F: FnMut(ProjectionProgress)>(
        &mut self,
        scenario: &Scenario,
        initial_population: &[Cohort],
        mortality_tables: Vec<MortalityTable>,
        fertility_tables: Vec<FertilityTable>,
        progress_callback: F,
    ) -> (out: Result<ProjectionResult, RunError>)
        requires
            forall|year: u32, progress: ProjectionProgress|
                scenario.base_year <= year <= scenario.end_year && is_progress_of(
                    *scenario,
                    year,
                    progress,
                ) ==> call_requires(progress_callback, (progress,)),
        ensures
            final(self).wf(),
            !(out matches Err(RunError::Cancelled(_))),
            out matches Err(RunError::Rejected(errors)) ==> {
                &&& !scenario.spec_valid()
                &&& texts(errors@) == scenario.spec_errors()
                &&& final(self)@ == old(self)@
                &&& final(self).tables() == old(self).tables()
                &&& final(self).shocks() == old(self).shocks()
            },
            out matches Err(RunError::PopulationTooLarge) ==> {
                &&& scenario.spec_valid()
                &&& listed_total(initial_population@) > u64::MAX
                &&& final(self)@ == old(self)@
                &&& final(self).tables() == old(self).tables()
                &&& final(self).shocks() == old(self).shocks()
            },
            !(out matches Err(RunError::Rejected(_))) && !(out matches Err(
                RunError::PopulationTooLarge,
            )) ==> {
                &&& scenario.spec_valid()
                &&& listed_total(initial_population@) <= u64::MAX
                &&& final(self).shocks() == Seq::<Shock>::empty()
                &&& final(self).tables() == old(self).tables().with_mortality_tables(
                    mortality_tables@,
                ).with_fertility_tables(fertility_tables@)
            },
            out matches Err(RunError::YearTooLarge(year)) ==> {
                &&& scenario.base_year <= year <= scenario.end_year
                &&& final(self).run_of(*scenario).fits(
                    installed(initial_population@),
                    (year - scenario.base_year) as nat,
                )
                &&& !final(self).run_of(*scenario).year(year - scenario.base_year).fits(
                    final(self).run_of(*scenario).state_after(
                        installed(initial_population@),
                        (year - scenario.base_year) as nat,
                    ),
                )
            },
            out matches Ok(result) ==> {
                &&& final(self).run_of(*scenario).fits(
                    installed(initial_population@),
                    (scenario.end_year - scenario.base_year + 1) as nat,
                )
                &&& final(self)@ == final(self).run_of(*scenario).state_after(
                    installed(initial_population@),
                    (scenario.end_year - scenario.base_year + 1) as nat,
                )
                &&& result.years@ == final(self).run_of(*scenario).records(
                    installed(initial_population@),
                    (scenario.end_year - scenario.base_year + 1) as nat,
                )
                &&& result.scenario_id@ == scenario.id@
                &&& result.base_year == scenario.base_year
                &&& result.end_year == scenario.end_year
            },
    {
        self.run_projection_while(
            scenario,
            initial_population,
            mortality_tables,
            fertility_tables,
            progress_callback,
            go_on,
        )
    }

    /// Runs a scenario as `run_projection` does, for as long as `keep_going`
    /// lets it: before each year `keep_going` is asked with the year, and where
    /// it says no, the run ends there. The two callbacks are handed nothing but
    /// the years of the scenario and the progress records of those years.
    pub fn run_projection_while<F: FnMut(ProjectionProgress), G: Fn(u32) -> bool>(
        &mut self,
        scenario: &Scenario,
        initial_population: &[Cohort],
        mortality_tables: Vec<MortalityTable>,
        fertility_tables: Vec<FertilityTable>,
        mut progress_callback: F,
        keep_going: G,
    ) -> (out: Result<ProjectionResult, RunError>)
        requires
            forall|year: u32, progress: ProjectionProgress|
                scenario.base_year <= year <= scenario.end_year && is_progress_of(
                    *scenario,
                    year,
                    progress,
                ) ==> call_requires(progress_callback, (progress,)),
            forall|year: u32|
                scenario.base_year <= year <= scenario.end_year ==> call_requires(
                    keep_going,
                    (year,),
                ),
        ensures
            final(self).wf(),
            out matches Err(RunError::Rejected(errors)) ==> {
                &&& !scenario.spec_valid()
                &&& texts(errors@) == scenario.spec_errors()
                &&& final(self)@ == old(self)@
                &&& final(self).tables() == old(self).tables()
                &&& final(self).shocks() == old(self).shocks()
            },
            out matches Err(RunError::PopulationTooLarge) ==> {
                &&& scenario.spec_valid()
                &&& listed_total(initial_population@) > u64::MAX
                &&& final(self)@ == old(self)@
                &&& final(self).tables() == old(self).tables()
                &&& final(self).shocks() == old(self).shocks()
            },
            !(out matches Err(RunError::Rejected(_))) && !(out matches Err(
                RunError::PopulationTooLarge,
            )) ==> {
                &&& scenario.spec_valid()
                &&& listed_total(initial_population@) <= u64::MAX
                &&& final(self).shocks() == Seq::<Shock>::empty()
                &&& final(self).tables() == old(self).tables().with_mortality_tables(
                    mortality_tables@,
                ).with_fertility_tables(fertility_tables@)
            },
            out matches Err(RunError::Cancelled(year)) ==> {
                &&& scenario.base_year <= year <= scenario.end_year
                &&& call_ensures(keep_going, (year,), false)
                &&& final(self).run_of(*scenario).fits(
                    installed(initial_population@),
                    (year - scenario.base_year) as nat,
                )
                &&& final(self)@ == final(self).run_of(*scenario).state_after(
                    installed(initial_population@),
                    (year - scenario.base_year) as nat,
                )
            },
            out matches Err(RunError::YearTooLarge(year)) ==> {
                &&& scenario.base_year <= year <= scenario.end_year
                &&& final(self).run_of(*scenario).fits(
                    installed(initial_population@),
                    (year - scenario.base_year) as nat,
                )
                &&& !final(self).run_of(*scenario).year(year - scenario.base_year).fits(
                    final(self).run_of(*scenario).state_after(
                        installed(initial_population@),
                        (year - scenario.base_year) as nat,
                    ),
                )
            },
            out matches Ok(result) ==> {
                &&& final(self).run_of(*scenario).fits(
                    installed(initial_population@),
                    (scenario.end_year - scenario.base_year + 1) as nat,
                )
                &&& final(self)@ == final(self).run_of(*scenario).state_after(
                    installed(initial_population@),
                    (scenario.end_year - scenario.base_year + 1) as nat,
                )
                &&& result.years@ == final(self).run_of(*scenario).records(
                    installed(initial_population@),
                    (scenario.end_year - scenario.base_year + 1) as nat,
                )
                &&& result.scenario_id@ == scenario.id@
                &&& result.base_year == scenario.base_year
                &&& result.end_year == scenario.end_year
            },
    {
        proof {
            use_type_invariant(&self.store);
        }
        let started = clock_start();
        let check = scenario.validate();
        if !check.valid {
            return Err(RunError::Rejected(check.errors));
        }
        if !population_fits(initial_population) {
            return Err(RunError::PopulationTooLarge);
        }
        self.store.load(initial_population);
        self.registry.load_mortality_tables(mortality_tables);
        self.registry.load_fertility_tables(fertility_tables);
        self.shocks.clear_shocks();
        let ghost run = self.run_of(*scenario);
        let ghost s0 = installed(initial_population@);
        let mut years: Vec<ProjectionYear> = Vec::new();
        let mut year: u32 = scenario.base_year;
        let last: u32 = scenario.end_year;
        proof {
            assert(years@ =~= run.records(s0, 0));
        }
        while year <= last
            invariant
                scenario.spec_valid(),
                last == scenario.end_year,
                scenario.base_year <= year <= last + 1,
                self.store.wf(),
                run == self.run_of(*scenario),
                s0 == installed(initial_population@),
                self.shocks() == Seq::<Shock>::empty(),
                self.store@ == run.state_after(s0, (year - scenario.base_year) as nat),
                years@ == run.records(s0, (year - scenario.base_year) as nat),
                run.fits(s0, (year - scenario.base_year) as nat),
                forall|year: u32, progress: ProjectionProgress|
                    scenario.base_year <= year <= scenario.end_year && is_progress_of(
                        *scenario,
                        year,
                        progress,
                    ) ==> call_requires(progress_callback, (progress,)),
                forall|year: u32|
                    scenario.base_year <= year <= scenario.end_year ==> call_requires(
                        keep_going,
                        (year,),
                    ),
                listed_total(initial_population@) <= u64::MAX,
                self.tables() == old(self).tables().with_mortality_tables(
                    mortality_tables@,
                ).with_fertility_tables(fertility_tables@),
            decreases last + 1 - year,
        {
            let ghost k = (year - scenario.base_year) as nat;
            let ghost before = self.store@;
            let go: bool = keep_going(year);
            if !go {
                assert(call_ensures(keep_going, (year,), false));
                return Err(RunError::Cancelled(year));
            }
            proof {
                assert(run.year(k as int) == setting_of(
                    self.registry@,
                    scenario.shocks@,
                    year,
                    scenario.regions@,
                ));
            }
            match project_store(
                &mut self.store,
                &self.registry,
                &scenario.shocks,
                year,
                scenario.regions.as_slice(),
            ) {
                None => {
                    return Err(RunError::YearTooLarge(year));
                },
                Some(record) => {
                    years.push(record);
                },
            }
            proof {
                assert(run.state_after(s0, k + 1) == run.year(k as int).state_after(before));
                assert(years@ =~= run.records(s0, k + 1));
                assert forall|i: int| 0 <= i < k + 1 implies (#[trigger] run.year(i)).fits(
                    run.state_after(s0, i as nat),
                ) by {
                    if i == k {
                    }
                }
            }
            progress_callback(progress_at(scenario, year));
            year += 1;
        }
        Ok(
            ProjectionResult {
                scenario_id: scenario.id.clone(),
                computed_at: timestamp_now(),
                compute_time_ms: clock_elapsed_ms(&started),
                base_year: scenario.base_year,
                end_year: scenario.end_year,
                years,
            },
        )
    }

    /// The population as it stands, for `scenario_id` and `year`: the cohorts
    /// that count somebody, each once, and the figures that sum them up.
    pub fn get_population(&self, scenario_id: &str, year: u32) -> (population: Population)
        ensures
            population.scenario_id@ == scenario_id@,
            population.year == year,
            is_census(population.cohorts@),
            forall|q: Seq<char>, a: int, g: Gender| #[trigger]
                listed_count(population.cohorts@, q, a, g) == state_count(self@, q, a, g),
            describes(population.cohorts@, population.metadata),
            population.metadata.total_population == state_total(self@),
    {
        let cohorts = self.store.export();
        proof {
            use_type_invariant(&self.store);
            crate::engine::population::lemma_heads_of_census(cohorts@);
        }
        let metadata = calculate_metadata(cohorts.as_slice());
        Population { scenario_id: scenario_id.to_owned(), year, cohorts, metadata }
    }
}

impl Default for DemographicEngine {
    /// An engine without population, tables or shocks.
    fn default() -> (engine: Self)
        ensures
            engine.wf(),
            engine@ == Seq::<Block>::empty(),
            engine.shocks() == Seq::<Shock>::empty(),
            engine.tables() == Tables::none(),
    {
        DemographicEngine::new()
    }
}

} // verus!

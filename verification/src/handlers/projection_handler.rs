//! A projection run on the data of one request: the population, the tables
//! and the years come as rows, and the years of the projection go back as
//! whole heads.

use vstd::prelude::*;
use vstd::string::StringExecFns;
use crate::engine::ccm::CohortComponentModel;
use crate::engine::model::Block;
use crate::engine::rates::{Births, Tables};
use crate::engine::state::{installed, lemma_record_exact, listed_total, Run, state_count,
    with_cohort};
use crate::fixed::{nearest_whole, round_whole, round_whole_signed};
use crate::host::{clock_elapsed_ms, clock_start};
use crate::types::demographic::{AGE_COUNT, Cohort, FertilityRate, FertilityTable, Gender, MAX_AGE,
    MigrationRate, MigrationTable, MortalityRate, MortalityTable, ProjectionYear};
use crate::types::shock::Shock;

verus! {

/// The heads of one age by gender.
#[derive(Debug, Clone, Copy, PartialEq, Eq, Structural)]
pub struct PopulationRow {
    pub age: u32,
    pub male: u64,
    pub female: u64,
}

/// The death rates of one age by gender.
#[derive(Debug, Clone, Copy, PartialEq, Eq, Structural)]
pub struct MortalityRow {
    pub age: u32,
    pub male: u64,
    pub female: u64,
}

/// The birth rate of the women of one age.
#[derive(Debug, Clone, Copy, PartialEq, Eq, Structural)]
pub struct FertilityRow {
    pub age: u32,
    pub rate: u64,
}

/// The net migration of one age by gender.
#[derive(Debug, Clone, Copy, PartialEq, Eq, Structural)]
pub struct MigrationRow {
    pub age: u32,
    pub male: i64,
    pub female: i64,
}

/// What a projection run is asked for.
#[derive(Debug, Clone)]
pub struct ProjectionRunRequest {
    pub workspace_id: String,
    pub base_year: u32,
    pub end_year: u32,
    pub sex_ratio_at_birth: u64,
    pub population: Vec<PopulationRow>,
    pub mortality: Vec<MortalityRow>,
    pub fertility: Vec<FertilityRow>,
    pub migration: Option<Vec<MigrationRow>>,
}

/// One projected year in whole heads. The growth rate is a percentage.
#[derive(Debug, Clone, Copy, PartialEq, Eq, Structural)]
pub struct ProjectionYearResult {
    pub year: u32,
    pub total_population: i64,
    pub births: i64,
    pub deaths: i64,
    pub net_migration: i64,
    pub natural_change: i64,
    pub growth_rate: i128,
}

/// The whole heads of one age by gender.
#[derive(Debug, Clone, Copy, PartialEq, Eq, Structural)]
pub struct CohortSnapshot {
    pub age: u32,
    pub male: i64,
    pub female: i64,
}

/// The population of one year in whole heads, by age and gender.
#[derive(Debug, Clone)]
pub struct YearPopulationSnapshot {
    pub year: u32,
    pub cohorts: Vec<CohortSnapshot>,
    pub total_male: i64,
    pub total_female: i64,
    pub total: i64,
}

/// What a request held.
#[derive(Debug, Clone, Copy, PartialEq, Eq, Structural)]
pub struct InputDataStats {
    pub population_rows: usize,
    pub mortality_rows: usize,
    pub fertility_rows: usize,
    pub migration_rows: usize,
    pub total_initial_population: i64,
    pub male_population: i64,
    pub female_population: i64,
    pub base_year: u32,
    pub end_year: u32,
    pub years_projected: u32,
}

/// What a projection run gave.
#[derive(Debug, Clone)]
pub struct ProjectionRunResponse {
    pub workspace_id: String,
    pub success: bool,
    pub years: Vec<ProjectionYearResult>,
    pub error: Option<String>,
    pub processing_time_ms: u64,
    pub input_stats: Option<InputDataStats>,
    pub population_by_year: Option<Vec<YearPopulationSnapshot>>,
}

/// The heads of the rows of one gender.
pub open spec fn rows_heads(rows: Seq<PopulationRow>, gender: Gender) -> int
    decreases rows.len(),
{
    if rows.len() == 0 {
        0
    } else {
        rows_heads(rows.drop_last(), gender) + (match gender {
            Gender::Male => rows.last().male as int,
            Gender::Female => rows.last().female as int,
        })
    }
}

/// All heads of the rows.
pub open spec fn rows_total(rows: Seq<PopulationRow>) -> int {
    rows_heads(rows, Gender::Male) + rows_heads(rows, Gender::Female)
}

/// The population that the rows describe for one region: the heads of rows of
/// the same age are added up, and rows older than the oldest age are left out.
pub open spec fn rows_state(rows: Seq<PopulationRow>, region: Seq<char>) -> Seq<Block>
    decreases rows.len(),
{
    if rows.len() == 0 {
        Seq::<Block>::empty()
    } else {
        let row = rows.last();
        with_cohort(
            with_cohort(
                rows_state(rows.drop_last(), region),
                region,
                row.age as int,
                Gender::Male,
                row.male as int,
            ),
            region,
            row.age as int,
            Gender::Female,
            row.female as int,
        )
    }
}

/// The rows as the rows of a mortality table.
pub open spec fn mortality_rates(rows: Seq<MortalityRow>) -> Seq<MortalityRate> {
    Seq::new(
        rows.len(),
        |i: int| MortalityRate { age: rows[i].age, male: rows[i].male, female: rows[i].female },
    )
}

/// The rows as the rows of a fertility table.
pub open spec fn fertility_rates(rows: Seq<FertilityRow>) -> Seq<FertilityRate> {
    Seq::new(rows.len(), |i: int| FertilityRate { age: rows[i].age, rate: rows[i].rate })
}

/// The rows as the rows of a migration table.
pub open spec fn migration_rates(rows: Seq<MigrationRow>) -> Seq<MigrationRate> {
    Seq::new(
        rows.len(),
        |i: int| MigrationRate { age: rows[i].age, male: rows[i].male, female: rows[i].female },
    )
}

/// The one region of a request.
pub open spec fn default_region() -> Seq<char> {
    "DEFAULT"@
}

/// The tables that a request puts in force: its mortality and its fertility
/// for the one region, and its migration where it names any.
pub open spec fn request_tables(request: ProjectionRunRequest) -> Tables {
    Tables {
        mortality: Map::<Seq<char>, Seq<MortalityRate>>::empty().insert(
            default_region(),
            mortality_rates(request.mortality@),
        ),
        fertility: Map::<Seq<char>, Births>::empty().insert(
            default_region(),
            Births {
                rates: fertility_rates(request.fertility@),
                sex_ratio_at_birth: request.sex_ratio_at_birth,
            },
        ),
        migration: match request.migration {
            Some(rows) => if rows@.len() > 0 {
                Map::<Seq<char>, Seq<MigrationRate>>::empty().insert(
                    default_region(),
                    migration_rates(rows@),
                )
            } else {
                Map::<Seq<char>, Seq<MigrationRate>>::empty()
            },
            None => Map::<Seq<char>, Seq<MigrationRate>>::empty(),
        },
    }
}

/// The run that a request asks for: its one region from its first year on,
/// under its tables and without shocks.
pub open spec fn request_run(request: ProjectionRunRequest) -> Run {
    Run {
        tables: request_tables(request),
        shocks: Seq::<Shock>::empty(),
        regions: seq![default_region()],
        base_year: request.base_year,
    }
}

/// The number of years that a request asks for: its first and its last and
/// those between them.
pub open spec fn request_years(request: ProjectionRunRequest) -> nat {
    (request.end_year - request.base_year + 1) as nat
}

/// What is wrong with a request, if anything: the first of these that holds.
pub open spec fn request_error(request: ProjectionRunRequest) -> Option<Seq<char>> {
    if request.population@.len() == 0 {
        Some("Population data is required"@)
    } else if request.mortality@.len() == 0 {
        Some("Mortality data is required"@)
    } else if request.fertility@.len() == 0 {
        Some("Fertility data is required"@)
    } else if request.base_year >= request.end_year {
        Some("End year must be greater than base year"@)
    } else if rows_total(request.population@) > u64::MAX || !request_run(request).fits(
        rows_state(request.population@, default_region()),
        request_years(request),
    ) {
        Some("Population exceeds the representable range"@)
    } else {
        None
    }
}

/// A year's record in whole heads.
pub open spec fn in_whole_heads(record: ProjectionYear) -> ProjectionYearResult {
    ProjectionYearResult {
        year: record.year,
        total_population: nearest_whole(record.total_population as int) as i64,
        births: nearest_whole(record.births as int) as i64,
        deaths: nearest_whole(record.deaths as int) as i64,
        net_migration: nearest_whole(record.net_migration as int) as i64,
        natural_change: nearest_whole(record.natural_change as int) as i64,
        growth_rate: record.growth_rate,
    }
}

/// The sum of the men, or of the women, of the first `n` rows of a snapshot.
pub open spec fn snapshot_heads(rows: Seq<CohortSnapshot>, gender: Gender, n: int) -> int
    decreases n,
{
    if n <= 0 {
        0
    } else {
        snapshot_heads(rows, gender, n - 1) + (match gender {
            Gender::Male => rows[n - 1].male as int,
            Gender::Female => rows[n - 1].female as int,
        })
    }
}

/// Whether `snapshot` shows the region `region` of the population `s` in
/// `year`: it has a row for each age at which the region counts somebody, and
/// for no other; the rows stand by age; each gives the men and the women of
/// its age in whole heads; and the totals are those of the rows.
#[verifier::opaque]
pub open spec fn shows(snapshot: YearPopulationSnapshot, s: Seq<Block>, region: Seq<char>, year: u32) -> bool {
    let rows = snapshot.cohorts@;
    &&& snapshot.year == year
    &&& forall|i: int, j: int| 0 <= i < j < rows.len() ==> (#[trigger] rows[i]).age < (
    #[trigger] rows[j]).age
    &&& forall|i: int|
        0 <= i < rows.len() ==> {
            &&& (#[trigger] rows[i]).age <= MAX_AGE
            &&& rows[i].male == nearest_whole(
                state_count(s, region, rows[i].age as int, Gender::Male),
            )
            &&& rows[i].female == nearest_whole(
                state_count(s, region, rows[i].age as int, Gender::Female),
            )
            &&& state_count(s, region, rows[i].age as int, Gender::Male) + state_count(
                s,
                region,
                rows[i].age as int,
                Gender::Female,
            ) > 0
        }
    &&& forall|age: int|
        0 <= age <= MAX_AGE && #[trigger] state_count(s, region, age, Gender::Male) + state_count(
            s,
            region,
            age,
            Gender::Female,
        ) > 0 ==> exists|i: int| 0 <= i < rows.len() && (#[trigger] rows[i]).age == age
    &&& snapshot.total_male == snapshot_heads(rows, Gender::Male, rows.len() as int)
    &&& snapshot.total_female == snapshot_heads(rows, Gender::Female, rows.len() as int)
    &&& snapshot.total == snapshot.total_male + snapshot.total_female
}

/// The region `region_id` of the model's population in whole heads, by age.
pub fn capture_population_snapshot(ccm: &CohortComponentModel, region_id: &str, year: u32) -> (snapshot: YearPopulationSnapshot)
    ensures
        shows(snapshot, ccm@, region_id@, year),
        ccm.wf(),
{
    let ghost s = ccm@;
    let ghost region = region_id@;
    ccm.attest();
    let mut rows: Vec<CohortSnapshot> = Vec::new();
    let mut total_male: i64 = 0;
    let mut total_female: i64 = 0;
    let mut age: u32 = 0;
    while age < AGE_COUNT as u32
        invariant
            age <= AGE_COUNT,
            s == ccm@,
            region == region_id@,
            rows@.len() <= age,
            forall|i: int, j: int| 0 <= i < j < rows@.len() ==> (#[trigger] rows@[i]).age < (
            #[trigger] rows@[j]).age,
            forall|i: int|
                0 <= i < rows@.len() ==> {
                    &&& (#[trigger] rows@[i]).age < age
                    &&& rows@[i].male == nearest_whole(
                        state_count(s, region, rows@[i].age as int, Gender::Male),
                    )
                    &&& rows@[i].female == nearest_whole(
                        state_count(s, region, rows@[i].age as int, Gender::Female),
                    )
                    &&& state_count(s, region, rows@[i].age as int, Gender::Male) + state_count(
                        s,
                        region,
                        rows@[i].age as int,
                        Gender::Female,
                    ) > 0
                },
            forall|a: int|
                0 <= a < age && #[trigger] state_count(s, region, a, Gender::Male) + state_count(
                    s,
                    region,
                    a,
                    Gender::Female,
                ) > 0 ==> exists|i: int| 0 <= i < rows@.len() && (#[trigger] rows@[i]).age == a,
            total_male == snapshot_heads(rows@, Gender::Male, rows@.len() as int),
            total_female == snapshot_heads(rows@, Gender::Female, rows@.len() as int),
            0 <= total_male <= rows@.len() * 0x2000_0000_0000,
            0 <= total_female <= rows@.len() * 0x2000_0000_0000,
        decreases AGE_COUNT - age,
    {
        let men: u64 = ccm.get_count(age, Gender::Male, region_id);
        let women: u64 = ccm.get_count(age, Gender::Female, region_id);
        if men > 0 || women > 0 {
            let whole_men: u64 = round_whole(men);
            let whole_women: u64 = round_whole(women);
            assert(whole_men <= 0x2000_0000_0000 && whole_women <= 0x2000_0000_0000) by {
                assert(nearest_whole(men as int) <= 0x2000_0000_0000) by (nonlinear_arith)
                    requires
                        0 <= men <= 0xffff_ffff_ffff_ffff,
                        nearest_whole(men as int) == (men + 500_000) / 1_000_000,
                ;
                assert(nearest_whole(women as int) <= 0x2000_0000_0000) by (nonlinear_arith)
                    requires
                        0 <= women <= 0xffff_ffff_ffff_ffff,
                        nearest_whole(women as int) == (women + 500_000) / 1_000_000,
                ;
            }
            let ghost before = rows@;
            let row = CohortSnapshot { age, male: whole_men as i64, female: whole_women as i64 };
            rows.push(row);
            proof {
                assert forall|i: int| 0 <= i < before.len() implies rows@[i] == before[i] by {}
                lemma_snapshot_heads_same(before, rows@, Gender::Male, before.len() as int);
                lemma_snapshot_heads_same(before, rows@, Gender::Female, before.len() as int);
                assert forall|a: int|
                    0 <= a < age + 1 && #[trigger] state_count(s, region, a, Gender::Male)
                        + state_count(s, region, a, Gender::Female) > 0 implies exists|i: int|
                    0 <= i < rows@.len() && (#[trigger] rows@[i]).age == a by {
                    if a < age {
                        let i = choose|i: int| 0 <= i < before.len() && (#[trigger] before[i]).age == a;
                        assert(rows@[i].age == a);
                    } else {
                        assert(rows@[before.len() as int].age == a);
                    }
                }
            }
            total_male = total_male + (whole_men as i64);
            total_female = total_female + (whole_women as i64);
        }
        age += 1;
    }
    let snapshot = YearPopulationSnapshot {
        year,
        cohorts: rows,
        total_male,
        total_female,
        total: total_male + total_female,
    };
    proof {
        reveal(shows);
        let shown = snapshot.cohorts@;
        assert forall|a: int|
            0 <= a <= MAX_AGE && #[trigger] state_count(s, region, a, Gender::Male) + state_count(
                s,
                region,
                a,
                Gender::Female,
            ) > 0 implies exists|i: int| 0 <= i < shown.len() && (#[trigger] shown[i]).age == a by {
            let i = choose|i: int| 0 <= i < shown.len() && (#[trigger] shown[i]).age == a;
            assert(shown[i].age == a);
        }
        assert forall|i: int| 0 <= i < shown.len() implies (#[trigger] shown[i]).age <= MAX_AGE by {}
    }
    snapshot
}

/// Rows that agree up to the `n`-th have the same sums up to it.
proof fn lemma_snapshot_heads_same(a: Seq<CohortSnapshot>, b: Seq<CohortSnapshot>, gender: Gender, n: int)
    requires
        0 <= n <= a.len(),
        n <= b.len(),
        forall|i: int| 0 <= i < n ==> a[i] == b[i],
    ensures
        snapshot_heads(a, gender, n) == snapshot_heads(b, gender, n),
    decreases n,
{
    if n > 0 {
        lemma_snapshot_heads_same(a, b, gender, n - 1);
    }
}

/// A year's record in whole heads.
pub fn year_result(record: &ProjectionYear) -> (result: ProjectionYearResult)
    requires
        -(u64::MAX as int) <= record.net_migration <= u64::MAX,
        -(u64::MAX as int) <= record.natural_change <= u64::MAX,
    ensures
        result == in_whole_heads(*record),
{
    ProjectionYearResult {
        year: record.year,
        total_population: round_whole(record.total_population) as i64,
        births: round_whole(record.births) as i64,
        deaths: round_whole(record.deaths) as i64,
        net_migration: round_whole_signed(record.net_migration) as i64,
        natural_change: round_whole_signed(record.natural_change) as i64,
        growth_rate: record.growth_rate,
    }
}

/// The year of the `k`-th snapshot of a run from `base_year`: the base year
/// shows the population as it was loaded, each later year what the year
/// before it left.
pub open spec fn snapshot_year(base_year: u32, k: int) -> u32 {
    if base_year + k <= u32::MAX {
        (base_year + k) as u32
    } else {
        u32::MAX
    }
}

/// The run of the model's one region `region` from `base_year` on, under the
/// tables and the shocks that the model has in force.
pub open spec fn model_run(ccm: CohortComponentModel, region: Seq<char>, base_year: u32) -> Run {
    Run { tables: ccm.tables(), shocks: ccm.shocks(), regions: seq![region], base_year }
}

/// Whether `years` and `snapshots` are what `k` years of `run` give of the
/// population `loaded`: the records of the years in whole heads, and the
/// region as it was loaded and after each year.
#[verifier::opaque]
pub open spec fn tells(
    years: Seq<ProjectionYearResult>,
    snapshots: Seq<YearPopulationSnapshot>,
    run: Run,
    loaded: Seq<Block>,
    region: Seq<char>,
    k: nat,
) -> bool {
    &&& years == Seq::new(k, |i: int| in_whole_heads(run.year(i).record(run.state_after(loaded, i as nat))))
    &&& snapshots.len() == k + 1
    &&& forall|j: int|
        0 <= j <= k ==> shows(
            #[trigger] snapshots[j],
            run.state_after(loaded, j as nat),
            region,
            snapshot_year(run.base_year, j),
        )
}

/// What a request held, in whole heads.
pub open spec fn request_stats(request: ProjectionRunRequest) -> InputDataStats {
    InputDataStats {
        population_rows: request.population@.len() as usize,
        mortality_rows: request.mortality@.len() as usize,
        fertility_rows: request.fertility@.len() as usize,
        migration_rows: match request.migration {
            Some(rows) => rows@.len() as usize,
            None => 0,
        },
        total_initial_population: nearest_whole(rows_total(request.population@)) as i64,
        male_population: nearest_whole(rows_heads(request.population@, Gender::Male)) as i64,
        female_population: nearest_whole(rows_heads(request.population@, Gender::Female)) as i64,
        base_year: request.base_year,
        end_year: request.end_year,
        years_projected: if request_years(request) > u32::MAX {
            u32::MAX
        } else {
            request_years(request) as u32
        },
    }
}

/// Whether `response` answers `request`: it is a success for the workspace of
/// the request; its years are those of the run, in whole heads; it shows the
/// population as it was loaded and after each year; and its statistics are
/// those of the request.
pub open spec fn answers(response: ProjectionRunResponse, request: ProjectionRunRequest) -> bool {
    let run = request_run(request);
    let loaded = rows_state(request.population@, default_region());
    let n = request_years(request);
    &&& response.workspace_id@ == request.workspace_id@
    &&& response.success
    &&& response.error is None
    &&& response.input_stats == Some(request_stats(request))
    &&& response.population_by_year matches Some(snapshots) && tells(
        response.years@,
        snapshots@,
        run,
        loaded,
        default_region(),
        n,
    )
}

/// The heads of the men and of the women of the rows, where all heads together
/// are within the largest representable number.
fn rows_sums(rows: &Vec<PopulationRow>) -> (sums: Option<(u64, u64)>)
    ensures
        match sums {
            Some((men, women)) => men == rows_heads(rows@, Gender::Male) && women == rows_heads(
                rows@,
                Gender::Female,
            ) && rows_total(rows@) <= u64::MAX,
            None => rows_total(rows@) > u64::MAX,
        },
{
    let n: usize = rows.len();
    let mut men: u64 = 0;
    let mut women: u64 = 0;
    let mut i: usize = 0;
    while i < n
        invariant
            n == rows@.len(),
            i <= n,
            men == rows_heads(rows@.take(i as int), Gender::Male),
            women == rows_heads(rows@.take(i as int), Gender::Female),
            men + women <= u64::MAX,
        decreases n - i,
    {
        proof {
            assert(rows@.take(i + 1).drop_last() =~= rows@.take(i as int));
            lemma_rows_heads_grow(rows@, Gender::Male, i + 1);
            lemma_rows_heads_grow(rows@, Gender::Female, i + 1);
        }
        let wide: u128 = (men as u128) + (women as u128) + (rows[i].male as u128) + (
        rows[i].female as u128);
        if wide > u64::MAX as u128 {
            return None;
        }
        men = men + rows[i].male;
        women = women + rows[i].female;
        i += 1;
    }
    proof {
        assert(rows@.take(n as int) =~= rows@);
    }
    Some((men, women))
}

/// The heads of the first `n` rows are no more than those of all rows.
proof fn lemma_rows_heads_grow(rows: Seq<PopulationRow>, gender: Gender, n: int)
    requires
        0 <= n <= rows.len(),
    ensures
        0 <= rows_heads(rows.take(n), gender) <= rows_heads(rows, gender),
    decreases rows.len() - n,
{
    if n < rows.len() {
        assert(rows.take(n + 1).drop_last() =~= rows.take(n));
        lemma_rows_heads_grow(rows, gender, n + 1);
        lemma_rows_heads_nonnegative(rows.take(n), gender);
    } else {
        assert(rows.take(n) =~= rows);
        lemma_rows_heads_nonnegative(rows, gender);
    }
}

/// The heads of one more row.
proof fn lemma_rows_heads_step(rows: Seq<PopulationRow>, gender: Gender, n: int)
    requires
        0 <= n < rows.len(),
    ensures
        rows_heads(rows.take(n + 1), gender) == rows_heads(rows.take(n), gender) + (match gender {
            Gender::Male => rows[n].male as int,
            Gender::Female => rows[n].female as int,
        }),
{
    assert(rows.take(n + 1).drop_last() =~= rows.take(n));
}

proof fn lemma_rows_heads_nonnegative(rows: Seq<PopulationRow>, gender: Gender)
    ensures
        0 <= rows_heads(rows, gender),
    decreases rows.len(),
{
    if rows.len() > 0 {
        lemma_rows_heads_nonnegative(rows.drop_last(), gender);
    }
}

/// The cohorts of the rows, for one region: the men of each row and then its
/// women.
fn population_cohorts(rows: &Vec<PopulationRow>, region: &String) -> (cohorts: Vec<Cohort>)
    ensures
        installed(cohorts@) == rows_state(rows@, region@),
        listed_total(cohorts@) <= rows_total(rows@),
{
    let n: usize = rows.len();
    let mut cohorts: Vec<Cohort> = Vec::new();
    let mut i: usize = 0;
    proof {
        assert(rows@.take(0) =~= Seq::<PopulationRow>::empty());
    }
    while i < n
        invariant
            n == rows@.len(),
            i <= n,
            installed(cohorts@) == rows_state(rows@.take(i as int), region@),
            listed_total(cohorts@) <= rows_total(rows@.take(i as int)),
        decreases n - i,
    {
        let row: PopulationRow = rows[i];
        let men = Cohort {
            age: row.age,
            gender: Gender::Male,
            region_id: region.clone(),
            count: row.male,
        };
        let women = Cohort {
            age: row.age,
            gender: Gender::Female,
            region_id: region.clone(),
            count: row.female,
        };
        let ghost before = cohorts@;
        proof {
            crate::engine::state::lemma_listed_push(before, men);
            crate::engine::state::lemma_listed_push(before.push(men), women);
            assert(before.push(men).drop_last() =~= before);
            assert(before.push(men).push(women).drop_last() =~= before.push(men));
            assert(rows@.take(i + 1).drop_last() =~= rows@.take(i as int));
            assert(installed(before.push(men)) == with_cohort(
                installed(before),
                region@,
                row.age as int,
                Gender::Male,
                row.male as int,
            ));
            assert(installed(before.push(men).push(women)) == with_cohort(
                installed(before.push(men)),
                region@,
                row.age as int,
                Gender::Female,
                row.female as int,
            ));
            lemma_rows_heads_step(rows@, Gender::Male, i as int);
            lemma_rows_heads_step(rows@, Gender::Female, i as int);
        }
        cohorts.push(men);
        cohorts.push(women);
        i += 1;
    }
    proof {
        assert(rows@.take(n as int) =~= rows@);
    }
    cohorts
}

fn mortality_table_of(rows: &Vec<MortalityRow>, region: &String, year: u32) -> (table: MortalityTable)
    ensures
        table.region_id@ == region@,
        table.rates@ == mortality_rates(rows@),
{
    let n: usize = rows.len();
    let mut rates: Vec<MortalityRate> = Vec::new();
    let mut i: usize = 0;
    while i < n
        invariant
            n == rows@.len(),
            i <= n,
            rates@.len() == i,
            forall|k: int| 0 <= k < i ==> #[trigger] rates@[k] == mortality_rates(rows@)[k],
        decreases n - i,
    {
        let row: MortalityRow = rows[i];
        rates.push(MortalityRate { age: row.age, male: row.male, female: row.female });
        i += 1;
    }
    assert(rates@ =~= mortality_rates(rows@));
    MortalityTable { region_id: region.clone(), year, rates }
}

fn fertility_table_of(rows: &Vec<FertilityRow>, region: &String, year: u32, sex_ratio_at_birth: u64) -> (table: FertilityTable)
    ensures
        table.region_id@ == region@,
        table.rates@ == fertility_rates(rows@),
        table.sex_ratio_at_birth == sex_ratio_at_birth,
{
    let n: usize = rows.len();
    let mut rates: Vec<FertilityRate> = Vec::new();
    let mut i: usize = 0;
    while i < n
        invariant
            n == rows@.len(),
            i <= n,
            rates@.len() == i,
            forall|k: int| 0 <= k < i ==> #[trigger] rates@[k] == fertility_rates(rows@)[k],
        decreases n - i,
    {
        let row: FertilityRow = rows[i];
        rates.push(FertilityRate { age: row.age, rate: row.rate });
        i += 1;
    }
    assert(rates@ =~= fertility_rates(rows@));
    FertilityTable { region_id: region.clone(), year, rates, sex_ratio_at_birth }
}

fn migration_table_of(rows: &Vec<MigrationRow>, region: &String, year: u32) -> (table: MigrationTable)
    ensures
        table.region_id@ == region@,
        table.rates@ == migration_rates(rows@),
{
    let n: usize = rows.len();
    let mut rates: Vec<MigrationRate> = Vec::new();
    let mut i: usize = 0;
    while i < n
        invariant
            n == rows@.len(),
            i <= n,
            rates@.len() == i,
            forall|k: int| 0 <= k < i ==> #[trigger] rates@[k] == migration_rates(rows@)[k],
        decreases n - i,
    {
        let row: MigrationRow = rows[i];
        rates.push(MigrationRate { age: row.age, male: row.male, female: row.female });
        i += 1;
    }
    assert(rates@ =~= migration_rates(rows@));
    MigrationTable { region_id: region.clone(), year, rates }
}

/// Before the first year there are no records, and the population shows as
/// it was loaded.
proof fn lemma_tells_start(
    snapshot: YearPopulationSnapshot,
    run: Run,
    loaded: Seq<Block>,
    region: Seq<char>,
)
    requires
        shows(snapshot, loaded, region, run.base_year),
    ensures
        tells(Seq::<ProjectionYearResult>::empty(), seq![snapshot], run, loaded, region, 0),
{
    reveal(tells);
    let years = Seq::<ProjectionYearResult>::empty();
    assert(years =~= Seq::new(
        0,
        |i: int| in_whole_heads(run.year(i).record(run.state_after(loaded, i as nat))),
    ));
    assert(seq![snapshot][0] == snapshot);
}

/// One more year adds its record and its snapshot.
proof fn lemma_tells_next(
    years: Seq<ProjectionYearResult>,
    snapshots: Seq<YearPopulationSnapshot>,
    run: Run,
    loaded: Seq<Block>,
    region: Seq<char>,
    k: nat,
    year: ProjectionYearResult,
    snapshot: YearPopulationSnapshot,
)
    requires
        tells(years, snapshots, run, loaded, region, k),
        year == in_whole_heads(run.year(k as int).record(run.state_after(loaded, k))),
        shows(
            snapshot,
            run.state_after(loaded, k + 1),
            region,
            snapshot_year(run.base_year, k as int + 1),
        ),
    ensures
        tells(years.push(year), snapshots.push(snapshot), run, loaded, region, k + 1),
{
    reveal(tells);
    let more = years.push(year);
    let shown = snapshots.push(snapshot);
    assert(more =~= Seq::new(
        k + 1,
        |i: int| in_whole_heads(run.year(i).record(run.state_after(loaded, i as nat))),
    ));
    assert forall|j: int| 0 <= j <= k + 1 implies shows(
        #[trigger] shown[j],
        run.state_after(loaded, j as nat),
        region,
        snapshot_year(run.base_year, j),
    ) by {
        if j <= k {
            assert(shown[j] == snapshots[j]);
        }
    }
}

/// Projects the one region of the model through the years from `base_year` to
/// `end_year`, where every year fits: the years in whole heads, and the region
/// as it stood before the first year and after each.
fn run_years(
    ccm: &mut CohortComponentModel,
    region: &String,
    regions: &Vec<String>,
    base_year: u32,
    end_year: u32,
) -> (out: Option<(Vec<ProjectionYearResult>, Vec<YearPopulationSnapshot>)>)
    requires
        base_year <= end_year,
        crate::text::texts(regions@) == seq![region@],
    ensures
        out is Some <==> model_run(*old(ccm), region@, base_year).fits(
            old(ccm)@,
            (end_year - base_year + 1) as nat,
        ),
        out matches Some(told) ==> tells(
            told.0@,
            told.1@,
            model_run(*old(ccm), region@, base_year),
            old(ccm)@,
            region@,
            (end_year - base_year + 1) as nat,
        ),
{
    let ghost run = model_run(*ccm, region@, base_year);
    let ghost loaded = ccm@;
    let mut results: Vec<ProjectionYearResult> = Vec::new();
    let mut snapshots: Vec<YearPopulationSnapshot> = Vec::new();
    snapshots.push(capture_population_snapshot(ccm, region.as_str(), base_year));
    proof {
        lemma_tells_start(snapshots@[0], run, loaded, region@);
        assert(snapshots@ =~= seq![snapshots@[0]]);
    }
    let mut cursor: u64 = base_year as u64;
    while cursor <= end_year as u64
        invariant
            base_year <= cursor <= end_year + 1,
            crate::text::texts(regions@) == seq![region@],
            run == model_run(*ccm, region@, base_year),
            run == model_run(*old(ccm), region@, base_year),
            loaded == old(ccm)@,
            ccm@ == run.state_after(loaded, (cursor - base_year) as nat),
            run.fits(loaded, (cursor - base_year) as nat),
            tells(results@, snapshots@, run, loaded, region@, (cursor - base_year) as nat),
            results@.len() == cursor - base_year,
            snapshots@.len() == cursor - base_year + 1,
            ccm.wf(),
        decreases end_year + 1 - cursor,
    {
        let year: u32 = cursor as u32;
        let ghost k = (year - base_year) as nat;
        let ghost before = ccm@;
        let ghost was = snapshots@;
        let ghost had = results@;
        proof {
            assert(run.year(k as int) == ccm.setting(year, regions@));
            if run.year(k as int).fits(before) {
                lemma_year_of_run(ccm, run.year(k as int));
            }
        }
        let record = match ccm.try_project_one_year(year, regions.as_slice()) {
            Some(record) => record,
            None => {
                return None;
            },
        };
        proof {
            assert(run.state_after(loaded, k + 1) == run.year(k as int).state_after(before));
        }
        results.push(year_result(&record));
        let next: u32 = if year < u32::MAX {
            year + 1
        } else {
            year
        };
        snapshots.push(capture_population_snapshot(ccm, region.as_str(), next));
        proof {
            lemma_tells_next(
                had,
                was,
                run,
                loaded,
                region@,
                k,
                results@[k as int],
                snapshots@[k as int + 1],
            );
            assert(results@ =~= had.push(results@[k as int]));
            assert(snapshots@ =~= was.push(snapshots@[k as int + 1]));
        }
        cursor += 1;
    }
    Some((results, snapshots))
}

/// What `lemma_record_exact` says of a year of the model: the sums of a year
/// that fits are within the largest representable number.
proof fn lemma_year_of_run(ccm: &CohortComponentModel, w: crate::engine::state::Setting)
    requires
        ccm.wf(),
        w.fits(ccm@),
    ensures
        -(u64::MAX as int) <= w.record(ccm@).net_migration <= u64::MAX,
        -(u64::MAX as int) <= w.record(ccm@).natural_change <= u64::MAX,
{
    lemma_record_exact(w, ccm@);
}

/// Runs the projection that `request` asks for, where nothing is wrong with
/// the request; where something is, says what.
pub fn run_projection(request: &ProjectionRunRequest) -> (out: Result<ProjectionRunResponse, String>)
    ensures
        match out {
            Ok(response) => request_error(*request) is None && answers(response, *request),
            Err(message) => request_error(*request) == Some(message@),
        },
{
    let started = clock_start();
    if request.population.len() == 0 {
        return Err(String::from_str("Population data is required"));
    }
    if request.mortality.len() == 0 {
        return Err(String::from_str("Mortality data is required"));
    }
    if request.fertility.len() == 0 {
        return Err(String::from_str("Fertility data is required"));
    }
    if request.base_year >= request.end_year {
        return Err(String::from_str("End year must be greater than base year"));
    }
    let sums = match rows_sums(&request.population) {
        Some(sums) => sums,
        None => {
            return Err(String::from_str("Population exceeds the representable range"));
        },
    };
    let region = String::from_str("DEFAULT");
    let migration_rows: usize = match &request.migration {
        Some(rows) => rows.len(),
        None => 0,
    };
    let cohorts = population_cohorts(&request.population, &region);
    let mut ccm = CohortComponentModel::new();
    ccm.load_population(cohorts.as_slice());
    ccm.load_mortality_table(mortality_table_of(&request.mortality, &region, request.base_year));
    ccm.load_fertility_table(
        fertility_table_of(
            &request.fertility,
            &region,
            request.base_year,
            request.sex_ratio_at_birth,
        ),
    );
    match &request.migration {
        Some(rows) => {
            if rows.len() > 0 {
                ccm.load_migration_table(migration_table_of(rows, &region, request.base_year));
            }
        },
        None => {},
    }
    let ghost run = request_run(*request);
    let ghost loaded = rows_state(request.population@, default_region());
    let ghost n = request_years(*request);
    proof {
        assert(ccm.tables().mortality =~= request_tables(*request).mortality);
        assert(ccm.tables().fertility =~= request_tables(*request).fertility);
        assert(ccm.tables().migration =~= request_tables(*request).migration);
        assert(ccm.tables() == request_tables(*request));
    }
    let mut regions: Vec<String> = Vec::new();
    regions.push(region.clone());
    proof {
        assert(crate::text::texts(regions@) =~= seq![default_region()]);
    }
    proof {
        assert(model_run(ccm, region@, request.base_year) == run);
    }
    let told = match run_years(&mut ccm, &region, &regions, request.base_year, request.end_year) {
        Some(told) => told,
        None => {
            return Err(String::from_str("Population exceeds the representable range"));
        },
    };
    let stats = InputDataStats {
        population_rows: request.population.len(),
        mortality_rows: request.mortality.len(),
        fertility_rows: request.fertility.len(),
        migration_rows,
        total_initial_population: round_whole(sums.0 + sums.1) as i64,
        male_population: round_whole(sums.0) as i64,
        female_population: round_whole(sums.1) as i64,
        base_year: request.base_year,
        end_year: request.end_year,
        years_projected: if request.end_year - request.base_year == u32::MAX {
            u32::MAX
        } else {
            request.end_year - request.base_year + 1
        },
    };
    Ok(
        ProjectionRunResponse {
            workspace_id: request.workspace_id.clone(),
            success: true,
            years: told.0,
            error: None,
            processing_time_ms: clock_elapsed_ms(&started),
            input_stats: Some(stats),
            population_by_year: Some(told.1),
        },
    )
}

} // verus!

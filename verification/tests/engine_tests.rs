//! The year projector on concrete populations: conservation, the open oldest
//! age, defaults, the sex ratio, the migration cap, and whole years.

use popula::engine::ccm::{names_contain, CohortComponentModel};
use popula::engine::store::population_fits;
use popula::types::demographic::{
    Cohort, FertilityRate, FertilityTable, Gender, MigrationRate, MigrationTable, MortalityRate,
    MortalityTable, ProjectionYear,
};

const ONE: u64 = 1_000_000;

fn cohort_of(age: u32, gender: Gender, region: &str, count: u64) -> Cohort {
    Cohort { age, gender, region_id: region.to_string(), count }
}

fn flat_mortality(region: &str, male: u64, female: u64) -> MortalityTable {
    MortalityTable {
        region_id: region.to_string(),
        year: 2024,
        rates: (0..=120).map(|age| MortalityRate { age, male, female }).collect(),
    }
}

fn fertility(region: &str, rates: Vec<FertilityRate>, sex_ratio: u64) -> FertilityTable {
    FertilityTable { region_id: region.to_string(), year: 2024, rates, sex_ratio_at_birth: sex_ratio }
}

fn names(list: &[&str]) -> Vec<String> {
    list.iter().map(|name| name.to_string()).collect()
}

fn conserved(before: u64, record: &ProjectionYear) -> bool {
    record.total_population as i128
        == before as i128 + record.births as i128 - record.deaths as i128 + record.net_migration
}

#[test]
fn a_hundred_women_of_thirty_bear_ten_children() {
    let mut ccm = CohortComponentModel::new();
    ccm.load_population(&[cohort_of(30, Gender::Female, "TEST", 100 * ONE)]);
    ccm.load_mortality_table(flat_mortality("TEST", 0, 0));
    ccm.load_fertility_table(fertility(
        "TEST",
        vec![FertilityRate { age: 30, rate: 100_000 }],
        105 * ONE,
    ));

    let record = ccm.project_one_year(2024, &names(&["TEST"]));

    assert_eq!(record.births, 10 * ONE);
    assert_eq!(ccm.get_count(0, Gender::Male, "TEST"), 5_121_951);
    assert_eq!(ccm.get_count(0, Gender::Female, "TEST"), 4_878_049);
    assert_eq!(ccm.get_count(31, Gender::Female, "TEST"), 100 * ONE);
    assert_eq!(ccm.get_count(30, Gender::Female, "TEST"), 0);
    assert_eq!(record.deaths, 0);
    assert_eq!(record.net_migration, 0);
    assert_eq!(record.natural_change, 10 * ONE as i128);
    assert_eq!(record.total_population, 110 * ONE);
    assert_eq!(record.growth_rate, 10 * ONE as i128);
    assert_eq!(record.year, 2024);
}

#[test]
fn where_everybody_dies_nobody_is_left() {
    let mut ccm = CohortComponentModel::new();
    ccm.load_population(&[
        cohort_of(0, Gender::Male, "TEST", 100 * ONE),
        cohort_of(30, Gender::Female, "TEST", 250 * ONE + 1),
        cohort_of(120, Gender::Female, "TEST", 3),
    ]);
    ccm.load_mortality_table(flat_mortality("TEST", ONE, ONE));
    ccm.load_fertility_table(fertility("TEST", vec![], 105 * ONE));
    let before = ccm.total_population();

    let record = ccm.project_one_year(2024, &names(&["TEST"]));

    assert_eq!(record.total_population, 0);
    assert_eq!(ccm.total_population(), 0);
    assert_eq!(record.deaths, before);
    assert_eq!(record.deaths, 350 * ONE + 4);
    assert_eq!(record.growth_rate, -100 * ONE as i128);
    assert!(ccm.get_cohorts().is_empty());
}

#[test]
fn five_years_give_five_records() {
    let mut ccm = CohortComponentModel::new();
    ccm.load_population(&[
        cohort_of(25, Gender::Female, "TEST", 1000 * ONE),
        cohort_of(25, Gender::Male, "TEST", 1000 * ONE),
    ]);
    ccm.load_mortality_table(flat_mortality("TEST", 10_000, 8_000));
    ccm.load_fertility_table(fertility(
        "TEST",
        (15..=49).map(|age| FertilityRate { age, rate: 50_000 }).collect(),
        105 * ONE,
    ));
    let regions = names(&["TEST"]);
    let mut records = Vec::new();
    for year in 2024..=2028 {
        let before = ccm.total_population();
        let record = ccm.project_one_year(year, &regions);
        assert!(conserved(before, &record));
        records.push(record);
    }
    assert_eq!(records.len(), 5);
    for (i, record) in records.iter().enumerate() {
        assert_eq!(record.year, 2024 + i as u32);
    }
    for pair in records.windows(2) {
        assert!(pair[0].year < pair[1].year);
    }
}

#[test]
fn conservation_with_migration_mortality_and_births() {
    let mut ccm = CohortComponentModel::new();
    ccm.load_population(&[
        cohort_of(30, Gender::Male, "A", 1000 * ONE),
        cohort_of(30, Gender::Female, "A", 1200 * ONE),
        cohort_of(119, Gender::Male, "A", 7 * ONE),
        cohort_of(120, Gender::Female, "A", 3 * ONE),
        cohort_of(20, Gender::Female, "A", 500 * ONE + 1),
    ]);
    ccm.load_mortality_table(flat_mortality("A", 1234, 987));
    ccm.load_fertility_table(fertility(
        "A",
        (15..=49).map(|age| FertilityRate { age, rate: 54_321 }).collect(),
        105 * ONE,
    ));
    ccm.load_migration_table(MigrationTable {
        region_id: "A".to_string(),
        year: 2024,
        rates: vec![
            MigrationRate { age: 30, male: -150 * ONE as i64, female: 0 },
            MigrationRate { age: 20, male: 0, female: 25 * ONE as i64 + 7 },
            MigrationRate { age: 5, male: 3, female: 0 },
        ],
    });
    let before = ccm.total_population();
    assert_eq!(before, 2_710_000_001);

    let record = ccm.project_one_year(2024, &names(&["A"]));

    assert_eq!(record.births, 92_345_700);
    assert_eq!(record.deaths, 2_763_074);
    assert_eq!(record.net_migration, -124_999_990);
    assert_eq!(record.total_population, 2_674_582_637);
    assert_eq!(record.natural_change, 92_345_700 - 2_763_074);
    assert_eq!(record.growth_rate, -1_306_913);
    assert!(conserved(before, &record));
    assert_eq!(ccm.total_population(), record.total_population);
    assert_eq!(ccm.get_count(0, Gender::Male, "A"), 47_299_017);
    assert_eq!(ccm.get_count(0, Gender::Female, "A"), 45_046_683);
    assert_eq!(ccm.get_count(31, Gender::Male, "A"), 848_951_100);
    assert_eq!(ccm.get_count(21, Gender::Female, "A"), 524_481_833);
    assert_eq!(ccm.get_count(31, Gender::Female, "A"), 1_198_815_600);
    assert_eq!(ccm.get_count(120, Gender::Male, "A"), 6_991_362);
    assert_eq!(ccm.get_count(120, Gender::Female, "A"), 2_997_039);
    assert_eq!(ccm.get_count(6, Gender::Male, "A"), 3);
}

#[test]
fn no_count_is_negative_even_with_rates_above_one() {
    let mut ccm = CohortComponentModel::new();
    ccm.load_population(&[
        cohort_of(50, Gender::Male, "TEST", ONE),
        cohort_of(51, Gender::Female, "TEST", 7),
    ]);
    ccm.load_mortality_table(flat_mortality("TEST", 1_500_000, u64::MAX));
    ccm.load_fertility_table(fertility("TEST", vec![], 105 * ONE));

    let record = ccm.project_one_year(2024, &names(&["TEST"]));

    assert_eq!(record.deaths, ONE + 7);
    assert_eq!(ccm.total_population(), 0);
    for age in 0..=120 {
        assert_eq!(ccm.get_count(age, Gender::Male, "TEST"), 0);
        assert_eq!(ccm.get_count(age, Gender::Female, "TEST"), 0);
    }
}

#[test]
fn the_oldest_age_keeps_its_survivors_and_gains_those_of_the_age_before() {
    let mut ccm = CohortComponentModel::new();
    ccm.load_population(&[
        cohort_of(120, Gender::Female, "TEST", 10 * ONE),
        cohort_of(119, Gender::Female, "TEST", 4 * ONE),
        cohort_of(120, Gender::Male, "TEST", 6 * ONE),
    ]);
    ccm.load_mortality_table(flat_mortality("TEST", 500_000, 0));
    ccm.load_fertility_table(fertility("TEST", vec![], 105 * ONE));
    let regions = names(&["TEST"]);

    ccm.project_one_year(2024, &regions);
    assert_eq!(ccm.get_count(120, Gender::Female, "TEST"), 14 * ONE);
    assert_eq!(ccm.get_count(119, Gender::Female, "TEST"), 0);
    assert_eq!(ccm.get_count(120, Gender::Male, "TEST"), 3 * ONE);
    assert_eq!(ccm.get_count(121, Gender::Female, "TEST"), 0);

    ccm.project_one_year(2025, &regions);
    assert_eq!(ccm.get_count(120, Gender::Female, "TEST"), 14 * ONE);
    assert_eq!(ccm.get_count(120, Gender::Male, "TEST"), 1_500_000);
}

#[test]
fn an_age_without_a_row_is_lost_and_one_with_a_row_is_not() {
    let mut ccm = CohortComponentModel::new();
    ccm.load_population(&[
        cohort_of(50, Gender::Male, "TEST", 100 * ONE),
        cohort_of(60, Gender::Male, "TEST", 100 * ONE),
    ]);
    ccm.load_mortality_table(MortalityTable {
        region_id: "TEST".to_string(),
        year: 2024,
        rates: vec![
            MortalityRate { age: 60, male: 250_000, female: 0 },
            MortalityRate { age: 60, male: 900_000, female: 0 },
        ],
    });

    let record = ccm.project_one_year(2024, &names(&["TEST"]));

    assert_eq!(ccm.get_count(51, Gender::Male, "TEST"), 0);
    assert_eq!(ccm.get_count(61, Gender::Male, "TEST"), 75 * ONE);
    assert_eq!(record.deaths, 125 * ONE);
}

#[test]
fn a_region_without_tables_goes_by_the_defaults() {
    let mut ccm = CohortComponentModel::new();
    ccm.load_population(&[
        cohort_of(30, Gender::Female, "BARE", 40 * ONE),
        cohort_of(30, Gender::Male, "BARE", 2 * ONE),
    ]);

    let record = ccm.project_one_year(2024, &names(&["BARE"]));

    assert_eq!(record.births, 0);
    assert_eq!(record.deaths, 42 * ONE);
    assert_eq!(record.net_migration, 0);
    assert_eq!(record.total_population, 0);
}

#[test]
fn the_default_sex_ratio_is_105_boys_to_100_girls() {
    // The fertility table of another region is not the table of this one.
    let mut ccm = CohortComponentModel::new();
    ccm.load_population(&[cohort_of(30, Gender::Female, "TEST", 205 * ONE)]);
    ccm.load_mortality_table(flat_mortality("TEST", 0, 0));
    ccm.load_fertility_table(fertility(
        "TEST",
        vec![FertilityRate { age: 30, rate: ONE }],
        105 * ONE,
    ));
    ccm.project_one_year(2024, &names(&["TEST"]));
    assert_eq!(ccm.get_count(0, Gender::Male, "TEST"), 105 * ONE);
    assert_eq!(ccm.get_count(0, Gender::Female, "TEST"), 100 * ONE);
}

#[test]
fn men_bear_no_children_whatever_the_table() {
    let mut ccm = CohortComponentModel::new();
    ccm.load_population(
        &(0..=120).map(|age| cohort_of(age, Gender::Male, "TEST", 1000 * ONE)).collect::<Vec<_>>(),
    );
    ccm.load_mortality_table(flat_mortality("TEST", 0, 0));
    ccm.load_fertility_table(fertility(
        "TEST",
        (0..=120).map(|age| FertilityRate { age, rate: ONE }).collect(),
        105 * ONE,
    ));

    let record = ccm.project_one_year(2024, &names(&["TEST"]));

    assert_eq!(record.births, 0);
    assert_eq!(ccm.get_count(0, Gender::Male, "TEST"), 0);
    assert_eq!(ccm.get_count(0, Gender::Female, "TEST"), 0);
}

#[test]
fn only_the_ages_from_15_to_49_bear_children() {
    let mut ccm = CohortComponentModel::new();
    ccm.load_population(&[
        cohort_of(14, Gender::Female, "TEST", 100 * ONE),
        cohort_of(15, Gender::Female, "TEST", 100 * ONE),
        cohort_of(49, Gender::Female, "TEST", 100 * ONE),
        cohort_of(50, Gender::Female, "TEST", 100 * ONE),
    ]);
    ccm.load_mortality_table(flat_mortality("TEST", 0, 0));
    ccm.load_fertility_table(fertility(
        "TEST",
        (0..=120).map(|age| FertilityRate { age, rate: 100_000 }).collect(),
        100 * ONE,
    ));

    let record = ccm.project_one_year(2024, &names(&["TEST"]));

    assert_eq!(record.births, 20 * ONE);
}

#[test]
fn a_fertility_rate_above_one_is_held_at_one() {
    let mut ccm = CohortComponentModel::new();
    ccm.load_population(&[cohort_of(20, Gender::Female, "TEST", 8 * ONE)]);
    ccm.load_mortality_table(flat_mortality("TEST", 0, 0));
    ccm.load_fertility_table(fertility(
        "TEST",
        vec![FertilityRate { age: 20, rate: 3 * ONE }],
        100 * ONE,
    ));
    let record = ccm.project_one_year(2024, &names(&["TEST"]));
    assert_eq!(record.births, 8 * ONE);
}

#[test]
fn an_even_sex_ratio_splits_the_births_evenly() {
    for women in [1000 * ONE, 1000 * ONE + 10, 77, 1] {
        let mut ccm = CohortComponentModel::new();
        ccm.load_population(&[cohort_of(30, Gender::Female, "TEST", women)]);
        ccm.load_mortality_table(flat_mortality("TEST", 0, 0));
        ccm.load_fertility_table(fertility(
            "TEST",
            vec![FertilityRate { age: 30, rate: 100_000 }],
            100 * ONE,
        ));
        let record = ccm.project_one_year(2024, &names(&["TEST"]));
        let boys = ccm.get_count(0, Gender::Male, "TEST");
        let girls = ccm.get_count(0, Gender::Female, "TEST");
        assert_eq!(boys + girls, record.births);
        assert!(girls - boys <= 1);
        assert_eq!(boys, record.births / 2);
    }
}

#[test]
fn departures_take_no_more_than_the_cohort_has() {
    let mut ccm = CohortComponentModel::new();
    ccm.load_population(&[
        cohort_of(40, Gender::Male, "TEST", 100 * ONE),
        cohort_of(40, Gender::Female, "TEST", 100 * ONE),
    ]);
    ccm.load_mortality_table(flat_mortality("TEST", 0, 0));
    ccm.load_fertility_table(fertility("TEST", vec![], 105 * ONE));
    ccm.load_migration_table(MigrationTable {
        region_id: "TEST".to_string(),
        year: 2024,
        rates: vec![MigrationRate { age: 40, male: -150 * ONE as i64, female: -40 * ONE as i64 }],
    });

    let record = ccm.project_one_year(2024, &names(&["TEST"]));

    assert_eq!(record.net_migration, -140 * ONE as i128);
    assert_eq!(ccm.get_count(41, Gender::Male, "TEST"), 0);
    assert_eq!(ccm.get_count(41, Gender::Female, "TEST"), 60 * ONE);
    assert_eq!(record.total_population, 60 * ONE);
    assert_eq!(record.deaths, 0);
}

#[test]
fn the_largest_departure_empties_a_cohort() {
    let mut ccm = CohortComponentModel::new();
    ccm.load_population(&[cohort_of(40, Gender::Male, "TEST", 5)]);
    ccm.load_mortality_table(flat_mortality("TEST", 0, 0));
    ccm.load_migration_table(MigrationTable {
        region_id: "TEST".to_string(),
        year: 2024,
        rates: vec![MigrationRate { age: 40, male: i64::MIN, female: i64::MIN }],
    });
    let record = ccm.project_one_year(2024, &names(&["TEST"]));
    assert_eq!(record.net_migration, -5);
    assert_eq!(record.total_population, 0);
}

#[test]
fn arrivals_die_like_everybody_else_and_newborns_do_not() {
    let mut ccm = CohortComponentModel::new();
    ccm.load_population(&[cohort_of(30, Gender::Female, "TEST", 100 * ONE)]);
    ccm.load_mortality_table(flat_mortality("TEST", 500_000, 500_000));
    ccm.load_fertility_table(fertility(
        "TEST",
        vec![FertilityRate { age: 30, rate: 100_000 }],
        100 * ONE,
    ));
    ccm.load_migration_table(MigrationTable {
        region_id: "TEST".to_string(),
        year: 2024,
        rates: vec![MigrationRate { age: 30, male: 0, female: 100 * ONE as i64 }],
    });

    let record = ccm.project_one_year(2024, &names(&["TEST"]));

    // Births are counted on the women as the year finds them, before migration.
    assert_eq!(record.births, 10 * ONE);
    assert_eq!(record.net_migration, 100 * ONE as i128);
    assert_eq!(record.deaths, 100 * ONE);
    assert_eq!(ccm.get_count(31, Gender::Female, "TEST"), 100 * ONE);
    assert_eq!(ccm.get_count(0, Gender::Female, "TEST"), 5 * ONE);
    assert_eq!(ccm.get_count(0, Gender::Male, "TEST"), 5 * ONE);
}

#[test]
fn a_region_that_is_not_projected_stays_as_it_is() {
    let mut ccm = CohortComponentModel::new();
    ccm.load_population(&[
        cohort_of(10, Gender::Male, "A", 10 * ONE),
        cohort_of(10, Gender::Male, "B", 20 * ONE),
    ]);
    ccm.load_mortality_table(flat_mortality("A", 0, 0));
    ccm.load_mortality_table(flat_mortality("B", 0, 0));
    let before = ccm.total_population();

    let record = ccm.project_one_year(2024, &names(&["A"]));

    assert_eq!(ccm.get_count(11, Gender::Male, "A"), 10 * ONE);
    assert_eq!(ccm.get_count(10, Gender::Male, "A"), 0);
    assert_eq!(ccm.get_count(10, Gender::Male, "B"), 20 * ONE);
    assert_eq!(ccm.get_count(11, Gender::Male, "B"), 0);
    assert!(conserved(before, &record));
    assert_eq!(record.total_population, 30 * ONE);
}

#[test]
fn a_region_named_twice_is_stepped_once() {
    let mut ccm = CohortComponentModel::new();
    ccm.load_population(&[cohort_of(10, Gender::Male, "A", 10 * ONE)]);
    ccm.load_mortality_table(flat_mortality("A", 100_000, 0));

    let record = ccm.project_one_year(2024, &names(&["A", "A", "A"]));

    assert_eq!(ccm.get_count(11, Gender::Male, "A"), 9 * ONE);
    assert_eq!(ccm.get_count(12, Gender::Male, "A"), 0);
    assert_eq!(record.deaths, ONE);
    assert_eq!(record.total_population, 9 * ONE);
}

#[test]
fn the_sums_of_a_year_are_over_all_projected_regions() {
    let mut ccm = CohortComponentModel::new();
    ccm.load_population(&[
        cohort_of(30, Gender::Female, "A", 100 * ONE),
        cohort_of(30, Gender::Female, "B", 300 * ONE),
    ]);
    ccm.load_mortality_table(flat_mortality("A", 0, 100_000));
    ccm.load_mortality_table(flat_mortality("B", 0, 200_000));
    ccm.load_fertility_table(fertility("A", vec![FertilityRate { age: 30, rate: 10_000 }], 100 * ONE));
    ccm.load_fertility_table(fertility("B", vec![FertilityRate { age: 30, rate: 20_000 }], 100 * ONE));

    let record = ccm.project_one_year(2024, &names(&["B", "A"]));

    assert_eq!(record.births, ONE + 6 * ONE);
    assert_eq!(record.deaths, 10 * ONE + 60 * ONE);
    assert_eq!(record.total_population, 400 * ONE + 7 * ONE - 70 * ONE);
}

#[test]
fn people_arrive_in_a_region_where_nobody_lived() {
    let mut ccm = CohortComponentModel::new();
    ccm.load_mortality_table(flat_mortality("NEW", 0, 0));
    ccm.load_migration_table(MigrationTable {
        region_id: "NEW".to_string(),
        year: 2024,
        rates: vec![MigrationRate { age: 25, male: 12 * ONE as i64, female: -3 }],
    });

    let record = ccm.project_one_year(2024, &names(&["NEW"]));

    assert_eq!(record.net_migration, 12 * ONE as i128);
    assert_eq!(ccm.get_count(26, Gender::Male, "NEW"), 12 * ONE);
    assert_eq!(record.total_population, 12 * ONE);
    assert_eq!(record.growth_rate, 100 * ONE as i128);
}

#[test]
fn growth_from_nothing_to_nothing_is_none() {
    let mut ccm = CohortComponentModel::new();
    let record = ccm.project_one_year(2024, &names(&["EMPTY"]));
    assert_eq!(record.growth_rate, 0);
    assert_eq!(record.total_population, 0);
}

#[test]
fn fractions_of_a_head_are_kept() {
    let mut ccm = CohortComponentModel::new();
    ccm.load_population(&[cohort_of(30, Gender::Female, "TEST", 1000)]);
    ccm.load_mortality_table(flat_mortality("TEST", 0, 0));
    ccm.load_fertility_table(fertility(
        "TEST",
        vec![FertilityRate { age: 30, rate: 100_000 }],
        105 * ONE,
    ));
    let record = ccm.project_one_year(2024, &names(&["TEST"]));
    assert_eq!(record.births, 100);
    assert_eq!(ccm.get_count(0, Gender::Male, "TEST"), 51);
    assert_eq!(ccm.get_count(0, Gender::Female, "TEST"), 49);
    assert_eq!(ccm.get_count(31, Gender::Female, "TEST"), 1000);
}

#[test]
fn loading_adds_up_cohorts_of_the_same_key_and_discards_what_was_there() {
    let mut ccm = CohortComponentModel::new();
    ccm.load_population(&[cohort_of(1, Gender::Male, "OLD", 5)]);
    ccm.load_population(&[
        cohort_of(7, Gender::Male, "A", 10),
        cohort_of(7, Gender::Female, "A", 1),
        cohort_of(7, Gender::Male, "B", 100),
        cohort_of(7, Gender::Male, "A", 20),
        cohort_of(121, Gender::Male, "A", 1000),
        cohort_of(4_000_000_000, Gender::Female, "C", 1000),
    ]);
    assert_eq!(ccm.get_count(7, Gender::Male, "A"), 30);
    assert_eq!(ccm.get_count(7, Gender::Female, "A"), 1);
    assert_eq!(ccm.get_count(7, Gender::Male, "B"), 100);
    assert_eq!(ccm.get_count(1, Gender::Male, "OLD"), 0);
    assert_eq!(ccm.get_count(121, Gender::Male, "A"), 0);
    assert_eq!(ccm.get_count(8, Gender::Male, "A"), 0);
    assert_eq!(ccm.get_count(7, Gender::Male, "nowhere"), 0);
    assert_eq!(ccm.total_population(), 131);
}

#[test]
fn the_export_lists_each_cohort_that_counts_somebody_once() {
    let mut ccm = CohortComponentModel::new();
    ccm.load_population(&[
        cohort_of(7, Gender::Male, "A", 10),
        cohort_of(7, Gender::Female, "A", 0),
        cohort_of(7, Gender::Male, "B", 100),
        cohort_of(7, Gender::Male, "A", 20),
        cohort_of(3, Gender::Female, "A", 4),
    ]);
    let listed: Vec<(String, u32, Gender, u64)> = ccm
        .get_cohorts()
        .into_iter()
        .map(|cohort| (cohort.region_id, cohort.age, cohort.gender, cohort.count))
        .collect();
    assert_eq!(
        listed,
        vec![
            ("A".to_string(), 3, Gender::Female, 4),
            ("A".to_string(), 7, Gender::Male, 30),
            ("B".to_string(), 7, Gender::Male, 100),
        ]
    );
}

#[test]
fn the_table_loaded_last_is_the_one_in_force() {
    let mut ccm = CohortComponentModel::new();
    ccm.load_population(&[cohort_of(10, Gender::Male, "A", 100 * ONE)]);
    ccm.load_mortality_table(flat_mortality("A", 500_000, 0));
    ccm.load_mortality_table(flat_mortality("B", 900_000, 0));
    ccm.load_mortality_table(flat_mortality("A", 100_000, 0));
    let record = ccm.project_one_year(2024, &names(&["A"]));
    assert_eq!(record.deaths, 10 * ONE);
}

#[test]
fn a_year_that_does_not_fit_moves_nobody() {
    let mut ccm = CohortComponentModel::new();
    ccm.load_population(&[cohort_of(30, Gender::Female, "A", u64::MAX - 5)]);
    ccm.load_mortality_table(flat_mortality("A", 0, 0));
    ccm.load_fertility_table(fertility("A", vec![FertilityRate { age: 30, rate: 1 }], 100 * ONE));

    assert_eq!(ccm.try_project_one_year(2024, &names(&["A"])), None);
    assert_eq!(ccm.get_count(30, Gender::Female, "A"), u64::MAX - 5);
    assert_eq!(ccm.total_population(), u64::MAX - 5);

    ccm.load_fertility_table(fertility("A", vec![], 100 * ONE));
    let record = ccm.try_project_one_year(2024, &names(&["A"])).unwrap();
    assert_eq!(record.total_population, u64::MAX - 5);
    assert_eq!(ccm.get_count(31, Gender::Female, "A"), u64::MAX - 5);
}

#[test]
fn arrivals_that_do_not_fit_are_refused() {
    let mut ccm = CohortComponentModel::new();
    ccm.load_population(&[cohort_of(30, Gender::Male, "A", u64::MAX - 5)]);
    ccm.load_mortality_table(flat_mortality("A", ONE, ONE));
    ccm.load_migration_table(MigrationTable {
        region_id: "A".to_string(),
        year: 2024,
        rates: vec![MigrationRate { age: 1, male: 6, female: 0 }],
    });
    assert_eq!(ccm.try_project_one_year(2024, &names(&["A"])), None);
    assert_eq!(ccm.try_project_one_year(2024, &names(&["B"])).map(|r| r.deaths), Some(0));
}

#[test]
fn a_population_beyond_the_largest_number_does_not_fit() {
    assert!(population_fits(&[]));
    assert!(population_fits(&[
        cohort_of(1, Gender::Male, "A", u64::MAX - 1),
        cohort_of(2, Gender::Male, "B", 1),
        cohort_of(121, Gender::Male, "B", u64::MAX),
    ]));
    assert!(!population_fits(&[
        cohort_of(1, Gender::Male, "A", u64::MAX - 1),
        cohort_of(2, Gender::Male, "B", 1),
        cohort_of(3, Gender::Female, "B", 1),
    ]));
}

#[test]
fn a_list_names_the_regions_in_it() {
    let list = names(&["CZ", "SK"]);
    assert!(names_contain(&list, "SK"));
    assert!(names_contain(&list, "CZ"));
    assert!(!names_contain(&list, "PL"));
    assert!(!names_contain(&list, "C"));
    assert!(!names_contain(&[], ""));
}

#[test]
fn a_model_starts_empty() {
    let model = CohortComponentModel::default();
    assert_eq!(model.total_population(), 0);
    assert!(model.get_cohorts().is_empty());
}

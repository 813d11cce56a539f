//! The figures that sum a population up, and the builder of populations.

use popula::engine::population::{calculate_metadata, PopulationBuilder};
use popula::types::demographic::{Cohort, Gender, Population};

const ONE: u64 = 1_000_000;

fn cohort_of(age: u32, gender: Gender, count: u64) -> Cohort {
    Cohort { age, gender, region_id: "CZ".into(), count }
}

#[test]
fn test_population_metadata() {
    let cohorts = vec![
        cohort_of(10, Gender::Male, 100 * ONE),
        cohort_of(30, Gender::Female, 100 * ONE),
        cohort_of(70, Gender::Male, 50 * ONE),
    ];

    let pop = Population::from_cohorts(cohorts);

    assert_eq!(pop.metadata.total_population, 250 * ONE);
    assert_eq!(pop.metadata.male_population, 150 * ONE);
    assert_eq!(pop.metadata.female_population, 100 * ONE);
    assert_eq!(pop.metadata.median_age, 30);
    assert_eq!(pop.metadata.sex_ratio, 150 * ONE as u128);
    assert_eq!(pop.metadata.dependency_ratio, 150 * ONE as u128);
    assert_eq!(pop.cohorts.len(), 3);
    assert_eq!(pop.scenario_id, "");
    assert_eq!(pop.year, 0);
}

#[test]
fn test_population_builder_basic() {
    let mut builder = PopulationBuilder::new("test-scenario", 2024);
    builder.set_cohort(0, Gender::Male, "CZ", 50_000 * ONE);
    builder.set_cohort(0, Gender::Female, "CZ", 48_000 * ONE);
    builder.set_cohort(30, Gender::Male, "CZ", 100_000 * ONE);
    builder.set_cohort(30, Gender::Female, "CZ", 102_000 * ONE);

    let population = builder.build();

    assert_eq!(population.scenario_id, "test-scenario");
    assert_eq!(population.year, 2024);
    assert_eq!(population.cohorts.len(), 4);
    assert_eq!(population.metadata.total_population, 300_000 * ONE);
}

#[test]
fn test_add_to_cohort() {
    let mut builder = PopulationBuilder::new("test", 2024);
    builder.add_to_cohort(25, Gender::Male, "CZ", 1000 * ONE);
    builder.add_to_cohort(25, Gender::Male, "CZ", 500 * ONE);

    assert_eq!(builder.get_cohort(25, Gender::Male, "CZ"), 1500 * ONE);
}

#[test]
fn setting_a_cohort_replaces_what_it_had() {
    let mut builder = PopulationBuilder::new("test", 2024);
    builder.set_cohort(25, Gender::Male, "CZ", 7);
    builder.add_to_cohort(25, Gender::Female, "CZ", 5);
    builder.set_cohort(25, Gender::Male, "SK", 9);
    builder.set_cohort(25, Gender::Male, "CZ", 3);
    builder.add_to_cohort(25, Gender::Male, "SK", 1);
    builder.set_cohort(500, Gender::Male, "CZ", 11);
    assert_eq!(builder.get_cohort(25, Gender::Male, "CZ"), 3);
    assert_eq!(builder.get_cohort(25, Gender::Female, "CZ"), 5);
    assert_eq!(builder.get_cohort(25, Gender::Male, "SK"), 10);
    assert_eq!(builder.get_cohort(500, Gender::Male, "CZ"), 11);
    assert_eq!(builder.get_cohort(26, Gender::Male, "CZ"), 0);
    assert_eq!(builder.get_cohort(25, Gender::Male, "PL"), 0);
    assert!(builder.fits());
}

#[test]
fn building_leaves_out_the_cohorts_that_count_nobody() {
    let mut builder = PopulationBuilder::new("s", 2030);
    builder.set_cohort(1, Gender::Male, "CZ", 4);
    builder.set_cohort(2, Gender::Male, "CZ", 0);
    builder.set_cohort(3, Gender::Female, "CZ", 6);
    builder.set_cohort(1, Gender::Male, "CZ", 0);
    let population = builder.build();
    let listed: Vec<(u32, Gender, u64)> =
        population.cohorts.iter().map(|c| (c.age, c.gender, c.count)).collect();
    assert_eq!(listed, vec![(3, Gender::Female, 6)]);
    assert_eq!(population.metadata.total_population, 6);
    assert_eq!(population.metadata.median_age, 3);
    assert_eq!(population.metadata.sex_ratio, 0);
}

#[test]
fn a_builder_beyond_the_largest_number_does_not_fit() {
    let mut builder = PopulationBuilder::new("s", 2030);
    builder.set_cohort(1, Gender::Male, "CZ", u64::MAX);
    assert!(builder.fits());
    builder.set_cohort(2, Gender::Male, "CZ", 1);
    assert!(!builder.fits());
}

#[test]
fn nobody_has_no_figures() {
    let figures = calculate_metadata(&[]);
    assert_eq!(figures.total_population, 0);
    assert_eq!(figures.male_population, 0);
    assert_eq!(figures.female_population, 0);
    assert_eq!(figures.median_age, 0);
    assert_eq!(figures.sex_ratio, 0);
    assert_eq!(figures.dependency_ratio, 0);
    let zeros = calculate_metadata(&[cohort_of(40, Gender::Male, 0)]);
    assert_eq!(zeros.median_age, 0);
}

#[test]
fn the_median_age_is_the_least_at_which_half_is_reached() {
    // Exactly half are 20 or younger.
    let even = [cohort_of(60, Gender::Male, 5), cohort_of(20, Gender::Female, 5)];
    assert_eq!(calculate_metadata(&even).median_age, 20);
    // One head short of half.
    let short = [cohort_of(60, Gender::Male, 6), cohort_of(20, Gender::Female, 5)];
    assert_eq!(calculate_metadata(&short).median_age, 60);
    // Cohorts of one age count together, in whatever order they are listed.
    let split = [
        cohort_of(50, Gender::Male, 3),
        cohort_of(10, Gender::Male, 4),
        cohort_of(30, Gender::Female, 1),
        cohort_of(30, Gender::Male, 1),
        cohort_of(90, Gender::Male, 3),
        cohort_of(0, Gender::Male, 0),
    ];
    assert_eq!(calculate_metadata(&split).median_age, 30);
    let odd = [cohort_of(7, Gender::Male, 1)];
    assert_eq!(calculate_metadata(&odd).median_age, 7);
    let far = [cohort_of(u32::MAX, Gender::Male, 9), cohort_of(3, Gender::Male, 1)];
    assert_eq!(calculate_metadata(&far).median_age, u32::MAX);
}

#[test]
fn the_ratios_are_percentages_rounded_down() {
    let cohorts = [
        cohort_of(14, Gender::Male, 100),
        cohort_of(15, Gender::Female, 300),
        cohort_of(64, Gender::Male, 0),
        cohort_of(65, Gender::Female, 1),
    ];
    let figures = calculate_metadata(&cohorts);
    assert_eq!(figures.total_population, 401);
    assert_eq!(figures.male_population, 100);
    assert_eq!(figures.female_population, 301);
    // 100 / 301 * 100 = 33.222591...
    assert_eq!(figures.sex_ratio, 33_222_591);
    // (100 + 1) / 300 * 100 = 33.666666...
    assert_eq!(figures.dependency_ratio, 33_666_666);
}

#[test]
fn without_women_or_without_working_ages_the_ratios_are_zero() {
    let men = [cohort_of(70, Gender::Male, 10), cohort_of(5, Gender::Male, 10)];
    let figures = calculate_metadata(&men);
    assert_eq!(figures.sex_ratio, 0);
    assert_eq!(figures.dependency_ratio, 0);
    assert_eq!(figures.total_population, 20);
}

#[test]
fn the_largest_population_has_its_figures() {
    let cohorts = [cohort_of(1, Gender::Male, u64::MAX - 1), cohort_of(20, Gender::Female, 1)];
    let figures = calculate_metadata(&cohorts);
    assert_eq!(figures.total_population, u64::MAX);
    assert_eq!(figures.median_age, 1);
    assert_eq!(figures.sex_ratio, (u64::MAX - 1) as u128 * 100_000_000);
    assert_eq!(figures.dependency_ratio, (u64::MAX - 1) as u128 * 100_000_000);
}

//! One year of the cohort-component method on small populations.

use popula::engine::ccm::CohortComponentModel;
use popula::types::demographic::{
    Cohort, FertilityRate, FertilityTable, Gender, MortalityRate, MortalityTable,
};

/// The fixed-point number nearest to `x`.
fn fx(x: f64) -> u64 {
    (x * 1_000_000.0).round() as u64
}

/// The real number that a fixed-point count stands for.
fn heads(x: u64) -> f64 {
    x as f64 / 1_000_000.0
}

fn amount(x: i128) -> f64 {
    x as f64 / 1_000_000.0
}

fn cohort(age: u32, gender: Gender, region: &str, count: f64) -> Cohort {
    Cohort { age, gender, region_id: region.to_string(), count: fx(count) }
}

fn minimal_population(region: &str) -> Vec<Cohort> {
    vec![
        cohort(0, Gender::Male, region, 100.0),
        cohort(0, Gender::Female, region, 100.0),
        cohort(1, Gender::Male, region, 100.0),
        cohort(1, Gender::Female, region, 100.0),
        cohort(30, Gender::Male, region, 100.0),
        cohort(30, Gender::Female, region, 100.0),
        cohort(99, Gender::Male, region, 50.0),
        cohort(99, Gender::Female, region, 50.0),
    ]
}

fn zero_mortality(region: &str) -> MortalityTable {
    MortalityTable {
        region_id: region.to_string(),
        year: 2024,
        rates: (0..=120).map(|age| MortalityRate { age, male: fx(0.0), female: fx(0.0) }).collect(),
    }
}

fn simple_mortality(region: &str) -> MortalityTable {
    MortalityTable {
        region_id: region.to_string(),
        year: 2024,
        rates: (0..=120)
            .map(|age| {
                let rate = if age == 0 {
                    0.01
                } else if age < 80 {
                    0.001
                } else {
                    0.001 + (age as f64 - 80.0) * 0.005
                };
                MortalityRate { age, male: fx(rate * 1.1), female: fx(rate) }
            })
            .collect(),
    }
}

fn total_mortality(region: &str) -> MortalityTable {
    MortalityTable {
        region_id: region.to_string(),
        year: 2024,
        rates: (0..=120).map(|age| MortalityRate { age, male: fx(1.0), female: fx(1.0) }).collect(),
    }
}

fn zero_fertility(region: &str) -> FertilityTable {
    FertilityTable {
        region_id: region.to_string(),
        year: 2024,
        rates: vec![],
        sex_ratio_at_birth: fx(105.0),
    }
}

fn simple_fertility(region: &str) -> FertilityTable {
    FertilityTable {
        region_id: region.to_string(),
        year: 2024,
        rates: vec![FertilityRate { age: 30, rate: fx(0.1) }],
        sex_ratio_at_birth: fx(105.0),
    }
}

fn regions() -> Vec<String> {
    vec!["TEST".to_string()]
}

#[test]
fn test_new_model_is_empty() {
    let ccm = CohortComponentModel::new();
    assert_eq!(heads(ccm.total_population()), 0.0);
}

#[test]
fn test_load_population() {
    let mut ccm = CohortComponentModel::new();
    ccm.load_population(&[
        cohort(0, Gender::Male, "TEST", 100.0),
        cohort(0, Gender::Female, "TEST", 100.0),
    ]);

    assert_eq!(heads(ccm.total_population()), 200.0);
    assert_eq!(heads(ccm.get_count(0, Gender::Male, "TEST")), 100.0);
    assert_eq!(heads(ccm.get_count(0, Gender::Female, "TEST")), 100.0);
}

#[test]
fn test_pure_aging_cohort_moves_up_one_year() {
    let mut ccm = CohortComponentModel::new();
    ccm.load_population(&[cohort(1, Gender::Male, "TEST", 100.0)]);
    ccm.load_mortality_table(zero_mortality("TEST"));
    ccm.load_fertility_table(zero_fertility("TEST"));

    let result = ccm.project_one_year(2024, &regions());

    assert_eq!(heads(ccm.get_count(2, Gender::Male, "TEST")), 100.0);
    assert_eq!(heads(ccm.get_count(1, Gender::Male, "TEST")), 0.0);
    assert_eq!(heads(result.deaths), 0.0);
}

#[test]
fn test_aging_at_max_age_stays_in_last_bucket() {
    let mut ccm = CohortComponentModel::new();
    ccm.load_population(&[cohort(120, Gender::Female, "TEST", 10.0)]);
    ccm.load_mortality_table(zero_mortality("TEST"));
    ccm.load_fertility_table(zero_fertility("TEST"));

    ccm.project_one_year(2024, &regions());

    assert_eq!(heads(ccm.get_count(120, Gender::Female, "TEST")), 10.0);
}

#[test]
fn test_aging_empty_cohort_remains_empty() {
    let mut ccm = CohortComponentModel::new();
    ccm.load_mortality_table(zero_mortality("TEST"));
    ccm.load_fertility_table(zero_fertility("TEST"));

    let result = ccm.project_one_year(2024, &regions());

    assert_eq!(heads(result.total_population), 0.0);
    assert_eq!(heads(result.births), 0.0);
    assert_eq!(heads(result.deaths), 0.0);
}

#[test]
fn test_mortality_reduces_population() {
    let mut ccm = CohortComponentModel::new();
    ccm.load_population(&[cohort(50, Gender::Male, "TEST", 1000.0)]);
    let mortality = MortalityTable {
        region_id: "TEST".to_string(),
        year: 2024,
        rates: vec![MortalityRate { age: 50, male: fx(0.1), female: fx(0.1) }],
    };
    ccm.load_mortality_table(mortality);
    ccm.load_fertility_table(zero_fertility("TEST"));

    let result = ccm.project_one_year(2024, &regions());

    assert!((heads(result.deaths) - 100.0).abs() < 0.01, "Expected 100 deaths, got {}", heads(result.deaths));
    assert!((heads(ccm.get_count(51, Gender::Male, "TEST")) - 900.0).abs() < 0.01);
}

#[test]
fn test_total_mortality_causes_extinction() {
    let mut ccm = CohortComponentModel::new();
    ccm.load_population(&minimal_population("TEST"));
    ccm.load_mortality_table(total_mortality("TEST"));
    ccm.load_fertility_table(zero_fertility("TEST"));

    let initial_pop = heads(ccm.total_population());

    let result = ccm.project_one_year(2024, &regions());

    assert!((heads(result.deaths) - initial_pop).abs() < 0.01);
    assert_eq!(heads(ccm.total_population()), 0.0);
}

#[test]
fn test_male_female_different_mortality() {
    let mut ccm = CohortComponentModel::new();
    ccm.load_population(&[
        cohort(50, Gender::Male, "TEST", 100.0),
        cohort(50, Gender::Female, "TEST", 100.0),
    ]);
    let mortality = MortalityTable {
        region_id: "TEST".to_string(),
        year: 2024,
        rates: vec![MortalityRate { age: 50, male: fx(0.2), female: fx(0.1) }],
    };
    ccm.load_mortality_table(mortality);
    ccm.load_fertility_table(zero_fertility("TEST"));

    ccm.project_one_year(2024, &regions());

    let males = heads(ccm.get_count(51, Gender::Male, "TEST"));
    let females = heads(ccm.get_count(51, Gender::Female, "TEST"));

    assert!((males - 80.0).abs() < 0.01, "Expected 80 males, got {}", males);
    assert!((females - 90.0).abs() < 0.01, "Expected 90 females, got {}", females);
}

#[test]
fn test_fertility_creates_births() {
    let mut ccm = CohortComponentModel::new();
    ccm.load_population(&[cohort(30, Gender::Female, "TEST", 100.0)]);
    ccm.load_mortality_table(zero_mortality("TEST"));
    ccm.load_fertility_table(simple_fertility("TEST"));

    let result = ccm.project_one_year(2024, &regions());

    assert!((heads(result.births) - 10.0).abs() < 0.01, "Expected 10 births, got {}", heads(result.births));

    let newborn_males = heads(ccm.get_count(0, Gender::Male, "TEST"));
    let newborn_females = heads(ccm.get_count(0, Gender::Female, "TEST"));
    assert!(newborn_males > 0.0, "Should have male newborns");
    assert!(newborn_females > 0.0, "Should have female newborns");
    assert!((newborn_males + newborn_females - 10.0).abs() < 0.01);
}

#[test]
fn test_sex_ratio_at_birth() {
    let mut ccm = CohortComponentModel::new();
    ccm.load_population(&[cohort(30, Gender::Female, "TEST", 1000.0)]);
    ccm.load_mortality_table(zero_mortality("TEST"));
    let fertility = FertilityTable {
        region_id: "TEST".to_string(),
        year: 2024,
        rates: vec![FertilityRate { age: 30, rate: fx(0.1) }],
        sex_ratio_at_birth: fx(100.0),
    };
    ccm.load_fertility_table(fertility);

    ccm.project_one_year(2024, &regions());

    let males = heads(ccm.get_count(0, Gender::Male, "TEST"));
    let females = heads(ccm.get_count(0, Gender::Female, "TEST"));

    assert!((males - females).abs() < 0.01, "Expected equal births, got M:{} F:{}", males, females);
}

#[test]
fn test_no_fertility_for_males() {
    let mut ccm = CohortComponentModel::new();
    ccm.load_population(&[cohort(30, Gender::Male, "TEST", 1000.0)]);
    ccm.load_mortality_table(zero_mortality("TEST"));
    ccm.load_fertility_table(simple_fertility("TEST"));

    let result = ccm.project_one_year(2024, &regions());

    assert_eq!(heads(result.births), 0.0);
}

#[test]
fn test_zero_fertility_no_births() {
    let mut ccm = CohortComponentModel::new();
    ccm.load_population(&minimal_population("TEST"));
    ccm.load_mortality_table(zero_mortality("TEST"));
    ccm.load_fertility_table(zero_fertility("TEST"));

    let result = ccm.project_one_year(2024, &regions());

    assert_eq!(heads(result.births), 0.0);
}

#[test]
fn test_full_year_projection() {
    let mut ccm = CohortComponentModel::new();
    ccm.load_population(&minimal_population("TEST"));
    ccm.load_mortality_table(simple_mortality("TEST"));
    ccm.load_fertility_table(simple_fertility("TEST"));

    let initial_pop = heads(ccm.total_population());

    let result = ccm.project_one_year(2024, &regions());

    assert!(heads(result.births) > 0.0, "Should have births");
    assert!(heads(result.deaths) > 0.0, "Should have deaths");
    assert_eq!(result.natural_change, result.births as i128 - result.deaths as i128);

    let final_pop = heads(ccm.total_population());
    let expected_change = heads(result.births) - heads(result.deaths);
    assert!((final_pop - initial_pop - expected_change).abs() < 0.1);
}

#[test]
fn test_multi_year_projection() {
    let mut ccm = CohortComponentModel::new();
    ccm.load_population(&minimal_population("TEST"));
    ccm.load_mortality_table(simple_mortality("TEST"));
    ccm.load_fertility_table(simple_fertility("TEST"));

    let mut results = Vec::new();
    for year in 2024..2029 {
        results.push(ccm.project_one_year(year, &regions()));
    }

    assert_eq!(results.len(), 5);
    for (i, result) in results.iter().enumerate() {
        assert_eq!(result.year, 2024 + i as u32);
    }
}

#[test]
fn test_growth_rate_calculation() {
    let mut ccm = CohortComponentModel::new();
    ccm.load_population(&[cohort(30, Gender::Female, "TEST", 1000.0)]);
    ccm.load_mortality_table(zero_mortality("TEST"));
    ccm.load_fertility_table(simple_fertility("TEST"));

    let result = ccm.project_one_year(2024, &regions());

    assert!((amount(result.growth_rate) - 10.0).abs() < 0.1, "Expected ~10% growth, got {}", amount(result.growth_rate));
}

#[test]
fn test_negative_count_not_possible() {
    let mut ccm = CohortComponentModel::new();
    ccm.load_population(&[cohort(50, Gender::Male, "TEST", 1.0)]);
    let mortality = MortalityTable {
        region_id: "TEST".to_string(),
        year: 2024,
        rates: vec![MortalityRate { age: 50, male: fx(1.5), female: fx(1.0) }],
    };
    ccm.load_mortality_table(mortality);
    ccm.load_fertility_table(zero_fertility("TEST"));

    ccm.project_one_year(2024, &regions());

    assert!(heads(ccm.total_population()) >= 0.0);
    assert_eq!(ccm.total_population(), 0);
}

#[test]
fn test_very_small_population() {
    let mut ccm = CohortComponentModel::new();
    ccm.load_population(&[cohort(30, Gender::Female, "TEST", 0.001)]);
    ccm.load_mortality_table(zero_mortality("TEST"));
    ccm.load_fertility_table(simple_fertility("TEST"));

    let result = ccm.project_one_year(2024, &regions());

    assert!(heads(result.births) >= 0.0);
    assert!(heads(ccm.total_population()) >= 0.0);
}

#[test]
fn test_missing_mortality_rate_defaults_to_death() {
    let mut ccm = CohortComponentModel::new();
    ccm.load_population(&[cohort(50, Gender::Male, "TEST", 100.0)]);
    let mortality = MortalityTable { region_id: "TEST".to_string(), year: 2024, rates: vec![] };
    ccm.load_mortality_table(mortality);
    ccm.load_fertility_table(zero_fertility("TEST"));

    let result = ccm.project_one_year(2024, &regions());

    assert!((heads(result.deaths) - 100.0).abs() < 0.01);
}

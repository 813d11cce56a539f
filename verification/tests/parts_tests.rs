//! The parts of the engine on their own: the tables in force, the rates of a
//! year, the cohorts of one region, and the store.

use popula::engine::cohorts::{RegionCohorts, Tally, YearRates};
use popula::engine::rates::RateRegistry;
use popula::engine::store::CohortStore;
use popula::types::demographic::{
    Cohort, FertilityRate, FertilityTable, Gender, MigrationRate, MigrationTable, MortalityRate,
    MortalityTable,
};
use popula::types::shock::{pandemic_shock, AgeTarget, Shock, ShockModifier, ShockType, Target};

const ONE: u64 = 1_000_000;

fn mortality(region: &str, rows: Vec<MortalityRate>) -> MortalityTable {
    MortalityTable { region_id: region.to_string(), year: 2024, rates: rows }
}

#[test]
fn a_table_gives_the_rate_of_the_first_row_for_an_age() {
    let table = mortality(
        "CZ",
        vec![
            MortalityRate { age: 5, male: 10, female: 20 },
            MortalityRate { age: 6, male: 30, female: 40 },
            MortalityRate { age: 5, male: 50, female: 60 },
        ],
    );
    assert_eq!(table.get_rate(5, Gender::Male), 10);
    assert_eq!(table.get_rate(5, Gender::Female), 20);
    assert_eq!(table.get_rate(6, Gender::Female), 40);
    assert_eq!(table.get_rate(7, Gender::Female), ONE);

    let births = FertilityTable {
        region_id: "CZ".to_string(),
        year: 2024,
        rates: vec![FertilityRate { age: 30, rate: 7 }, FertilityRate { age: 30, rate: 8 }],
        sex_ratio_at_birth: 105 * ONE,
    };
    assert_eq!(births.get_rate(30), 7);
    assert_eq!(births.get_rate(31), 0);

    let moves = MigrationTable {
        region_id: "CZ".to_string(),
        year: 2024,
        rates: vec![MigrationRate { age: 30, male: -7, female: 8 }],
    };
    assert_eq!(moves.get_rate(30, Gender::Male), -7);
    assert_eq!(moves.get_rate(30, Gender::Female), 8);
    assert_eq!(moves.get_rate(29, Gender::Female), 0);
}

#[test]
fn a_registry_answers_with_the_defaults_where_it_has_no_table() {
    let mut registry = RateRegistry::new();
    assert_eq!(registry.mortality_rate(30, Gender::Male, "CZ"), ONE);
    assert_eq!(registry.fertility_rate(30, "CZ"), 0);
    assert_eq!(registry.sex_ratio_at_birth("CZ"), 105 * ONE);
    assert_eq!(registry.migration_rate(30, Gender::Male, "CZ"), 0);
    assert!(registry.mortality_of("CZ").is_none());
    assert!(registry.fertility_of("CZ").is_none());
    assert!(registry.migration_of("CZ").is_none());

    registry.load_mortality_table(mortality("CZ", vec![MortalityRate { age: 30, male: 11, female: 12 }]));
    registry.load_fertility_table(FertilityTable {
        region_id: "SK".to_string(),
        year: 2024,
        rates: vec![FertilityRate { age: 30, rate: 13 }],
        sex_ratio_at_birth: 99 * ONE,
    });
    registry.load_migration_table(MigrationTable {
        region_id: "CZ".to_string(),
        year: 2024,
        rates: vec![MigrationRate { age: 30, male: 14, female: -15 }],
    });
    assert_eq!(registry.mortality_rate(30, Gender::Female, "CZ"), 12);
    assert_eq!(registry.mortality_rate(31, Gender::Female, "CZ"), ONE);
    assert_eq!(registry.mortality_rate(30, Gender::Female, "SK"), ONE);
    assert_eq!(registry.fertility_rate(30, "SK"), 13);
    assert_eq!(registry.fertility_rate(30, "CZ"), 0);
    assert_eq!(registry.sex_ratio_at_birth("SK"), 99 * ONE);
    assert_eq!(registry.sex_ratio_at_birth("CZ"), 105 * ONE);
    assert_eq!(registry.migration_rate(30, Gender::Female, "CZ"), -15);
    assert_eq!(registry.migration_rate(30, Gender::Female, "SK"), 0);
    assert_eq!(registry.mortality_of("CZ").map(|t| t.rates.len()), Some(1));
    assert!(registry.mortality_of("SK").is_none());
    assert!(registry.fertility_of("SK").is_some());

    registry.load_mortality_table(mortality("CZ", vec![]));
    assert_eq!(registry.mortality_rate(30, Gender::Female, "CZ"), ONE);
    registry.load_mortality_tables(vec![
        mortality("CZ", vec![MortalityRate { age: 30, male: 1, female: 1 }]),
        mortality("SK", vec![MortalityRate { age: 30, male: 2, female: 2 }]),
        mortality("CZ", vec![MortalityRate { age: 30, male: 3, female: 3 }]),
    ]);
    assert_eq!(registry.mortality_rate(30, Gender::Male, "CZ"), 3);
    assert_eq!(registry.mortality_rate(30, Gender::Male, "SK"), 2);
}

#[test]
fn the_rates_of_a_year_are_the_tables_after_the_shocks() {
    let mut registry = RateRegistry::new();
    registry.load_mortality_table(mortality(
        "CZ",
        (0..=120).map(|age| MortalityRate { age, male: 400_000, female: 2 * ONE }).collect(),
    ));
    registry.load_migration_table(MigrationTable {
        region_id: "CZ".to_string(),
        year: 2024,
        rates: vec![MigrationRate { age: 3, male: -9, female: 9 }],
    });
    let shocks = vec![
        pandemic_shock("p", "P", 2025, 2025, 2 * ONE, Some(65)),
        Shock {
            id: "f".to_string(),
            name: "F".to_string(),
            description: String::new(),
            shock_type: ShockType::Fertility,
            start_year: 2025,
            end_year: 2025,
            target_regions: Target::Specific(vec!["SK".to_string()]),
            target_genders: Target::All,
            target_ages: AgeTarget::All,
            modifier: ShockModifier::absolute(250_000),
        },
    ];

    let rates = YearRates::resolve(&registry, &shocks, 2025, "CZ");
    assert_eq!(rates.mortality_male.len(), 121);
    assert_eq!(rates.mortality_male[64], 400_000);
    assert_eq!(rates.mortality_male[65], 800_000);
    assert_eq!(rates.mortality_female[64], ONE);
    assert!(rates.fertility.iter().all(|rate| *rate == 0));
    assert_eq!(rates.migration_male[3], -9);
    assert_eq!(rates.migration_female[3], 9);
    assert_eq!(rates.migration_female[4], 0);
    assert_eq!(rates.sex_ratio, 105 * ONE);
    assert_eq!(rates.inflow(), 9);

    let elsewhere = YearRates::resolve(&registry, &shocks, 2025, "SK");
    assert!(elsewhere.mortality_male.iter().all(|rate| *rate == ONE));
    assert!(elsewhere.fertility.iter().all(|rate| *rate == 250_000));
    let later = YearRates::resolve(&registry, &shocks, 2026, "SK");
    assert!(later.fertility.iter().all(|rate| *rate == 0));
}

#[test]
fn a_region_is_aged_by_the_rates_of_its_year() {
    let mut region = RegionCohorts::new("CZ".to_string());
    assert_eq!(region.id(), "CZ");
    assert_eq!(region.total(), 0);
    region.deposit(30, Gender::Female, 100 * ONE);
    region.deposit(30, Gender::Female, 100 * ONE);
    region.deposit(120, Gender::Male, 8);
    assert_eq!(region.count(30, Gender::Female), 200 * ONE);
    assert_eq!(region.count(30, Gender::Male), 0);
    assert_eq!(region.count(200, Gender::Male), 0);
    assert_eq!(region.total(), 200 * ONE as u128 + 8);

    let mut rates = YearRates {
        mortality_male: vec![0; 121],
        mortality_female: vec![0; 121],
        fertility: vec![0; 121],
        migration_male: vec![0; 121],
        migration_female: vec![0; 121],
        sex_ratio: 100 * ONE,
    };
    rates.fertility[30] = 50_000;
    rates.mortality_male[120] = 250_000;
    rates.migration_female[30] = -50 * ONE as i64;
    assert_eq!(region.births(&rates), 10 * ONE);

    let (next, tally) = region.advance(&rates);
    assert_eq!(tally, Tally { births: 10 * ONE, deaths: 2, net_migration: -50 * ONE as i128 });
    assert_eq!(next.id(), "CZ");
    assert_eq!(next.count(0, Gender::Male), 5 * ONE);
    assert_eq!(next.count(0, Gender::Female), 5 * ONE);
    assert_eq!(next.count(31, Gender::Female), 150 * ONE);
    assert_eq!(next.count(30, Gender::Female), 0);
    assert_eq!(next.count(120, Gender::Male), 6);
    assert_eq!(next.total(), 160 * ONE as u128 + 6);
    // The year is a function of the region: it leaves the region as it was.
    assert_eq!(region.count(30, Gender::Female), 200 * ONE);

    let mut listed = Vec::new();
    next.export_into(&mut listed);
    let keys: Vec<(u32, Gender, u64)> = listed.iter().map(|c| (c.age, c.gender, c.count)).collect();
    assert_eq!(
        keys,
        vec![
            (0, Gender::Male, 5 * ONE),
            (0, Gender::Female, 5 * ONE),
            (31, Gender::Female, 150 * ONE),
            (120, Gender::Male, 6),
        ]
    );
    assert!(listed.iter().all(|c| c.region_id == "CZ"));
}

#[test]
fn a_store_keeps_one_block_for_each_region() {
    let mut store = CohortStore::new();
    assert_eq!(store.len(), 0);
    assert_eq!(store.total(), 0);
    store.load(&[
        Cohort { age: 1, gender: Gender::Male, region_id: "B".to_string(), count: 5 },
        Cohort { age: 1, gender: Gender::Male, region_id: "A".to_string(), count: 7 },
        Cohort { age: 2, gender: Gender::Female, region_id: "B".to_string(), count: 9 },
        Cohort { age: 40, gender: Gender::Female, region_id: "A".to_string(), count: 100 },
    ]);
    assert_eq!(store.len(), 2);
    assert_eq!(store.get(2, Gender::Female, "B"), 9);
    assert_eq!(store.get(1, Gender::Male, "A"), 7);
    assert_eq!(store.get(1, Gender::Male, "C"), 0);
    assert_eq!(store.total(), 121);
    let exported: Vec<(String, u32, u64)> =
        store.export().into_iter().map(|c| (c.region_id, c.age, c.count)).collect();
    assert_eq!(
        exported,
        vec![
            ("B".to_string(), 1, 5),
            ("B".to_string(), 2, 9),
            ("A".to_string(), 1, 7),
            ("A".to_string(), 40, 100),
        ]
    );
    store.load(&[]);
    assert_eq!(store.len(), 0);
    assert_eq!(store.total(), 0);
}

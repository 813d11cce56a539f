//! Projection runs on the rows of a request, and the answer to a ping.

use popula::engine::ccm::CohortComponentModel;
use popula::handlers::ping::{
    create_ping_response, ping_response_at, MessageEnvelope, PingRequest, WORKER_VERSION,
};
use popula::handlers::projection_handler::{
    capture_population_snapshot, run_projection, year_result, CohortSnapshot, FertilityRow,
    MigrationRow, MortalityRow, PopulationRow, ProjectionRunRequest, ProjectionYearResult,
};
use popula::handlers::scenario::{
    accept_scenario, estimated_duration_ms, scenario_from_request, CreateScenarioRequest,
};
use popula::types::demographic::{Cohort, Gender, ProjectionYear};
use popula::types::scenario::Scenario;

const ONE: u64 = 1_000_000;

fn sample_request() -> ProjectionRunRequest {
    ProjectionRunRequest {
        workspace_id: "test-ws-1".to_string(),
        base_year: 2024,
        end_year: 2026,
        sex_ratio_at_birth: 105 * ONE,
        population: vec![
            PopulationRow { age: 0, male: 1000 * ONE, female: 950 * ONE },
            PopulationRow { age: 1, male: 1000 * ONE, female: 950 * ONE },
            PopulationRow { age: 30, male: 2000 * ONE, female: 2000 * ONE },
        ],
        mortality: vec![
            MortalityRow { age: 0, male: 10_000, female: 8_000 },
            MortalityRow { age: 1, male: 1_000, female: 800 },
            MortalityRow { age: 30, male: 2_000, female: 1_000 },
        ],
        fertility: vec![FertilityRow { age: 30, rate: 100_000 }],
        migration: None,
    }
}

#[test]
fn test_run_projection_basic() {
    let request = sample_request();
    let result = run_projection(&request).unwrap();

    assert!(result.success);
    assert_eq!(result.workspace_id, "test-ws-1");
    assert_eq!(result.years.len(), 3);
}

#[test]
fn test_run_projection_has_births() {
    let request = sample_request();
    let result = run_projection(&request).unwrap();

    let year_2024 = &result.years[0];
    assert!(year_2024.births > 0, "Expected births, got {}", year_2024.births);
}

#[test]
fn test_run_projection_has_deaths() {
    let request = sample_request();
    let result = run_projection(&request).unwrap();

    let year_2024 = &result.years[0];
    assert!(year_2024.deaths > 0, "Expected deaths, got {}", year_2024.deaths);
}

#[test]
fn test_run_projection_with_migration() {
    let mut request = sample_request();
    request.migration = Some(vec![MigrationRow { age: 30, male: 100 * ONE as i64, female: 100 * ONE as i64 }]);

    let result = run_projection(&request).unwrap();

    assert!(result.success);
    let year_2024 = &result.years[0];
    assert_eq!(year_2024.net_migration, 200);
}

#[test]
fn test_run_projection_error_empty_population() {
    let mut request = sample_request();
    request.population = vec![];

    let result = run_projection(&request);

    assert!(result.is_err());
    assert!(result.unwrap_err().contains("Population"));
}

#[test]
fn test_run_projection_error_invalid_year_range() {
    let mut request = sample_request();
    request.end_year = request.base_year;

    let result = run_projection(&request);

    assert!(result.is_err());
    assert!(result.unwrap_err().contains("End year"));
}

#[test]
fn test_projection_processing_time() {
    let request = sample_request();
    let result = run_projection(&request).unwrap();

    assert!(result.processing_time_ms >= 0);
    assert!(result.processing_time_ms < 60_000);
}

#[test]
fn the_years_of_a_run_come_in_whole_heads() {
    let result = run_projection(&sample_request()).unwrap();
    assert_eq!(
        result.years,
        vec![
            ProjectionYearResult {
                year: 2024,
                total_population: 8075,
                births: 200,
                deaths: 25,
                net_migration: 0,
                natural_change: 175,
                growth_rate: 2_210_632,
            },
            ProjectionYearResult {
                year: 2025,
                total_population: 2129,
                births: 0,
                deaths: 5946,
                net_migration: 0,
                natural_change: -5946,
                growth_rate: -73_635_342,
            },
            ProjectionYearResult {
                year: 2026,
                total_population: 198,
                births: 0,
                deaths: 1931,
                net_migration: 0,
                natural_change: -1931,
                growth_rate: -90_698_444,
            },
        ]
    );
    assert_eq!(result.error, None);
}

#[test]
fn a_run_shows_the_population_before_and_after_each_year() {
    let result = run_projection(&sample_request()).unwrap();
    let snapshots = result.population_by_year.unwrap();
    assert_eq!(snapshots.len(), 4);
    assert_eq!(snapshots.iter().map(|s| s.year).collect::<Vec<_>>(), vec![2024, 2025, 2026, 2027]);
    assert_eq!(
        snapshots[0].cohorts,
        vec![
            CohortSnapshot { age: 0, male: 1000, female: 950 },
            CohortSnapshot { age: 1, male: 1000, female: 950 },
            CohortSnapshot { age: 30, male: 2000, female: 2000 },
        ]
    );
    assert_eq!((snapshots[0].total_male, snapshots[0].total_female, snapshots[0].total), (4000, 3900, 7900));
    assert_eq!(
        snapshots[1].cohorts,
        vec![
            CohortSnapshot { age: 0, male: 102, female: 98 },
            CohortSnapshot { age: 1, male: 990, female: 942 },
            CohortSnapshot { age: 2, male: 999, female: 949 },
            CohortSnapshot { age: 31, male: 1996, female: 1998 },
        ]
    );
    assert_eq!(snapshots[1].total, 102 + 98 + 990 + 942 + 999 + 949 + 1996 + 1998);
    assert_eq!(snapshots[3].cohorts, vec![CohortSnapshot { age: 2, male: 101, female: 97 }]);
    assert_eq!((snapshots[3].total_male, snapshots[3].total_female, snapshots[3].total), (101, 97, 198));
}

#[test]
fn a_run_reports_what_the_request_held() {
    let mut request = sample_request();
    request.migration = Some(vec![MigrationRow { age: 30, male: 1, female: 1 }]);
    request.population.push(PopulationRow { age: 5, male: 499_999, female: 500_000 });
    let stats = run_projection(&request).unwrap().input_stats.unwrap();
    assert_eq!(stats.population_rows, 4);
    assert_eq!(stats.mortality_rows, 3);
    assert_eq!(stats.fertility_rows, 1);
    assert_eq!(stats.migration_rows, 1);
    assert_eq!(stats.male_population, 4000);
    assert_eq!(stats.female_population, 3901);
    assert_eq!(stats.total_initial_population, 7901);
    assert_eq!((stats.base_year, stats.end_year, stats.years_projected), (2024, 2026, 3));
}

#[test]
fn each_thing_wrong_with_a_request_has_its_message() {
    let mut request = sample_request();
    request.mortality = vec![];
    request.fertility = vec![];
    request.end_year = 2000;
    assert_eq!(run_projection(&request).unwrap_err(), "Mortality data is required");
    request.mortality = sample_request().mortality;
    assert_eq!(run_projection(&request).unwrap_err(), "Fertility data is required");
    request.fertility = sample_request().fertility;
    assert_eq!(run_projection(&request).unwrap_err(), "End year must be greater than base year");
    request.population = vec![];
    assert_eq!(run_projection(&request).unwrap_err(), "Population data is required");
}

#[test]
fn a_request_beyond_the_largest_number_is_refused() {
    let mut request = sample_request();
    request.population.push(PopulationRow { age: 200, male: u64::MAX, female: 0 });
    assert_eq!(run_projection(&request).unwrap_err(), "Population exceeds the representable range");

    let mut growing = sample_request();
    growing.population = vec![PopulationRow { age: 30, male: 0, female: u64::MAX }];
    growing.mortality = vec![MortalityRow { age: 30, male: 0, female: 0 }];
    assert_eq!(run_projection(&growing).unwrap_err(), "Population exceeds the representable range");
}

#[test]
fn empty_migration_rows_are_no_table() {
    let mut request = sample_request();
    request.migration = Some(vec![]);
    let with = run_projection(&request).unwrap();
    let without = run_projection(&sample_request()).unwrap();
    assert_eq!(with.years, without.years);
    assert_eq!(with.input_stats.unwrap().migration_rows, 0);
}

#[test]
fn whole_heads_round_halves_away_from_zero() {
    let record = ProjectionYear {
        year: 2030,
        total_population: 1_500_000,
        births: 499_999,
        deaths: 500_000,
        net_migration: -1_500_000,
        natural_change: -1_499_999,
        growth_rate: -7,
    };
    assert_eq!(
        year_result(&record),
        ProjectionYearResult {
            year: 2030,
            total_population: 2,
            births: 0,
            deaths: 1,
            net_migration: -2,
            natural_change: -1,
            growth_rate: -7,
        }
    );
}

#[test]
fn a_snapshot_shows_one_region_by_age() {
    let mut ccm = CohortComponentModel::new();
    ccm.load_population(&[
        Cohort { age: 9, gender: Gender::Female, region_id: "A".to_string(), count: 2_500_000 },
        Cohort { age: 3, gender: Gender::Male, region_id: "A".to_string(), count: 1 },
        Cohort { age: 3, gender: Gender::Male, region_id: "B".to_string(), count: 70 * ONE },
    ]);
    let snapshot = capture_population_snapshot(&ccm, "A", 2031);
    assert_eq!(snapshot.year, 2031);
    assert_eq!(
        snapshot.cohorts,
        vec![
            CohortSnapshot { age: 3, male: 0, female: 0 },
            CohortSnapshot { age: 9, male: 0, female: 3 },
        ]
    );
    assert_eq!((snapshot.total_male, snapshot.total_female, snapshot.total), (0, 3, 3));
    assert!(capture_population_snapshot(&ccm, "C", 2031).cohorts.is_empty());
}

#[test]
fn test_create_ping_response_contains_original_message() {
    let request = PingRequest { message: "Hello from TypeScript!".to_string() };

    let response = create_ping_response(&request);

    assert_eq!(response.original_message, "Hello from TypeScript!");
}

#[test]
fn test_create_ping_response_has_greeting() {
    let request = PingRequest { message: "Test".to_string() };

    let response = create_ping_response(&request);

    assert!(response.reply.contains("Hello from Rust!"));
    assert!(response.reply.contains("Test"));
    assert_eq!(response.reply, "Hello from Rust! You said: 'Test'");
}

#[test]
fn test_create_ping_response_includes_version() {
    let request = PingRequest { message: "Version check".to_string() };

    let response = create_ping_response(&request);

    assert_eq!(response.worker_version, WORKER_VERSION);
    assert_eq!(response.worker_version, "0.1.0");
}

#[test]
fn test_create_ping_response_has_timestamp() {
    let request = PingRequest { message: "Timestamp check".to_string() };

    let response = create_ping_response(&request);

    assert!(response.processed_at.contains("T"));
    assert!(response.processed_at.len() > 10);
}

#[test]
fn a_ping_is_answered_as_of_the_time_given() {
    let request = PingRequest { message: "it's".to_string() };
    let response = ping_response_at(&request, "2026-01-07T12:00:00Z".to_string());
    assert_eq!(response.processed_at, "2026-01-07T12:00:00Z");
    assert_eq!(response.reply, "Hello from Rust! You said: 'it's'");
    assert_eq!(response.original_message, "it's");
}

#[test]
fn an_envelope_keeps_the_exchange_it_is_given() {
    let payload = PingRequest { message: "Test".to_string() };
    let envelope = MessageEnvelope::new(payload.clone(), Some("corr-123".to_string()));
    assert_eq!(envelope.correlation_id, "corr-123");
    assert_eq!(envelope.payload, payload);
    assert_eq!(envelope.id.len(), 36);
    assert!(envelope.timestamp.contains('T'));

    let fresh = MessageEnvelope::new(payload, None);
    assert_eq!(fresh.correlation_id.len(), 36);
    assert_ne!(fresh.correlation_id, fresh.id);
    assert_ne!(fresh.id, envelope.id);

    let stamped = MessageEnvelope::stamped(7u8, "id".into(), "now".into(), None, "other".into());
    assert_eq!((stamped.id.as_str(), stamped.timestamp.as_str()), ("id", "now"));
    assert_eq!(stamped.correlation_id, "other");
    assert_eq!(stamped.payload, 7);
    let given = MessageEnvelope::stamped(7u8, "id".into(), "now".into(), Some("mine".into()), "other".into());
    assert_eq!(given.correlation_id, "mine");
}

#[test]
fn a_projection_is_estimated_at_ten_milliseconds_a_year() {
    let mut scenario = Scenario {
        id: "s".into(),
        name: "s".into(),
        description: String::new(),
        base_year: 2024,
        end_year: 2050,
        regions: vec![],
        shocks: vec![],
        created_at: String::new(),
        updated_at: String::new(),
    };
    assert_eq!(estimated_duration_ms(&scenario), 260);
    scenario.end_year = 2000;
    assert_eq!(estimated_duration_ms(&scenario), 0);
}

#[test]
fn a_submission_becomes_a_scenario() {
    let request = CreateScenarioRequest {
        name: "Baseline".to_string(),
        description: None,
        base_year: 2024,
        end_year: 2034,
        regions: vec!["CZ".to_string(), "SK".to_string()],
        shocks: vec![],
    };
    let scenario = scenario_from_request(request.clone(), "id-7".to_string(), "2026-01-07T12:00:00Z".to_string());
    assert_eq!(scenario.id, "id-7");
    assert_eq!(scenario.name, "Baseline");
    assert_eq!(scenario.description, "");
    assert_eq!((scenario.base_year, scenario.end_year), (2024, 2034));
    assert_eq!(scenario.regions, vec!["CZ".to_string(), "SK".to_string()]);
    assert!(scenario.shocks.is_empty());
    assert_eq!(scenario.created_at, "2026-01-07T12:00:00Z");
    assert_eq!(scenario.updated_at, "2026-01-07T12:00:00Z");

    let mut described = request;
    described.description = Some("What if".to_string());
    let accepted = accept_scenario(described, "id-8".to_string(), "now".to_string());
    assert_eq!(accepted.scenario.description, "What if");
    assert_eq!(accepted.scenario.id, "id-8");
    assert_eq!(accepted.estimated_duration_ms, 100);
}

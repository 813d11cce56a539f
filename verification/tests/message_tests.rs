//! Messages, subjects, storage kinds, and the arithmetic of fixed-point numbers.

use popula::fixed::{
    clamp_rate, growth_rate, percent_of, round_whole, round_whole_signed, scale_down,
    scale_saturating, take_share, SCALE,
};
use popula::storage::{find_year, population_key, years_between, StorageConfig};
use popula::types::demographic::ProjectionYear;
use popula::types::messages::{ErrorPayload, Message};
use popula::types::subjects::{
    projection_error, projection_progress, projection_result, scenario_accepted,
    scenario_rejected, SCENARIO_SUBMIT,
};

#[test]
fn subjects_name_what_they_are_about() {
    assert_eq!(SCENARIO_SUBMIT, "popula.scenario.submit");
    assert_eq!(scenario_accepted("42"), "popula.scenario.42.accepted");
    assert_eq!(scenario_rejected("42"), "popula.scenario.42.rejected");
    assert_eq!(projection_progress("a.b"), "popula.projection.a.b.progress");
    assert_eq!(projection_result(""), "popula.projection..result");
    assert_eq!(projection_error("é"), "popula.projection.é.error");
}

#[test]
fn a_message_keeps_the_exchange_it_is_given() {
    let message = Message::new(5u32, Some("corr-1".to_string()));
    assert_eq!(message.payload, 5);
    assert_eq!(message.correlation_id, "corr-1");
    assert_eq!(message.id.len(), 36);
    assert_eq!(message.id.matches('-').count(), 4);
    assert!(message.timestamp.contains('T'));
    assert!(message.timestamp.starts_with("20"));

    let fresh = Message::new(5u32, None);
    assert_eq!(fresh.correlation_id.len(), 36);
    assert_ne!(fresh.correlation_id, fresh.id);
    assert_ne!(fresh.id, message.id);
}

#[test]
fn a_stamped_message_is_what_it_was_given() {
    let message = Message::stamped("p", "id-1".to_string(), "t-1".to_string(), None, "c-2".to_string());
    assert_eq!(message.payload, "p");
    assert_eq!(message.id, "id-1");
    assert_eq!(message.timestamp, "t-1");
    assert_eq!(message.correlation_id, "c-2");
    let given = Message::stamped("p", "id-1".to_string(), "t-1".to_string(), Some("c-1".to_string()), "c-2".to_string());
    assert_eq!(given.correlation_id, "c-1");
}

#[test]
fn an_error_message_has_no_details() {
    let report = Message::<ErrorPayload>::from_error("E42", "it broke", "corr-9");
    assert_eq!(report.payload.code, "E42");
    assert_eq!(report.payload.message, "it broke");
    assert!(report.payload.details.is_none());
    assert_eq!(report.correlation_id, "corr-9");
}

#[test]
fn only_storage_in_memory_is_at_hand() {
    assert!(StorageConfig::Memory.is_available());
    assert!(!StorageConfig::Sqlite { path: "a.db".to_string() }.is_available());
    assert!(!StorageConfig::DuckDb { path: "a.duckdb".to_string() }.is_available());
}

#[test]
fn products_and_shares_round_down() {
    assert_eq!(SCALE, 1_000_000);
    assert_eq!(scale_down(100_000_000, 100_000), 10_000_000);
    assert_eq!(scale_down(7, 999_999), 6);
    assert_eq!(scale_down(u64::MAX, SCALE), u64::MAX);
    assert_eq!(scale_down(u64::MAX, 0), 0);
    assert_eq!(scale_saturating(u64::MAX, 2 * SCALE), u64::MAX);
    assert_eq!(scale_saturating(3, 1_500_000), 4);
    assert_eq!(take_share(10_000_000, 105_000_000, 100_000_000), 5_121_951);
    assert_eq!(take_share(9, 1, 1), 4);
    assert_eq!(take_share(9, 0, 1), 0);
    assert_eq!(take_share(u64::MAX, u64::MAX, 1), u64::MAX - 1);
    assert_eq!(clamp_rate(1_000_001), SCALE);
    assert_eq!(clamp_rate(999_999), 999_999);
}

#[test]
fn percentages_and_growth() {
    assert_eq!(percent_of(1, 3), 33_333_333);
    assert_eq!(percent_of(3, 1), 300_000_000);
    assert_eq!(percent_of(5, 0), 0);
    assert_eq!(percent_of(0, 5), 0);
    assert_eq!(growth_rate(1000 * SCALE, 1100 * SCALE), 10_000_000);
    assert_eq!(growth_rate(1000 * SCALE, 900 * SCALE), -10_000_000);
    assert_eq!(growth_rate(3, 2), -33_333_333);
    assert_eq!(growth_rate(3, 4), 33_333_333);
    assert_eq!(growth_rate(0, 0), 0);
    assert_eq!(growth_rate(0, 1), 100_000_000);
    assert_eq!(growth_rate(7, 0), -100_000_000);
    assert_eq!(growth_rate(1, u64::MAX), (u64::MAX as i128 - 1) * 100_000_000);
}

#[test]
fn whole_numbers_are_the_nearest() {
    assert_eq!(round_whole(0), 0);
    assert_eq!(round_whole(499_999), 0);
    assert_eq!(round_whole(500_000), 1);
    assert_eq!(round_whole(1_499_999), 1);
    assert_eq!(round_whole(u64::MAX), 18_446_744_073_710);
    assert_eq!(round_whole_signed(-499_999), 0);
    assert_eq!(round_whole_signed(-500_000), -1);
    assert_eq!(round_whole_signed(2_500_000), 3);
    assert_eq!(round_whole_signed(-(u64::MAX as i128)), -18_446_744_073_710);
}

fn record(year: u32, births: u64) -> ProjectionYear {
    ProjectionYear {
        year,
        total_population: 0,
        births,
        deaths: 0,
        net_migration: 0,
        natural_change: 0,
        growth_rate: 0,
    }
}

#[test]
fn a_storage_finds_the_years_it_is_asked_for() {
    let years = vec![record(2024, 1), record(2025, 2), record(2026, 3), record(2025, 4), record(2027, 5)];
    assert_eq!(find_year(&years, 2025), Some(record(2025, 2)));
    assert_eq!(find_year(&years, 2027), Some(record(2027, 5)));
    assert_eq!(find_year(&years, 2023), None);
    assert_eq!(find_year(&vec![], 2023), None);
    assert_eq!(
        years_between(&years, 2025, 2026),
        vec![record(2025, 2), record(2026, 3), record(2025, 4)]
    );
    assert_eq!(years_between(&years, 2027, 2027), vec![record(2027, 5)]);
    assert_eq!(years_between(&years, 2026, 2025), vec![]);
    assert_eq!(years_between(&years, 0, u32::MAX), years);
}

#[test]
fn a_population_is_kept_under_its_scenario_and_year() {
    assert_eq!(population_key("run-1", 2024), "run-1:2024");
    assert_eq!(population_key("", 0), ":0");
}

//! Age groups, shocks and scenarios.

use popula::types::demographic::{AgeGroup, Gender};
use popula::types::scenario::Scenario;
use popula::types::shock::{AgeTarget, Shock, ShockModifier, ShockType, Target};

#[test]
fn test_age_group_contains() {
    let group = AgeGroup::range(18, 65);
    assert!(group.contains(18));
    assert!(group.contains(40));
    assert!(group.contains(65));
    assert!(!group.contains(17));
    assert!(!group.contains(66));
}

#[test]
fn age_group_all_and_single_year() {
    let all = AgeGroup::all();
    assert!(all.contains(0));
    assert!(all.contains(120));
    assert!(!all.contains(121));
    let one = AgeGroup::single_year(42);
    assert!(one.contains(42));
    assert!(!one.contains(41));
    assert!(!one.contains(43));
}

fn create_test_scenario() -> Scenario {
    Scenario {
        id: "test-1".to_string(),
        name: "Test Scenario".to_string(),
        description: "A test scenario".to_string(),
        base_year: 2024,
        end_year: 2050,
        regions: vec!["CZ".to_string()],
        shocks: vec![],
        created_at: "2024-01-01T00:00:00Z".to_string(),
        updated_at: "2024-01-01T00:00:00Z".to_string(),
    }
}

#[test]
fn test_valid_scenario() {
    let scenario = create_test_scenario();
    let result = scenario.validate();
    assert!(result.valid);
    assert!(result.errors.is_empty());
}

#[test]
fn test_invalid_year_range() {
    let mut scenario = create_test_scenario();
    scenario.base_year = 2050;
    scenario.end_year = 2024;

    let result = scenario.validate();
    assert!(!result.valid);
    assert!(result.errors.iter().any(|e| e.contains("Base year must be before")));
}

#[test]
fn test_projection_years() {
    let scenario = create_test_scenario();
    assert_eq!(scenario.projection_years(), 26);
}

#[test]
fn projection_years_of_a_backward_scenario_are_none() {
    let mut scenario = create_test_scenario();
    scenario.base_year = 2050;
    scenario.end_year = 2024;
    assert_eq!(scenario.projection_years(), 0);
}

fn shock_for(name: &str, start_year: u32, end_year: u32) -> Shock {
    Shock {
        id: name.to_string(),
        name: name.to_string(),
        description: String::new(),
        shock_type: ShockType::Mortality,
        start_year,
        end_year,
        target_regions: Target::All,
        target_genders: Target::All,
        target_ages: AgeTarget::All,
        modifier: ShockModifier::multiplier(1_500_000),
    }
}

#[test]
fn every_rule_has_its_message_in_order() {
    let scenario = Scenario {
        id: "  \t".to_string(),
        name: String::new(),
        description: String::new(),
        base_year: 2300,
        end_year: 1900,
        regions: vec![],
        shocks: vec![shock_for("early", 1800, 1850), shock_for("late", 2400, 2500)],
        created_at: String::new(),
        updated_at: String::new(),
    };
    let result = scenario.validate();
    assert!(!result.valid);
    assert_eq!(
        result.errors,
        vec![
            "Scenario ID is required".to_string(),
            "Scenario name is required".to_string(),
            "Base year must be before end year".to_string(),
            "Base year must be between 1950 and 2100".to_string(),
            "End year must be between 1950 and 2200".to_string(),
            "At least one region is required".to_string(),
            "Shock 'early' starts before scenario base year".to_string(),
            "Shock 'late' ends after scenario end year".to_string(),
        ]
    );
}

#[test]
fn a_shock_outside_the_years_is_an_error() {
    let mut scenario = create_test_scenario();
    scenario.shocks = vec![shock_for("inside", 2030, 2040), shock_for("both", 2000, 2060)];
    let result = scenario.validate();
    assert!(!result.valid);
    assert_eq!(
        result.errors,
        vec![
            "Shock 'both' starts before scenario base year".to_string(),
            "Shock 'both' ends after scenario end year".to_string(),
        ]
    );
}

#[test]
fn years_at_the_bounds_are_valid() {
    let mut scenario = create_test_scenario();
    scenario.base_year = 1950;
    scenario.end_year = 2200;
    assert!(scenario.validate().valid);
    scenario.base_year = 2100;
    assert!(scenario.validate().valid);
    scenario.base_year = 2101;
    assert!(!scenario.validate().valid);
    scenario.base_year = 1949;
    assert!(!scenario.validate().valid);
    scenario.base_year = 2000;
    scenario.end_year = 2201;
    assert!(!scenario.validate().valid);
}

#[test]
fn blank_names_count_unicode_white_space() {
    let mut scenario = create_test_scenario();
    scenario.name = "\u{2003}\u{00a0}\n".to_string();
    let result = scenario.validate();
    assert_eq!(result.errors, vec!["Scenario name is required".to_string()]);
    scenario.name = "\u{2003}x".to_string();
    assert!(scenario.validate().valid);
    scenario.name = "\u{200b}".to_string();
    assert!(scenario.validate().valid);
}

#[test]
fn projection_test_shock_applies() {
    let shock = Shock {
        id: "test".to_string(),
        name: "Test Shock".to_string(),
        description: String::new(),
        shock_type: ShockType::Mortality,
        start_year: 2025,
        end_year: 2026,
        target_regions: Target::Specific(vec![]),
        target_genders: Target::Specific(vec![]),
        target_ages: AgeTarget::Range(AgeGroup { min: 65, max: 120 }),
        modifier: ShockModifier::multiplier(1_500_000),
    };

    assert!(shock.applies_to(2025, "CZ", Gender::Male, 70));
    assert!(!shock.applies_to(2024, "CZ", Gender::Male, 70));
    assert!(!shock.applies_to(2025, "CZ", Gender::Male, 30));
}

#[test]
fn test_shock_modifier_multiplier() {
    let modifier = ShockModifier::multiplier(1_500_000);
    assert_eq!(modifier.apply(100_000_000), 150_000_000);
}

#[test]
fn test_shock_modifier_absolute() {
    let modifier = ShockModifier::absolute(50_000_000);
    assert_eq!(modifier.apply(100_000_000), 150_000_000);
}

#[test]
fn modifiers_hold_a_rate_within_what_can_be_written() {
    assert_eq!(ShockModifier::absolute(-50_000_000).apply(20_000_000), 0);
    assert_eq!(ShockModifier::absolute(i64::MAX).apply(u64::MAX), u64::MAX);
    assert_eq!(ShockModifier::multiplier(u64::MAX).apply(u64::MAX), u64::MAX);
    assert_eq!(ShockModifier::multiplier(0).apply(123), 0);
    assert_eq!(ShockModifier::multiplier(333_333).apply(10), 3);
    assert_eq!(ShockModifier::Function { expression: "x * 2".to_string() }.apply(77), 77);
}

#[test]
fn filters_let_pass_what_they_name() {
    let mut shock = shock_for("s", 2025, 2026);
    shock.target_regions = Target::Specific(vec!["CZ".to_string(), "SK".to_string()]);
    shock.target_genders = Target::Specific(vec![Gender::Female]);
    assert!(shock.applies(2025, 30, Gender::Female, "SK"));
    assert!(shock.applies(2026, 30, Gender::Female, "CZ"));
    assert!(!shock.applies(2026, 30, Gender::Female, "PL"));
    assert!(!shock.applies(2026, 30, Gender::Male, "CZ"));
    assert!(!shock.applies(2027, 30, Gender::Female, "CZ"));
    assert!(Target::<String>::All.is_all());
    assert!(!Target::Specific(vec![Gender::Male]).is_all());
    assert!(AgeTarget::All.contains(500));
    assert!(!AgeTarget::Range(AgeGroup::range(1, 2)).contains(3));
}

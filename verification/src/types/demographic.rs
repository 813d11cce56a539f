//! Cohorts, rate tables and projection records.

use vstd::prelude::*;
use crate::fixed::SCALE;

verus! {

/// The oldest age of the model. It stands for "this age and older": nobody
/// ages out of it.
pub const MAX_AGE: u32 = 120;

/// The number of single-year ages, `0..=MAX_AGE`.
pub const AGE_COUNT: usize = 121;

/// The youngest and the oldest age at which women bear children.
pub const FERTILITY_MIN_AGE: u32 = 15;

/// See `FERTILITY_MIN_AGE`.
pub const FERTILITY_MAX_AGE: u32 = 49;

/// The sex ratio at birth where no fertility table gives one: 105 boys to
/// 100 girls.
pub const DEFAULT_SEX_RATIO: u64 = 105_000_000;

/// The girls to whom a sex ratio counts the boys: 100.
pub const SEX_RATIO_BASE: u64 = 100_000_000;

/// The two genders by which the model counts.
#[derive(Debug, Clone, Copy, PartialEq, Eq, Hash, Structural)]
pub enum Gender {
    Male,
    Female,
}

/// A closed range of ages.
#[derive(Debug, Clone, Copy, PartialEq, Eq, Structural)]
pub struct AgeGroup {
    pub min: u32,
    pub max: u32,
}

impl AgeGroup {
    /// Whether `age` lies in the group, its bounds included.
    pub open spec fn spec_contains(&self, age: u32) -> bool {
        self.min <= age <= self.max
    }

    /// Every age of the model.
    pub fn all() -> (group: Self)
        ensures
            group == (AgeGroup { min: 0, max: MAX_AGE }),
            forall|age: u32| age <= MAX_AGE ==> group.spec_contains(age),
    {
        AgeGroup { min: 0, max: MAX_AGE }
    }

    /// The group of one age.
    pub fn single_year(age: u32) -> (group: Self)
        ensures
            group == (AgeGroup { min: age, max: age }),
            forall|other: u32| group.spec_contains(other) <==> other == age,
    {
        AgeGroup { min: age, max: age }
    }

    /// The group of the ages from `min` to `max`; of no age where `min` is the
    /// greater.
    pub fn range(min: u32, max: u32) -> (group: Self)
        ensures
            group == (AgeGroup { min, max }),
    {
        AgeGroup { min, max }
    }

    /// Whether `age` lies in the group, its bounds included.
    #[verifier::when_used_as_spec(spec_contains)]
    pub fn contains(&self, age: u32) -> (inside: bool)
        ensures
            inside == self.spec_contains(age),
    {
        age >= self.min && age <= self.max
    }
}

/// A geographic region.
#[derive(Debug, Clone)]
pub struct Region {
    pub id: String,
    pub name: String,
    pub parent_id: Option<String>,
}

/// The head count of one age, gender and region.
#[derive(Debug, Clone)]
pub struct Cohort {
    pub age: u32,
    pub gender: Gender,
    pub region_id: String,
    /// The heads, in millionths of a head.
    pub count: u64,
}

/// The figures that sum a population up. The two ratios are percentages.
#[derive(Debug, Clone, Copy, PartialEq, Eq, Structural)]
pub struct PopulationMetadata {
    /// All heads, in millionths of a head; so are the men and the women.
    pub total_population: u64,
    pub male_population: u64,
    pub female_population: u64,
    /// The median age in whole years.
    pub median_age: u32,
    /// The men to 100 women, in millionths.
    pub sex_ratio: u128,
    /// Those younger or older than the working ages to 100 of the working
    /// ages, in millionths.
    pub dependency_ratio: u128,
}

/// A population at one point in time: its cohorts and what sums them up.
#[derive(Debug, Clone)]
pub struct Population {
    pub scenario_id: String,
    pub year: u32,
    pub cohorts: Vec<Cohort>,
    pub metadata: PopulationMetadata,
}

/// The probability of dying within the year at one age.
#[derive(Debug, Clone, Copy, PartialEq, Eq, Structural)]
pub struct MortalityRate {
    pub age: u32,
    /// The rates, in millionths: `1_000_000` is 1.0, everybody.
    pub male: u64,
    pub female: u64,
}

impl MortalityRate {
    /// The rate of one gender.
    pub open spec fn of(self, gender: Gender) -> u64 {
        match gender {
            Gender::Male => self.male,
            Gender::Female => self.female,
        }
    }
}

/// The mortality of one region by age and gender.
#[derive(Debug, Clone)]
pub struct MortalityTable {
    pub region_id: String,
    pub year: u32,
    pub rates: Vec<MortalityRate>,
}

impl MortalityTable {
    /// The rate of the first row at or after `from` that is for `age`; 1.0,
    /// the whole cohort, where there is none.
    pub open spec fn rate_from(rates: Seq<MortalityRate>, age: u32, gender: Gender, from: int) -> u64
        decreases rates.len() - from,
    {
        if from < 0 || from >= rates.len() {
            SCALE
        } else if rates[from].age == age {
            rates[from].of(gender)
        } else {
            Self::rate_from(rates, age, gender, from + 1)
        }
    }

    /// The rate that the table gives for `age` and `gender`.
    pub open spec fn spec_rate(self, age: u32, gender: Gender) -> u64 {
        Self::rate_from(self.rates@, age, gender, 0)
    }

    /// The death rate at `age` for `gender`: that of the first row for the age,
    /// and 1.0 where the table has no row for it.
    pub fn get_rate(&self, age: u32, gender: Gender) -> (rate: u64)
        ensures
            rate == self.spec_rate(age, gender),
    {
        let n: usize = self.rates.len();
        let mut i: usize = 0;
        while i < n
            invariant
                n == self.rates@.len(),
                i <= n,
                self.spec_rate(age, gender) == Self::rate_from(self.rates@, age, gender, i as int),
            decreases n - i,
        {
            if self.rates[i].age == age {
                let row: MortalityRate = self.rates[i];
                return match gender {
                    Gender::Male => row.male,
                    Gender::Female => row.female,
                };
            }
            i += 1;
        }
        SCALE
    }
}

/// The births per woman within the year at one age of the mother.
#[derive(Debug, Clone, Copy, PartialEq, Eq, Structural)]
pub struct FertilityRate {
    pub age: u32,
    /// The rate, in millionths: `100_000` is one child to ten women.
    pub rate: u64,
}

/// The fertility of one region by the mother's age, and its sex ratio at
/// birth: boys born to 100 girls.
#[derive(Debug, Clone)]
pub struct FertilityTable {
    pub region_id: String,
    pub year: u32,
    pub rates: Vec<FertilityRate>,
    /// The boys born to 100 girls, in millionths: `105_000_000` is 105.
    pub sex_ratio_at_birth: u64,
}

impl FertilityTable {
    /// The rate of the first row at or after `from` that is for `age`; zero
    /// where there is none.
    pub open spec fn rate_from(rates: Seq<FertilityRate>, age: u32, from: int) -> u64
        decreases rates.len() - from,
    {
        if from < 0 || from >= rates.len() {
            0
        } else if rates[from].age == age {
            rates[from].rate
        } else {
            Self::rate_from(rates, age, from + 1)
        }
    }

    /// The rate that the table gives for mothers of `age`.
    pub open spec fn spec_rate(self, age: u32) -> u64 {
        Self::rate_from(self.rates@, age, 0)
    }

    /// The birth rate of mothers of `age`: that of the first row for the age,
    /// and zero where the table has no row for it.
    pub fn get_rate(&self, age: u32) -> (rate: u64)
        ensures
            rate == self.spec_rate(age),
    {
        let n: usize = self.rates.len();
        let mut i: usize = 0;
        while i < n
            invariant
                n == self.rates@.len(),
                i <= n,
                self.spec_rate(age) == Self::rate_from(self.rates@, age, i as int),
            decreases n - i,
        {
            if self.rates[i].age == age {
                return self.rates[i].rate;
            }
            i += 1;
        }
        0
    }
}

/// The net number of migrants within the year at one age: arrivals less
/// departures.
#[derive(Debug, Clone, Copy, PartialEq, Eq, Structural)]
pub struct MigrationRate {
    pub age: u32,
    /// The net migrants, in millionths of a head; negative where more leave
    /// than arrive.
    pub male: i64,
    pub female: i64,
}

impl MigrationRate {
    /// The net migration of one gender.
    pub open spec fn of(self, gender: Gender) -> i64 {
        match gender {
            Gender::Male => self.male,
            Gender::Female => self.female,
        }
    }
}

/// The net migration of one region by age and gender, in heads, not as a rate.
#[derive(Debug, Clone)]
pub struct MigrationTable {
    pub region_id: String,
    pub year: u32,
    pub rates: Vec<MigrationRate>,
}

impl MigrationTable {
    /// The net migration of the first row at or after `from` that is for `age`;
    /// zero where there is none.
    pub open spec fn rate_from(rates: Seq<MigrationRate>, age: u32, gender: Gender, from: int) -> i64
        decreases rates.len() - from,
    {
        if from < 0 || from >= rates.len() {
            0
        } else if rates[from].age == age {
            rates[from].of(gender)
        } else {
            Self::rate_from(rates, age, gender, from + 1)
        }
    }

    /// The net migration that the table gives for `age` and `gender`.
    pub open spec fn spec_rate(self, age: u32, gender: Gender) -> i64 {
        Self::rate_from(self.rates@, age, gender, 0)
    }

    /// The net migration at `age` for `gender`: that of the first row for the
    /// age, and zero where the table has no row for it.
    pub fn get_rate(&self, age: u32, gender: Gender) -> (net: i64)
        ensures
            net == self.spec_rate(age, gender),
    {
        let n: usize = self.rates.len();
        let mut i: usize = 0;
        while i < n
            invariant
                n == self.rates@.len(),
                i <= n,
                self.spec_rate(age, gender) == Self::rate_from(self.rates@, age, gender, i as int),
            decreases n - i,
        {
            if self.rates[i].age == age {
                let row: MigrationRate = self.rates[i];
                return match gender {
                    Gender::Male => row.male,
                    Gender::Female => row.female,
                };
            }
            i += 1;
        }
        0
    }
}

/// What one projected year did to the population.
#[derive(Debug, Clone, Copy, PartialEq, Eq, Structural)]
pub struct ProjectionYear {
    pub year: u32,
    /// The population at the end of the year, in millionths of a head; so are
    /// the births, the deaths and the two figures after them.
    pub total_population: u64,
    pub births: u64,
    pub deaths: u64,
    /// The migrants gained, net of those lost.
    pub net_migration: i128,
    /// The births less the deaths.
    pub natural_change: i128,
    /// The growth of the population within the year as a percentage of the
    /// population at its start, in millionths of a percent.
    pub growth_rate: i128,
}

/// The years of one projection run.
#[derive(Debug, Clone)]
pub struct ProjectionResult {
    pub scenario_id: String,
    pub computed_at: String,
    pub compute_time_ms: u64,
    pub base_year: u32,
    pub end_year: u32,
    pub years: Vec<ProjectionYear>,
}

/// How far a projection run has come.
#[derive(Debug, Clone)]
pub struct ProjectionProgress {
    pub scenario_id: String,
    pub current_year: u32,
    pub total_years: u32,
    /// The share of the years after the first that are projected, as a
    /// percentage in millionths.
    pub percent_complete: u64,
    pub estimated_remaining_ms: Option<u64>,
}

} // verus!

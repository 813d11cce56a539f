//! Where results are kept: the kinds of storage, and what a storage looks up
//! in the years of a projection.

use vstd::prelude::*;
use vstd::string::StringExecFns;
use crate::text::{decimal, push_decimal};
use crate::types::demographic::ProjectionYear;

verus! {

/// The kinds of storage that can be asked for.
#[derive(Debug, Clone)]
pub enum StorageConfig {
    /// In memory, for as long as the program runs.
    Memory,
    /// In an SQLite file.
    Sqlite { path: String },
    /// In a DuckDB file.
    DuckDb { path: String },
}

impl StorageConfig {
    /// Whether storage of this kind is at hand: only storage in memory is.
    pub fn is_available(&self) -> (available: bool)
        ensures
            available == (self is Memory),
    {
        match self {
            StorageConfig::Memory => true,
            StorageConfig::Sqlite { .. } => false,
            StorageConfig::DuckDb { .. } => false,
        }
    }
}

/// The records of the years from `start_year` to `end_year`, both included,
/// in the order in which `years` has them.
pub open spec fn years_within(years: Seq<ProjectionYear>, start_year: u32, end_year: u32) -> Seq<
    ProjectionYear,
>
    decreases years.len(),
{
    if years.len() == 0 {
        Seq::<ProjectionYear>::empty()
    } else {
        let before = years_within(years.drop_last(), start_year, end_year);
        if start_year <= years.last().year <= end_year {
            before.push(years.last())
        } else {
            before
        }
    }
}

/// The record of `year`: the first of them where there are several.
pub fn find_year(years: &Vec<ProjectionYear>, year: u32) -> (found: Option<ProjectionYear>)
    ensures
        match found {
            Some(record) => exists|i: int|
                0 <= i < years@.len() && #[trigger] years@[i] == record && record.year == year
                    && forall|j: int| 0 <= j < i ==> (#[trigger] years@[j]).year != year,
            None => forall|i: int| 0 <= i < years@.len() ==> (#[trigger] years@[i]).year != year,
        },
{
    let n: usize = years.len();
    let mut i: usize = 0;
    while i < n
        invariant
            n == years@.len(),
            i <= n,
            forall|j: int| 0 <= j < i ==> (#[trigger] years@[j]).year != year,
        decreases n - i,
    {
        if years[i].year == year {
            let record: ProjectionYear = years[i];
            assert(years@[i as int] == record);
            return Some(record);
        }
        i += 1;
    }
    None
}

/// The records of the years from `start_year` to `end_year`, both included.
pub fn years_between(years: &Vec<ProjectionYear>, start_year: u32, end_year: u32) -> (within: Vec<
    ProjectionYear,
>)
    ensures
        within@ == years_within(years@, start_year, end_year),
{
    let n: usize = years.len();
    let mut within: Vec<ProjectionYear> = Vec::new();
    let mut i: usize = 0;
    proof {
        assert(years@.take(0) =~= Seq::<ProjectionYear>::empty());
    }
    while i < n
        invariant
            n == years@.len(),
            i <= n,
            within@ == years_within(years@.take(i as int), start_year, end_year),
        decreases n - i,
    {
        proof {
            assert(years@.take(i + 1).drop_last() =~= years@.take(i as int));
        }
        if start_year <= years[i].year && years[i].year <= end_year {
            within.push(years[i]);
        }
        i += 1;
    }
    proof {
        assert(years@.take(n as int) =~= years@);
    }
    within
}

/// The key under which the population of a scenario and a year is kept: the
/// id of the scenario, a colon, and the year.
pub fn population_key(scenario_id: &str, year: u32) -> (key: String)
    ensures
        key@ == scenario_id@ + ":"@ + decimal(year as nat),
{
    let mut key = String::from_str(scenario_id);
    key.append(":");
    push_decimal(&mut key, year as u64);
    key
}

} // verus!

//! What one year holds for one region: the rates that apply, from the tables
//! in force and the shocks.

use vstd::prelude::*;
use crate::engine::cohorts::YearRates;
use crate::engine::model::Rates;
use crate::engine::rates::{RateRegistry, Tables};
use crate::engine::shocks::{apply_shocks, effective_rate};
use crate::fixed::SCALE;
use crate::types::demographic::{AGE_COUNT, DEFAULT_SEX_RATIO, Gender};
use crate::types::shock::{Shock, ShockType};

verus! {

/// The death rate that applies in `year` to the cohort of `age` and `gender`
/// in `region`: what the tables give, after the mortality shocks, between 0.0
/// and 1.0.
pub open spec fn mortality_in(
    tables: Tables,
    shocks: Seq<Shock>,
    year: u32,
    region: Seq<char>,
    age: int,
    gender: Gender,
) -> int {
    effective_rate(
        shocks,
        ShockType::Mortality,
        tables.base_mortality(region, age as u32, gender) as int,
        year,
        age as u32,
        gender,
        region,
    )
}

/// The birth rate that applies in `year` to the women of `age` in `region`:
/// what the tables give, after the fertility shocks, between 0.0 and 1.0.
pub open spec fn fertility_in(
    tables: Tables,
    shocks: Seq<Shock>,
    year: u32,
    region: Seq<char>,
    age: int,
) -> int {
    effective_rate(
        shocks,
        ShockType::Fertility,
        tables.base_fertility(region, age as u32) as int,
        year,
        age as u32,
        Gender::Female,
        region,
    )
}

/// What `year` holds for `region`. Net migration is a number of heads, not a
/// rate: it is as the tables give it, and no shock touches it.
pub open spec fn year_rates(
    tables: Tables,
    shocks: Seq<Shock>,
    year: u32,
    region: Seq<char>,
) -> Rates {
    Rates {
        mortality_male: Seq::new(
            AGE_COUNT as nat,
            |a: int| mortality_in(tables, shocks, year, region, a, Gender::Male),
        ),
        mortality_female: Seq::new(
            AGE_COUNT as nat,
            |a: int| mortality_in(tables, shocks, year, region, a, Gender::Female),
        ),
        fertility: Seq::new(
            AGE_COUNT as nat,
            |a: int| fertility_in(tables, shocks, year, region, a),
        ),
        migration_male: Seq::new(
            AGE_COUNT as nat,
            |a: int| tables.base_migration(region, a as u32, Gender::Male) as int,
        ),
        migration_female: Seq::new(
            AGE_COUNT as nat,
            |a: int| tables.base_migration(region, a as u32, Gender::Female) as int,
        ),
        sex_ratio: tables.sex_ratio(region) as int,
    }
}

/// The rates of a year are rates: each lies between 0.0 and 1.0.
pub proof fn lemma_year_rates_wf(
    tables: Tables,
    shocks: Seq<Shock>,
    year: u32,
    region: Seq<char>,
)
    ensures
        year_rates(tables, shocks, year, region).wf(),
{
}

impl YearRates {
    /// What `year` holds for the region.
    pub fn resolve(registry: &RateRegistry, shocks: &Vec<Shock>, year: u32, region_id: &str) -> (rates: YearRates)
        ensures
            rates.wf(),
            rates@ == year_rates(registry@, shocks@, year, region_id@),
    {
        let mortality = registry.mortality_of(region_id);
        let fertility = registry.fertility_of(region_id);
        let migration = registry.migration_of(region_id);
        let sex_ratio: u64 = match fertility {
            Some(table) => table.sex_ratio_at_birth,
            None => DEFAULT_SEX_RATIO,
        };
        let mut rates = YearRates {
            mortality_male: Vec::new(),
            mortality_female: Vec::new(),
            fertility: Vec::new(),
            migration_male: Vec::new(),
            migration_female: Vec::new(),
            sex_ratio,
        };
        let ghost goal = year_rates(registry@, shocks@, year, region_id@);
        let mut age: u32 = 0;
        while age < AGE_COUNT as u32
            invariant
                age <= AGE_COUNT,
                goal == year_rates(registry@, shocks@, year, region_id@),
                match mortality {
                    Some(found) => registry@.mortality.dom().contains(region_id@)
                        && registry@.mortality[region_id@] == found.rates@,
                    None => !registry@.mortality.dom().contains(region_id@),
                },
                match fertility {
                    Some(found) => registry@.fertility.dom().contains(region_id@)
                        && registry@.fertility[region_id@] == found.births(),
                    None => !registry@.fertility.dom().contains(region_id@),
                },
                match migration {
                    Some(found) => registry@.migration.dom().contains(region_id@)
                        && registry@.migration[region_id@] == found.rates@,
                    None => !registry@.migration.dom().contains(region_id@),
                },
                rates.sex_ratio == goal.sex_ratio,
                rates.mortality_male@.len() == age,
                rates.mortality_female@.len() == age,
                rates.fertility@.len() == age,
                rates.migration_male@.len() == age,
                rates.migration_female@.len() == age,
                forall|k: int| 0 <= k < age ==> #[trigger] rates.mortality_male@[k] == goal.mortality_male[k],
                forall|k: int| 0 <= k < age ==> #[trigger] rates.mortality_female@[k] == goal.mortality_female[k],
                forall|k: int| 0 <= k < age ==> #[trigger] rates.fertility@[k] == goal.fertility[k],
                forall|k: int| 0 <= k < age ==> #[trigger] rates.migration_male@[k] == goal.migration_male[k],
                forall|k: int| 0 <= k < age ==> #[trigger] rates.migration_female@[k] == goal.migration_female[k],
            decreases AGE_COUNT - age,
        {
            let base_male: u64 = match mortality {
                Some(table) => table.get_rate(age, Gender::Male),
                None => SCALE,
            };
            let base_female: u64 = match mortality {
                Some(table) => table.get_rate(age, Gender::Female),
                None => SCALE,
            };
            let base_births: u64 = match fertility {
                Some(table) => table.get_rate(age),
                None => 0,
            };
            let net_male: i64 = match migration {
                Some(table) => table.get_rate(age, Gender::Male),
                None => 0,
            };
            let net_female: i64 = match migration {
                Some(table) => table.get_rate(age, Gender::Female),
                None => 0,
            };
            let dying_male: u64 = apply_shocks(shocks, ShockType::Mortality, base_male, year, age, Gender::Male, region_id);
            let dying_female: u64 = apply_shocks(shocks, ShockType::Mortality, base_female, year, age, Gender::Female, region_id);
            let bearing: u64 = apply_shocks(shocks, ShockType::Fertility, base_births, year, age, Gender::Female, region_id);
            rates.mortality_male.push(dying_male);
            rates.mortality_female.push(dying_female);
            rates.fertility.push(bearing);
            rates.migration_male.push(net_male);
            rates.migration_female.push(net_female);
            age += 1;
        }
        proof {
            assert(rates@.mortality_male =~= goal.mortality_male);
            assert(rates@.mortality_female =~= goal.mortality_female);
            assert(rates@.fertility =~= goal.fertility);
            assert(rates@.migration_male =~= goal.migration_male);
            assert(rates@.migration_female =~= goal.migration_female);
        }
        rates
    }
}

} // verus!

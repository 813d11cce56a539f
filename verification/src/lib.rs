//! Population projection by the cohort-component method.
//!
//! A population is counted by single year of age, gender and region. A year
//! of projection takes it through births, migration, deaths and ageing, under
//! rate tables and under shocks that raise or lower the rates for some years
//! and for some part of the population. `engine` holds the method, `types` the
//! data it works on, `handlers` the runs that messages ask for, and `laws`
//! what holds of every projected year.
//!
//! # Numbers
//!
//! Every real quantity is a decimal fixed-point number with six fractional
//! digits, held as the integer number of millionths: a count of `1_500_000` is
//! one and a half heads, a rate of `100_000` is 0.1, a sex ratio of
//! `105_000_000` is 105 boys to 100 girls. Sums are exact. A product is
//! rounded down to the last digit, and what one part of a sum loses by
//! rounding another part gains, so that every year balances exactly: the
//! population after it is the population before it, with the births and the
//! net migration and without the deaths.
//!
//! # Limits
//!
//! All heads of a population together must be within the largest 64-bit
//! number, some 18 million million heads. The functions that can take a
//! population beyond it say so in their contracts. For each there is a way to
//! ask first or to try: `population_fits` before loading,
//! `try_project_one_year` for a year, and the runs of a scenario, which end
//! with an error in the year that does not fit.

pub mod engine;
pub mod fixed;
pub mod handlers;
pub mod host;
pub mod laws;
pub mod storage;
pub mod sums;
pub mod text;
pub mod types;

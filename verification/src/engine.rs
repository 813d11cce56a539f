//! The projection engine: the cohort-component method, year by year.

pub mod ccm;
pub mod cohorts;
pub mod keys;
pub mod model;
pub mod population;
pub mod projection;
pub mod rates;
pub mod shocks;
pub mod state;
pub mod store;
pub mod year;

//! The data shapes of the library: cohorts, rate tables, shocks, scenarios and
//! the records a projection produces.

pub mod demographic;
pub mod geo;
pub mod messages;
pub mod scenario;
pub mod shock;
pub mod subjects;

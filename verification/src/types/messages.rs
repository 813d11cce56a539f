//! Messages: a payload with the identifiers and the time that go with it.

use vstd::prelude::*;
use crate::host::{fresh_id, timestamp_now};
use crate::types::demographic::{ProjectionResult, ProjectionYear};
use crate::types::scenario::Scenario;

verus! {

/// `serde_json::Value`, any JSON value. The library carries such values and
/// never looks into them.
#[verifier::external_type_specification]
#[verifier::external_body]
pub struct ExJsonValue(serde_json::Value);

/// A payload on its way: its own identifier, the time of its making, and the
/// identifier of the exchange that it belongs to.
#[derive(Debug, Clone)]
pub struct Message<T> {
    pub id: String,
    pub timestamp: String,
    pub correlation_id: String,
    pub payload: T,
}

impl<T> Message<T> {
    /// The message of `payload` with the identifier `id` and the time
    /// `timestamp`. It belongs to the exchange `correlation_id`, and to the one
    /// named `otherwise` where none is given.
    pub fn stamped(
        payload: T,
        id: String,
        timestamp: String,
        correlation_id: Option<String>,
        otherwise: String,
    ) -> (message: Self)
        ensures
            message.payload == payload,
            message.id == id,
            message.timestamp == timestamp,
            message.correlation_id == (match correlation_id {
                Some(given) => given,
                None => otherwise,
            }),
    {
        let correlation_id = match correlation_id {
            Some(given) => given,
            None => otherwise,
        };
        Message { id, timestamp, correlation_id, payload }
    }

    /// The message of `payload`, with a fresh identifier and the present time.
    /// It belongs to the exchange `correlation_id`, and to a fresh one where
    /// none is given.
    pub fn new(payload: T, correlation_id: Option<String>) -> (message: Self)
        ensures
            message.payload == payload,
            correlation_id matches Some(given) ==> message.correlation_id == given,
    {
        let id = fresh_id();
        let timestamp = timestamp_now();
        let otherwise = match &correlation_id {
            Some(_) => String::new(),
            None => fresh_id(),
        };
        Self::stamped(payload, id, timestamp, correlation_id, otherwise)
    }
}

/// What went wrong. The details are whatever the one who reports them put
/// there.
#[derive(Debug, Clone)]
pub struct ErrorPayload {
    pub code: String,
    pub message: String,
    pub details: Option<serde_json::Value>,
}

impl Message<ErrorPayload> {
    /// The message of an error without details, for the exchange
    /// `correlation_id`.
    pub fn from_error(code: &str, message: &str, correlation_id: &str) -> (report: Self)
        ensures
            report.payload.code@ == code@,
            report.payload.message@ == message@,
            report.payload.details is None,
            report.correlation_id@ == correlation_id@,
    {
        Message::new(
            ErrorPayload { code: code.to_owned(), message: message.to_owned(), details: None },
            Some(correlation_id.to_owned()),
        )
    }
}

/// A scenario is submitted.
#[derive(Debug, Clone)]
pub struct ScenarioSubmitPayload {
    pub scenario: Scenario,
}

/// A scenario is accepted.
#[derive(Debug, Clone)]
pub struct ScenarioAcceptedPayload {
    pub scenario_id: String,
    pub estimated_duration_ms: u64,
    pub total_years: u32,
}

/// A scenario is rejected.
#[derive(Debug, Clone)]
pub struct ScenarioRejectedPayload {
    pub scenario_id: String,
    pub reason: String,
    pub validation_errors: Vec<String>,
}

/// A projection has come one year further.
#[derive(Debug, Clone)]
pub struct ProjectionProgressPayload {
    pub scenario_id: String,
    pub current_year: u32,
    pub total_years: u32,
    pub percent_complete: u64,
    pub latest_year: ProjectionYear,
}

/// A projection is done.
#[derive(Debug, Clone)]
pub struct ProjectionResultPayload {
    pub scenario_id: String,
    pub result: ProjectionResult,
}

/// A projection failed in a year.
#[derive(Debug, Clone)]
pub struct ProjectionErrorPayload {
    pub scenario_id: String,
    pub year: u32,
    pub error: ErrorPayload,
}

} // verus!

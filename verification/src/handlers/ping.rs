//! The answer to a ping.

use vstd::prelude::*;
use vstd::string::StringExecFns;
use crate::host::{fresh_id, timestamp_now};

verus! {

/// The subject on which pings arrive.
pub const SUBJECT_PING: &'static str = "popula.ping";

/// The version that the worker reports of itself.
pub const WORKER_VERSION: &'static str = "0.1.0";

/// A ping: some message to be answered.
#[derive(Debug, Clone, PartialEq)]
pub struct PingRequest {
    pub message: String,
}

/// The answer to a ping.
#[derive(Debug, Clone, PartialEq)]
pub struct PingResponse {
    pub original_message: String,
    pub reply: String,
    pub worker_version: String,
    pub processed_at: String,
}

/// A payload as it travels: its own identifier, the time of its making, and
/// the identifier of the exchange that it belongs to.
#[derive(Debug, Clone)]
pub struct MessageEnvelope<T> {
    pub id: String,
    pub timestamp: String,
    pub correlation_id: String,
    pub payload: T,
}

impl<T> MessageEnvelope<T> {
    /// The envelope of `payload` with the identifier `id` and the time
    /// `timestamp`. It belongs to the exchange `correlation_id`, and to the one
    /// named `otherwise` where none is given.
    pub fn stamped(
        payload: T,
        id: String,
        timestamp: String,
        correlation_id: Option<String>,
        otherwise: String,
    ) -> (envelope: Self)
        ensures
            envelope.payload == payload,
            envelope.id == id,
            envelope.timestamp == timestamp,
            envelope.correlation_id == (match correlation_id {
                Some(given) => given,
                None => otherwise,
            }),
    {
        let correlation_id = match correlation_id {
            Some(given) => given,
            None => otherwise,
        };
        MessageEnvelope { id, timestamp, correlation_id, payload }
    }

    /// The envelope of `payload`, with a fresh identifier and the present
    /// time. It belongs to the exchange `correlation_id`, and to a fresh one
    /// where none is given.
    pub fn new(payload: T, correlation_id: Option<String>) -> (envelope: Self)
        ensures
            envelope.payload == payload,
            correlation_id matches Some(given) ==> envelope.correlation_id == given,
    {
        let id = fresh_id();
        let timestamp = timestamp_now();
        let otherwise = match &correlation_id {
            Some(_) => String::new(),
            None => fresh_id(),
        };
        Self::stamped(payload, id, timestamp, correlation_id, otherwise)
    }
}

/// The greeting that answers `message`.
pub open spec fn greeting(message: Seq<char>) -> Seq<char> {
    "Hello from Rust! You said: '"@ + message + "'"@
}

/// The answer to `request`, as processed at `processed_at`.
pub fn ping_response_at(request: &PingRequest, processed_at: String) -> (response: PingResponse)
    ensures
        response.original_message@ == request.message@,
        response.reply@ == greeting(request.message@),
        response.worker_version@ == WORKER_VERSION@,
        response.processed_at == processed_at,
{
    let mut reply = String::from_str("Hello from Rust! You said: '");
    reply.append(request.message.as_str());
    reply.append("'");
    PingResponse {
        original_message: request.message.clone(),
        reply,
        worker_version: String::from_str(WORKER_VERSION),
        processed_at,
    }
}

/// The answer to `request`, processed now.
pub fn create_ping_response(request: &PingRequest) -> (response: PingResponse)
    ensures
        response.original_message@ == request.message@,
        response.reply@ == greeting(request.message@),
        response.worker_version@ == WORKER_VERSION@,
{
    ping_response_at(request, timestamp_now())
}

} // verus!

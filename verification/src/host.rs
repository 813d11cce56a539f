//! What the library takes from the machine it runs on: the time and fresh
//! identifiers. Of the functions that call out nothing is proved, and since
//! their results differ from call to call, nothing is claimed of them either:
//! what is made of an answer is a verified function's, for every answer.

use vstd::prelude::*;

verus! {

/// `std::time::Instant`, a point in time that only the clock can read.
#[verifier::external_type_specification]
#[verifier::external_body]
pub struct ExInstant(std::time::Instant);

/// A point in time to measure from: `std::time::Instant::now`.
#[verifier::external_body]
pub(crate) fn clock_start() -> (start: std::time::Instant) {
    std::time::Instant::now()
}

/// The time that has passed since `start`: `std::time::Instant::elapsed`.
#[verifier::external_body]
fn clock_elapsed(start: &std::time::Instant) -> (span: std::time::Duration) {
    start.elapsed()
}

/// A span of time in whole milliseconds: `std::time::Duration::as_millis`.
#[verifier::external_body]
fn span_millis(span: &std::time::Duration) -> (millis: u128) {
    span.as_millis()
}

/// The whole milliseconds since `start`; the largest 64-bit number where they
/// are more than that.
pub(crate) fn clock_elapsed_ms(start: &std::time::Instant) -> (elapsed: u64) {
    // The clock is read here, and nothing can be said of its answer.
    // What is made of that answer, whatever it is, is for
    // `millis_within_u64` to say.
    let span = clock_elapsed(start);
    let millis: u128 = span_millis(&span);
    let elapsed: u64 = millis_within_u64(millis);
    elapsed
}

/// The present moment in universal time, written as RFC 3339 has it:
/// `chrono::Utc::now` and `DateTime::to_rfc3339`. chrono stops the program
/// where the machine's clock stands before the year 1970.
#[verifier::external_body]
pub(crate) fn timestamp_now() -> (stamp: String) {
    chrono::Utc::now().to_rfc3339()
}

/// `uuid::Uuid`, an identifier of 128 bits.
#[verifier::external_type_specification]
#[verifier::external_body]
pub struct ExUuid(uuid::Uuid);

/// A random identifier: `uuid::Uuid::new_v4`. uuid stops the program where
/// the machine has no random bytes to give.
#[verifier::external_body]
fn random_uuid() -> (id: uuid::Uuid) {
    uuid::Uuid::new_v4()
}

/// A random identifier as text.
pub(crate) fn fresh_id() -> (id: String) {
    let id = random_uuid();
    identifier_text(&id)
}

/// `millis`, and the largest 64-bit number where it is more than that.
pub open spec fn within_u64(millis: int) -> int {
    if millis > u64::MAX {
        u64::MAX as int
    } else {
        millis
    }
}

/// A number of milliseconds as 64 bits hold it.
pub fn millis_within_u64(millis: u128) -> (held: u64)
    ensures
        held == within_u64(millis as int),
{
    if millis > u64::MAX as u128 {
        u64::MAX
    } else {
        millis as u64
    }
}

/// An identifier as text: what it displays as.
pub(crate) fn identifier_text(id: &uuid::Uuid) -> (text: String)
    ensures
        vstd::string::to_string_from_display_ensures::<uuid::Uuid>(id, text),
{
    id.to_string()
}

} // verus!

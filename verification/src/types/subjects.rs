//! The subjects on which scenarios and projections are announced.

use vstd::prelude::*;
use vstd::string::StringExecFns;

verus! {

/// The subject on which scenarios are submitted.
pub const SCENARIO_SUBMIT: &'static str = "popula.scenario.submit";

/// `head`, then `id`, then `tail`.
fn subject(head: &str, id: &str, tail: &str) -> (name: String)
    ensures
        name@ == head@ + id@ + tail@,
{
    let mut name = String::from_str(head);
    name.append(id);
    name.append(tail);
    name
}

/// The subject on which the scenario `id` is accepted.
pub fn scenario_accepted(id: &str) -> (name: String)
    ensures
        name@ == "popula.scenario."@ + id@ + ".accepted"@,
{
    subject("popula.scenario.", id, ".accepted")
}

/// The subject on which the scenario `id` is rejected.
pub fn scenario_rejected(id: &str) -> (name: String)
    ensures
        name@ == "popula.scenario."@ + id@ + ".rejected"@,
{
    subject("popula.scenario.", id, ".rejected")
}

/// The subject on which the progress of the projection `id` is reported.
pub fn projection_progress(id: &str) -> (name: String)
    ensures
        name@ == "popula.projection."@ + id@ + ".progress"@,
{
    subject("popula.projection.", id, ".progress")
}

/// The subject on which the result of the projection `id` is published.
pub fn projection_result(id: &str) -> (name: String)
    ensures
        name@ == "popula.projection."@ + id@ + ".result"@,
{
    subject("popula.projection.", id, ".result")
}

/// The subject on which the failure of the projection `id` is published.
pub fn projection_error(id: &str) -> (name: String)
    ensures
        name@ == "popula.projection."@ + id@ + ".error"@,
{
    subject("popula.projection.", id, ".error")
}

} // verus!

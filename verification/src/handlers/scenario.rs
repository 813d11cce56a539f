//! What the submission of a scenario carries, and what accepting it answers.

use vstd::prelude::*;
use crate::types::scenario::Scenario;
use crate::types::shock::Shock;

verus! {

/// The milliseconds that a projection is estimated to take for each year.
pub const ESTIMATED_MS_PER_YEAR: u64 = 10;

/// A scenario as it is submitted, before it has an id.
#[derive(Debug, Clone)]
pub struct CreateScenarioRequest {
    pub name: String,
    pub description: Option<String>,
    pub base_year: u32,
    pub end_year: u32,
    pub regions: Vec<String>,
    pub shocks: Vec<Shock>,
}

/// A scenario as it was accepted.
#[derive(Debug, Clone)]
pub struct ScenarioAcceptedResponse {
    pub scenario: Scenario,
    pub estimated_duration_ms: u64,
}

/// The time that projecting `scenario` is estimated to take: ten milliseconds
/// for each year after the first, and none where it ends before it starts.
pub fn estimated_duration_ms(scenario: &Scenario) -> (estimate: u64)
    ensures
        estimate == scenario.spec_projection_years() * ESTIMATED_MS_PER_YEAR,
{
    (scenario.projection_years() as u64) * ESTIMATED_MS_PER_YEAR
}

/// The scenario that `request` submits, under the identifier `id` and as
/// created and last updated at `now`. A submission without a description has
/// an empty one.
pub fn scenario_from_request(request: CreateScenarioRequest, id: String, now: String) -> (scenario:
    Scenario)
    ensures
        scenario.id == id,
        scenario.name == request.name,
        scenario.description@ == (match request.description {
            Some(text) => text@,
            None => Seq::<char>::empty(),
        }),
        scenario.base_year == request.base_year,
        scenario.end_year == request.end_year,
        scenario.regions == request.regions,
        scenario.shocks == request.shocks,
        scenario.created_at@ == now@,
        scenario.updated_at@ == now@,
{
    let description = match request.description {
        Some(text) => text,
        None => String::new(),
    };
    Scenario {
        id,
        name: request.name,
        description,
        base_year: request.base_year,
        end_year: request.end_year,
        regions: request.regions,
        shocks: request.shocks,
        created_at: now.clone(),
        updated_at: now,
    }
}

/// The answer to the submission of `request`: the scenario as it was taken
/// in, and the time that projecting it is estimated to take.
pub fn accept_scenario(request: CreateScenarioRequest, id: String, now: String) -> (response:
    ScenarioAcceptedResponse)
    ensures
        response.scenario.id == id,
        response.scenario.name == request.name,
        response.scenario.description@ == (match request.description {
            Some(text) => text@,
            None => Seq::<char>::empty(),
        }),
        response.scenario.base_year == request.base_year,
        response.scenario.end_year == request.end_year,
        response.scenario.regions == request.regions,
        response.scenario.shocks == request.shocks,
        response.scenario.created_at@ == now@,
        response.scenario.updated_at@ == now@,
        response.estimated_duration_ms == response.scenario.spec_projection_years()
            * ESTIMATED_MS_PER_YEAR,
{
    let scenario = scenario_from_request(request, id, now);
    let estimate: u64 = estimated_duration_ms(&scenario);
    ScenarioAcceptedResponse { scenario, estimated_duration_ms: estimate }
}

} // verus!

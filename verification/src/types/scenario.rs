//! Scenarios: what a projection run is asked to do, and the rules that a
//! scenario must meet before a run starts.

use vstd::prelude::*;
use vstd::string::StringExecFns;
use crate::text::{blank, is_blank, texts};
use crate::types::shock::Shock;

verus! {

/// The earliest year that a scenario may name.
pub const EARLIEST_YEAR: u32 = 1950;

/// The latest year in which a scenario may start.
pub const LATEST_BASE_YEAR: u32 = 2100;

/// The latest year in which a scenario may end.
pub const LATEST_END_YEAR: u32 = 2200;

/// A projection that a user defined: the years, the regions and the shocks.
#[derive(Debug, Clone)]
pub struct Scenario {
    pub id: String,
    pub name: String,
    pub description: String,
    pub base_year: u32,
    pub end_year: u32,
    pub regions: Vec<String>,
    pub shocks: Vec<Shock>,
    pub created_at: String,
    pub updated_at: String,
}

/// Whether a scenario may run, and what is wrong with it where it may not.
#[derive(Debug, Clone)]
pub struct ScenarioValidationResult {
    pub valid: bool,
    pub errors: Vec<String>,
}

/// `message` where `wrong` holds, and nothing where it does not.
pub open spec fn complaint(wrong: bool, message: Seq<char>) -> Seq<Seq<char>> {
    if wrong {
        seq![message]
    } else {
        Seq::<Seq<char>>::empty()
    }
}

/// What is wrong with one shock in a scenario of the years `base_year` to
/// `end_year`.
pub open spec fn shock_complaints(shock: Shock, base_year: u32, end_year: u32) -> Seq<Seq<char>> {
    complaint(
        shock.start_year < base_year,
        "Shock '"@ + shock.name@ + "' starts before scenario base year"@,
    ) + complaint(
        shock.end_year > end_year,
        "Shock '"@ + shock.name@ + "' ends after scenario end year"@,
    )
}

/// What is wrong with the first `upto` shocks, in their order.
pub open spec fn shocks_complaints(shocks: Seq<Shock>, base_year: u32, end_year: u32, upto: int) -> Seq<
    Seq<char>,
>
    decreases upto,
{
    if upto <= 0 {
        Seq::<Seq<char>>::empty()
    } else {
        shocks_complaints(shocks, base_year, end_year, upto - 1) + shock_complaints(
            shocks[upto - 1],
            base_year,
            end_year,
        )
    }
}

/// Adds `message` to the errors where `wrong` holds.
fn report(errors: &mut Vec<String>, wrong: bool, message: &str)
    ensures
        texts(final(errors)@) == texts(old(errors)@) + complaint(wrong, message@),
        final(errors)@.len() == old(errors)@.len() + (if wrong {
            1int
        } else {
            0int
        }),
{
    if wrong {
        errors.push(String::from_str(message));
        assert(texts(errors@) =~= texts(old(errors)@) + complaint(wrong, message@));
    } else {
        assert(texts(errors@) =~= texts(old(errors)@) + complaint(wrong, message@));
    }
}

/// Adds to the errors what is wrong with one shock.
fn report_shock(errors: &mut Vec<String>, shock: &Shock, base_year: u32, end_year: u32)
    ensures
        texts(final(errors)@) == texts(old(errors)@) + shock_complaints(
            *shock,
            base_year,
            end_year,
        ),
        final(errors)@.len() >= old(errors)@.len(),
        (final(errors)@.len() == old(errors)@.len()) == (base_year <= shock.start_year
            && shock.end_year <= end_year),
{
    let ghost before = errors@;
    if shock.start_year < base_year {
        let mut message = String::from_str("Shock '");
        message.append(shock.name.as_str());
        message.append("' starts before scenario base year");
        errors.push(message);
    }
    let ghost between = errors@;
    assert(texts(between) =~= texts(before) + complaint(
        shock.start_year < base_year,
        "Shock '"@ + shock.name@ + "' starts before scenario base year"@,
    ));
    if shock.end_year > end_year {
        let mut message = String::from_str("Shock '");
        message.append(shock.name.as_str());
        message.append("' ends after scenario end year");
        errors.push(message);
    }
    assert(texts(errors@) =~= texts(between) + complaint(
        shock.end_year > end_year,
        "Shock '"@ + shock.name@ + "' ends after scenario end year"@,
    ));
    assert(texts(errors@) =~= texts(before) + shock_complaints(*shock, base_year, end_year));
}

impl Scenario {
    /// What is wrong with the scenario apart from its shocks.
    pub open spec fn frame_complaints(self) -> Seq<Seq<char>> {
        complaint(is_blank(self.id@), "Scenario ID is required"@) + complaint(
            is_blank(self.name@),
            "Scenario name is required"@,
        ) + complaint(self.base_year >= self.end_year, "Base year must be before end year"@)
            + complaint(
            self.base_year < EARLIEST_YEAR || self.base_year > LATEST_BASE_YEAR,
            "Base year must be between 1950 and 2100"@,
        ) + complaint(
            self.end_year < EARLIEST_YEAR || self.end_year > LATEST_END_YEAR,
            "End year must be between 1950 and 2200"@,
        ) + complaint(self.regions@.len() == 0, "At least one region is required"@)
    }

    /// Everything that is wrong with the scenario, in the order in which
    /// `validate` reports it.
    pub open spec fn spec_errors(self) -> Seq<Seq<char>> {
        self.frame_complaints() + shocks_complaints(
            self.shocks@,
            self.base_year,
            self.end_year,
            self.shocks@.len() as int,
        )
    }

    /// The rules that a scenario must meet: it has an id and a name; it starts
    /// before it ends, in a year from 1950 to 2100, and ends in one from 1950 to
    /// 2200; it names a region; and each of its shocks lies within its years.
    pub open spec fn spec_valid(self) -> bool {
        &&& !is_blank(self.id@)
        &&& !is_blank(self.name@)
        &&& self.base_year < self.end_year
        &&& EARLIEST_YEAR <= self.base_year <= LATEST_BASE_YEAR
        &&& EARLIEST_YEAR <= self.end_year <= LATEST_END_YEAR
        &&& self.regions@.len() > 0
        &&& forall|i: int|
            0 <= i < self.shocks@.len() ==> self.base_year <= (#[trigger] self.shocks@[i]).start_year
                && self.shocks@[i].end_year <= self.end_year
    }

    /// The years between the first and the last of the scenario; none where it
    /// ends before it starts.
    pub open spec fn spec_projection_years(self) -> int {
        if self.end_year >= self.base_year {
            self.end_year - self.base_year
        } else {
            0
        }
    }

    /// Holds the scenario to the rules.
    pub fn validate(&self) -> (result: ScenarioValidationResult)
        ensures
            result.valid == self.spec_valid(),
            result.valid == (result.errors@.len() == 0),
            texts(result.errors@) == self.spec_errors(),
    {
        let mut errors: Vec<String> = Vec::new();
        assert(texts(errors@) =~= Seq::<Seq<char>>::empty());
        report(&mut errors, blank(self.id.as_str()), "Scenario ID is required");
        report(&mut errors, blank(self.name.as_str()), "Scenario name is required");
        report(&mut errors, self.base_year >= self.end_year, "Base year must be before end year");
        report(
            &mut errors,
            self.base_year < EARLIEST_YEAR || self.base_year > LATEST_BASE_YEAR,
            "Base year must be between 1950 and 2100",
        );
        report(
            &mut errors,
            self.end_year < EARLIEST_YEAR || self.end_year > LATEST_END_YEAR,
            "End year must be between 1950 and 2200",
        );
        report(&mut errors, self.regions.len() == 0, "At least one region is required");
        let ghost frame = errors@;
        assert(texts(frame) =~= self.frame_complaints());
        let n: usize = self.shocks.len();
        let mut i: usize = 0;
        while i < n
            invariant
                n == self.shocks@.len(),
                i <= n,
                texts(frame) == self.frame_complaints(),
                errors@.len() >= frame.len(),
                texts(errors@) == texts(frame) + shocks_complaints(
                    self.shocks@,
                    self.base_year,
                    self.end_year,
                    i as int,
                ),
                (errors@.len() == frame.len()) == (forall|k: int|
                    0 <= k < i ==> self.base_year <= (#[trigger] self.shocks@[k]).start_year
                        && self.shocks@[k].end_year <= self.end_year),
            decreases n - i,
        {
            let ghost before = errors@;
            report_shock(&mut errors, &self.shocks[i], self.base_year, self.end_year);
            proof {
                let earlier = shocks_complaints(
                    self.shocks@,
                    self.base_year,
                    self.end_year,
                    i as int,
                );
                let here = shock_complaints(self.shocks@[i as int], self.base_year, self.end_year);
                assert((texts(frame) + earlier) + here =~= texts(frame) + (earlier + here));
            }
            i += 1;
        }
        ScenarioValidationResult { valid: errors.len() == 0, errors }
    }

    /// The number of years to project after the first.
    pub fn projection_years(&self) -> (years: u32)
        ensures
            years == self.spec_projection_years(),
    {
        if self.end_year >= self.base_year {
            self.end_year - self.base_year
        } else {
            0
        }
    }
}

} // verus!

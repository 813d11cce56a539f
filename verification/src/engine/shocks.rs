//! The shocks in force, and the rate that they make of a base rate.

use vstd::prelude::*;
use crate::fixed::{clamp_rate, clamp_unit};
use crate::types::demographic::Gender;
use crate::types::shock::{Shock, ShockType};

verus! {

/// `base` after the first `upto` shocks, each in its turn: a shock of the
/// given kind that holds for the year and the cohort modifies the rate that
/// the shocks before it left; every other shock leaves it as it is.
pub open spec fn composed(
    shocks: Seq<Shock>,
    kind: ShockType,
    base: int,
    year: u32,
    age: u32,
    gender: Gender,
    region: Seq<char>,
    upto: int,
) -> int
    decreases upto,
{
    if upto <= 0 {
        base
    } else {
        let before = composed(shocks, kind, base, year, age, gender, region, upto - 1);
        let shock = shocks[upto - 1];
        if shock.shock_type == kind && shock.spec_applies(year, age, gender, region) {
            shock.modifier.spec_apply(before)
        } else {
            before
        }
    }
}

/// The rate that applies: `base` after all shocks, in the order in which they
/// were registered, and then brought into the interval from 0.0 to 1.0.
pub open spec fn effective_rate(
    shocks: Seq<Shock>,
    kind: ShockType,
    base: int,
    year: u32,
    age: u32,
    gender: Gender,
    region: Seq<char>,
) -> int {
    clamp_unit(composed(shocks, kind, base, year, age, gender, region, shocks.len() as int))
}

/// The shocks in force, in the order of their registration.
pub struct ShockRegistry {
    pub shocks: Vec<Shock>,
}

impl View for ShockRegistry {
    type V = Seq<Shock>;

    open spec fn view(&self) -> Seq<Shock> {
        self.shocks@
    }
}

impl ShockRegistry {
    /// A registry with no shock in force.
    pub fn new() -> (registry: Self)
        ensures
            registry@ == Seq::<Shock>::empty(),
    {
        ShockRegistry { shocks: Vec::new() }
    }

    /// Registers `shock` after those already in force.
    pub fn add_shock(&mut self, shock: Shock)
        ensures
            final(self)@ == old(self)@.push(shock),
    {
        self.shocks.push(shock);
    }

    /// Lifts every shock.
    pub fn clear_shocks(&mut self)
        ensures
            final(self)@ == Seq::<Shock>::empty(),
    {
        self.shocks.clear();
    }

    /// The rate that applies in `year` to the cohort of `age` and `gender` in
    /// the region, where the tables give `base_value`.
    pub fn apply_shocks(
        &self,
        shock_type: ShockType,
        base_value: u64,
        year: u32,
        age: u32,
        gender: Gender,
        region_id: &str,
    ) -> (rate: u64)
        ensures
            rate == effective_rate(
                self@,
                shock_type,
                base_value as int,
                year,
                age,
                gender,
                region_id@,
            ),
            rate <= crate::fixed::SCALE,
    {
        apply_shocks(&self.shocks, shock_type, base_value, year, age, gender, region_id)
    }
}

/// The rate that `shocks` make of `base_value` in `year` for the cohort of
/// `age` and `gender` in the region.
pub fn apply_shocks(
    shocks: &Vec<Shock>,
    shock_type: ShockType,
    base_value: u64,
    year: u32,
    age: u32,
    gender: Gender,
    region_id: &str,
) -> (rate: u64)
    ensures
        rate == effective_rate(
            shocks@,
            shock_type,
            base_value as int,
            year,
            age,
            gender,
            region_id@,
        ),
        rate <= crate::fixed::SCALE,
{
    let n: usize = shocks.len();
    let mut value: u64 = base_value;
    let mut i: usize = 0;
    while i < n
        invariant
            n == shocks@.len(),
            i <= n,
            value == composed(
                shocks@,
                shock_type,
                base_value as int,
                year,
                age,
                gender,
                region_id@,
                i as int,
            ),
        decreases n - i,
    {
        let shock = &shocks[i];
        if shock.shock_type == shock_type && shock.applies(year, age, gender, region_id) {
            value = shock.modifier.apply(value);
        }
        i += 1;
    }
    clamp_rate(value)
}

} // verus!

//! The mathematics of one year of the cohort-component method, for the
//! cohorts of one region.
//!
//! A `Block` holds the head counts of a region by age and gender, `Rates` what
//! happens to them within a year. `step` is the year: babies are born to the
//! women of child-bearing age as the year finds them; every cohort gains or
//! loses its migrants, then its dead, and what is left of it is a year
//! older. Everything here is mathematics on unbounded integers; the
//! executable projector is held to it.

use vstd::prelude::*;
use crate::fixed::{SCALE, scaled, share, lemma_scaled_within, lemma_share_within};
use crate::sums::{sum, lemma_sum_concat, lemma_sum_nonnegative, lemma_sum_of_differences,
    lemma_sum_of_sums, lemma_sum_pointwise_le, lemma_sum_push};
use crate::types::demographic::{AGE_COUNT, FERTILITY_MAX_AGE, FERTILITY_MIN_AGE, Gender,
    SEX_RATIO_BASE};

verus! {

/// The head counts of one region: for each gender, one count for each age
/// from 0 to the oldest.
pub struct Block {
    pub id: Seq<char>,
    pub male: Seq<int>,
    pub female: Seq<int>,
}

impl Block {
    /// Every age has a count, and no count is negative.
    pub open spec fn wf(self) -> bool {
        &&& self.male.len() == AGE_COUNT
        &&& self.female.len() == AGE_COUNT
        &&& forall|a: int| 0 <= a < AGE_COUNT ==> 0 <= #[trigger] self.male[a]
        &&& forall|a: int| 0 <= a < AGE_COUNT ==> 0 <= #[trigger] self.female[a]
    }

    /// The counts of one gender by age.
    pub open spec fn of(self, gender: Gender) -> Seq<int> {
        match gender {
            Gender::Male => self.male,
            Gender::Female => self.female,
        }
    }

    /// The count at `age` for `gender`; zero at an age that the model has not.
    pub open spec fn count(self, age: int, gender: Gender) -> int {
        if 0 <= age < AGE_COUNT {
            self.of(gender)[age]
        } else {
            0
        }
    }

    /// All heads of the region.
    pub open spec fn total(self) -> int {
        sum(self.male) + sum(self.female)
    }

    /// The block of a region in which nobody lives.
    pub open spec fn vacant(id: Seq<char>) -> Block {
        Block {
            id,
            male: Seq::new(AGE_COUNT as nat, |a: int| 0int),
            female: Seq::new(AGE_COUNT as nat, |a: int| 0int),
        }
    }
}

/// What happens within one year in one region, by age: the death rates and the
/// net migration of each gender, the birth rates of the women, and the boys
/// born to 100 girls. The rates are those that apply, between 0.0 and 1.0.
pub struct Rates {
    pub mortality_male: Seq<int>,
    pub mortality_female: Seq<int>,
    pub fertility: Seq<int>,
    pub migration_male: Seq<int>,
    pub migration_female: Seq<int>,
    pub sex_ratio: int,
}

impl Rates {
    /// Every age has its rates, no rate is negative or above 1.0, and neither
    /// is the sex ratio negative.
    pub open spec fn wf(self) -> bool {
        &&& self.mortality_male.len() == AGE_COUNT
        &&& self.mortality_female.len() == AGE_COUNT
        &&& self.fertility.len() == AGE_COUNT
        &&& self.migration_male.len() == AGE_COUNT
        &&& self.migration_female.len() == AGE_COUNT
        &&& 0 <= self.sex_ratio
        &&& forall|a: int| 0 <= a < AGE_COUNT ==> 0 <= #[trigger] self.mortality_male[a] <= SCALE
        &&& forall|a: int| 0 <= a < AGE_COUNT ==> 0 <= #[trigger] self.mortality_female[a] <= SCALE
        &&& forall|a: int| 0 <= a < AGE_COUNT ==> 0 <= #[trigger] self.fertility[a] <= SCALE
    }

    /// The death rates of one gender by age.
    pub open spec fn mortality(self, gender: Gender) -> Seq<int> {
        match gender {
            Gender::Male => self.mortality_male,
            Gender::Female => self.mortality_female,
        }
    }

    /// The net migration of one gender by age.
    pub open spec fn migration(self, gender: Gender) -> Seq<int> {
        match gender {
            Gender::Male => self.migration_male,
            Gender::Female => self.migration_female,
        }
    }
}

/// A cohort of `count` after `net` migrants: arrivals are added; departures
/// are taken away as far as the cohort reaches, and no further.
pub open spec fn after_migration(count: int, net: int) -> int {
    if net >= 0 {
        count + net
    } else if -net >= count {
        0
    } else {
        count + net
    }
}

/// The cohort of `age` and `gender` once its migrants have come or gone.
pub open spec fn settled_at(b: Block, r: Rates, gender: Gender, age: int) -> int {
    after_migration(b.of(gender)[age], r.migration(gender)[age])
}

/// The migrants that the cohort gained, negative where it lost them.
pub open spec fn migrants_at(b: Block, r: Rates, gender: Gender, age: int) -> int {
    settled_at(b, r, gender, age) - b.of(gender)[age]
}

/// Those of the cohort who die within the year, after migration.
pub open spec fn deaths_at(b: Block, r: Rates, gender: Gender, age: int) -> int {
    scaled(settled_at(b, r, gender, age), r.mortality(gender)[age])
}

/// Those of the cohort who live to the end of the year.
pub open spec fn survivors_at(b: Block, r: Rates, gender: Gender, age: int) -> int {
    settled_at(b, r, gender, age) - deaths_at(b, r, gender, age)
}

/// The children born within the year to the women of `age`, counted as the
/// year finds them; none outside the child-bearing ages.
pub open spec fn births_at(b: Block, r: Rates, age: int) -> int {
    if FERTILITY_MIN_AGE <= age <= FERTILITY_MAX_AGE {
        scaled(b.female[age], r.fertility[age])
    } else {
        0
    }
}

/// The births of the year by the age of the mother.
pub open spec fn births_by_age(b: Block, r: Rates) -> Seq<int> {
    Seq::new(AGE_COUNT as nat, |a: int| births_at(b, r, a))
}

/// The deaths of one gender by age.
pub open spec fn deaths_by_age(b: Block, r: Rates, gender: Gender) -> Seq<int> {
    Seq::new(AGE_COUNT as nat, |a: int| deaths_at(b, r, gender, a))
}

/// The migrants that one gender gained by age, negative where it lost them.
pub open spec fn migrants_by_age(b: Block, r: Rates, gender: Gender) -> Seq<int> {
    Seq::new(AGE_COUNT as nat, |a: int| migrants_at(b, r, gender, a))
}

/// The survivors of one gender by the age at which the year found them.
pub open spec fn survivors_by_age(b: Block, r: Rates, gender: Gender) -> Seq<int> {
    Seq::new(AGE_COUNT as nat, |a: int| survivors_at(b, r, gender, a))
}

/// The arrivals that the rates send to each age, departures left aside.
pub open spec fn arrivals_by_age(r: Rates, gender: Gender) -> Seq<int> {
    Seq::new(
        AGE_COUNT as nat,
        |a: int| if r.migration(gender)[a] > 0 {
            r.migration(gender)[a]
        } else {
            0
        },
    )
}

/// All children born in the region within the year.
pub open spec fn births(b: Block, r: Rates) -> int {
    sum(births_by_age(b, r))
}

/// The boys among them: `sex_ratio` of every `sex_ratio + 100`.
pub open spec fn boys(b: Block, r: Rates) -> int {
    share(births(b, r), r.sex_ratio, SEX_RATIO_BASE as int)
}

/// The newborn of one gender. The girls are the births that are not boys.
pub open spec fn newborns(b: Block, r: Rates, gender: Gender) -> int {
    match gender {
        Gender::Male => boys(b, r),
        Gender::Female => births(b, r) - boys(b, r),
    }
}

/// All who die in the region within the year.
pub open spec fn deaths(b: Block, r: Rates) -> int {
    sum(deaths_by_age(b, r, Gender::Male)) + sum(deaths_by_age(b, r, Gender::Female))
}

/// The migrants that the region gained within the year, net of those it lost.
pub open spec fn net_migration(b: Block, r: Rates) -> int {
    sum(migrants_by_age(b, r, Gender::Male)) + sum(migrants_by_age(b, r, Gender::Female))
}

/// The arrivals that the rates send to the region, departures left aside: the
/// most that migration can add.
pub open spec fn inflow(r: Rates) -> int {
    sum(arrivals_by_age(r, Gender::Male)) + sum(arrivals_by_age(r, Gender::Female))
}

/// The cohort of `age` at the end of the year: the newborn at age 0; at the
/// oldest age the survivors of that age and of the one before; between them
/// the survivors of the age before.
pub open spec fn next_count(b: Block, r: Rates, gender: Gender, age: int) -> int {
    if age == 0 {
        newborns(b, r, gender)
    } else if age < AGE_COUNT - 1 {
        survivors_at(b, r, gender, age - 1)
    } else {
        survivors_at(b, r, gender, age - 1) + survivors_at(b, r, gender, age)
    }
}

/// The counts of one gender at the end of the year, by age.
pub open spec fn next_counts(b: Block, r: Rates, gender: Gender) -> Seq<int> {
    Seq::new(AGE_COUNT as nat, |a: int| next_count(b, r, gender, a))
}

/// The region one year on.
pub open spec fn step(b: Block, r: Rates) -> Block {
    Block {
        id: b.id,
        male: next_counts(b, r, Gender::Male),
        female: next_counts(b, r, Gender::Female),
    }
}

/// Migration leaves no cohort negative, and takes from none more than it has.
pub proof fn lemma_cohort_year(b: Block, r: Rates, gender: Gender, age: int)
    requires
        b.wf(),
        r.wf(),
        0 <= age < AGE_COUNT,
    ensures
        0 <= settled_at(b, r, gender, age),
        -b.of(gender)[age] <= migrants_at(b, r, gender, age) <= arrivals_by_age(r, gender)[age],
        0 <= deaths_at(b, r, gender, age) <= settled_at(b, r, gender, age),
        0 <= survivors_at(b, r, gender, age) <= settled_at(b, r, gender, age),
{
    assert(0 <= b.male[age] && 0 <= b.female[age]);
    assert(0 <= r.mortality_male[age] <= SCALE && 0 <= r.mortality_female[age] <= SCALE);
    lemma_scaled_within(settled_at(b, r, gender, age), r.mortality(gender)[age]);
}

/// The births of a year are no more than the women of child-bearing age, and
/// the newborn of either gender no more than the births.
pub proof fn lemma_births_bounded(b: Block, r: Rates)
    requires
        b.wf(),
        r.wf(),
    ensures
        0 <= births(b, r) <= sum(b.female),
        0 <= boys(b, r) <= births(b, r),
        forall|a: int| 0 <= a < AGE_COUNT ==> 0 <= #[trigger] births_at(b, r, a) <= b.female[a],
{
    let by_age = births_by_age(b, r);
    assert forall|a: int| 0 <= a < AGE_COUNT implies 0 <= #[trigger] births_at(b, r, a)
        <= b.female[a] by {
        assert(0 <= b.female[a]);
        assert(0 <= r.fertility[a] <= SCALE);
        lemma_scaled_within(b.female[a], r.fertility[a]);
    }
    assert forall|a: int| 0 <= a < by_age.len() implies 0 <= #[trigger] by_age[a] by {
        assert(by_age[a] == births_at(b, r, a));
    }
    lemma_sum_nonnegative(by_age);
    assert forall|a: int| 0 <= a < by_age.len() implies #[trigger] by_age[a] <= b.female[a] by {
        assert(by_age[a] == births_at(b, r, a));
    }
    lemma_sum_pointwise_le(by_age, b.female);
    lemma_share_within(births(b, r), r.sex_ratio, SEX_RATIO_BASE as int);
}

/// Within one gender, those alive at the end of the year are the newborn and
/// the survivors.
pub proof fn lemma_next_counts_sum(b: Block, r: Rates, gender: Gender)
    requires
        b.wf(),
        r.wf(),
    ensures
        sum(next_counts(b, r, gender)) == newborns(b, r, gender) + sum(
            survivors_by_age(b, r, gender),
        ),
{
    let next = next_counts(b, r, gender);
    let alive = survivors_by_age(b, r, gender);
    let last: int = AGE_COUNT - 1;
    // Both sums, with the two oldest ages set apart.
    let young = alive.take(last - 1);
    assert(alive =~= young.push(alive[last - 1]).push(alive[last]));
    lemma_sum_push(young.push(alive[last - 1]), alive[last]);
    lemma_sum_push(young, alive[last - 1]);
    let head = seq![newborns(b, r, gender)];
    assert(next =~= (head + young).push(alive[last - 1] + alive[last]));
    lemma_sum_push(head + young, alive[last - 1] + alive[last]);
    lemma_sum_concat(head, young);
    assert(sum(head) == newborns(b, r, gender)) by {
        assert(head.drop_last() =~= Seq::<int>::empty());
        assert(sum(head.drop_last()) == 0);
    }
}

/// Within one gender, the survivors are those who were there, with the
/// migrants and without the dead.
pub proof fn lemma_survivors_sum(b: Block, r: Rates, gender: Gender)
    requires
        b.wf(),
        r.wf(),
    ensures
        sum(survivors_by_age(b, r, gender)) == sum(b.of(gender)) + sum(
            migrants_by_age(b, r, gender),
        ) - sum(deaths_by_age(b, r, gender)),
{
    let settled = Seq::new(AGE_COUNT as nat, |a: int| settled_at(b, r, gender, a));
    lemma_sum_of_sums(b.of(gender), migrants_by_age(b, r, gender), settled);
    lemma_sum_of_differences(
        settled,
        deaths_by_age(b, r, gender),
        survivors_by_age(b, r, gender),
    );
}

/// Conservation: the population at the end of the year is that at its start,
/// with the births and the net migration and without the deaths.
pub proof fn lemma_step_conserves(b: Block, r: Rates)
    requires
        b.wf(),
        r.wf(),
    ensures
        step(b, r).total() == b.total() + births(b, r) - deaths(b, r) + net_migration(b, r),
{
    lemma_next_counts_sum(b, r, Gender::Male);
    lemma_next_counts_sum(b, r, Gender::Female);
    lemma_survivors_sum(b, r, Gender::Male);
    lemma_survivors_sum(b, r, Gender::Female);
}

/// No count is negative after a year, whatever the rates.
pub proof fn lemma_step_wf(b: Block, r: Rates)
    requires
        b.wf(),
        r.wf(),
    ensures
        step(b, r).wf(),
        step(b, r).id == b.id,
{
    lemma_births_bounded(b, r);
    let next = step(b, r);
    assert forall|a: int| 0 <= a < AGE_COUNT implies 0 <= #[trigger] next.male[a] by {
        if a > 0 {
            lemma_cohort_year(b, r, Gender::Male, a - 1);
            lemma_cohort_year(b, r, Gender::Male, a);
        }
    }
    assert forall|a: int| 0 <= a < AGE_COUNT implies 0 <= #[trigger] next.female[a] by {
        if a > 0 {
            lemma_cohort_year(b, r, Gender::Female, a - 1);
            lemma_cohort_year(b, r, Gender::Female, a);
        }
    }
}

/// The sums of a year lie within what the block and the rates allow: nobody
/// dies who was not there or arrived, migration removes no more than the
/// population and adds no more than the inflow.
pub proof fn lemma_year_bounded(b: Block, r: Rates)
    requires
        b.wf(),
        r.wf(),
    ensures
        0 <= b.total(),
        0 <= inflow(r),
        0 <= births(b, r) <= b.total(),
        0 <= deaths(b, r) <= b.total() + net_migration(b, r),
        -b.total() <= net_migration(b, r) <= inflow(r),
        0 <= step(b, r).total() <= b.total() + births(b, r) + inflow(r),
{
    lemma_births_bounded(b, r);
    lemma_sum_nonnegative(b.male);
    lemma_sum_nonnegative(b.female);
    lemma_gender_bounded(b, r, Gender::Male);
    lemma_gender_bounded(b, r, Gender::Female);
    lemma_step_conserves(b, r);
}

/// The bounds of `lemma_year_bounded`, within one gender.
pub proof fn lemma_gender_bounded(b: Block, r: Rates, gender: Gender)
    requires
        b.wf(),
        r.wf(),
    ensures
        0 <= sum(arrivals_by_age(r, gender)),
        -sum(b.of(gender)) <= sum(migrants_by_age(b, r, gender)) <= sum(
            arrivals_by_age(r, gender),
        ),
        0 <= sum(deaths_by_age(b, r, gender)) <= sum(b.of(gender)) + sum(
            migrants_by_age(b, r, gender),
        ),
{
    let counts = b.of(gender);
    let moved = migrants_by_age(b, r, gender);
    let arriving = arrivals_by_age(r, gender);
    let dead = deaths_by_age(b, r, gender);
    let alive = survivors_by_age(b, r, gender);
    let leaving = Seq::new(AGE_COUNT as nat, |a: int| -counts[a]);
    let zeros = Seq::new(AGE_COUNT as nat, |a: int| 0int);
    assert forall|a: int| 0 <= a < AGE_COUNT implies 0 <= #[trigger] arriving[a] by {}
    assert forall|a: int| 0 <= a < AGE_COUNT implies leaving[a] <= #[trigger] moved[a]
        <= arriving[a] by {
        lemma_cohort_year(b, r, gender, a);
    }
    assert forall|a: int| 0 <= a < AGE_COUNT implies 0 <= #[trigger] dead[a] by {
        lemma_cohort_year(b, r, gender, a);
    }
    assert forall|a: int| 0 <= a < AGE_COUNT implies 0 <= #[trigger] alive[a] by {
        lemma_cohort_year(b, r, gender, a);
    }
    lemma_sum_nonnegative(arriving);
    lemma_sum_nonnegative(dead);
    lemma_sum_nonnegative(alive);
    lemma_sum_pointwise_le(moved, arriving);
    lemma_sum_pointwise_le(leaving, moved);
    lemma_sum_of_differences(zeros, counts, leaving);
    crate::sums::lemma_sum_zeros(zeros);
    lemma_survivors_sum(b, r, gender);
}

/// Where the population with its births and all arrivals stays within `limit`,
/// so does every count of the year and of the region one year on.
pub proof fn lemma_step_fits(b: Block, r: Rates, limit: int)
    requires
        b.wf(),
        r.wf(),
        b.total() + births(b, r) + inflow(r) <= limit,
    ensures
        0 <= births(b, r) <= limit,
        0 <= boys(b, r) <= births(b, r),
        0 <= deaths(b, r) <= limit,
        -limit <= net_migration(b, r) <= limit,
        0 <= step(b, r).total() <= limit,
        forall|g: Gender, a: int|
            0 <= a < AGE_COUNT ==> 0 <= #[trigger] next_count(b, r, g, a) <= limit,
        forall|g: Gender, a: int|
            0 <= a < AGE_COUNT ==> 0 <= #[trigger] survivors_at(b, r, g, a) <= limit,
        forall|g: Gender| 0 <= #[trigger] sum(deaths_by_age(b, r, g)) <= limit,
        forall|g: Gender| -limit <= #[trigger] sum(migrants_by_age(b, r, g)) <= limit,
{
    lemma_year_bounded(b, r);
    lemma_gender_bounded(b, r, Gender::Male);
    lemma_gender_bounded(b, r, Gender::Female);
    lemma_sum_nonnegative(b.male);
    lemma_sum_nonnegative(b.female);
    lemma_births_bounded(b, r);
    lemma_step_wf(b, r);
    let next = step(b, r);
    lemma_sum_nonnegative(next.male);
    lemma_sum_nonnegative(next.female);
    assert forall|g: Gender, a: int| 0 <= a < AGE_COUNT implies 0 <= #[trigger] next_count(
        b,
        r,
        g,
        a,
    ) <= limit by {
        assert(next.of(g)[a] == next_count(b, r, g, a));
        assert(0 <= next.male[a] && 0 <= next.female[a]);
        assert(next.of(g)[a] <= sum(next.of(g)));
    }
    assert forall|g: Gender, a: int| 0 <= a < AGE_COUNT implies 0 <= #[trigger] survivors_at(
        b,
        r,
        g,
        a,
    ) <= limit by {
        lemma_cohort_year(b, r, g, a);
        let alive = survivors_by_age(b, r, g);
        assert forall|k: int| 0 <= k < alive.len() implies 0 <= #[trigger] alive[k] by {
            lemma_cohort_year(b, r, g, k);
        }
        lemma_sum_nonnegative(alive);
        assert(alive[a] == survivors_at(b, r, g, a));
        lemma_next_counts_sum(b, r, g);
        lemma_next_counts_sum(b, r, Gender::Male);
        lemma_next_counts_sum(b, r, Gender::Female);
    }
}

} // verus!

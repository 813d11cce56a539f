//! The head counts of one region, and the year that ages them.

use vstd::prelude::*;
use crate::engine::model::{after_migration, arrivals_by_age, births, births_at, births_by_age,
    Block, boys, deaths, deaths_at, deaths_by_age, inflow, lemma_births_bounded,
    lemma_cohort_year, lemma_step_fits, migrants_at, migrants_by_age, net_migration, newborns,
    next_count, next_counts, Rates, settled_at, step, survivors_at};
use crate::fixed::{scale_down, SCALE, take_share};
use crate::sums::{counts, lemma_prefix_sum_full, lemma_prefix_sum_step, lemma_sum_nonnegative,
    prefix_sum, signed, sum};
use crate::engine::state::{lemma_listed_push, listed_count, listed_total, same_key};
use crate::types::demographic::{AGE_COUNT, Cohort, FERTILITY_MAX_AGE, FERTILITY_MIN_AGE, Gender,
    MAX_AGE, SEX_RATIO_BASE};

verus! {

/// The sums of one year: the children born, the dead, and the migrants gained
/// net of those lost.
#[derive(Debug, Clone, Copy, PartialEq, Eq, Structural)]
pub struct Tally {
    pub births: u64,
    pub deaths: u64,
    pub net_migration: i128,
}

/// What happens within one year in one region: for each age the death rate
/// and the net migration of each gender and the birth rate of the women, and
/// the region's sex ratio at birth.
#[derive(Debug, Clone)]
pub struct YearRates {
    pub mortality_male: Vec<u64>,
    pub mortality_female: Vec<u64>,
    pub fertility: Vec<u64>,
    pub migration_male: Vec<i64>,
    pub migration_female: Vec<i64>,
    pub sex_ratio: u64,
}

impl YearRates {
    /// The rates as mathematical integers.
    pub open spec fn view(&self) -> Rates {
        Rates {
            mortality_male: counts(self.mortality_male@),
            mortality_female: counts(self.mortality_female@),
            fertility: counts(self.fertility@),
            migration_male: signed(self.migration_male@),
            migration_female: signed(self.migration_female@),
            sex_ratio: self.sex_ratio as int,
        }
    }

    /// Every age has its rates, and no rate is above 1.0.
    pub open spec fn wf(&self) -> bool {
        self@.wf()
    }

    /// The arrivals that the rates name, departures left aside.
    pub fn inflow(&self) -> (arriving: u128)
        requires
            self.wf(),
        ensures
            arriving == inflow(self@),
            arriving <= 2 * AGE_COUNT * i64::MAX,
    {
        let men: u128 = arrivals_of(&self.migration_male, Ghost(self@), Ghost(Gender::Male));
        let women: u128 = arrivals_of(&self.migration_female, Ghost(self@), Ghost(Gender::Female));
        men + women
    }
}

/// The arrivals of one gender.
fn arrivals_of(migration: &Vec<i64>, Ghost(r): Ghost<Rates>, Ghost(g): Ghost<Gender>) -> (arriving: u128)
    requires
        r.wf(),
        signed(migration@) == r.migration(g),
    ensures
        arriving == sum(arrivals_by_age(r, g)),
        arriving <= AGE_COUNT * i64::MAX,
{
    let ghost by_age = arrivals_by_age(r, g);
    proof {
        lemma_prefix_sum_full(by_age);
    }
    let mut arriving: u128 = 0;
    let mut age: usize = 0;
    while age < AGE_COUNT
        invariant
            age <= AGE_COUNT,
            r.wf(),
            migration@.len() == AGE_COUNT,
            signed(migration@) == r.migration(g),
            by_age == arrivals_by_age(r, g),
            arriving == prefix_sum(by_age, age as int),
            arriving <= age * i64::MAX,
        decreases AGE_COUNT - age,
    {
        proof {
            lemma_prefix_sum_step(by_age, age as int);
            assert(r.migration(g)[age as int] == migration@[age as int]);
        }
        if migration[age] > 0 {
            arriving = arriving + (migration[age] as u128);
        }
        age += 1;
    }
    arriving
}

/// The head counts of one region by age and gender.
pub struct RegionCohorts {
    id: String,
    male: Vec<u64>,
    female: Vec<u64>,
}

/// A cohort after its migrants have come or gone.
fn settle(count: u64, net: i64) -> (settled: u128)
    ensures
        settled == after_migration(count as int, net as int),
        settled <= count + i64::MAX,
{
    if net >= 0 {
        (count as u128) + (net as u128)
    } else {
        let leaving: u128 = (-(net as i128)) as u128;
        if leaving >= count as u128 {
            0
        } else {
            (count as u128) - leaving
        }
    }
}

/// The children born to the women of a region within the year.
fn births_of(female: &Vec<u64>, fertility: &Vec<u64>, Ghost(b): Ghost<Block>, Ghost(r): Ghost<Rates>) -> (born: u64)
    requires
        b.wf(),
        r.wf(),
        counts(female@) == b.female,
        counts(fertility@) == r.fertility,
        births(b, r) <= u64::MAX,
    ensures
        born == births(b, r),
{
    let ghost by_age = births_by_age(b, r);
    proof {
        lemma_births_bounded(b, r);
        assert forall|a: int| 0 <= a < by_age.len() implies 0 <= #[trigger] by_age[a] by {
            assert(by_age[a] == births_at(b, r, a));
        }
        lemma_sum_nonnegative(by_age);
        lemma_prefix_sum_full(by_age);
    }
    let mut born: u64 = 0;
    let mut age: usize = 0;
    while age < AGE_COUNT
        invariant
            age <= AGE_COUNT,
            b.wf(),
            r.wf(),
            female@.len() == AGE_COUNT,
            fertility@.len() == AGE_COUNT,
            counts(female@) == b.female,
            counts(fertility@) == r.fertility,
            by_age == births_by_age(b, r),
            born == prefix_sum(by_age, age as int),
            forall|n: int| 0 <= n <= by_age.len() ==> 0 <= #[trigger] prefix_sum(by_age, n) <= sum(by_age),
            sum(by_age) <= u64::MAX,
        decreases AGE_COUNT - age,
    {
        proof {
            lemma_prefix_sum_step(by_age, age as int);
            assert(prefix_sum(by_age, age + 1) <= sum(by_age));
            assert(by_age[age as int] == births_at(b, r, age as int));
            assert(b.female[age as int] == female@[age as int]);
            assert(r.fertility[age as int] == fertility@[age as int]);
            assert(0 <= r.fertility[age as int] <= SCALE);
        }
        if FERTILITY_MIN_AGE as usize <= age && age <= FERTILITY_MAX_AGE as usize {
            let born_here: u64 = scale_down(female[age], fertility[age]);
            born = born + born_here;
        }
        age += 1;
    }
    born
}

/// One gender of a region one year on, with its dead and its migrants.
fn age_one_gender(
    heads: &Vec<u64>,
    migration: &Vec<i64>,
    mortality: &Vec<u64>,
    newborn: u64,
    Ghost(b): Ghost<Block>,
    Ghost(r): Ghost<Rates>,
    Ghost(g): Ghost<Gender>,
) -> (out: (Vec<u64>, u64, i128))
    requires
        b.wf(),
        r.wf(),
        counts(heads@) == b.of(g),
        signed(migration@) == r.migration(g),
        counts(mortality@) == r.mortality(g),
        newborn == newborns(b, r, g),
        forall|a: int| 0 <= a < AGE_COUNT ==> 0 <= #[trigger] next_count(b, r, g, a) <= u64::MAX,
        forall|a: int| 0 <= a < AGE_COUNT ==> 0 <= #[trigger] survivors_at(b, r, g, a) <= u64::MAX,
        0 <= sum(deaths_by_age(b, r, g)) <= u64::MAX,
    ensures
        counts(out.0@) == next_counts(b, r, g),
        out.1 == sum(deaths_by_age(b, r, g)),
        out.2 == sum(migrants_by_age(b, r, g)),
{
    let ghost dead_by_age = deaths_by_age(b, r, g);
    let ghost moved_by_age = migrants_by_age(b, r, g);
    proof {
        assert forall|a: int| 0 <= a < dead_by_age.len() implies 0 <= #[trigger] dead_by_age[a] by {
            lemma_cohort_year(b, r, g, a);
        }
        lemma_sum_nonnegative(dead_by_age);
        lemma_prefix_sum_full(dead_by_age);
        lemma_prefix_sum_full(moved_by_age);
    }
    let mut next: Vec<u64> = Vec::new();
    next.push(newborn);
    let mut dead: u64 = 0;
    let mut moved: i128 = 0;
    let mut carry: u64 = 0;
    let mut age: usize = 0;
    while age < AGE_COUNT
        invariant
            age <= AGE_COUNT,
            b.wf(),
            r.wf(),
            heads@.len() == AGE_COUNT,
            migration@.len() == AGE_COUNT,
            mortality@.len() == AGE_COUNT,
            counts(heads@) == b.of(g),
            signed(migration@) == r.migration(g),
            counts(mortality@) == r.mortality(g),
            dead_by_age == deaths_by_age(b, r, g),
            moved_by_age == migrants_by_age(b, r, g),
            forall|a: int| 0 <= a < AGE_COUNT ==> 0 <= #[trigger] next_count(b, r, g, a) <= u64::MAX,
            forall|a: int| 0 <= a < AGE_COUNT ==> 0 <= #[trigger] survivors_at(b, r, g, a) <= u64::MAX,
            forall|n: int| 0 <= n <= dead_by_age.len() ==> 0 <= #[trigger] prefix_sum(dead_by_age, n) <= sum(dead_by_age),
            sum(dead_by_age) <= u64::MAX,
            dead == prefix_sum(dead_by_age, age as int),
            moved == prefix_sum(moved_by_age, age as int),
            -(age * 0x1_0000_0000_0000_0000) <= moved <= age * 0x1_0000_0000_0000_0000,
            next@.len() == (if age < AGE_COUNT - 1 { age + 1 } else { age as int }),
            forall|k: int| 0 <= k < next@.len() ==> #[trigger] next@[k] == next_count(b, r, g, k),
            age == AGE_COUNT - 1 ==> carry == survivors_at(b, r, g, age - 1),
        decreases AGE_COUNT - age,
    {
        let head: u64 = heads[age];
        let net: i64 = migration[age];
        let rate: u64 = mortality[age];
        proof {
            lemma_cohort_year(b, r, g, age as int);
            lemma_prefix_sum_step(dead_by_age, age as int);
            lemma_prefix_sum_step(moved_by_age, age as int);
            assert(prefix_sum(dead_by_age, age + 1) <= sum(dead_by_age));
            assert(b.of(g)[age as int] == head);
            assert(r.migration(g)[age as int] == net);
            assert(r.mortality(g)[age as int] == rate);
            assert(0 <= r.mortality_male[age as int] <= SCALE && 0 <= r.mortality_female[age as int] <= SCALE);
            assert(dead_by_age[age as int] == deaths_at(b, r, g, age as int));
            assert(moved_by_age[age as int] == migrants_at(b, r, g, age as int));
        }
        let settled: u128 = settle(head, net);
        assert(settled == settled_at(b, r, g, age as int));
        proof {
            assert(settled * rate <= settled * SCALE) by (nonlinear_arith)
                requires
                    rate <= SCALE,
                    0 <= settled,
            ;
        }
        let gone: u128 = settled * (rate as u128) / (SCALE as u128);
        assert(gone == deaths_at(b, r, g, age as int));
        let alive: u128 = settled - gone;
        assert(alive == survivors_at(b, r, g, age as int));
        dead = dead + (gone as u64);
        moved = moved + (settled as i128) - (head as i128);
        if age < AGE_COUNT - 2 {
            next.push(alive as u64);
        } else if age == AGE_COUNT - 2 {
            carry = alive as u64;
        } else {
            assert(next_count(b, r, g, age as int) == carry + alive);
            next.push(carry + (alive as u64));
        }
        age += 1;
    }
    assert(counts(next@) =~= next_counts(b, r, g));
    (next, dead, moved)
}

impl RegionCohorts {
    /// The block of the region: its counts as mathematical integers.
    pub closed spec fn view(&self) -> Block {
        Block { id: self.id@, male: counts(self.male@), female: counts(self.female@) }
    }

    /// Every age has a count.
    pub open spec fn wf(&self) -> bool {
        self@.wf()
    }

    /// The region `id` with nobody in it.
    pub fn new(id: String) -> (region: Self)
        ensures
            region@ == Block::vacant(id@),
            region.wf(),
    {
        let mut male: Vec<u64> = Vec::new();
        let mut female: Vec<u64> = Vec::new();
        let mut age: usize = 0;
        while age < AGE_COUNT
            invariant
                age <= AGE_COUNT,
                male@.len() == age,
                female@.len() == age,
                forall|k: int| 0 <= k < age ==> male@[k] == 0 && female@[k] == 0,
            decreases AGE_COUNT - age,
        {
            male.push(0);
            female.push(0);
            age += 1;
        }
        let region = RegionCohorts { id, male, female };
        assert(region@.male =~= Block::vacant(id@).male);
        assert(region@.female =~= Block::vacant(id@).female);
        region
    }

    /// The region.
    pub fn id(&self) -> (id: &String)
        ensures
            id@ == self@.id,
    {
        &self.id
    }

    /// The count at `age` for `gender`; zero at an age that the model has not.
    pub fn count(&self, age: u32, gender: Gender) -> (count: u64)
        requires
            self.wf(),
        ensures
            count == self@.count(age as int, gender),
    {
        if age > MAX_AGE {
            return 0;
        }
        match gender {
            Gender::Male => self.male[age as usize],
            Gender::Female => self.female[age as usize],
        }
    }

    /// All heads of the region.
    pub fn total(&self) -> (total: u128)
        requires
            self.wf(),
        ensures
            total == self@.total(),
    {
        proof {
            lemma_prefix_sum_full(self@.male);
            lemma_prefix_sum_full(self@.female);
        }
        let mut total: u128 = 0;
        let mut age: usize = 0;
        while age < AGE_COUNT
            invariant
                age <= AGE_COUNT,
                self.male@.len() == AGE_COUNT,
                self.female@.len() == AGE_COUNT,
                total == prefix_sum(self@.male, age as int) + prefix_sum(self@.female, age as int),
                total <= 2 * age * u64::MAX,
            decreases AGE_COUNT - age,
        {
            proof {
                lemma_prefix_sum_step(self@.male, age as int);
                lemma_prefix_sum_step(self@.female, age as int);
            }
            total = total + (self.male[age] as u128) + (self.female[age] as u128);
            age += 1;
        }
        total
    }

    /// Adds `amount` heads to the cohort of `age` and `gender`.
    pub fn deposit(&mut self, age: u32, gender: Gender, amount: u64)
        requires
            old(self).wf(),
            age <= MAX_AGE,
            old(self)@.count(age as int, gender) + amount <= u64::MAX,
        ensures
            final(self).wf(),
            final(self)@ == old(self)@.plus(age as int, gender, amount as int),
    {
        match gender {
            Gender::Male => {
                let now: u64 = self.male[age as usize] + amount;
                self.male.set(age as usize, now);
                assert(self@.male =~= old(self)@.male.update(age as int, now as int));
                assert(self@.female =~= old(self)@.female);
            },
            Gender::Female => {
                let now: u64 = self.female[age as usize] + amount;
                self.female.set(age as usize, now);
                assert(self@.female =~= old(self)@.female.update(age as int, now as int));
                assert(self@.male =~= old(self)@.male);
            },
        }
    }

    /// Lists, after what `out` holds, the cohorts of the region that count
    /// somebody: by age, and the men of an age before the women.
    pub fn export_into(&self, out: &mut Vec<Cohort>)
        requires
            self.wf(),
        ensures
            final(out)@.len() >= old(out)@.len(),
            final(out)@.take(old(out)@.len() as int) == old(out)@,
            listed_total(final(out)@) == listed_total(old(out)@) + self@.total(),
            forall|q: Seq<char>, a: int, g: Gender| #[trigger]
                listed_count(final(out)@, q, a, g) == listed_count(old(out)@, q, a, g) + (if q
                    == self@.id {
                    self@.count(a, g)
                } else {
                    0
                }),
            forall|k: int|
                old(out)@.len() <= k < final(out)@.len() ==> {
                    &&& (#[trigger] final(out)@[k]).region_id@ == self@.id
                    &&& final(out)@[k].count > 0
                    &&& final(out)@[k].age <= MAX_AGE
                },
            forall|k: int, l: int|
                old(out)@.len() <= k < l < final(out)@.len() ==> !same_key(
                    #[trigger] final(out)@[k],
                    #[trigger] final(out)@[l],
                ),
    {
        let ghost start = out@;
        let ghost b = self@;
        proof {
            lemma_prefix_sum_full(b.male);
            lemma_prefix_sum_full(b.female);
        }
        let mut age: u32 = 0;
        while age < AGE_COUNT as u32
            invariant
                age <= AGE_COUNT,
                self.wf(),
                b == self@,
                out@.len() >= start.len(),
                out@.take(start.len() as int) == start,
                listed_total(out@) == listed_total(start) + prefix_sum(b.male, age as int)
                    + prefix_sum(b.female, age as int),
                forall|q: Seq<char>, a: int, g: Gender| #[trigger]
                    listed_count(out@, q, a, g) == listed_count(start, q, a, g) + (if q == b.id
                        && a < age {
                        b.count(a, g)
                    } else {
                        0
                    }),
                forall|k: int|
                    start.len() <= k < out@.len() ==> {
                        &&& (#[trigger] out@[k]).region_id@ == b.id
                        &&& out@[k].count > 0
                        &&& out@[k].age < age
                    },
                forall|k: int, l: int|
                    start.len() <= k < l < out@.len() ==> !same_key(
                        #[trigger] out@[k],
                        #[trigger] out@[l],
                    ),
            decreases AGE_COUNT - age,
        {
            proof {
                lemma_prefix_sum_step(b.male, age as int);
                lemma_prefix_sum_step(b.female, age as int);
            }
            let men: u64 = self.male[age as usize];
            let women: u64 = self.female[age as usize];
            let ghost before = out@;
            if men > 0 {
                let cohort = Cohort {
                    age,
                    gender: Gender::Male,
                    region_id: self.id.clone(),
                    count: men,
                };
                proof {
                    lemma_listed_push(out@, cohort);
                }
                out.push(cohort);
            }
            let ghost between = out@;
            if women > 0 {
                let cohort = Cohort {
                    age,
                    gender: Gender::Female,
                    region_id: self.id.clone(),
                    count: women,
                };
                proof {
                    lemma_listed_push(out@, cohort);
                }
                out.push(cohort);
            }
            proof {
                assert(out@.take(start.len() as int) =~= start);
                assert forall|q: Seq<char>, a: int, g: Gender| #[trigger]
                    listed_count(out@, q, a, g) == listed_count(start, q, a, g) + (if q == b.id
                        && a < age + 1 {
                        b.count(a, g)
                    } else {
                        0
                    }) by {
                    // The two pushes, one after the other.
                    assert(listed_count(between, q, a, g) >= listed_count(before, q, a, g));
                    assert(listed_count(out@, q, a, g) >= listed_count(between, q, a, g));
                }
            }
            age += 1;
        }
    }

    /// The children born in the region within the year that `rates` describes.
    pub fn births(&self, rates: &YearRates) -> (born: u64)
        requires
            self.wf(),
            rates.wf(),
            self@.total() <= u64::MAX,
        ensures
            born == births(self@, rates@),
    {
        proof {
            crate::engine::model::lemma_year_bounded(self@, rates@);
        }
        births_of(&self.female, &rates.fertility, Ghost(self@), Ghost(rates@))
    }

    /// The region one year on, and the sums of the year. The population with
    /// its births and with all the arrivals that `rates` names must not exceed
    /// the largest representable number.
    pub fn advance(&self, rates: &YearRates) -> (out: (RegionCohorts, Tally))
        requires
            self.wf(),
            rates.wf(),
            self@.total() + births(self@, rates@) + inflow(rates@) <= u64::MAX,
        ensures
            out.0@ == step(self@, rates@),
            out.0.wf(),
            out.1.births == births(self@, rates@),
            out.1.deaths == deaths(self@, rates@),
            out.1.net_migration == net_migration(self@, rates@),
    {
        proof {
            lemma_step_fits(self@, rates@, u64::MAX as int);
            crate::engine::model::lemma_step_wf(self@, rates@);
        }
        let ghost b = self@;
        let ghost r = rates@;
        let born: u64 = births_of(&self.female, &rates.fertility, Ghost(b), Ghost(r));
        let sons: u64 = take_share(born, rates.sex_ratio, SEX_RATIO_BASE);
        let daughters: u64 = born - sons;
        assert(sons == boys(b, r));
        let men = age_one_gender(
            &self.male,
            &rates.migration_male,
            &rates.mortality_male,
            sons,
            Ghost(b),
            Ghost(r),
            Ghost(Gender::Male),
        );
        let women = age_one_gender(
            &self.female,
            &rates.migration_female,
            &rates.mortality_female,
            daughters,
            Ghost(b),
            Ghost(r),
            Ghost(Gender::Female),
        );
        let tally = Tally { births: born, deaths: men.1 + women.1, net_migration: men.2 + women.2 };
        let region = RegionCohorts { id: self.id.clone(), male: men.0, female: women.0 };
        (region, tally)
    }
}

} // verus!

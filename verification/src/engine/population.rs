//! The figures that sum a list of cohorts up: the heads in all and of each
//! gender, the median age, the sex ratio and the dependency ratio.

use vstd::prelude::*;
use crate::fixed::{percent_of, percentage};
use crate::engine::state::{listed_total, same_key};
use crate::text::same_text;
use crate::types::demographic::{Cohort, Gender, MAX_AGE, Population, PopulationMetadata};

verus! {

/// The youngest and the oldest working age.
pub const WORKING_MIN_AGE: u32 = 15;

/// See `WORKING_MIN_AGE`.
pub const WORKING_MAX_AGE: u32 = 64;

/// A part of a population.
pub enum Part {
    All,
    Male,
    Female,
    /// Those younger than the working ages.
    Young,
    /// Those of the working ages.
    Working,
    /// Those older than the working ages.
    Old,
    /// Those younger than the given age.
    Below(int),
    /// Those of the given age, gender and region.
    Of(u32, Gender, Seq<char>),
}

impl Part {
    /// Whether a cohort belongs to the part.
    pub open spec fn holds(self, cohort: Cohort) -> bool {
        match self {
            Part::All => true,
            Part::Male => cohort.gender == Gender::Male,
            Part::Female => cohort.gender == Gender::Female,
            Part::Young => cohort.age < WORKING_MIN_AGE,
            Part::Working => WORKING_MIN_AGE <= cohort.age <= WORKING_MAX_AGE,
            Part::Old => cohort.age > WORKING_MAX_AGE,
            Part::Below(age) => cohort.age < age,
            Part::Of(age, gender, region) => cohort.age == age && cohort.gender == gender
                && cohort.region_id@ == region,
        }
    }
}

/// The heads of the cohorts that belong to `part`.
pub open spec fn heads(cohorts: Seq<Cohort>, part: Part) -> int
    decreases cohorts.len(),
{
    if cohorts.len() == 0 {
        0
    } else {
        heads(cohorts.drop_last(), part) + (if part.holds(cohorts.last()) {
            cohorts.last().count as int
        } else {
            0
        })
    }
}

/// Whether `age` is the median age: half of all heads, or more, are of that
/// age or younger, and fewer than half are younger.
pub open spec fn is_median_age(cohorts: Seq<Cohort>, age: u32) -> bool {
    &&& 2 * heads(cohorts, Part::Below(age + 1)) >= heads(cohorts, Part::All)
    &&& 2 * heads(cohorts, Part::Below(age as int)) < heads(cohorts, Part::All)
}

/// The figures that sum `cohorts` up. The sex ratio is the men to 100 women,
/// and zero where there are no women; the dependency ratio those younger or
/// older than the working ages to 100 of the working ages, and zero where
/// nobody is of working age; the median age is zero where there is nobody.
pub open spec fn describes(cohorts: Seq<Cohort>, figures: PopulationMetadata) -> bool {
    &&& figures.total_population == heads(cohorts, Part::All)
    &&& figures.male_population == heads(cohorts, Part::Male)
    &&& figures.female_population == heads(cohorts, Part::Female)
    &&& figures.sex_ratio == percentage(heads(cohorts, Part::Male), heads(cohorts, Part::Female))
    &&& figures.dependency_ratio == percentage(
        heads(cohorts, Part::Young) + heads(cohorts, Part::Old),
        heads(cohorts, Part::Working),
    )
    &&& heads(cohorts, Part::All) == 0 ==> figures.median_age == 0
    &&& heads(cohorts, Part::All) > 0 ==> is_median_age(cohorts, figures.median_age)
}

/// The heads of a part of the first `n` cohorts: no more than all heads of
/// those cohorts, which are no more than all heads.
pub proof fn lemma_heads_upto(cohorts: Seq<Cohort>, part: Part, n: int)
    requires
        0 <= n <= cohorts.len(),
    ensures
        0 <= heads(cohorts.take(n), part) <= heads(cohorts.take(n), Part::All) <= heads(
            cohorts,
            Part::All,
        ),
        heads(cohorts.take(n), part) <= heads(cohorts, part),
        n < cohorts.len() ==> heads(cohorts.take(n + 1), part) == heads(cohorts.take(n), part)
            + (if part.holds(cohorts[n]) {
            cohorts[n].count as int
        } else {
            0
        }),
    decreases cohorts.len() - n,
{
    lemma_heads_part(cohorts.take(n), part);
    if n < cohorts.len() {
        assert(cohorts.take(n + 1).drop_last() =~= cohorts.take(n));
        lemma_heads_upto(cohorts, part, n + 1);
        lemma_heads_upto(cohorts, Part::All, n + 1);
    } else {
        assert(cohorts.take(n) =~= cohorts);
    }
}

/// A part holds no more heads than the whole, and none less than nobody.
pub proof fn lemma_heads_part(cohorts: Seq<Cohort>, part: Part)
    ensures
        0 <= heads(cohorts, part) <= heads(cohorts, Part::All),
    decreases cohorts.len(),
{
    if cohorts.len() > 0 {
        lemma_heads_part(cohorts.drop_last(), part);
    }
}

/// The young, those of working age and the old are all; so are the men and
/// the women.
pub proof fn lemma_heads_split(cohorts: Seq<Cohort>)
    ensures
        heads(cohorts, Part::Young) + heads(cohorts, Part::Working) + heads(cohorts, Part::Old)
            == heads(cohorts, Part::All),
        heads(cohorts, Part::Male) + heads(cohorts, Part::Female) == heads(cohorts, Part::All),
    decreases cohorts.len(),
{
    if cohorts.len() > 0 {
        lemma_heads_split(cohorts.drop_last());
    }
}

/// Those younger than an age are no more than those younger than a higher
/// age, and as many where no cohort's age lies between the two.
pub proof fn lemma_heads_below(cohorts: Seq<Cohort>, low: int, high: int)
    requires
        low <= high,
    ensures
        heads(cohorts, Part::Below(low)) <= heads(cohorts, Part::Below(high)),
        (forall|i: int| 0 <= i < cohorts.len() ==> !(low <= (#[trigger] cohorts[i]).age < high))
            ==> heads(cohorts, Part::Below(low)) == heads(cohorts, Part::Below(high)),
        high > u32::MAX ==> heads(cohorts, Part::Below(high)) == heads(cohorts, Part::All),
        low <= 0 ==> heads(cohorts, Part::Below(low)) == 0,
    decreases cohorts.len(),
{
    if cohorts.len() > 0 {
        let shorter = cohorts.drop_last();
        lemma_heads_below(shorter, low, high);
        if forall|i: int| 0 <= i < cohorts.len() ==> !(low <= (#[trigger] cohorts[i]).age < high) {
            assert forall|i: int| 0 <= i < shorter.len() implies !(low <= (
            #[trigger] shorter[i]).age < high) by {
                assert(shorter[i] == cohorts[i]);
            }
            assert(!(low <= cohorts[cohorts.len() - 1].age < high));
        }
    }
}

/// In a list of cohorts whose ages the model has, all heads are the listed
/// total.
pub proof fn lemma_heads_of_census(cohorts: Seq<Cohort>)
    requires
        forall|i: int| 0 <= i < cohorts.len() ==> (#[trigger] cohorts[i]).age <= MAX_AGE,
    ensures
        heads(cohorts, Part::All) == listed_total(cohorts),
    decreases cohorts.len(),
{
    if cohorts.len() > 0 {
        let shorter = cohorts.drop_last();
        assert forall|i: int| 0 <= i < shorter.len() implies (#[trigger] shorter[i]).age
            <= MAX_AGE by {
            assert(shorter[i] == cohorts[i]);
        }
        lemma_heads_of_census(shorter);
        assert(cohorts[cohorts.len() - 1].age <= MAX_AGE);
    }
}

/// The heads of those younger than `bound`.
fn heads_below(cohorts: &[Cohort], bound: u64) -> (below: u64)
    requires
        heads(cohorts@, Part::All) <= u64::MAX,
    ensures
        below == heads(cohorts@, Part::Below(bound as int)),
{
    let ghost part = Part::Below(bound as int);
    let n: usize = cohorts.len();
    let mut below: u64 = 0;
    let mut i: usize = 0;
    while i < n
        invariant
            n == cohorts@.len(),
            i <= n,
            part == Part::Below(bound as int),
            heads(cohorts@, Part::All) <= u64::MAX,
            below == heads(cohorts@.take(i as int), part),
        decreases n - i,
    {
        proof {
            lemma_heads_upto(cohorts@, part, i as int);
            lemma_heads_upto(cohorts@, part, i + 1);
        }
        if (cohorts[i].age as u64) < bound {
            below = below + cohorts[i].count;
        }
        i += 1;
    }
    proof {
        assert(cohorts@.take(n as int) =~= cohorts@);
    }
    below
}

/// The least age of a cohort that is `from` or older.
fn least_age_from(cohorts: &[Cohort], from: u32) -> (least: Option<u32>)
    ensures
        match least {
            Some(age) => age >= from && (exists|i: int|
                0 <= i < cohorts@.len() && (#[trigger] cohorts@[i]).age == age) && (forall|i: int|
                0 <= i < cohorts@.len() ==> !(from <= (#[trigger] cohorts@[i]).age < age)),
            None => forall|i: int| 0 <= i < cohorts@.len() ==> (#[trigger] cohorts@[i]).age < from,
        },
{
    let n: usize = cohorts.len();
    let mut least: Option<u32> = None;
    let mut i: usize = 0;
    while i < n
        invariant
            n == cohorts@.len(),
            i <= n,
            match least {
                Some(age) => age >= from && (exists|k: int|
                    0 <= k < i && (#[trigger] cohorts@[k]).age == age) && (forall|k: int|
                    0 <= k < i ==> !(from <= (#[trigger] cohorts@[k]).age < age)),
                None => forall|k: int| 0 <= k < i ==> (#[trigger] cohorts@[k]).age < from,
            },
        decreases n - i,
    {
        let age: u32 = cohorts[i].age;
        if age >= from {
            match least {
                Some(found) => {
                    if age < found {
                        least = Some(age);
                        assert(cohorts@[i as int].age == age);
                    }
                },
                None => {
                    least = Some(age);
                    assert(cohorts@[i as int].age == age);
                },
            }
        }
        i += 1;
    }
    least
}

/// The median age of a population that counts `total` heads, and at least one.
fn median_age(cohorts: &[Cohort], total: u64) -> (median: u32)
    requires
        total == heads(cohorts@, Part::All),
        total > 0,
    ensures
        is_median_age(cohorts@, median),
{
    let mut from: u32 = 0;
    proof {
        lemma_heads_below(cohorts@, 0, 0);
    }
    loop
        invariant
            total == heads(cohorts@, Part::All),
            total > 0,
            2 * heads(cohorts@, Part::Below(from as int)) < total,
        decreases u32::MAX - from,
    {
        let next = least_age_from(cohorts, from);
        match next {
            None => {
                proof {
                    // Everybody would be younger than `from`, and so more
                    // than half: this cannot be.
                    lemma_heads_below(cohorts@, from as int, u32::MAX + 1);
                }
                return vstd::pervasive::unreached();
            },
            Some(age) => {
                proof {
                    lemma_heads_below(cohorts@, from as int, age as int);
                    lemma_heads_below(cohorts@, age + 1, u32::MAX + 1);
                }
                let upto: u64 = heads_below(cohorts, age as u64 + 1);
                if (upto as u128) * 2 >= total as u128 {
                    return age;
                }
                from = age + 1;
            },
        }
    }
}

/// The figures that sum `cohorts` up. All heads together must be within the
/// largest representable number.
pub fn calculate_metadata(cohorts: &[Cohort]) -> (figures: PopulationMetadata)
    requires
        heads(cohorts@, Part::All) <= u64::MAX,
    ensures
        describes(cohorts@, figures),
{
    let n: usize = cohorts.len();
    let mut total: u64 = 0;
    let mut male: u64 = 0;
    let mut young: u64 = 0;
    let mut working: u64 = 0;
    let mut i: usize = 0;
    while i < n
        invariant
            n == cohorts@.len(),
            i <= n,
            heads(cohorts@, Part::All) <= u64::MAX,
            total == heads(cohorts@.take(i as int), Part::All),
            male == heads(cohorts@.take(i as int), Part::Male),
            young == heads(cohorts@.take(i as int), Part::Young),
            working == heads(cohorts@.take(i as int), Part::Working),
        decreases n - i,
    {
        proof {
            lemma_heads_upto(cohorts@, Part::All, i as int);
            lemma_heads_upto(cohorts@, Part::Male, i as int);
            lemma_heads_upto(cohorts@, Part::Young, i as int);
            lemma_heads_upto(cohorts@, Part::Working, i as int);
            lemma_heads_upto(cohorts@, Part::All, i + 1);
            lemma_heads_upto(cohorts@, Part::Male, i + 1);
            lemma_heads_upto(cohorts@, Part::Young, i + 1);
            lemma_heads_upto(cohorts@, Part::Working, i + 1);
        }
        let cohort = &cohorts[i];
        total = total + cohort.count;
        if cohort.gender == Gender::Male {
            male = male + cohort.count;
        }
        if cohort.age < WORKING_MIN_AGE {
            young = young + cohort.count;
        } else if cohort.age <= WORKING_MAX_AGE {
            working = working + cohort.count;
        }
        i += 1;
    }
    proof {
        assert(cohorts@.take(n as int) =~= cohorts@);
        lemma_heads_split(cohorts@);
        lemma_heads_part(cohorts@, Part::Old);
        lemma_heads_part(cohorts@, Part::Female);
    }
    let female: u64 = total - male;
    let dependent: u64 = total - working;
    let median: u32 = if total == 0 {
        0
    } else {
        median_age(cohorts, total)
    };
    PopulationMetadata {
        total_population: total,
        male_population: male,
        female_population: female,
        median_age: median,
        sex_ratio: percent_of(male, female),
        dependency_ratio: percent_of(dependent, working),
    }
}

impl Population {
    /// The figures that sum `cohorts` up.
    pub fn calculate_metadata(cohorts: &[Cohort]) -> (figures: PopulationMetadata)
        requires
            heads(cohorts@, Part::All) <= u64::MAX,
        ensures
            describes(cohorts@, figures),
    {
        calculate_metadata(cohorts)
    }

    /// The population of `cohorts`, with the figures that sum it up, of no
    /// scenario and no year.
    pub fn from_cohorts(cohorts: Vec<Cohort>) -> (population: Self)
        requires
            heads(cohorts@, Part::All) <= u64::MAX,
        ensures
            population.cohorts == cohorts,
            population.scenario_id@ == Seq::<char>::empty(),
            population.year == 0,
            describes(cohorts@, population.metadata),
    {
        let metadata = calculate_metadata(cohorts.as_slice());
        Population { scenario_id: String::new(), year: 0, cohorts, metadata }
    }
}

/// No two cohorts of the list are of the same age, gender and region.
pub open spec fn distinct_keys(cohorts: Seq<Cohort>) -> bool {
    forall|i: int, j: int|
        0 <= i < j < cohorts.len() ==> !same_key(#[trigger] cohorts[i], #[trigger] cohorts[j])
}

/// One more cohort counts for the parts that it belongs to.
pub proof fn lemma_heads_push(cohorts: Seq<Cohort>, cohort: Cohort, part: Part)
    ensures
        heads(cohorts.push(cohort), part) == heads(cohorts, part) + (if part.holds(cohort) {
            cohort.count as int
        } else {
            0
        }),
{
    assert(cohorts.push(cohort).drop_last() =~= cohorts);
}

/// Another cohort in the place of one counts for its parts in place of the
/// other.
pub proof fn lemma_heads_update(cohorts: Seq<Cohort>, i: int, cohort: Cohort, part: Part)
    requires
        0 <= i < cohorts.len(),
    ensures
        heads(cohorts.update(i, cohort), part) == heads(cohorts, part) - (if part.holds(
            cohorts[i],
        ) {
            cohorts[i].count as int
        } else {
            0
        }) + (if part.holds(cohort) {
            cohort.count as int
        } else {
            0
        }),
    decreases cohorts.len(),
{
    if i == cohorts.len() - 1 {
        assert(cohorts.update(i, cohort).drop_last() =~= cohorts.drop_last());
    } else {
        lemma_heads_update(cohorts.drop_last(), i, cohort, part);
        assert(cohorts.update(i, cohort).drop_last() =~= cohorts.drop_last().update(i, cohort));
    }
}

/// Where no two cohorts share a key, the heads of a key are those of its one
/// cohort, and nobody where it has none.
pub proof fn lemma_heads_of_key(cohorts: Seq<Cohort>, part: Part)
    requires
        distinct_keys(cohorts),
        part is Of,
    ensures
        forall|i: int|
            0 <= i < cohorts.len() && part.holds(#[trigger] cohorts[i]) ==> heads(cohorts, part)
                == cohorts[i].count,
        (forall|i: int| 0 <= i < cohorts.len() ==> !part.holds(#[trigger] cohorts[i])) ==> heads(
            cohorts,
            part,
        ) == 0,
    decreases cohorts.len(),
{
    if cohorts.len() > 0 {
        let shorter = cohorts.drop_last();
        let last = cohorts.len() - 1;
        assert forall|i: int, j: int| 0 <= i < j < shorter.len() implies !same_key(
            #[trigger] shorter[i],
            #[trigger] shorter[j],
        ) by {
            assert(!same_key(cohorts[i], cohorts[j]));
        }
        lemma_heads_of_key(shorter, part);
        if part.holds(cohorts[last]) {
            assert forall|i: int| 0 <= i < shorter.len() implies !part.holds(
                #[trigger] shorter[i],
            ) by {
                assert(!same_key(cohorts[i], cohorts[last]));
            }
        }
        assert forall|i: int| 0 <= i < cohorts.len() && part.holds(
            #[trigger] cohorts[i],
        ) implies heads(cohorts, part) == cohorts[i].count by {
            if i < last {
                assert(shorter[i] == cohorts[i]);
                assert(!same_key(cohorts[i], cohorts[last]));
            }
        }
        if forall|i: int| 0 <= i < cohorts.len() ==> !part.holds(#[trigger] cohorts[i]) {
            assert forall|i: int| 0 <= i < shorter.len() implies !part.holds(
                #[trigger] shorter[i],
            ) by {
                assert(shorter[i] == cohorts[i]);
            }
            assert(!part.holds(cohorts[last]));
        }
    }
}

/// A population in the making: the cohorts of a scenario and a year, set and
/// added to one by one.
pub struct PopulationBuilder {
    scenario_id: String,
    year: u32,
    entries: Vec<Cohort>,
}

impl PopulationBuilder {
    /// The cohorts set so far, one for each age, gender and region.
    pub closed spec fn view(&self) -> Seq<Cohort> {
        self.entries@
    }

    /// The scenario that the population is built for.
    pub closed spec fn scenario(&self) -> Seq<char> {
        self.scenario_id@
    }

    /// The year that the population is built for.
    pub closed spec fn year(&self) -> u32 {
        self.year
    }

    /// No two cohorts are of the same age, gender and region. This holds of
    /// every builder.
    #[verifier::type_invariant]
    pub open spec fn wf(&self) -> bool {
        distinct_keys(self@)
    }

    /// The heads of the cohort of `age` and `gender` in `region`.
    pub open spec fn count(&self, age: u32, gender: Gender, region: Seq<char>) -> int {
        heads(self@, Part::Of(age, gender, region))
    }

    /// A builder for `scenario_id` and `year`, with nobody in it.
    pub fn new(scenario_id: &str, year: u32) -> (builder: Self)
        ensures
            builder.wf(),
            builder@ == Seq::<Cohort>::empty(),
            builder.scenario() == scenario_id@,
            builder.year() == year,
    {
        PopulationBuilder { scenario_id: scenario_id.to_owned(), year, entries: Vec::new() }
    }

    /// The place of the cohort of `age` and `gender` in the region; the number
    /// of cohorts where there is none.
    fn find(&self, age: u32, gender: Gender, region_id: &str) -> (place: usize)
        ensures
            place <= self@.len(),
            place < self@.len() ==> Part::Of(age, gender, region_id@).holds(self@[place as int]),
            forall|k: int|
                0 <= k < place ==> !Part::Of(age, gender, region_id@).holds(#[trigger] self@[k]),
    {
        let n: usize = self.entries.len();
        let mut i: usize = 0;
        while i < n
            invariant
                n == self.entries@.len(),
                i <= n,
                forall|k: int|
                    0 <= k < i ==> !Part::Of(age, gender, region_id@).holds(#[trigger] self@[k]),
            decreases n - i,
        {
            let entry = &self.entries[i];
            if entry.age == age && entry.gender == gender && same_text(
                entry.region_id.as_str(),
                region_id,
            ) {
                return i;
            }
            i += 1;
        }
        n
    }

    /// Sets the cohort of `age` and `gender` in the region to `count` heads.
    pub fn set_cohort(&mut self, age: u32, gender: Gender, region_id: &str, count: u64)
        ensures
            final(self).wf(),
            final(self).scenario() == old(self).scenario(),
            final(self).year() == old(self).year(),
            forall|a: u32, g: Gender, q: Seq<char>| #[trigger]
                final(self).count(a, g, q) == (if a == age && g == gender && q == region_id@ {
                    count as int
                } else {
                    old(self).count(a, g, q)
                }),
    {
        self.put(age, gender, region_id, count, false);
    }

    /// Adds `count` heads to the cohort of `age` and `gender` in the region.
    /// The cohort must stay within the largest representable number.
    pub fn add_to_cohort(&mut self, age: u32, gender: Gender, region_id: &str, count: u64)
        requires
            old(self).count(age, gender, region_id@) + count <= u64::MAX,
        ensures
            final(self).wf(),
            final(self).scenario() == old(self).scenario(),
            final(self).year() == old(self).year(),
            forall|a: u32, g: Gender, q: Seq<char>| #[trigger]
                final(self).count(a, g, q) == old(self).count(a, g, q) + (if a == age && g
                    == gender && q == region_id@ {
                    count as int
                } else {
                    0
                }),
    {
        self.put(age, gender, region_id, count, true);
    }

    /// Sets a cohort to `count` heads, or adds them to it.
    fn put(&mut self, age: u32, gender: Gender, region_id: &str, count: u64, adding: bool)
        requires
            adding ==> old(self).count(age, gender, region_id@) + count <= u64::MAX,
        ensures
            final(self).wf(),
            final(self).scenario() == old(self).scenario(),
            final(self).year() == old(self).year(),
            forall|a: u32, g: Gender, q: Seq<char>| #[trigger]
                final(self).count(a, g, q) == (if a == age && g == gender && q == region_id@ {
                    if adding {
                        old(self).count(a, g, q) + count
                    } else {
                        count as int
                    }
                } else {
                    old(self).count(a, g, q)
                }),
    {
        let ghost before = self@;
        let ghost key = Part::Of(age, gender, region_id@);
        let place: usize = self.find(age, gender, region_id);
        proof {
            use_type_invariant(&*self);
            lemma_heads_of_key(before, key);
        }
        let mut entries: Vec<Cohort> = Vec::new();
        std::mem::swap(&mut entries, &mut self.entries);
        if place < entries.len() {
            let was: u64 = entries[place].count;
            let now: u64 = if adding {
                was + count
            } else {
                count
            };
            entries[place].count = now;
            proof {
                let entry = entries@[place as int];
                assert(entries@ =~= before.update(place as int, entry));
                assert forall|i: int, j: int| 0 <= i < j < entries@.len() implies !same_key(
                    #[trigger] entries@[i],
                    #[trigger] entries@[j],
                ) by {
                    assert(!same_key(before[i], before[j]));
                }
                assert forall|a: u32, g: Gender, q: Seq<char>| #[trigger]
                    heads(entries@, Part::Of(a, g, q)) == (if a == age && g == gender && q
                        == region_id@ {
                        now as int
                    } else {
                        old(self).count(a, g, q)
                    }) by {
                    lemma_heads_update(before, place as int, entry, Part::Of(a, g, q));
                }
            }
        } else {
            let entry = Cohort { age, gender, region_id: region_id.to_owned(), count };
            entries.push(entry);
            proof {
                assert forall|i: int, j: int| 0 <= i < j < entries@.len() implies !same_key(
                    #[trigger] entries@[i],
                    #[trigger] entries@[j],
                ) by {
                    if j < before.len() {
                        assert(!same_key(before[i], before[j]));
                    } else {
                        assert(!key.holds(before[i]));
                    }
                }
                assert forall|a: u32, g: Gender, q: Seq<char>| #[trigger]
                    heads(entries@, Part::Of(a, g, q)) == (if a == age && g == gender && q
                        == region_id@ {
                        count as int
                    } else {
                        old(self).count(a, g, q)
                    }) by {
                    lemma_heads_push(before, entry, Part::Of(a, g, q));
                }
            }
        }
        self.entries = entries;
    }

    /// The heads of the cohort of `age` and `gender` in the region; nobody
    /// where it was never set.
    pub fn get_cohort(&self, age: u32, gender: Gender, region_id: &str) -> (count: u64)
        ensures
            count == self.count(age, gender, region_id@),
    {
        let place: usize = self.find(age, gender, region_id);
        proof {
            use_type_invariant(self);
            lemma_heads_of_key(self@, Part::Of(age, gender, region_id@));
        }
        if place < self.entries.len() {
            self.entries[place].count
        } else {
            0
        }
    }

    /// Whether all heads together are within the largest representable
    /// number, as `build` needs them to be.
    pub fn fits(&self) -> (fits: bool)
        ensures
            fits == (heads(self@, Part::All) <= u64::MAX),
    {
        let n: usize = self.entries.len();
        let mut total: u64 = 0;
        let mut i: usize = 0;
        while i < n
            invariant
                n == self.entries@.len(),
                i <= n,
                total == heads(self@.take(i as int), Part::All),
            decreases n - i,
        {
            proof {
                lemma_heads_upto(self@, Part::All, i as int);
                lemma_heads_upto(self@, Part::All, i + 1);
            }
            if self.entries[i].count > u64::MAX - total {
                return false;
            }
            total = total + self.entries[i].count;
            i += 1;
        }
        proof {
            assert(self@.take(n as int) =~= self@);
        }
        true
    }

    /// The population: the cohorts that count somebody, and the figures that
    /// sum them up. All heads together must be within the largest
    /// representable number.
    pub fn build(self) -> (population: Population)
        requires
            heads(self@, Part::All) <= u64::MAX,
        ensures
            population.scenario_id@ == self.scenario(),
            population.year == self.year(),
            distinct_keys(population.cohorts@),
            forall|i: int|
                0 <= i < population.cohorts@.len() ==> (#[trigger] population.cohorts@[i]).count
                    > 0,
            forall|part: Part| #[trigger]
                heads(population.cohorts@, part) == heads(self@, part),
            describes(population.cohorts@, population.metadata),
    {
        let ghost all = self@;
        proof {
            use_type_invariant(&self);
        }
        let PopulationBuilder { scenario_id, year, entries } = self;
        let mut kept: Vec<Cohort> = Vec::new();
        let ghost mut from: Seq<int> = Seq::empty();
        proof {
            assert(all.take(0) =~= Seq::<Cohort>::empty());
        }
        for entry in it: entries
            invariant
                it.seq() == all,
                distinct_keys(all),
                from.len() == kept@.len(),
                forall|k: int|
                    0 <= k < kept@.len() ==> 0 <= #[trigger] from[k] < it.index() && kept@[k]
                        == all[from[k]],
                forall|k: int, l: int|
                    0 <= k < l < kept@.len() ==> #[trigger] from[k] < #[trigger] from[l],
                forall|k: int| 0 <= k < kept@.len() ==> (#[trigger] kept@[k]).count > 0,
                forall|part: Part| #[trigger]
                    heads(kept@, part) == heads(all.take(it.index() as int), part),
        {
            let ghost had = kept@;
            proof {
                assert(all.take(it.index() + 1).drop_last() =~= all.take(it.index() as int));
                assert forall|part: Part| #[trigger]
                    heads(all.take(it.index() + 1), part) == heads(
                        all.take(it.index() as int),
                        part,
                    ) + (if part.holds(entry) {
                        entry.count as int
                    } else {
                        0
                    }) by {}
            }
            if entry.count > 0 {
                proof {
                    assert forall|part: Part| #[trigger]
                        heads(had.push(entry), part) == heads(had, part) + (if part.holds(entry) {
                            entry.count as int
                        } else {
                            0
                        }) by {
                        lemma_heads_push(had, entry, part);
                    }
                    from = from.push(it.index() as int);
                }
                kept.push(entry);
            }
        }
        proof {
            assert(all.take(all.len() as int) =~= all);
            assert forall|k: int, l: int| 0 <= k < l < kept@.len() implies !same_key(
                #[trigger] kept@[k],
                #[trigger] kept@[l],
            ) by {
                assert(from[k] < from[l]);
                assert(!same_key(all[from[k]], all[from[l]]));
            }
        }
        let metadata = calculate_metadata(kept.as_slice());
        Population { scenario_id, year, cohorts: kept, metadata }
    }
}

} // verus!

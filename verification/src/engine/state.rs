//! The population as a whole: the blocks of its regions, what loading a list
//! of cohorts makes of it, and what a year makes of it.

use vstd::prelude::*;
use crate::engine::model::{births, Block, deaths, inflow, lemma_step_conserves, lemma_step_wf,
    lemma_year_bounded, net_migration, next_count, Rates, step};
use crate::engine::rates::Tables;
use crate::engine::year::{lemma_year_rates_wf, year_rates};
use crate::sums::{lemma_prefix_sum_full, lemma_prefix_sum_step, lemma_sum_nonnegative,
    lemma_sum_push, lemma_sum_update, lemma_sum_zeros, prefix_sum, sum};
use crate::text::{lemma_place_after_push, lemma_place_of, place_of};
use crate::fixed::growth_percent;
use crate::types::demographic::{AGE_COUNT, Cohort, Gender, MAX_AGE, ProjectionYear};
use crate::types::shock::Shock;

verus! {

impl Block {
    /// The block with `amount` more heads in the cohort of `age` and `gender`.
    pub open spec fn plus(self, age: int, gender: Gender, amount: int) -> Block {
        match gender {
            Gender::Male => Block {
                male: self.male.update(age, self.male[age] + amount),
                ..self
            },
            Gender::Female => Block {
                female: self.female.update(age, self.female[age] + amount),
                ..self
            },
        }
    }
}

/// The regions of the blocks, in their order.
pub open spec fn ids_of(s: Seq<Block>) -> Seq<Seq<char>> {
    Seq::new(s.len(), |i: int| s[i].id)
}

/// The totals of the blocks, in their order.
pub open spec fn totals_of(s: Seq<Block>) -> Seq<int> {
    Seq::new(s.len(), |i: int| s[i].total())
}

/// Every block is well formed, and no two are of the same region.
pub open spec fn state_wf(s: Seq<Block>) -> bool {
    &&& forall|i: int| 0 <= i < s.len() ==> (#[trigger] s[i]).wf()
    &&& forall|i: int, j: int|
        0 <= i < j < s.len() ==> (#[trigger] s[i]).id != (#[trigger] s[j]).id
}

/// All heads of the population.
pub open spec fn state_total(s: Seq<Block>) -> int {
    sum(totals_of(s))
}

/// The place of the block of `region`; the number of blocks where the region
/// has none.
pub open spec fn place_in(s: Seq<Block>, region: Seq<char>) -> int {
    place_of(ids_of(s), region)
}

/// The block of `region`: a vacant one where the population has none for it.
pub open spec fn block_of(s: Seq<Block>, region: Seq<char>) -> Block {
    if place_in(s, region) < s.len() {
        s[place_in(s, region)]
    } else {
        Block::vacant(region)
    }
}

/// The head count of one age, gender and region. A cohort that the population
/// does not hold counts nobody.
pub open spec fn state_count(s: Seq<Block>, region: Seq<char>, age: int, gender: Gender) -> int {
    block_of(s, region).count(age, gender)
}

/// The population with a block for `region`: a vacant one after the others,
/// where it had none.
pub open spec fn with_region(s: Seq<Block>, region: Seq<char>) -> Seq<Block> {
    if place_in(s, region) < s.len() {
        s
    } else {
        s.push(Block::vacant(region))
    }
}

/// The population with a block for each of `regions`.
pub open spec fn with_regions(s: Seq<Block>, regions: Seq<Seq<char>>) -> Seq<Block>
    decreases regions.len(),
{
    if regions.len() == 0 {
        s
    } else {
        with_region(with_regions(s, regions.drop_last()), regions.last())
    }
}

/// The population with `amount` more heads in one cohort. An age beyond the
/// oldest is outside the model: such heads are not counted.
pub open spec fn with_cohort(
    s: Seq<Block>,
    region: Seq<char>,
    age: int,
    gender: Gender,
    amount: int,
) -> Seq<Block> {
    if 0 <= age <= MAX_AGE {
        let t = with_region(s, region);
        let place = place_in(t, region);
        t.update(place, t[place].plus(age, gender, amount))
    } else {
        s
    }
}

/// The population that a list of cohorts describes: each cohort's heads are
/// added to those of the cohorts before it that have its age, gender and
/// region.
pub open spec fn installed(cohorts: Seq<Cohort>) -> Seq<Block>
    decreases cohorts.len(),
{
    if cohorts.len() == 0 {
        Seq::<Block>::empty()
    } else {
        let cohort = cohorts.last();
        with_cohort(
            installed(cohorts.drop_last()),
            cohort.region_id@,
            cohort.age as int,
            cohort.gender,
            cohort.count as int,
        )
    }
}

/// The heads of the listed cohorts of one age, gender and region.
pub open spec fn listed_count(cohorts: Seq<Cohort>, region: Seq<char>, age: int, gender: Gender) -> int
    decreases cohorts.len(),
{
    if cohorts.len() == 0 {
        0
    } else {
        let cohort = cohorts.last();
        listed_count(cohorts.drop_last(), region, age, gender) + (if cohort.region_id@ == region
            && cohort.age == age && cohort.gender == gender && cohort.age <= MAX_AGE {
            cohort.count as int
        } else {
            0
        })
    }
}

/// The heads of all listed cohorts whose age the model has.
pub open spec fn listed_total(cohorts: Seq<Cohort>) -> int
    decreases cohorts.len(),
{
    if cohorts.len() == 0 {
        0
    } else {
        let cohort = cohorts.last();
        listed_total(cohorts.drop_last()) + (if cohort.age <= MAX_AGE {
            cohort.count as int
        } else {
            0
        })
    }
}

/// Whether two cohorts are of the same age, gender and region.
pub open spec fn same_key(a: Cohort, b: Cohort) -> bool {
    a.age == b.age && a.gender == b.gender && a.region_id@ == b.region_id@
}

/// Whether a list of cohorts is a census: every cohort counts somebody and is
/// of an age that the model has, and no two are of the same age, gender and
/// region.
pub open spec fn is_census(cohorts: Seq<Cohort>) -> bool {
    &&& forall|i: int|
        0 <= i < cohorts.len() ==> (#[trigger] cohorts[i]).count > 0 && cohorts[i].age <= MAX_AGE
    &&& forall|i: int, j: int|
        0 <= i < j < cohorts.len() ==> !same_key(#[trigger] cohorts[i], #[trigger] cohorts[j])
}

/// One more listed cohort counts for its age, gender and region, and in all
/// where its age is one of the model's.
pub proof fn lemma_listed_push(cohorts: Seq<Cohort>, cohort: Cohort)
    ensures
        listed_total(cohorts.push(cohort)) == listed_total(cohorts) + (if cohort.age <= MAX_AGE {
            cohort.count as int
        } else {
            0
        }),
        forall|q: Seq<char>, a: int, g: Gender| #[trigger]
            listed_count(cohorts.push(cohort), q, a, g) == listed_count(cohorts, q, a, g) + (
            if cohort.region_id@ == q && cohort.age == a && cohort.gender == g && cohort.age
                <= MAX_AGE {
                cohort.count as int
            } else {
                0
            }),
{
    assert(cohorts.push(cohort).drop_last() =~= cohorts);
}

/// In a well-formed population each block stands at the place of its region.
pub proof fn lemma_place_of_block(s: Seq<Block>, i: int)
    requires
        state_wf(s),
        0 <= i < s.len(),
    ensures
        place_in(s, s[i].id) == i,
{
    lemma_place_of(ids_of(s), s[i].id);
    let p = place_in(s, s[i].id);
    assert(ids_of(s)[i] == s[i].id);
    if p < i {
        assert(ids_of(s)[p] == s[p].id);
        assert(s[p].id != s[i].id);
    }
}

/// A year: the tables and the shocks in force, the calendar year, and the
/// regions that are projected.
pub struct Setting {
    pub tables: Tables,
    pub shocks: Seq<Shock>,
    pub year: u32,
    pub regions: Seq<Seq<char>>,
}

impl Setting {
    /// Whether the year projects `region`.
    pub open spec fn lists(self, region: Seq<char>) -> bool {
        self.regions.contains(region)
    }

    /// What the year holds for `region`.
    pub open spec fn rates(self, region: Seq<char>) -> Rates {
        year_rates(self.tables, self.shocks, self.year, region)
    }

    /// A block one year on: as `step` makes it where its region is projected,
    /// and as it was where not.
    pub open spec fn block_after(self, b: Block) -> Block {
        if self.lists(b.id) {
            step(b, self.rates(b.id))
        } else {
            b
        }
    }

    /// The births of a block within the year; none where its region is not
    /// projected.
    pub open spec fn block_births(self, b: Block) -> int {
        if self.lists(b.id) {
            births(b, self.rates(b.id))
        } else {
            0
        }
    }

    /// The deaths of a block within the year; none where its region is not
    /// projected.
    pub open spec fn block_deaths(self, b: Block) -> int {
        if self.lists(b.id) {
            deaths(b, self.rates(b.id))
        } else {
            0
        }
    }

    /// The net migration of a block within the year; none where its region is
    /// not projected.
    pub open spec fn block_migration(self, b: Block) -> int {
        if self.lists(b.id) {
            net_migration(b, self.rates(b.id))
        } else {
            0
        }
    }

    /// The most that the year can add to the block: its births and all the
    /// arrivals that the tables name.
    pub open spec fn block_growth(self, b: Block) -> int {
        if self.lists(b.id) {
            births(b, self.rates(b.id)) + inflow(self.rates(b.id))
        } else {
            0
        }
    }

    /// The blocks that the year works on: those of the population, and a vacant
    /// one for each projected region that has none.
    pub open spec fn ground(self, s: Seq<Block>) -> Seq<Block> {
        with_regions(s, self.regions)
    }

    /// The population one year on. Each projected region is stepped once,
    /// however often it is named; the others stay as they are.
    #[verifier::opaque]
    pub open spec fn state_after(self, s: Seq<Block>) -> Seq<Block> {
        let t = self.ground(s);
        Seq::new(t.len(), |i: int| self.block_after(t[i]))
    }

    /// The births of each block.
    pub open spec fn births_by_block(self, t: Seq<Block>) -> Seq<int> {
        Seq::new(t.len(), |i: int| self.block_births(t[i]))
    }

    /// The deaths of each block.
    pub open spec fn deaths_by_block(self, t: Seq<Block>) -> Seq<int> {
        Seq::new(t.len(), |i: int| self.block_deaths(t[i]))
    }

    /// The net migration of each block.
    pub open spec fn migration_by_block(self, t: Seq<Block>) -> Seq<int> {
        Seq::new(t.len(), |i: int| self.block_migration(t[i]))
    }

    /// The most that the year can add to each block.
    pub open spec fn growth_by_block(self, t: Seq<Block>) -> Seq<int> {
        Seq::new(t.len(), |i: int| self.block_growth(t[i]))
    }

    /// The children born in the projected regions within the year.
    pub open spec fn births(self, s: Seq<Block>) -> int {
        sum(self.births_by_block(self.ground(s)))
    }

    /// The dead of the projected regions within the year.
    pub open spec fn deaths(self, s: Seq<Block>) -> int {
        sum(self.deaths_by_block(self.ground(s)))
    }

    /// The migrants that the projected regions gained within the year, net of
    /// those they lost.
    pub open spec fn net_migration(self, s: Seq<Block>) -> int {
        sum(self.migration_by_block(self.ground(s)))
    }

    /// The most that the year can add to the population.
    pub open spec fn growth(self, s: Seq<Block>) -> int {
        sum(self.growth_by_block(self.ground(s)))
    }

    /// The record of the year.
    #[verifier::opaque]
    pub open spec fn record(self, s: Seq<Block>) -> ProjectionYear {
        ProjectionYear {
            year: self.year,
            total_population: state_total(self.state_after(s)) as u64,
            births: self.births(s) as u64,
            deaths: self.deaths(s) as u64,
            net_migration: self.net_migration(s) as i128,
            natural_change: (self.births(s) - self.deaths(s)) as i128,
            growth_rate: growth_percent(state_total(s), state_total(self.state_after(s))) as i128,
        }
    }

    /// Whether the population can be projected through the year: with its
    /// births and all arrivals it stays within the largest representable
    /// number.
    #[verifier::opaque]
    pub open spec fn fits(self, s: Seq<Block>) -> bool {
        state_total(s) + self.growth(s) <= u64::MAX
    }
}

/// The total of the blocks up to, and without, the `n`-th.
pub open spec fn total_upto(s: Seq<Block>, n: int) -> int {
    prefix_sum(totals_of(s), n)
}

/// No block holds a negative number of heads, so none holds more than all.
pub proof fn lemma_totals_nonnegative(s: Seq<Block>)
    requires
        state_wf(s),
    ensures
        0 <= state_total(s),
        forall|i: int| 0 <= i < s.len() ==> 0 <= (#[trigger] s[i]).total() <= state_total(s),
        forall|n: int| 0 <= n <= s.len() ==> 0 <= #[trigger] total_upto(s, n) <= state_total(s),
{
    let totals = totals_of(s);
    assert forall|i: int| 0 <= i < totals.len() implies 0 <= #[trigger] totals[i] by {
        assert(s[i].wf());
        lemma_sum_nonnegative(s[i].male);
        lemma_sum_nonnegative(s[i].female);
    }
    lemma_sum_nonnegative(totals);
    assert forall|i: int| 0 <= i < s.len() implies 0 <= (#[trigger] s[i]).total() <= state_total(
        s,
    ) by {
        assert(totals[i] == s[i].total());
    }
}

/// Putting another block in the place of one changes the total by the
/// difference of the two, and leaves the population well formed where the new
/// block is of the same region.
pub proof fn lemma_replace_block(s: Seq<Block>, place: int, b: Block)
    requires
        state_wf(s),
        0 <= place < s.len(),
        b.wf(),
        b.id == s[place].id,
    ensures
        state_wf(s.update(place, b)),
        ids_of(s.update(place, b)) == ids_of(s),
        state_total(s.update(place, b)) == state_total(s) - s[place].total() + b.total(),
{
    let t = s.update(place, b);
    assert(totals_of(t) =~= totals_of(s).update(place, b.total()));
    lemma_sum_update(totals_of(s), place, b.total());
    assert(ids_of(t) =~= ids_of(s));
    assert forall|i: int, j: int| 0 <= i < j < t.len() implies (#[trigger] t[i]).id != (
    #[trigger] t[j]).id by {
        assert(s[i].id != s[j].id);
    }
}

/// A vacant block is well formed and holds nobody.
pub proof fn lemma_vacant(region: Seq<char>)
    ensures
        Block::vacant(region).wf(),
        Block::vacant(region).total() == 0,
        Block::vacant(region).id == region,
        forall|age: int, gender: Gender| #[trigger] Block::vacant(region).count(age, gender) == 0,
{
    lemma_sum_zeros(Block::vacant(region).male);
    lemma_sum_zeros(Block::vacant(region).female);
}

/// Giving a region its block changes no count and not the total.
pub proof fn lemma_with_region(s: Seq<Block>, region: Seq<char>)
    requires
        state_wf(s),
    ensures
        state_wf(with_region(s, region)),
        state_total(with_region(s, region)) == state_total(s),
        place_in(with_region(s, region), region) < with_region(s, region).len(),
        with_region(s, region).len() >= s.len(),
        forall|i: int| 0 <= i < s.len() ==> #[trigger] with_region(s, region)[i] == s[i],
        forall|other: Seq<char>| #[trigger]
            block_of(with_region(s, region), other) == block_of(s, other),
        forall|other: Seq<char>|
            place_in(s, other) < s.len() ==> #[trigger] place_in(with_region(s, region), other)
                == place_in(s, other),
{
    let t = with_region(s, region);
    lemma_place_of(ids_of(s), region);
    lemma_vacant(region);
    if place_in(s, region) < s.len() {
    } else {
        let added = Block::vacant(region);
        assert(ids_of(t) =~= ids_of(s).push(region));
        assert(totals_of(t) =~= totals_of(s).push(0));
        lemma_sum_push(totals_of(s), 0);
        lemma_place_after_push(ids_of(s), region, region);
        assert forall|i: int, j: int| 0 <= i < j < t.len() implies (#[trigger] t[i]).id != (
        #[trigger] t[j]).id by {
            if j < s.len() {
                assert(s[i].id != s[j].id);
            } else {
                assert(ids_of(s)[i] != region);
            }
        }
        assert forall|other: Seq<char>| #[trigger] block_of(t, other) == block_of(s, other) by {
            lemma_place_after_push(ids_of(s), region, other);
            lemma_place_of(ids_of(s), other);
        }
        assert forall|other: Seq<char>| place_in(s, other) < s.len() implies #[trigger] place_in(
            t,
            other,
        ) == place_in(s, other) by {
            lemma_place_after_push(ids_of(s), region, other);
        }
    }
}

/// Giving each of `regions` its block changes no count and not the total;
/// the blocks that were there stay where they were.
pub proof fn lemma_with_regions(s: Seq<Block>, regions: Seq<Seq<char>>)
    requires
        state_wf(s),
    ensures
        state_wf(with_regions(s, regions)),
        state_total(with_regions(s, regions)) == state_total(s),
        with_regions(s, regions).len() >= s.len(),
        forall|i: int| 0 <= i < s.len() ==> #[trigger] with_regions(s, regions)[i] == s[i],
        forall|other: Seq<char>| #[trigger]
            block_of(with_regions(s, regions), other) == block_of(s, other),
        forall|k: int|
            0 <= k < regions.len() ==> place_in(with_regions(s, regions), #[trigger] regions[k])
                < with_regions(s, regions).len(),
    decreases regions.len(),
{
    if regions.len() > 0 {
        let before = with_regions(s, regions.drop_last());
        lemma_with_regions(s, regions.drop_last());
        lemma_with_region(before, regions.last());
        let t = with_regions(s, regions);
        assert forall|k: int| 0 <= k < regions.len() implies place_in(t, #[trigger] regions[k])
            < t.len() by {
            if k < regions.len() - 1 {
                assert(regions.drop_last()[k] == regions[k]);
                assert(place_in(before, regions[k]) < before.len());
            }
        }
        assert forall|other: Seq<char>| #[trigger] block_of(t, other) == block_of(s, other) by {
            assert(block_of(before, other) == block_of(s, other));
        }
    }
}

/// More heads in one cohort are as many more heads in the block.
pub proof fn lemma_plus(b: Block, age: int, gender: Gender, amount: int)
    requires
        b.wf(),
        0 <= age <= MAX_AGE,
        0 <= amount,
    ensures
        b.plus(age, gender, amount).wf(),
        b.plus(age, gender, amount).id == b.id,
        b.plus(age, gender, amount).total() == b.total() + amount,
        forall|a: int, g: Gender| #[trigger]
            b.plus(age, gender, amount).count(a, g) == b.count(a, g) + (if a == age && g
                == gender {
                amount
            } else {
                0
            }),
{
    lemma_sum_update(b.male, age, b.male[age] + amount);
    lemma_sum_update(b.female, age, b.female[age] + amount);
    let c = b.plus(age, gender, amount);
    assert forall|a: int| 0 <= a < AGE_COUNT implies 0 <= #[trigger] c.male[a] by {
        assert(0 <= b.male[a]);
    }
    assert forall|a: int| 0 <= a < AGE_COUNT implies 0 <= #[trigger] c.female[a] by {
        assert(0 <= b.female[a]);
    }
}

/// More heads in one cohort change that cohort's count and the total by as
/// many, and nothing else; heads of an age beyond the oldest change nothing.
pub proof fn lemma_with_cohort(
    s: Seq<Block>,
    region: Seq<char>,
    age: int,
    gender: Gender,
    amount: int,
)
    requires
        state_wf(s),
        0 <= amount,
        0 <= age,
    ensures
        state_wf(with_cohort(s, region, age, gender, amount)),
        state_total(with_cohort(s, region, age, gender, amount)) == state_total(s) + (if age
            <= MAX_AGE {
            amount
        } else {
            0
        }),
        forall|q: Seq<char>, a: int, g: Gender| #[trigger]
            state_count(with_cohort(s, region, age, gender, amount), q, a, g) == state_count(
                s,
                q,
                a,
                g,
            ) + (if q == region && a == age && g == gender && age <= MAX_AGE {
                amount
            } else {
                0
            }),
{
    if age <= MAX_AGE {
        let t = with_region(s, region);
        lemma_with_region(s, region);
        let place = place_in(t, region);
        lemma_place_of(ids_of(t), region);
        let b = t[place].plus(age, gender, amount);
        assert(t[place].wf());
        lemma_plus(t[place], age, gender, amount);
        lemma_replace_block(t, place, b);
        let r = with_cohort(s, region, age, gender, amount);
        assert(r == t.update(place, b));
        assert forall|q: Seq<char>, a: int, g: Gender| #[trigger]
            state_count(r, q, a, g) == state_count(s, q, a, g) + (if q == region && a == age && g
                == gender && age <= MAX_AGE {
                amount
            } else {
                0
            }) by {
            lemma_place_of(ids_of(t), q);
            assert(block_of(t, q) == block_of(s, q));
            if q == region {
                assert(block_of(r, q) == b);
            } else {
                assert(place_in(r, q) == place_in(t, q));
                if place_in(t, q) < t.len() {
                    assert(ids_of(t)[place_in(t, q)] == q);
                    assert(place_in(t, q) != place);
                }
            }
        }
    }
}

/// The listed cohorts up to the `n`-th hold no more heads than all of them.
pub proof fn lemma_listed_total_grows(cohorts: Seq<Cohort>, n: int)
    requires
        0 <= n <= cohorts.len(),
    ensures
        0 <= listed_total(cohorts.take(n)) <= listed_total(cohorts),
        n < cohorts.len() ==> listed_total(cohorts.take(n + 1)) == listed_total(cohorts.take(n))
            + (if cohorts[n].age <= MAX_AGE {
            cohorts[n].count as int
        } else {
            0
        }),
    decreases cohorts.len(),
{
    if n < cohorts.len() {
        assert(cohorts.take(n + 1).drop_last() =~= cohorts.take(n));
        lemma_listed_total_grows(cohorts.drop_last(), n);
        assert(cohorts.drop_last().take(n) =~= cohorts.take(n));
    } else {
        assert(cohorts.take(n) =~= cohorts);
        if cohorts.len() > 0 {
            lemma_listed_total_grows(cohorts.drop_last(), n - 1);
            assert(cohorts.drop_last().take(n - 1) =~= cohorts.drop_last());
        }
    }
}

/// Loading sums what the list holds for each cohort: the population that a
/// list of cohorts describes counts, for every age, gender and region, the
/// heads of the listed cohorts of that age, gender and region, and in all the
/// heads of the listed cohorts whose age the model has.
pub proof fn lemma_installed(cohorts: Seq<Cohort>)
    ensures
        state_wf(installed(cohorts)),
        state_total(installed(cohorts)) == listed_total(cohorts),
        forall|q: Seq<char>, a: int, g: Gender| #[trigger]
            state_count(installed(cohorts), q, a, g) == listed_count(cohorts, q, a, g),
    decreases cohorts.len(),
{
    if cohorts.len() == 0 {
        let none = Seq::<Block>::empty();
        assert(totals_of(none) =~= Seq::<int>::empty());
        assert forall|q: Seq<char>, a: int, g: Gender| #[trigger]
            state_count(none, q, a, g) == 0 by {
            lemma_place_of(ids_of(none), q);
            lemma_vacant(q);
        }
    } else {
        let cohort = cohorts.last();
        let before = installed(cohorts.drop_last());
        lemma_installed(cohorts.drop_last());
        lemma_with_cohort(
            before,
            cohort.region_id@,
            cohort.age as int,
            cohort.gender,
            cohort.count as int,
        );
    }
}

impl Setting {
    /// The blocks with the first `n` of them one year on.
    pub open spec fn after_upto(self, t: Seq<Block>, n: int) -> Seq<Block> {
        Seq::new(
            t.len(),
            |i: int| if i < n {
                self.block_after(t[i])
            } else {
                t[i]
            },
        )
    }

    /// What the year changes in the total of a block.
    pub open spec fn block_change(self, b: Block) -> int {
        self.block_births(b) - self.block_deaths(b) + self.block_migration(b)
    }

    /// What the year changes in the total of each block.
    pub open spec fn change_by_block(self, t: Seq<Block>) -> Seq<int> {
        Seq::new(t.len(), |i: int| self.block_change(t[i]))
    }
}

/// What a year does to one block: conservation, no negative count, and the
/// bounds on its sums.
pub proof fn lemma_block_after(w: Setting, b: Block)
    requires
        b.wf(),
    ensures
        w.block_after(b).wf(),
        w.block_after(b).id == b.id,
        w.block_after(b).total() == b.total() + w.block_change(b),
        0 <= w.block_births(b) <= b.total(),
        0 <= w.block_deaths(b) <= b.total() + w.block_migration(b),
        -b.total() <= w.block_migration(b),
        w.block_change(b) <= w.block_growth(b),
        w.block_migration(b) <= w.block_growth(b),
        w.block_births(b) <= w.block_growth(b),
        0 <= w.block_growth(b),
        0 <= b.total(),
{
    lemma_sum_nonnegative(b.male);
    lemma_sum_nonnegative(b.female);
    if w.lists(b.id) {
        let r = w.rates(b.id);
        lemma_year_rates_wf(w.tables, w.shocks, w.year, b.id);
        lemma_step_wf(b, r);
        lemma_step_conserves(b, r);
        lemma_year_bounded(b, r);
    }
}

/// The first `n` blocks one year on: the population is well formed, and its
/// total is the old one with the changes of those blocks.
pub proof fn lemma_after_upto(w: Setting, t: Seq<Block>, n: int)
    requires
        state_wf(t),
        0 <= n <= t.len(),
    ensures
        state_wf(w.after_upto(t, n)),
        ids_of(w.after_upto(t, n)) == ids_of(t),
        state_total(w.after_upto(t, n)) == state_total(t) + prefix_sum(w.change_by_block(t), n),
        n < t.len() ==> w.after_upto(t, n + 1) == w.after_upto(t, n).update(
            n,
            w.block_after(t[n]),
        ),
        n < t.len() ==> w.after_upto(t, n)[n] == t[n],
        w.after_upto(t, 0) == t,
    decreases n,
{
    assert(w.after_upto(t, 0) =~= t);
    lemma_prefix_sum_full(w.change_by_block(t));
    if n < t.len() {
        assert(w.after_upto(t, n + 1) =~= w.after_upto(t, n).update(n, w.block_after(t[n])));
    }
    if n > 0 {
        lemma_after_upto(w, t, n - 1);
        let before = w.after_upto(t, n - 1);
        assert(t[n - 1].wf());
        lemma_block_after(w, t[n - 1]);
        lemma_replace_block(before, n - 1, w.block_after(t[n - 1]));
        lemma_prefix_sum_step(w.change_by_block(t), n - 1);
    }
}

/// The sums of the first `n` blocks lie within what the blocks hold and the
/// year can add.
pub proof fn lemma_sums_upto(w: Setting, t: Seq<Block>, n: int)
    requires
        state_wf(t),
        0 <= n <= t.len(),
    ensures
        0 <= prefix_sum(w.births_by_block(t), n) <= total_upto(t, n),
        0 <= prefix_sum(w.deaths_by_block(t), n) <= total_upto(t, n) + prefix_sum(
            w.migration_by_block(t),
            n,
        ),
        -total_upto(t, n) <= prefix_sum(w.migration_by_block(t), n),
        prefix_sum(w.change_by_block(t), n) == prefix_sum(w.births_by_block(t), n) - prefix_sum(
            w.deaths_by_block(t),
            n,
        ) + prefix_sum(w.migration_by_block(t), n),
        prefix_sum(w.change_by_block(t), n) <= prefix_sum(w.growth_by_block(t), n),
        prefix_sum(w.migration_by_block(t), n) <= prefix_sum(w.growth_by_block(t), n),
        0 <= prefix_sum(w.growth_by_block(t), n) <= sum(w.growth_by_block(t)),
        0 <= total_upto(t, n) <= state_total(t),
    decreases n,
{
    lemma_totals_nonnegative(t);
    let growth = w.growth_by_block(t);
    assert forall|i: int| 0 <= i < growth.len() implies 0 <= #[trigger] growth[i] by {
        assert(t[i].wf());
        lemma_block_after(w, t[i]);
    }
    lemma_sum_nonnegative(growth);
    lemma_prefix_sum_full(growth);
    lemma_prefix_sum_full(totals_of(t));
    if n > 0 {
        lemma_sums_upto(w, t, n - 1);
        assert(t[n - 1].wf());
        lemma_block_after(w, t[n - 1]);
        lemma_prefix_sum_step(w.births_by_block(t), n - 1);
        lemma_prefix_sum_step(w.deaths_by_block(t), n - 1);
        lemma_prefix_sum_step(w.migration_by_block(t), n - 1);
        lemma_prefix_sum_step(w.change_by_block(t), n - 1);
        lemma_prefix_sum_step(w.growth_by_block(t), n - 1);
        lemma_prefix_sum_step(totals_of(t), n - 1);
    }
}

/// Conservation, for every year and every population: after the year the
/// population counts as many heads as before it, with the births and the net
/// migration of the year and without its deaths; and no count is negative.
pub proof fn lemma_year_conserves(w: Setting, s: Seq<Block>)
    requires
        state_wf(s),
    ensures
        state_wf(w.state_after(s)),
        state_total(w.state_after(s)) == state_total(s) + w.births(s) - w.deaths(s)
            + w.net_migration(s),
        0 <= w.births(s) <= state_total(s),
        0 <= w.deaths(s) <= state_total(s) + w.net_migration(s),
        0 <= state_total(w.state_after(s)) <= state_total(s) + w.growth(s),
{
    reveal(Setting::state_after);
    let t = w.ground(s);
    lemma_with_regions(s, w.regions);
    let n = t.len() as int;
    lemma_after_upto(w, t, n);
    lemma_sums_upto(w, t, n);
    assert(w.after_upto(t, n) =~= w.state_after(s));
    lemma_prefix_sum_full(w.births_by_block(t));
    lemma_prefix_sum_full(w.deaths_by_block(t));
    lemma_prefix_sum_full(w.migration_by_block(t));
    lemma_prefix_sum_full(w.change_by_block(t));
    lemma_prefix_sum_full(w.growth_by_block(t));
    lemma_prefix_sum_full(totals_of(t));
    lemma_totals_nonnegative(w.state_after(s));
}

/// Where the year fits, each of its sums is within the largest representable
/// number, and the record of the year holds them as they are.
pub proof fn lemma_record_exact(w: Setting, s: Seq<Block>)
    requires
        state_wf(s),
        state_total(s) <= u64::MAX,
        w.fits(s),
    ensures
        w.record(s).year == w.year,
        w.record(s).total_population == state_total(w.state_after(s)),
        w.record(s).births == w.births(s),
        w.record(s).deaths == w.deaths(s),
        w.record(s).net_migration == w.net_migration(s),
        w.record(s).natural_change == w.births(s) - w.deaths(s),
        w.record(s).growth_rate == growth_percent(state_total(s), state_total(w.state_after(s))),
        w.record(s).natural_change == w.record(s).births - w.record(s).deaths,
        state_total(w.state_after(s)) == state_total(s) + w.record(s).births - w.record(
            s,
        ).deaths + w.record(s).net_migration,
        -(u64::MAX as int) <= w.record(s).net_migration <= u64::MAX,
        -(u64::MAX as int) <= w.record(s).natural_change <= u64::MAX,
        state_wf(w.state_after(s)),
        state_total(w.state_after(s)) <= u64::MAX,
{
    reveal(Setting::fits);
    reveal(Setting::record);
    let t = w.ground(s);
    lemma_with_regions(s, w.regions);
    let n = t.len() as int;
    lemma_sums_upto(w, t, n);
    lemma_year_conserves(w, s);
    lemma_prefix_sum_full(w.births_by_block(t));
    lemma_prefix_sum_full(w.deaths_by_block(t));
    lemma_prefix_sum_full(w.migration_by_block(t));
    lemma_prefix_sum_full(w.change_by_block(t));
    lemma_prefix_sum_full(w.growth_by_block(t));
    lemma_prefix_sum_full(totals_of(t));
    let before = state_total(s);
    let after = state_total(w.state_after(s));
    assert(-0x1_0000_0000_0000_0000_0000_0000 < growth_percent(before, after)
        < 0x1_0000_0000_0000_0000_0000_0000) by (nonlinear_arith)
        requires
            0 <= before <= 0xffff_ffff_ffff_ffff,
            0 <= after <= 0xffff_ffff_ffff_ffff,
            growth_percent(before, after) == (if before > 0 {
                if after >= before {
                    ((after - before) * 100 * 1_000_000) / before
                } else {
                    -(((before - after) * 100 * 1_000_000) / before)
                }
            } else if after > 0 {
                100_000_000int
            } else {
                0int
            }),
    ;
}

/// What a year makes of one cohort: in a projected region the count that
/// `next_count` gives from the region's block, in any other region the count
/// of the year before.
pub proof fn lemma_count_after(
    w: Setting,
    s: Seq<Block>,
    region: Seq<char>,
    age: int,
    gender: Gender,
)
    requires
        state_wf(s),
        0 <= age <= MAX_AGE,
    ensures
        state_count(w.state_after(s), region, age, gender) == (if w.lists(region) {
            next_count(block_of(s, region), w.rates(region), gender, age)
        } else {
            state_count(s, region, age, gender)
        }),
{
    reveal(Setting::state_after);
    let t = w.ground(s);
    lemma_with_regions(s, w.regions);
    let after = w.state_after(s);
    assert(ids_of(after) =~= ids_of(t)) by {
        assert forall|i: int| 0 <= i < t.len() implies #[trigger] ids_of(after)[i] == ids_of(
            t,
        )[i] by {
            assert(t[i].wf());
            lemma_block_after(w, t[i]);
        }
    }
    lemma_place_of(ids_of(t), region);
    let place = place_in(t, region);
    assert(block_of(t, region) == block_of(s, region));
    if place < t.len() {
        assert(t[place].id == region);
        assert(after[place] == w.block_after(t[place]));
    } else {
        if w.lists(region) {
            let k = choose|k: int| 0 <= k < w.regions.len() && w.regions[k] == region;
            assert(place_in(t, w.regions[k]) < t.len());
        }
        lemma_vacant(region);
    }
}

/// A run of years: the tables and the shocks in force, the regions that are
/// projected, and the year in which the run starts.
pub struct Run {
    pub tables: Tables,
    pub shocks: Seq<Shock>,
    pub regions: Seq<Seq<char>>,
    pub base_year: u32,
}

impl Run {
    /// The `k`-th year of the run, counted from zero.
    pub open spec fn year(self, k: int) -> Setting {
        Setting {
            tables: self.tables,
            shocks: self.shocks,
            year: (self.base_year + k) as u32,
            regions: self.regions,
        }
    }

    /// The population after the first `k` years of the run: each year works on
    /// what the year before it left.
    pub open spec fn state_after(self, s: Seq<Block>, k: nat) -> Seq<Block>
        decreases k,
    {
        if k == 0 {
            s
        } else {
            self.year(k - 1).state_after(self.state_after(s, (k - 1) as nat))
        }
    }

    /// Whether each of the first `k` years fits.
    pub open spec fn fits(self, s: Seq<Block>, k: nat) -> bool {
        forall|i: int| 0 <= i < k ==> (#[trigger] self.year(i)).fits(self.state_after(s, i as nat))
    }

    /// The records of the first `k` years, in their order.
    pub open spec fn records(self, s: Seq<Block>, k: nat) -> Seq<ProjectionYear> {
        Seq::new(k, |i: int| self.year(i).record(self.state_after(s, i as nat)))
    }
}

} // verus!

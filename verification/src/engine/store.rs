//! The cohort state store: the head count of every age, gender and region.

use vstd::prelude::*;
use crate::engine::cohorts::RegionCohorts;
use crate::engine::model::Block;
use crate::engine::state::{ids_of, installed, is_census, lemma_installed, listed_count, same_key,
    lemma_listed_total_grows, lemma_replace_block, lemma_totals_nonnegative, lemma_with_cohort,
    lemma_with_region, listed_total, place_in, state_count, state_total, state_wf, total_upto,
    totals_of, with_region};
use crate::sums::{lemma_prefix_sum_full, lemma_prefix_sum_step};
use crate::text::{lemma_place_of, place_from, same_text};
use crate::types::demographic::{Cohort, Gender, MAX_AGE};

verus! {

/// The population: for each region that it knows, the head counts by age and
/// gender. A cohort that it does not hold counts nobody.
pub struct CohortStore {
    slots: Vec<RegionCohorts>,
}

/// Whether the listed cohorts can be loaded: the heads of those whose age the
/// model has are no more than the largest representable number.
pub fn population_fits(cohorts: &[Cohort]) -> (fits: bool)
    ensures
        fits == (listed_total(cohorts@) <= u64::MAX),
{
    let n: usize = cohorts.len();
    let mut total: u64 = 0;
    let mut i: usize = 0;
    while i < n
        invariant
            n == cohorts@.len(),
            i <= n,
            total == listed_total(cohorts@.take(i as int)),
        decreases n - i,
    {
        proof {
            lemma_listed_total_grows(cohorts@, i as int);
            lemma_listed_total_grows(cohorts@, i + 1);
        }
        if cohorts[i].age <= MAX_AGE {
            if cohorts[i].count > u64::MAX - total {
                return false;
            }
            total = total + cohorts[i].count;
        }
        i += 1;
    }
    proof {
        assert(cohorts@.take(n as int) =~= cohorts@);
    }
    true
}

/// No regions are a well-formed population that counts nobody.
proof fn lemma_no_blocks(slots: Seq<RegionCohorts>)
    requires
        slots.len() == 0,
    ensures
        state_wf(blocks_of(slots)),
        state_total(blocks_of(slots)) == 0,
        blocks_of(slots) == Seq::<Block>::empty(),
{
    assert(blocks_of(slots) =~= Seq::<Block>::empty());
    assert(totals_of(blocks_of(slots)) =~= Seq::<int>::empty());
}

/// The blocks of the regions, in their order.
spec fn blocks_of(slots: Seq<RegionCohorts>) -> Seq<Block> {
    Seq::new(slots.len(), |i: int| slots[i]@)
}

impl CohortStore {
    /// The blocks of the regions that the store knows, in the order in which
    /// it came to know them.
    pub closed spec fn view(&self) -> Seq<Block> {
        blocks_of(self.slots@)
    }

    /// Every region has one block of counts, and all heads together are within
    /// the largest representable number. This holds of every store.
    #[verifier::type_invariant]
    pub open spec fn wf(&self) -> bool {
        &&& state_wf(self@)
        &&& state_total(self@) <= u64::MAX
    }

    /// The head count of one age, gender and region.
    pub open spec fn count(&self, age: u32, gender: Gender, region: Seq<char>) -> int {
        state_count(self@, region, age as int, gender)
    }

    /// The population that counts nobody.
    pub fn new() -> (store: Self)
        ensures
            store.wf(),
            store@ == Seq::<Block>::empty(),
            state_total(store@) == 0,
    {
        let store = CohortStore { slots: Vec::new() };
        proof {
            assert(store@ =~= Seq::<Block>::empty());
            assert(totals_of(store@) =~= Seq::<int>::empty());
        }
        store
    }

    /// The number of regions that the store knows.
    pub fn len(&self) -> (n: usize)
        ensures
            n == self@.len(),
    {
        self.slots.len()
    }

    /// The place of the region's block; the number of blocks where it has none.
    fn place(&self, region_id: &str) -> (place: usize)
        ensures
            place == place_in(self@, region_id@),
            place <= self@.len(),
    {
        let n: usize = self.slots.len();
        let mut i: usize = 0;
        proof {
            lemma_place_of(ids_of(self@), region_id@);
        }
        while i < n
            invariant
                n == self.slots@.len(),
                i <= n,
                place_in(self@, region_id@) == place_from(ids_of(self@), region_id@, i as int),
            decreases n - i,
        {
            if same_text(self.slots[i].id().as_str(), region_id) {
                assert(ids_of(self@)[i as int] == region_id@);
                return i;
            }
            assert(ids_of(self@)[i as int] != region_id@);
            i += 1;
        }
        n
    }

    /// The block at `place`.
    pub(crate) fn region(&self, place: usize) -> (region: &RegionCohorts)
        requires
            place < self@.len(),
        ensures
            region@ == self@[place as int],
    {
        &self.slots[place]
    }

    /// Gives the region its block, a vacant one, where it has none.
    pub(crate) fn ensure_region(&mut self, region_id: &String) -> (place: usize)
        ensures
            final(self).wf(),
            final(self)@ == with_region(old(self)@, region_id@),
            place == place_in(final(self)@, region_id@),
            place < final(self)@.len(),
    {
        proof {
            use_type_invariant(&*self);
            lemma_with_region(self@, region_id@);
        }
        let place: usize = self.place(region_id.as_str());
        if place < self.slots.len() {
            return place;
        }
        let mut slots: Vec<RegionCohorts> = Vec::new();
        proof {
            lemma_no_blocks(slots@);
        }
        std::mem::swap(&mut slots, &mut self.slots);
        slots.push(RegionCohorts::new(region_id.clone()));
        proof {
            assert(blocks_of(slots@) =~= with_region(old(self)@, region_id@));
            assert(ids_of(blocks_of(slots@)) =~= ids_of(old(self)@).push(region_id@));
            crate::text::lemma_place_after_push(ids_of(old(self)@), region_id@, region_id@);
        }
        self.slots = slots;
        place
    }

    /// Puts `region` in the place of the block of the same region.
    pub(crate) fn replace(&mut self, place: usize, region: RegionCohorts)
        requires
            place < old(self)@.len(),
            region.wf(),
            region@.id == old(self)@[place as int].id,
            state_total(old(self)@) - old(self)@[place as int].total() + region@.total()
                <= u64::MAX,
        ensures
            final(self).wf(),
            final(self)@ == old(self)@.update(place as int, region@),
    {
        proof {
            use_type_invariant(&*self);
            lemma_replace_block(self@, place as int, region@);
        }
        let mut slots: Vec<RegionCohorts> = Vec::new();
        proof {
            lemma_no_blocks(slots@);
        }
        std::mem::swap(&mut slots, &mut self.slots);
        slots.set(place, region);
        assert(blocks_of(slots@) =~= old(self)@.update(place as int, region@));
        self.slots = slots;
    }

    /// Adds `amount` heads to one cohort of the block at `place`.
    fn deposit_at(&mut self, place: usize, age: u32, gender: Gender, amount: u64)
        requires
            place < old(self)@.len(),
            age <= MAX_AGE,
            state_total(old(self)@) + amount <= u64::MAX,
        ensures
            final(self).wf(),
            final(self)@ == old(self)@.update(
                place as int,
                old(self)@[place as int].plus(age as int, gender, amount as int),
            ),
    {
        let ghost before = self@;
        proof {
            use_type_invariant(&*self);
            lemma_totals_nonnegative(before);
            assert(before[place as int].wf());
            crate::engine::state::lemma_plus(
                before[place as int],
                age as int,
                gender,
                amount as int,
            );
            crate::sums::lemma_sum_nonnegative(before[place as int].male);
            crate::sums::lemma_sum_nonnegative(before[place as int].female);
            lemma_replace_block(
                before,
                place as int,
                before[place as int].plus(age as int, gender, amount as int),
            );
        }
        let mut slots: Vec<RegionCohorts> = Vec::new();
        proof {
            lemma_no_blocks(slots@);
        }
        std::mem::swap(&mut slots, &mut self.slots);
        slots[place].deposit(age, gender, amount);
        assert(blocks_of(slots@) =~= before.update(
            place as int,
            before[place as int].plus(age as int, gender, amount as int),
        ));
        self.slots = slots;
    }

    /// All heads of the population.
    pub fn total(&self) -> (total: u64)
        ensures
            total == state_total(self@),
            self.wf(),
    {
        let n: usize = self.slots.len();
        let mut total: u64 = 0;
        let mut i: usize = 0;
        proof {
            use_type_invariant(self);
            lemma_totals_nonnegative(self@);
            lemma_prefix_sum_full(totals_of(self@));
        }
        while i < n
            invariant
                n == self.slots@.len(),
                n == self@.len(),
                i <= n,
                self.wf(),
                total == total_upto(self@, i as int),
                forall|k: int| 0 <= k <= self@.len() ==> 0 <= #[trigger] total_upto(self@, k)
                    <= state_total(self@),
            decreases n - i,
        {
            proof {
                lemma_prefix_sum_step(totals_of(self@), i as int);
                assert(total_upto(self@, i + 1) <= state_total(self@));
                assert(self@[i as int].wf());
            }
            let here: u128 = self.slots[i].total();
            total = total + (here as u64);
            i += 1;
        }
        total
    }

    /// The head count of one age, gender and region; zero for a cohort that
    /// the store does not hold.
    pub fn get(&self, age: u32, gender: Gender, region_id: &str) -> (count: u64)
        ensures
            count == self.count(age, gender, region_id@),
    {
        proof {
            use_type_invariant(self);
        }
        let place: usize = self.place(region_id);
        if place < self.slots.len() {
            assert(self@[place as int].wf());
            self.slots[place].count(age, gender)
        } else {
            proof {
                crate::engine::state::lemma_vacant(region_id@);
            }
            0
        }
    }

    /// The cohorts that count somebody, each once: region by region, within a
    /// region by age, and the men of an age before the women.
    pub fn export(&self) -> (out: Vec<Cohort>)
        ensures
            is_census(out@),
            listed_total(out@) == state_total(self@),
            forall|q: Seq<char>, a: int, g: Gender| #[trigger]
                listed_count(out@, q, a, g) == state_count(self@, q, a, g),
    {
        proof {
            use_type_invariant(self);
        }
        let ghost s = self@;
        let mut out: Vec<Cohort> = Vec::new();
        let n: usize = self.slots.len();
        let mut i: usize = 0;
        proof {
            lemma_prefix_sum_full(totals_of(s));
            assert forall|q: Seq<char>, a: int, g: Gender| #[trigger]
                listed_count(out@, q, a, g) == (if place_in(s, q) < 0 {
                    s[place_in(s, q)].count(a, g)
                } else {
                    0
                }) by {
                lemma_place_of(ids_of(s), q);
            }
        }
        while i < n
            invariant
                n == self.slots@.len(),
                n == s.len(),
                i <= n,
                s == self@,
                self.wf(),
                is_census(out@),
                listed_total(out@) == total_upto(s, i as int),
                forall|q: Seq<char>, a: int, g: Gender| #[trigger]
                    listed_count(out@, q, a, g) == (if place_in(s, q) < i {
                        s[place_in(s, q)].count(a, g)
                    } else {
                        0
                    }),
                forall|k: int|
                    0 <= k < out@.len() ==> place_in(s, (#[trigger] out@[k]).region_id@) < i,
            decreases n - i,
        {
            let ghost before = out@;
            proof {
                assert(s[i as int].wf());
                lemma_prefix_sum_step(totals_of(s), i as int);
                crate::engine::state::lemma_place_of_block(s, i as int);
            }
            self.slots[i].export_into(&mut out);
            proof {
                assert forall|k: int| 0 <= k < out@.len() implies place_in(
                    s,
                    (#[trigger] out@[k]).region_id@,
                ) < i + 1 by {
                    if k < before.len() {
                        assert(out@.take(before.len() as int)[k] == out@[k]);
                    }
                }
                assert forall|k: int, l: int| 0 <= k < l < out@.len() implies !same_key(
                    #[trigger] out@[k],
                    #[trigger] out@[l],
                ) by {
                    if l < before.len() {
                        assert(out@.take(before.len() as int)[k] == out@[k]);
                        assert(out@.take(before.len() as int)[l] == out@[l]);
                    } else if k < before.len() {
                        assert(out@.take(before.len() as int)[k] == out@[k]);
                        assert(place_in(s, before[k].region_id@) < i);
                    }
                }
                assert forall|k: int| 0 <= k < out@.len() implies (#[trigger] out@[k]).count > 0
                    && out@[k].age <= MAX_AGE by {
                    if k < before.len() {
                        assert(out@.take(before.len() as int)[k] == out@[k]);
                    }
                }
                assert forall|q: Seq<char>, a: int, g: Gender| #[trigger]
                    listed_count(out@, q, a, g) == (if place_in(s, q) < i + 1 {
                        s[place_in(s, q)].count(a, g)
                    } else {
                        0
                    }) by {
                    lemma_place_of(ids_of(s), q);
                    assert(listed_count(out@, q, a, g) >= listed_count(before, q, a, g));
                    if place_in(s, q) < s.len() {
                        assert(ids_of(s)[place_in(s, q)] == q);
                    }
                }
            }
            i += 1;
        }
        proof {
            assert forall|q: Seq<char>, a: int, g: Gender| #[trigger]
                listed_count(out@, q, a, g) == state_count(s, q, a, g) by {
                lemma_place_of(ids_of(s), q);
                crate::engine::state::lemma_vacant(q);
            }
        }
        out
    }

    /// Discards the population and installs the one that `cohorts` describes.
    /// The heads of cohorts of the same age, gender and region are added up.
    /// All heads together must be within the largest representable number:
    /// `population_fits` tells.
    pub fn load(&mut self, cohorts: &[Cohort])
        requires
            listed_total(cohorts@) <= u64::MAX,
        ensures
            final(self).wf(),
            final(self)@ == installed(cohorts@),
            state_total(final(self)@) == listed_total(cohorts@),
            forall|region: Seq<char>, age: u32, gender: Gender| #[trigger]
                final(self).count(age, gender, region) == listed_count(
                    cohorts@,
                    region,
                    age as int,
                    gender,
                ),
    {
        proof {
            lemma_installed(cohorts@);
        }
        let mut none: Vec<RegionCohorts> = Vec::new();
        proof {
            lemma_no_blocks(none@);
        }
        self.slots = none;
        let n: usize = cohorts.len();
        let mut i: usize = 0;
        proof {
            assert(self@ =~= installed(cohorts@.take(0)));
            lemma_installed(cohorts@.take(0));
            lemma_listed_total_grows(cohorts@, 0);
        }
        while i < n
            invariant
                n == cohorts@.len(),
                i <= n,
                self.wf(),
                self@ == installed(cohorts@.take(i as int)),
                state_total(self@) == listed_total(cohorts@.take(i as int)),
                listed_total(cohorts@) <= u64::MAX,
            decreases n - i,
        {
            let cohort = &cohorts[i];
            proof {
                lemma_listed_total_grows(cohorts@, i as int);
                lemma_listed_total_grows(cohorts@, i + 1);
                assert(cohorts@.take(i + 1).drop_last() =~= cohorts@.take(i as int));
                lemma_with_cohort(
                    self@,
                    cohort.region_id@,
                    cohort.age as int,
                    cohort.gender,
                    cohort.count as int,
                );
                lemma_with_region(self@, cohort.region_id@);
            }
            if cohort.age <= MAX_AGE {
                let place: usize = self.ensure_region(&cohort.region_id);
                self.deposit_at(place, cohort.age, cohort.gender, cohort.count);
            }
            i += 1;
        }
        proof {
            assert(cohorts@.take(n as int) =~= cohorts@);
        }
    }
}

} // verus!

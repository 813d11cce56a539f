//! What holds of every projected year, whatever the population, the tables and
//! the shocks.

use vstd::prelude::*;
use crate::engine::model::{after_migration, births, births_by_age, Block, deaths_at,
    lemma_births_bounded, lemma_cohort_year, newborns, Rates, settled_at, survivors_at};
use crate::engine::rates::Tables;
use crate::engine::shocks::{composed, effective_rate};
use crate::engine::state::{block_of, ids_of, lemma_count_after, lemma_vacant,
    lemma_year_conserves, place_in, Run, Setting, state_count, state_total, state_wf};
use crate::engine::year::{lemma_year_rates_wf, mortality_in};
use crate::fixed::{clamp_unit, lemma_scaled_nonnegative, lemma_share_even, SCALE};
use crate::sums::lemma_sum_zeros;
use crate::text::lemma_place_of;
use crate::types::demographic::{FERTILITY_MAX_AGE, FERTILITY_MIN_AGE, Gender, MAX_AGE,
    MortalityRate, MortalityTable, SEX_RATIO_BASE};
use crate::types::shock::{Shock, ShockType};

verus! {

/// Conservation. After any year the population counts as many heads as
/// before it, with the births and the net migration of the year and without
/// its deaths. The sums balance to the last fractional digit: the girls are
/// the births that are not boys, and the survivors those who did not die.
pub proof fn conservation(w: Setting, s: Seq<Block>)
    requires
        state_wf(s),
    ensures
        state_total(w.state_after(s)) == state_total(s) + w.births(s) - w.deaths(s)
            + w.net_migration(s),
{
    lemma_year_conserves(w, s);
}

/// No count is negative after any year, whatever the tables say: a death rate
/// above 1.0 takes the whole cohort and no more, and departures take no more
/// than are there.
pub proof fn counts_stay_non_negative(
    w: Setting,
    s: Seq<Block>,
    region: Seq<char>,
    age: int,
    gender: Gender,
)
    requires
        state_wf(s),
    ensures
        0 <= state_count(w.state_after(s), region, age, gender),
        state_wf(w.state_after(s)),
{
    lemma_year_conserves(w, s);
    let after = w.state_after(s);
    lemma_place_of(ids_of(after), region);
    lemma_vacant(region);
    if place_in(after, region) < after.len() {
        assert(after[place_in(after, region)].wf());
    }
}

/// The rate that applies is a rate: between 0.0 and 1.0, whatever the tables
/// give and whatever the shocks make of it.
pub proof fn applied_rates_are_clamped(
    tables: Tables,
    shocks: Seq<Shock>,
    year: u32,
    region: Seq<char>,
    age: int,
    gender: Gender,
)
    ensures
        0 <= mortality_in(tables, shocks, year, region, age, gender) <= SCALE,
{
}

/// The oldest age is open: nobody ages out of it. Where nobody of the oldest
/// age dies or migrates, the cohort of that age keeps all its heads through
/// the year, and gains the survivors of the age before.
pub proof fn oldest_age_is_open(w: Setting, s: Seq<Block>, region: Seq<char>, gender: Gender)
    requires
        state_wf(s),
        w.lists(region),
        w.rates(region).mortality(gender)[MAX_AGE as int] == 0,
        w.rates(region).migration(gender)[MAX_AGE as int] == 0,
    ensures
        state_count(w.state_after(s), region, MAX_AGE as int, gender) == state_count(
            s,
            region,
            MAX_AGE as int,
            gender,
        ) + survivors_at(block_of(s, region), w.rates(region), gender, MAX_AGE - 1),
        state_count(w.state_after(s), region, MAX_AGE as int, gender) >= state_count(
            s,
            region,
            MAX_AGE as int,
            gender,
        ),
{
    lemma_count_after(w, s, region, MAX_AGE as int, gender);
    let b = block_of(s, region);
    let r = w.rates(region);
    lemma_year_rates_wf(w.tables, w.shocks, w.year, region);
    lemma_place_of(ids_of(s), region);
    lemma_vacant(region);
    if place_in(s, region) < s.len() {
        assert(s[place_in(s, region)].wf());
    }
    assert(b.wf());
    lemma_cohort_year(b, r, gender, MAX_AGE as int);
    lemma_cohort_year(b, r, gender, MAX_AGE - 1);
    lemma_scaled_nonnegative(settled_at(b, r, gender, MAX_AGE as int), 0);
}

/// A table without a row for an age gives the default for it.
pub proof fn lemma_rate_of_absent_age(rates: Seq<MortalityRate>, age: u32, gender: Gender, from: int)
    requires
        0 <= from,
        forall|i: int| from <= i < rates.len() ==> (#[trigger] rates[i]).age != age,
    ensures
        MortalityTable::rate_from(rates, age, gender, from) == SCALE,
    decreases rates.len() - from,
{
    if from < rates.len() {
        assert(rates[from].age != age);
        lemma_rate_of_absent_age(rates, age, gender, from + 1);
    }
}

/// Missing rates. A cohort for whose age the region's mortality table has no
/// row, or whose region has no mortality table, is lost: where no shock is in
/// force, all who are there after migration die within the year.
pub proof fn missing_rate_is_full_loss(
    w: Setting,
    s: Seq<Block>,
    region: Seq<char>,
    age: int,
    gender: Gender,
)
    requires
        state_wf(s),
        0 <= age <= MAX_AGE,
        w.shocks.len() == 0,
        w.tables.mortality.dom().contains(region) ==> forall|i: int|
            0 <= i < w.tables.mortality[region].len() ==> (
            #[trigger] w.tables.mortality[region][i]).age != age,
    ensures
        w.tables.base_mortality(region, age as u32, gender) == SCALE,
        w.rates(region).mortality(gender)[age] == SCALE,
        deaths_at(block_of(s, region), w.rates(region), gender, age) == settled_at(
            block_of(s, region),
            w.rates(region),
            gender,
            age,
        ),
        survivors_at(block_of(s, region), w.rates(region), gender, age) == 0,
{
    if w.tables.mortality.dom().contains(region) {
        lemma_rate_of_absent_age(w.tables.mortality[region], age as u32, gender, 0);
    }
    let b = block_of(s, region);
    let r = w.rates(region);
    lemma_place_of(ids_of(s), region);
    lemma_vacant(region);
    if place_in(s, region) < s.len() {
        assert(s[place_in(s, region)].wf());
    }
    lemma_year_rates_wf(w.tables, w.shocks, w.year, region);
    lemma_cohort_year(b, r, gender, age);
    lemma_scaled_nonnegative(settled_at(b, r, gender, age), SCALE as int);
}

/// Only women bear children. The births of a year are those of the women of
/// child-bearing age: two populations with the same women have the same
/// births, whatever their men and whatever the tables; and where there are no
/// such women, none is born.
pub proof fn births_come_from_women(b: Block, other: Block, r: Rates)
    requires
        b.wf(),
        other.wf(),
        r.wf(),
    ensures
        b.female == other.female ==> births(b, r) == births(other, r),
        (forall|age: int|
            FERTILITY_MIN_AGE <= age <= FERTILITY_MAX_AGE ==> #[trigger] b.female[age] == 0)
            ==> births(b, r) == 0,
{
    if b.female == other.female {
        assert(births_by_age(b, r) =~= births_by_age(other, r));
    }
    if forall|age: int|
        FERTILITY_MIN_AGE <= age <= FERTILITY_MAX_AGE ==> #[trigger] b.female[age] == 0 {
        let by_age = births_by_age(b, r);
        assert forall|age: int| 0 <= age < by_age.len() implies #[trigger] by_age[age] == 0 by {
            if FERTILITY_MIN_AGE <= age <= FERTILITY_MAX_AGE {
                assert(b.female[age] == 0);
                assert(0 <= r.fertility[age]);
                lemma_scaled_nonnegative(0, r.fertility[age]);
            }
        }
        lemma_sum_zeros(by_age);
    }
}

/// An even sex ratio. Where as many boys as girls are born, 100 to 100, the
/// newborn of the two genders differ by at most one unit of the last
/// fractional digit, and it is the girls who have it.
pub proof fn even_sex_ratio_splits_evenly(b: Block, r: Rates)
    requires
        b.wf(),
        r.wf(),
        r.sex_ratio == SEX_RATIO_BASE,
    ensures
        0 <= newborns(b, r, Gender::Female) - newborns(b, r, Gender::Male) <= 1,
        newborns(b, r, Gender::Female) + newborns(b, r, Gender::Male) == births(b, r),
{
    lemma_births_bounded(b, r);
    lemma_share_even(births(b, r), SEX_RATIO_BASE as int);
}

/// The migration cap. Departures take from a cohort no more than it has: a
/// cohort that is to lose as many as it counts, or more, is left empty, and
/// no cohort is left negative.
pub proof fn departures_are_capped(count: int, net: int)
    requires
        0 <= count,
    ensures
        0 <= after_migration(count, net),
        net <= -count ==> after_migration(count, net) == 0,
        -count < net ==> after_migration(count, net) == count + net,
        after_migration(count, net) - count >= -count,
{
}

/// The years of a run. A run of `k` years gives `k` records, and their years
/// are those from the first of the run on, each one more than the one before.
pub proof fn run_covers_its_years(run: Run, s: Seq<Block>, k: nat)
    requires
        run.base_year + k <= u32::MAX + 1,
    ensures
        run.records(s, k).len() == k,
        forall|i: int| 0 <= i < k ==> (#[trigger] run.records(s, k)[i]).year == run.base_year + i,
        forall|i: int, j: int|
            0 <= i < j < k ==> (#[trigger] run.records(s, k)[i]).year < (
            #[trigger] run.records(s, k)[j]).year,
{
    reveal(Setting::record);
}

/// Shocks out of force. Where no shock of the kind holds for the year and
/// the cohort, the rate that applies is the rate of the tables, brought into
/// the interval from 0.0 to 1.0.
pub proof fn shocks_out_of_force_change_nothing(
    shocks: Seq<Shock>,
    kind: ShockType,
    base: int,
    year: u32,
    age: u32,
    gender: Gender,
    region: Seq<char>,
)
    requires
        forall|i: int|
            0 <= i < shocks.len() ==> !((#[trigger] shocks[i]).shock_type == kind
                && shocks[i].spec_applies(year, age, gender, region)),
    ensures
        effective_rate(shocks, kind, base, year, age, gender, region) == clamp_unit(base),
{
    lemma_composed_idle(shocks, kind, base, year, age, gender, region, shocks.len() as int);
}

/// The first `upto` shocks leave a rate as it is where none of them is in
/// force.
proof fn lemma_composed_idle(
    shocks: Seq<Shock>,
    kind: ShockType,
    base: int,
    year: u32,
    age: u32,
    gender: Gender,
    region: Seq<char>,
    upto: int,
)
    requires
        0 <= upto <= shocks.len(),
        forall|i: int|
            0 <= i < shocks.len() ==> !((#[trigger] shocks[i]).shock_type == kind
                && shocks[i].spec_applies(year, age, gender, region)),
    ensures
        composed(shocks, kind, base, year, age, gender, region, upto) == base,
    decreases upto,
{
    if upto > 0 {
        lemma_composed_idle(shocks, kind, base, year, age, gender, region, upto - 1);
        assert(!(shocks[upto - 1].shock_type == kind && shocks[upto - 1].spec_applies(
            year,
            age,
            gender,
            region,
        )));
    }
}

/// The order of shocks. A shock registered after others modifies the rate
/// that the others left: the rate after all shocks is what the last makes of
/// the rate after those before it, where the last is in force, and that rate
/// itself where it is not.
pub proof fn shocks_compose_in_order(
    shocks: Seq<Shock>,
    last: Shock,
    kind: ShockType,
    base: int,
    year: u32,
    age: u32,
    gender: Gender,
    region: Seq<char>,
)
    ensures
        composed(
            shocks.push(last),
            kind,
            base,
            year,
            age,
            gender,
            region,
            shocks.len() as int + 1,
        ) == (if last.shock_type == kind && last.spec_applies(year, age, gender, region) {
            last.modifier.spec_apply(
                composed(shocks, kind, base, year, age, gender, region, shocks.len() as int),
            )
        } else {
            composed(shocks, kind, base, year, age, gender, region, shocks.len() as int)
        }),
{
    lemma_composed_prefix(
        shocks,
        shocks.push(last),
        kind,
        base,
        year,
        age,
        gender,
        region,
        shocks.len() as int,
    );
}

/// Lists of shocks that agree in their first `upto` shocks make the same of a
/// rate with those shocks.
proof fn lemma_composed_prefix(
    a: Seq<Shock>,
    b: Seq<Shock>,
    kind: ShockType,
    base: int,
    year: u32,
    age: u32,
    gender: Gender,
    region: Seq<char>,
    upto: int,
)
    requires
        0 <= upto <= a.len(),
        upto <= b.len(),
        forall|i: int| 0 <= i < upto ==> a[i] == b[i],
    ensures
        composed(a, kind, base, year, age, gender, region, upto) == composed(
            b,
            kind,
            base,
            year,
            age,
            gender,
            region,
            upto,
        ),
    decreases upto,
{
    if upto > 0 {
        lemma_composed_prefix(a, b, kind, base, year, age, gender, region, upto - 1);
    }
}

} // verus!

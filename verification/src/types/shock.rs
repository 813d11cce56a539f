//! Shocks: adjustments to a demographic rate that hold for some years and for
//! some part of the population.

use vstd::prelude::*;
use vstd::string::StringExecFns;
use crate::fixed::{nearest_whole, SCALE, scaled, scale_saturating};
use crate::text::{decimal, push_decimal, push_signed_decimal, same_text, signed_decimal};
use crate::types::demographic::{AgeGroup, Gender, MAX_AGE};

verus! {

/// The rate that a shock adjusts.
#[derive(Debug, Clone, Copy, PartialEq, Eq, Structural)]
pub enum ShockType {
    Mortality,
    Fertility,
    Migration,
}

/// A filter on one dimension: everything, or what a list names. A list that
/// names nothing filters nothing.
#[derive(Debug, Clone)]
pub enum Target<T> {
    All,
    Specific(Vec<T>),
}

impl<T> Target<T> {
    /// Whether the filter lets everything pass because it is `All`.
    pub fn is_all(&self) -> (all: bool)
        ensures
            all == (self is All),
    {
        match self {
            Target::All => true,
            Target::Specific(_) => false,
        }
    }
}

/// Whether a filter on regions lets `region` pass.
pub open spec fn region_passes(target: Target<String>, region: Seq<char>) -> bool {
    match target {
        Target::All => true,
        Target::Specific(list) => list@.len() == 0 || exists|i: int|
            0 <= i < list@.len() && (#[trigger] list@[i])@ == region,
    }
}

/// Whether a filter on genders lets `gender` pass.
pub open spec fn gender_passes(target: Target<Gender>, gender: Gender) -> bool {
    match target {
        Target::All => true,
        Target::Specific(list) => list@.len() == 0 || list@.contains(gender),
    }
}

/// A filter on ages: every age, or a closed range.
#[derive(Debug, Clone, Copy, PartialEq, Eq, Structural)]
pub enum AgeTarget {
    All,
    Range(AgeGroup),
}

impl AgeTarget {
    /// Whether the filter lets `age` pass.
    pub open spec fn spec_contains(&self, age: u32) -> bool {
        match self {
            AgeTarget::All => true,
            AgeTarget::Range(group) => group.spec_contains(age),
        }
    }

    /// Whether the filter lets `age` pass.
    #[verifier::when_used_as_spec(spec_contains)]
    pub fn contains(&self, age: u32) -> (inside: bool)
        ensures
            inside == self.spec_contains(age),
    {
        match self {
            AgeTarget::All => true,
            AgeTarget::Range(group) => group.contains(age),
        }
    }
}

/// What a shock does to a rate.
#[derive(Debug, Clone)]
pub enum ShockModifier {
    /// Multiplies the rate: `1_500_000`, which is 1.5, raises it by half.
    Multiplier { value: u64 },
    /// Adds to the rate, or takes from it, in millionths.
    Absolute { value: i64 },
    /// Names a rule that this library does not evaluate: it leaves the rate
    /// as it is.
    Function { expression: String },
}

impl ShockModifier {
    /// The modifier that multiplies a rate by `value`.
    pub fn multiplier(value: u64) -> (modifier: Self)
        ensures
            modifier == (ShockModifier::Multiplier { value }),
    {
        ShockModifier::Multiplier { value }
    }

    /// The modifier that adds `value` to a rate.
    pub fn absolute(value: i64) -> (modifier: Self)
        ensures
            modifier == (ShockModifier::Absolute { value }),
    {
        ShockModifier::Absolute { value }
    }

    /// The rate that the modifier makes of `base`. A rate is never negative
    /// and never more than the largest representable number: a result beyond
    /// either is held at it.
    pub open spec fn spec_apply(self, base: int) -> int {
        match self {
            ShockModifier::Multiplier { value } => if scaled(base, value as int) > u64::MAX {
                u64::MAX as int
            } else {
                scaled(base, value as int)
            },
            ShockModifier::Absolute { value } => if base + value < 0 {
                0
            } else if base + value > u64::MAX {
                u64::MAX as int
            } else {
                base + value
            },
            ShockModifier::Function { expression } => base,
        }
    }

    /// The rate that the modifier makes of `base_value`.
    pub fn apply(&self, base_value: u64) -> (adjusted: u64)
        ensures
            adjusted == self.spec_apply(base_value as int),
    {
        match self {
            ShockModifier::Multiplier { value } => scale_saturating(base_value, *value),
            ShockModifier::Absolute { value } => {
                let wide: i128 = (base_value as i128) + (*value as i128);
                if wide < 0 {
                    0
                } else if wide > u64::MAX as i128 {
                    u64::MAX
                } else {
                    wide as u64
                }
            },
            ShockModifier::Function { .. } => base_value,
        }
    }
}

/// An adjustment of one kind of rate, for the years `start_year..=end_year` and
/// for the regions, genders and ages that its three filters let pass.
#[derive(Debug, Clone)]
pub struct Shock {
    pub id: String,
    pub name: String,
    pub description: String,
    pub shock_type: ShockType,
    pub start_year: u32,
    pub end_year: u32,
    pub target_regions: Target<String>,
    pub target_genders: Target<Gender>,
    pub target_ages: AgeTarget,
    pub modifier: ShockModifier,
}

impl Shock {
    /// Whether the shock holds in `year` for the cohort of `age` and `gender` in
    /// `region`: the year lies in its range, and each filter lets the cohort
    /// pass.
    pub open spec fn spec_applies(self, year: u32, age: u32, gender: Gender, region: Seq<char>) -> bool {
        &&& self.start_year <= year <= self.end_year
        &&& region_passes(self.target_regions, region)
        &&& gender_passes(self.target_genders, gender)
        &&& self.target_ages.spec_contains(age)
    }

    /// Whether the shock holds in `year` for the cohort of `age` and `gender`
    /// in the region.
    pub fn applies(&self, year: u32, age: u32, gender: Gender, region_id: &str) -> (holds: bool)
        ensures
            holds == self.spec_applies(year, age, gender, region_id@),
    {
        if year < self.start_year || year > self.end_year {
            return false;
        }
        if !names_region(&self.target_regions, region_id) {
            return false;
        }
        if !names_gender(&self.target_genders, gender) {
            return false;
        }
        self.target_ages.contains(age)
    }

    /// `applies`, with the region before the gender and the age.
    pub fn applies_to(&self, year: u32, region_id: &str, gender: Gender, age: u32) -> (holds: bool)
        ensures
            holds == self.spec_applies(year, age, gender, region_id@),
    {
        self.applies(year, age, gender, region_id)
    }
}

/// Whether a filter on regions lets `region_id` pass.
pub fn names_region(target: &Target<String>, region_id: &str) -> (passes: bool)
    ensures
        passes == region_passes(*target, region_id@),
{
    match target {
        Target::All => true,
        Target::Specific(list) => {
            let n: usize = list.len();
            if n == 0 {
                return true;
            }
            let mut i: usize = 0;
            while i < n
                invariant
                    n == list@.len(),
                    i <= n,
                    *target == Target::<String>::Specific(*list),
                    forall|k: int| 0 <= k < i ==> (#[trigger] list@[k])@ != region_id@,
                decreases n - i,
            {
                if same_text(list[i].as_str(), region_id) {
                    assert(list@[i as int]@ == region_id@);
                    return true;
                }
                i += 1;
            }
            false
        },
    }
}

/// Whether a filter on genders lets `gender` pass.
pub fn names_gender(target: &Target<Gender>, gender: Gender) -> (passes: bool)
    ensures
        passes == gender_passes(*target, gender),
{
    match target {
        Target::All => true,
        Target::Specific(list) => {
            let n: usize = list.len();
            if n == 0 {
                return true;
            }
            let mut i: usize = 0;
            while i < n
                invariant
                    n == list@.len(),
                    i <= n,
                    *target == Target::<Gender>::Specific(*list),
                    forall|k: int| 0 <= k < i ==> list@[k] != gender,
                decreases n - i,
            {
                if list[i] == gender {
                    assert(list@[i as int] == gender);
                    return true;
                }
                i += 1;
            }
            false
        },
    }
}

/// The youngest and the oldest age that a war strikes where none is given.
pub const WAR_MIN_AGE: u32 = 18;

/// See `WAR_MIN_AGE`.
pub const WAR_MAX_AGE: u32 = 45;

/// By how many percent, in whole percent, the multiplier `factor` raises a
/// rate: 1.5 raises it by 50, and 0.8 by -20.
pub open spec fn percent_raised(factor: u64) -> int {
    nearest_whole((factor - SCALE) * 100)
}

/// By how many whole percent `factor` raises a rate.
pub fn raised_by(factor: u64) -> (percent: i128)
    ensures
        percent == percent_raised(factor),
        -100 <= percent <= u64::MAX,
{
    if factor >= SCALE {
        let wide: u128 = ((factor - SCALE) as u128) * 100 + 500_000;
        (wide / 1_000_000) as i128
    } else {
        let wide: u128 = ((SCALE - factor) as u128) * 100 + 500_000;
        -((wide / 1_000_000) as i128)
    }
}

/// What a pandemic shock says of itself.
pub open spec fn pandemic_description(mortality_increase: u64, min_age: Option<u32>) -> Seq<char> {
    "Pandemic: "@ + signed_decimal(percent_raised(mortality_increase))
        + "% mortality increase for ages "@ + decimal(
        (match min_age {
            Some(age) => age,
            None => 0,
        }) as nat,
    ) + "+"@
}

/// A pandemic: the death rates of all regions and both genders are multiplied
/// by `mortality_increase` in the years `start_year..=end_year`, for everybody
/// of `min_age` or older, and for everybody where no age is given.
pub fn pandemic_shock(
    id: &str,
    name: &str,
    start_year: u32,
    end_year: u32,
    mortality_increase: u64,
    min_age: Option<u32>,
) -> (shock: Shock)
    ensures
        shock.id@ == id@,
        shock.name@ == name@,
        shock.description@ == pandemic_description(mortality_increase, min_age),
        shock.shock_type == ShockType::Mortality,
        shock.start_year == start_year,
        shock.end_year == end_year,
        shock.target_regions is All,
        shock.target_genders is All,
        shock.target_ages == (match min_age {
            Some(age) => AgeTarget::Range(AgeGroup { min: age, max: MAX_AGE }),
            None => AgeTarget::All,
        }),
        shock.modifier == (ShockModifier::Multiplier { value: mortality_increase }),
{
    let mut description = String::from_str("Pandemic: ");
    push_signed_decimal(&mut description, raised_by(mortality_increase));
    description.append("% mortality increase for ages ");
    let from: u32 = match min_age {
        Some(age) => age,
        None => 0,
    };
    push_decimal(&mut description, from as u64);
    description.append("+");
    Shock {
        id: id.to_owned(),
        name: name.to_owned(),
        description,
        shock_type: ShockType::Mortality,
        start_year,
        end_year,
        target_regions: Target::All,
        target_genders: Target::All,
        target_ages: match min_age {
            Some(age) => AgeTarget::Range(AgeGroup::range(age, MAX_AGE)),
            None => AgeTarget::All,
        },
        modifier: ShockModifier::multiplier(mortality_increase),
    }
}

/// What a war shock says of itself.
pub open spec fn war_description(mortality_increase: u64, min_age: u32, max_age: u32) -> Seq<char> {
    "War: "@ + signed_decimal(percent_raised(mortality_increase))
        + "% mortality increase for males "@ + decimal(min_age as nat) + "-"@ + decimal(
        max_age as nat,
    )
}

/// A war: the death rates of the men of all regions are multiplied by
/// `mortality_increase` in the years `start_year..=end_year`, from `min_age`
/// to `max_age`, which are 18 and 45 where they are not given.
pub fn war_shock(
    id: &str,
    name: &str,
    start_year: u32,
    end_year: u32,
    mortality_increase: u64,
    min_age: Option<u32>,
    max_age: Option<u32>,
) -> (shock: Shock)
    ensures
        shock.id@ == id@,
        shock.name@ == name@,
        shock.description@ == war_description(
            mortality_increase,
            match min_age {
                Some(age) => age,
                None => WAR_MIN_AGE,
            },
            match max_age {
                Some(age) => age,
                None => WAR_MAX_AGE,
            },
        ),
        shock.shock_type == ShockType::Mortality,
        shock.start_year == start_year,
        shock.end_year == end_year,
        shock.target_regions is All,
        shock.target_genders matches Target::Specific(list) && list@ == seq![Gender::Male],
        shock.target_ages == AgeTarget::Range(
            AgeGroup {
                min: match min_age {
                    Some(age) => age,
                    None => WAR_MIN_AGE,
                },
                max: match max_age {
                    Some(age) => age,
                    None => WAR_MAX_AGE,
                },
            },
        ),
        shock.modifier == (ShockModifier::Multiplier { value: mortality_increase }),
{
    let min: u32 = match min_age {
        Some(age) => age,
        None => WAR_MIN_AGE,
    };
    let max: u32 = match max_age {
        Some(age) => age,
        None => WAR_MAX_AGE,
    };
    let mut description = String::from_str("War: ");
    push_signed_decimal(&mut description, raised_by(mortality_increase));
    description.append("% mortality increase for males ");
    push_decimal(&mut description, min as u64);
    description.append("-");
    push_decimal(&mut description, max as u64);
    let mut men: Vec<Gender> = Vec::new();
    men.push(Gender::Male);
    assert(men@ =~= seq![Gender::Male]);
    Shock {
        id: id.to_owned(),
        name: name.to_owned(),
        description,
        shock_type: ShockType::Mortality,
        start_year,
        end_year,
        target_regions: Target::All,
        target_genders: Target::Specific(men),
        target_ages: AgeTarget::Range(AgeGroup::range(min, max)),
        modifier: ShockModifier::multiplier(mortality_increase),
    }
}

} // verus!

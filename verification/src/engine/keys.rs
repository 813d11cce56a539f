//! The text that names a cohort: its age, a letter for its gender, and its
//! region, with colons between them.

use vstd::prelude::*;
use vstd::string::StringExecFns;
use vstd::string::StrSliceExecFns;
use crate::text::{char_from, chars_of, decimal, find_char, lemma_decimal, parse_u32, parsed_u32,
    push_decimal};
use crate::types::demographic::Gender;

verus! {

/// The letter of a gender.
pub open spec fn gender_letter(gender: Gender) -> char {
    match gender {
        Gender::Male => 'M',
        Gender::Female => 'F',
    }
}

/// The key of a cohort: as `25:M:CZ` for the men of 25 in `CZ`.
pub open spec fn key_of(age: u32, gender: Gender, region: Seq<char>) -> Seq<char> {
    decimal(age as nat) + seq![':', gender_letter(gender), ':'] + region
}

/// The cohort that a key names. A key has two colons at least: before the
/// first stands the age, as `parsed_u32` reads it; between the first and the
/// second one letter, `M` or `F`; after the second the region, which may
/// itself hold colons.
pub open spec fn parsed_key(key: Seq<char>) -> Option<(u32, Gender, Seq<char>)> {
    let first = char_from(key, ':', 0);
    let second = char_from(key, ':', first + 1);
    if first >= key.len() || second >= key.len() || second != first + 2 {
        None
    } else {
        match parsed_u32(key.subrange(0, first)) {
            None => None,
            Some(age) => {
                let region = key.subrange(second + 1, key.len() as int);
                if key[first + 1] == 'M' {
                    Some((age, Gender::Male, region))
                } else if key[first + 1] == 'F' {
                    Some((age, Gender::Female, region))
                } else {
                    None
                }
            },
        }
    }
}

/// The key of a cohort.
pub fn cohort_key(age: u32, gender: Gender, region_id: &str) -> (key: String)
    ensures
        key@ == key_of(age, gender, region_id@),
{
    proof {
        reveal_strlit(":M:");
        reveal_strlit(":F:");
    }
    let mut key = String::new();
    push_decimal(&mut key, age as u64);
    match gender {
        Gender::Male => {
            key.append(":M:");
            assert(":M:"@ =~= seq![':', 'M', ':']);
        },
        Gender::Female => {
            key.append(":F:");
            assert(":F:"@ =~= seq![':', 'F', ':']);
        },
    }
    key.append(region_id);
    assert(key@ =~= key_of(age, gender, region_id@));
    key
}

/// The cohort that a key names, if it names one.
pub fn parse_cohort_key(key: &str) -> (parsed: Option<(u32, Gender, String)>)
    ensures
        match parsed {
            Some((age, gender, region)) => parsed_key(key@) == Some((age, gender, region@)),
            None => parsed_key(key@) is None,
        },
{
    let chars = chars_of(key);
    let n: usize = chars.len();
    let first: usize = find_char(&chars, ':', 0);
    if first >= n {
        return None;
    }
    let second: usize = find_char(&chars, ':', first + 1);
    if second >= n || second != first + 2 {
        return None;
    }
    let age: u32 = match parse_u32(&chars, 0, first) {
        Some(age) => age,
        None => {
            return None;
        },
    };
    let letter: char = chars[first + 1];
    let gender = if letter == 'M' {
        Gender::Male
    } else if letter == 'F' {
        Gender::Female
    } else {
        return None;
    };
    let region = String::from_str(key.substring_char(second + 1, n));
    Some((age, gender, region))
}

/// No character of a decimal numeral is a colon or a plus sign.
proof fn lemma_decimal_plain(n: nat, i: int)
    requires
        0 <= i < decimal(n).len(),
    ensures
        decimal(n)[i] != ':',
        decimal(n)[i] != '+',
{
    lemma_decimal(n);
    assert(crate::text::is_digit(decimal(n)[i]));
}

/// Where no character from `from` up to `to` is `c`, the search from `from`
/// goes on at `to`.
proof fn lemma_char_from_skips(s: Seq<char>, c: char, from: int, to: int)
    requires
        0 <= from <= to <= s.len(),
        forall|k: int| from <= k < to ==> s[k] != c,
    ensures
        char_from(s, c, from) == char_from(s, c, to),
    decreases to - from,
{
    if from < to {
        lemma_char_from_skips(s, c, from + 1, to);
    }
}

/// A key names the cohort that it was made for: whatever the age, the gender
/// and the region, `parse_cohort_key` finds in the result of `cohort_key` what
/// went into it.
pub proof fn lemma_key_round_trip(age: u32, gender: Gender, region: Seq<char>)
    ensures
        parsed_key(key_of(age, gender, region)) == Some((age, gender, region)),
{
    let numeral = decimal(age as nat);
    let key = key_of(age, gender, region);
    let d = numeral.len() as int;
    lemma_decimal(age as nat);
    assert forall|k: int| 0 <= k < d implies key[k] != ':' by {
        lemma_decimal_plain(age as nat, k);
        assert(key[k] == numeral[k]);
    }
    assert(key[d] == ':');
    assert(key[d + 1] == gender_letter(gender));
    assert(key[d + 2] == ':');
    lemma_char_from_skips(key, ':', 0, d);
    lemma_char_from_skips(key, ':', d + 1, d + 2);
    assert(key.subrange(0, d) =~= numeral);
    assert(key.subrange(d + 3, key.len() as int) =~= region);
    lemma_decimal_plain(age as nat, 0);
}

} // verus!

//! The two meal time slots and their wire tokens.

use vstd::prelude::*;
use crate::strutil::str_eq;

verus! {

/// One of the two fixed time-of-day slots a place can be registered under.
#[derive(Debug, Clone, Copy, PartialEq, Eq, Structural)]
pub enum Meal {
    Lunch,
    Dinner,
}

/// The single-character token a meal serializes to in the store schema.
pub open spec fn spec_meal_token(m: Meal) -> Seq<char> {
    match m {
        Meal::Lunch => "昼"@,
        Meal::Dinner => "夜"@,
    }
}

/// The per-meal bucket name of the legacy schema generation.
pub open spec fn spec_meal_legacy_token(m: Meal) -> Seq<char> {
    match m {
        Meal::Lunch => "昼だけ"@,
        Meal::Dinner => "夜だけ"@,
    }
}

impl Meal {
    /// The token used under the current schema's timeslot table.
    pub fn serialized(&self) -> (r: &'static str)
        ensures
            r@ == spec_meal_token(*self),
    {
        match self {
            Meal::Lunch => "昼",
            Meal::Dinner => "夜",
        }
    }

    /// The bucket name used by the legacy schema generation.
    pub fn legacy_token(&self) -> (r: &'static str)
        ensures
            r@ == spec_meal_legacy_token(*self),
    {
        match self {
            Meal::Lunch => "昼だけ",
            Meal::Dinner => "夜だけ",
        }
    }

    /// Parses a timeslot token back into a meal; anything but the two known
    /// tokens is rejected.
    pub fn from_token(s: &str) -> (r: Option<Meal>)
        ensures
            r == spec_meal_from_token(s@),
    {
        if str_eq(s, "昼") {
            Some(Meal::Lunch)
        } else if str_eq(s, "夜") {
            Some(Meal::Dinner)
        } else {
            proof {
                lemma_meal_tokens_differ();
            }
            None
        }
    }
}

/// Which meal, if any, a timeslot token denotes.
pub open spec fn spec_meal_from_token(s: Seq<char>) -> Option<Meal> {
    if s == spec_meal_token(Meal::Lunch) {
        Some(Meal::Lunch)
    } else if s == spec_meal_token(Meal::Dinner) {
        Some(Meal::Dinner)
    } else {
        None
    }
}

/// The two meal tokens are distinct.
pub proof fn lemma_meal_tokens_differ()
    ensures
        spec_meal_token(Meal::Lunch) != spec_meal_token(Meal::Dinner),
{
    reveal_strlit("昼");
    reveal_strlit("夜");
    assert(spec_meal_token(Meal::Lunch)[0] == '昼');
    assert(spec_meal_token(Meal::Dinner)[0] == '夜');
}

} // verus!

//! `POST /review`: a learner rates how well they recalled a card. This
//! module holds the ratings, which of them count as forgetting, and the
//! integer arithmetic on the schedule; the scheduler's own arithmetic is in
//! floating point and stays with the server.
use vstd::prelude::*;
use crate::flow::{refuse, Failure};
use crate::text::{chars_of, lowercase_eq, lowercases_to, own};

verus! {

/// The learner's self-assessment of one review, in FSRS's order.
#[derive(Debug, Clone, Copy, PartialEq, Eq, Structural, Hash)]
pub enum Rating {
    /// Forgotten. FSRS rating 1.
    Again,
    /// Recalled with significant effort. FSRS rating 2.
    Hard,
    /// Recalled with normal effort. FSRS rating 3.
    Good,
    /// Recalled with no effort. FSRS rating 4.
    Easy,
}

impl Rating {
    /// The rating FSRS uses: 1 to 4.
    pub fn fsrs_value(&self) -> (v: u32)
        ensures
            v == (match *self {
                Rating::Again => 1u32,
                Rating::Hard => 2u32,
                Rating::Good => 3u32,
                Rating::Easy => 4u32,
            }),
    {
        match self {
            Rating::Again => 1,
            Rating::Hard => 2,
            Rating::Good => 3,
            Rating::Easy => 4,
        }
    }
}

/// `POST /review`. Cards are identified by their UUID's value.
pub struct ReviewRequest {
    pub card_id: u128,
    pub rating: String,
}

/// The rating `s` names, compared case-insensitively and without trimming.
pub open spec fn rating_named(s: Seq<char>) -> Option<Rating> {
    if lowercases_to(s, "again"@) {
        Some(Rating::Again)
    } else if lowercases_to(s, "hard"@) {
        Some(Rating::Hard)
    } else if lowercases_to(s, "good"@) {
        Some(Rating::Good)
    } else if lowercases_to(s, "easy"@) {
        Some(Rating::Easy)
    } else {
        None
    }
}

/// Parse a rating; anything but the four names is refused, never
/// defaulted.
pub fn parse_rating(s: &str) -> (r: Result<Rating, ()>)
    ensures
        match rating_named(s@) {
            Some(x) => r == Ok::<Rating, ()>(x),
            None => r is Err,
        },
{
    let v = chars_of(s);
    let n = v.len();
    proof {
        assert(v@.subrange(0, n as int) =~= s@);
    }
    if lowercase_eq(&v, 0, n, "again") {
        Ok(Rating::Again)
    } else if lowercase_eq(&v, 0, n, "hard") {
        Ok(Rating::Hard)
    } else if lowercase_eq(&v, 0, n, "good") {
        Ok(Rating::Good)
    } else if lowercase_eq(&v, 0, n, "easy") {
        Ok(Rating::Easy)
    } else {
        Err(())
    }
}

pub open spec fn invalid_rating_text(raw: Seq<char>) -> Seq<char> {
    "invalid rating '"@ + raw + "': must be one of again, hard, good, easy"@
}

/// The `400` message for a rating that is none of the four.
pub fn invalid_rating_message(raw: &str) -> (m: String)
    ensures
        m@ == invalid_rating_text(raw@),
{
    let mut m = String::new();
    m.push_str("invalid rating '");
    m.push_str(raw);
    m.push_str("': must be one of again, hard, good, easy");
    proof {
        assert(m@ =~= invalid_rating_text(raw@));
    }
    m
}

/// Only `Again` is forgetting; `Hard` was still recalled.
pub fn is_correct(rating: Rating) -> (b: bool)
    ensures
        b == !(rating is Again),
{
    match rating {
        Rating::Again => false,
        _ => true,
    }
}

/// Of the values the scheduler computes, one per rating, the one for
/// `rating`.
pub fn for_rating<T>(again: T, hard: T, good: T, easy: T, rating: Rating) -> (r: T)
    ensures
        r == (match rating {
            Rating::Again => again,
            Rating::Hard => hard,
            Rating::Good => good,
            Rating::Easy => easy,
        }),
{
    match rating {
        Rating::Again => again,
        Rating::Hard => hard,
        Rating::Good => good,
        Rating::Easy => easy,
    }
}

pub const SECONDS_PER_DAY: i64 = 86400;

/// The interval, in whole days, from now until the scheduled time `seconds`
/// away: whole days counted toward zero, and never less than one, so a
/// sub-day interval cannot store a card as always due.
pub open spec fn interval_days_spec(seconds: i64) -> i64 {
    if seconds >= 86400 {
        (seconds / 86400) as i64
    } else {
        1
    }
}

pub fn interval_days(seconds: i64) -> (d: i64)
    ensures
        d == interval_days_spec(seconds),
        d >= 1,
{
    if seconds >= SECONDS_PER_DAY {
        seconds / SECONDS_PER_DAY
    } else {
        1
    }
}

/// The stored interval is the number of whole days in the time to the
/// scheduled review, with no upper bound: `d` days when that time is at
/// least `d` days and less than `d + 1`; a time under one day is stored as
/// one day.
pub proof fn law_interval_is_whole_days(seconds: i64)
    ensures
        seconds >= 86400 ==> interval_days_spec(seconds) * 86400 <= seconds < (interval_days_spec(seconds) + 1) * 86400,
        seconds >= 86400 ==> interval_days_spec(seconds) == seconds / 86400,
        seconds < 86400 ==> interval_days_spec(seconds) == 1,
{
    if seconds >= 86400 {
        let d = seconds / 86400;
        assert(d * 86400 <= seconds < (d + 1) * 86400) by (nonlinear_arith)
            requires
                d == seconds / 86400,
                seconds >= 86400,
        ;
    }
}

/// Whole days since the last review (`seconds` ago), never negative; zero
/// for a card never reviewed.
pub open spec fn elapsed_days_spec(seconds_since_last: Option<i64>) -> u32 {
    match seconds_since_last {
        Some(s) => if s >= 86400 {
            ((s / 86400) as i64) as u32
        } else {
            0
        },
        None => 0,
    }
}

pub fn elapsed_days(seconds_since_last: Option<i64>) -> (d: u32)
    ensures
        d == elapsed_days_spec(seconds_since_last),
{
    match seconds_since_last {
        Some(s) => if s >= SECONDS_PER_DAY {
            #[verifier::truncate]
            ((s / SECONDS_PER_DAY) as u32)
        } else {
            0
        },
        None => 0,
    }
}

/// The rating of a review request: anything but the four names is a `400`.
pub fn checked_rating(raw: &str) -> (r: Result<Rating, Failure>)
    ensures
        rating_named(raw@) matches Some(x) ==> r == Ok::<Rating, Failure>(x),
        rating_named(raw@) is None ==> (r matches Err(f) && f.status == 400 && f.message@
            == invalid_rating_text(raw@) && f.reason is None && f.log is None),
{
    match parse_rating(raw) {
        Ok(x) => Ok(x),
        Err(()) => Err(refuse(400, invalid_rating_message(raw))),
    }
}

/// Whether a review continues from the card's latest recorded state: only
/// when there is one and it holds both a stability and a difficulty;
/// otherwise the card is scheduled as new.
pub fn continues_from_prior(prior_found: bool, has_stability: bool, has_difficulty: bool) -> (b:
    bool)
    ensures
        b == (prior_found && has_stability && has_difficulty),
{
    prior_found && has_stability && has_difficulty
}

} // verus!

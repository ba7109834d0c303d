use chrono::{Duration, Utc};
use mnemosyne::reviews::{
    elapsed_days, for_rating, interval_days, invalid_rating_message, is_correct, parse_rating, Rating,
};

#[test]
fn ratings_are_parsed_case_insensitively() {
    assert_eq!(parse_rating("again"), Ok(Rating::Again));
    assert_eq!(parse_rating("Hard"), Ok(Rating::Hard));
    assert_eq!(parse_rating("GOOD"), Ok(Rating::Good));
    assert_eq!(parse_rating("eAsY"), Ok(Rating::Easy));
}

#[test]
fn anything_outside_the_four_ratings_is_rejected() {
    for bad in ["", "  ", "ok", "3", "forgot", "again ", "trop facile"] {
        assert!(parse_rating(bad).is_err(), "should reject {bad:?}");
    }
}

#[test]
fn only_again_counts_as_forgetting() {
    assert!(!is_correct(Rating::Again));
    assert!(is_correct(Rating::Hard));
    assert!(is_correct(Rating::Good));
    assert!(is_correct(Rating::Easy));
}

#[test]
fn each_rating_selects_its_own_state() {
    for (rating, want) in
        [(Rating::Again, "a"), (Rating::Hard, "h"), (Rating::Good, "g"), (Rating::Easy, "e")]
    {
        assert_eq!(for_rating("a", "h", "g", "e", rating), want, "wrong state for {rating:?}");
    }
}

#[test]
fn an_interval_shorter_than_a_day_still_counts_as_one() {
    let now = Utc::now();
    let days = |due: chrono::DateTime<Utc>| interval_days((due - now).num_seconds());
    assert_eq!(days(now), 1);
    assert_eq!(days(now + Duration::hours(23)), 1);
    assert_eq!(days(now + Duration::days(5)), 5);
    assert_eq!(days(now - Duration::days(3)), 1);
}

#[test]
fn ratings_carry_their_fsrs_number() {
    assert_eq!(Rating::Again.fsrs_value(), 1);
    assert_eq!(Rating::Hard.fsrs_value(), 2);
    assert_eq!(Rating::Good.fsrs_value(), 3);
    assert_eq!(Rating::Easy.fsrs_value(), 4);
}

#[test]
fn elapsed_days_are_whole_and_never_negative() {
    assert_eq!(elapsed_days(None), 0);
    assert_eq!(elapsed_days(Some(-3600)), 0);
    assert_eq!(elapsed_days(Some(86_399)), 0);
    assert_eq!(elapsed_days(Some(86_400 * 3 + 5)), 3);
}

#[test]
fn an_invalid_rating_is_named_in_the_message() {
    assert_eq!(
        invalid_rating_message("meh"),
        "invalid rating 'meh': must be one of again, hard, good, easy"
    );
}

#[test]
fn each_rating_selects_its_own_scheduled_state() {
    let scheduler = fsrs::FSRS::default();
    let expected = scheduler.next_states(None, 0.9, 0).unwrap();
    for (rating, want) in [
        (Rating::Again, expected.again.memory.stability),
        (Rating::Hard, expected.hard.memory.stability),
        (Rating::Good, expected.good.memory.stability),
        (Rating::Easy, expected.easy.memory.stability),
    ] {
        let states = scheduler.next_states(None, 0.9, 0).unwrap();
        let picked = for_rating(states.again, states.hard, states.good, states.easy, rating);
        assert_eq!(picked.memory.stability, want, "wrong state for {rating:?}");
    }
    assert_ne!(expected.again.memory.stability, expected.easy.memory.stability);
}

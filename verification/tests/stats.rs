use chrono::{Datelike, NaiveDate};
use mnemosyne::stats::{range_days, streak_from_days, tz_offset};

fn parse_day(s: &str) -> i64 {
    NaiveDate::parse_from_str(s, "%Y-%m-%d").unwrap().num_days_from_ce() as i64
}

#[test]
fn a_streak_counts_consecutive_days_back_from_today() {
    let today = parse_day("2026-09-16");
    let days = vec![parse_day("2026-09-16"), parse_day("2026-09-15"), parse_day("2026-09-14")];
    assert_eq!(streak_from_days(&days, today), 3);
}

#[test]
fn a_day_still_in_progress_does_not_break_the_streak() {
    let today = parse_day("2026-09-16");
    let days = vec![parse_day("2026-09-15"), parse_day("2026-09-14")];
    assert_eq!(streak_from_days(&days, today), 2);
}

#[test]
fn a_missed_day_ends_the_streak() {
    let today = parse_day("2026-09-16");
    let days = vec![parse_day("2026-09-16"), parse_day("2026-09-13"), parse_day("2026-09-12")];
    assert_eq!(streak_from_days(&days, today), 1);
}

#[test]
fn no_reviews_at_all_is_a_streak_of_zero() {
    assert_eq!(streak_from_days(&vec![], parse_day("2026-09-16")), 0);
}

#[test]
fn duplicate_and_future_days_do_not_inflate_the_streak() {
    let today = parse_day("2026-09-16");
    let days = vec![
        parse_day("2026-09-17"),
        parse_day("2026-09-16"),
        parse_day("2026-09-16"),
        parse_day("2026-09-15"),
    ];
    assert_eq!(streak_from_days(&days, today), 2);
}

#[test]
fn a_streak_ending_two_days_ago_is_over() {
    let today = parse_day("2026-09-16");
    let days = vec![parse_day("2026-09-14"), parse_day("2026-09-13")];
    assert_eq!(streak_from_days(&days, today), 0);
}

#[test]
fn the_order_of_the_days_does_not_matter() {
    let today = parse_day("2026-03-01");
    let days = vec![parse_day("2026-02-27"), parse_day("2026-03-01"), parse_day("2026-02-28")];
    assert_eq!(streak_from_days(&days, today), 3);
}

#[test]
fn range_and_offset_defaults_and_bounds() {
    assert_eq!(range_days(None), 14);
    assert_eq!(range_days(Some(0)), 1);
    assert_eq!(range_days(Some(30)), 30);
    assert_eq!(range_days(Some(10_000)), 365);
    assert_eq!(tz_offset(None), 420);
    assert_eq!(tz_offset(Some(-60)), -60);
    assert_eq!(tz_offset(Some(2000)), 840);
    assert_eq!(tz_offset(Some(-2000)), -840);
}

//! `GET /stats`: the dashboard's figures. The counting is done by the
//! database; this module decides the range and offset a request gets, and
//! the study streak. Days are numbered consecutively (one more per calendar
//! day in the learner's offset).
use vstd::prelude::*;
use vstd::set_lib::{lemma_int_range, lemma_len_subset, set_int_range};

verus! {

pub const DEFAULT_RANGE_DAYS: i64 = 14;

pub const MAX_RANGE_DAYS: i64 = 365;

/// Minutes east of UTC assumed when the caller does not say (UTC+7).
pub const DEFAULT_TZ_OFFSET_MINUTES: i32 = 420;

/// The widest offset accepted either side of UTC, in minutes.
pub const MAX_TZ_OFFSET_MINUTES: i32 = 840;

/// `GET /stats`.
pub struct StatsQuery {
    pub days: Option<i64>,
    /// Minutes east of UTC.
    pub tz_offset_minutes: Option<i32>,
}

/// Cards, and how many of them are waiting.
#[derive(Debug, Clone, Copy, PartialEq, Eq, Structural)]
pub struct CardStats {
    pub total: i64,
    pub due_now: i64,
    pub never_reviewed: i64,
    pub study_sets: i64,
}

/// How many days back the figures cover: 14 by default, within `[1, 365]`.
pub fn range_days(requested: Option<i64>) -> (d: i64)
    ensures
        d == ({
            let r = match requested {
                Some(n) => n,
                None => 14,
            };
            if r < 1 {
                1
            } else if r > 365 {
                365
            } else {
                r
            }
        }),
{
    let r = match requested {
        Some(n) => n,
        None => DEFAULT_RANGE_DAYS,
    };
    if r < 1 {
        1
    } else if r > MAX_RANGE_DAYS {
        MAX_RANGE_DAYS
    } else {
        r
    }
}

/// The learner's offset: UTC+7 by default, within fourteen hours of UTC.
pub fn tz_offset(requested: Option<i32>) -> (m: i32)
    ensures
        m == ({
            let r = match requested {
                Some(n) => n,
                None => 420,
            };
            if r < -840 {
                -840i32
            } else if r > 840 {
                840i32
            } else {
                r
            }
        }),
{
    let r = match requested {
        Some(n) => n,
        None => DEFAULT_TZ_OFFSET_MINUTES,
    };
    if r < -MAX_TZ_OFFSET_MINUTES {
        -MAX_TZ_OFFSET_MINUTES
    } else if r > MAX_TZ_OFFSET_MINUTES {
        MAX_TZ_OFFSET_MINUTES
    } else {
        r
    }
}

/// Whether there was a review on day `d`.
pub open spec fn reviewed_on(days: Seq<i64>, d: int) -> bool {
    exists|i: int| 0 <= i < days.len() && days[i] == d
}

/// Where the streak is counted from: today, or yesterday when nothing has
/// been reviewed today yet (the day is still in progress); no streak when
/// neither day had a review.
pub open spec fn streak_start(days: Seq<i64>, today: int) -> Option<int> {
    if reviewed_on(days, today) {
        Some(today)
    } else if reviewed_on(days, today - 1) {
        Some(today - 1)
    } else {
        None
    }
}

/// `n` consecutive days with a review end at `start`, and the day before
/// them had none.
pub open spec fn is_run(days: Seq<i64>, start: int, n: nat) -> bool {
    &&& forall|k: int| 0 <= k < n ==> #[trigger] reviewed_on(days, start - k)
    &&& !reviewed_on(days, start - n)
}

fn reviewed(days: &Vec<i64>, d: i128) -> (b: bool)
    ensures
        b == reviewed_on(days@, d as int),
{
    let mut i: usize = 0;
    while i < days.len()
        invariant
            i <= days@.len(),
            forall|j: int| 0 <= j < i ==> days@[j] != d,
        decreases days@.len() - i,
    {
        if days[i] as i128 == d {
            return true;
        }
        i = i + 1;
    }
    false
}

/// A run of consecutive reviewed days is no longer than the list of days.
proof fn lemma_run_bounded(days: Seq<i64>, start: int, n: nat)
    requires
        forall|k: int| 0 <= k < n ==> #[trigger] reviewed_on(days, start - k),
    ensures
        n <= days.len(),
{
    let as_int = days.map_values(|d: i64| d as int);
    let t = as_int.to_set();
    let s = set_int_range(start - n + 1, start + 1);
    lemma_int_range(start - n + 1, start + 1);
    vstd::seq_lib::seq_to_set_is_finite(as_int);
    assert forall|d: int| s.contains(d) implies t.contains(d) by {
        let k = start - d;
        assert(reviewed_on(days, start - k));
        let i = choose|i: int| 0 <= i < days.len() && days[i] == start - k;
        assert(as_int[i] == d);
    }
    lemma_len_subset(s, t);
    as_int.lemma_cardinality_of_set();
}

/// Consecutive days with at least one review, counting back from today;
/// duplicate days count once, and days after today (clock skew) not at
/// all.
pub fn streak_from_days(days: &Vec<i64>, today: i64) -> (n: i64)
    requires
        days@.len() <= i64::MAX,
    ensures
        match streak_start(days@, today as int) {
            None => n == 0,
            Some(s) => n >= 1 && is_run(days@, s, n as nat),
        },
{
    let t = today as i128;
    let start: i128 = if reviewed(days, t) {
        t
    } else if reviewed(days, t - 1) {
        t - 1
    } else {
        return 0;
    };
    let mut k: usize = 0;
    while k < days.len() && reviewed(days, start - k as i128)
        invariant
            k <= days@.len() <= i64::MAX,
            i64::MIN - 1 <= start <= i64::MAX,
            start as int == streak_start(days@, today as int)->0,
            forall|j: int| 0 <= j < k ==> #[trigger] reviewed_on(days@, start - j),
        decreases days@.len() - k,
    {
        k = k + 1;
    }
    proof {
        if k == days@.len() && reviewed_on(days@, start - k) {
            assert forall|j: int| 0 <= j < k + 1 implies #[trigger] reviewed_on(days@, start - j) by {
                if j < k {
                } else {
                    assert(j == k);
                }
            }
            lemma_run_bounded(days@, start as int, (k + 1) as nat);
        }
        assert(reviewed_on(days@, start - 0));
    }
    k as i64
}

/// The streak is the same whatever the order of the days and however often
/// a day repeats: it depends only on which days had reviews.
pub proof fn law_streak_depends_only_on_which_days(a: Seq<i64>, b: Seq<i64>, today: int)
    requires
        forall|d: int| reviewed_on(a, d) <==> reviewed_on(b, d),
    ensures
        streak_start(a, today) == streak_start(b, today),
        forall|s: int, n: nat| is_run(a, s, n) <==> is_run(b, s, n),
{
    assert forall|s: int, n: nat| is_run(a, s, n) <==> is_run(b, s, n) by {
        if is_run(a, s, n) {
            assert forall|k: int| 0 <= k < n implies #[trigger] reviewed_on(b, s - k) by {
                assert(reviewed_on(a, s - k));
            }
        }
        if is_run(b, s, n) {
            assert forall|k: int| 0 <= k < n implies #[trigger] reviewed_on(a, s - k) by {
                assert(reviewed_on(b, s - k));
            }
        }
    }
}

/// Days after today never count: adding them changes nothing.
pub proof fn law_future_days_do_not_count(days: Seq<i64>, future: Seq<i64>, today: int, s: int, n: nat)
    requires
        forall|i: int| 0 <= i < future.len() ==> future[i] > today,
        streak_start(days, today) == Some(s),
    ensures
        streak_start(days + future, today) == Some(s),
        is_run(days + future, s, n) <==> is_run(days, s, n),
{
    assert forall|d: int| d <= today implies (reviewed_on(days + future, d) <==> reviewed_on(days, d)) by {
        if reviewed_on(days, d) {
            let i = choose|i: int| 0 <= i < days.len() && days[i] == d;
            assert((days + future)[i] == d);
        }
        if reviewed_on(days + future, d) {
            let i = choose|i: int| 0 <= i < (days + future).len() && (days + future)[i] == d;
            if i >= days.len() {
                assert(future[i - days.len()] == d);
            }
        }
    }
    if is_run(days, s, n) {
        assert forall|k: int| 0 <= k < n implies #[trigger] reviewed_on(days + future, s - k) by {
            assert(reviewed_on(days, s - k));
        }
    }
    if is_run(days + future, s, n) {
        assert forall|k: int| 0 <= k < n implies #[trigger] reviewed_on(days, s - k) by {
            assert(reviewed_on(days + future, s - k));
        }
    }
}

/// The sum of the first components, and of the second.
pub open spec fn day_sums(by_day: Seq<(i64, i64)>) -> (int, int)
    decreases by_day.len(),
{
    if by_day.len() == 0 {
        (0, 0)
    } else {
        let s = day_sums(by_day.drop_last());
        (s.0 + by_day.last().0, s.1 + by_day.last().1)
    }
}

proof fn lemma_day_sums_grow(by_day: Seq<(i64, i64)>, i: int)
    requires
        0 <= i <= by_day.len(),
        forall|k: int| 0 <= k < by_day.len() ==> 0 <= #[trigger] by_day[k].0 && 0 <= by_day[k].1,
    ensures
        0 <= day_sums(by_day.take(i)).0 <= day_sums(by_day).0,
        0 <= day_sums(by_day.take(i)).1 <= day_sums(by_day).1,
    decreases by_day.len() - i,
{
    if i < by_day.len() {
        lemma_day_sums_grow(by_day, i + 1);
        assert(by_day.take(i + 1).drop_last() =~= by_day.take(i));
    } else {
        assert(by_day.take(i) =~= by_day);
    }
    lemma_day_sums_nonneg(by_day.take(i));
}

proof fn lemma_day_sums_nonneg(s: Seq<(i64, i64)>)
    requires
        forall|k: int| 0 <= k < s.len() ==> 0 <= #[trigger] s[k].0 && 0 <= s[k].1,
    ensures
        day_sums(s).0 >= 0,
        day_sums(s).1 >= 0,
    decreases s.len(),
{
    if s.len() > 0 {
        lemma_day_sums_nonneg(s.drop_last());
    }
}

/// Reviews and correct reviews over the range: the per-day counts
/// (total, correct) summed.
pub fn review_totals(by_day: &Vec<(i64, i64)>) -> (r: (i64, i64))
    requires
        forall|k: int| 0 <= k < by_day@.len() ==> 0 <= #[trigger] by_day@[k].0 && 0 <= by_day@[k].1,
        day_sums(by_day@).0 <= i64::MAX,
        day_sums(by_day@).1 <= i64::MAX,
    ensures
        r.0 == day_sums(by_day@).0,
        r.1 == day_sums(by_day@).1,
{
    let mut total: i64 = 0;
    let mut correct: i64 = 0;
    let mut i: usize = 0;
    while i < by_day.len()
        invariant
            i <= by_day@.len(),
            forall|k: int| 0 <= k < by_day@.len() ==> 0 <= #[trigger] by_day@[k].0 && 0 <= by_day@[k].1,
            day_sums(by_day@).0 <= i64::MAX,
            day_sums(by_day@).1 <= i64::MAX,
            (total as int, correct as int) == day_sums(by_day@.take(i as int)),
        decreases by_day@.len() - i,
    {
        proof {
            assert(by_day@.take(i + 1).drop_last() =~= by_day@.take(i as int));
            lemma_day_sums_grow(by_day@, i + 1);
        }
        let (t, c) = by_day[i];
        total = total + t;
        correct = correct + c;
        i = i + 1;
    }
    proof {
        assert(by_day@.take(i as int) =~= by_day@);
    }
    (total, correct)
}

} // verus!

//! The review queue's orderings: `GET /due` returns a batch of due cards, and
//! `?order=` may rearrange it — never change which cards are in it.
//!
//! - `due`: the batch as the query returned it.
//! - `interleave`: consecutive cards come from different study sets whenever
//!   the batch allows it, staying as close to the `due` order as it can.
//! - `hardest`: judged cards first, most misses first, ties in `due` order.
//!
//! Study sets are identified by the 128-bit value of their UUID.
use vstd::prelude::*;
use crate::text::{str_eq, trim, trimmed};
use crate::weak::{assess, lemma_misses_le, misses, spec_assess, Weakness};

verus! {

pub const DEFAULT_LIMIT: i64 = 20;

pub const MAX_LIMIT: i64 = 100;

/// Query string of `GET /due`.
pub struct DueQuery {
    pub limit: Option<i64>,
    pub order: Option<String>,
}

#[derive(Debug, Clone, Copy, PartialEq, Eq, Structural)]
pub enum DueOrder {
    Due,
    Interleave,
    Hardest,
}

/// The names `?order=` accepts, after trimming.
pub open spec fn spec_parse_order(raw: Option<Seq<char>>) -> Option<DueOrder> {
    match raw {
        None => Some(DueOrder::Due),
        Some(s) => {
            let t = trim(s);
            if t == ""@ || t == "due"@ {
                Some(DueOrder::Due)
            } else if t == "interleave"@ {
                Some(DueOrder::Interleave)
            } else if t == "hardest"@ {
                Some(DueOrder::Hardest)
            } else {
                None
            }
        },
    }
}

/// What `{:?}` renders a string as (quoted, with escapes).
pub uninterp spec fn debug_str(s: Seq<char>) -> Seq<char>;

/// `format!("{:?}", s)`.
#[verifier::external_body]
fn debug_quoted(s: &str) -> (r: String)
    ensures
        r@ == debug_str(s@),
{
    format!("{:?}", s)
}

pub open spec fn unknown_order_message(t: Seq<char>) -> Seq<char> {
    "unknown order "@ + debug_str(t) + "; expected due, interleave or hardest"@
}

impl DueOrder {
    /// Parse `?order=`. Exact names only (after trimming); absent or empty
    /// means `due`.
    pub fn parse(raw: Option<&str>) -> (r: Result<DueOrder, String>)
        ensures
            match spec_parse_order(
                match raw {
                    Some(s) => Some(s@),
                    None => None,
                },
            ) {
                Some(o) => r == Ok::<DueOrder, String>(o),
                None => r matches Err(m) && m@ == unknown_order_message(trim(raw->0@)),
            },
    {
        match raw {
            None => Ok(DueOrder::Due),
            Some(s) => {
                let t = trimmed(s);
                let ts = t.as_str();
                proof {
                    reveal_strlit("");
                    reveal_strlit("due");
                    reveal_strlit("interleave");
                    reveal_strlit("hardest");
                }
                if str_eq(ts, "") || str_eq(ts, "due") {
                    Ok(DueOrder::Due)
                } else if str_eq(ts, "interleave") {
                    Ok(DueOrder::Interleave)
                } else if str_eq(ts, "hardest") {
                    Ok(DueOrder::Hardest)
                } else {
                    let mut m = String::new();
                    m.push_str("unknown order ");
                    let q = debug_quoted(ts);
                    m.push_str(q.as_str());
                    m.push_str("; expected due, interleave or hardest");
                    proof {
                        assert(m@ =~= unknown_order_message(trim(s@)));
                    }
                    Err(m)
                }
            },
        }
    }
}

pub open spec fn spec_effective_limit(requested: Option<i64>) -> i64 {
    let l = match requested {
        Some(n) => n,
        None => DEFAULT_LIMIT,
    };
    if l < 1 {
        1
    } else if l > MAX_LIMIT {
        MAX_LIMIT
    } else {
        l
    }
}

/// Default 20, clamped to `[1, 100]`.
pub fn effective_limit(requested: Option<i64>) -> (l: i64)
    ensures
        l == spec_effective_limit(requested),
        1 <= l <= MAX_LIMIT,
{
    let l = match requested {
        Some(n) => n,
        None => DEFAULT_LIMIT,
    };
    if l < 1 {
        1
    } else if l > MAX_LIMIT {
        MAX_LIMIT
    } else {
        l
    }
}

/// How hard a card is by the weak-card rule: the misses in its judged
/// window, or `None` when it has too few reviews to be judged.
pub open spec fn spec_hardness(recent: Seq<bool>) -> Option<usize> {
    match spec_assess(recent) {
        Weakness::Weak { wrong } => Some(wrong),
        Weakness::NotWeak { wrong } => Some(wrong),
        Weakness::NotEnoughHistory { .. } => None,
    }
}

pub fn hardness(recent_newest_first: &[bool]) -> (h: Option<usize>)
    ensures
        h == spec_hardness(recent_newest_first@),
{
    match assess(recent_newest_first) {
        Weakness::Weak { wrong } => Some(wrong),
        Weakness::NotWeak { wrong } => Some(wrong),
        Weakness::NotEnoughHistory { .. } => None,
    }
}

// ---------------------------------------------------------------------------
// Counting
// ---------------------------------------------------------------------------

/// Occurrences of `x` in `s`.
pub open spec fn count(s: Seq<u128>, x: u128) -> nat
    decreases s.len(),
{
    if s.len() == 0 {
        0
    } else {
        (if s[0] == x {
            1nat
        } else {
            0nat
        }) + count(s.drop_first(), x)
    }
}

/// Neighbours that share a set.
pub open spec fn adjacent_pairs(s: Seq<u128>) -> nat
    decreases s.len(),
{
    if s.len() < 2 {
        0
    } else {
        (if s[0] == s[1] {
            1nat
        } else {
            0nat
        }) + adjacent_pairs(s.drop_first())
    }
}

pub proof fn lemma_count_concat(a: Seq<u128>, b: Seq<u128>, x: u128)
    ensures
        count(a + b, x) == count(a, x) + count(b, x),
    decreases a.len(),
{
    if a.len() == 0 {
        assert(a + b =~= b);
    } else {
        assert((a + b).drop_first() =~= a.drop_first() + b);
        lemma_count_concat(a.drop_first(), b, x);
    }
}

pub proof fn lemma_count_push(a: Seq<u128>, y: u128, x: u128)
    ensures
        count(a.push(y), x) == count(a, x) + if y == x {
            1nat
        } else {
            0nat
        },
{
    assert(a.push(y) =~= a + seq![y]);
    lemma_count_concat(a, seq![y], x);
    lemma_count_single(y, x);
}

pub proof fn lemma_count_single(y: u128, x: u128)
    ensures
        count(seq![y], x) == if y == x {
            1nat
        } else {
            0nat
        },
{
    assert(seq![y].drop_first() =~= Seq::<u128>::empty());
    assert(count(Seq::<u128>::empty(), x) == 0);
}

pub proof fn lemma_count_remove(s: Seq<u128>, p: int, x: u128)
    requires
        0 <= p < s.len(),
    ensures
        count(s.remove(p), x) + (if s[p] == x {
            1nat
        } else {
            0nat
        }) == count(s, x),
{
    let a = s.take(p);
    let b = s.skip(p + 1);
    assert(s.remove(p) =~= a + b);
    assert(s =~= a + (seq![s[p]] + b));
    lemma_count_concat(a, b, x);
    lemma_count_concat(a, seq![s[p]] + b, x);
    lemma_count_concat(seq![s[p]], b, x);
    lemma_count_single(s[p], x);
}

pub proof fn lemma_count_le(s: Seq<u128>, x: u128)
    ensures
        count(s, x) <= s.len(),
    decreases s.len(),
{
    if s.len() > 0 {
        lemma_count_le(s.drop_first(), x);
    }
}

/// Two different sets together fill at most the whole sequence.
pub proof fn lemma_count_two(s: Seq<u128>, x: u128, y: u128)
    requires
        x != y,
    ensures
        count(s, x) + count(s, y) <= s.len(),
    decreases s.len(),
{
    if s.len() > 0 {
        lemma_count_two(s.drop_first(), x, y);
    }
}

/// Something counted is somewhere.
pub proof fn lemma_count_pos(s: Seq<u128>, x: u128) -> (q: int)
    requires
        count(s, x) > 0,
    ensures
        0 <= q < s.len(),
        s[q] == x,
    decreases s.len(),
{
    if s[0] == x {
        0
    } else {
        let q = lemma_count_pos(s.drop_first(), x);
        q + 1
    }
}

/// All of a sequence equal to one value.
pub proof fn lemma_count_all(s: Seq<u128>, x: u128)
    requires
        forall|q: int| 0 <= q < s.len() ==> s[q] == x,
    ensures
        count(s, x) == s.len(),
    decreases s.len(),
{
    if s.len() > 0 {
        lemma_count_all(s.drop_first(), x);
    }
}

pub proof fn lemma_count_multiset(s: Seq<u128>, x: u128)
    ensures
        count(s, x) == s.to_multiset().count(x),
    decreases s.len(),
{
    broadcast use vstd::seq_lib::group_seq_properties;
    if s.len() > 0 {
        lemma_count_multiset(s.drop_first(), x);
        assert(s =~= seq![s[0]] + s.drop_first());
        assert(s.drop_first().insert(0, s[0]) =~= s);
    }
}

/// Exec occurrence count.
pub fn count_in(v: &Vec<u128>, x: u128) -> (c: usize)
    ensures
        c == count(v@, x),
{
    let mut c: usize = 0;
    let mut i: usize = 0;
    while i < v.len()
        invariant
            i <= v.len(),
            c == count(v@.take(i as int), x),
            c <= i,
        decreases v.len() - i,
    {
        proof {
            assert(v@.take(i + 1) =~= v@.take(i as int).push(v@[i as int]));
            lemma_count_push(v@.take(i as int), v@[i as int], x);
        }
        if v[i] == x {
            c = c + 1;
        }
        i = i + 1;
    }
    proof {
        assert(v@.take(v.len() as int) =~= v@);
    }
    c
}

// ---------------------------------------------------------------------------
// Interleaving: the greedy rule
// ---------------------------------------------------------------------------

/// `p` holds a set with the largest count, and is the earliest such
/// position.
pub open spec fn is_first_max(ls: Seq<u128>, p: int) -> bool {
    &&& 0 <= p < ls.len()
    &&& forall|q: int| 0 <= q < ls.len() ==> count(ls, #[trigger] ls[q]) <= count(ls, ls[p])
    &&& forall|q: int| 0 <= q < p ==> count(ls, #[trigger] ls[q]) < count(ls, ls[p])
}

/// `p` is the earliest position whose set differs from `last`.
pub open spec fn is_first_other(ls: Seq<u128>, last: Option<u128>, p: int) -> bool {
    &&& 0 <= p < ls.len()
    &&& Some(ls[p]) != last
    &&& forall|q: int| 0 <= q < p ==> Some(#[trigger] ls[q]) == last
}

pub open spec fn first_max(ls: Seq<u128>) -> int {
    choose|p: int| is_first_max(ls, p)
}

/// Which remaining card goes next. The set holding the most cards (the
/// earliest, on a tie) must go now when it holds more than half of what is
/// left and did not just go; otherwise the earliest card whose set differs
/// from the previous one; failing that, the earliest card.
pub open spec fn pick(ls: Seq<u128>, last: Option<u128>) -> int {
    let b = first_max(ls);
    if 2 * count(ls, ls[b]) > ls.len() && Some(ls[b]) != last {
        b
    } else if exists|p: int| is_first_other(ls, last, p) {
        choose|p: int| is_first_other(ls, last, p)
    } else {
        0
    }
}

/// The sets of the remaining indices, in order.
pub open spec fn sets_of(rem: Seq<int>, sets: Seq<u128>) -> Seq<u128> {
    rem.map_values(|i: int| sets[i])
}

/// The order in which the greedy rule emits the indices `rem`, given the set
/// of the card emitted just before.
pub open spec fn greedy_order(rem: Seq<int>, sets: Seq<u128>, last: Option<u128>) -> Seq<int>
    decreases rem.len(),
{
    if rem.len() == 0 {
        seq![]
    } else {
        let p0 = pick(sets_of(rem, sets), last);
        let p = if 0 <= p0 < rem.len() {
            p0
        } else {
            0
        };
        seq![rem[p]] + greedy_order(rem.remove(p), sets, Some(sets[rem[p]]))
    }
}

pub open spec fn all_indices(n: nat) -> Seq<int> {
    Seq::new(n, |i: int| i)
}

pub proof fn lemma_greedy_len(rem: Seq<int>, sets: Seq<u128>, last: Option<u128>)
    ensures
        greedy_order(rem, sets, last).len() == rem.len(),
    decreases rem.len(),
{
    if rem.len() > 0 {
        let p0 = pick(sets_of(rem, sets), last);
        let p = if 0 <= p0 < rem.len() {
            p0
        } else {
            0
        };
        lemma_greedy_len(rem.remove(p), sets, Some(sets[rem[p]]));
    }
}

/// The interleaved order of a batch whose cards belong to `sets`: position
/// `k` of the result holds the original position of the `k`-th card.
pub open spec fn interleave_order(sets: Seq<u128>) -> Seq<int> {
    greedy_order(all_indices(sets.len()), sets, None)
}

proof fn lemma_first_max_unique(ls: Seq<u128>, p: int, p2: int)
    requires
        is_first_max(ls, p),
        is_first_max(ls, p2),
    ensures
        p == p2,
{
    if p < p2 {
        assert(count(ls, ls[p]) < count(ls, ls[p2]));
        assert(count(ls, ls[p2]) <= count(ls, ls[p]));
    } else if p2 < p {
        assert(count(ls, ls[p2]) < count(ls, ls[p]));
        assert(count(ls, ls[p]) <= count(ls, ls[p2]));
    }
}

proof fn lemma_first_other_unique(ls: Seq<u128>, last: Option<u128>, p: int, p2: int)
    requires
        is_first_other(ls, last, p),
        is_first_other(ls, last, p2),
    ensures
        p == p2,
{
    if p < p2 {
        assert(Some(ls[p]) == last);
    } else if p2 < p {
        assert(Some(ls[p2]) == last);
    }
}

/// The first position with the largest count.
fn find_first_max(ls: &Vec<u128>) -> (b: usize)
    requires
        ls.len() > 0,
    ensures
        is_first_max(ls@, b as int),
{
    let mut b: usize = 0;
    let mut bc = count_in(ls, ls[0]);
    let mut i: usize = 1;
    while i < ls.len()
        invariant
            1 <= i <= ls.len(),
            b < i,
            bc == count(ls@, ls@[b as int]),
            forall|q: int| 0 <= q < i ==> count(ls@, #[trigger] ls@[q]) <= bc,
            forall|q: int| 0 <= q < b ==> count(ls@, #[trigger] ls@[q]) < bc,
        decreases ls.len() - i,
    {
        let c = count_in(ls, ls[i]);
        if c > bc {
            b = i;
            bc = c;
        }
        i = i + 1;
    }
    b
}

/// The position the greedy rule takes next, computed.
fn pick_next(ls: &Vec<u128>, last: Option<u128>) -> (p: usize)
    requires
        ls.len() > 0,
    ensures
        p == pick(ls@, last),
        p < ls.len(),
{
    let b = find_first_max(ls);
    proof {
        let b2 = first_max(ls@);
        assert(is_first_max(ls@, b2));
        lemma_first_max_unique(ls@, b as int, b2);
    }
    let bc = count_in(ls, ls[b]);
    proof {
        lemma_count_le(ls@, ls@[b as int]);
    }
    let forced = bc > ls.len() - bc && last != Some(ls[b]);
    if forced {
        return b;
    }
    let mut i: usize = 0;
    while i < ls.len()
        invariant
            i <= ls.len(),
            forall|q: int| 0 <= q < i ==> Some(#[trigger] ls@[q]) == last,
            !(2 * count(ls@, ls@[first_max(ls@)]) > ls.len() && Some(ls@[first_max(ls@)]) != last),
        decreases ls.len() - i,
    {
        if Some(ls[i]) != last {
            proof {
                assert(is_first_other(ls@, last, i as int));
                let p2 = choose|p: int| is_first_other(ls@, last, p);
                lemma_first_other_unique(ls@, last, i as int, p2);
            }
            return i;
        }
        i = i + 1;
    }
    0
}

/// Reorder a batch so that no two neighbours share a study set whenever that
/// is possible. `sets[k]` is the set of `items[k]`.
///
/// Greedy, and as close to the input order as it can be: each step takes the
/// earliest card whose set differs from the previous one, except that a set
/// holding more than half of what is left must go now.
pub fn interleave<T>(items: Vec<T>, sets: Vec<u128>) -> (out: Vec<T>)
    requires
        items.len() == sets.len(),
    ensures
        out@.len() == items@.len(),
        interleave_order(sets@).len() == items@.len(),
        forall|k: int| 0 <= k < out@.len() ==> out@[k] == items@[interleave_order(sets@)[k]],
{
    let ghost n = items.len();
    let ghost full = all_indices(sets@.len());
    let mut left = items;
    let mut lsets = sets.clone();
    let mut out: Vec<T> = Vec::new();
    let mut last: Option<u128> = None;
    let ghost mut rem: Seq<int> = full;
    let ghost mut done: Seq<int> = seq![];
    let ghost orig_items = left@;
    proof {
        assert(lsets@ =~= sets_of(rem, sets@));
        lemma_greedy_len(full, sets@, None);
    }
    while left.len() > 0
        invariant
            sets@.len() == n,
            orig_items.len() == n,
            left@.len() == lsets@.len() == rem.len(),
            lsets@ == sets_of(rem, sets@),
            forall|j: int| 0 <= j < rem.len() ==> 0 <= #[trigger] rem[j] < n,
            forall|j: int| 0 <= j < rem.len() ==> left@[j] == orig_items[#[trigger] rem[j]],
            out@.len() == done.len(),
            forall|k: int| 0 <= k < done.len() ==> 0 <= #[trigger] done[k] < n,
            forall|k: int| 0 <= k < out@.len() ==> out@[k] == orig_items[#[trigger] done[k]],
            done + greedy_order(rem, sets@, last) == interleave_order(sets@),
            full == all_indices(n as nat),
        decreases left.len(),
    {
        let p = pick_next(&lsets, last);
        let ghost old_rem = rem;
        let ghost old_last = last;
        let item = left.remove(p);
        let s = lsets.remove(p);
        out.push(item);
        last = Some(s);
        proof {
            rem = old_rem.remove(p as int);
            let ls = sets_of(old_rem, sets@);
            assert(ls[p as int] == sets@[old_rem[p as int]]);
            assert(greedy_order(old_rem, sets@, old_last) == seq![old_rem[p as int]]
                + greedy_order(rem, sets@, last));
            done = done.push(old_rem[p as int]);
            assert(lsets@ =~= sets_of(rem, sets@));
            assert forall|j: int| 0 <= j < rem.len() implies left@[j] == orig_items[#[trigger] rem[j]] by {
                if j < p {
                    assert(rem[j] == old_rem[j]);
                } else {
                    assert(rem[j] == old_rem[j + 1]);
                }
            }
            assert forall|j: int| 0 <= j < rem.len() implies 0 <= #[trigger] rem[j] < n by {
                if j < p {
                    assert(rem[j] == old_rem[j]);
                } else {
                    assert(rem[j] == old_rem[j + 1]);
                }
            }
            assert(done + greedy_order(rem, sets@, last) =~= interleave_order(sets@)) by {
                assert(done.drop_last() + (seq![old_rem[p as int]] + greedy_order(rem, sets@, last))
                    =~= done + greedy_order(rem, sets@, last));
            }
        }
    }
    proof {
        assert(greedy_order(rem, sets@, last) =~= seq![]);
        assert(done =~= interleave_order(sets@));
    }
    out
}

// ---------------------------------------------------------------------------
// Interleaving: what the greedy rule guarantees
// ---------------------------------------------------------------------------

/// How far set `x` is over what can still be spread out, among the
/// remaining sets `ls` placed right after a card of set `last`.
pub open spec fn excess(ls: Seq<u128>, last: Option<u128>, x: u128) -> int {
    2 * count(ls, x) + (if last == Some(x) {
        1int
    } else {
        0int
    }) - ls.len() - 1
}

/// The fewest neighbour pairs sharing a set that placing `ls` after a card
/// of set `last` can produce.
pub open spec fn need(ls: Seq<u128>, last: Option<u128>) -> nat {
    if exists|x: u128| excess(ls, last, x) > 0 {
        excess(ls, last, choose|x: u128| excess(ls, last, x) > 0) as nat
    } else {
        0
    }
}

/// Neighbour pairs of `o` placed after a card of set `last`.
pub open spec fn pairs_after(last: Option<u128>, o: Seq<u128>) -> nat {
    (if o.len() > 0 && last == Some(o[0]) {
        1nat
    } else {
        0nat
    }) + adjacent_pairs(o)
}

proof fn lemma_excess_unique(ls: Seq<u128>, last: Option<u128>, x: u128, y: u128)
    requires
        excess(ls, last, x) > 0,
        excess(ls, last, y) > 0,
    ensures
        x == y,
{
    if x != y {
        lemma_count_two(ls, x, y);
    }
}

proof fn lemma_need_is(ls: Seq<u128>, last: Option<u128>, x: u128)
    requires
        excess(ls, last, x) > 0,
    ensures
        need(ls, last) == excess(ls, last, x),
{
    let c = choose|y: u128| excess(ls, last, y) > 0;
    lemma_excess_unique(ls, last, x, c);
}

proof fn lemma_need_zero(ls: Seq<u128>, last: Option<u128>)
    requires
        forall|x: u128| excess(ls, last, x) <= 0,
    ensures
        need(ls, last) == 0,
{
}

proof fn first_max_upto(ls: Seq<u128>, i: int) -> (b: int)
    requires
        1 <= i <= ls.len(),
    ensures
        0 <= b < i,
        forall|q: int| 0 <= q < i ==> count(ls, #[trigger] ls[q]) <= count(ls, ls[b]),
        forall|q: int| 0 <= q < b ==> count(ls, #[trigger] ls[q]) < count(ls, ls[b]),
    decreases i,
{
    if i == 1 {
        0
    } else {
        let b = first_max_upto(ls, i - 1);
        if count(ls, ls[i - 1]) > count(ls, ls[b]) {
            i - 1
        } else {
            b
        }
    }
}

proof fn lemma_first_max_exists(ls: Seq<u128>)
    requires
        ls.len() > 0,
    ensures
        is_first_max(ls, first_max(ls)),
{
    let b = first_max_upto(ls, ls.len() as int);
    assert(is_first_max(ls, b));
}

/// No set occurs more often than the first maximal one.
proof fn lemma_max_count(ls: Seq<u128>, x: u128)
    requires
        ls.len() > 0,
    ensures
        count(ls, x) <= count(ls, ls[first_max(ls)]),
{
    lemma_first_max_exists(ls);
    if count(ls, x) > 0 {
        let q = lemma_count_pos(ls, x);
        assert(count(ls, ls[q]) <= count(ls, ls[first_max(ls)]));
    }
}

/// Each step of the greedy rule: the pair it makes now (if any) plus the
/// fewest pairs still to come equals the fewest pairs before the step.
proof fn lemma_step(ls: Seq<u128>, last: Option<u128>)
    requires
        ls.len() > 0,
    ensures
        0 <= pick(ls, last) < ls.len(),
        need(ls, last) == (if last == Some(ls[pick(ls, last)]) {
            1nat
        } else {
            0nat
        }) + need(ls.remove(pick(ls, last)), Some(ls[pick(ls, last)])),
{
    lemma_first_max_exists(ls);
    let b = first_max(ls);
    let bb = ls[b];
    let m = count(ls, bb);
    let r = ls.len() as int;
    let p = pick(ls, last);
    let forced = 2 * m > r && Some(bb) != last;
    if !forced && exists|q: int| is_first_other(ls, last, q) {
        let q = choose|q: int| is_first_other(ls, last, q);
        assert(is_first_other(ls, last, q));
    }
    assert(0 <= p < ls.len());
    let y = ls[p];
    let ls2 = ls.remove(p);
    let last2 = Some(y);
    // How each set's excess moves when `y` is taken.
    assert forall|x: u128|
        #![trigger excess(ls2, last2, x)]
        excess(ls2, last2, x) == 2 * count(ls, x) - (if y == x {
            1int
        } else {
            0int
        }) - r by {
        lemma_count_remove(ls, p, x);
    }
    if forced {
        assert(p == b);
        assert forall|x: u128| x != y implies #[trigger] excess(ls, last, x) <= -1 && excess(
            ls2,
            last2,
            x,
        ) <= -1 by {
            lemma_count_two(ls, x, y);
        }
        if excess(ls, last, y) > 0 {
            lemma_need_is(ls, last, y);
            lemma_need_is(ls2, last2, y);
        } else {
            assert forall|x: u128| excess(ls, last, x) <= 0 by {}
            assert forall|x: u128| excess(ls2, last2, x) <= 0 by {
                if x == y {
                    assert(excess(ls2, last2, y) == excess(ls, last, y));
                } else {
                    lemma_count_two(ls, x, y);
                }
            }
            lemma_need_zero(ls, last);
            lemma_need_zero(ls2, last2);
        }
    } else if exists|q: int| is_first_other(ls, last, q) {
        assert(Some(y) != last);
        assert forall|x: u128| count(ls, x) <= m by {
            lemma_max_count(ls, x);
        }
        if 2 * m <= r {
            assert forall|x: u128| excess(ls, last, x) <= 0 by {
                assert(count(ls, x) <= m);
            }
            assert forall|x: u128| excess(ls2, last2, x) <= 0 by {
                assert(count(ls, x) <= m);
            }
            lemma_need_zero(ls, last);
            lemma_need_zero(ls2, last2);
        } else {
            assert(last == Some(bb));
            assert(y != bb);
            assert(excess(ls, last, bb) > 0);
            assert(excess(ls2, last2, bb) == excess(ls, last, bb));
            lemma_need_is(ls, last, bb);
            lemma_need_is(ls2, last2, bb);
        }
    } else {
        // Every remaining card shares the previous card's set.
        assert forall|q: int| 0 <= q < ls.len() implies Some(#[trigger] ls[q]) == last by {
            if Some(ls[q]) != last {
                let q0 = first_other_upto(ls, last, q);
                assert(is_first_other(ls, last, q0));
            }
        }
        assert(p == 0);
        assert(Some(ls[0]) == last);
        let v = ls[0];
        assert forall|q: int| 0 <= q < ls.len() implies ls[q] == v by {
            assert(Some(ls[q]) == last);
        }
        lemma_count_all(ls, v);
        assert forall|x: u128| x != v implies #[trigger] count(ls, x) == 0 by {
            lemma_count_two(ls, x, v);
        }
        assert(excess(ls, last, v) == r);
        lemma_need_is(ls, last, v);
        if r > 1 {
            assert(excess(ls2, last2, v) == r - 1);
            lemma_need_is(ls2, last2, v);
        } else {
            assert forall|x: u128| excess(ls2, last2, x) <= 0 by {
                if x != v {
                    assert(count(ls, x) == 0);
                }
            }
            lemma_need_zero(ls2, last2);
        }
    }
}

/// The earliest position whose set differs from `last`, found by walking
/// back from a known one.
proof fn first_other_upto(ls: Seq<u128>, last: Option<u128>, i: int) -> (q: int)
    requires
        0 <= i < ls.len(),
        Some(ls[i]) != last,
    ensures
        is_first_other(ls, last, q),
    decreases i,
{
    if exists|k: int| 0 <= k < i && Some(#[trigger] ls[k]) != last {
        let k = choose|k: int| 0 <= k < i && Some(#[trigger] ls[k]) != last;
        first_other_upto(ls, last, k)
    } else {
        i
    }
}

proof fn lemma_sets_of_remove(rem: Seq<int>, sets: Seq<u128>, p: int)
    requires
        0 <= p < rem.len(),
    ensures
        sets_of(rem.remove(p), sets) == sets_of(rem, sets).remove(p),
{
    assert(sets_of(rem.remove(p), sets) =~= sets_of(rem, sets).remove(p));
}

/// The greedy order makes exactly as many same-set neighbours as the fewest
/// possible.
proof fn lemma_greedy_pairs(rem: Seq<int>, sets: Seq<u128>, last: Option<u128>)
    ensures
        pairs_after(last, sets_of(greedy_order(rem, sets, last), sets)) == need(
            sets_of(rem, sets),
            last,
        ),
    decreases rem.len(),
{
    let ls = sets_of(rem, sets);
    if rem.len() == 0 {
        assert(greedy_order(rem, sets, last) =~= seq![]);
        assert forall|x: u128| excess(ls, last, x) <= 0 by {}
        lemma_need_zero(ls, last);
    } else {
        lemma_step(ls, last);
        let p = pick(ls, last);
        let y = sets[rem[p]];
        let rest = greedy_order(rem.remove(p), sets, Some(y));
        lemma_greedy_pairs(rem.remove(p), sets, Some(y));
        lemma_sets_of_remove(rem, sets, p);
        let o = sets_of(greedy_order(rem, sets, last), sets);
        let o2 = sets_of(rest, sets);
        assert(greedy_order(rem, sets, last) == seq![rem[p]] + rest);
        assert(o =~= seq![y] + o2);
        assert(o.drop_first() =~= o2);
        assert(ls[p] == y);
    }
}

/// Pairs of neighbours in any arrangement: at least as many as a set's
/// cards outnumber the others by, less one.
proof fn lemma_pairs_lower_bound(q: Seq<u128>, x: u128)
    ensures
        adjacent_pairs(q) as int >= 2 * count(q, x) - q.len() - 1 + (if q.len() > 0 && q[0]
            != x {
            1int
        } else {
            0int
        }),
    decreases q.len(),
{
    if q.len() > 0 {
        let t = q.drop_first();
        lemma_pairs_lower_bound(t, x);
        if t.len() > 0 {
            assert(t[0] == q[1]);
        }
    }
}

proof fn lemma_greedy_perm(rem: Seq<int>, sets: Seq<u128>, last: Option<u128>)
    requires
        rem.no_duplicates(),
    ensures
        greedy_order(rem, sets, last).len() == rem.len(),
        greedy_order(rem, sets, last).no_duplicates(),
        forall|k: int|
            0 <= k < rem.len() ==> rem.contains(#[trigger] greedy_order(rem, sets, last)[k]),
    decreases rem.len(),
{
    let g = greedy_order(rem, sets, last);
    lemma_greedy_len(rem, sets, last);
    if rem.len() > 0 {
        let ls = sets_of(rem, sets);
        lemma_step(ls, last);
        let p = pick(ls, last);
        let rem2 = rem.remove(p);
        let y = sets[rem[p]];
        assert(rem2.no_duplicates()) by {
            assert forall|i: int, j: int| 0 <= i < rem2.len() && 0 <= j < rem2.len() && i != j
                implies rem2[i] != rem2[j] by {
                let ii = if i < p {
                    i
                } else {
                    i + 1
                };
                let jj = if j < p {
                    j
                } else {
                    j + 1
                };
                assert(rem2[i] == rem[ii] && rem2[j] == rem[jj]);
            }
        }
        lemma_greedy_perm(rem2, sets, Some(y));
        let rest = greedy_order(rem2, sets, Some(y));
        assert(g == seq![rem[p]] + rest);
        assert forall|k: int| 0 <= k < rest.len() implies #[trigger] rest[k] != rem[p] && rem.contains(
            rest[k],
        ) by {
            assert(rem2.contains(rest[k]));
            let i = choose|i: int| 0 <= i < rem2.len() && rem2[i] == rest[k];
            let ii = if i < p {
                i
            } else {
                i + 1
            };
            assert(rem2[i] == rem[ii]);
        }
        assert forall|k: int| 0 <= k < rem.len() implies rem.contains(#[trigger] g[k]) by {
            if k == 0 {
                assert(g[0] == rem[p]);
            } else {
                assert(g[k] == rest[k - 1]);
            }
        }
        assert forall|i: int, j: int| 0 <= i < g.len() && 0 <= j < g.len() && i != j implies g[i]
            != g[j] by {
            if i > 0 && j > 0 {
                assert(g[i] == rest[i - 1] && g[j] == rest[j - 1]);
            } else if i == 0 {
                assert(g[j] == rest[j - 1]);
            } else {
                assert(g[i] == rest[i - 1]);
            }
        }
    }
}

/// Interleaving keeps every card exactly once: its order is a permutation of
/// the batch's positions.
pub proof fn law_interleave_keeps_every_card(sets: Seq<u128>)
    ensures
        interleave_order(sets).len() == sets.len(),
        forall|k: int|
            0 <= k < sets.len() ==> 0 <= #[trigger] interleave_order(sets)[k] < sets.len(),
        interleave_order(sets).no_duplicates(),
{
    let full = all_indices(sets.len());
    assert(full.no_duplicates());
    lemma_greedy_perm(full, sets, None);
    assert forall|k: int| 0 <= k < sets.len() implies 0 <= #[trigger] interleave_order(sets)[k]
        < sets.len() by {
        assert(full.contains(interleave_order(sets)[k]));
    }
}

/// No arrangement of the batch has fewer neighbours from the same set than
/// the interleaved one.
pub proof fn law_interleave_is_optimal(sets: Seq<u128>, other: Seq<u128>)
    requires
        other.to_multiset() == sets.to_multiset(),
    ensures
        adjacent_pairs(sets_of(interleave_order(sets), sets)) <= adjacent_pairs(other),
{
    let full = all_indices(sets.len());
    lemma_greedy_pairs(full, sets, None);
    assert(sets_of(full, sets) =~= sets);
    let n = need(sets, None);
    if n > 0 {
        let x = choose|x: u128| excess(sets, None, x) > 0;
        lemma_count_multiset(sets, x);
        lemma_count_multiset(other, x);
        assert(other.len() == sets.len()) by {
            other.to_multiset_ensures();
            sets.to_multiset_ensures();
        }
        lemma_pairs_lower_bound(other, x);
    }
}

/// When no set holds more than half the batch (rounded up), no two
/// neighbours of the interleaved batch share a set.
pub proof fn law_interleave_separates_when_possible(sets: Seq<u128>)
    requires
        forall|x: u128| 2 * count(sets, x) <= sets.len() + 1,
    ensures
        adjacent_pairs(sets_of(interleave_order(sets), sets)) == 0,
{
    let full = all_indices(sets.len());
    lemma_greedy_pairs(full, sets, None);
    assert(sets_of(full, sets) =~= sets);
    assert forall|x: u128| excess(sets, None, x) <= 0 by {}
    lemma_need_zero(sets, None);
}

// ---------------------------------------------------------------------------
// Hardest first
// ---------------------------------------------------------------------------

/// Sort key of a hardness: judged cards above unjudged ones, more misses
/// higher.
pub open spec fn rank(h: Option<usize>) -> nat {
    match h {
        Some(n) => n as nat + 1,
        None => 0,
    }
}

/// `p` is the earliest remaining position with the highest rank.
pub open spec fn is_first_hardest(hs: Seq<Option<usize>>, p: int) -> bool {
    &&& 0 <= p < hs.len()
    &&& forall|q: int| 0 <= q < hs.len() ==> rank(#[trigger] hs[q]) <= rank(hs[p])
    &&& forall|q: int| 0 <= q < p ==> rank(#[trigger] hs[q]) < rank(hs[p])
}

pub open spec fn hardness_of(rem: Seq<int>, hs: Seq<Option<usize>>) -> Seq<Option<usize>> {
    rem.map_values(|i: int| hs[i])
}

/// Repeatedly take the earliest of the hardest remaining cards.
pub open spec fn hardest_order_of(rem: Seq<int>, hs: Seq<Option<usize>>) -> Seq<int>
    decreases rem.len(),
{
    if rem.len() == 0 {
        seq![]
    } else {
        let p0 = choose|p: int| is_first_hardest(hardness_of(rem, hs), p);
        let p = if 0 <= p0 < rem.len() {
            p0
        } else {
            0
        };
        seq![rem[p]] + hardest_order_of(rem.remove(p), hs)
    }
}

/// The order `?order=hardest` gives a batch whose cards have hardness `hs`:
/// position `k` holds the original position of the `k`-th card.
pub open spec fn hardest_order(hs: Seq<Option<usize>>) -> Seq<int> {
    hardest_order_of(all_indices(hs.len()), hs)
}

proof fn lemma_first_hardest_unique(hs: Seq<Option<usize>>, p: int, p2: int)
    requires
        is_first_hardest(hs, p),
        is_first_hardest(hs, p2),
    ensures
        p == p2,
{
    if p < p2 {
        assert(rank(hs[p]) < rank(hs[p2]));
        assert(rank(hs[p2]) <= rank(hs[p]));
    } else if p2 < p {
        assert(rank(hs[p2]) < rank(hs[p]));
        assert(rank(hs[p]) <= rank(hs[p2]));
    }
}

fn exec_rank(h: Option<usize>) -> (r: u128)
    ensures
        r == rank(h),
{
    match h {
        Some(n) => n as u128 + 1,
        None => 0,
    }
}

fn find_first_hardest(hs: &Vec<Option<usize>>) -> (b: usize)
    requires
        hs.len() > 0,
    ensures
        is_first_hardest(hs@, b as int),
{
    let mut b: usize = 0;
    let mut br = exec_rank(hs[0]);
    let mut i: usize = 1;
    while i < hs.len()
        invariant
            1 <= i <= hs.len(),
            b < i,
            br == rank(hs@[b as int]),
            forall|q: int| 0 <= q < i ==> rank(#[trigger] hs@[q]) <= br,
            forall|q: int| 0 <= q < b ==> rank(#[trigger] hs@[q]) < br,
        decreases hs.len() - i,
    {
        let r = exec_rank(hs[i]);
        if r > br {
            b = i;
            br = r;
        }
        i = i + 1;
    }
    b
}

pub proof fn lemma_hardest_len(rem: Seq<int>, hs: Seq<Option<usize>>)
    ensures
        hardest_order_of(rem, hs).len() == rem.len(),
    decreases rem.len(),
{
    if rem.len() > 0 {
        let p0 = choose|p: int| is_first_hardest(hardness_of(rem, hs), p);
        let p = if 0 <= p0 < rem.len() {
            p0
        } else {
            0
        };
        lemma_hardest_len(rem.remove(p), hs);
    }
}

/// Put the most-missed cards first. `hardness[k]` is the hardness of
/// `items[k]`; cards too new to be judged (`None`) go last, and cards
/// equally hard keep their order.
pub fn hardest_first<T>(items: Vec<T>, hardness: Vec<Option<usize>>) -> (out: Vec<T>)
    requires
        items.len() == hardness.len(),
    ensures
        out@.len() == items@.len(),
        hardest_order(hardness@).len() == items@.len(),
        forall|k: int| 0 <= k < out@.len() ==> out@[k] == items@[hardest_order(hardness@)[k]],
{
    let ghost n = items.len();
    let ghost full = all_indices(hardness@.len());
    let mut left = items;
    let mut lh = hardness.clone();
    let mut out: Vec<T> = Vec::new();
    let ghost mut rem: Seq<int> = full;
    let ghost mut done: Seq<int> = seq![];
    let ghost orig_items = left@;
    proof {
        assert(lh@ =~= hardness_of(rem, hardness@));
        lemma_hardest_len(full, hardness@);
    }
    while left.len() > 0
        invariant
            hardness@.len() == n,
            orig_items.len() == n,
            left@.len() == lh@.len() == rem.len(),
            lh@ == hardness_of(rem, hardness@),
            forall|j: int| 0 <= j < rem.len() ==> 0 <= #[trigger] rem[j] < n,
            forall|j: int| 0 <= j < rem.len() ==> left@[j] == orig_items[#[trigger] rem[j]],
            out@.len() == done.len(),
            forall|k: int| 0 <= k < out@.len() ==> out@[k] == orig_items[#[trigger] done[k]],
            done + hardest_order_of(rem, hardness@) == hardest_order(hardness@),
            full == all_indices(n as nat),
        decreases left.len(),
    {
        let p = find_first_hardest(&lh);
        proof {
            let p2 = choose|q: int| is_first_hardest(hardness_of(rem, hardness@), q);
            assert(is_first_hardest(hardness_of(rem, hardness@), p2));
            lemma_first_hardest_unique(lh@, p as int, p2);
        }
        let ghost old_rem = rem;
        let item = left.remove(p);
        let _ = lh.remove(p);
        out.push(item);
        proof {
            rem = old_rem.remove(p as int);
            assert(hardest_order_of(old_rem, hardness@) == seq![old_rem[p as int]]
                + hardest_order_of(rem, hardness@));
            done = done.push(old_rem[p as int]);
            assert(lh@ =~= hardness_of(rem, hardness@));
            assert forall|j: int| 0 <= j < rem.len() implies left@[j] == orig_items[#[trigger] rem[j]] by {
                if j < p {
                    assert(rem[j] == old_rem[j]);
                } else {
                    assert(rem[j] == old_rem[j + 1]);
                }
            }
            assert forall|j: int| 0 <= j < rem.len() implies 0 <= #[trigger] rem[j] < n by {
                if j < p {
                    assert(rem[j] == old_rem[j]);
                } else {
                    assert(rem[j] == old_rem[j + 1]);
                }
            }
            assert(done + hardest_order_of(rem, hardness@) =~= hardest_order(hardness@)) by {
                assert(done.drop_last() + (seq![old_rem[p as int]] + hardest_order_of(
                    rem,
                    hardness@,
                )) =~= done + hardest_order_of(rem, hardness@));
            }
        }
    }
    proof {
        assert(hardest_order_of(rem, hardness@) =~= seq![]);
        assert(done =~= hardest_order(hardness@));
    }
    out
}

proof fn lemma_first_hardest_exists(hs: Seq<Option<usize>>)
    requires
        hs.len() > 0,
    ensures
        exists|p: int| is_first_hardest(hs, p),
{
    let b = first_hardest_upto(hs, hs.len() as int);
    assert(is_first_hardest(hs, b));
}

proof fn first_hardest_upto(hs: Seq<Option<usize>>, i: int) -> (b: int)
    requires
        1 <= i <= hs.len(),
    ensures
        0 <= b < i,
        forall|q: int| 0 <= q < i ==> rank(#[trigger] hs[q]) <= rank(hs[b]),
        forall|q: int| 0 <= q < b ==> rank(#[trigger] hs[q]) < rank(hs[b]),
    decreases i,
{
    if i == 1 {
        0
    } else {
        let b = first_hardest_upto(hs, i - 1);
        if rank(hs[i - 1]) > rank(hs[b]) {
            i - 1
        } else {
            b
        }
    }
}

/// What the selection keeps true of the remaining positions: in range,
/// increasing, and so free of duplicates.
pub open spec fn increasing(rem: Seq<int>) -> bool {
    forall|i: int, j: int| 0 <= i < j < rem.len() ==> rem[i] < rem[j]
}

proof fn lemma_hardest_props(rem: Seq<int>, hs: Seq<Option<usize>>)
    requires
        increasing(rem),
        forall|j: int| 0 <= j < rem.len() ==> 0 <= #[trigger] rem[j] < hs.len(),
    ensures
        hardest_order_of(rem, hs).len() == rem.len(),
        forall|k: int|
            0 <= k < rem.len() ==> rem.contains(#[trigger] hardest_order_of(rem, hs)[k]),
        hardest_order_of(rem, hs).no_duplicates(),
        forall|i: int, j: int|
            0 <= i < j < rem.len() ==> rank(hs[#[trigger] hardest_order_of(rem, hs)[i]]) >= rank(
                hs[#[trigger] hardest_order_of(rem, hs)[j]],
            ),
        forall|i: int, j: int|
            0 <= i < j < rem.len() && rank(hs[#[trigger] hardest_order_of(rem, hs)[i]]) == rank(
                hs[#[trigger] hardest_order_of(rem, hs)[j]],
            ) ==> hardest_order_of(rem, hs)[i] < hardest_order_of(rem, hs)[j],
    decreases rem.len(),
{
    let g = hardest_order_of(rem, hs);
    lemma_hardest_len(rem, hs);
    if rem.len() > 0 {
        let hr = hardness_of(rem, hs);
        lemma_first_hardest_exists(hr);
        let p = choose|p: int| is_first_hardest(hr, p);
        let rem2 = rem.remove(p);
        assert(increasing(rem2)) by {
            assert forall|i: int, j: int| 0 <= i < j < rem2.len() implies rem2[i] < rem2[j] by {
                let ii = if i < p {
                    i
                } else {
                    i + 1
                };
                let jj = if j < p {
                    j
                } else {
                    j + 1
                };
                assert(rem2[i] == rem[ii] && rem2[j] == rem[jj]);
            }
        }
        assert forall|j: int| 0 <= j < rem2.len() implies 0 <= #[trigger] rem2[j] < hs.len() by {
            if j < p {
                assert(rem2[j] == rem[j]);
            } else {
                assert(rem2[j] == rem[j + 1]);
            }
        }
        lemma_hardest_props(rem2, hs);
        let rest = hardest_order_of(rem2, hs);
        assert(g == seq![rem[p]] + rest);
        // Every later card comes from the remaining positions: no harder than
        // the head, and after it when equally hard.
        assert forall|k: int| 0 <= k < rest.len() implies rem.contains(#[trigger] rest[k]) && rest[k]
            != rem[p] && rank(hs[rest[k]]) <= rank(hs[rem[p]]) && (rank(hs[rest[k]]) == rank(
            hs[rem[p]],
        ) ==> rem[p] < rest[k]) by {
            assert(rem2.contains(rest[k]));
            let i = choose|i: int| 0 <= i < rem2.len() && rem2[i] == rest[k];
            let ii = if i < p {
                i
            } else {
                i + 1
            };
            assert(rem2[i] == rem[ii]);
            assert(hr[ii] == hs[rem[ii]]);
            assert(hr[p] == hs[rem[p]]);
            if ii < p {
                assert(rank(hr[ii]) < rank(hr[p]));
            }
        }
        assert forall|k: int| 0 <= k < rem.len() implies rem.contains(#[trigger] g[k]) by {
            if k == 0 {
                assert(g[0] == rem[p]);
            } else {
                assert(g[k] == rest[k - 1]);
            }
        }
        assert forall|i: int, j: int| 0 <= i < g.len() && 0 <= j < g.len() && i != j implies g[i]
            != g[j] by {
            if i > 0 && j > 0 {
                assert(g[i] == rest[i - 1] && g[j] == rest[j - 1]);
            } else if i == 0 {
                assert(g[j] == rest[j - 1]);
            } else {
                assert(g[i] == rest[i - 1]);
            }
        }
        assert forall|i: int, j: int| 0 <= i < j < rem.len() implies rank(hs[#[trigger] g[i]]) >= rank(
            hs[#[trigger] g[j]],
        ) && (rank(hs[g[i]]) == rank(hs[g[j]]) ==> g[i] < g[j]) by {
            assert(g[j] == rest[j - 1]);
            if i > 0 {
                assert(g[i] == rest[i - 1]);
            }
        }
    }
}

/// `?order=hardest` only rearranges: every card is kept exactly once; the
/// hardest come first; equally hard cards keep their `due` order.
pub proof fn law_hardest_first_is_a_stable_sort(hs: Seq<Option<usize>>)
    ensures
        hardest_order(hs).len() == hs.len(),
        forall|k: int| 0 <= k < hs.len() ==> 0 <= #[trigger] hardest_order(hs)[k] < hs.len(),
        hardest_order(hs).no_duplicates(),
        forall|i: int, j: int|
            0 <= i < j < hs.len() ==> rank(hs[#[trigger] hardest_order(hs)[i]]) >= rank(
                hs[#[trigger] hardest_order(hs)[j]],
            ),
        forall|i: int, j: int|
            0 <= i < j < hs.len() && rank(hs[#[trigger] hardest_order(hs)[i]]) == rank(
                hs[#[trigger] hardest_order(hs)[j]],
            ) ==> hardest_order(hs)[i] < hardest_order(hs)[j],
{
    let full = all_indices(hs.len());
    lemma_hardest_props(full, hs);
    assert forall|k: int| 0 <= k < hs.len() implies 0 <= #[trigger] hardest_order(hs)[k]
        < hs.len() by {
        assert(full.contains(hardest_order(hs)[k]));
    }
}

/// The arrangement each `?order=` gives, by position in the `due` batch:
/// `hs[k]` is the hardness of the batch's `k`-th card.
pub open spec fn order_of(o: DueOrder, sets: Seq<u128>, hs: Seq<Option<usize>>) -> Seq<int> {
    match o {
        DueOrder::Due => all_indices(sets.len()),
        DueOrder::Interleave => interleave_order(sets),
        DueOrder::Hardest => hardest_order(hs),
    }
}

/// Whichever order `?order=` names, the answer is the `due` batch
/// rearranged: as many cards, each taken from the batch, none twice.
pub proof fn law_every_order_rearranges_the_batch(o: DueOrder, sets: Seq<u128>, hs: Seq<Option<usize>>)
    requires
        sets.len() == hs.len(),
    ensures
        order_of(o, sets, hs).len() == sets.len(),
        forall|k: int| 0 <= k < sets.len() ==> 0 <= #[trigger] order_of(o, sets, hs)[k] < sets.len(),
        order_of(o, sets, hs).no_duplicates(),
{
    match o {
        DueOrder::Due => {},
        DueOrder::Interleave => {
            law_interleave_keeps_every_card(sets);
        },
        DueOrder::Hardest => {
            law_hardest_first_is_a_stable_sort(hs);
        },
    }
}

/// A card's hardness is the number of misses among its five newest
/// answers, whether or not that many misses make it weak; a card with fewer
/// than five answers is not judged. So of two judged cards, the one missed
/// more often is the harder.
pub proof fn law_hardness_counts_misses_in_window(recent: Seq<bool>)
    ensures
        recent.len() >= 5 ==> spec_hardness(recent) == Some(misses(recent.take(5)) as usize),
        recent.len() >= 5 ==> misses(recent.take(5)) <= 5,
        recent.len() < 5 ==> spec_hardness(recent) is None,
{
    if recent.len() >= 5 {
        lemma_misses_le(recent.take(5));
    }
}

/// Of two judged cards, the one with more misses in its window ranks
/// strictly above the other under `?order=hardest`.
pub proof fn law_more_misses_rank_higher(a: Seq<bool>, b: Seq<bool>)
    requires
        a.len() >= 5,
        b.len() >= 5,
        misses(a.take(5)) > misses(b.take(5)),
    ensures
        rank(spec_hardness(a)) > rank(spec_hardness(b)),
{
    law_hardness_counts_misses_in_window(a);
    law_hardness_counts_misses_in_window(b);
}

} // verus!

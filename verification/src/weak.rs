//! Weak-card detection: the rule that decides, from a card's most recent
//! answers, whether the learner keeps failing it, and what a review did to
//! the learner's weak-card todo item.
use vstd::prelude::*;

verus! {

/// How many of a card's most recent reviews are judged.
pub const WEAK_CARD_WINDOW: i64 = 5;

/// A card is weak when at least `WEAK_WRONG_NUMERATOR / WEAK_WRONG_DENOMINATOR`
/// of its judged reviews were "again": 2 of 5.
pub const WEAK_WRONG_NUMERATOR: usize = 2;

pub const WEAK_WRONG_DENOMINATOR: usize = 5;

/// Title of the item a weak set gets.
pub const WEAK_TODO_TITLE: &'static str = "Ôn lại các thẻ đang yếu";

/// The verdict on one card.
#[derive(Debug, PartialEq, Eq, Structural)]
pub enum Weakness {
    /// Fewer than `WEAK_CARD_WINDOW` reviews: not judged.
    NotEnoughHistory { reviews: usize },
    NotWeak { wrong: usize },
    Weak { wrong: usize },
}

/// What happened to the card that was just reviewed. Todo ids are the
/// 128-bit value of the item's UUID.
#[derive(Debug, PartialEq, Eq)]
pub enum WeakCardSync {
    NotEnoughHistory,
    NotWeak,
    /// Weak, and the set had no open item: one was opened.
    Opened { todo_id: u128 },
    /// Weak, and appended to the set's open item.
    CardAdded { todo_id: u128 },
    /// Weak, and already on the set's open item.
    AlreadyListed { todo_id: u128 },
    /// Nothing was recorded; the next weak review retries.
    Failed(String),
}

/// Number of `false` ("again") answers in `s`.
pub open spec fn misses(s: Seq<bool>) -> nat
    decreases s.len(),
{
    if s.len() == 0 {
        0
    } else {
        misses(s.drop_last()) + if s.last() {
            0nat
        } else {
            1nat
        }
    }
}

pub proof fn lemma_misses_le(s: Seq<bool>)
    ensures
        misses(s) <= s.len(),
    decreases s.len(),
{
    if s.len() > 0 {
        lemma_misses_le(s.drop_last());
    }
}

/// The weak-card rule over answers given newest first.
pub open spec fn spec_assess(recent: Seq<bool>) -> Weakness {
    let window = WEAK_CARD_WINDOW as nat;
    if recent.len() < window {
        Weakness::NotEnoughHistory { reviews: recent.len() as usize }
    } else {
        let wrong = misses(recent.take(window as int));
        if wrong * WEAK_WRONG_DENOMINATOR >= WEAK_WRONG_NUMERATOR * window {
            Weakness::Weak { wrong: wrong as usize }
        } else {
            Weakness::NotWeak { wrong: wrong as usize }
        }
    }
}

/// Count the misses in `v[0..n]`.
pub fn count_misses(v: &[bool], n: usize) -> (c: usize)
    requires
        n <= v@.len(),
    ensures
        c == misses(v@.take(n as int)),
{
    let mut c: usize = 0;
    let mut i: usize = 0;
    while i < n
        invariant
            i <= n <= v@.len(),
            c == misses(v@.take(i as int)),
            c <= i,
        decreases n - i,
    {
        proof {
            assert(v@.take(i + 1).drop_last() =~= v@.take(i as int));
        }
        if !v[i] {
            c = c + 1;
        }
        i = i + 1;
    }
    c
}

/// Judge a card from its recent answers, newest first (`true` = recalled).
/// Only the newest `WEAK_CARD_WINDOW` answers count; with fewer than that the
/// card is not judged at all.
pub fn assess(recent: &[bool]) -> (w: Weakness)
    ensures
        w == spec_assess(recent@),
{
    let window: usize = 5;
    if recent.len() < window {
        return Weakness::NotEnoughHistory { reviews: recent.len() };
    }
    let wrong = count_misses(recent, window);
    proof {
        lemma_misses_le(recent@.take(5));
    }
    if wrong * WEAK_WRONG_DENOMINATOR >= WEAK_WRONG_NUMERATOR * window {
        Weakness::Weak { wrong }
    } else {
        Weakness::NotWeak { wrong }
    }
}

/// Whether a card is weak, and how many of the judged answers were misses:
/// what the weak-card listing shows per card. A card too new to be judged
/// is not weak, and its misses are counted over all its answers.
pub open spec fn spec_weak_summary(answers: Seq<bool>) -> (usize, bool) {
    match spec_assess(answers) {
        Weakness::Weak { wrong } => (wrong, true),
        Weakness::NotWeak { wrong } => (wrong, false),
        Weakness::NotEnoughHistory { .. } => (misses(answers) as usize, false),
    }
}

pub fn weak_summary(answers: &[bool]) -> (r: (usize, bool))
    ensures
        r == spec_weak_summary(answers@),
{
    match assess(answers) {
        Weakness::Weak { wrong } => (wrong, true),
        Weakness::NotWeak { wrong } => (wrong, false),
        Weakness::NotEnoughHistory { .. } => {
            let c = count_misses(answers, answers.len());
            proof {
                assert(answers@.take(answers@.len() as int) =~= answers@);
            }
            (c, false)
        },
    }
}

/// The outcome of a review when the card turns out not to need the todo
/// list: `None` when it is weak and the todo item has to be written.
pub fn sync_without_write(w: &Weakness) -> (r: Option<WeakCardSync>)
    ensures
        (*w is NotEnoughHistory) ==> r == Some(WeakCardSync::NotEnoughHistory),
        (*w is NotWeak) ==> r == Some(WeakCardSync::NotWeak),
        (*w is Weak) ==> (r is None),
{
    match w {
        Weakness::NotEnoughHistory { .. } => Some(WeakCardSync::NotEnoughHistory),
        Weakness::NotWeak { .. } => Some(WeakCardSync::NotWeak),
        Weakness::Weak { .. } => None,
    }
}

/// The outcome of writing a weak card to its set's todo item, from what the
/// two statements reported: whether the item row was created, and whether
/// the card was newly listed on it.
pub fn sync_after_write(inserted: bool, newly_listed: bool, todo_id: u128) -> (r: WeakCardSync)
    ensures
        inserted ==> r == (WeakCardSync::Opened { todo_id }),
        !inserted && newly_listed ==> r == (WeakCardSync::CardAdded { todo_id }),
        !inserted && !newly_listed ==> r == (WeakCardSync::AlreadyListed { todo_id }),
{
    if inserted {
        WeakCardSync::Opened { todo_id }
    } else if newly_listed {
        WeakCardSync::CardAdded { todo_id }
    } else {
        WeakCardSync::AlreadyListed { todo_id }
    }
}

// ---------------------------------------------------------------------------
// Reading the weak-card list back
// ---------------------------------------------------------------------------

/// `GET /weak_cards`: closed items are history, shown only on request.
pub struct WeakQuery {
    pub include_closed: bool,
}

/// The answers recorded for `card`, in the order given (newest first as
/// the listing reads them). Cards are identified by their UUID's value.
pub open spec fn answers_of(recent: Seq<(u128, bool)>, card: u128) -> Seq<bool>
    decreases recent.len(),
{
    if recent.len() == 0 {
        Seq::empty()
    } else {
        answers_of(recent.drop_last(), card) + if recent.last().0 == card {
            seq![recent.last().1]
        } else {
            Seq::<bool>::empty()
        }
    }
}

pub fn answers_for(recent: &Vec<(u128, bool)>, card: u128) -> (v: Vec<bool>)
    ensures
        v@ == answers_of(recent@, card),
{
    let mut v: Vec<bool> = Vec::new();
    let mut i: usize = 0;
    while i < recent.len()
        invariant
            i <= recent@.len(),
            v@ == answers_of(recent@.take(i as int), card),
        decreases recent@.len() - i,
    {
        let (c, correct) = recent[i];
        proof {
            assert(recent@.take(i + 1).drop_last() =~= recent@.take(i as int));
            assert(recent@.take(i + 1).last() == recent@[i as int]);
        }
        if c == card {
            v.push(correct);
        }
        proof {
            assert(v@ =~= answers_of(recent@.take(i + 1), card));
        }
        i = i + 1;
    }
    proof {
        assert(recent@.take(recent@.len() as int) =~= recent@);
    }
    v
}

/// Why a listed card is on the list, judged by the same rule as the writer:
/// how many answers were counted, how many of them were misses, and whether
/// it is still weak (a card that recovered stays listed, marked so).
#[derive(Debug, Clone, Copy, PartialEq, Eq, Structural)]
pub struct CardEvidence {
    pub recent_reviews: usize,
    pub recent_wrong: usize,
    pub still_weak: bool,
}

pub fn card_evidence(recent: &Vec<(u128, bool)>, card: u128) -> (e: CardEvidence)
    ensures
        e.recent_reviews == answers_of(recent@, card).len(),
        (e.recent_wrong, e.still_weak) == spec_weak_summary(answers_of(recent@, card)),
{
    let answers = answers_for(recent, card);
    let (wrong, still_weak) = weak_summary(answers.as_slice());
    CardEvidence { recent_reviews: answers.len(), recent_wrong: wrong, still_weak }
}

/// The positions of the cards listed on `task`, in order.
pub open spec fn listed_on(task_of_card: Seq<u128>, task: u128, upto: int) -> Seq<int>
    decreases upto,
{
    if upto <= 0 {
        Seq::empty()
    } else {
        listed_on(task_of_card, task, upto - 1) + if task_of_card[upto - 1] == task {
            seq![upto - 1]
        } else {
            Seq::<int>::empty()
        }
    }
}

pub fn cards_of_task(task_of_card: &Vec<u128>, task: u128) -> (r: Vec<usize>)
    ensures
        r@.map_values(|i: usize| i as int) == listed_on(task_of_card@, task, task_of_card@.len() as int),
{
    let mut r: Vec<usize> = Vec::new();
    let mut i: usize = 0;
    while i < task_of_card.len()
        invariant
            i <= task_of_card@.len(),
            r@.map_values(|i: usize| i as int) == listed_on(task_of_card@, task, i as int),
        decreases task_of_card@.len() - i,
    {
        let ghost before = r@;
        if task_of_card[i] == task {
            r.push(i);
            proof {
                assert(r@.map_values(|i: usize| i as int) =~= before.map_values(|i: usize| i as int).push(i as int));
            }
        }
        proof {
            assert(r@.map_values(|i: usize| i as int) =~= listed_on(task_of_card@, task, i + 1));
        }
        i = i + 1;
    }
    r
}

/// How many of the flags are set.
pub open spec fn count_true(flags: Seq<bool>) -> nat
    decreases flags.len(),
{
    if flags.len() == 0 {
        0
    } else {
        count_true(flags.drop_last()) + if flags.last() {
            1nat
        } else {
            0nat
        }
    }
}

pub fn count_still_weak(flags: &Vec<bool>) -> (n: usize)
    ensures
        n == count_true(flags@),
{
    let mut n: usize = 0;
    let mut i: usize = 0;
    while i < flags.len()
        invariant
            i <= flags@.len(),
            n == count_true(flags@.take(i as int)),
            n <= i,
        decreases flags@.len() - i,
    {
        proof {
            assert(flags@.take(i + 1).drop_last() =~= flags@.take(i as int));
        }
        if flags[i] {
            n = n + 1;
        }
        i = i + 1;
    }
    proof {
        assert(flags@.take(flags@.len() as int) =~= flags@);
    }
    n
}

/// Only the newest `WEAK_CARD_WINDOW` answers decide: answers beyond the
/// window never change the verdict.
pub proof fn law_only_the_window_counts(recent: Seq<bool>, older: Seq<bool>)
    requires
        recent.len() >= WEAK_CARD_WINDOW,
    ensures
        spec_assess(recent + older) == spec_assess(recent),
{
    assert((recent + older).take(5) =~= recent.take(5));
}

/// A judged card is weak exactly when at least two of its newest five
/// answers were misses.
pub proof fn law_weak_iff_two_misses_in_five(recent: Seq<bool>)
    requires
        recent.len() >= WEAK_CARD_WINDOW,
    ensures
        (spec_assess(recent) is Weak) <==> misses(recent.take(5)) >= 2,
        !(spec_assess(recent) is NotEnoughHistory),
{
}

/// One listed item: for each of its cards (by position in the card rows,
/// in order), the evidence, and how many of them are still weak.
pub struct TaskListing {
    pub cards: Vec<(usize, CardEvidence)>,
    pub still_weak_count: usize,
}

/// The evidence for the card at each listed position.
pub open spec fn evidence_for(positions: Seq<int>, card_ids: Seq<u128>, recent: Seq<(u128, bool)>) -> Seq<
    (int, nat, (usize, bool)),
> {
    positions.map_values(
        |p: int|
            (
                p,
                answers_of(recent, card_ids[p]).len(),
                spec_weak_summary(answers_of(recent, card_ids[p])),
            ),
    )
}

pub open spec fn listing_view(cards: Seq<(usize, CardEvidence)>) -> Seq<(int, nat, (usize, bool))> {
    cards.map_values(
        |c: (usize, CardEvidence)|
            (c.0 as int, c.1.recent_reviews as nat, (c.1.recent_wrong, c.1.still_weak)),
    )
}

pub open spec fn weak_flags(cards: Seq<(usize, CardEvidence)>) -> Seq<bool> {
    cards.map_values(|c: (usize, CardEvidence)| c.1.still_weak)
}

/// The listing of one item: its cards, in the order of the card rows, each
/// judged by the writer's rule over its recent answers.
pub fn task_listing(task: u128, task_of_card: &Vec<u128>, card_ids: &Vec<u128>, recent: &Vec<(u128, bool)>) -> (r:
    TaskListing)
    requires
        task_of_card@.len() == card_ids@.len(),
    ensures
        listing_view(r.cards@) == evidence_for(
            listed_on(task_of_card@, task, task_of_card@.len() as int),
            card_ids@,
            recent@,
        ),
        r.still_weak_count == count_true(weak_flags(r.cards@)),
{
    let positions = cards_of_task(task_of_card, task);
    let ghost ps = positions@.map_values(|i: usize| i as int);
    proof {
        lemma_listed_in_range(task_of_card@, task, task_of_card@.len() as int);
    }
    let mut cards: Vec<(usize, CardEvidence)> = Vec::new();
    let mut flags: Vec<bool> = Vec::new();
    let mut j: usize = 0;
    while j < positions.len()
        invariant
            ps == positions@.map_values(|i: usize| i as int),
            ps == listed_on(task_of_card@, task, task_of_card@.len() as int),
            forall|k: int| 0 <= k < ps.len() ==> 0 <= #[trigger] ps[k] < task_of_card@.len(),
            task_of_card@.len() == card_ids@.len(),
            j <= positions@.len(),
            listing_view(cards@) == evidence_for(ps.take(j as int), card_ids@, recent@),
            flags@ == weak_flags(cards@),
        decreases positions@.len() - j,
    {
        let p = positions[j];
        assert(ps[j as int] == p as int);
        let e = card_evidence(recent, card_ids[p]);
        let ghost before = cards@;
        cards.push((p, e));
        flags.push(e.still_weak);
        proof {
            assert(ps.take(j + 1) =~= ps.take(j as int).push(p as int));
            assert(listing_view(cards@) =~= listing_view(before).push(
                (p as int, e.recent_reviews as nat, (e.recent_wrong, e.still_weak)),
            ));
            assert(listing_view(cards@) =~= evidence_for(ps.take(j + 1), card_ids@, recent@));
            assert(flags@ =~= weak_flags(cards@));
        }
        j = j + 1;
    }
    proof {
        assert(ps.take(positions@.len() as int) =~= ps);
    }
    let still_weak_count = count_still_weak(&flags);
    TaskListing { cards, still_weak_count }
}

/// Cards listed over all items (a card on two items counts twice).
pub open spec fn total_cards(ls: Seq<TaskListing>) -> nat
    decreases ls.len(),
{
    if ls.len() == 0 {
        0
    } else {
        total_cards(ls.drop_last()) + ls.last().cards@.len()
    }
}

/// Still-weak cards over all items.
pub open spec fn total_still_weak(ls: Seq<TaskListing>) -> nat
    decreases ls.len(),
{
    if ls.len() == 0 {
        0
    } else {
        total_still_weak(ls.drop_last()) + ls.last().still_weak_count as nat
    }
}

proof fn lemma_totals_grow(ls: Seq<TaskListing>, i: int, j: int)
    requires
        0 <= i <= j <= ls.len(),
    ensures
        total_cards(ls.take(i)) <= total_cards(ls.take(j)),
        total_still_weak(ls.take(i)) <= total_still_weak(ls.take(j)),
    decreases j - i,
{
    if i < j {
        lemma_totals_grow(ls, i, j - 1);
        assert(ls.take(j).drop_last() =~= ls.take(j - 1));
    }
}

/// The listing's top-level figures: how many cards the items list, and how
/// many of them are still weak.
pub fn listing_totals(ls: &Vec<TaskListing>) -> (r: (usize, usize))
    requires
        total_cards(ls@) <= usize::MAX,
        total_still_weak(ls@) <= usize::MAX,
    ensures
        r.0 == total_cards(ls@),
        r.1 == total_still_weak(ls@),
{
    let mut cards: usize = 0;
    let mut weak: usize = 0;
    let mut i: usize = 0;
    while i < ls.len()
        invariant
            i <= ls@.len(),
            cards == total_cards(ls@.take(i as int)),
            weak == total_still_weak(ls@.take(i as int)),
            total_cards(ls@) <= usize::MAX,
            total_still_weak(ls@) <= usize::MAX,
        decreases ls@.len() - i,
    {
        proof {
            assert(ls@.take(i + 1).drop_last() =~= ls@.take(i as int));
            assert(ls@.take(ls@.len() as int) =~= ls@);
            lemma_totals_grow(ls@, i + 1, ls@.len() as int);
        }
        cards = cards + ls[i].cards.len();
        weak = weak + ls[i].still_weak_count;
        i = i + 1;
    }
    proof {
        assert(ls@.take(ls@.len() as int) =~= ls@);
    }
    (cards, weak)
}

proof fn lemma_listed_in_range(task_of_card: Seq<u128>, task: u128, upto: int)
    requires
        upto <= task_of_card.len(),
    ensures
        forall|k: int|
            0 <= k < listed_on(task_of_card, task, upto).len() ==> 0 <= #[trigger] listed_on(
                task_of_card,
                task,
                upto,
            )[k] < upto,
    decreases upto,
{
    if upto > 0 {
        lemma_listed_in_range(task_of_card, task, upto - 1);
        let prev = listed_on(task_of_card, task, upto - 1);
        let cur = listed_on(task_of_card, task, upto);
        assert forall|k: int| 0 <= k < cur.len() implies 0 <= #[trigger] cur[k] < upto by {
            if k < prev.len() {
                assert(cur[k] == prev[k]);
            }
        }
    }
}

} // verus!

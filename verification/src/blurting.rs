//! Blurting: the learner writes down everything they remember of a study
//! set, the model compares it with the set's cards, and each card it was
//! shown comes back remembered, wrong or missing.
//!
//! The model never sees a card id. Cards are labelled `c1`, `c2`, ... in the
//! prompt and the model answers with labels, which are mapped back here; a
//! label that is not one of this prompt's cards is dropped, so every verdict
//! belongs to a card of the set.
use vstd::prelude::*;
use crate::flow::{refuse, server_error, single_turn, single_turn_messages, Failure, ModelCall};
use crate::llm::LLMMessage;
use crate::prompt::{fit_entries, fitted, prompt_log_text, views};
use crate::text::{
    blank, char_count, char_lowers_to, chars_of, decimal, is_blank, lowers_to, own, push_decimal,
    trim, trim_range, trimmed, is_ws, digit_char, lemma_decimal_digits, lemma_digit_char, lemma_trim_unchanged,
};

verus! {

/// Byte budget for the cards in the prompt.
pub const MAX_CARD_CONTEXT_CHARS: usize = 6000;

/// Cap on what the learner writes, in characters.
pub const MAX_RECALL_CHARS: usize = 4000;

/// `POST /study_sets/{set_id}/blurting`.
pub struct BlurtingRequest {
    pub recall_text: String,
}

/// A card of the set, in the fixed order that gives it its label.
#[derive(Debug, Clone, PartialEq, Eq)]
pub struct CardRow {
    pub id: u128,
    pub question: String,
    pub answer: String,
}

#[derive(Debug, Clone, Copy, PartialEq, Eq, Structural)]
pub enum Verdict {
    Remembered,
    Missing,
    Wrong,
}

impl Verdict {
    /// The name stored for the verdict.
    pub fn as_str(&self) -> (s: &'static str)
        ensures
            *self is Remembered ==> s@ == "remembered"@,
            *self is Missing ==> s@ == "missing"@,
            *self is Wrong ==> s@ == "wrong"@,
    {
        match self {
            Verdict::Remembered => "remembered",
            Verdict::Missing => "missing",
            Verdict::Wrong => "wrong",
        }
    }
}

/// A card with its verdict; the note says what was got wrong and is empty
/// unless the verdict is wrong.
#[derive(Debug, Clone, PartialEq, Eq)]
pub struct CardVerdict {
    pub card_id: u128,
    pub question: String,
    pub answer: String,
    pub note: String,
}

/// A card the model says was got wrong, and what was wrong.
pub struct WrongItem {
    pub card: String,
    pub note: String,
}

/// The model's answer: the labels remembered (absent means none), the
/// labels got wrong, and feedback for the learner.
pub struct BlurtingAIResponse {
    pub remembered: Vec<String>,
    pub wrong: Vec<WrongItem>,
    pub feedback: String,
}

// ---------------------------------------------------------------------------
// The prompt
// ---------------------------------------------------------------------------

/// The label of the card at position `i`: `c1` for the first.
pub open spec fn label_text(i: nat) -> Seq<char> {
    "c"@ + decimal(i + 1)
}

pub fn label(i: usize) -> (s: String)
    requires
        i < usize::MAX,
    ensures
        s@ == label_text(i as nat),
{
    let mut s = String::new();
    s.push_str("c");
    push_decimal(&mut s, (i + 1) as u64);
    proof {
        assert(s@ =~= label_text(i as nat));
    }
    s
}

pub open spec fn card_entry(i: nat, card: CardRow) -> Seq<char> {
    "["@ + label_text(i) + "]\nQ: "@ + card.question@ + "\nA: "@ + card.answer@ + "\n\n"@
}

pub open spec fn card_entries(cards: Seq<CardRow>) -> Seq<Seq<char>> {
    Seq::new(cards.len(), |i: int| card_entry(i as nat, cards[i]))
}

/// The cards that fit the budget, whole and in order, and the context text
/// for them.
pub fn build_context(cards: &Vec<CardRow>) -> (r: (usize, String))
    ensures
        (r.0 as nat, r.1@) == fitted(card_entries(cards@), 6000),
{
    let mut entries: Vec<String> = Vec::new();
    let mut i: usize = 0;
    while i < cards.len()
        invariant
            i <= cards@.len(),
            entries@.len() == i,
            forall|k: int| 0 <= k < i ==> (#[trigger] entries@[k])@ == card_entry(k as nat, cards@[k]),
        decreases cards@.len() - i,
    {
        let c = &cards[i];
        let mut e = String::new();
        e.push_str("[");
        let l = label(i);
        e.push_str(l.as_str());
        e.push_str("]\nQ: ");
        e.push_str(c.question.as_str());
        e.push_str("\nA: ");
        e.push_str(c.answer.as_str());
        e.push_str("\n\n");
        proof {
            assert(e@ =~= card_entry(i as nat, cards@[i as int]));
        }
        entries.push(e);
        i = i + 1;
    }
    proof {
        assert(views(entries@) =~= card_entries(cards@));
    }
    fit_entries(&entries, MAX_CARD_CONTEXT_CHARS)
}

pub open spec fn system_prompt_text(card_context: Seq<char>) -> Seq<char> {
    "You are grading a \"blurting\" exercise: the student has just written down EVERYTHING they remember about a study set WITHOUT looking at the material. Compare what they wrote with each card below. Each card has a label in square brackets, e.g. [c1].\n\nCARDS:\n"@
        + card_context
        + "\nFor each card, decide:\n- \"remembered\": the text states the key idea of the answer correctly (it need not match word for word; different phrasing still counts).\n- \"wrong\": the text mentions the card's content but gets it WRONG (wrong figures, confused concepts, a reversed relationship). Add a \"note\": one English sentence saying exactly what is wrong.\n- A card that is not mentioned, or mentioned too vaguely to tell it was remembered, is NOT listed — the system counts it as missing.\nUse only the labels of the cards above. Do not invent concept names or add cards.\n\n\"feedback\": 1-3 English sentences addressed directly to the student — what they remembered and where the gaps are. Do not over-praise.\n\nReturn only valid JSON, no markdown, no explanation outside the JSON:\n{\"remembered\": [\"c1\"], \"wrong\": [{\"card\": \"c2\", \"note\": \"...\"}], \"feedback\": \"...\"}"@
}

pub fn build_system_prompt(card_context: &str) -> (s: String)
    ensures
        s@ == system_prompt_text(card_context@),
{
    let mut s = String::new();
    s.push_str(
        "You are grading a \"blurting\" exercise: the student has just written down EVERYTHING they remember about a study set WITHOUT looking at the material. Compare what they wrote with each card below. Each card has a label in square brackets, e.g. [c1].\n\nCARDS:\n",
    );
    s.push_str(card_context);
    s.push_str(
        "\nFor each card, decide:\n- \"remembered\": the text states the key idea of the answer correctly (it need not match word for word; different phrasing still counts).\n- \"wrong\": the text mentions the card's content but gets it WRONG (wrong figures, confused concepts, a reversed relationship). Add a \"note\": one English sentence saying exactly what is wrong.\n- A card that is not mentioned, or mentioned too vaguely to tell it was remembered, is NOT listed — the system counts it as missing.\nUse only the labels of the cards above. Do not invent concept names or add cards.\n\n\"feedback\": 1-3 English sentences addressed directly to the student — what they remembered and where the gaps are. Do not over-praise.\n\nReturn only valid JSON, no markdown, no explanation outside the JSON:\n{\"remembered\": [\"c1\"], \"wrong\": [{\"card\": \"c2\", \"note\": \"...\"}], \"feedback\": \"...\"}",
    );
    proof {
        assert(s@ =~= system_prompt_text(card_context@));
    }
    s
}

pub fn build_user_prompt(recall: &str) -> (s: String)
    ensures
        s@ == "The student's text:\n\n"@ + recall@,
{
    let mut s = String::new();
    s.push_str("The student's text:\n\n");
    s.push_str(recall);
    proof {
        assert(s@ =~= "The student's text:\n\n"@ + recall@);
    }
    s
}

/// The learner's text: not blank, and at most `MAX_RECALL_CHARS`
/// characters as written. What is sent is the trimmed text.
pub fn validate_recall(recall_text: &str) -> (r: Result<String, String>)
    ensures
        is_blank(recall_text@) ==> (r matches Err(m) && m@ == "recall_text must not be empty"@),
        !is_blank(recall_text@) && recall_text@.len() > 4000 ==> (r matches Err(m) && m@
            == "recall_text exceeds 4000 character limit"@),
        !is_blank(recall_text@) && recall_text@.len() <= 4000 ==> (r matches Ok(t) && t@ == trim(
            recall_text@,
        )),
{
    if blank(recall_text) {
        return Err(own("recall_text must not be empty"));
    }
    if char_count(recall_text) > MAX_RECALL_CHARS {
        return Err(own("recall_text exceeds 4000 character limit"));
    }
    Ok(trimmed(recall_text))
}

pub const NO_CARDS_MESSAGE: &'static str = "study set has no cards — nothing to compare against, generate some cards first";

// ---------------------------------------------------------------------------
// Mapping labels back to cards
// ---------------------------------------------------------------------------

pub open spec fn is_digit(c: char) -> bool {
    '0' <= c <= '9'
}

/// The value of a run of ASCII digits.
pub open spec fn digits_value(s: Seq<char>) -> nat
    decreases s.len(),
{
    if s.len() == 0 {
        0
    } else {
        digits_value(s.drop_last()) * 10 + (s.last() as nat - 48) as nat
    }
}

/// The digits of what `usize::from_str` reads: after an optional `+`.
pub open spec fn number_digits(s: Seq<char>) -> Seq<char> {
    if s.len() > 0 && s[0] == '+' {
        s.skip(1)
    } else {
        s
    }
}

/// Whether `usize::from_str` reads `s` as a number (ignoring the size
/// limit): an optional `+`, then one or more ASCII digits.
pub open spec fn is_number(s: Seq<char>) -> bool {
    number_digits(s).len() > 0 && forall|i: int|
        0 <= i < number_digits(s).len() ==> is_digit(#[trigger] number_digits(s)[i])
}

/// The card position a label names among `considered` cards: trimmed, a `c`
/// or `C`, then a number from 1 to `considered`.
pub open spec fn label_index(raw: Seq<char>, considered: nat) -> Option<nat> {
    let t = trim(raw);
    let rest = t.skip(1);
    if t.len() >= 1 && lowers_to(t[0], 'c') && is_number(rest) && 1 <= digits_value(
        number_digits(rest),
    ) <= considered {
        Some((digits_value(number_digits(rest)) - 1) as nat)
    } else {
        None
    }
}

proof fn lemma_digits_value_decimal(n: nat)
    ensures
        digits_value(decimal(n)) == n,
    decreases n,
{
    if n < 10 {
        lemma_digit_char(n);
        let d = decimal(n);
        assert(d.drop_last() =~= Seq::<char>::empty());
        assert(d.last() == digit_char(n));
        assert(digits_value(d.drop_last()) == 0);
        assert(digits_value(d) == digits_value(d.drop_last()) * 10 + (d.last() as nat - 48) as nat);
    } else {
        lemma_digits_value_decimal(n / 10);
        lemma_digit_char(n % 10);
        let d = decimal(n);
        assert(d.drop_last() =~= decimal(n / 10));
        assert(d.last() == digit_char(n % 10));
        assert(digits_value(d) == digits_value(d.drop_last()) * 10 + (d.last() as nat - 48) as nat);
        assert(digits_value(d) == (n / 10) * 10 + n % 10);
    }
}

/// Every card the model was shown can be named back: the label `c` (or `C`) followed
/// by the decimal number `n`, for any `n` from 1 to the number of cards
/// considered, names the card at position `n - 1` (so the label a card is
/// given in the prompt reads back as that card); a number past the cards
/// considered names none.
pub proof fn law_every_label_names_its_card(n: nat, considered: nat)
    requires
        1 <= n,
    ensures
        n <= considered ==> label_index("c"@ + decimal(n), considered) == Some((n - 1) as nat),
        n > considered ==> label_index("c"@ + decimal(n), considered) is None,
        n <= considered ==> label_index(label_text((n - 1) as nat), considered) == Some((n - 1) as nat),
        n <= considered ==> label_index("C"@ + decimal(n), considered) == Some((n - 1) as nat),
{
    reveal_strlit("c");
    reveal_strlit("C");
    let u = "C"@ + decimal(n);
    lemma_decimal_digits(n);
    assert forall|i: int| 0 <= i < u.len() implies !is_ws(#[trigger] u[i]) by {
        if i > 0 {
            assert(u[i] == decimal(n)[i - 1]);
        }
    }
    lemma_trim_unchanged(u);
    assert(u.skip(1) =~= decimal(n));
    let s = "c"@ + decimal(n);
    lemma_decimal_digits(n);
    assert forall|i: int| 0 <= i < s.len() implies !is_ws(#[trigger] s[i]) by {
        if i > 0 {
            assert(s[i] == decimal(n)[i - 1]);
        }
    }
    lemma_trim_unchanged(s);
    assert(s.skip(1) =~= decimal(n));
    assert(number_digits(decimal(n)) == decimal(n));
    lemma_digits_value_decimal(n);
    assert(label_text((n - 1) as nat) == s);
}

proof fn lemma_digits_value_prefix(s: Seq<char>, j: int)
    requires
        0 <= j <= s.len(),
        forall|i: int| 0 <= i < s.len() ==> is_digit(#[trigger] s[i]),
    ensures
        digits_value(s.take(j)) <= digits_value(s),
    decreases s.len() - j,
{
    if j < s.len() {
        lemma_digits_value_prefix(s, j + 1);
        assert(s.take(j + 1).drop_last() =~= s.take(j));
        assert(s.take(j + 1).last() == s[j]);
    } else {
        assert(s.take(j) =~= s);
    }
}

/// The position `raw` names, or `None` for a label that is not one of the
/// `considered` cards.
pub fn label_index_of(raw: &str, considered: usize) -> (r: Option<usize>)
    ensures
        match label_index(raw@, considered as nat) {
            Some(k) => r matches Some(x) && x as nat == k,
            None => r is None,
        },
{
    let v = chars_of(raw);
    let (a, b) = trim_range(&v);
    let ghost t = trim(raw@);
    assert(t =~= v@.subrange(a as int, b as int));
    if b - a < 1 || !char_lowers_to(v[a], 'c') {
        return None;
    }
    let ghost rest = t.skip(1);
    let mut j: usize = a + 1;
    if j < b && v[j] == '+' {
        j = j + 1;
    }
    let start = j;
    let ghost d = number_digits(rest);
    assert(d =~= v@.subrange(start as int, b as int));
    if start == b {
        return None;
    }
    let mut value: u128 = 0;
    while j < b
        invariant
            a + 1 <= start <= j <= b <= v@.len(),
            t == trim(raw@),
            rest == t.skip(1),
            d == number_digits(rest),
            t.len() >= 1 && lowers_to(t[0], 'c'),
            d =~= v@.subrange(start as int, b as int),
            value as nat == digits_value(d.take(j - start)),
            value <= considered,
            forall|i: int| 0 <= i < j - start ==> is_digit(#[trigger] d[i]),
        decreases b - j,
    {
        let c = v[j];
        assert(d[j - start] == c);
        if !('0' <= c && c <= '9') {
            return None;
        }
        let dg = (c as u32 - 48) as u128;
        proof {
            assert(d.take(j + 1 - start).drop_last() =~= d.take(j - start));
            assert(d.take(j + 1 - start).last() == c);
        }
        value = value * 10 + dg;
        if value > considered as u128 {
            // Whatever follows, the number is already too large, or not a
            // number at all: either way the label names no card.
            proof {
                if is_number(rest) {
                    lemma_digits_value_prefix(d, j + 1 - start);
                }
            }
            return None;
        }
        j = j + 1;
    }
    proof {
        assert(d.take(j - start) =~= d);
    }
    if value < 1 {
        return None;
    }
    Some((value - 1) as usize)
}

/// Whether some of the first `upto` remembered labels name card `k`.
pub open spec fn named_remembered(rem: Seq<String>, k: nat, considered: nat, upto: int) -> bool {
    exists|j: int| 0 <= j < upto && #[trigger] label_index(rem[j]@, considered) == Some(k)
}

/// The last of the first `upto` wrong items that names card `k`.
pub open spec fn last_wrong(wrong: Seq<WrongItem>, k: nat, considered: nat, upto: int) -> Option<int>
    decreases upto,
{
    if upto <= 0 {
        None
    } else if label_index(wrong[upto - 1].card@, considered) == Some(k) {
        Some(upto - 1)
    } else {
        last_wrong(wrong, k, considered, upto - 1)
    }
}

pub open spec fn remembered_verdict(rem: Seq<String>, k: nat, considered: nat, upto: int) -> Verdict {
    if named_remembered(rem, k, considered, upto) {
        Verdict::Remembered
    } else {
        Verdict::Missing
    }
}

/// The verdict on card `k`: wrong (with the last note given) when a wrong
/// item names it, else remembered when a remembered label names it, else
/// missing.
pub open spec fn verdict_of(p: BlurtingAIResponse, k: nat, considered: nat) -> (Verdict, Seq<char>) {
    match last_wrong(p.wrong@, k, considered, p.wrong@.len() as int) {
        Some(j) => (Verdict::Wrong, trim(p.wrong@[j].note@)),
        None => (remembered_verdict(p.remembered@, k, considered, p.remembered@.len() as int), Seq::empty()),
    }
}

pub open spec fn dropped_remembered(rem: Seq<String>, considered: nat, upto: int) -> Seq<Seq<char>>
    decreases upto,
{
    if upto <= 0 {
        Seq::empty()
    } else {
        dropped_remembered(rem, considered, upto - 1) + if label_index(rem[upto - 1]@, considered) is None {
            seq![rem[upto - 1]@]
        } else {
            Seq::empty()
        }
    }
}

pub open spec fn dropped_wrong(wrong: Seq<WrongItem>, considered: nat, upto: int) -> Seq<Seq<char>>
    decreases upto,
{
    if upto <= 0 {
        Seq::empty()
    } else {
        dropped_wrong(wrong, considered, upto - 1) + if label_index(wrong[upto - 1].card@, considered) is None {
            seq![wrong[upto - 1].card@]
        } else {
            Seq::empty()
        }
    }
}

/// The labels thrown away, remembered ones first, each in the order given.
pub open spec fn dropped_labels(p: BlurtingAIResponse, considered: nat) -> Seq<Seq<char>> {
    dropped_remembered(p.remembered@, considered, p.remembered@.len() as int) + dropped_wrong(
        p.wrong@,
        considered,
        p.wrong@.len() as int,
    )
}

/// The verdict on each considered card, in card order, and the labels that
/// were not this prompt's cards.
pub fn resolve(parsed: &BlurtingAIResponse, considered: usize) -> (r: (Vec<(Verdict, String)>, Vec<String>))
    ensures
        r.0@.len() == considered,
        forall|k: int|
            0 <= k < considered ==> (#[trigger] r.0@[k]).0 == verdict_of(*parsed, k as nat, considered as nat).0
                && r.0@[k].1@ == verdict_of(*parsed, k as nat, considered as nat).1,
        views(r.1@) == dropped_labels(*parsed, considered as nat),
{
    let ghost c = considered as nat;
    let ghost rem = parsed.remembered@;
    let ghost wrong = parsed.wrong@;
    let mut verdicts: Vec<(Verdict, String)> = Vec::new();
    let mut i: usize = 0;
    while i < considered
        invariant
            i <= considered,
            verdicts@.len() == i,
            forall|k: int| 0 <= k < i ==> (#[trigger] verdicts@[k]).0 == Verdict::Missing && verdicts@[k].1@ == Seq::<char>::empty(),
        decreases considered - i,
    {
        verdicts.push((Verdict::Missing, String::new()));
        i = i + 1;
    }
    let mut dropped: Vec<String> = Vec::new();
    let mut j: usize = 0;
    while j < parsed.remembered.len()
        invariant
            rem == parsed.remembered@,
            c == considered,
            j <= rem.len(),
            verdicts@.len() == considered,
            forall|k: int|
                0 <= k < considered ==> (#[trigger] verdicts@[k]).0 == remembered_verdict(rem, k as nat, c, j as int)
                    && verdicts@[k].1@ == Seq::<char>::empty(),
            views(dropped@) == dropped_remembered(rem, c, j as int),
        decreases rem.len() - j,
    {
        let raw = &parsed.remembered[j];
        let idx = label_index_of(raw.as_str(), considered);
        proof {
            assert(rem[j as int] == *raw);
        }
        match idx {
            Some(p) => {
                if verdicts[p].0 == Verdict::Missing {
                    verdicts.set(p, (Verdict::Remembered, String::new()));
                }
                proof {
                    assert forall|k: int| 0 <= k < considered implies (#[trigger] verdicts@[k]).0
                        == remembered_verdict(rem, k as nat, c, j + 1) by {
                        if k == p {
                            assert(label_index(rem[j as int]@, c) == Some(k as nat));
                        } else if named_remembered(rem, k as nat, c, j + 1) {
                            let w = choose|w: int| 0 <= w < j + 1 && #[trigger] label_index(rem[w]@, c) == Some(k as nat);
                            assert(w != j);
                        }
                    }
                    assert(views(dropped@) =~= dropped_remembered(rem, c, j + 1));
                }
            },
            None => {
                dropped.push(raw.clone());
                proof {
                    assert forall|k: int| 0 <= k < considered implies (#[trigger] verdicts@[k]).0
                        == remembered_verdict(rem, k as nat, c, j + 1) by {
                        if named_remembered(rem, k as nat, c, j + 1) {
                            let w = choose|w: int| 0 <= w < j + 1 && #[trigger] label_index(rem[w]@, c) == Some(k as nat);
                            assert(w != j);
                        }
                    }
                    assert(views(dropped@) =~= dropped_remembered(rem, c, j + 1));
                }
            },
        }
        j = j + 1;
    }
    let ghost base = dropped@;
    let mut w: usize = 0;
    while w < parsed.wrong.len()
        invariant
            rem == parsed.remembered@,
            wrong == parsed.wrong@,
            c == considered,
            w <= wrong.len(),
            verdicts@.len() == considered,
            forall|k: int|
                0 <= k < considered ==> (#[trigger] verdicts@[k]).0 == (match last_wrong(wrong, k as nat, c, w as int) {
                    Some(x) => Verdict::Wrong,
                    None => remembered_verdict(rem, k as nat, c, rem.len() as int),
                }) && verdicts@[k].1@ == (match last_wrong(wrong, k as nat, c, w as int) {
                    Some(x) => trim(wrong[x].note@),
                    None => Seq::<char>::empty(),
                }),
            views(base) == dropped_remembered(rem, c, rem.len() as int),
            views(dropped@) == views(base) + dropped_wrong(wrong, c, w as int),
        decreases wrong.len() - w,
    {
        let item = &parsed.wrong[w];
        let idx = label_index_of(item.card.as_str(), considered);
        proof {
            assert(wrong[w as int] == *item);
        }
        match idx {
            Some(p) => {
                let note = trimmed(item.note.as_str());
                verdicts.set(p, (Verdict::Wrong, note));
                proof {
                    assert(label_index(wrong[w as int].card@, c) is Some);
                    assert(dropped_wrong(wrong, c, w + 1) =~= dropped_wrong(wrong, c, w as int));
                    assert(views(dropped@) =~= views(base) + dropped_wrong(wrong, c, w + 1));
                }
            },
            None => {
                let ghost before = dropped@;
                dropped.push(item.card.clone());
                proof {
                    assert(views(dropped@) =~= views(before).push(item.card@));
                    assert(dropped_wrong(wrong, c, w + 1) =~= dropped_wrong(wrong, c, w as int).push(
                        wrong[w as int].card@,
                    ));
                    assert(views(dropped@) =~= views(base) + dropped_wrong(wrong, c, w + 1));
                }
            },
        }
        w = w + 1;
    }
    proof {
        assert(views(dropped@) =~= dropped_labels(*parsed, c));
    }
    (verdicts, dropped)
}

/// A card named wrong is wrong whatever else the model said of it: a label
/// listed both as remembered and as wrong counts as wrong.
pub proof fn law_wrong_beats_remembered(p: BlurtingAIResponse, k: nat, considered: nat, j: int)
    requires
        0 <= j < p.wrong@.len(),
        label_index(p.wrong@[j].card@, considered) == Some(k),
    ensures
        verdict_of(p, k, considered).0 == Verdict::Wrong,
{
    lemma_last_wrong_found(p.wrong@, k, considered, p.wrong@.len() as int, j);
}

proof fn lemma_last_wrong_found(wrong: Seq<WrongItem>, k: nat, considered: nat, upto: int, j: int)
    requires
        0 <= j < upto <= wrong.len(),
        label_index(wrong[j].card@, considered) == Some(k),
    ensures
        last_wrong(wrong, k, considered, upto) matches Some(x) && j <= x < upto,
    decreases upto,
{
    if label_index(wrong[upto - 1].card@, considered) != Some(k) {
        lemma_last_wrong_found(wrong, k, considered, upto - 1, j);
    }
}

/// A card no label names is missing, with no note.
pub proof fn law_unnamed_cards_are_missing(p: BlurtingAIResponse, k: nat, considered: nat)
    requires
        forall|j: int| 0 <= j < p.remembered@.len() ==> label_index(#[trigger] p.remembered@[j]@, considered) != Some(k),
        forall|j: int| 0 <= j < p.wrong@.len() ==> label_index(#[trigger] p.wrong@[j].card@, considered) != Some(k),
    ensures
        verdict_of(p, k, considered) == (Verdict::Missing, Seq::<char>::empty()),
{
    lemma_last_wrong_none(p.wrong@, k, considered, p.wrong@.len() as int);
}

proof fn lemma_last_wrong_none(wrong: Seq<WrongItem>, k: nat, considered: nat, upto: int)
    requires
        upto <= wrong.len(),
        forall|j: int| 0 <= j < wrong.len() ==> label_index(#[trigger] wrong[j].card@, considered) != Some(k),
    ensures
        last_wrong(wrong, k, considered, upto) is None,
    decreases upto,
{
    if upto > 0 {
        lemma_last_wrong_none(wrong, k, considered, upto - 1);
    }
}

/// Every label that names a card names one of the `considered` cards.
pub proof fn law_labels_name_only_considered_cards(raw: Seq<char>, considered: nat)
    ensures
        label_index(raw, considered) matches Some(k) ==> k < considered,
{
}

// ---------------------------------------------------------------------------
// Grouping for the response
// ---------------------------------------------------------------------------

pub open spec fn card_verdict(card: CardRow, note: String) -> CardVerdict {
    CardVerdict { card_id: card.id, question: card.question, answer: card.answer, note }
}

/// The considered cards (the first `upto`) with verdict `v`, in card order.
pub open spec fn with_verdict(cards: Seq<CardRow>, vs: Seq<(Verdict, String)>, v: Verdict, upto: int) -> Seq<
    CardVerdict,
>
    decreases upto,
{
    if upto <= 0 {
        Seq::empty()
    } else {
        with_verdict(cards, vs, v, upto - 1) + if vs[upto - 1].0 == v {
            seq![card_verdict(cards[upto - 1], vs[upto - 1].1)]
        } else {
            Seq::empty()
        }
    }
}

/// The considered cards grouped by verdict (remembered, missing, wrong),
/// each group in card order.
pub fn group_verdicts(cards: &Vec<CardRow>, verdicts: Vec<(Verdict, String)>) -> (r: (
    Vec<CardVerdict>,
    Vec<CardVerdict>,
    Vec<CardVerdict>,
))
    requires
        verdicts@.len() <= cards@.len(),
    ensures
        r.0@ == with_verdict(cards@, verdicts@, Verdict::Remembered, verdicts@.len() as int),
        r.1@ == with_verdict(cards@, verdicts@, Verdict::Missing, verdicts@.len() as int),
        r.2@ == with_verdict(cards@, verdicts@, Verdict::Wrong, verdicts@.len() as int),
{
    let ghost vs = verdicts@;
    let mut remembered: Vec<CardVerdict> = Vec::new();
    let mut missing: Vec<CardVerdict> = Vec::new();
    let mut wrong: Vec<CardVerdict> = Vec::new();
    let mut i: usize = 0;
    while i < verdicts.len()
        invariant
            vs == verdicts@,
            vs.len() <= cards@.len(),
            i <= vs.len(),
            remembered@ == with_verdict(cards@, vs, Verdict::Remembered, i as int),
            missing@ == with_verdict(cards@, vs, Verdict::Missing, i as int),
            wrong@ == with_verdict(cards@, vs, Verdict::Wrong, i as int),
        decreases vs.len() - i,
    {
        let card = &cards[i];
        let v = verdicts[i].0;
        let cv = CardVerdict {
            card_id: card.id,
            question: card.question.clone(),
            answer: card.answer.clone(),
            note: verdicts[i].1.clone(),
        };
        assert(cv == card_verdict(cards@[i as int], vs[i as int].1));
        match v {
            Verdict::Remembered => remembered.push(cv),
            Verdict::Missing => missing.push(cv),
            Verdict::Wrong => wrong.push(cv),
        }
        proof {
            assert(remembered@ =~= with_verdict(cards@, vs, Verdict::Remembered, i + 1));
            assert(missing@ =~= with_verdict(cards@, vs, Verdict::Missing, i + 1));
            assert(wrong@ =~= with_verdict(cards@, vs, Verdict::Wrong, i + 1));
        }
        i = i + 1;
    }
    (remembered, missing, wrong)
}

// ---------------------------------------------------------------------------
// An attempt, step by step
// ---------------------------------------------------------------------------

/// The set's cards in label order: a failed read is a `500`, a set with no
/// cards a `400`.
pub fn blurting_cards(fetched: Result<Vec<CardRow>, String>) -> (r: Result<Vec<CardRow>, Failure>)
    ensures
        fetched matches Err(e) ==> (r matches Err(f) && f.status == 500 && f.message@
            == "database error fetching cards: "@ + e@ && f.reason is None && f.log is None),
        fetched matches Ok(cs) ==> cs@.len() == 0 ==> (r matches Err(f) && f.status == 400
            && f.message@
            == "study set has no cards — nothing to compare against, generate some cards first"@
            && f.reason is None && f.log is None),
        fetched matches Ok(cs) ==> cs@.len() > 0 ==> r == Ok::<Vec<CardRow>, Failure>(cs),
{
    let cards = server_error("database error fetching cards: ", fetched)?;
    if cards.len() == 0 {
        return Err(refuse(400, own(NO_CARDS_MESSAGE)));
    }
    Ok(cards)
}

/// The call that grades a recall against the cards that fit the budget,
/// recorded under `[blurting:evaluate]`; also how many cards were shown.
pub fn blurting_call(user_id: u128, cards: &Vec<CardRow>, recall: &str) -> (r: (
    usize,
    Vec<LLMMessage>,
    ModelCall,
))
    ensures
        r.0 as nat == fitted(card_entries(cards@), 6000).0,
        single_turn_messages(
            r.1@,
            system_prompt_text(fitted(card_entries(cards@), 6000).1),
            "The student's text:\n\n"@ + recall@,
        ),
        r.2.user_id == user_id,
        r.2.prompt_log@ == prompt_log_text(
            "[blurting:evaluate]"@,
            system_prompt_text(fitted(card_entries(cards@), 6000).1),
            "The student's text:\n\n"@ + recall@,
        ),
{
    let (considered, context) = build_context(cards);
    let system = build_system_prompt(context.as_str());
    let user = build_user_prompt(recall);
    let (ms, call) = single_turn(user_id, "[blurting:evaluate]", system.as_str(), user.as_str());
    (considered, ms, call)
}

/// The verdicts the reply holds. The call was recorded as soon as it came
/// back, so a reply that did not parse is a `502` with nothing more to
/// record, and nothing is stored.
pub fn blurting_result(parsed: Result<BlurtingAIResponse, String>, considered: usize) -> (r: Result<
    (BlurtingAIResponse, Vec<(Verdict, String)>, Vec<String>),
    Failure,
>)
    ensures
        parsed matches Err(e) ==> (r matches Err(f) && f.status == 502 && f.message@
            == "DeepSeek returned non-JSON output, parse failed: "@ + e@ && f.reason is None
            && f.log is None),
        parsed matches Ok(p) ==> (r matches Ok((q, vs, dropped)) && q == p && vs@.len()
            == considered && (forall|k: int|
            0 <= k < considered ==> (#[trigger] vs@[k]).0 == verdict_of(p, k as nat, considered as nat).0
                && vs@[k].1@ == verdict_of(p, k as nat, considered as nat).1) && views(dropped@)
            == dropped_labels(p, considered as nat)),
{
    match parsed {
        Ok(p) => {
            let (vs, dropped) = resolve(&p, considered);
            Ok((p, vs, dropped))
        },
        Err(e) => {
            let mut m = own("DeepSeek returned non-JSON output, parse failed: ");
            m.push_str(e.as_str());
            proof {
                assert(m@ =~= "DeepSeek returned non-JSON output, parse failed: "@ + e@);
            }
            Err(refuse(502, m))
        },
    }
}

} // verus!

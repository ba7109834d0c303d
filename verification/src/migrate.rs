//! Schema migrations: which ones exist, in the order they apply, and which
//! of them a database still lacks. Running them is the server's database
//! work.
use vstd::prelude::*;
use crate::text::str_eq;

verus! {

pub open spec fn migration_list() -> Seq<Seq<char>> {
    seq![
        "0001_add_fsrs_fields"@,
        "0002_add_socratic_tables"@,
        "0003_add_feynman_evaluations"@,
        "0004_add_quiz_tables"@,
        "0005_add_card_source_tracking"@,
        "0006_add_weak_card_tasks"@,
        "0007_add_user_tokens"@,
        "0008_add_chat_sessions"@,
        "0009_socratic_ended_at"@,
        "0010_replace_weak_card_tasks_with_todos"@,
        "0011_add_blurting"@,
    ]
}

/// Every migration, in the order it applies.
pub fn migration_names() -> (names: Vec<&'static str>)
    ensures
        names@.map_values(|n: &'static str| n@) == migration_list(),
{
    let mut names: Vec<&'static str> = Vec::new();
    names.push("0001_add_fsrs_fields");
    names.push("0002_add_socratic_tables");
    names.push("0003_add_feynman_evaluations");
    names.push("0004_add_quiz_tables");
    names.push("0005_add_card_source_tracking");
    names.push("0006_add_weak_card_tasks");
    names.push("0007_add_user_tokens");
    names.push("0008_add_chat_sessions");
    names.push("0009_socratic_ended_at");
    names.push("0010_replace_weak_card_tasks_with_todos");
    names.push("0011_add_blurting");
    proof {
        assert(names@.map_values(|n: &'static str| n@) =~= migration_list());
    }
    names
}

/// Whether `name` is among the recorded ones.
pub open spec fn recorded(applied: Seq<String>, name: Seq<char>) -> bool {
    exists|i: int| 0 <= i < applied.len() && applied[i]@ == name
}

pub fn is_recorded(applied: &Vec<String>, name: &str) -> (b: bool)
    ensures
        b == recorded(applied@, name@),
{
    let mut i: usize = 0;
    while i < applied.len()
        invariant
            i <= applied@.len(),
            forall|j: int| 0 <= j < i ==> applied@[j]@ != name@,
        decreases applied@.len() - i,
    {
        if str_eq(applied[i].as_str(), name) {
            return true;
        }
        i = i + 1;
    }
    false
}

/// The migrations not yet recorded, by position, in order.
pub open spec fn pending_from(names: Seq<&'static str>, applied: Seq<String>, upto: int) -> Seq<int>
    decreases upto,
{
    if upto <= 0 {
        Seq::empty()
    } else {
        pending_from(names, applied, upto - 1) + if recorded(applied, names[upto - 1]@) {
            Seq::<int>::empty()
        } else {
            seq![upto - 1]
        }
    }
}

pub fn pending(names: &Vec<&'static str>, applied: &Vec<String>) -> (r: Vec<usize>)
    ensures
        r@.map_values(|i: usize| i as int) == pending_from(names@, applied@, names@.len() as int),
{
    let mut r: Vec<usize> = Vec::new();
    let mut i: usize = 0;
    while i < names.len()
        invariant
            i <= names@.len(),
            r@.map_values(|i: usize| i as int) == pending_from(names@, applied@, i as int),
        decreases names@.len() - i,
    {
        let ghost before = r@;
        if !is_recorded(applied, names[i]) {
            r.push(i);
            proof {
                assert(r@.map_values(|i: usize| i as int) =~= before.map_values(|i: usize| i as int).push(i as int));
            }
        }
        proof {
            assert(r@.map_values(|i: usize| i as int) =~= pending_from(names@, applied@, i + 1));
        }
        i = i + 1;
    }
    r
}

/// For each migration, whether the database has recorded it.
pub fn status(names: &Vec<&'static str>, applied: &Vec<String>) -> (r: Vec<bool>)
    ensures
        r@.len() == names@.len(),
        forall|i: int| 0 <= i < r@.len() ==> r@[i] == recorded(applied@, (#[trigger] names@[i])@),
{
    let mut r: Vec<bool> = Vec::new();
    let mut i: usize = 0;
    while i < names.len()
        invariant
            i <= names@.len(),
            r@.len() == i,
            forall|k: int| 0 <= k < i ==> r@[k] == recorded(applied@, (#[trigger] names@[k])@),
        decreases names@.len() - i,
    {
        r.push(is_recorded(applied, names[i]));
        i = i + 1;
    }
    r
}

proof fn lemma_pending_contains(names: Seq<&'static str>, applied: Seq<String>, upto: int, i: int)
    requires
        0 <= upto <= names.len(),
    ensures
        pending_from(names, applied, upto).contains(i) <==> (0 <= i < upto && !recorded(
            applied,
            names[i]@,
        )),
    decreases upto,
{
    if upto > 0 {
        lemma_pending_contains(names, applied, upto - 1, i);
        let prev = pending_from(names, applied, upto - 1);
        let cur = pending_from(names, applied, upto);
        if !recorded(applied, names[upto - 1]@) {
            assert(cur =~= prev.push(upto - 1));
            if i == upto - 1 {
                assert(cur[prev.len() as int] == i);
            }
            if prev.contains(i) {
                let k = choose|k: int| 0 <= k < prev.len() && prev[k] == i;
                assert(cur[k] == i);
            }
            if cur.contains(i) {
                let k = choose|k: int| 0 <= k < cur.len() && cur[k] == i;
                if k < prev.len() {
                    assert(prev[k] == i);
                }
            }
        } else {
            assert(cur =~= prev);
        }
    } else {
        assert(pending_from(names, applied, upto) =~= Seq::<int>::empty());
    }
}

proof fn lemma_nothing_pending(names: Seq<&'static str>, applied: Seq<String>, upto: int)
    requires
        0 <= upto <= names.len(),
        forall|i: int| 0 <= i < upto ==> recorded(applied, (#[trigger] names[i])@),
    ensures
        pending_from(names, applied, upto) == Seq::<int>::empty(),
    decreases upto,
{
    if upto > 0 {
        lemma_nothing_pending(names, applied, upto - 1);
        assert(recorded(applied, names[upto - 1]@));
        assert(pending_from(names, applied, upto) =~= Seq::<int>::empty());
    }
}

/// Running the migrations again applies nothing: once a run has recorded
/// every migration it found pending, keeping what was recorded before,
/// none is pending.
pub proof fn law_rerun_applies_nothing(names: Seq<&'static str>, before: Seq<String>, after: Seq<String>)
    requires
        forall|j: int| 0 <= j < before.len() ==> recorded(after, (#[trigger] before[j])@),
        forall|i: int|
            #[trigger] pending_from(names, before, names.len() as int).contains(i) ==> recorded(
                after,
                names[i]@,
            ),
    ensures
        pending_from(names, after, names.len() as int) == Seq::<int>::empty(),
{
    assert forall|i: int| 0 <= i < names.len() implies recorded(after, (#[trigger] names[i])@) by {
        lemma_pending_contains(names, before, names.len() as int, i);
        if recorded(before, names[i]@) {
            let j = choose|j: int| 0 <= j < before.len() && before[j]@ == names[i]@;
            assert(recorded(after, before[j]@));
        }
    }
    lemma_nothing_pending(names, after, names.len() as int);
}

} // verus!

//! The learner's todo list: what an item added by hand may say, and the
//! counts the list reports. Weak-card items are opened by the review flow.
use vstd::prelude::*;
use crate::ids::{hyphenated, not_found_message};
use crate::text::{char_count, is_blank, own, trim, trimmed};

verus! {

/// Characters a title may have.
pub const MAX_TITLE_CHARS: usize = 200;

/// `GET /todos`: absent lists every item, `false` the open ones, `true` the
/// done ones.
pub struct TodoQuery {
    pub done: Option<bool>,
}

/// `POST /todos`. Study sets are identified by their UUID's value.
pub struct CreateTodo {
    pub title: String,
    pub study_set_id: Option<u128>,
}

/// A title: trimmed, not empty, at most `MAX_TITLE_CHARS` characters.
pub fn validate_title(title: &str) -> (r: Result<String, String>)
    ensures
        is_blank(title@) ==> (r matches Err(m) && m@ == "title must not be empty"@),
        !is_blank(title@) && trim(title@).len() > 200 ==> (r matches Err(m) && m@
            == "title must be at most 200 characters"@),
        !is_blank(title@) && trim(title@).len() <= 200 ==> (r matches Ok(t) && t@ == trim(
            title@,
        )),
{
    let t = trimmed(title);
    proof {
        crate::text::lemma_trim_blank(title@);
    }
    if t.as_str().is_empty() {
        return Err(own("title must not be empty"));
    }
    if char_count(t.as_str()) > MAX_TITLE_CHARS {
        return Err(own("title must be at most 200 characters"));
    }
    Ok(t)
}

/// The `404` for an item added to a set that is not the caller's (the nil
/// id when no set was named, though only a named set can get here).
pub fn set_not_found(study_set_id: Option<u128>) -> (m: String)
    ensures
        m@ == "study set"@ + " "@ + hyphenated(
            match study_set_id {
                Some(id) => id,
                None => 0,
            },
        ) + " not found"@,
{
    let id: u128 = match study_set_id {
        Some(id) => id,
        None => 0,
    };
    not_found_message("study set", id)
}

/// How many of the items (given by their `done` flags) are still open.
pub open spec fn open_items(done: Seq<bool>) -> nat
    decreases done.len(),
{
    if done.len() == 0 {
        0
    } else {
        open_items(done.drop_last()) + if done.last() {
            0nat
        } else {
            1nat
        }
    }
}

pub fn open_count(done: &Vec<bool>) -> (n: usize)
    ensures
        n == open_items(done@),
{
    let mut n: usize = 0;
    let mut i: usize = 0;
    while i < done.len()
        invariant
            i <= done@.len(),
            n == open_items(done@.take(i as int)),
            n <= i,
        decreases done@.len() - i,
    {
        proof {
            assert(done@.take(i + 1).drop_last() =~= done@.take(i as int));
        }
        if !done[i] {
            n = n + 1;
        }
        i = i + 1;
    }
    proof {
        assert(done@.take(done@.len() as int) =~= done@);
    }
    n
}

} // verus!

//! Editing and deleting: what a change may say, what is written, and what
//! a delete answers. `PATCH` changes only the fields present; `topic` and
//! `learning_style` are nullable, and an explicit `null` there clears them.
use vstd::prelude::*;
use crate::ids::{hyphenated, not_found_message};
use crate::text::{blank, is_blank, own, trim, trimmed};

verus! {

/// `PATCH /me`. The outer `Option` is whether the field was sent, the inner
/// whether it was `null`.
pub struct PatchMe {
    pub learning_style: Option<Option<String>>,
}

/// `PATCH /study_sets/{id}`.
pub struct PatchStudySet {
    pub name: Option<String>,
    pub topic: Option<Option<String>>,
}

/// `PATCH /cards/{id}`.
pub struct PatchCard {
    pub question: Option<String>,
    pub answer: Option<String>,
}

/// What an update of a study set writes: the trimmed name when one was
/// sent, and the topic when one was sent (`None` inside clears it).
pub struct StudySetUpdate {
    pub name: Option<String>,
    pub set_topic: bool,
    pub topic: Option<String>,
}

/// Check a study-set change and say what to write: a name that is sent may
/// not be blank.
pub fn study_set_update(patch: PatchStudySet) -> (r: Result<StudySetUpdate, String>)
    ensures
        (patch.name matches Some(n) && is_blank(n@)) ==> (r matches Err(m) && m@
            == "study set name must not be empty"@),
        !(patch.name matches Some(n) && is_blank(n@)) ==> (r matches Ok(u) && (match patch.name {
            Some(n) => u.name matches Some(t) && t@ == trim(n@),
            None => u.name is None,
        }) && u.set_topic == (patch.topic is Some) && u.topic == (match patch.topic {
            Some(t) => t,
            None => None,
        })),
{
    let name = match patch.name {
        Some(n) => {
            if blank(n.as_str()) {
                return Err(own("study set name must not be empty"));
            }
            Some(trimmed(n.as_str()))
        },
        None => None,
    };
    let set_topic = patch.topic.is_some();
    let topic = match patch.topic {
        Some(t) => t,
        None => None,
    };
    Ok(StudySetUpdate { name, set_topic, topic })
}

/// What an update of a card writes: each side that was sent, trimmed.
pub struct CardUpdate {
    pub question: Option<String>,
    pub answer: Option<String>,
}

/// Check a card change: a side that is sent may not be blank (the question
/// is checked first).
pub fn card_update(patch: &PatchCard) -> (r: Result<CardUpdate, String>)
    ensures
        (patch.question matches Some(q) && is_blank(q@)) ==> (r matches Err(m) && m@
            == "question must not be empty"@),
        !(patch.question matches Some(q) && is_blank(q@)) && (patch.answer matches Some(a)
            && is_blank(a@)) ==> (r matches Err(m) && m@ == "answer must not be empty"@),
        !(patch.question matches Some(q) && is_blank(q@)) && !(patch.answer matches Some(a)
            && is_blank(a@)) ==> (r matches Ok(u) && (u.question is Some == patch.question is Some) && (u.answer is Some
            == patch.answer is Some) && (patch.question matches Some(q) ==> u.question->0@ == trim(
            q@,
        )) && (patch.answer matches Some(a) ==> u.answer->0@ == trim(a@))),
{
    let question = match &patch.question {
        Some(q) => {
            if blank(q.as_str()) {
                return Err(own("question must not be empty"));
            }
            Some(trimmed(q.as_str()))
        },
        None => None,
    };
    let answer = match &patch.answer {
        Some(a) => {
            if blank(a.as_str()) {
                return Err(own("answer must not be empty"));
            }
            Some(trimmed(a.as_str()))
        },
        None => None,
    };
    Ok(CardUpdate { question, answer })
}

/// The answer to a delete that removed something.
#[derive(Debug, PartialEq, Eq, Structural)]
pub struct DeletedResponse {
    pub deleted: bool,
    pub id: u128,
}

/// A delete that removed no row answers "not found", the same for a row
/// that does not exist and one that belongs to another learner.
pub fn deletion_outcome(rows_affected: u64, kind: &str, id: u128) -> (r: Result<
    DeletedResponse,
    String,
>)
    ensures
        rows_affected > 0 ==> r == Ok::<DeletedResponse, String>(DeletedResponse { deleted: true, id }),
        rows_affected == 0 ==> (r matches Err(m) && m@ == kind@ + " "@ + hyphenated(id)
            + " not found"@),
{
    if rows_affected > 0 {
        Ok(DeletedResponse { deleted: true, id })
    } else {
        Err(not_found_message(kind, id))
    }
}

} // verus!

//! Creating users, study sets and cards: what a request must say before
//! anything is written.
use vstd::prelude::*;
use crate::text::{blank, is_blank, own};

verus! {

/// `POST /users`.
pub struct CreateUserRequest {
    pub email: String,
    pub learning_style: Option<String>,
}

/// A user needs an email that is not blank.
pub fn validate_user(req: &CreateUserRequest) -> (r: Result<(), String>)
    ensures
        is_blank(req.email@) ==> (r matches Err(m) && m@ == "email must not be empty"@),
        !is_blank(req.email@) ==> r is Ok,
{
    if blank(req.email.as_str()) {
        Err(own("email must not be empty"))
    } else {
        Ok(())
    }
}

/// `POST /study_sets`. Users are identified by their UUID's value.
pub struct CreateStudySetRequest {
    pub user_id: u128,
    pub name: String,
    pub topic: Option<String>,
}

/// A study set needs a name that is not blank.
pub fn validate_study_set(req: &CreateStudySetRequest) -> (r: Result<(), String>)
    ensures
        is_blank(req.name@) ==> (r matches Err(m) && m@ == "study set name must not be empty"@),
        !is_blank(req.name@) ==> r is Ok,
{
    if blank(req.name.as_str()) {
        Err(own("study set name must not be empty"))
    } else {
        Ok(())
    }
}

/// `POST /cards`.
pub struct CreateCardRequest {
    pub set_id: u128,
    pub question: String,
    pub answer: String,
}

/// A card needs both a question and an answer that are not blank.
pub fn validate_card(req: &CreateCardRequest) -> (r: Result<(), String>)
    ensures
        (is_blank(req.question@) || is_blank(req.answer@)) ==> (r matches Err(m) && m@
            == "question and answer must not be empty"@),
        !is_blank(req.question@) && !is_blank(req.answer@) ==> r is Ok,
{
    if blank(req.question.as_str()) || blank(req.answer.as_str()) {
        Err(own("question and answer must not be empty"))
    } else {
        Ok(())
    }
}

} // verus!

//! The Feynman technique: the learner explains a set's material in their
//! own words and the model scores the explanation for clarity,
//! completeness and correctness, with feedback. This module holds the
//! prompt, what an explanation may be, and the rule the returned scores
//! must pass before they are stored.
use vstd::prelude::*;
use crate::flow::{recorded, single_turn, single_turn_messages, Failure, ModelCall, ModelReply};
use crate::llm::LLMMessage;
use crate::prompt::prompt_log_text;
use crate::text::{
    blank, char_count, is_blank, own, push_signed_decimal, signed_decimal, trim, trimmed,
};

verus! {

/// Byte budget for the cards in the prompt.
pub const MAX_CARD_CONTEXT_CHARS: usize = 6000;

/// Cap on an explanation, in characters.
pub const MAX_EXPLANATION_CHARS: usize = 4000;

/// `POST /study_sets/{set_id}/feynman_evaluate`.
pub struct FeynmanEvaluateRequest {
    pub explanation_text: String,
}

/// The model's evaluation.
pub struct FeynmanAIResponse {
    pub clarity_score: i32,
    pub completeness_score: i32,
    pub correctness_score: i32,
    pub feedback: String,
    pub suggestions: String,
}

pub const NO_CARDS_MESSAGE: &'static str = "study set has no cards — nothing to evaluate against, generate some cards first";

/// An explanation: not blank, and at most `MAX_EXPLANATION_CHARS`
/// characters as written. What is sent is the trimmed text.
pub fn validate_explanation(text: &str) -> (r: Result<String, String>)
    ensures
        is_blank(text@) ==> (r matches Err(m) && m@ == "explanation_text must not be empty"@),
        !is_blank(text@) && text@.len() > 4000 ==> (r matches Err(m) && m@
            == "explanation_text exceeds 4000 character limit"@),
        !is_blank(text@) && text@.len() <= 4000 ==> (r matches Ok(t) && t@ == trim(text@)),
{
    if blank(text) {
        return Err(own("explanation_text must not be empty"));
    }
    if char_count(text) > MAX_EXPLANATION_CHARS {
        return Err(own("explanation_text exceeds 4000 character limit"));
    }
    Ok(trimmed(text))
}

pub open spec fn system_prompt_text(card_context: Seq<char>) -> Seq<char> {
    "You are a Feynman Technique evaluator. The student has written an explanation of the following material IN THEIR OWN WORDS. Your job is to evaluate their explanation critically and fairly.\n\nThe material the student is explaining:\n"@
        + card_context
        + "\n\nEvaluate the student's explanation on three dimensions, each scored 1-10:\n- clarity_score: Is the explanation understandable? Does it avoid unnecessary jargon? Is it well-organized?\n- completeness_score: Does it cover the KEY ideas from the material, or does it leave out important parts?\n- correctness_score: Is it factually accurate? Does it contain any misconceptions or errors?\n\nAlso provide:\n- feedback: 2-4 sentences of overall feedback. Be genuinely critical if warranted — do not inflate praise. If the explanation is weak, say so.\n- suggestions: 2-4 sentences of specific, actionable suggestions for how the student can improve their explanation.\n\nRespond with ONLY valid JSON: {\"clarity_score\": int, \"completeness_score\": int, \"correctness_score\": int, \"feedback\": string, \"suggestions\": string}. No prose, no markdown fences, no commentary outside the JSON."@
}

pub fn build_system_prompt(card_context: &str) -> (s: String)
    ensures
        s@ == system_prompt_text(card_context@),
{
    let mut s = String::new();
    s.push_str(
        "You are a Feynman Technique evaluator. The student has written an explanation of the following material IN THEIR OWN WORDS. Your job is to evaluate their explanation critically and fairly.\n\nThe material the student is explaining:\n",
    );
    s.push_str(card_context);
    s.push_str(
        "\n\nEvaluate the student's explanation on three dimensions, each scored 1-10:\n- clarity_score: Is the explanation understandable? Does it avoid unnecessary jargon? Is it well-organized?\n- completeness_score: Does it cover the KEY ideas from the material, or does it leave out important parts?\n- correctness_score: Is it factually accurate? Does it contain any misconceptions or errors?\n\nAlso provide:\n- feedback: 2-4 sentences of overall feedback. Be genuinely critical if warranted — do not inflate praise. If the explanation is weak, say so.\n- suggestions: 2-4 sentences of specific, actionable suggestions for how the student can improve their explanation.\n\nRespond with ONLY valid JSON: {\"clarity_score\": int, \"completeness_score\": int, \"correctness_score\": int, \"feedback\": string, \"suggestions\": string}. No prose, no markdown fences, no commentary outside the JSON.",
    );
    proof {
        assert(s@ =~= system_prompt_text(card_context@));
    }
    s
}

pub fn build_user_prompt(explanation: &str) -> (s: String)
    ensures
        s@ == "Student's explanation:\n\n"@ + explanation@ + "\n\nEvaluate this explanation."@,
{
    let mut s = String::new();
    s.push_str("Student's explanation:\n\n");
    s.push_str(explanation);
    s.push_str("\n\nEvaluate this explanation.");
    proof {
        assert(s@ =~= "Student's explanation:\n\n"@ + explanation@ + "\n\nEvaluate this explanation."@);
    }
    s
}

pub open spec fn score_problem(name: Seq<char>, s: i32) -> Seq<char> {
    "AI returned an invalid score: AI returned "@ + name + "="@ + signed_decimal(s as int)
        + " (must be 1-10)"@
}

/// Why the scores are refused, if they are: the first of clarity,
/// completeness and correctness outside `1..=10`.
pub open spec fn scores_problem(r: FeynmanAIResponse) -> Option<Seq<char>> {
    if !(1 <= r.clarity_score <= 10) {
        Some(score_problem("clarity_score"@, r.clarity_score))
    } else if !(1 <= r.completeness_score <= 10) {
        Some(score_problem("completeness_score"@, r.completeness_score))
    } else if !(1 <= r.correctness_score <= 10) {
        Some(score_problem("correctness_score"@, r.correctness_score))
    } else {
        None
    }
}

fn score_message(name: &str, s: i32) -> (m: String)
    ensures
        m@ == score_problem(name@, s),
{
    let mut m = String::new();
    m.push_str("AI returned an invalid score: AI returned ");
    m.push_str(name);
    m.push_str("=");
    push_signed_decimal(&mut m, s as i64);
    m.push_str(" (must be 1-10)");
    proof {
        assert(m@ =~= score_problem(name@, s));
    }
    m
}

/// Check the three scores before anything is stored.
pub fn validate_scores(r: &FeynmanAIResponse) -> (out: Result<(), String>)
    ensures
        match scores_problem(*r) {
            Some(m) => out matches Err(e) && e@ == m,
            None => out is Ok,
        },
{
    if !(1 <= r.clarity_score && r.clarity_score <= 10) {
        return Err(score_message("clarity_score", r.clarity_score));
    }
    if !(1 <= r.completeness_score && r.completeness_score <= 10) {
        return Err(score_message("completeness_score", r.completeness_score));
    }
    if !(1 <= r.correctness_score && r.correctness_score <= 10) {
        return Err(score_message("correctness_score", r.correctness_score));
    }
    Ok(())
}

/// Scores that pass are all within `1..=10`.
pub proof fn law_accepted_scores_are_in_range(r: FeynmanAIResponse)
    requires
        scores_problem(r) is None,
    ensures
        1 <= r.clarity_score <= 10,
        1 <= r.completeness_score <= 10,
        1 <= r.correctness_score <= 10,
{
}

/// The call that scores an explanation against the set's cards, recorded
/// under `[feynman:evaluate]`.
pub fn feynman_call(user_id: u128, card_context: &str, explanation: &str) -> (r: (
    Vec<LLMMessage>,
    ModelCall,
))
    ensures
        single_turn_messages(
            r.0@,
            system_prompt_text(card_context@),
            "Student's explanation:\n\n"@ + explanation@ + "\n\nEvaluate this explanation."@,
        ),
        r.1.user_id == user_id,
        r.1.prompt_log@ == prompt_log_text(
            "[feynman:evaluate]"@,
            system_prompt_text(card_context@),
            "Student's explanation:\n\n"@ + explanation@ + "\n\nEvaluate this explanation."@,
        ),
{
    let system = build_system_prompt(card_context);
    let user = build_user_prompt(explanation);
    single_turn(user_id, "[feynman:evaluate]", system.as_str(), user.as_str())
}

/// The evaluation the reply holds: a reply that did not parse, or scores
/// outside `1..=10`, are a `502` after recording the call; nothing is
/// stored from them.
pub fn evaluation(reply: &ModelReply, parsed: Result<FeynmanAIResponse, String>) -> (r: Result<
    FeynmanAIResponse,
    Failure,
>)
    ensures
        parsed matches Err(e) ==> (r matches Err(f) && f.status == 502 && f.message@
            == "DeepSeek returned non-JSON output, parse failed: "@ + e@ && f.reason is None && (
        f.log matches Some(l) && recorded(*reply, l))),
        parsed matches Ok(p) ==> scores_problem(p) matches Some(m) ==> (r matches Err(f)
            && f.status == 502 && f.message@ == m && f.reason is None && (f.log matches Some(l)
            && recorded(*reply, l))),
        parsed matches Ok(p) ==> scores_problem(p) is None ==> r == Ok::<FeynmanAIResponse, Failure>(
            p,
        ),
{
    let p = match parsed {
        Ok(p) => p,
        Err(e) => return Err(reply.unparsable(e.as_str())),
    };
    match validate_scores(&p) {
        Ok(()) => Ok(p),
        Err(m) => Err(reply.stop(502, m)),
    }
}

} // verus!

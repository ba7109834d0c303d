//! `POST /study_sets/{set_id}/generate_cards`: flashcards written by the
//! model from source text the learner supplies. This module holds what the
//! endpoint decides: what a request may ask for, the two prompt styles, and
//! the rule a generated batch must pass before any card is stored.
use vstd::prelude::*;
use crate::flow::{recorded, refuse, single_turn, single_turn_messages, Failure, ModelCall, ModelReply};
use crate::llm::LLMMessage;
use crate::prompt::prompt_log_text;
use crate::text::{
    blank, char_count, chars_of, decimal, is_blank, lowercase_eq, lowercases_to, own, push_decimal,
    trim, trim_range, trimmed,
};

verus! {

/// Cap on the source text, in characters.
pub const MAX_SOURCE_TEXT_CHARS: usize = 8000;

/// Questions asked for when the request does not say, and the most it may.
pub const DEFAULT_NUM_QUESTIONS: u32 = 5;

pub const MAX_NUM_QUESTIONS: u32 = 10;

/// `POST /study_sets/{set_id}/generate_cards`.
pub struct GenerateCardsRequest {
    pub source_text: String,
    pub num_questions: Option<u32>,
    /// `"recall"` (the default) or `"elaboration"`.
    pub question_style: String,
}

/// The style a request gets when it names none.
pub fn default_style() -> (s: String)
    ensures
        s@ == "recall"@,
{
    own("recall")
}

#[derive(Debug, Clone, Copy, PartialEq, Eq, Structural)]
pub enum QuestionStyle {
    /// Short factual recall: answers of a few words.
    Recall,
    /// Deeper understanding: answers of a few sentences.
    Elaboration,
}

/// A generated pair.
#[derive(Debug, Clone, PartialEq, Eq)]
pub struct GeneratedQAPair {
    pub question: String,
    pub answer: String,
}

/// How many questions to ask for: 5 by default, at least 1, at most 10
/// (more is quietly capped).
pub fn num_questions(requested: Option<u32>) -> (r: Result<u32, String>)
    ensures
        ({
            let n = match requested {
                Some(n) => n,
                None => 5,
            };
            &&& n == 0 ==> (r matches Err(m) && m@ == "num_questions must be >= 1"@)
            &&& n > 0 ==> r == Ok::<u32, String>(if n > 10 {
                10
            } else {
                n
            })
        }),
{
    let n = match requested {
        Some(n) => n,
        None => DEFAULT_NUM_QUESTIONS,
    };
    if n == 0 {
        Err(own("num_questions must be >= 1"))
    } else if n > MAX_NUM_QUESTIONS {
        Ok(MAX_NUM_QUESTIONS)
    } else {
        Ok(n)
    }
}

/// The source text: not blank, at most `MAX_SOURCE_TEXT_CHARS` characters
/// as written; what is sent is the trimmed text.
pub fn validate_source(text: &str) -> (r: Result<String, String>)
    ensures
        is_blank(text@) ==> (r matches Err(m) && m@ == "source_text must not be empty"@),
        !is_blank(text@) && text@.len() > 8000 ==> (r matches Err(m) && m@
            == "source_text exceeds 8000 character limit"@),
        !is_blank(text@) && text@.len() <= 8000 ==> (r matches Ok(t) && t@ == trim(text@)),
{
    if blank(text) {
        return Err(own("source_text must not be empty"));
    }
    if char_count(text) > MAX_SOURCE_TEXT_CHARS {
        return Err(own("source_text exceeds 8000 character limit"));
    }
    Ok(trimmed(text))
}

pub open spec fn invalid_style_text(raw: Seq<char>) -> Seq<char> {
    "invalid question_style '"@ + raw + "': must be 'recall' or 'elaboration'"@
}

/// The style named by `raw`, trimmed and compared case-insensitively.
pub fn question_style(raw: &str) -> (r: Result<QuestionStyle, String>)
    ensures
        lowercases_to(trim(raw@), "recall"@) ==> r == Ok::<QuestionStyle, String>(
            QuestionStyle::Recall,
        ),
        lowercases_to(trim(raw@), "elaboration"@) ==> r == Ok::<QuestionStyle, String>(
            QuestionStyle::Elaboration,
        ),
        !lowercases_to(trim(raw@), "recall"@) && !lowercases_to(trim(raw@), "elaboration"@) ==> (r matches Err(
            m,
        ) && m@ == invalid_style_text(raw@)),
{
    let v = chars_of(raw);
    let (a, b) = trim_range(&v);
    proof {
        reveal_strlit("recall");
        reveal_strlit("elaboration");
    }
    if lowercase_eq(&v, a, b, "recall") {
        Ok(QuestionStyle::Recall)
    } else if lowercase_eq(&v, a, b, "elaboration") {
        Ok(QuestionStyle::Elaboration)
    } else {
        let mut m = String::new();
        m.push_str("invalid question_style '");
        m.push_str(raw);
        m.push_str("': must be 'recall' or 'elaboration'");
        proof {
            assert(m@ =~= invalid_style_text(raw@));
        }
        Err(m)
    }
}

/// The tag a generation call is logged under.
pub fn style_tag(style: QuestionStyle) -> (t: String)
    ensures
        style is Recall ==> t@ == "[style: recall]"@,
        style is Elaboration ==> t@ == "[style: elaboration]"@,
{
    match style {
        QuestionStyle::Recall => own("[style: recall]"),
        QuestionStyle::Elaboration => own("[style: elaboration]"),
    }
}

pub open spec fn recall_system_text(n: u32) -> Seq<char> {
    "You are a SAFMEDS-style flashcard author. Generate exactly "@ + decimal(n as nat)
        + " question/answer pairs from the provided source text that test FACTUAL RECALL — who, what, when, where, how many, define, name. Each answer MUST be a SHORT, single fact: 1-5 words (a name, date, number, term, or short phrase). Do NOT write sentences or explanations.\n\nExample format (real pairs you should imitate):\n[{\"question\": \"What year did Columbus first reach the Caribbean?\", \"answer\": \"1492\"},\n{\"question\": \"Which disease devastated Native American populations during the Columbian Exchange?\", \"answer\": \"smallpox\"}]\n\nRespond with ONLY valid JSON — an array of exactly "@
        + decimal(n as nat)
        + " objects, each shaped {\"question\": string, \"answer\": string}. No prose, no markdown fences, no commentary outside the JSON. The JSON must parse with `serde_json::from_str::<Vec<QAPair>>` directly."@
}

pub open spec fn elaboration_system_text(n: u32) -> Seq<char> {
    "You are a flashcard author. Generate exactly "@ + decimal(n as nat)
        + " question/answer pairs that test DEEPER UNDERSTANDING of the source text. Questions should require synthesizing information, explaining causal relationships, applying concepts to new scenarios, or connecting ideas — NOT just repeating isolated facts. Answers may be 1-3 sentences long.\n\nRespond with ONLY valid JSON: an array of exactly "@
        + decimal(n as nat)
        + " objects, each shaped {\"question\": string, \"answer\": string}. No prose, no markdown fences, no commentary outside the JSON."@
}

pub open spec fn user_text(n: u32, source: Seq<char>, closing: Seq<char>) -> Seq<char> {
    "Source text:\n\n"@ + source + "\n\nGenerate "@ + decimal(n as nat) + closing
}

fn user_prompt(n: u32, source: &str, closing: &str) -> (s: String)
    ensures
        s@ == user_text(n, source@, closing@),
{
    let mut s = String::new();
    s.push_str("Source text:\n\n");
    s.push_str(source);
    s.push_str("\n\nGenerate ");
    push_decimal(&mut s, n as u64);
    s.push_str(closing);
    proof {
        assert(s@ =~= user_text(n, source@, closing@));
    }
    s
}

/// The short-recall prompts, with two examples of the pairs wanted.
pub fn build_recall_prompt(num_questions: u32, source: &str) -> (r: (String, String))
    ensures
        r.0@ == recall_system_text(num_questions),
        r.1@ == user_text(num_questions, source@, " SAFMEDS-style short recall pairs."@),
{
    let mut system = String::new();
    system.push_str("You are a SAFMEDS-style flashcard author. Generate exactly ");
    push_decimal(&mut system, num_questions as u64);
    system.push_str(
        " question/answer pairs from the provided source text that test FACTUAL RECALL — who, what, when, where, how many, define, name. Each answer MUST be a SHORT, single fact: 1-5 words (a name, date, number, term, or short phrase). Do NOT write sentences or explanations.\n\nExample format (real pairs you should imitate):\n[{\"question\": \"What year did Columbus first reach the Caribbean?\", \"answer\": \"1492\"},\n{\"question\": \"Which disease devastated Native American populations during the Columbian Exchange?\", \"answer\": \"smallpox\"}]\n\nRespond with ONLY valid JSON — an array of exactly ",
    );
    push_decimal(&mut system, num_questions as u64);
    system.push_str(
        " objects, each shaped {\"question\": string, \"answer\": string}. No prose, no markdown fences, no commentary outside the JSON. The JSON must parse with `serde_json::from_str::<Vec<QAPair>>` directly.",
    );
    proof {
        assert(system@ =~= recall_system_text(num_questions));
    }
    let user = user_prompt(num_questions, source, " SAFMEDS-style short recall pairs.");
    (system, user)
}

/// The deeper-understanding prompts.
pub fn build_elaboration_prompt(num_questions: u32, source: &str) -> (r: (String, String))
    ensures
        r.0@ == elaboration_system_text(num_questions),
        r.1@ == user_text(num_questions, source@, " elaboration-style pairs."@),
{
    let mut system = String::new();
    system.push_str("You are a flashcard author. Generate exactly ");
    push_decimal(&mut system, num_questions as u64);
    system.push_str(
        " question/answer pairs that test DEEPER UNDERSTANDING of the source text. Questions should require synthesizing information, explaining causal relationships, applying concepts to new scenarios, or connecting ideas — NOT just repeating isolated facts. Answers may be 1-3 sentences long.\n\nRespond with ONLY valid JSON: an array of exactly ",
    );
    push_decimal(&mut system, num_questions as u64);
    system.push_str(
        " objects, each shaped {\"question\": string, \"answer\": string}. No prose, no markdown fences, no commentary outside the JSON.",
    );
    proof {
        assert(system@ =~= elaboration_system_text(num_questions));
    }
    let user = user_prompt(num_questions, source, " elaboration-style pairs.");
    (system, user)
}

/// The prompts for a style.
pub fn build_prompt(style: QuestionStyle, num_questions: u32, source: &str) -> (r: (String, String))
    ensures
        style is Recall ==> r.0@ == recall_system_text(num_questions) && r.1@ == user_text(
            num_questions,
            source@,
            " SAFMEDS-style short recall pairs."@,
        ),
        style is Elaboration ==> r.0@ == elaboration_system_text(num_questions) && r.1@
            == user_text(num_questions, source@, " elaboration-style pairs."@),
{
    match style {
        QuestionStyle::Recall => build_recall_prompt(num_questions, source),
        QuestionStyle::Elaboration => build_elaboration_prompt(num_questions, source),
    }
}

/// The first pair at or after `i` with a blank side.
pub open spec fn first_malformed(pairs: Seq<GeneratedQAPair>, i: int) -> Option<int>
    decreases pairs.len() - i,
{
    if i < 0 || i >= pairs.len() {
        None
    } else if is_blank(pairs[i].question@) || is_blank(pairs[i].answer@) {
        Some(i)
    } else {
        first_malformed(pairs, i + 1)
    }
}

pub open spec fn malformed_text(i: nat) -> Seq<char> {
    "DeepSeek returned a malformed pair at index "@ + decimal(i)
        + " (empty question or answer). Batch rejected; no cards inserted."@
}

/// Why a batch is rejected, if it is: the first pair with a blank side, or
/// an empty batch. One bad pair rejects the whole batch.
pub open spec fn batch_problem(pairs: Seq<GeneratedQAPair>) -> Option<Seq<char>> {
    match first_malformed(pairs, 0) {
        Some(i) => Some(malformed_text(i as nat)),
        None => if pairs.len() == 0 {
            Some("DeepSeek returned an empty array; nothing to insert"@)
        } else {
            None
        },
    }
}

pub fn validate_pairs(pairs: &Vec<GeneratedQAPair>) -> (r: Result<(), String>)
    ensures
        match batch_problem(pairs@) {
            Some(m) => r matches Err(e) && e@ == m,
            None => r is Ok,
        },
{
    let mut i: usize = 0;
    while i < pairs.len()
        invariant
            i <= pairs@.len(),
            first_malformed(pairs@, i as int) == first_malformed(pairs@, 0),
        decreases pairs@.len() - i,
    {
        if blank(pairs[i].question.as_str()) || blank(pairs[i].answer.as_str()) {
            let mut m = String::new();
            m.push_str("DeepSeek returned a malformed pair at index ");
            push_decimal(&mut m, i as u64);
            m.push_str(" (empty question or answer). Batch rejected; no cards inserted.");
            proof {
                assert(m@ =~= malformed_text(i as nat));
            }
            return Err(m);
        }
        i = i + 1;
    }
    if pairs.len() == 0 {
        return Err(own("DeepSeek returned an empty array; nothing to insert"));
    }
    Ok(())
}

/// The `500` for an insert that failed part-way: how many of how many were
/// stored before it did, and the cause.
pub fn insertion_failure(done: usize, total: usize, cause: &str) -> (m: String)
    ensures
        m@ == "card insertion failed after "@ + decimal(done as nat) + " of "@ + decimal(total as nat)
            + " cards inserted: "@ + cause@,
{
    let mut m = String::new();
    m.push_str("card insertion failed after ");
    push_decimal(&mut m, done as u64);
    m.push_str(" of ");
    push_decimal(&mut m, total as u64);
    m.push_str(" cards inserted: ");
    m.push_str(cause);
    proof {
        assert(m@ =~= "card insertion failed after "@ + decimal(done as nat) + " of "@ + decimal(
            total as nat,
        ) + " cards inserted: "@ + cause@);
    }
    m
}

// ---------------------------------------------------------------------------
// A generation request, step by step
// ---------------------------------------------------------------------------

/// What can be checked before anything is read: the count (defaulted and
/// capped), then the source text; either problem is a `400`. The source is
/// sent trimmed.
pub fn plan_generation(req: &GenerateCardsRequest) -> (r: Result<(u32, String), Failure>)
    ensures
        ({
            let n = match req.num_questions {
                Some(n) => n,
                None => 5,
            };
            &&& n == 0 ==> (r matches Err(f) && f.status == 400 && f.message@
                == "num_questions must be >= 1"@ && f.reason is None && f.log is None)
            &&& n > 0 && is_blank(req.source_text@) ==> (r matches Err(f) && f.status == 400
                && f.message@ == "source_text must not be empty"@ && f.reason is None && f.log is None)
            &&& n > 0 && !is_blank(req.source_text@) && req.source_text@.len() > 8000 ==> (r matches Err(
                f,
            ) && f.status == 400 && f.message@ == "source_text exceeds 8000 character limit"@
                && f.reason is None && f.log is None)
            &&& n > 0 && !is_blank(req.source_text@) && req.source_text@.len() <= 8000 ==> (r matches Ok(
                (c, t),
            ) && c == (if n > 10 {
                10
            } else {
                n
            }) && t@ == trim(req.source_text@))
        }),
{
    let count = match num_questions(req.num_questions) {
        Ok(c) => c,
        Err(m) => return Err(refuse(400, m)),
    };
    match validate_source(req.source_text.as_str()) {
        Ok(t) => Ok((count, t)),
        Err(m) => Err(refuse(400, m)),
    }
}

/// The style `raw` names, trimmed and compared case-insensitively.
pub open spec fn style_named(raw: Seq<char>) -> Option<QuestionStyle> {
    if lowercases_to(trim(raw), "recall"@) {
        Some(QuestionStyle::Recall)
    } else if lowercases_to(trim(raw), "elaboration"@) {
        Some(QuestionStyle::Elaboration)
    } else {
        None
    }
}

pub open spec fn style_prompts(style: QuestionStyle, n: u32, source: Seq<char>) -> (Seq<char>, Seq<char>) {
    match style {
        QuestionStyle::Recall => (
            recall_system_text(n),
            user_text(n, source, " SAFMEDS-style short recall pairs."@),
        ),
        QuestionStyle::Elaboration => (
            elaboration_system_text(n),
            user_text(n, source, " elaboration-style pairs."@),
        ),
    }
}

pub open spec fn style_tag_text(style: QuestionStyle) -> Seq<char> {
    match style {
        QuestionStyle::Recall => "[style: recall]"@,
        QuestionStyle::Elaboration => "[style: elaboration]"@,
    }
}

/// The call for the named style (an unknown style is a `400`), recorded
/// under the style.
pub fn generation_call(owner: u128, raw_style: &str, count: u32, source: &str) -> (r: Result<
    (Vec<LLMMessage>, ModelCall),
    Failure,
>)
    ensures
        style_named(raw_style@) is None ==> (r matches Err(f) && f.status == 400 && f.message@
            == invalid_style_text(raw_style@) && f.reason is None && f.log is None),
        style_named(raw_style@) matches Some(st) ==> (r matches Ok((ms, call)) && single_turn_messages(
            ms@,
            style_prompts(st, count, source@).0,
            style_prompts(st, count, source@).1,
        ) && call.user_id == owner && call.prompt_log@ == prompt_log_text(
            style_tag_text(st),
            style_prompts(st, count, source@).0,
            style_prompts(st, count, source@).1,
        )),
{
    proof {
        reveal_strlit("recall");
        reveal_strlit("elaboration");
        assert(!(lowercases_to(trim(raw_style@), "recall"@) && lowercases_to(
            trim(raw_style@),
            "elaboration"@,
        )));
    }
    let style = match question_style(raw_style) {
        Ok(st) => st,
        Err(m) => return Err(refuse(400, m)),
    };
    let (system, user) = build_prompt(style, count, source);
    let tag = style_tag(style);
    Ok(single_turn(owner, tag.as_str(), system.as_str(), user.as_str()))
}

/// The pairs the reply holds: a reply that did not parse, or a batch that
/// breaks the rule, is a `502` after recording the call.
pub fn generated_pairs(reply: &ModelReply, parsed: Result<Vec<GeneratedQAPair>, String>) -> (r:
    Result<Vec<GeneratedQAPair>, Failure>)
    ensures
        parsed matches Err(e) ==> (r matches Err(f) && f.status == 502 && f.message@
            == "DeepSeek returned non-JSON output, parse failed: "@ + e@ && f.reason is None && (
        f.log matches Some(l) && recorded(*reply, l))),
        parsed matches Ok(ps) ==> batch_problem(ps@) matches Some(m) ==> (r matches Err(f)
            && f.status == 502 && f.message@ == m && f.reason is None && (f.log matches Some(l)
            && recorded(*reply, l))),
        parsed matches Ok(ps) ==> batch_problem(ps@) is None ==> r == Ok::<
            Vec<GeneratedQAPair>,
            Failure,
        >(ps),
{
    let ps = match parsed {
        Ok(ps) => ps,
        Err(e) => return Err(reply.unparsable(e.as_str())),
    };
    match validate_pairs(&ps) {
        Ok(()) => Ok(ps),
        Err(m) => Err(reply.stop(502, m)),
    }
}

} // verus!

//! `POST /cards/from_node`: one Knowledge Store concept becomes one
//! flashcard. This module holds what the endpoint decides: the prompt, the
//! check a generated card must pass, and the machine-readable `reason` every
//! `502` carries, so a caller can tell a truncated generation (do not retry
//! unchanged), any other provider failure (retry with a bound) and a failed
//! concept lookup (safe to retry) apart.
use vstd::prelude::*;
use crate::ids::{hyphenated, uuid_string};
use crate::ks::{ks_error_text, KsError, KsNode};
use crate::failure::{classify_db_error, db_error_message, db_error_status, failure_message, failure_placeholder, failure_tokens};
use crate::flow::{after_model, recorded, refuse, single_turn, single_turn_messages, with_reason, Failure, ModelCall, ModelReply};
use crate::llm::{LLMError, LLMMessage, LLMResponse};
use crate::prompt::prompt_log_text;
use crate::text::{blank, is_blank, own};

verus! {

/// `cards.source` for a card made from a concept node.
pub const SOURCE_KNOWLEDGE_STORE: &'static str = "knowledge_store";

/// `reason` on a 502: the model ran out of token budget mid-answer.
pub const REASON_TRUNCATED: &'static str = "truncated";

/// `reason` on a 502: any other failure on the model's side.
pub const REASON_PROVIDER_ERROR: &'static str = "provider_error";

/// `reason` on a 502: the concept could not be read from the store.
pub const REASON_KNOWLEDGE_STORE_ERROR: &'static str = "knowledge_store_error";

/// The request: which concept, into which set.
pub struct FromNodeRequest {
    pub study_set_id: u128,
    pub node_id: u128,
}

/// The card as the model is asked to emit it.
#[derive(Debug, PartialEq, Eq)]
pub struct GeneratedCard {
    pub question: String,
    pub answer: String,
}

/// A card with a blank side is rejected: it would waste a review.
pub fn validate_generated(card: &GeneratedCard) -> (r: Result<(), String>)
    ensures
        is_blank(card.question@) ==> (r matches Err(m) && m@ == "model returned an empty question"@),
        !is_blank(card.question@) && is_blank(card.answer@) ==> (r matches Err(m) && m@
            == "model returned an empty answer"@),
        !is_blank(card.question@) && !is_blank(card.answer@) ==> r is Ok,
{
    if blank(card.question.as_str()) {
        return Err(own("model returned an empty question"));
    }
    if blank(card.answer.as_str()) {
        return Err(own("model returned an empty answer"));
    }
    Ok(())
}

pub open spec fn system_text() -> Seq<char> {
    "You are a flashcard author. Write exactly ONE question/answer pair that tests real understanding of the concept the user provides — the kind of question that asks WHY or HOW, or asks the learner to apply the idea, not one that asks them to name a term. The answer should be 1-3 sentences, in the learner's own explanatory register.\n\nWrite in the same language as the concept you are given.\n\nDo NOT quote the provided summary back as the answer: the learner has already read it, and recognising a sentence is not the same as understanding an idea.\n\nRespond with ONLY valid JSON, shaped {\"question\": string, \"answer\": string}. No prose, no markdown fences, no commentary outside the JSON."@
}

pub open spec fn user_text(node: KsNode) -> Seq<char> {
    "Concept: "@ + node.title@ + "\nSubject: "@ + node.subject@
        + "\nWhat the learner worked out about it: "@ + node.summary@
        + "\n\nWrite one question/answer pair."@
}

/// The prompts that turn a node into a card: a question that asks why or
/// how, built on the node without quoting its summary back.
pub fn build_prompt(node: &KsNode) -> (r: (String, String))
    ensures
        r.0@ == system_text(),
        r.1@ == user_text(*node),
{
    let system = own(
        "You are a flashcard author. Write exactly ONE question/answer pair that tests real understanding of the concept the user provides — the kind of question that asks WHY or HOW, or asks the learner to apply the idea, not one that asks them to name a term. The answer should be 1-3 sentences, in the learner's own explanatory register.\n\nWrite in the same language as the concept you are given.\n\nDo NOT quote the provided summary back as the answer: the learner has already read it, and recognising a sentence is not the same as understanding an idea.\n\nRespond with ONLY valid JSON, shaped {\"question\": string, \"answer\": string}. No prose, no markdown fences, no commentary outside the JSON.",
    );
    let mut user = String::new();
    user.push_str("Concept: ");
    user.push_str(node.title.as_str());
    user.push_str("\nSubject: ");
    user.push_str(node.subject.as_str());
    user.push_str("\nWhat the learner worked out about it: ");
    user.push_str(node.summary.as_str());
    user.push_str("\n\nWrite one question/answer pair.");
    proof {
        assert(user@ =~= user_text(*node));
    }
    (system, user)
}

/// The `reason` of a failed provider call: truncation is the one failure
/// where retrying the same input is predictably pointless.
pub fn llm_failure_reason(err: &LLMError) -> (r: &'static str)
    ensures
        (*err is Truncated) ==> r@ == "truncated"@,
        !(*err is Truncated) ==> r@ == "provider_error"@,
{
    match err {
        LLMError::Truncated { .. } => REASON_TRUNCATED,
        _ => REASON_PROVIDER_ERROR,
    }
}

/// The three reasons differ, so a caller can always tell them apart.
pub proof fn law_reasons_are_distinct()
    ensures
        "truncated"@ != "provider_error"@,
        "truncated"@ != "knowledge_store_error"@,
        "provider_error"@ != "knowledge_store_error"@,
{
    reveal_strlit("truncated");
    reveal_strlit("provider_error");
    reveal_strlit("knowledge_store_error");
    assert("truncated"@.len() != "provider_error"@.len());
    assert("truncated"@.len() != "knowledge_store_error"@.len());
    assert("provider_error"@.len() != "knowledge_store_error"@.len());
}

/// A failed `502`: the message, and the reason a caller branches on.
pub struct UpstreamError {
    pub error: String,
    pub reason: &'static str,
}

/// The `502` for a concept lookup that failed; it keeps the cause.
pub fn knowledge_store_error(err: &KsError) -> (r: UpstreamError)
    ensures
        r.error@ == "could not read the concept from the Knowledge Store: "@ + ks_error_text(*err),
        r.reason@ == "knowledge_store_error"@,
{
    let mut m = String::new();
    m.push_str("could not read the concept from the Knowledge Store: ");
    let e = err.message();
    m.push_str(e.as_str());
    proof {
        assert(m@ =~= "could not read the concept from the Knowledge Store: "@ + ks_error_text(*err));
    }
    UpstreamError { error: m, reason: REASON_KNOWLEDGE_STORE_ERROR }
}

/// The `502` for a card that parsed but is unusable.
pub fn unusable_card(validation_error: &str) -> (r: UpstreamError)
    ensures
        r.error@ == "DeepSeek returned an unusable card; nothing inserted: "@ + validation_error@,
        r.reason@ == "provider_error"@,
{
    let mut m = String::new();
    m.push_str("DeepSeek returned an unusable card; nothing inserted: ");
    m.push_str(validation_error);
    proof {
        assert(m@ =~= "DeepSeek returned an unusable card; nothing inserted: "@ + validation_error@);
    }
    UpstreamError { error: m, reason: REASON_PROVIDER_ERROR }
}

/// The `409` message: the set already has a card for this concept.
pub fn already_exists_message(node_id: u128) -> (m: String)
    ensures
        m@ == "this study set already has a card for concept node "@ + hyphenated(node_id),
{
    let mut m = String::new();
    m.push_str("this study set already has a card for concept node ");
    let id = uuid_string(node_id);
    m.push_str(id.as_str());
    proof {
        assert(m@ =~= "this study set already has a card for concept node "@ + hyphenated(node_id));
    }
    m
}

/// The `404` message for a node the store does not have.
pub fn node_not_found_message(node_id: u128) -> (m: String)
    ensures
        m@ == "the Knowledge Store has no concept node "@ + hyphenated(node_id)
            + " — a concept becomes a node only after `ks.cli accept` runs, so one still awaiting review has no node id yet"@,
{
    let mut m = String::new();
    m.push_str("the Knowledge Store has no concept node ");
    let id = uuid_string(node_id);
    m.push_str(id.as_str());
    m.push_str(
        " — a concept becomes a node only after `ks.cli accept` runs, so one still awaiting review has no node id yet",
    );
    proof {
        assert(m@ =~= "the Knowledge Store has no concept node "@ + hyphenated(node_id)
            + " — a concept becomes a node only after `ks.cli accept` runs, so one still awaiting review has no node id yet"@);
    }
    m
}

// ---------------------------------------------------------------------------
// The request, step by step
// ---------------------------------------------------------------------------

/// How a request stops: a failure, or a `409` naming the card the set
/// already has for the concept.
pub enum FromNodeStop {
    Failed(Failure),
    Conflict { message: String, existing_card_id: u128 },
}

/// Leave to ask the store for a node: a request holds one only once the
/// lookup found no card for the node in the set, so a request for a node the
/// set already has a card for never reaches the store or the model.
pub struct NoCardYet {
    node_id: u128,
}

impl NoCardYet {
    /// The node the leave is for.
    pub closed spec fn node(self) -> u128 {
        self.node_id
    }
}

/// Where the lookup for an existing card stops a request: the status, and
/// the card it names for a `409`; `None` when the set has no card for the
/// node yet.
pub open spec fn lookup_stop(existing: Option<Result<Option<u128>, String>>) -> Option<(u16, Option<u128>)> {
    match existing {
        None => Some((503u16, None)),
        Some(Err(_)) => Some((500u16, None)),
        Some(Ok(Some(c))) => Some((409u16, Some(c))),
        Some(Ok(None)) => None,
    }
}

/// One node, one card: once the set has a card for a node, a request for
/// that node stops at the lookup with a `409` naming that card, and gets no
/// leave to ask the store or the model.
pub proof fn law_one_node_one_card(card: u128)
    ensures
        lookup_stop(Some(Ok(Some(card)))) == Some((409u16, Some(card))),
{
}

/// Before the store is asked: `existing` is what looking for a card the set
/// already has for the node returned, `None` when no store is configured
/// (a `503`, asked before the lookup). An existing card is a `409`, a failed
/// lookup a `500`; only a set with no card for the node gets leave to ask
/// the store.
pub fn before_lookup(node_id: u128, existing: Option<Result<Option<u128>, String>>) -> (r: Result<
    NoCardYet,
    FromNodeStop,
>)
    ensures
        r is Ok <==> lookup_stop(existing) is None,
        r matches Ok(c) ==> c.node() == node_id,
        lookup_stop(existing) matches Some((s, Some(c))) ==> (s == 409 && (r matches Err(
            FromNodeStop::Conflict { existing_card_id, .. },
        ) && existing_card_id == c)),
        existing is None ==> (r matches Err(FromNodeStop::Failed(f)) && f.status == 503 && f.message@
            == "Knowledge Store is not configured (KS_HTTP_TOKEN unset); cannot build a card from a concept node"@
            && f.reason is None && f.log is None),
        existing matches Some(Ok(Some(c))) ==> (r matches Err(FromNodeStop::Conflict { message, existing_card_id })
            && message@ == "this study set already has a card for concept node "@ + hyphenated(node_id)
            && existing_card_id == c),
        existing matches Some(Err(e)) ==> (r matches Err(FromNodeStop::Failed(f)) && f.status == 500
            && f.message@ == "database error checking for an existing card: "@ + e@ && f.reason is None
            && f.log is None),
        {
    match existing {
        None => Err(
            FromNodeStop::Failed(
                refuse(
                    503,
                    own(
                        "Knowledge Store is not configured (KS_HTTP_TOKEN unset); cannot build a card from a concept node",
                    ),
                ),
            ),
        ),
        Some(Ok(Some(c))) => Err(
            FromNodeStop::Conflict { message: already_exists_message(node_id), existing_card_id: c },
        ),
        Some(Ok(None)) => Ok(NoCardYet { node_id }),
        Some(Err(e)) => {
            let mut m = own("database error checking for an existing card: ");
            m.push_str(e.as_str());
            proof {
                assert(m@ =~= "database error checking for an existing card: "@ + e@);
            }
            Err(FromNodeStop::Failed(refuse(500, m)))
        },
    }
}

/// The node the store returned: one it does not have is a `404`, a failed
/// lookup a `502` whose reason is the store.
pub fn looked_up_node(cleared: NoCardYet, lookup: Result<Option<KsNode>, KsError>) -> (r: Result<
    KsNode,
    Failure,
>)
    ensures
        lookup matches Ok(Some(n)) ==> r == Ok::<KsNode, Failure>(n),
        lookup matches Ok(None) ==> (r matches Err(f) && f.status == 404 && f.message@
            == "the Knowledge Store has no concept node "@ + hyphenated(cleared.node())
            + " — a concept becomes a node only after `ks.cli accept` runs, so one still awaiting review has no node id yet"@
            && f.reason is None && f.log is None),
        lookup matches Err(e) ==> (r matches Err(f) && f.status == 502 && f.message@
            == "could not read the concept from the Knowledge Store: "@ + ks_error_text(e) && f.reason
            == Some("knowledge_store_error") && f.log is None),
{
    match lookup {
        Ok(Some(n)) => Ok(n),
        Ok(None) => Err(refuse(404, node_not_found_message(cleared.node_id))),
        Err(e) => {
            let u = knowledge_store_error(&e);
            Err(with_reason(refuse(502, u.error), REASON_KNOWLEDGE_STORE_ERROR))
        },
    }
}

/// The call that writes the card, recorded under the node's id.
pub fn node_card_call(owner: u128, node: &KsNode) -> (r: (Vec<LLMMessage>, ModelCall))
    ensures
        single_turn_messages(r.0@, system_text(), user_text(*node)),
        r.1.user_id == owner,
        r.1.prompt_log@ == prompt_log_text(
            "[card_from_node: "@ + node.id@ + "]"@,
            system_text(),
            user_text(*node),
        ),
{
    let (system, user) = build_prompt(node);
    let mut tag = own("[card_from_node: ");
    tag.push_str(node.id.as_str());
    tag.push_str("]");
    proof {
        assert(tag@ =~= "[card_from_node: "@ + node.id@ + "]"@);
    }
    single_turn(owner, tag.as_str(), system.as_str(), user.as_str())
}

/// After the call: as for every model call, with the reason the failure
/// gives.
pub fn node_card_reply(call: ModelCall, outcome: Result<LLMResponse, LLMError>) -> (r: Result<
    ModelReply,
    Failure,
>)
    ensures
        outcome matches Ok(resp) ==> (r matches Ok(rep) && rep.user_id == call.user_id
            && rep.prompt_log == call.prompt_log && rep.raw == resp.content && rep.tokens
            == resp.total_tokens),
        outcome matches Err(e) ==> (r matches Err(f) && f.status == 502 && f.message@
            == failure_message(e) && (f.reason matches Some(rs) && rs@ == (if e is Truncated {
            "truncated"@
        } else {
            "provider_error"@
        })) && (f.log matches Some(l) && l.user_id == call.user_id && l.input == call.prompt_log
            && l.output@ == failure_placeholder(e) && l.tokens == failure_tokens(e))),
{
    let reason: &'static str = match &outcome {
        Err(e) => llm_failure_reason(e),
        Ok(_) => REASON_PROVIDER_ERROR,
    };
    match after_model(call, outcome) {
        Ok(rep) => Ok(rep),
        Err(f) => Err(with_reason(f, reason)),
    }
}

/// The card the reply holds: a reply that did not parse, or a card with a
/// blank side, is a `502` (a provider error) after recording the call.
pub fn node_card(reply: &ModelReply, parsed: Result<GeneratedCard, String>) -> (r: Result<
    GeneratedCard,
    Failure,
>)
    ensures
        parsed matches Err(e) ==> (r matches Err(f) && f.status == 502 && f.message@
            == "DeepSeek returned non-JSON output, parse failed: "@ + e@ && f.reason == Some(
            "provider_error",
        ) && (f.log matches Some(l) && recorded(*reply, l))),
        parsed matches Ok(c) ==> is_blank(c.question@) ==> (r matches Err(f) && f.status == 502
            && f.message@ == "DeepSeek returned an unusable card; nothing inserted: "@
            + "model returned an empty question"@ && f.reason == Some("provider_error") && (
        f.log matches Some(l) && recorded(*reply, l))),
        parsed matches Ok(c) ==> !is_blank(c.question@) && is_blank(c.answer@) ==> (r matches Err(f)
            && f.status == 502 && f.message@ == "DeepSeek returned an unusable card; nothing inserted: "@
            + "model returned an empty answer"@ && f.reason == Some("provider_error") && (
        f.log matches Some(l) && recorded(*reply, l))),
        parsed matches Ok(c) ==> !is_blank(c.question@) && !is_blank(c.answer@) ==> r
            == Ok::<GeneratedCard, Failure>(c),
{
    let c = match parsed {
        Ok(c) => c,
        Err(e) => return Err(with_reason(reply.unparsable(e.as_str()), REASON_PROVIDER_ERROR)),
    };
    match validate_generated(&c) {
        Ok(()) => Ok(c),
        Err(m) => {
            let u = unusable_card(m.as_str());
            Err(with_reason(reply.stop(502, u.error), REASON_PROVIDER_ERROR))
        },
    }
}

/// The insert failed: its status and message come from the database error,
/// after recording the call.
pub fn insert_refused(reply: &ModelReply, code: Option<&str>, rendered: &str) -> (f: Failure)
    ensures
        f.status == db_error_status(
            match code {
                Some(c) => Some(c@),
                None => None,
            },
        ),
        f.message@ == db_error_message(
            match code {
                Some(c) => Some(c@),
                None => None,
            },
            rendered@,
        ),
        f.reason is None,
        f.log matches Some(l) && recorded(*reply, l),
{
    let (status, message) = classify_db_error(code, rendered);
    reply.stop(status, message)
}

/// The insert stored nothing because a card for the node appeared
/// meanwhile: `existing` is what looking for it again returned. It is a
/// `409` naming it; a card that cannot be found, or a failed lookup, is a
/// `500`.
pub fn after_conflict(node_id: u128, existing: Result<Option<u128>, String>) -> (r: FromNodeStop)
    ensures
        existing matches Ok(Some(c)) ==> (r matches FromNodeStop::Conflict { message, existing_card_id }
            && message@ == "this study set already has a card for concept node "@ + hyphenated(node_id)
            && existing_card_id == c),
        existing matches Ok(None) ==> (r matches FromNodeStop::Failed(f) && f.status == 500 && f.message@
            == "insert reported a conflict but no existing card could be found"@ && f.reason is None
            && f.log is None),
        existing matches Err(e) ==> (r matches FromNodeStop::Failed(f) && f.status == 500 && f.message@
            == "database error resolving the conflicting card: "@ + e@ && f.reason is None
            && f.log is None),
{
    match existing {
        Ok(Some(c)) => FromNodeStop::Conflict {
            message: already_exists_message(node_id),
            existing_card_id: c,
        },
        Ok(None) => FromNodeStop::Failed(
            refuse(500, own("insert reported a conflict but no existing card could be found")),
        ),
        Err(e) => {
            let mut m = own("database error resolving the conflicting card: ");
            m.push_str(e.as_str());
            proof {
                assert(m@ =~= "database error resolving the conflicting card: "@ + e@);
            }
            FromNodeStop::Failed(refuse(500, m))
        },
    }
}

} // verus!

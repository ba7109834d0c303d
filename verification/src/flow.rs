//! The steps every handler shares: finding the row a request is about,
//! reading a set's cards as context, and what follows a call to the model.
//! Each step takes what the last piece of outside work returned and says
//! how the request goes on, or how it stops. A call to the model is
//! recorded once whatever happens after it, and a failure after it carries
//! that record.
use vstd::prelude::*;
use crate::failure::{classify_db_error, db_error_message, db_error_status, describe_llm_failure, failure_message, failure_placeholder, failure_tokens};
use crate::ids::{hyphenated, not_found_message};
use crate::llm::{LLMError, LLMMessage, LLMResponse};
use crate::prompt::{prompt_log, prompt_log_text};
use crate::text::own;

verus! {

/// A row for `ai_interactions`: whom the call was for, what was asked,
/// what came back (or what stands for it), and what it cost.
pub struct AiLog {
    pub user_id: u128,
    pub input: String,
    pub output: String,
    pub tokens: u32,
}

/// A request that stops with an error: the status, the message, the
/// `reason` a caller branches on where the endpoint reports one, and the
/// model call to record before answering, when one was made.
pub struct Failure {
    pub status: u16,
    pub message: String,
    pub reason: Option<&'static str>,
    pub log: Option<AiLog>,
}

/// A failure with nothing to record and no reason.
pub fn refuse(status: u16, message: String) -> (f: Failure)
    ensures
        f.status == status,
        f.message == message,
        f.reason is None,
        f.log is None,
{
    Failure { status, message, reason: None, log: None }
}

/// The same failure, reporting `reason`.
pub fn with_reason(f: Failure, reason: &'static str) -> (g: Failure)
    ensures
        g.status == f.status,
        g.message == f.message,
        g.log == f.log,
        g.reason == Some(reason),
{
    Failure { status: f.status, message: f.message, reason: Some(reason), log: f.log }
}

/// A check on the request that failed is a `400` with its message.
pub fn bad_request<T>(checked: Result<T, String>) -> (r: Result<T, Failure>)
    ensures
        checked matches Ok(t) ==> r == Ok::<T, Failure>(t),
        checked matches Err(m) ==> (r matches Err(f) && f.status == 400 && f.message == m
            && f.reason is None && f.log is None),
{
    match checked {
        Ok(t) => Ok(t),
        Err(m) => Err(refuse(400, m)),
    }
}

/// A read that failed is a `500` with `prefix` before the cause.
pub fn server_error<T>(prefix: &str, read: Result<T, String>) -> (r: Result<T, Failure>)
    ensures
        read matches Ok(t) ==> r == Ok::<T, Failure>(t),
        read matches Err(e) ==> (r matches Err(f) && f.status == 500 && f.message@ == prefix@ + e@
            && f.reason is None && f.log is None),
{
    match read {
        Ok(t) => Ok(t),
        Err(e) => {
            let mut m = own(prefix);
            m.push_str(e.as_str());
            proof {
                assert(m@ =~= prefix@ + e@);
            }
            Err(refuse(500, m))
        },
    }
}

pub open spec fn not_found_text(kind: Seq<char>, id: u128) -> Seq<char> {
    kind + " "@ + hyphenated(id) + " not found"@
}

/// The row a request is about, looked up by id (and by owner, where the
/// lookup says so): a failed lookup is a `500` with `db_prefix` before the
/// cause, and a row that is not there, or not the caller's, is a `404`.
pub fn found<T>(kind: &str, id: u128, lookup: Result<Option<T>, String>, db_prefix: &str) -> (r:
    Result<T, Failure>)
    ensures
        lookup matches Ok(Some(t)) ==> r == Ok::<T, Failure>(t),
        lookup matches Ok(None) ==> (r matches Err(f) && f.status == 404 && f.message@
            == not_found_text(kind@, id) && f.reason is None && f.log is None),
        lookup matches Err(e) ==> (r matches Err(f) && f.status == 500 && f.message@ == db_prefix@
            + e@ && f.reason is None && f.log is None),
{
    match lookup {
        Ok(Some(t)) => Ok(t),
        Ok(None) => Err(refuse(404, not_found_message(kind, id))),
        Err(e) => {
            let mut m = own(db_prefix);
            m.push_str(e.as_str());
            proof {
                assert(m@ =~= db_prefix@ + e@);
            }
            Err(refuse(500, m))
        },
    }
}

/// Who owns the row a lookup found, as far as the ownership check reads it.
pub open spec fn owner_of<T>(lookup: Result<Option<(u128, T)>, String>) -> Result<Option<u128>, Seq<char>> {
    match lookup {
        Ok(Some(row)) => Ok(Some(row.0)),
        Ok(None) => Ok(None),
        Err(e) => Err(e@),
    }
}

/// How a request stops when it names a row it may not see: `None` when the
/// row is the caller's; a `404` when there is no such row or it belongs to
/// another learner (the same answer, so that a token cannot learn which ids
/// exist); a `500` with `db_prefix` before the cause when the read failed.
pub open spec fn ownership_refusal(
    kind: Seq<char>,
    id: u128,
    caller: u128,
    owner: Result<Option<u128>, Seq<char>>,
    db_prefix: Seq<char>,
) -> Option<(u16, Seq<char>)> {
    match owner {
        Ok(Some(o)) => if o == caller {
            None
        } else {
            Some((404u16, not_found_text(kind, id)))
        },
        Ok(None) => Some((404u16, not_found_text(kind, id))),
        Err(e) => Some((500u16, db_prefix + e)),
    }
}

/// The row a request is about, looked up by id alone together with its
/// owner, and checked against the caller.
pub fn owned<T>(kind: &str, id: u128, caller: u128, lookup: Result<Option<(u128, T)>, String>, db_prefix: &str) -> (r:
    Result<T, Failure>)
    ensures
        ownership_refusal(kind@, id, caller, owner_of(lookup), db_prefix@) is None ==> (lookup matches Ok(Some(row))
            && r == Ok::<T, Failure>(row.1)),
        ownership_refusal(kind@, id, caller, owner_of(lookup), db_prefix@) matches Some(refusal) ==> (r matches Err(f)
            && f.status == refusal.0 && f.message@ == refusal.1 && f.reason is None && f.log is None),
{
    match lookup {
        Ok(Some(row)) => {
            let (o, t) = row;
            if o == caller {
                Ok(t)
            } else {
                Err(refuse(404, not_found_message(kind, id)))
            }
        },
        Ok(None) => Err(refuse(404, not_found_message(kind, id))),
        Err(e) => {
            let mut m = own(db_prefix);
            m.push_str(e.as_str());
            proof {
                assert(m@ =~= db_prefix@ + e@);
            }
            Err(refuse(500, m))
        },
    }
}

/// The study set a request names, checked against the caller: every
/// set-scoped endpoint asks before doing anything else. `owner` is the set's
/// owner as read by the set's id alone.
pub fn owned_set(set_id: u128, caller: u128, owner: Result<Option<u128>, String>, db_prefix: &str) -> (r: Result<
    (),
    Failure,
>)
    ensures
        r is Ok <==> owner == Ok::<Option<u128>, String>(Some(caller)),
        ownership_refusal("study set"@, set_id, caller, owner_view(owner), db_prefix@) matches Some(refusal) ==> (
        r matches Err(f) && f.status == refusal.0 && f.message@ == refusal.1 && f.reason is None && f.log is None),
{
    let lookup: Result<Option<(u128, ())>, String> = match owner {
        Ok(Some(o)) => Ok(Some((o, ()))),
        Ok(None) => Ok(None),
        Err(e) => Err(e),
    };
    proof {
        assert(owner_of(lookup) == owner_view(owner));
    }
    owned("study set", set_id, caller, lookup, db_prefix)
}

/// An owner as read, with the error by its text.
pub open spec fn owner_view(owner: Result<Option<u128>, String>) -> Result<Option<u128>, Seq<char>> {
    match owner {
        Ok(o) => Ok(o),
        Err(e) => Err(e@),
    }
}

/// A row that belongs to another learner is answered exactly as a row that
/// does not exist, and only the caller's own row lets a request through.
pub proof fn law_foreign_rows_answer_as_missing(
    kind: Seq<char>,
    id: u128,
    caller: u128,
    other: u128,
    db_prefix: Seq<char>,
)
    requires
        other != caller,
    ensures
        ownership_refusal(kind, id, caller, Ok(Some(other)), db_prefix) == ownership_refusal(
            kind,
            id,
            caller,
            Ok(None),
            db_prefix,
        ),
        ownership_refusal(kind, id, caller, Ok(Some(other)), db_prefix) is Some,
        ownership_refusal(kind, id, caller, Ok(Some(caller)), db_prefix) is None,
{
}

/// As `found`, for a lookup that answers whether the row exists.
pub fn present(kind: &str, id: u128, lookup: Result<bool, String>, db_prefix: &str) -> (r: Result<
    (),
    Failure,
>)
    ensures
        lookup == Ok::<bool, String>(true) ==> r is Ok,
        lookup == Ok::<bool, String>(false) ==> (r matches Err(f) && f.status == 404 && f.message@
            == not_found_text(kind@, id) && f.reason is None && f.log is None),
        lookup matches Err(e) ==> (r matches Err(f) && f.status == 500 && f.message@ == db_prefix@
            + e@ && f.reason is None && f.log is None),
{
    let as_row: Result<Option<()>, String> = match lookup {
        Ok(true) => Ok(Some(())),
        Ok(false) => Ok(None),
        Err(e) => Err(e),
    };
    found(kind, id, as_row, db_prefix)
}

/// A set's cards as context: a set with no cards is a `400` with
/// `no_cards`, a failed read a `500` with its cause.
pub fn cards_or(context: Result<Option<String>, String>, no_cards: &str) -> (r: Result<
    String,
    Failure,
>)
    ensures
        context matches Ok(Some(c)) ==> r == Ok::<String, Failure>(c),
        context matches Ok(None) ==> (r matches Err(f) && f.status == 400 && f.message@
            == no_cards@ && f.reason is None && f.log is None),
        context matches Err(e) ==> (r matches Err(f) && f.status == 500 && f.message == e
            && f.reason is None && f.log is None),
{
    match context {
        Ok(Some(c)) => Ok(c),
        Ok(None) => Err(refuse(400, own(no_cards))),
        Err(e) => Err(refuse(500, e)),
    }
}

/// A model call about to be made: whom it is for, and the prompt as it is
/// recorded.
pub struct ModelCall {
    pub user_id: u128,
    pub prompt_log: String,
}

/// A model call that came back with content: the call, the raw reply and
/// what it cost.
pub struct ModelReply {
    pub user_id: u128,
    pub prompt_log: String,
    pub raw: String,
    pub tokens: u32,
}

/// A system prompt and a user prompt as the two messages of a call.
pub open spec fn single_turn_messages(ms: Seq<LLMMessage>, system: Seq<char>, user: Seq<char>) -> bool {
    &&& ms.len() == 2
    &&& ms[0].role@ == "system"@
    &&& ms[0].content@ == system
    &&& ms[1].role@ == "user"@
    &&& ms[1].content@ == user
}

/// A single-turn call: the two messages, and the call recorded under `tag`
/// with both prompts.
pub fn single_turn(user_id: u128, tag: &str, system: &str, user: &str) -> (r: (
    Vec<LLMMessage>,
    ModelCall,
))
    ensures
        single_turn_messages(r.0@, system@, user@),
        r.1.user_id == user_id,
        r.1.prompt_log@ == prompt_log_text(tag@, system@, user@),
{
    let mut ms: Vec<LLMMessage> = Vec::new();
    ms.push(LLMMessage::system(system));
    ms.push(LLMMessage::user(user));
    (ms, ModelCall { user_id, prompt_log: prompt_log(tag, system, user) })
}

/// After the model call: a reply goes on to be read; a failed call stops
/// with a `502` saying why, after recording the call with a placeholder
/// for the missing reply and what it cost.
pub fn after_model(call: ModelCall, outcome: Result<LLMResponse, LLMError>) -> (r: Result<
    ModelReply,
    Failure,
>)
    ensures
        outcome matches Ok(resp) ==> (r matches Ok(rep) && rep.user_id == call.user_id
            && rep.prompt_log == call.prompt_log && rep.raw == resp.content && rep.tokens
            == resp.total_tokens),
        outcome matches Err(e) ==> (r matches Err(f) && f.status == 502 && f.message@
            == failure_message(e) && f.reason is None && (f.log matches Some(l) && l.user_id
            == call.user_id && l.input == call.prompt_log && l.output@ == failure_placeholder(e)
            && l.tokens == failure_tokens(e))),
{
    match outcome {
        Ok(resp) => Ok(
            ModelReply {
                user_id: call.user_id,
                prompt_log: call.prompt_log,
                raw: resp.content,
                tokens: resp.total_tokens,
            },
        ),
        Err(e) => {
            let failure = describe_llm_failure(&e);
            let log = AiLog {
                user_id: call.user_id,
                input: call.prompt_log,
                output: failure.placeholder,
                tokens: failure.tokens_used,
            };
            Err(Failure { status: 502, message: failure.message, reason: None, log: Some(log) })
        },
    }
}

/// The record of a call that came back: the raw reply and its cost.
pub open spec fn recorded(rep: ModelReply, l: AiLog) -> bool {
    &&& l.user_id == rep.user_id
    &&& l.input == rep.prompt_log
    &&& l.output == rep.raw
    &&& l.tokens == rep.tokens
}

impl ModelReply {
    /// The record written once the request is done with the reply.
    pub fn record(&self) -> (l: AiLog)
        ensures
            recorded(*self, l),
    {
        AiLog {
            user_id: self.user_id,
            input: self.prompt_log.clone(),
            output: self.raw.clone(),
            tokens: self.tokens,
        }
    }

    /// A failure after the reply came back: the call is recorded first.
    pub fn stop(&self, status: u16, message: String) -> (f: Failure)
        ensures
            f.status == status,
            f.message == message,
            f.reason is None,
            f.log matches Some(l) && recorded(*self, l),
    {
        Failure { status, message, reason: None, log: Some(self.record()) }
    }

    /// Storing what the reply held failed: a `500` with `prefix` before the
    /// cause, after recording the call.
    pub fn store_failed(&self, prefix: &str, cause: &str) -> (f: Failure)
        ensures
            f.status == 500,
            f.message@ == prefix@ + cause@,
            f.reason is None,
            f.log matches Some(l) && recorded(*self, l),
    {
        let mut m = own(prefix);
        m.push_str(cause);
        proof {
            assert(m@ =~= prefix@ + cause@);
        }
        self.stop(500, m)
    }

    /// A reply that is not the JSON asked for: a `502` with the parse error.
    pub fn unparsable(&self, parse_error: &str) -> (f: Failure)
        ensures
            f.status == 502,
            f.message@ == "DeepSeek returned non-JSON output, parse failed: "@ + parse_error@,
            f.reason is None,
            f.log matches Some(l) && recorded(*self, l),
    {
        let mut m = String::new();
        m.push_str("DeepSeek returned non-JSON output, parse failed: ");
        m.push_str(parse_error);
        proof {
            assert(m@ =~= "DeepSeek returned non-JSON output, parse failed: "@ + parse_error@);
        }
        self.stop(502, m)
    }
}

/// A failed write: its status and message come from the database error.
pub fn db_failure(code: Option<&str>, rendered: &str) -> (f: Failure)
    ensures
        f.status == db_error_status(
            match code {
                Some(c) => Some(c@),
                None => None,
            },
        ),
        f.message@ == db_error_message(
            match code {
                Some(c) => Some(c@),
                None => None,
            },
            rendered@,
        ),
        f.reason is None,
        f.log is None,
{
    let (status, message) = classify_db_error(code, rendered);
    refuse(status, message)
}

} // verus!

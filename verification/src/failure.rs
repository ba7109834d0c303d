//! What a handler records and reports when a provider call or a database
//! statement fails.
use vstd::prelude::*;
use crate::llm::{llm_error_text, LLMError};
use crate::text::{own, str_eq};

verus! {

/// Everything an AI handler needs to record and report a failed call.
pub struct LlmFailure {
    /// What to write to `ai_interactions.output_text`.
    pub placeholder: String,
    /// What to tell the caller.
    pub message: String,
    /// What the call cost: the reported usage for a truncated completion,
    /// zero for every other failure (nothing billed, or nothing readable).
    pub tokens_used: u32,
}

pub open spec fn failure_placeholder(e: LLMError) -> Seq<char> {
    match e {
        LLMError::Truncated { finish_reason, .. } => "[truncated by the token budget (finish_reason: "@
            + finish_reason@ + ") — no usable content returned]"@,
        _ => "[no response received from DeepSeek — call failed: "@ + llm_error_text(e) + "]"@,
    }
}

pub open spec fn failure_message(e: LLMError) -> Seq<char> {
    match e {
        LLMError::Truncated { finish_reason, .. } => "DeepSeek stopped mid-answer at its token limit ("@
            + finish_reason@
            + "); nothing was parsed. Retrying, or requesting fewer items, may succeed."@,
        _ => "DeepSeek API call failed: "@ + llm_error_text(e),
    }
}

pub open spec fn failure_tokens(e: LLMError) -> u32 {
    match e {
        LLMError::Truncated { total_tokens, .. } => total_tokens,
        _ => 0,
    }
}

/// Render a failed provider call. A truncated call keeps its own phrasing,
/// because it did answer and is worth retrying, and keeps what it spent.
pub fn describe_llm_failure(err: &LLMError) -> (f: LlmFailure)
    ensures
        f.placeholder@ == failure_placeholder(*err),
        f.message@ == failure_message(*err),
        f.tokens_used == failure_tokens(*err),
{
    match err {
        LLMError::Truncated { finish_reason, total_tokens } => {
            let mut placeholder = String::new();
            placeholder.push_str("[truncated by the token budget (finish_reason: ");
            placeholder.push_str(finish_reason.as_str());
            placeholder.push_str(") — no usable content returned]");
            let mut message = String::new();
            message.push_str("DeepSeek stopped mid-answer at its token limit (");
            message.push_str(finish_reason.as_str());
            message.push_str(
                "); nothing was parsed. Retrying, or requesting fewer items, may succeed.",
            );
            proof {
                assert(placeholder@ =~= failure_placeholder(*err));
                assert(message@ =~= failure_message(*err));
            }
            LlmFailure { placeholder, message, tokens_used: *total_tokens }
        },
        _ => {
            let text = err.message();
            let mut placeholder = String::new();
            placeholder.push_str("[no response received from DeepSeek — call failed: ");
            placeholder.push_str(text.as_str());
            placeholder.push_str("]");
            let mut message = String::new();
            message.push_str("DeepSeek API call failed: ");
            message.push_str(text.as_str());
            proof {
                assert(placeholder@ =~= failure_placeholder(*err));
                assert(message@ =~= failure_message(*err));
            }
            LlmFailure { placeholder, message, tokens_used: 0 }
        },
    }
}

/// Neither text a failure produces is ever empty, whatever the error.
pub proof fn law_failure_text_is_never_empty(e: LLMError)
    ensures
        failure_placeholder(e).len() > 0,
        failure_message(e).len() > 0,
{
    reveal_strlit("]");
    reveal_strlit(") — no usable content returned]");
    reveal_strlit("DeepSeek API call failed: ");
    reveal_strlit("); nothing was parsed. Retrying, or requesting fewer items, may succeed.");
}

/// Only a truncated call records a cost; every other failure records zero.
pub proof fn law_only_truncation_costs_tokens(e: LLMError)
    ensures
        !(e is Truncated) ==> failure_tokens(e) == 0,
        (e is Truncated) ==> failure_tokens(e) == e->total_tokens,
{
}

/// An HTTP status and message for a failed database statement, from its
/// SQLSTATE code and its rendering.
pub open spec fn db_error_status(code: Option<Seq<char>>) -> u16 {
    match code {
        Some(c) => if c == "23505"@ {
            409
        } else if c == "23503"@ {
            400
        } else {
            500
        },
        None => 500,
    }
}

pub open spec fn db_error_message(code: Option<Seq<char>>, rendered: Seq<char>) -> Seq<char> {
    let s = db_error_status(code);
    if s == 409 {
        "resource already exists (unique constraint violation)"@
    } else if s == 400 {
        "referenced resource does not exist (foreign key violation)"@
    } else {
        "database error: "@ + rendered
    }
}

/// Unique violations are conflicts, foreign-key violations bad requests,
/// everything else a server error.
pub fn classify_db_error(code: Option<&str>, rendered: &str) -> (r: (u16, String))
    ensures
        r.0 == db_error_status(
            match code {
                Some(c) => Some(c@),
                None => None,
            },
        ),
        r.1@ == db_error_message(
            match code {
                Some(c) => Some(c@),
                None => None,
            },
            rendered@,
        ),
{
    proof {
        reveal_strlit("23505");
        reveal_strlit("23503");
    }
    let (unique, foreign) = match code {
        Some(c) => (str_eq(c, "23505"), str_eq(c, "23503")),
        None => (false, false),
    };
    if unique {
        (409, own("resource already exists (unique constraint violation)"))
    } else if foreign {
        (400, own("referenced resource does not exist (foreign key violation)"))
    } else {
        let mut m = String::new();
        m.push_str("database error: ");
        m.push_str(rendered);
        proof {
            assert(m@ =~= "database error: "@ + rendered@);
        }
        (500, m)
    }
}

} // verus!

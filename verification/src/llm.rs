//! The provider-agnostic shape of a chat completion: the messages sent, the
//! reply received, and the ways a call can fail.
use vstd::prelude::*;
use crate::text::{decimal, first_chars, own, push_decimal, take_chars};

verus! {

/// One chat message. `role` is `"system"`, `"user"` or `"assistant"`.
pub struct LLMMessage {
    pub role: &'static str,
    pub content: String,
}

/// Messages as (role, content) pairs.
pub open spec fn as_pairs(ms: Seq<LLMMessage>) -> Seq<(Seq<char>, Seq<char>)> {
    ms.map_values(|m: LLMMessage| (m.role@, m.content@))
}

impl LLMMessage {
    pub fn system(content: &str) -> (m: LLMMessage)
        ensures
            m.role@ == "system"@,
            m.content@ == content@,
    {
        proof {
            reveal_strlit("system");
        }
        LLMMessage { role: "system", content: own(content) }
    }

    pub fn user(content: &str) -> (m: LLMMessage)
        ensures
            m.role@ == "user"@,
            m.content@ == content@,
    {
        proof {
            reveal_strlit("user");
        }
        LLMMessage { role: "user", content: own(content) }
    }

    pub fn assistant(content: &str) -> (m: LLMMessage)
        ensures
            m.role@ == "assistant"@,
            m.content@ == content@,
    {
        proof {
            reveal_strlit("assistant");
        }
        LLMMessage { role: "assistant", content: own(content) }
    }
}

/// A finished completion.
#[derive(Debug)]
pub struct LLMResponse {
    pub content: String,
    pub total_tokens: u32,
    /// Why the model stopped, verbatim from the provider (`"stop"` on a
    /// normal completion, `""` when it did not say). Never `"length"`: a
    /// truncated completion is an [`LLMError::Truncated`], not a response.
    pub finish_reason: String,
}

#[derive(Debug)]
pub enum LLMError {
    Network(String),
    Http { status: u16, body: String },
    Parse(String),
    /// The model hit its token budget mid-answer (`finish_reason == "length"`).
    /// Carries the usage, because a truncated call is billed in full.
    Truncated { finish_reason: String, total_tokens: u32 },
}

/// How much of an upstream error body a rendered error keeps.
pub const BODY_SNIPPET_CHARS: usize = 500;

/// `"upstream HTTP {status}: {first 500 chars of body}"`.
pub open spec fn http_error_text(status: u16, body: Seq<char>) -> Seq<char> {
    "upstream HTTP "@ + decimal(status as nat) + ": "@ + take_chars(body, 500)
}

/// The rendering of an [`LLMError`].
pub open spec fn llm_error_text(e: LLMError) -> Seq<char> {
    match e {
        LLMError::Network(m) => "network error: "@ + m@,
        LLMError::Http { status, body } => http_error_text(status, body@),
        LLMError::Parse(m) => "parse error: "@ + m@,
        LLMError::Truncated { finish_reason, total_tokens } => "response truncated by the token budget (finish_reason: "@
            + finish_reason@ + ", "@ + decimal(total_tokens as nat)
            + " tokens spent); no usable content was returned"@,
    }
}

/// Append `http_error_text(status, body)` to `out`.
pub fn push_http_error(out: &mut String, status: u16, body: &str)
    ensures
        final(out)@ == old(out)@ + http_error_text(status, body@),
{
    out.push_str("upstream HTTP ");
    push_decimal(out, status as u64);
    out.push_str(": ");
    let snippet = first_chars(body, BODY_SNIPPET_CHARS);
    out.push_str(snippet.as_str());
    proof {
        reveal_strlit("upstream HTTP ");
        reveal_strlit(": ");
        assert(final(out)@ =~= old(out)@ + http_error_text(status, body@));
    }
}

impl LLMError {
    /// The human-readable rendering of the error.
    pub fn message(&self) -> (s: String)
        ensures
            s@ == llm_error_text(*self),
    {
        let mut s = String::new();
        match self {
            LLMError::Network(m) => {
                s.push_str("network error: ");
                s.push_str(m.as_str());
            },
            LLMError::Http { status, body } => {
                push_http_error(&mut s, *status, body.as_str());
            },
            LLMError::Parse(m) => {
                s.push_str("parse error: ");
                s.push_str(m.as_str());
            },
            LLMError::Truncated { finish_reason, total_tokens } => {
                s.push_str("response truncated by the token budget (finish_reason: ");
                s.push_str(finish_reason.as_str());
                s.push_str(", ");
                push_decimal(&mut s, *total_tokens as u64);
                s.push_str(" tokens spent); no usable content was returned");
            },
        }
        proof {
            assert(s@ =~= llm_error_text(*self));
        }
        s
    }
}

} // verus!

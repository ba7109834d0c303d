//! The DeepSeek chat-completions wire format and how it converts into the
//! provider-agnostic [`LLMResponse`]. The HTTP call itself is made by the
//! server; this module decides what a parsed reply means.
use vstd::prelude::*;
use crate::llm::{http_error_text, push_http_error, LLMError, LLMMessage, LLMResponse};

verus! {

/// Default model.
pub const DEFAULT_MODEL: &'static str = "deepseek-v4-flash";

/// Base URL, without a trailing slash.
pub const BASE_URL: &'static str = "https://api.deepseek.com";

/// The `finish_reason` that means the token budget ran out mid-answer.
pub const FINISH_REASON_LENGTH: &'static str = "length";

/// A chat message in the wire format.
#[derive(Debug, Clone)]
pub struct DeepSeekMessage {
    pub role: &'static str,
    pub content: String,
}

/// The part of a reply that is read.
#[derive(Debug)]
pub struct DeepSeekResponse {
    pub choices: Vec<DeepSeekChoice>,
    pub usage: DeepSeekUsage,
}

#[derive(Debug)]
pub struct DeepSeekChoice {
    pub message: DeepSeekChoiceMessage,
    /// `"stop"` normally, `"length"` when the budget ran out; absent means
    /// "not truncated".
    pub finish_reason: Option<String>,
}

#[derive(Debug)]
pub struct DeepSeekChoiceMessage {
    pub content: String,
}

#[derive(Debug)]
pub struct DeepSeekUsage {
    pub total_tokens: u32,
    pub prompt_tokens: u32,
    pub completion_tokens: u32,
    /// Absent on replies from non-reasoning models.
    pub completion_tokens_details: Option<DeepSeekCompletionDetails>,
}

/// How much of the completion budget went to reasoning the caller never sees.
#[derive(Debug)]
pub struct DeepSeekCompletionDetails {
    pub reasoning_tokens: u32,
}

#[derive(Debug)]
pub enum DeepSeekError {
    /// The request failed before or while sending.
    Network(String),
    /// A non-success status, with the response body.
    Http { status: u16, body: String },
    /// The body did not match the expected schema.
    Parse(String),
}

/// The rendering of a [`DeepSeekError`]; the same phrasing as the matching
/// [`LLMError`].
pub open spec fn deepseek_error_text(e: DeepSeekError) -> Seq<char> {
    match e {
        DeepSeekError::Network(m) => "network error: "@ + m@,
        DeepSeekError::Http { status, body } => http_error_text(status, body@),
        DeepSeekError::Parse(m) => "parse error: "@ + m@,
    }
}

impl DeepSeekError {
    pub fn message(&self) -> (s: String)
        ensures
            s@ == deepseek_error_text(*self),
    {
        let mut s = String::new();
        match self {
            DeepSeekError::Network(m) => {
                s.push_str("network error: ");
                s.push_str(m.as_str());
            },
            DeepSeekError::Http { status, body } => {
                push_http_error(&mut s, *status, body.as_str());
            },
            DeepSeekError::Parse(m) => {
                s.push_str("parse error: ");
                s.push_str(m.as_str());
            },
        }
        proof {
            assert(s@ =~= deepseek_error_text(*self));
        }
        s
    }
}

/// The stop reason of the first choice, empty when there is no choice or it
/// did not say. Only the first choice is read: one is requested.
pub open spec fn finish_reason_spec(resp: DeepSeekResponse) -> Seq<char> {
    if resp.choices@.len() > 0 {
        match resp.choices@[0].finish_reason {
            Some(r) => r@,
            None => Seq::empty(),
        }
    } else {
        Seq::empty()
    }
}

/// The text of the first choice, empty when there is none.
pub open spec fn first_content(resp: DeepSeekResponse) -> Seq<char> {
    if resp.choices@.len() > 0 {
        resp.choices@[0].message.content@
    } else {
        Seq::empty()
    }
}

pub fn finish_reason_of(resp: &DeepSeekResponse) -> (r: String)
    ensures
        r@ == finish_reason_spec(*resp),
{
    if resp.choices.len() > 0 {
        match &resp.choices[0].finish_reason {
            Some(f) => f.clone(),
            None => String::new(),
        }
    } else {
        String::new()
    }
}

/// Turn a parsed reply into an [`LLMResponse`], rejecting a truncated
/// completion whatever content came with it.
pub fn to_llm_response(resp: DeepSeekResponse) -> (r: Result<LLMResponse, LLMError>)
    ensures
        finish_reason_spec(resp) == "length"@ ==> (r matches Err(
            LLMError::Truncated { finish_reason, total_tokens },
        ) && finish_reason@ == "length"@ && total_tokens == resp.usage.total_tokens),
        finish_reason_spec(resp) != "length"@ ==> (r matches Ok(o) && o.content@ == first_content(
            resp,
        ) && o.total_tokens == resp.usage.total_tokens && o.finish_reason@
            == finish_reason_spec(resp)),
{
    let finish_reason = finish_reason_of(&resp);
    proof {
        reveal_strlit("length");
    }
    if crate::text::str_eq(finish_reason.as_str(), FINISH_REASON_LENGTH) {
        return Err(LLMError::Truncated { finish_reason, total_tokens: resp.usage.total_tokens });
    }
    let content = if resp.choices.len() > 0 {
        resp.choices[0].message.content.clone()
    } else {
        String::new()
    };
    Ok(LLMResponse { content, total_tokens: resp.usage.total_tokens, finish_reason })
}

/// The error a failed DeepSeek call is reported as.
pub fn llm_error_from(e: DeepSeekError) -> (r: LLMError)
    ensures
        r == (match e {
            DeepSeekError::Network(m) => LLMError::Network(m),
            DeepSeekError::Http { status, body } => LLMError::Http { status, body },
            DeepSeekError::Parse(m) => LLMError::Parse(m),
        }),
{
    match e {
        DeepSeekError::Network(m) => LLMError::Network(m),
        DeepSeekError::Http { status, body } => LLMError::Http { status, body },
        DeepSeekError::Parse(m) => LLMError::Parse(m),
    }
}

/// The wire messages for a conversation: same roles, same contents, same
/// order.
pub fn to_deepseek_messages(messages: &[LLMMessage]) -> (out: Vec<DeepSeekMessage>)
    ensures
        out@.len() == messages@.len(),
        forall|i: int|
            0 <= i < out@.len() ==> (#[trigger] out@[i]).role == messages@[i].role
                && out@[i].content@ == messages@[i].content@,
{
    let mut out: Vec<DeepSeekMessage> = Vec::new();
    let mut i: usize = 0;
    while i < messages.len()
        invariant
            i <= messages@.len(),
            out@.len() == i,
            forall|k: int|
                0 <= k < i ==> (#[trigger] out@[k]).role == messages@[k].role
                    && out@[k].content@ == messages@[k].content@,
        decreases messages@.len() - i,
    {
        let m = &messages[i];
        out.push(DeepSeekMessage { role: m.role, content: m.content.clone() });
        i = i + 1;
    }
    out
}

} // verus!

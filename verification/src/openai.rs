//! Any OpenAI-compatible `/chat/completions` endpoint: how the provider is
//! configured, and what a 2xx reply means.
use vstd::prelude::*;
use crate::llm::{LLMError, LLMResponse};
use crate::text::{blank, is_blank, own, str_eq, strip_trailing_slashes, without_trailing_slashes};

verus! {

pub const PROVIDER_NAME: &'static str = "openai_compatible";

/// Seconds a call may take: reasoning models legitimately take tens of
/// seconds.
pub const TIMEOUT_SECS: u64 = 180;

/// A 2xx reply body, as far as it is read. Every field is optional on the
/// wire except `choices`.
#[derive(Debug)]
pub struct ChatResponse {
    pub choices: Vec<Choice>,
    pub usage: Option<Usage>,
}

#[derive(Debug)]
pub struct Choice {
    pub message: ResponseMessage,
    pub finish_reason: Option<String>,
}

#[derive(Debug)]
pub struct ResponseMessage {
    pub content: Option<String>,
}

#[derive(Debug)]
pub struct Usage {
    pub total_tokens: Option<u32>,
}

/// The tokens a reply reports, zero when it does not say.
pub open spec fn reported_tokens(r: ChatResponse) -> u32 {
    match r.usage {
        Some(u) => match u.total_tokens {
            Some(t) => t,
            None => 0,
        },
        None => 0,
    }
}

/// The stop reason of a choice, empty when absent.
pub open spec fn choice_finish_reason(c: Choice) -> Seq<char> {
    match c.finish_reason {
        Some(f) => f@,
        None => Seq::empty(),
    }
}

/// Whether a choice carries text that is not only whitespace.
pub open spec fn has_content(c: Choice) -> bool {
    match c.message.content {
        Some(t) => !is_blank(t@),
        None => false,
    }
}

/// What [`completion_from_response`] returns, as a predicate on the result.
pub open spec fn completion_spec(r: ChatResponse, out: Result<LLMResponse, LLMError>) -> bool {
    if r.choices@.len() == 0 {
        out matches Err(LLMError::Parse(m)) && m@ == "response contained no choices"@
    } else {
        let c = r.choices@[0];
        if choice_finish_reason(c) == "length"@ {
            out matches Err(LLMError::Truncated { finish_reason, total_tokens })
                && finish_reason@ == "length"@ && total_tokens == reported_tokens(r)
        } else if !has_content(c) {
            out matches Err(LLMError::Parse(m)) && m@ == "response message had no content"@
        } else {
            out matches Ok(resp) && resp.content@ == c.message.content->0@ && resp.total_tokens
                == reported_tokens(r) && resp.finish_reason@ == choice_finish_reason(c)
        }
    }
}

/// Turn a parsed 2xx reply into an [`LLMResponse`]: the first choice, its
/// stop reason checked before its content, so a truncated completion is
/// reported as truncated however much text came back.
pub fn completion_from_response(parsed: ChatResponse) -> (out: Result<LLMResponse, LLMError>)
    ensures
        completion_spec(parsed, out),
{
    let ghost g = parsed;
    let total_tokens: u32 = match &parsed.usage {
        Some(u) => match u.total_tokens {
            Some(t) => t,
            None => 0,
        },
        None => 0,
    };
    let mut choices = parsed.choices;
    if choices.len() == 0 {
        return Err(LLMError::Parse(own("response contained no choices")));
    }
    let choice = choices.remove(0);
    assert(choice == g.choices@[0]);
    let finish_reason = match choice.finish_reason {
        Some(f) => f,
        None => String::new(),
    };
    proof {
        reveal_strlit("length");
    }
    if str_eq(finish_reason.as_str(), "length") {
        return Err(LLMError::Truncated { finish_reason: own("length"), total_tokens });
    }
    match choice.message.content {
        Some(c) => {
            if blank(c.as_str()) {
                Err(LLMError::Parse(own("response message had no content")))
            } else {
                Ok(LLMResponse { content: c, total_tokens, finish_reason })
            }
        },
        None => Err(LLMError::Parse(own("response message had no content"))),
    }
}

/// The provider's configuration.
pub struct OpenAiConfig {
    pub base_url: String,
    pub api_key: String,
    pub model: String,
}

pub const BASE_URL_VAR: &'static str = "LLM_BASE_URL";

pub const API_KEY_VAR: &'static str = "LLM_API_KEY";

pub const MODEL_VAR: &'static str = "LLM_MODEL";

/// Which variable to complain about, if any: the first one missing, else the
/// first one that is blank.
pub open spec fn config_problem(
    base_url: Option<Seq<char>>,
    api_key: Option<Seq<char>>,
    model: Option<Seq<char>>,
) -> Option<Seq<char>> {
    if base_url is None {
        Some("LLM_BASE_URL"@)
    } else if api_key is None {
        Some("LLM_API_KEY"@)
    } else if model is None {
        Some("LLM_MODEL"@)
    } else if is_blank(base_url->0) {
        Some("LLM_BASE_URL"@)
    } else if is_blank(api_key->0) {
        Some("LLM_API_KEY"@)
    } else if is_blank(model->0) {
        Some("LLM_MODEL"@)
    } else {
        None
    }
}

pub open spec fn opt_view(o: Option<String>) -> Option<Seq<char>> {
    match o {
        Some(s) => Some(s@),
        None => None,
    }
}

/// Build the configuration from the three variables' values (`None` when
/// unset). On failure, the name of the variable to set.
pub fn openai_config(base_url: Option<String>, api_key: Option<String>, model: Option<String>) -> (r:
    Result<OpenAiConfig, String>)
    ensures
        match config_problem(opt_view(base_url), opt_view(api_key), opt_view(model)) {
            Some(name) => r matches Err(e) && e@ == name,
            None => r matches Ok(c) && c.base_url@ == without_trailing_slashes(base_url->0@)
                && c.api_key@ == api_key->0@ && c.model@ == model->0@,
        },
{
    proof {
        reveal_strlit("LLM_BASE_URL");
        reveal_strlit("LLM_API_KEY");
        reveal_strlit("LLM_MODEL");
    }
    let b = match base_url {
        Some(b) => b,
        None => return Err(own(BASE_URL_VAR)),
    };
    let k = match api_key {
        Some(k) => k,
        None => return Err(own(API_KEY_VAR)),
    };
    let m = match model {
        Some(m) => m,
        None => return Err(own(MODEL_VAR)),
    };
    if blank(b.as_str()) {
        return Err(own(BASE_URL_VAR));
    }
    if blank(k.as_str()) {
        return Err(own(API_KEY_VAR));
    }
    if blank(m.as_str()) {
        return Err(own(MODEL_VAR));
    }
    Ok(OpenAiConfig { base_url: strip_trailing_slashes(b.as_str()), api_key: k, model: m })
}

} // verus!

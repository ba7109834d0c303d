use mnemosyne::deepseek::{
    llm_error_from, to_deepseek_messages, to_llm_response, DeepSeekChoice, DeepSeekChoiceMessage,
    DeepSeekError, DeepSeekMessage, DeepSeekResponse, DeepSeekUsage,
};
use mnemosyne::failure::{classify_db_error, describe_llm_failure, LlmFailure};
use mnemosyne::llm::{LLMError, LLMMessage};
use mnemosyne::openai::{completion_from_response, openai_config, ChatResponse, Choice, ResponseMessage, Usage};

fn choice(content: &str, finish_reason: Option<&str>) -> DeepSeekChoice {
    DeepSeekChoice {
        message: DeepSeekChoiceMessage { content: content.to_string() },
        finish_reason: finish_reason.map(str::to_string),
    }
}

fn usage(total: u32) -> DeepSeekUsage {
    DeepSeekUsage { total_tokens: total, prompt_tokens: 0, completion_tokens: 0, completion_tokens_details: None }
}

#[test]
fn llm_message_to_deepseek_message_preserves_role_and_content() {
    let llm_messages = vec![
        LLMMessage::system("you are helpful"),
        LLMMessage::user("hello"),
        LLMMessage::assistant("hi there"),
    ];
    let ds_messages: Vec<DeepSeekMessage> = to_deepseek_messages(&llm_messages);

    assert_eq!(ds_messages.len(), 3);
    assert_eq!(ds_messages[0].role, "system");
    assert_eq!(ds_messages[0].content, "you are helpful");
    assert_eq!(ds_messages[1].role, "user");
    assert_eq!(ds_messages[1].content, "hello");
    assert_eq!(ds_messages[2].role, "assistant");
    assert_eq!(ds_messages[2].content, "hi there");
}

#[test]
fn llm_response_extracts_first_choice_and_total_tokens() {
    let resp = to_llm_response(DeepSeekResponse {
        choices: vec![choice("the reply", Some("stop")), choice("second choice ignored", Some("stop"))],
        usage: DeepSeekUsage { total_tokens: 42, prompt_tokens: 10, completion_tokens: 32, completion_tokens_details: None },
    })
    .expect("a normal completion should convert");
    assert_eq!(resp.content, "the reply");
    assert_eq!(resp.total_tokens, 42);
    assert_eq!(resp.finish_reason, "stop");
}

#[test]
fn llm_response_handles_empty_choices_gracefully() {
    let resp = to_llm_response(DeepSeekResponse { choices: vec![], usage: usage(5) })
        .expect("no choices is not a truncation");
    assert_eq!(resp.content, "");
    assert_eq!(resp.total_tokens, 5);
    assert_eq!(resp.finish_reason, "");
}

#[test]
fn missing_finish_reason_is_not_treated_as_truncation() {
    let resp = to_llm_response(DeepSeekResponse { choices: vec![choice("fine", None)], usage: usage(7) })
        .expect("a response without finish_reason should still convert");
    assert_eq!(resp.content, "fine");
    assert_eq!(resp.finish_reason, "");
}

#[test]
fn finish_reason_length_is_rejected_as_truncated() {
    let err = to_llm_response(DeepSeekResponse { choices: vec![choice("", Some("length"))], usage: usage(4096) })
        .expect_err("a truncated completion must not convert to a success");
    assert!(matches!(
        err,
        LLMError::Truncated { ref finish_reason, total_tokens: 4096 }
            if finish_reason == "length"
    ));
}

#[test]
fn truncation_is_rejected_even_when_partial_content_came_back() {
    let err = to_llm_response(DeepSeekResponse {
        choices: vec![choice("[{\"question\": \"Wh", Some("length"))],
        usage: usage(4096),
    })
    .expect_err("partial content plus finish_reason=length is still truncation");
    assert!(matches!(err, LLMError::Truncated { .. }));
}

#[test]
fn truncation_is_rejected_even_when_the_partial_content_is_valid_json() {
    let err = to_llm_response(DeepSeekResponse {
        choices: vec![choice("[{\"question\": \"Q1\", \"answer\": \"A1\"}]", Some("length"))],
        usage: usage(4096),
    })
    .expect_err("valid JSON plus finish_reason=length is still truncation");
    assert!(matches!(err, LLMError::Truncated { .. }));
}

#[test]
fn truncation_error_message_names_the_cause() {
    let err = LLMError::Truncated { finish_reason: "length".to_string(), total_tokens: 4096 };
    let rendered = err.message();
    assert!(rendered.contains("truncated"), "unexpected message: {rendered}");
    assert!(rendered.contains("length"), "unexpected message: {rendered}");
}

#[test]
fn each_error_renders_as_documented() {
    assert_eq!(LLMError::Network("timeout".into()).message(), "network error: timeout");
    assert_eq!(LLMError::Parse("bad json".into()).message(), "parse error: bad json");
    assert_eq!(
        LLMError::Truncated { finish_reason: "length".into(), total_tokens: 4096 }.message(),
        "response truncated by the token budget (finish_reason: length, 4096 tokens spent); no usable content was returned"
    );
    let long = "x".repeat(600);
    let http = LLMError::Http { status: 503, body: long }.message();
    assert_eq!(http, format!("upstream HTTP 503: {}", "x".repeat(500)));
    assert_eq!(
        DeepSeekError::Http { status: 429, body: "rate limited".into() }.message(),
        "upstream HTTP 429: rate limited"
    );
}

#[test]
fn deepseek_error_maps_to_llm_error_variants() {
    let llm_net = llm_error_from(DeepSeekError::Network("timeout".into()));
    assert!(matches!(llm_net, LLMError::Network(s) if s == "timeout"));

    let llm_http = llm_error_from(DeepSeekError::Http { status: 429, body: "rate limited".into() });
    assert!(matches!(llm_http, LLMError::Http { status: 429, .. }));

    let llm_parse = llm_error_from(DeepSeekError::Parse("bad json".into()));
    assert!(matches!(llm_parse, LLMError::Parse(s) if s == "bad json"));
}

// -- OpenAI-compatible replies ------------------------------------------------

fn body(content: &str, finish_reason: &str) -> ChatResponse {
    ChatResponse {
        choices: vec![Choice {
            message: ResponseMessage { content: Some(content.to_string()) },
            finish_reason: Some(finish_reason.to_string()),
        }],
        usage: Some(Usage { total_tokens: Some(4096) }),
    }
}

#[test]
fn a_normal_completion_passes_through() {
    let r = completion_from_response(body("Xin chào", "stop")).unwrap();
    assert_eq!(r.content, "Xin chào");
    assert_eq!(r.finish_reason, "stop");
    assert_eq!(r.total_tokens, 4096);
}

#[test]
fn length_with_empty_content_is_truncated_not_a_parse_error() {
    match completion_from_response(body("", "length")) {
        Err(LLMError::Truncated { finish_reason, total_tokens }) => {
            assert_eq!(finish_reason, "length");
            assert_eq!(total_tokens, 4096);
        }
        other => panic!("expected Truncated, got {other:?}"),
    }
}

#[test]
fn length_with_partial_content_is_still_truncated() {
    assert!(matches!(
        completion_from_response(body("{\"title\": \"Quang h", "length")),
        Err(LLMError::Truncated { .. })
    ));
}

#[test]
fn empty_content_without_length_is_a_parse_error() {
    assert!(matches!(completion_from_response(body("  ", "stop")), Err(LLMError::Parse(_))));
}

#[test]
fn missing_finish_reason_is_accepted_when_content_is_present() {
    let parsed = ChatResponse {
        choices: vec![Choice { message: ResponseMessage { content: Some("ok".to_string()) }, finish_reason: None }],
        usage: None,
    };
    let r = completion_from_response(parsed).unwrap();
    assert_eq!((r.content.as_str(), r.finish_reason.as_str(), r.total_tokens), ("ok", "", 0));
}

#[test]
fn a_reply_with_no_choices_is_a_parse_error() {
    match completion_from_response(ChatResponse { choices: vec![], usage: None }) {
        Err(LLMError::Parse(m)) => assert_eq!(m, "response contained no choices"),
        other => panic!("expected Parse, got {other:?}"),
    }
    let no_content = ChatResponse {
        choices: vec![Choice { message: ResponseMessage { content: None }, finish_reason: Some("stop".into()) }],
        usage: None,
    };
    match completion_from_response(no_content) {
        Err(LLMError::Parse(m)) => assert_eq!(m, "response message had no content"),
        other => panic!("expected Parse, got {other:?}"),
    }
}

#[test]
fn provider_configuration_names_the_variable_to_fix() {
    let s = |v: &str| Some(v.to_string());
    assert_eq!(openai_config(None, None, None).err().unwrap(), "LLM_BASE_URL");
    assert_eq!(openai_config(s("https://api.example.com/v1"), None, None).err().unwrap(), "LLM_API_KEY");
    assert_eq!(openai_config(s("https://api.example.com/v1"), s("k"), None).err().unwrap(), "LLM_MODEL");
    assert_eq!(
        openai_config(s("https://api.example.com/v1"), s("   "), s("m")).err().unwrap(),
        "LLM_API_KEY"
    );
    let c = openai_config(s("https://api.example.com/v1/"), s("sk-key"), s("m")).ok().unwrap();
    assert_eq!(c.base_url, "https://api.example.com/v1");
    assert_eq!(c.api_key, "sk-key");
    assert_eq!(c.model, "m");
}

// -- describing a failed call --------------------------------------------------

#[test]
fn truncation_is_reported_as_truncation_not_as_a_dead_call() {
    let LlmFailure { placeholder, message, .. } =
        describe_llm_failure(&LLMError::Truncated { finish_reason: "length".into(), total_tokens: 4096 });
    assert!(placeholder.contains("truncated"), "placeholder: {placeholder}");
    assert!(!placeholder.contains("no response received"), "placeholder: {placeholder}");
    assert!(message.contains("token limit"), "message: {message}");
}

#[test]
fn other_failures_keep_the_original_phrasing() {
    let LlmFailure { placeholder, message, .. } =
        describe_llm_failure(&LLMError::Http { status: 401, body: "unauthorized".into() });
    assert!(placeholder.contains("no response received"), "placeholder: {placeholder}");
    assert!(message.contains("401"), "message: {message}");
}

#[test]
fn every_failure_kind_produces_a_non_empty_pair() {
    for err in [
        LLMError::Network("timeout".into()),
        LLMError::Http { status: 500, body: "boom".into() },
        LLMError::Parse("bad json".into()),
        LLMError::Truncated { finish_reason: "length".into(), total_tokens: 4096 },
    ] {
        let failure = describe_llm_failure(&err);
        assert!(!failure.placeholder.is_empty(), "empty placeholder for {err:?}");
        assert!(!failure.message.is_empty(), "empty message for {err:?}");
    }
}

#[test]
fn a_truncated_call_reports_what_it_spent() {
    let failure = describe_llm_failure(&LLMError::Truncated { finish_reason: "length".into(), total_tokens: 4096 });
    assert_eq!(failure.tokens_used, 4096);
}

#[test]
fn failures_that_report_no_usage_record_zero() {
    for err in [
        LLMError::Network("timeout".into()),
        LLMError::Http { status: 401, body: "unauthorized".into() },
        LLMError::Parse("EOF while parsing a value".into()),
    ] {
        assert_eq!(describe_llm_failure(&err).tokens_used, 0, "for {err:?}");
    }
}

#[test]
fn a_failed_call_is_described_word_for_word() {
    let f = describe_llm_failure(&LLMError::Network("timeout".into()));
    assert_eq!(f.placeholder, "[no response received from DeepSeek — call failed: network error: timeout]");
    assert_eq!(f.message, "DeepSeek API call failed: network error: timeout");
    let t = describe_llm_failure(&LLMError::Truncated { finish_reason: "length".into(), total_tokens: 1 });
    assert_eq!(t.placeholder, "[truncated by the token budget (finish_reason: length) — no usable content returned]");
}

#[test]
fn database_errors_map_onto_statuses() {
    assert_eq!(
        classify_db_error(Some("23505"), "dup"),
        (409, "resource already exists (unique constraint violation)".to_string())
    );
    assert_eq!(
        classify_db_error(Some("23503"), "fk"),
        (400, "referenced resource does not exist (foreign key violation)".to_string())
    );
    assert_eq!(classify_db_error(Some("42P01"), "no table"), (500, "database error: no table".to_string()));
    assert_eq!(classify_db_error(None, "pool timed out"), (500, "database error: pool timed out".to_string()));
}

fn some(s: &str) -> Option<String> {
    Some(s.to_string())
}

#[test]
fn env_configuration_is_reported_precisely() {
    assert_eq!(openai_config(None, None, None).err(), Some("LLM_BASE_URL".to_string()));
    assert_eq!(openai_config(some("https://api.example.com/v1"), None, None).err(), Some("LLM_API_KEY".to_string()));
    assert_eq!(
        openai_config(some("https://api.example.com/v1"), some("k"), None).err(),
        Some("LLM_MODEL".to_string())
    );
    assert_eq!(
        openai_config(some("https://api.example.com/v1"), some("   "), some("m")).err(),
        Some("LLM_API_KEY".to_string())
    );
    let c = openai_config(some("https://api.example.com/v1/"), some("sk-should-not-appear"), some("m")).ok().unwrap();
    assert_eq!(c.base_url, "https://api.example.com/v1");
}

/// A 2xx body as the client reads it: JSON into the fields it uses, and a
/// body that is not JSON a parse error.
fn parse_completion(text: &str) -> Result<mnemosyne::llm::LLMResponse, LLMError> {
    let v: serde_json::Value = serde_json::from_str(text).map_err(|e| LLMError::Parse(e.to_string()))?;
    let choices = v["choices"]
        .as_array()
        .ok_or_else(|| LLMError::Parse("missing field `choices`".into()))?
        .iter()
        .map(|c| Choice {
            message: ResponseMessage { content: c["message"]["content"].as_str().map(str::to_string) },
            finish_reason: c["finish_reason"].as_str().map(str::to_string),
        })
        .collect();
    let usage = v.get("usage").map(|u| Usage { total_tokens: u["total_tokens"].as_u64().map(|t| t as u32) });
    completion_from_response(ChatResponse { choices, usage })
}

#[test]
fn no_choices_and_malformed_bodies_are_parse_errors() {
    assert!(matches!(parse_completion(r#"{"choices": []}"#), Err(LLMError::Parse(_))));
    assert!(matches!(parse_completion("not json"), Err(LLMError::Parse(_))));
}

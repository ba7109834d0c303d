use mnemosyne::cards_from_node::{
    already_exists_message, build_prompt, knowledge_store_error, llm_failure_reason,
    node_not_found_message, unusable_card, validate_generated, GeneratedCard,
    REASON_KNOWLEDGE_STORE_ERROR, REASON_PROVIDER_ERROR, REASON_TRUNCATED,
};
use mnemosyne::ks::{KsError, KsNode};
use mnemosyne::llm::LLMError;
use uuid::Uuid;

fn node() -> KsNode {
    KsNode {
        id: "5248a55b-ca35-4a33-8479-09d0ec0a6784".to_string(),
        title: "Định luật II Newton".to_string(),
        subject: "Vật lý".to_string(),
        summary: "Học sinh đã sửa công thức từ F = m*v thành F = m*a.".to_string(),
    }
}

#[test]
fn accepts_a_well_formed_card() {
    assert!(validate_generated(&GeneratedCard {
        question: "Tại sao gia tốc chứ không phải vận tốc?".into(),
        answer: "Vì lực gây ra thay đổi vận tốc.".into(),
    })
    .is_ok());
}

#[test]
fn rejects_blank_question() {
    assert!(validate_generated(&GeneratedCard {
        question: "   ".into(),
        answer: "Vì lực gây ra thay đổi vận tốc.".into(),
    })
    .is_err());
}

#[test]
fn rejects_blank_answer() {
    assert!(validate_generated(&GeneratedCard { question: "Tại sao?".into(), answer: "".into() })
        .is_err());
}

#[test]
fn prompt_carries_the_node_and_states_the_json_contract() {
    let (system, user) = build_prompt(&node());
    assert!(system.contains("\"question\": string"));
    assert!(system.contains("ONE question/answer pair"));
    assert!(user.contains("Định luật II Newton"));
    assert!(user.contains("Vật lý"));
    assert!(user.contains("F = m*a"));
}

#[test]
fn prompt_forbids_parroting_the_summary_back() {
    let (system, _) = build_prompt(&node());
    assert!(system.contains("Do NOT quote the provided summary"));
}

#[test]
fn the_three_reasons_are_distinct() {
    let all = [REASON_TRUNCATED, REASON_PROVIDER_ERROR, REASON_KNOWLEDGE_STORE_ERROR];
    for (i, a) in all.iter().enumerate() {
        for b in &all[i + 1..] {
            assert_ne!(a, b);
        }
    }
}

#[test]
fn every_non_truncation_failure_maps_to_provider_error() {
    for err in [
        LLMError::Network("timeout".into()),
        LLMError::Http { status: 429, body: "rate limited".into() },
        LLMError::Parse("bad json".into()),
    ] {
        assert_eq!(llm_failure_reason(&err), REASON_PROVIDER_ERROR, "unexpected reason for {err:?}");
    }
}

#[test]
fn a_truncated_generation_has_its_own_reason() {
    let err = LLMError::Truncated { finish_reason: "length".into(), total_tokens: 900 };
    assert_eq!(llm_failure_reason(&err), REASON_TRUNCATED);
}

#[test]
fn upstream_errors_carry_their_reason() {
    let ks = knowledge_store_error(&KsError::Unreachable("refused".into()));
    assert_eq!(ks.reason, REASON_KNOWLEDGE_STORE_ERROR);
    assert!(ks.error.contains("refused"));
    let unusable = unusable_card("model returned an empty answer");
    assert_eq!(unusable.reason, REASON_PROVIDER_ERROR);
    assert!(unusable.error.contains("model returned an empty answer"));
}

#[test]
fn conflict_and_not_found_messages_name_the_node() {
    let id = Uuid::parse_str("090aaecf-d8a8-4ca9-9191-19075245ab84").unwrap();
    assert!(already_exists_message(id.as_u128()).contains("090aaecf-d8a8-4ca9-9191-19075245ab84"));
    assert!(node_not_found_message(id.as_u128()).contains("090aaecf-d8a8-4ca9-9191-19075245ab84"));
}

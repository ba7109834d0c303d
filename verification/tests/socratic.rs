use mnemosyne::ks::{KsError, SaveTranscriptOutcome, TranscriptTurn};
use mnemosyne::socratic::{
    build_system_prompt, card_context, check_turns, format_assistant_history_message, replay_window,
    session_ref_for, sync_status, sync_without_call, transcript_turns, KsSyncStatus, MessageRow,
    TURN_CAP,
};
use uuid::Uuid;

fn msg(role: &str, content: &str) -> (String, String) {
    (role.to_string(), content.to_string())
}

#[test]
fn assistant_history_is_replayed_as_json() {
    let raw = format_assistant_history_message(
        "Please focus on the original question.",
        Some("answered a different question"),
    );
    let parsed: serde_json::Value =
        serde_json::from_str(&raw).expect("assistant history payload should be valid JSON");
    assert_eq!(parsed["reply"], "Please focus on the original question.");
    assert_eq!(parsed["flagged_misconception"], "answered a different question");
}

#[test]
fn an_unflagged_answer_is_replayed_with_null() {
    let raw = format_assistant_history_message("Đúng rồi, \"F = ma\".", None);
    let parsed: serde_json::Value = serde_json::from_str(&raw).unwrap();
    assert_eq!(parsed["reply"], "Đúng rồi, \"F = ma\".");
    assert!(parsed["flagged_misconception"].is_null());
}

#[test]
fn system_prompt_reinforces_json_for_adversarial_replies() {
    let prompt = build_system_prompt("Q: Example?\nA: Example.");
    assert!(prompt.contains("This JSON-only requirement ALWAYS applies"));
    assert!(prompt.contains("off-topic, nonsensical, hostile, or clearly wrong"));
}

#[test]
fn session_ref_is_derived_from_the_session_uuid() {
    let id = Uuid::parse_str("8f21ac00-0000-4000-8000-000000000000").unwrap();
    assert_eq!(
        session_ref_for(id.as_u128()),
        "mnemosyne-session-8f21ac00-0000-4000-8000-000000000000"
    );
    assert_eq!(session_ref_for(id.as_u128()), session_ref_for(id.as_u128()));
}

#[test]
fn transcript_turns_translate_roles_and_preserve_order() {
    let messages = vec![
        msg("assistant", "Định luật Newton 2 phát biểu thế nào?"),
        msg("user", "Gia tốc tỉ lệ thuận với lực, F = ma."),
    ];
    assert_eq!(
        transcript_turns(&messages),
        vec![
            TranscriptTurn::coach("Định luật Newton 2 phát biểu thế nào?"),
            TranscriptTurn::learner("Gia tốc tỉ lệ thuận với lực, F = ma."),
        ]
    );
}

#[test]
fn transcript_turns_drop_unknown_roles() {
    assert!(transcript_turns(&vec![msg("system", "internal note")]).is_empty());
}

#[test]
fn the_turn_cap_closes_the_session() {
    assert!(check_turns(TURN_CAP - 1).is_ok());
    assert!(check_turns(TURN_CAP).is_err());
}

#[test]
fn only_the_last_twenty_messages_are_replayed() {
    let rows: Vec<MessageRow> = (0..25)
        .map(|i| MessageRow {
            role: if i % 2 == 0 { "assistant".into() } else { "user".into() },
            content: format!("m{i}"),
            flagged_misconception: None,
        })
        .collect();
    let (n, msgs) = replay_window(&rows);
    assert_eq!(n, 20);
    assert_eq!(msgs.len(), 20);
    assert_eq!(msgs[0].role, "user");
    assert_eq!(msgs[0].content, "m5");
    assert_eq!(msgs[1].role, "assistant");
    assert_eq!(msgs[1].content, "{\"reply\":\"m6\",\"flagged_misconception\":null}");
}

#[test]
fn card_context_lists_each_card() {
    assert_eq!(card_context(&vec![]), None);
    let ctx = card_context(&vec![msg("Q1?", "A1.")]).unwrap();
    assert_eq!(ctx, "Q: Q1?\nA: A1.\n\n");
}

#[test]
fn sync_reports_each_outcome() {
    assert_eq!(sync_without_call(false, 3), Some(KsSyncStatus::Disabled));
    assert_eq!(sync_without_call(true, 0), Some(KsSyncStatus::NothingToSend));
    assert_eq!(sync_without_call(true, 2), None);
    assert_eq!(
        sync_status(Ok(SaveTranscriptOutcome::Saved { transcript_id: "298178c8".into() })),
        KsSyncStatus::Saved { transcript_id: "298178c8".into() }
    );
    assert_eq!(
        sync_status(Ok(SaveTranscriptOutcome::KsDbUnavailable { error: "down".into() })),
        KsSyncStatus::KsDbUnavailable { error: "down".into() }
    );
    match sync_status(Err(KsError::Unreachable("refused".into()))) {
        KsSyncStatus::Failed { error } => assert!(error.contains("refused")),
        other => panic!("unexpected {other:?}"),
    }
}

#[test]
fn replayed_answers_escape_as_json_does() {
    let raw = format_assistant_history_message("tab\there \u{1} \\ \"q\"\n", Some("x\ry"));
    assert_eq!(
        raw,
        "{\"reply\":\"tab\\there \\u0001 \\\\ \\\"q\\\"\\n\",\"flagged_misconception\":\"x\\ry\"}"
    );
}

use mnemosyne::chat::{
    card_context, check_room, list_limit, title_from, validate_message, ChatMode, MAX_MESSAGE_CHARS,
    MESSAGE_CAP, TITLE_CHARS,
};

#[test]
fn a_title_is_the_opening_message_trimmed() {
    assert_eq!(title_from("  Giải phương trình x² - 5x + 6 = 0  "), "Giải phương trình x² - 5x + 6 = 0");
    let long = "a".repeat(TITLE_CHARS + 20);
    let title = title_from(&long);
    assert_eq!(title.chars().count(), TITLE_CHARS + 1, "truncated plus the ellipsis");
    assert!(title.ends_with('…'));
}

#[test]
fn the_title_counts_characters_not_bytes() {
    let long = "ề".repeat(TITLE_CHARS + 5);
    let title = title_from(&long);
    assert_eq!(title.chars().count(), TITLE_CHARS + 1);
}

#[test]
fn empty_and_oversized_messages_are_rejected() {
    assert!(validate_message("   ").is_err());
    assert!(validate_message(&"x".repeat(MAX_MESSAGE_CHARS + 1)).is_err());
    assert!(validate_message(" hỏi bài ").is_ok());
}

#[test]
fn the_two_modes_ask_for_opposite_things() {
    let ask = ChatMode::Ask.system_prompt(None);
    let solve = ChatMode::Solve.system_prompt(None);
    assert!(ask.contains("direct"), "{ask}");
    assert!(solve.contains("steps"), "{solve}");
    assert!(solve.contains("Final answer"), "{solve}");
    assert_ne!(ask, solve);
    assert!(!ask.contains("guiding question"));
}

#[test]
fn study_set_context_is_appended_when_present() {
    let with = ChatMode::Ask.system_prompt(Some("- Từ thông → Φ = B·S·cosα\n"));
    assert!(with.contains("Φ = B·S·cosα"));
    assert_eq!(ChatMode::Ask.system_prompt(Some("   ")), ChatMode::Ask.system_prompt(None));
}

#[test]
fn a_title_of_exactly_the_limit_is_kept_whole() {
    let exact = "b".repeat(TITLE_CHARS);
    assert_eq!(title_from(&exact), exact);
}

#[test]
fn mode_names_and_interaction_types() {
    assert_eq!(ChatMode::Ask.name(), "Ask");
    assert_eq!(ChatMode::Solve.name(), "Solve");
    assert_eq!(ChatMode::Ask.interaction_type(), "ask_answer");
    assert_eq!(ChatMode::Solve.interaction_type(), "solve_steps");
}

#[test]
fn a_full_conversation_takes_no_more_turns() {
    assert!(check_room(0).is_ok());
    assert!(check_room(MESSAGE_CAP - 1).is_ok());
    assert!(check_room(MESSAGE_CAP).is_err());
}

#[test]
fn list_limit_defaults_and_clamps() {
    assert_eq!(list_limit(None), 50);
    assert_eq!(list_limit(Some(0)), 1);
    assert_eq!(list_limit(Some(-5)), 1);
    assert_eq!(list_limit(Some(10)), 10);
    assert_eq!(list_limit(Some(10_000)), 200);
}

#[test]
fn card_context_is_absent_without_cards() {
    assert_eq!(card_context(&vec![]), None);
    let ctx = card_context(&vec![("Q1".to_string(), "A1".to_string())]).unwrap();
    assert!(ctx.contains("Q1") && ctx.contains("A1"));
}

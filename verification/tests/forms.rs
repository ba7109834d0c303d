use mnemosyne::cli::{no_user_message, parse_command, provider_choice, revoke_outcome, Command, Provider};
use mnemosyne::crud::{
    validate_card, validate_study_set, validate_user, CreateCardRequest, CreateStudySetRequest,
    CreateUserRequest,
};
use mnemosyne::edit::{card_update, deletion_outcome, study_set_update, DeletedResponse, PatchCard, PatchStudySet};
use mnemosyne::feynman::{
    build_system_prompt as feynman_system, validate_explanation, validate_scores, FeynmanAIResponse,
};
use mnemosyne::generate::{
    build_prompt, default_style, insertion_failure, num_questions, question_style, style_tag,
    validate_pairs, validate_source, GeneratedQAPair, QuestionStyle,
};
use mnemosyne::todos::{open_count, set_not_found, validate_title, MAX_TITLE_CHARS};
use uuid::Uuid;

fn scores(c: i32, m: i32, r: i32) -> FeynmanAIResponse {
    FeynmanAIResponse {
        clarity_score: c,
        completeness_score: m,
        correctness_score: r,
        feedback: "f".into(),
        suggestions: "s".into(),
    }
}

fn args(xs: &[&str]) -> Vec<String> {
    xs.iter().map(|s| s.to_string()).collect()
}

#[test]
fn feynman_scores_must_be_between_one_and_ten() {
    assert!(validate_scores(&scores(1, 10, 5)).is_ok());
    assert_eq!(
        validate_scores(&scores(0, 5, 5)).unwrap_err(),
        "AI returned an invalid score: AI returned clarity_score=0 (must be 1-10)"
    );
    assert_eq!(
        validate_scores(&scores(5, 11, 5)).unwrap_err(),
        "AI returned an invalid score: AI returned completeness_score=11 (must be 1-10)"
    );
    assert_eq!(
        validate_scores(&scores(5, 5, -3)).unwrap_err(),
        "AI returned an invalid score: AI returned correctness_score=-3 (must be 1-10)"
    );
}

#[test]
fn feynman_explanations_are_trimmed_and_capped() {
    assert!(validate_explanation("  ").is_err());
    assert_eq!(validate_explanation(" vì lực ").unwrap(), "vì lực");
    assert!(validate_explanation(&"x".repeat(4001)).is_err());
    assert!(feynman_system("Q: a\nA: b").contains("Q: a\nA: b"));
}

#[test]
fn generation_count_defaults_caps_and_refuses_zero() {
    assert_eq!(num_questions(None), Ok(5));
    assert_eq!(num_questions(Some(3)), Ok(3));
    assert_eq!(num_questions(Some(50)), Ok(10));
    assert_eq!(num_questions(Some(0)), Err("num_questions must be >= 1".to_string()));
}

#[test]
fn question_styles_are_read_loosely() {
    assert_eq!(default_style(), "recall");
    assert_eq!(question_style(" Recall "), Ok(QuestionStyle::Recall));
    assert_eq!(question_style("ELABORATION"), Ok(QuestionStyle::Elaboration));
    assert_eq!(
        question_style("deep"),
        Err("invalid question_style 'deep': must be 'recall' or 'elaboration'".to_string())
    );
    assert_eq!(style_tag(QuestionStyle::Recall), "[style: recall]");
}

#[test]
fn generation_prompts_state_the_count_and_carry_the_source() {
    let (system, user) = build_prompt(QuestionStyle::Recall, 7, "Columbus 1492");
    assert!(system.contains("Generate exactly 7 question/answer pairs"));
    assert!(user.contains("Columbus 1492"));
    let (system, _) = build_prompt(QuestionStyle::Elaboration, 3, "x");
    assert!(system.contains("DEEPER UNDERSTANDING"));
    assert!(validate_source("  ").is_err());
    assert_eq!(validate_source(" text ").unwrap(), "text");
}

#[test]
fn a_batch_with_a_blank_side_is_rejected_whole() {
    let ok = GeneratedQAPair { question: "q".into(), answer: "a".into() };
    let bad = GeneratedQAPair { question: "q".into(), answer: " ".into() };
    assert!(validate_pairs(&vec![ok.clone()]).is_ok());
    assert_eq!(
        validate_pairs(&vec![ok, bad]).unwrap_err(),
        "DeepSeek returned a malformed pair at index 1 (empty question or answer). Batch rejected; no cards inserted."
    );
    assert_eq!(validate_pairs(&vec![]).unwrap_err(), "DeepSeek returned an empty array; nothing to insert");
    assert_eq!(
        insertion_failure(2, 5, "boom"),
        "card insertion failed after 2 of 5 cards inserted: boom"
    );
}

#[test]
fn patches_write_only_what_was_sent() {
    let u = study_set_update(PatchStudySet { name: Some("  Lý  ".into()), topic: Some(None) }).unwrap();
    assert_eq!(u.name.as_deref(), Some("Lý"));
    assert!(u.set_topic);
    assert_eq!(u.topic, None);
    let u = study_set_update(PatchStudySet { name: None, topic: None }).unwrap();
    assert!(u.name.is_none() && !u.set_topic);
    assert!(study_set_update(PatchStudySet { name: Some(" ".into()), topic: None }).is_err());

    let c = card_update(&PatchCard { question: Some(" q ".into()), answer: None }).unwrap();
    assert_eq!(c.question.as_deref(), Some("q"));
    assert!(c.answer.is_none());
    assert_eq!(
        card_update(&PatchCard { question: None, answer: Some("".into()) }).err(),
        Some("answer must not be empty".to_string())
    );
}

#[test]
fn a_delete_that_removed_nothing_is_not_found() {
    let id = Uuid::parse_str("090aaecf-d8a8-4ca9-9191-19075245ab84").unwrap().as_u128();
    assert_eq!(deletion_outcome(1, "card", id), Ok(DeletedResponse { deleted: true, id }));
    assert_eq!(
        deletion_outcome(0, "card", id),
        Err("card 090aaecf-d8a8-4ca9-9191-19075245ab84 not found".to_string())
    );
}

#[test]
fn todo_titles_and_counts() {
    assert!(validate_title(" ").is_err());
    assert_eq!(validate_title(" ôn bài ").unwrap(), "ôn bài");
    assert!(validate_title(&"ư".repeat(MAX_TITLE_CHARS)).is_ok());
    assert!(validate_title(&"ư".repeat(MAX_TITLE_CHARS + 1)).is_err());
    assert_eq!(open_count(&vec![true, false, false, true]), 2);
    assert_eq!(set_not_found(None), "study set 00000000-0000-0000-0000-000000000000 not found");
}

#[test]
fn creation_requests_need_their_text() {
    assert!(validate_user(&CreateUserRequest { email: " ".into(), learning_style: None }).is_err());
    assert!(validate_user(&CreateUserRequest { email: "a@b.c".into(), learning_style: None }).is_ok());
    assert!(validate_study_set(&CreateStudySetRequest { user_id: 1, name: "".into(), topic: None }).is_err());
    assert!(validate_study_set(&CreateStudySetRequest { user_id: 1, name: "Lý".into(), topic: None }).is_ok());
    assert!(validate_card(&CreateCardRequest { set_id: 1, question: "q".into(), answer: " ".into() }).is_err());
    assert!(validate_card(&CreateCardRequest { set_id: 1, question: "q".into(), answer: "a".into() }).is_ok());
}

#[test]
fn operator_commands_are_parsed_with_their_arguments() {
    assert_eq!(
        parse_command(&args(&["create-user", "a@b.c"])),
        Ok(Command::CreateUser { email: "a@b.c".into(), style: None })
    );
    assert_eq!(
        parse_command(&args(&["mint-token", "a@b.c", "laptop"])),
        Ok(Command::MintToken { email: "a@b.c".into(), label: Some("laptop".into()) })
    );
    assert_eq!(
        parse_command(&args(&["list-tokens", "a@b.c"])),
        Ok(Command::ListTokens { email: "a@b.c".into() })
    );
    let id = "8f21ac00-0000-4000-8000-000000000000";
    assert_eq!(
        parse_command(&args(&["revoke-token", id])),
        Ok(Command::RevokeToken { token_id: Uuid::parse_str(id).unwrap().as_u128() })
    );
    assert_eq!(parse_command(&args(&["revoke-token", "nope"])), Err("'nope' is not a token id".to_string()));
    assert_eq!(parse_command(&args(&["mint-token"])), Err("mint-token needs an email".to_string()));
    assert!(parse_command(&args(&["frobnicate"])).unwrap_err().starts_with("unknown command 'frobnicate'\n"));
}

#[test]
fn provider_and_token_messages() {
    assert_eq!(provider_choice(None), Ok(Provider::DeepSeek));
    assert_eq!(provider_choice(Some("deepseek")), Ok(Provider::DeepSeek));
    assert_eq!(provider_choice(Some("openai_compatible")), Ok(Provider::OpenAiCompatible));
    assert_eq!(provider_choice(Some("openai")), Err("Unknown LLM_PROVIDER: openai".to_string()));
    assert_eq!(no_user_message("a@b.c"), "no user with email a@b.c");
    let id = Uuid::parse_str("8f21ac00-0000-4000-8000-000000000000").unwrap().as_u128();
    assert_eq!(revoke_outcome(true, id), Ok("revoked 8f21ac00-0000-4000-8000-000000000000".to_string()));
    assert_eq!(revoke_outcome(false, id), Err("no token with id 8f21ac00-0000-4000-8000-000000000000".to_string()));
}

#[test]
fn migrate_is_a_command_of_its_own() {
    assert_eq!(parse_command(&args(&["migrate"])), Ok(Command::Migrate));
    assert!(parse_command(&args(&["frobnicate"])).unwrap_err().contains("migrate |"));
}

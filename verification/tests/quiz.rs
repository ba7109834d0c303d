use mnemosyne::ks::KsNode;
use mnemosyne::quiz::{
    build_knowledge_store_prompt, build_topic_prompt, grade_attempt, is_answer_correct,
    no_concepts_message, question_count, quiz_source, quiz_topic, source_node_id, validate_generated,
    AttemptResponse, GeneratedQuestion, QuizSource,
};

fn q(correct_index: i32, choices: &[&str]) -> GeneratedQuestion {
    GeneratedQuestion {
        question: "Định luật Newton 2 phát biểu thế nào?".to_string(),
        choices: choices.iter().map(|c| c.to_string()).collect(),
        correct_index,
        source_node_index: None,
    }
}

const FOUR: [&str; 4] = ["F = ma", "F = mv", "F = m/a", "F = a/m"];

#[test]
fn accepts_a_well_formed_batch() {
    assert!(validate_generated(&[q(0, &FOUR), q(3, &FOUR)], 0).is_ok());
}

#[test]
fn rejects_empty_batch() {
    assert!(validate_generated(&[], 0).is_err());
}

#[test]
fn rejects_correct_index_past_the_end_of_choices() {
    let err = validate_generated(&[q(4, &FOUR)], 0).unwrap_err();
    assert!(err.contains("correct_index"), "unexpected error: {err}");
}

#[test]
fn rejects_negative_correct_index() {
    assert!(validate_generated(&[q(-1, &FOUR)], 0).is_err());
}

#[test]
fn rejects_single_choice_question() {
    assert!(validate_generated(&[q(0, &["only"])], 0).is_err());
}

#[test]
fn rejects_too_many_choices() {
    let many = ["a", "b", "c", "d", "e", "f", "g"];
    assert!(validate_generated(&[q(0, &many)], 0).is_err());
}

#[test]
fn rejects_blank_choice() {
    assert!(validate_generated(&[q(0, &["F = ma", "   ", "c", "d"])], 0).is_err());
}

#[test]
fn rejects_blank_question_text() {
    let mut bad = q(0, &FOUR);
    bad.question = "   ".to_string();
    assert!(validate_generated(&[bad], 0).is_err());
}

#[test]
fn one_bad_question_rejects_the_whole_batch() {
    assert!(validate_generated(&[q(0, &FOUR), q(9, &FOUR), q(1, &FOUR)], 0).is_err());
}

#[test]
fn knowledge_store_mode_requires_a_node_citation() {
    let err = validate_generated(&[q(0, &FOUR)], 3).unwrap_err();
    assert!(err.contains("source_node_index"), "unexpected error: {err}");
}

#[test]
fn knowledge_store_mode_rejects_out_of_range_node_citation() {
    let mut cited = q(0, &FOUR);
    cited.source_node_index = Some(5);
    assert!(validate_generated(&[cited], 3).is_err());
}

#[test]
fn knowledge_store_mode_accepts_a_valid_node_citation() {
    let mut cited = q(0, &FOUR);
    cited.source_node_index = Some(2);
    assert!(validate_generated(&[cited], 3).is_ok());
}

#[test]
fn batch_errors_name_the_question_and_the_problem() {
    let err = |qs: &[GeneratedQuestion], n: usize| validate_generated(qs, n).unwrap_err();
    assert_eq!(err(&[], 0), "model returned an empty array; nothing to insert");
    assert_eq!(err(&[q(0, &FOUR), q(4, &FOUR)], 0), "question at index 1 has correct_index 4 outside its 4 choices");
    assert_eq!(err(&[q(-1, &FOUR)], 0), "question at index 0 has correct_index -1 outside its 4 choices");
    assert_eq!(err(&[q(0, &["x"])], 0), "question at index 0 has 1 choices; must be between 2 and 6");
    assert_eq!(
        err(&[q(0, &["a", "b", " ", ""])], 0),
        "question at index 0 has an empty choice at position 2"
    );
    let mut cited = q(0, &FOUR);
    cited.source_node_index = Some(3);
    assert_eq!(
        err(&[cited], 3),
        "question at index 0 cites source_node_index 3, but only 3 nodes were provided"
    );
    assert_eq!(
        err(&[q(0, &FOUR)], 2),
        "question at index 0 is missing source_node_index, required in knowledge_store mode"
    );
}

#[test]
fn grading_accepts_only_the_matching_index() {
    assert!(is_answer_correct(2, 2));
    assert!(!is_answer_correct(0, 2));
    assert!(!is_answer_correct(3, 2));
}

#[test]
fn grading_is_exact_across_every_position() {
    for correct in 0..4i32 {
        let correct_count = (0..4i32).filter(|s| is_answer_correct(*s, correct)).count();
        assert_eq!(correct_count, 1, "correct_index {correct}");
        assert!(is_answer_correct(correct, correct));
    }
}

#[test]
fn grading_does_not_treat_index_zero_specially() {
    assert!(is_answer_correct(0, 0));
    assert!(!is_answer_correct(0, 1));
}

#[test]
fn an_answer_outside_the_choices_is_refused_not_graded() {
    assert_eq!(grade_attempt(1, 2, 4), Ok(AttemptResponse { is_correct: false, correct_index: 2 }));
    assert_eq!(grade_attempt(2, 2, 4), Ok(AttemptResponse { is_correct: true, correct_index: 2 }));
    assert_eq!(
        grade_attempt(4, 2, 4),
        Err("selected_index 4 is outside the 4 choices for this question".to_string())
    );
    assert_eq!(
        grade_attempt(-1, 2, 4),
        Err("selected_index -1 is outside the 4 choices for this question".to_string())
    );
}

#[test]
fn topic_prompt_states_the_json_contract() {
    let (system, user) = build_topic_prompt(3, "Định luật Newton");
    assert!(system.contains("exactly 3 objects"));
    assert!(system.contains("correct_index"));
    assert!(!system.contains("source_node_index"));
    assert!(user.contains("Định luật Newton"));
    assert_eq!(user, "Material:\n\nĐịnh luật Newton\n\nWrite 3 multiple-choice questions.");
}

#[test]
fn knowledge_store_prompt_numbers_nodes_and_demands_attribution() {
    let nodes = vec![
        KsNode {
            id: "11111111-1111-4111-8111-111111111111".into(),
            title: "Quán tính".into(),
            subject: "Vật lý".into(),
            summary: "Xu hướng giữ nguyên trạng thái chuyển động.".into(),
        },
        KsNode {
            id: "22222222-2222-4222-8222-222222222222".into(),
            title: "Lực tổng hợp".into(),
            subject: "Vật lý".into(),
            summary: "Hợp lực của mọi lực tác dụng lên vật.".into(),
        },
    ];
    let (system, user) = build_knowledge_store_prompt(2, &nodes);
    assert!(system.contains("source_node_index"));
    assert!(user.contains("[0] Quán tính"));
    assert!(user.contains("[1] Lực tổng hợp"));
}

#[test]
fn the_concept_listing_keeps_only_whole_nodes_within_budget() {
    let big = KsNode { id: "x".into(), title: "big".into(), subject: "s".into(), summary: "a".repeat(6000) };
    let small = KsNode { id: "y".into(), title: "small".into(), subject: "s".into(), summary: "b".into() };
    let (_, user) = build_knowledge_store_prompt(1, &vec![small.clone(), big, small]);
    assert_eq!(user, "Concepts studied:\n\n[0] small (s)\nb\n\nWrite 1 multiple-choice questions.");
}

#[test]
fn the_request_is_validated_before_any_call() {
    assert_eq!(question_count(0), Err("count must be >= 1".to_string()));
    assert_eq!(question_count(7), Ok(7));
    assert_eq!(question_count(500), Ok(20));
    assert_eq!(quiz_source(" Topic "), Ok(QuizSource::Topic));
    assert_eq!(quiz_source("KNOWLEDGE_STORE"), Ok(QuizSource::KnowledgeStore));
    assert_eq!(
        quiz_source("notes"),
        Err("invalid source 'notes': must be 'topic' or 'knowledge_store'".to_string())
    );
    assert_eq!(quiz_topic(Some("  Newton  ")), Ok("Newton".to_string()));
    assert_eq!(quiz_topic(None), Err("topic is required when source is 'topic'".to_string()));
    assert_eq!(quiz_topic(Some("x".repeat(8001).as_str())), Err("topic exceeds 8000 character limit".to_string()));
    assert_eq!(
        no_concepts_message(Some("Vật lý")),
        "the Knowledge Store has no concepts for subject 'Vật lý' yet — nothing to quiz on"
    );
}

#[test]
fn a_question_is_attributed_to_the_node_it_cites() {
    let nodes = vec![KsNode {
        id: "11111111-1111-4111-8111-111111111111".into(),
        title: "t".into(),
        subject: "s".into(),
        summary: "x".into(),
    }];
    let mut cited = q(0, &FOUR);
    cited.source_node_index = Some(0);
    assert_eq!(source_node_id(&cited, &nodes), Some(0x11111111_1111_4111_8111_111111111111));
    cited.source_node_index = Some(1);
    assert_eq!(source_node_id(&cited, &nodes), None);
}

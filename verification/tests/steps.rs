use mnemosyne::blurting::{blurting_call, blurting_cards, blurting_result, BlurtingAIResponse, CardRow, Verdict};
use mnemosyne::cards_from_node::{
    after_conflict, before_lookup, insert_refused, looked_up_node, node_card, node_card_call,
    node_card_reply, FromNodeStop, GeneratedCard,
};
use mnemosyne::chat::{reply_call as chat_reply_call, room_for_reply, start_call as chat_start_call, ChatMode};
use mnemosyne::cli::{token_line, user_for};
use mnemosyne::feynman::{evaluation, feynman_call, FeynmanAIResponse};
use mnemosyne::flow::{
    after_model, bad_request, cards_or, db_failure, found, present, server_error, single_turn,
    ModelCall, ModelReply,
};
use mnemosyne::generate::{generated_pairs, generation_call, plan_generation, GenerateCardsRequest, GeneratedQAPair};
use mnemosyne::ks::{KsError, KsNode};
use mnemosyne::llm::{LLMError, LLMResponse};
use mnemosyne::quiz::{
    nodes_call, plan_quiz, quiz_attribution, quiz_batch, quiz_insert_failed, topic_call,
    GenerateQuizRequest, GeneratedQuestion, QuizSource,
};
use mnemosyne::reviews::{checked_rating, continues_from_prior, Rating};
use mnemosyne::socratic::{reply_call, session_not_created, start_call, tutor_turn, MessageRow, SocraticAIResponse};
use mnemosyne::stats::review_totals;
use mnemosyne::weak::task_listing;

const SET: u128 = 0x090aaecf_d8a8_4ca9_9191_19075245ab84;

fn reply() -> ModelReply {
    ModelReply { user_id: 7, prompt_log: "[t]\n[system] s\n[user] u".into(), raw: "raw reply".into(), tokens: 321 }
}

fn node(id: &str) -> KsNode {
    KsNode { id: id.into(), title: "Định luật II Newton".into(), subject: "Vật lý".into(), summary: "F = m*a".into() }
}

fn quiz_req(count: u32, source: &str) -> GenerateQuizRequest {
    GenerateQuizRequest { study_set_id: SET, source: source.into(), topic: None, subject_filter: None, count }
}

#[test]
fn lookups_answer_404_and_500() {
    let f = found::<u128>("study set", SET, Ok(None), "database error looking up study set: ").unwrap_err();
    assert_eq!((f.status, f.message.as_str()), (404, "study set 090aaecf-d8a8-4ca9-9191-19075245ab84 not found"));
    let f = found::<u128>("study set", SET, Err("boom".into()), "database error looking up study set: ").unwrap_err();
    assert_eq!((f.status, f.message.as_str()), (500, "database error looking up study set: boom"));
    assert_eq!(found("study set", SET, Ok(Some(9u128)), "x").ok(), Some(9));
    assert!(present("card", SET, Ok(true), "x").is_ok());
    assert_eq!(present("card", SET, Ok(false), "x").unwrap_err().status, 404);
    assert_eq!(server_error::<u8>("db: ", Err("e".into())).unwrap_err().message, "db: e");
    assert_eq!(bad_request::<u8>(Err("bad".into())).unwrap_err().status, 400);
}

#[test]
fn a_set_without_cards_is_a_bad_request() {
    assert_eq!(cards_or(Ok(Some("ctx".into())), "none").ok(), Some("ctx".to_string()));
    let f = cards_or(Ok(None), "no cards").unwrap_err();
    assert_eq!((f.status, f.message.as_str()), (400, "no cards"));
    assert_eq!(cards_or(Err("db down".into()), "no cards").unwrap_err().status, 500);
}

#[test]
fn a_failed_model_call_is_recorded_with_its_cost() {
    let call = ModelCall { user_id: 7, prompt_log: "p".into() };
    let f = after_model(call, Err(LLMError::Truncated { finish_reason: "length".into(), total_tokens: 900 })).err().unwrap();
    assert_eq!(f.status, 502);
    let log = f.log.unwrap();
    assert_eq!((log.user_id, log.input.as_str(), log.tokens), (7, "p", 900));
    assert!(log.output.contains("length"));
    let call = ModelCall { user_id: 7, prompt_log: "p".into() };
    let f = after_model(call, Err(LLMError::Network("timeout".into()))).err().unwrap();
    assert_eq!(f.log.unwrap().tokens, 0);
    assert!(f.message.contains("timeout"));
}

#[test]
fn a_reply_is_carried_on_and_refusals_record_it() {
    let call = ModelCall { user_id: 7, prompt_log: "p".into() };
    let ok = LLMResponse { content: "{}".into(), total_tokens: 12, finish_reason: "stop".into() };
    let rep = after_model(call, Ok(ok)).ok().unwrap();
    assert_eq!((rep.raw.as_str(), rep.tokens), ("{}", 12));
    let f = rep.unparsable("expected value");
    assert_eq!((f.status, f.message.as_str()), (502, "DeepSeek returned non-JSON output, parse failed: expected value"));
    let l = f.log.unwrap();
    assert_eq!((l.output.as_str(), l.tokens), ("{}", 12));
    assert_eq!(rep.store_failed("failed to persist evaluation: ", "x").message, "failed to persist evaluation: x");
    let d = db_failure(Some("23505"), "dup");
    assert_eq!(d.status, 409);
}

#[test]
fn single_turn_calls_carry_both_prompts() {
    let (ms, call) = single_turn(3, "[tag]", "sys", "usr");
    assert_eq!((ms[0].role, ms[0].content.as_str(), ms[1].role, ms[1].content.as_str()), ("system", "sys", "user", "usr"));
    assert_eq!(call.prompt_log, "[tag]\n[system] sys\n[user] usr");
}

#[test]
fn quiz_plans_refuse_zero_and_unknown_sources() {
    assert_eq!(plan_quiz(&quiz_req(0, "topic")).err().unwrap().message, "count must be >= 1");
    assert_eq!(plan_quiz(&quiz_req(3, "web")).err().unwrap().message, "invalid source 'web': must be 'topic' or 'knowledge_store'");
    let (count, source) = plan_quiz(&quiz_req(50, " Knowledge_Store ")).ok().unwrap();
    assert_eq!((count, source), (20, QuizSource::KnowledgeStore));
}

#[test]
fn quiz_material_steps() {
    assert_eq!(topic_call(1, 3, Some("  ")).err().unwrap().status, 400);
    let (ms, call) = topic_call(1, 3, Some(" Newton ")).ok().unwrap();
    assert!(ms[1].content.contains("Newton"));
    assert!(call.prompt_log.starts_with("[source: topic]\n[system] "));

    assert_eq!(nodes_call(1, 3, None, None).err().unwrap().status, 503);
    let f = nodes_call(1, 3, None, Some(Err(KsError::Unreachable("refused".into())))).err().unwrap();
    assert_eq!(f.status, 502);
    assert!(f.message.starts_with("could not read concepts from the Knowledge Store: "));
    let f = nodes_call(1, 3, Some("Vật lý"), Some(Ok(vec![]))).err().unwrap();
    assert_eq!(f.message, "the Knowledge Store has no concepts for subject 'Vật lý' yet — nothing to quiz on");
    let many: Vec<KsNode> = (0..40).map(|_| node("5248a55b-ca35-4a33-8479-09d0ec0a6784")).collect();
    let (nodes, _, call) = nodes_call(1, 3, None, Some(Ok(many))).ok().unwrap();
    assert_eq!(nodes.len(), 30);
    assert!(call.prompt_log.starts_with("[source: knowledge_store]"));
}

#[test]
fn quiz_batches_and_attribution() {
    let q = GeneratedQuestion { question: "q".into(), choices: vec!["a".into(), "b".into()], correct_index: 0, source_node_index: Some(0) };
    assert_eq!(quiz_batch(&reply(), Ok(vec![q.clone()]), 1).ok().unwrap().len(), 1);
    let f = quiz_batch(&reply(), Ok(vec![]), 0).err().unwrap();
    assert!(f.message.starts_with("DeepSeek returned a malformed quiz. Batch rejected; nothing inserted: "));
    assert!(f.log.is_some());
    assert_eq!(quiz_batch(&reply(), Err("eof".into()), 0).err().unwrap().status, 502);

    let good = vec![node("5248a55b-ca35-4a33-8479-09d0ec0a6784")];
    let bad = vec![node("not-a-uuid")];
    assert!(quiz_attribution(&q, &good, QuizSource::KnowledgeStore).ok().unwrap().is_some());
    assert_eq!(quiz_attribution(&q, &bad, QuizSource::KnowledgeStore).err().unwrap().status, 502);
    assert_eq!(quiz_attribution(&q, &bad, QuizSource::Topic).ok().unwrap(), None);
    let f = quiz_insert_failed(&reply(), 2, 5, "boom");
    assert_eq!((f.status, f.message.as_str()), (500, "quiz question insertion failed after 2 of 5 inserted: boom"));
}

#[test]
fn generation_steps() {
    let req = |n: Option<u32>, text: &str| GenerateCardsRequest { source_text: text.into(), num_questions: n, question_style: "recall".into() };
    assert_eq!(plan_generation(&req(Some(0), "x")).err().unwrap().message, "num_questions must be >= 1");
    assert_eq!(plan_generation(&req(None, " ")).err().unwrap().message, "source_text must not be empty");
    assert_eq!(plan_generation(&req(Some(99), " text ")).ok().unwrap(), (10, "text".to_string()));
    assert_eq!(generation_call(1, "deep", 3, "x").err().unwrap().status, 400);
    let (_, call) = generation_call(1, "Elaboration", 3, "x").ok().unwrap();
    assert!(call.prompt_log.starts_with("[style: elaboration]"));
    let bad = GeneratedQAPair { question: "q".into(), answer: "".into() };
    let f = generated_pairs(&reply(), Ok(vec![bad])).err().unwrap();
    assert!(f.message.contains("index 0"));
}

#[test]
fn feynman_steps() {
    let (ms, call) = feynman_call(4, "Q: a\nA: b", "vì lực");
    assert!(ms[1].content.contains("vì lực"));
    assert!(call.prompt_log.starts_with("[feynman:evaluate]"));
    let r = FeynmanAIResponse { clarity_score: 11, completeness_score: 5, correctness_score: 5, feedback: "f".into(), suggestions: "s".into() };
    let f = evaluation(&reply(), Ok(r)).err().unwrap();
    assert!(f.message.contains("clarity_score=11"));
    assert!(f.log.is_some());
}

#[test]
fn from_node_steps() {
    match before_lookup(SET, None) {
        Err(FromNodeStop::Failed(f)) => assert_eq!(f.status, 503),
        _ => panic!("expected 503"),
    }
    match before_lookup(SET, Some(Ok(Some(42)))) {
        Err(FromNodeStop::Conflict { existing_card_id, message }) => {
            assert_eq!(existing_card_id, 42);
            assert!(message.contains("090aaecf-d8a8-4ca9-9191-19075245ab84"));
        }
        _ => panic!("expected a conflict"),
    }
    let cleared = || match before_lookup(SET, Some(Ok(None))) {
        Ok(c) => c,
        Err(_) => panic!("a set with no card for the node is cleared"),
    };
    let f = looked_up_node(cleared(), Ok(None)).err().unwrap();
    assert_eq!(f.status, 404);
    assert!(f.message.contains("090aaecf-d8a8-4ca9-9191-19075245ab84"));
    let f = looked_up_node(cleared(), Err(KsError::Parse("bad".into()))).err().unwrap();
    assert_eq!((f.status, f.reason), (502, Some("knowledge_store_error")));
    let (_, call) = node_card_call(1, &node("abc"));
    assert!(call.prompt_log.starts_with("[card_from_node: abc]"));
    let call = ModelCall { user_id: 1, prompt_log: "p".into() };
    let f = node_card_reply(call, Err(LLMError::Truncated { finish_reason: "length".into(), total_tokens: 5 })).err().unwrap();
    assert_eq!(f.reason, Some("truncated"));
    let f = node_card(&reply(), Ok(GeneratedCard { question: "q".into(), answer: " ".into() })).err().unwrap();
    assert_eq!((f.message.as_str(), f.reason), ("DeepSeek returned an unusable card; nothing inserted: model returned an empty answer", Some("provider_error")));
    assert_eq!(insert_refused(&reply(), Some("23503"), "fk").status, 400);
    match after_conflict(SET, Ok(None)) {
        FromNodeStop::Failed(f) => assert_eq!(f.message, "insert reported a conflict but no existing card could be found"),
        _ => panic!("expected a failure"),
    }
}

#[test]
fn socratic_steps() {
    assert_eq!(session_not_created(Some("23503"), "fk").status, 400);
    assert_eq!(session_not_created(None, "x").message, "database error: x");
    let (ms, call) = start_call(2, "Q: a\nA: b\n\n");
    assert_eq!(ms[1].content, "Begin the session. Ask ONE opening question.");
    assert!(call.prompt_log.ends_with("\n[user] Begin the session."));
    let rows = vec![MessageRow { role: "user".into(), content: "hi".into(), flagged_misconception: None }];
    let (ms, call) = reply_call(2, "ctx", &rows);
    assert_eq!((ms.len(), ms[1].role, ms[1].content.as_str()), (2, "user", "hi"));
    assert!(call.prompt_log.ends_with("[1 messages in context window]"));
    let ok = tutor_turn(&reply(), Ok(SocraticAIResponse { reply: "r".into(), flagged_misconception: None }));
    assert_eq!(ok.ok().unwrap().reply, "r");
}

#[test]
fn blurting_steps() {
    assert_eq!(blurting_cards(Ok(vec![])).err().unwrap().status, 400);
    assert_eq!(blurting_cards(Err("x".into())).err().unwrap().message, "database error fetching cards: x");
    let cards = vec![CardRow { id: 1, question: "q".into(), answer: "a".into() }];
    let (n, ms, call) = blurting_call(3, &cards, "tôi nhớ");
    assert_eq!(n, 1);
    assert!(ms[0].content.contains("[c1]"));
    assert!(call.prompt_log.starts_with("[blurting:evaluate]"));
    let f = blurting_result(Err("eof".into()), 1).err().unwrap();
    assert!(f.log.is_none());
    let p = BlurtingAIResponse { remembered: vec!["c1".into()], wrong: vec![], feedback: "ok".into() };
    let (_, vs, dropped) = blurting_result(Ok(p), 1).ok().unwrap();
    assert_eq!(vs[0].0, Verdict::Remembered);
    assert!(dropped.is_empty());
}

#[test]
fn chat_steps() {
    let (ms, call) = chat_start_call(1, ChatMode::Solve, None, "x + 1 = 2");
    assert_eq!(ms.len(), 2);
    assert_eq!(call.prompt_log, "[chat:Solve:start] x + 1 = 2");
    let rows = vec![("user".to_string(), "a".to_string()), ("assistant".to_string(), "b".to_string())];
    let (ms, call) = chat_reply_call(1, ChatMode::Ask, None, &rows, "a");
    assert_eq!((ms.len(), ms[2].role), (3, "assistant"));
    assert_eq!(call.prompt_log, "[chat:Ask:reply] a");
    assert!(room_for_reply(Err("x".into())).is_ok());
    assert_eq!(room_for_reply(Ok(80)).err().unwrap().status, 400);
}

#[test]
fn review_and_stats_steps() {
    assert_eq!(checked_rating("GOOD").ok(), Some(Rating::Good));
    assert_eq!(checked_rating("meh").err().unwrap().message, "invalid rating 'meh': must be one of again, hard, good, easy");
    assert!(continues_from_prior(true, true, true));
    assert!(!continues_from_prior(true, false, true));
    assert_eq!(review_totals(&vec![(3, 2), (5, 5)]), (8, 7));
    assert_eq!(review_totals(&vec![]), (0, 0));
}

#[test]
fn weak_listing_follows_the_rows() {
    let task_of_card = vec![10u128, 20, 10];
    let card_ids = vec![1u128, 2, 3];
    let recent = vec![(1u128, false), (1, false), (1, true), (1, true), (1, true), (3, true)];
    let l = task_listing(10, &task_of_card, &card_ids, &recent);
    assert_eq!(l.cards.iter().map(|c| c.0).collect::<Vec<_>>(), vec![0, 2]);
    assert!(l.cards[0].1.still_weak);
    assert_eq!(l.cards[1].1.recent_reviews, 1);
    assert_eq!(l.still_weak_count, 1);
}

#[test]
fn operator_lookups_and_lines() {
    assert_eq!(user_for("a@b.c", Ok(None)), Err("no user with email a@b.c".to_string()));
    assert_eq!(user_for("a@b.c", Err("x".into())), Err("database error: x".to_string()));
    assert_eq!(
        token_line(SET, "laptop", "2026-01-01T00:00:00+00:00", "never used"),
        "090aaecf-d8a8-4ca9-9191-19075245ab84  laptop               created 2026-01-01T00:00:00+00:00  last used never used"
    );
}

#[test]
fn another_learners_set_answers_as_a_missing_one() {
    let caller: u128 = 7;
    assert!(mnemosyne::flow::owned_set(SET, caller, Ok(Some(caller)), "db: ").is_ok());
    let foreign = mnemosyne::flow::owned_set(SET, caller, Ok(Some(8)), "db: ").err().unwrap();
    let missing = mnemosyne::flow::owned_set(SET, caller, Ok(None), "db: ").err().unwrap();
    assert_eq!((foreign.status, foreign.message.as_str()), (404, "study set 090aaecf-d8a8-4ca9-9191-19075245ab84 not found"));
    assert_eq!((missing.status, missing.message), (foreign.status, foreign.message));
    let failed = mnemosyne::flow::owned_set(SET, caller, Err("down".into()), "db: ").err().unwrap();
    assert_eq!((failed.status, failed.message.as_str()), (500, "db: down"));
    let row = mnemosyne::flow::owned("conversation", SET, caller, Ok(Some((caller, "row"))), "db: ");
    assert_eq!(row.ok(), Some("row"));
    let other = mnemosyne::flow::owned("conversation", SET, caller, Ok(Some((9, "row"))), "db: ").err().unwrap();
    assert_eq!((other.status, other.message.as_str()), (404, "conversation 090aaecf-d8a8-4ca9-9191-19075245ab84 not found"));
}

//! The Socratic tutor: it asks guiding questions rather than giving answers.
//! This module holds what the endpoints decide: the system prompt and the
//! card context it carries, how a conversation is replayed to the model,
//! the turn limit, and what closing a session does with its transcript.
use vstd::prelude::*;
use crate::ids::{hyphenated, uuid_string};
use crate::auth::hex_lower_digit;
use crate::ks::{ks_error_text, KsError, SaveTranscriptOutcome, TranscriptTurn};
use crate::flow::{recorded, refuse, Failure, ModelCall, ModelReply};
use crate::llm::{as_pairs, LLMMessage};
use crate::prompt::{fit_entries, fitted, prompt_log, prompt_log_text, views};
use crate::text::{decimal, own, push_decimal, str_eq};

verus! {

/// Byte budget for the cards in the system prompt.
pub const MAX_CARD_CONTEXT_CHARS: usize = 6000;

/// Messages a session may hold: 20 turns each way.
pub const TURN_CAP: i64 = 40;

/// How many of the most recent messages are replayed to the model.
pub const CONTEXT_WINDOW: usize = 20;

/// `POST /socratic/start`. Study sets are identified by their UUID's value.
pub struct StartRequest {
    pub study_set_id: u128,
}

/// `POST /socratic/{id}/reply`.
pub struct ReplyRequest {
    pub message: String,
}

pub struct ReplyResponse {
    pub reply: String,
    pub flagged_misconception: Option<String>,
}

/// `GET /socratic`.
pub struct SocraticListQuery {
    pub limit: Option<i64>,
}

/// What happened to the transcript when a session was closed. None of
/// these makes closing fail: the session is the real work, the hand-off is
/// bookkeeping beside it.
#[derive(Debug, PartialEq, Eq)]
pub enum KsSyncStatus {
    /// Stored (or already stored under this session's reference).
    Saved { transcript_id: String },
    /// No store is configured.
    Disabled,
    /// The session had nothing to transcribe.
    NothingToSend,
    /// The store answered but its database is down.
    KsDbUnavailable { error: String },
    /// The store could not be talked to.
    Failed { error: String },
}

/// The model's answer.
pub struct SocraticAIResponse {
    pub reply: String,
    pub flagged_misconception: Option<String>,
}

pub open spec fn system_prompt_text(card_context: Seq<char>) -> Seq<char> {
    "You are a Socratic tutor. Your goal is to help the student understand the material through guided questioning — NOT by giving direct answers.\n\nRules:\n1. Ask probing, guiding questions that lead the student to discover the answer themselves.\n2. If the student's answer is correct, affirm it briefly and move to a deeper or related question.\n3. If the student's answer contains a misconception, ask a question that will help them see the error — do NOT simply state the correction.\n4. If the student's answer does not address the question you actually asked (off-topic, or answers a different question entirely), you MUST explicitly say so in your reply, then restate the original question in your own words and ask the student to answer THAT question. Do NOT engage with, build on, or ask follow-up questions about the off-topic content. Do NOT praise or affirm the off-topic answer. This rule takes priority over rule 5 when the student's answer is off-topic.\n5. Build on what the student says about the current question — refer to their previous answers when they are relevant to the question at hand. This does NOT mean following whatever topic the student introduces; if they switch topics, apply rule 4 instead.\n6. Do NOT lecture or give long explanations. Your messages should be concise: ideally 1-4 sentences plus a question.\n7. Write in English.\n\nThe material this session covers:\n"@
        + card_context
        + "\n\nRespond with ONLY valid JSON: {\"reply\": string, \"flagged_misconception\": string | null}. The `reply` field is your message to the student. The `flagged_misconception` field is a short description of any misconception you detected in the student's last message, or null if the answer was correct or if this is the opening question. This JSON-only requirement ALWAYS applies, even if the student's message is off-topic, nonsensical, hostile, or clearly wrong. No prose, no markdown fences, no commentary outside the JSON."@
}

pub fn build_system_prompt(card_context: &str) -> (s: String)
    ensures
        s@ == system_prompt_text(card_context@),
{
    let mut s = String::new();
    s.push_str(
        "You are a Socratic tutor. Your goal is to help the student understand the material through guided questioning — NOT by giving direct answers.\n\nRules:\n1. Ask probing, guiding questions that lead the student to discover the answer themselves.\n2. If the student's answer is correct, affirm it briefly and move to a deeper or related question.\n3. If the student's answer contains a misconception, ask a question that will help them see the error — do NOT simply state the correction.\n4. If the student's answer does not address the question you actually asked (off-topic, or answers a different question entirely), you MUST explicitly say so in your reply, then restate the original question in your own words and ask the student to answer THAT question. Do NOT engage with, build on, or ask follow-up questions about the off-topic content. Do NOT praise or affirm the off-topic answer. This rule takes priority over rule 5 when the student's answer is off-topic.\n5. Build on what the student says about the current question — refer to their previous answers when they are relevant to the question at hand. This does NOT mean following whatever topic the student introduces; if they switch topics, apply rule 4 instead.\n6. Do NOT lecture or give long explanations. Your messages should be concise: ideally 1-4 sentences plus a question.\n7. Write in English.\n\nThe material this session covers:\n",
    );
    s.push_str(card_context);
    s.push_str(
        "\n\nRespond with ONLY valid JSON: {\"reply\": string, \"flagged_misconception\": string | null}. The `reply` field is your message to the student. The `flagged_misconception` field is a short description of any misconception you detected in the student's last message, or null if the answer was correct or if this is the opening question. This JSON-only requirement ALWAYS applies, even if the student's message is off-topic, nonsensical, hostile, or clearly wrong. No prose, no markdown fences, no commentary outside the JSON.",
    );
    proof {
        assert(s@ =~= system_prompt_text(card_context@));
    }
    s
}

pub open spec fn card_entry(question: Seq<char>, answer: Seq<char>) -> Seq<char> {
    "Q: "@ + question + "\nA: "@ + answer + "\n\n"@
}

pub open spec fn card_entries(cards: Seq<(String, String)>) -> Seq<Seq<char>> {
    Seq::new(cards.len(), |i: int| card_entry(cards[i].0@, cards[i].1@))
}

/// A set's cards (question, answer) as the material of a session: whole
/// cards, in order, within `MAX_CARD_CONTEXT_CHARS` bytes; none for a set
/// with no cards.
pub fn card_context(cards: &Vec<(String, String)>) -> (r: Option<String>)
    ensures
        cards@.len() == 0 ==> r is None,
        cards@.len() > 0 ==> (r matches Some(c) && c@ == fitted(card_entries(cards@), 6000).1),
{
    if cards.len() == 0 {
        return None;
    }
    let mut entries: Vec<String> = Vec::new();
    let mut i: usize = 0;
    while i < cards.len()
        invariant
            i <= cards@.len(),
            entries@.len() == i,
            forall|k: int| 0 <= k < i ==> (#[trigger] entries@[k])@ == card_entry(cards@[k].0@, cards@[k].1@),
        decreases cards@.len() - i,
    {
        let mut e = String::new();
        e.push_str("Q: ");
        e.push_str(cards[i].0.as_str());
        e.push_str("\nA: ");
        e.push_str(cards[i].1.as_str());
        e.push_str("\n\n");
        proof {
            assert(e@ =~= card_entry(cards@[i as int].0@, cards@[i as int].1@));
        }
        entries.push(e);
        i = i + 1;
    }
    proof {
        assert(views(entries@) =~= card_entries(cards@));
    }
    let (_, ctx) = fit_entries(&entries, MAX_CARD_CONTEXT_CHARS);
    Some(ctx)
}

pub const NO_CARDS_AT_START: &'static str = "study set has no cards — nothing to discuss yet, generate some cards first";

pub const NO_CARDS_ANY_MORE: &'static str = "study set no longer has cards — session cannot continue";

/// The instruction that opens a session.
pub const OPENING_INSTRUCTION: &'static str = "Begin the session. Ask ONE opening question.";

/// What opening a session is logged under.
pub fn start_log(system: &str) -> (s: String)
    ensures
        s@ == prompt_log_text("[socratic:start]"@, system@, "Begin the session."@),
{
    prompt_log("[socratic:start]", system, "Begin the session.")
}

/// What a reply is logged under: the prompt and how many messages were
/// replayed.
pub fn reply_log(system: &str, replayed: usize) -> (s: String)
    ensures
        s@ == "[socratic:reply]\n[system] "@ + system@ + "\n["@ + decimal(replayed as nat)
            + " messages in context window]"@,
{
    let mut s = String::new();
    s.push_str("[socratic:reply]\n[system] ");
    s.push_str(system);
    s.push_str("\n[");
    push_decimal(&mut s, replayed as u64);
    s.push_str(" messages in context window]");
    proof {
        assert(s@ =~= "[socratic:reply]\n[system] "@ + system@ + "\n["@ + decimal(replayed as nat)
            + " messages in context window]"@);
    }
    s
}

/// Whether a session holding `count` messages may take another reply.
pub fn check_turns(count: i64) -> (r: Result<(), String>)
    ensures
        count >= 40 ==> (r matches Err(m) && m@ == "session has reached its turn limit"@),
        count < 40 ==> r is Ok,
{
    if count >= TURN_CAP {
        Err(own("session has reached its turn limit"))
    } else {
        Ok(())
    }
}

/// How serde_json writes one character inside a JSON string: the quote, the
/// backslash and the control characters below U+0020 are escaped (by their
/// short form where JSON has one, else as `\u00` and two lower-case hex
/// digits); every other character stands for itself.
pub open spec fn json_escape(c: char) -> Seq<char> {
    if c == '"' {
        seq!['\\', '"']
    } else if c == '\\' {
        seq!['\\', '\\']
    } else if c == '\x08' {
        seq!['\\', 'b']
    } else if c == '\t' {
        seq!['\\', 't']
    } else if c == '\n' {
        seq!['\\', 'n']
    } else if c == '\x0c' {
        seq!['\\', 'f']
    } else if c == '\r' {
        seq!['\\', 'r']
    } else if (c as u32) < 0x20 {
        seq!['\\', 'u', '0', '0', hex_lower_digit(((c as u32) / 16) as u8), hex_lower_digit(((c as u32) % 16) as u8)]
    } else {
        seq![c]
    }
}

/// Every character of `s`, escaped.
pub open spec fn json_escaped(s: Seq<char>) -> Seq<char>
    decreases s.len(),
{
    if s.len() == 0 {
        Seq::empty()
    } else {
        json_escaped(s.drop_last()) + json_escape(s.last())
    }
}

/// The JSON string literal serde_json writes for `s`.
pub open spec fn json_quoted(s: Seq<char>) -> Seq<char> {
    seq!['"'] + json_escaped(s) + seq!['"']
}

/// `serde_json::to_string` of a string: the string as a JSON string
/// literal, quoted and escaped. Serializing a string cannot fail.
#[verifier::external_body]
fn json_string(s: &str) -> (r: String)
    ensures
        r@ == json_quoted(s@),
{
    match serde_json::to_string(s) {
        Ok(j) => j,
        Err(_) => String::new(),
    }
}

/// An earlier answer of the tutor as it is replayed: the JSON object it was
/// asked to produce, with the reply and the flagged misconception (or
/// `null`), so the model keeps seeing its own format.
pub open spec fn replayed_answer(content: Seq<char>, flagged: Option<Seq<char>>) -> Seq<char> {
    "{\"reply\":"@ + json_quoted(content) + ",\"flagged_misconception\":"@ + match flagged {
        Some(f) => json_quoted(f),
        None => "null"@,
    } + "}"@
}

pub fn format_assistant_history_message(content: &str, flagged_misconception: Option<&str>) -> (s:
    String)
    ensures
        s@ == replayed_answer(
            content@,
            match flagged_misconception {
                Some(f) => Some(f@),
                None => None,
            },
        ),
{
    let mut s = String::new();
    s.push_str("{\"reply\":");
    let c = json_string(content);
    s.push_str(c.as_str());
    s.push_str(",\"flagged_misconception\":");
    match flagged_misconception {
        Some(f) => {
            let j = json_string(f);
            s.push_str(j.as_str());
        },
        None => s.push_str("null"),
    }
    s.push_str("}");
    proof {
        assert(s@ =~= replayed_answer(
            content@,
            match flagged_misconception {
                Some(f) => Some(f@),
                None => None,
            },
        ));
    }
    s
}

/// A stored message: role, content, and the misconception flagged on it.
pub struct MessageRow {
    pub role: String,
    pub content: String,
    pub flagged_misconception: Option<String>,
}

pub open spec fn window_start(n: nat) -> nat {
    if n > 20 {
        (n - 20) as nat
    } else {
        0
    }
}

pub open spec fn replayed(m: MessageRow) -> Option<(Seq<char>, Seq<char>)> {
    if m.role@ == "user"@ {
        Some(("user"@, m.content@))
    } else if m.role@ == "assistant"@ {
        Some((
            "assistant"@,
            replayed_answer(
                m.content@,
                match m.flagged_misconception {
                    Some(f) => Some(f@),
                    None => None,
                },
            ),
        ))
    } else {
        None
    }
}

/// The messages from `from` on, as (role, content) for the model; rows of
/// any other role are skipped.
pub open spec fn replay_from(rows: Seq<MessageRow>, from: int) -> Seq<(Seq<char>, Seq<char>)>
    decreases rows.len() - from,
{
    if from < 0 || from >= rows.len() {
        Seq::empty()
    } else {
        match replayed(rows[from]) {
            Some(p) => seq![p] + replay_from(rows, from + 1),
            None => replay_from(rows, from + 1),
        }
    }
}


proof fn lemma_replay_step(rows: Seq<MessageRow>, i: int)
    requires
        0 <= i < rows.len(),
    ensures
        replay_from(rows, i) == (match replayed(rows[i]) {
            Some(p) => seq![p] + replay_from(rows, i + 1),
            None => replay_from(rows, i + 1),
        }),
{
}

/// The replayed window is the most recent `CONTEXT_WINDOW` messages: all of
/// them when there are no more than that, else exactly that many, ending
/// with the newest.
pub proof fn law_window_is_the_newest_messages(n: nat)
    ensures
        window_start(n) <= n,
        n - window_start(n) == if n <= CONTEXT_WINDOW { n } else { CONTEXT_WINDOW as nat },
{
}

/// Each replayed row reaches the model whole: a learner message as it was
/// written, and a tutor answer as the JSON object the tutor was asked to
/// produce, carrying the answer's text and the misconception stored with it
/// (`null` only when none was flagged).
pub proof fn law_replay_keeps_each_row(rows: Seq<MessageRow>, i: int)
    requires
        0 <= i < rows.len(),
    ensures
        rows[i].role@ == "assistant"@ ==> replay_from(rows, i).len() > 0 && replay_from(rows, i)[0] == (
            "assistant"@,
            "{\"reply\":"@ + json_quoted(rows[i].content@) + ",\"flagged_misconception\":"@ + match rows[i].flagged_misconception {
                Some(f) => json_quoted(f@),
                None => "null"@,
            } + "}"@,
        ),
        rows[i].role@ == "user"@ ==> replay_from(rows, i).len() > 0 && replay_from(rows, i)[0] == (
            "user"@,
            rows[i].content@,
        ),
{
    reveal_strlit("user");
    reveal_strlit("assistant");
    lemma_replay_step(rows, i);
    if rows[i].role@ == "assistant"@ {
        assert("user"@ != "assistant"@) by {
            assert("user"@.len() != "assistant"@.len());
        }
    }
}

/// The conversation as the model sees it: the last `CONTEXT_WINDOW` stored
/// messages (whose count the log reports), learner messages as they were,
/// the tutor's in its JSON format.
pub fn replay_window(rows: &Vec<MessageRow>) -> (r: (usize, Vec<LLMMessage>))
    ensures
        r.0 == rows@.len() - window_start(rows@.len()),
        as_pairs(r.1@) == replay_from(rows@, window_start(rows@.len()) as int),
{
    let start: usize = if rows.len() > CONTEXT_WINDOW {
        rows.len() - CONTEXT_WINDOW
    } else {
        0
    };
    let mut out: Vec<LLMMessage> = Vec::new();
    let mut i: usize = start;
    proof {
        reveal_strlit("user");
        reveal_strlit("assistant");
    }
    while i < rows.len()
        invariant
            start <= i <= rows@.len(),
            as_pairs(out@) + replay_from(rows@, i as int) == replay_from(rows@, start as int),
        decreases rows@.len() - i,
    {
        let m = &rows[i];
        let ghost before = out@;
        proof {
            lemma_replay_step(rows@, i as int);
        }
        if str_eq(m.role.as_str(), "user") {
            out.push(LLMMessage::user(m.content.as_str()));
            proof {
                assert(as_pairs(out@) =~= as_pairs(before).push(("user"@, m.content@)));
                assert(as_pairs(out@) + replay_from(rows@, i + 1) =~= as_pairs(before)
                    + replay_from(rows@, i as int));
            }
        } else if str_eq(m.role.as_str(), "assistant") {
            let flagged = match &m.flagged_misconception {
                Some(f) => Some(f.as_str()),
                None => None,
            };
            let text = format_assistant_history_message(m.content.as_str(), flagged);
            out.push(LLMMessage::assistant(text.as_str()));
            proof {
                assert(as_pairs(out@) =~= as_pairs(before).push(replayed(rows@[i as int])->0));
                assert(as_pairs(out@) + replay_from(rows@, i + 1) =~= as_pairs(before)
                    + replay_from(rows@, i as int));
            }
        } else {
            proof {
                assert(replayed(rows@[i as int]) is None);
            }
        }
        i = i + 1;
    }
    proof {
        assert(as_pairs(out@) =~= as_pairs(out@) + replay_from(rows@, i as int));
    }
    (rows.len() - start, out)
}

/// The store's idempotency key for a session: derived from the session id,
/// so a retry re-sends the same key.
pub fn session_ref_for(session_id: u128) -> (s: String)
    ensures
        s@ == "mnemosyne-session-"@ + hyphenated(session_id),
{
    let mut s = String::new();
    s.push_str("mnemosyne-session-");
    let id = uuid_string(session_id);
    s.push_str(id.as_str());
    proof {
        assert(s@ =~= "mnemosyne-session-"@ + hyphenated(session_id));
    }
    s
}

/// The turn a stored message becomes in the transcript, if any.
pub open spec fn turn_of(role: Seq<char>, content: Seq<char>) -> Option<(Seq<char>, Seq<char>)> {
    if role == "assistant"@ {
        Some(("coach"@, content))
    } else if role == "user"@ {
        Some(("learner"@, content))
    } else {
        None
    }
}

pub open spec fn turns_from(messages: Seq<(String, String)>, upto: int) -> Seq<(Seq<char>, Seq<char>)>
    decreases upto,
{
    if upto <= 0 {
        Seq::empty()
    } else {
        turns_from(messages, upto - 1) + match turn_of(messages[upto - 1].0@, messages[upto - 1].1@) {
            Some(t) => seq![t],
            None => Seq::empty(),
        }
    }
}

pub open spec fn turn_pairs(ts: Seq<TranscriptTurn>) -> Seq<(Seq<char>, Seq<char>)> {
    ts.map_values(|t: TranscriptTurn| (t.role@, t.content@))
}

/// A session's messages (role, content) as transcript turns, in order:
/// the tutor as coach, the student as learner; any other role is dropped.
pub fn transcript_turns(messages: &Vec<(String, String)>) -> (out: Vec<TranscriptTurn>)
    ensures
        turn_pairs(out@) == turns_from(messages@, messages@.len() as int),
{
    let mut out: Vec<TranscriptTurn> = Vec::new();
    let mut i: usize = 0;
    proof {
        reveal_strlit("assistant");
        reveal_strlit("user");
        assert("assistant"@.len() != "user"@.len());
    }
    while i < messages.len()
        invariant
            i <= messages@.len(),
            turn_pairs(out@) == turns_from(messages@, i as int),
        decreases messages@.len() - i,
    {
        let ghost before = out@;
        let t = TranscriptTurn::from_socratic_role(messages[i].0.as_str(), messages[i].1.as_str());
        match t {
            Some(turn) => {
                out.push(turn);
                proof {
                    assert(turn_pairs(out@) =~= turn_pairs(before).push(
                        turn_of(messages@[i as int].0@, messages@[i as int].1@)->0,
                    ));
                }
            },
            None => {},
        }
        proof {
            assert(turn_pairs(out@) =~= turns_from(messages@, i + 1));
        }
        i = i + 1;
    }
    out
}

/// The hand-off's status when no call is made: the store is not
/// configured, or there is nothing to send. `None` means the transcript is
/// to be sent.
pub fn sync_without_call(configured: bool, turn_count: usize) -> (r: Option<KsSyncStatus>)
    ensures
        !configured ==> r == Some(KsSyncStatus::Disabled),
        configured && turn_count == 0 ==> r == Some(KsSyncStatus::NothingToSend),
        configured && turn_count > 0 ==> r is None,
{
    if !configured {
        Some(KsSyncStatus::Disabled)
    } else if turn_count == 0 {
        Some(KsSyncStatus::NothingToSend)
    } else {
        None
    }
}

/// The hand-off's status from what the store said: its two delivered
/// outcomes stay distinct from a failure to talk to it.
pub fn sync_status(result: Result<SaveTranscriptOutcome, KsError>) -> (s: KsSyncStatus)
    ensures
        result matches Ok(SaveTranscriptOutcome::Saved { transcript_id }) ==> s == (KsSyncStatus::Saved { transcript_id }),
        result matches Ok(SaveTranscriptOutcome::KsDbUnavailable { error }) ==> s == (KsSyncStatus::KsDbUnavailable { error }),
        result matches Err(e) ==> (s matches KsSyncStatus::Failed { error } && error@ == ks_error_text(e)),
{
    match result {
        Ok(SaveTranscriptOutcome::Saved { transcript_id }) => KsSyncStatus::Saved { transcript_id },
        Ok(SaveTranscriptOutcome::KsDbUnavailable { error }) => KsSyncStatus::KsDbUnavailable { error },
        Err(e) => KsSyncStatus::Failed { error: e.message() },
    }
}

// ---------------------------------------------------------------------------
// Starting and replying, step by step
// ---------------------------------------------------------------------------

/// Creating the session failed: a learner that does not exist (a
/// foreign-key violation) is a `400`, anything else a `500`.
pub fn session_not_created(code: Option<&str>, rendered: &str) -> (f: Failure)
    ensures
        code matches Some(c) && c@ == "23503"@ ==> f.status == 400 && f.message@
            == "user_id does not exist (foreign key violation)"@,
        !(code matches Some(c) && c@ == "23503"@) ==> f.status == 500 && f.message@
            == "database error: "@ + rendered@,
        f.reason is None,
        f.log is None,
{
    proof {
        reveal_strlit("23503");
    }
    let foreign = match code {
        Some(c) => str_eq(c, "23503"),
        None => false,
    };
    if foreign {
        refuse(400, own("user_id does not exist (foreign key violation)"))
    } else {
        let mut m = own("database error: ");
        m.push_str(rendered);
        proof {
            assert(m@ =~= "database error: "@ + rendered@);
        }
        refuse(500, m)
    }
}

/// The call that opens a session: the system prompt over the set's cards
/// and the opening instruction, recorded as a start.
pub fn start_call(user_id: u128, card_context: &str) -> (r: (Vec<LLMMessage>, ModelCall))
    ensures
        as_pairs(r.0@) == seq![
            ("system"@, system_prompt_text(card_context@)),
            ("user"@, "Begin the session. Ask ONE opening question."@),
        ],
        r.1.user_id == user_id,
        r.1.prompt_log@ == prompt_log_text(
            "[socratic:start]"@,
            system_prompt_text(card_context@),
            "Begin the session."@,
        ),
{
    let system = build_system_prompt(card_context);
    let mut ms: Vec<LLMMessage> = Vec::new();
    ms.push(LLMMessage::system(system.as_str()));
    ms.push(LLMMessage::user(OPENING_INSTRUCTION));
    proof {
        reveal_strlit("Begin the session. Ask ONE opening question.");
        assert(as_pairs(ms@) =~= seq![
            ("system"@, system_prompt_text(card_context@)),
            ("user"@, "Begin the session. Ask ONE opening question."@),
        ]);
    }
    let log = start_log(system.as_str());
    (ms, ModelCall { user_id, prompt_log: log })
}

/// The call that answers the learner: the system prompt, then the last
/// `CONTEXT_WINDOW` stored messages as they are replayed, recorded with how
/// many were replayed.
pub fn reply_call(user_id: u128, card_context: &str, rows: &Vec<MessageRow>) -> (r: (
    Vec<LLMMessage>,
    ModelCall,
))
    ensures
        as_pairs(r.0@) == seq![("system"@, system_prompt_text(card_context@))] + replay_from(
            rows@,
            window_start(rows@.len()) as int,
        ),
        r.1.user_id == user_id,
        r.1.prompt_log@ == "[socratic:reply]\n[system] "@ + system_prompt_text(card_context@)
            + "\n["@ + decimal((rows@.len() - window_start(rows@.len())) as nat)
            + " messages in context window]"@,
{
    let system = build_system_prompt(card_context);
    let (replayed_count, replayed) = replay_window(rows);
    let mut ms: Vec<LLMMessage> = Vec::new();
    ms.push(LLMMessage::system(system.as_str()));
    let mut i: usize = 0;
    while i < replayed.len()
        invariant
            i <= replayed@.len(),
            as_pairs(ms@) == seq![("system"@, system_prompt_text(card_context@))] + as_pairs(
                replayed@.take(i as int),
            ),
        decreases replayed@.len() - i,
    {
        let m = &replayed[i];
        let ghost before = ms@;
        let c = m.content.clone();
        assert(c@ == m.content@);
        ms.push(LLMMessage { role: m.role, content: c });
        proof {
            assert(as_pairs(ms@) =~= as_pairs(before).push((m.role@, m.content@)));
            assert(replayed@.take(i + 1) =~= replayed@.take(i as int).push(replayed@[i as int]));
            assert(as_pairs(replayed@.take(i + 1)) =~= as_pairs(replayed@.take(i as int)).push(
                (replayed@[i as int].role@, replayed@[i as int].content@),
            ));
            assert(as_pairs(ms@) =~= seq![("system"@, system_prompt_text(card_context@))]
                + as_pairs(replayed@.take(i + 1)));
        }
        i = i + 1;
    }
    proof {
        assert(replayed@.take(replayed@.len() as int) =~= replayed@);
    }
    let log = reply_log(system.as_str(), replayed_count);
    (ms, ModelCall { user_id, prompt_log: log })
}

/// The tutor's turn the reply holds: a reply that did not parse is a `502`
/// after recording the call.
pub fn tutor_turn(reply: &ModelReply, parsed: Result<SocraticAIResponse, String>) -> (r: Result<
    SocraticAIResponse,
    Failure,
>)
    ensures
        parsed matches Ok(p) ==> r == Ok::<SocraticAIResponse, Failure>(p),
        parsed matches Err(e) ==> (r matches Err(f) && f.status == 502 && f.message@
            == "DeepSeek returned non-JSON output, parse failed: "@ + e@ && f.reason is None && (
        f.log matches Some(l) && recorded(*reply, l))),
{
    match parsed {
        Ok(p) => Ok(p),
        Err(e) => Err(reply.unparsable(e.as_str())),
    }
}

} // verus!

//! The two plain chat modes: `ask` answers a question directly, `solve`
//! works a problem in numbered steps. This module holds what the endpoints
//! decide: the system prompts, titles, what a message may be, how much of a
//! conversation is replayed, and the limits.
use vstd::prelude::*;
use crate::flow::{bad_request, Failure, ModelCall};
use crate::llm::{as_pairs, LLMMessage};
use crate::prompt::{fit_entries, fitted, views};
use crate::text::{
    blank, char_count, first_chars, is_blank, own, str_eq, trim, trimmed,
};

verus! {

/// Messages a conversation may hold.
pub const MESSAGE_CAP: i64 = 80;

/// How many past messages are replayed to the model.
pub const CONTEXT_WINDOW: usize = 20;

/// Cap on one message, in characters.
pub const MAX_MESSAGE_CHARS: usize = 8000;

/// Byte budget for study-set context in the system prompt.
pub const MAX_CARD_CONTEXT_CHARS: usize = 6000;

/// Characters of the opening message a title keeps.
pub const TITLE_CHARS: usize = 80;

pub const DEFAULT_LIST_LIMIT: i64 = 50;

pub const MAX_LIST_LIMIT: i64 = 200;

#[derive(Debug, Clone, Copy, PartialEq, Eq, Structural)]
pub enum ChatMode {
    Ask,
    Solve,
}

pub open spec fn ask_base() -> Seq<char> {
    "You are a tutor for a high-school student. The student asks a question and wants a direct, correct and concise answer.\n\nRules:\n- Answer the question directly first, then add a short explanation only if needed.\n- Write in English, in a natural voice, without filler.\n- Write maths/physics notation in plain text as it is usually written (Φ = B·S·cosα), never LaTeX.\n- If the question is missing information, ask exactly one clarifying question.\n- If you are not sure, say plainly that you are not sure. Never invent figures, formulas or citations."@
}

pub open spec fn solve_base() -> Seq<char> {
    "You are a tutor for a high-school student. The student gives you a problem and wants to see how it is solved, not just the final answer.\n\nRules:\n- Solve it in numbered steps. One idea per step; say what you are doing and why.\n- State each formula at the step that needs it.\n- Finish with a clear \"Final answer:\" line.\n- Write in English. Write maths/physics notation in plain text as it is usually written, never LaTeX.\n- If the problem is missing information or contradicts itself, say so instead of guessing an answer.\n- In later turns the student may ask about one specific step: answer that step, do not solve the whole problem again."@
}

pub open spec fn base_prompt(mode: ChatMode) -> Seq<char> {
    match mode {
        ChatMode::Ask => ask_base(),
        ChatMode::Solve => solve_base(),
    }
}

/// The system prompt: the mode's instructions, then the study set's cards
/// when there is context that is not blank.
pub open spec fn system_prompt_text(mode: ChatMode, card_context: Option<Seq<char>>) -> Seq<char> {
    match card_context {
        Some(ctx) => if !is_blank(ctx) {
            base_prompt(mode)
                + "\n\nThe student is studying the card set below. Prefer its wording and notation where they are relevant:\n\n"@
                + ctx
        } else {
            base_prompt(mode)
        },
        None => base_prompt(mode),
    }
}

impl ChatMode {
    /// The `ai_interactions` type a call in this mode is logged as.
    pub fn interaction_type(&self) -> (s: &'static str)
        ensures
            *self is Ask ==> s@ == "ask_answer"@,
            *self is Solve ==> s@ == "solve_steps"@,
    {
        match self {
            ChatMode::Ask => "ask_answer",
            ChatMode::Solve => "solve_steps",
        }
    }

    /// The mode's name as logs show it.
    pub fn name(&self) -> (s: &'static str)
        ensures
            *self is Ask ==> s@ == "Ask"@,
            *self is Solve ==> s@ == "Solve"@,
    {
        match self {
            ChatMode::Ask => "Ask",
            ChatMode::Solve => "Solve",
        }
    }

    pub fn system_prompt(&self, card_context: Option<&str>) -> (s: String)
        ensures
            s@ == system_prompt_text(
                *self,
                match card_context {
                    Some(c) => Some(c@),
                    None => None,
                },
            ),
    {
        let mut s = match self {
            ChatMode::Ask => own(
                "You are a tutor for a high-school student. The student asks a question and wants a direct, correct and concise answer.\n\nRules:\n- Answer the question directly first, then add a short explanation only if needed.\n- Write in English, in a natural voice, without filler.\n- Write maths/physics notation in plain text as it is usually written (Φ = B·S·cosα), never LaTeX.\n- If the question is missing information, ask exactly one clarifying question.\n- If you are not sure, say plainly that you are not sure. Never invent figures, formulas or citations.",
            ),
            ChatMode::Solve => own(
                "You are a tutor for a high-school student. The student gives you a problem and wants to see how it is solved, not just the final answer.\n\nRules:\n- Solve it in numbered steps. One idea per step; say what you are doing and why.\n- State each formula at the step that needs it.\n- Finish with a clear \"Final answer:\" line.\n- Write in English. Write maths/physics notation in plain text as it is usually written, never LaTeX.\n- If the problem is missing information or contradicts itself, say so instead of guessing an answer.\n- In later turns the student may ask about one specific step: answer that step, do not solve the whole problem again.",
            ),
        };
        if let Some(ctx) = card_context {
            if !blank(ctx) {
                s.push_str(
                    "\n\nThe student is studying the card set below. Prefer its wording and notation where they are relevant:\n\n",
                );
                s.push_str(ctx);
            }
        }
        proof {
            assert(s@ =~= system_prompt_text(
                *self,
                match card_context {
                    Some(c) => Some(c@),
                    None => None,
                },
            ));
        }
        s
    }
}

/// Blank context adds nothing: the prompt is the mode's instructions alone.
pub proof fn law_blank_context_changes_nothing(mode: ChatMode, ctx: Seq<char>)
    requires
        is_blank(ctx),
    ensures
        system_prompt_text(mode, Some(ctx)) == system_prompt_text(mode, None),
{
}

/// `POST /chat/start`. Study sets are identified by their UUID's value.
pub struct StartRequest {
    pub mode: ChatMode,
    pub study_set_id: Option<u128>,
    pub message: String,
}

/// `POST /chat/{id}/reply`.
pub struct ReplyRequest {
    pub message: String,
}

pub struct ReplyResponse {
    pub reply: String,
}

/// `GET /chat`.
pub struct ListQuery {
    pub mode: Option<ChatMode>,
    pub limit: Option<i64>,
}

/// A conversation's title: the opening message trimmed, cut to
/// `TITLE_CHARS` characters with an ellipsis when it was longer.
pub open spec fn title_text(message: Seq<char>) -> Seq<char> {
    let t = trim(message);
    if t.len() > 80 {
        t.take(80).push('…')
    } else {
        t
    }
}

pub fn title_from(message: &str) -> (s: String)
    ensures
        s@ == title_text(message@),
{
    let t = trimmed(message);
    let mut out = first_chars(t.as_str(), TITLE_CHARS);
    if char_count(t.as_str()) > TITLE_CHARS {
        out.push('…');
    }
    out
}

/// A message: trimmed, not empty, at most `MAX_MESSAGE_CHARS` characters.
pub fn validate_message(message: &str) -> (r: Result<String, String>)
    ensures
        is_blank(message@) ==> (r matches Err(m) && m@ == "message must not be empty"@),
        !is_blank(message@) && trim(message@).len() > 8000 ==> (r matches Err(m) && m@
            == "message must be at most 8000 characters"@),
        !is_blank(message@) && trim(message@).len() <= 8000 ==> (r matches Ok(t) && t@ == trim(
            message@,
        )),
{
    let t = trimmed(message);
    if t.as_str().is_empty() {
        proof {
            crate::text::lemma_trim_blank(message@);
        }
        return Err(own("message must not be empty"));
    }
    proof {
        crate::text::lemma_trim_blank(message@);
    }
    if char_count(t.as_str()) > MAX_MESSAGE_CHARS {
        return Err(own("message must be at most 8000 characters"));
    }
    Ok(t)
}

/// How a card is listed as context.
pub open spec fn context_line(question: Seq<char>, answer: Seq<char>) -> Seq<char> {
    "- "@ + question + " → "@ + answer + "\n"@
}

pub open spec fn context_lines(cards: Seq<(String, String)>) -> Seq<Seq<char>> {
    Seq::new(cards.len(), |i: int| context_line(cards[i].0@, cards[i].1@))
}

/// A study set's cards (question, answer) as prompt context: whole lines,
/// in order, within `MAX_CARD_CONTEXT_CHARS` bytes; none for a set with no
/// cards.
pub fn card_context(cards: &Vec<(String, String)>) -> (r: Option<String>)
    ensures
        cards@.len() == 0 ==> r is None,
        cards@.len() > 0 ==> (r matches Some(c) && c@ == fitted(context_lines(cards@), 6000).1),
{
    if cards.len() == 0 {
        return None;
    }
    let mut lines: Vec<String> = Vec::new();
    let mut i: usize = 0;
    while i < cards.len()
        invariant
            i <= cards@.len(),
            lines@.len() == i,
            forall|k: int| 0 <= k < i ==> (#[trigger] lines@[k])@ == context_line(cards@[k].0@, cards@[k].1@),
        decreases cards@.len() - i,
    {
        let mut l = String::new();
        l.push_str("- ");
        l.push_str(cards[i].0.as_str());
        l.push_str(" → ");
        l.push_str(cards[i].1.as_str());
        l.push_str("\n");
        proof {
            assert(l@ =~= context_line(cards@[i as int].0@, cards@[i as int].1@));
        }
        lines.push(l);
        i = i + 1;
    }
    proof {
        assert(views(lines@) =~= context_lines(cards@));
    }
    let (_, ctx) = fit_entries(&lines, MAX_CARD_CONTEXT_CHARS);
    Some(ctx)
}

/// The part of a conversation replayed to the model: the last
/// `CONTEXT_WINDOW` messages, in order.
pub open spec fn window_start(n: nat) -> nat {
    if n > 20 {
        (n - 20) as nat
    } else {
        0
    }
}

/// Replay the tail of a conversation (role, content): `user` messages as
/// the learner's, every other role as the assistant's.
pub fn history_messages(rows: &Vec<(String, String)>) -> (out: Vec<LLMMessage>)
    ensures
        out@.len() == rows@.len() - window_start(rows@.len()),
        forall|k: int|
            0 <= k < out@.len() ==> {
                let row = #[trigger] rows@[window_start(rows@.len()) + k];
                &&& out@[k].content@ == row.1@
                &&& out@[k].role@ == (if row.0@ == "user"@ {
                    "user"@
                } else {
                    "assistant"@
                })
            },
{
    let start: usize = if rows.len() > CONTEXT_WINDOW {
        rows.len() - CONTEXT_WINDOW
    } else {
        0
    };
    let mut out: Vec<LLMMessage> = Vec::new();
    let mut i: usize = start;
    proof {
        reveal_strlit("user");
    }
    while i < rows.len()
        invariant
            start == window_start(rows@.len()),
            start <= i <= rows@.len(),
            out@.len() == i - start,
            forall|k: int|
                0 <= k < out@.len() ==> {
                    let row = #[trigger] rows@[start + k];
                    &&& out@[k].content@ == row.1@
                    &&& out@[k].role@ == (if row.0@ == "user"@ {
                        "user"@
                    } else {
                        "assistant"@
                    })
                },
        decreases rows@.len() - i,
    {
        let role = rows[i].0.as_str();
        let content = rows[i].1.as_str();
        let m = if str_eq(role, "user") {
            LLMMessage::user(content)
        } else {
            LLMMessage::assistant(content)
        };
        out.push(m);
        proof {
            assert(rows@[start + (i - start) as int] == rows@[i as int]);
        }
        i = i + 1;
    }
    out
}

/// Whether a conversation holding `count` messages may take another turn.
pub fn check_room(count: i64) -> (r: Result<(), String>)
    ensures
        count >= 80 ==> (r matches Err(m) && m@
            == "conversation has reached its length limit — start a new one"@),
        count < 80 ==> r is Ok,
{
    if count >= MESSAGE_CAP {
        Err(own("conversation has reached its length limit — start a new one"))
    } else {
        Ok(())
    }
}

/// How many conversations a listing returns: 50 by default, within
/// `[1, 200]`.
pub fn list_limit(requested: Option<i64>) -> (l: i64)
    ensures
        l == ({
            let r = match requested {
                Some(n) => n,
                None => 50,
            };
            if r < 1 {
                1
            } else if r > 200 {
                200
            } else {
                r
            }
        }),
{
    let r = match requested {
        Some(n) => n,
        None => DEFAULT_LIST_LIMIT,
    };
    if r < 1 {
        1
    } else if r > MAX_LIST_LIMIT {
        MAX_LIST_LIMIT
    } else {
        r
    }
}

/// What a call is logged under: the mode, the step, and the message.
pub fn chat_log(mode: ChatMode, step: &str, message: &str) -> (s: String)
    ensures
        s@ == "[chat:"@ + (if mode is Ask {
            "Ask"@
        } else {
            "Solve"@
        }) + ":"@ + step@ + "] "@ + message@,
{
    let mut s = String::new();
    s.push_str("[chat:");
    s.push_str(mode.name());
    s.push_str(":");
    s.push_str(step);
    s.push_str("] ");
    s.push_str(message);
    proof {
        assert(s@ =~= "[chat:"@ + (if mode is Ask {
            "Ask"@
        } else {
            "Solve"@
        }) + ":"@ + step@ + "] "@ + message@);
    }
    s
}

// ---------------------------------------------------------------------------
// Starting and replying, step by step
// ---------------------------------------------------------------------------

pub open spec fn context_view(card_context: Option<&str>) -> Option<Seq<char>> {
    match card_context {
        Some(c) => Some(c@),
        None => None,
    }
}

/// The call that opens a conversation: the mode's system prompt over the
/// set's cards when there are any, then the learner's message.
pub fn start_call(user_id: u128, mode: ChatMode, card_context: Option<&str>, message: &str) -> (r: (
    Vec<LLMMessage>,
    ModelCall,
))
    ensures
        as_pairs(r.0@) == seq![
            ("system"@, system_prompt_text(mode, context_view(card_context))),
            ("user"@, message@),
        ],
        r.1.user_id == user_id,
        r.1.prompt_log@ == "[chat:"@ + (if mode is Ask {
            "Ask"@
        } else {
            "Solve"@
        }) + ":"@ + "start"@ + "] "@ + message@,
{
    let system = mode.system_prompt(card_context);
    let mut ms: Vec<LLMMessage> = Vec::new();
    ms.push(LLMMessage::system(system.as_str()));
    ms.push(LLMMessage::user(message));
    proof {
        assert(as_pairs(ms@) =~= seq![
            ("system"@, system_prompt_text(mode, context_view(card_context))),
            ("user"@, message@),
        ]);
    }
    let log = chat_log(mode, "start", message);
    (ms, ModelCall { user_id, prompt_log: log })
}

/// The call that continues a conversation: the mode's system prompt, then
/// the replayed tail of the stored messages (the new one among them).
pub fn reply_call(
    user_id: u128,
    mode: ChatMode,
    card_context: Option<&str>,
    rows: &Vec<(String, String)>,
    message: &str,
) -> (r: (Vec<LLMMessage>, ModelCall))
    ensures
        r.0@.len() == 1 + rows@.len() - window_start(rows@.len()),
        r.0@[0].role@ == "system"@,
        r.0@[0].content@ == system_prompt_text(mode, context_view(card_context)),
        forall|k: int|
            0 <= k < rows@.len() - window_start(rows@.len()) ==> {
                let row = #[trigger] rows@[window_start(rows@.len()) + k];
                &&& r.0@[k + 1].content@ == row.1@
                &&& r.0@[k + 1].role@ == (if row.0@ == "user"@ {
                    "user"@
                } else {
                    "assistant"@
                })
            },
        r.1.user_id == user_id,
        r.1.prompt_log@ == "[chat:"@ + (if mode is Ask {
            "Ask"@
        } else {
            "Solve"@
        }) + ":"@ + "reply"@ + "] "@ + message@,
{
    let system = mode.system_prompt(card_context);
    let history = history_messages(rows);
    let mut ms: Vec<LLMMessage> = Vec::new();
    ms.push(LLMMessage::system(system.as_str()));
    let mut i: usize = 0;
    while i < history.len()
        invariant
            i <= history@.len(),
            ms@.len() == i + 1,
            ms@[0].role@ == "system"@,
            ms@[0].content@ == system_prompt_text(mode, context_view(card_context)),
            forall|k: int| 0 <= k < i ==> #[trigger] ms@[k + 1].role@ == history@[k].role@
                && ms@[k + 1].content@ == history@[k].content@,
        decreases history@.len() - i,
    {
        let m = &history[i];
        let c = m.content.clone();
        assert(c@ == m.content@);
        ms.push(LLMMessage { role: m.role, content: c });
        i = i + 1;
    }
    proof {
        let start = window_start(rows@.len());
        assert forall|k: int| 0 <= k < rows@.len() - start implies {
            let row = #[trigger] rows@[start + k];
            &&& ms@[k + 1].content@ == row.1@
            &&& ms@[k + 1].role@ == (if row.0@ == "user"@ {
                "user"@
            } else {
                "assistant"@
            })
        } by {
            assert(ms@[k + 1].role@ == history@[k].role@);
            assert(ms@[k + 1].content@ == history@[k].content@);
        }
    }
    let log = chat_log(mode, "reply", message);
    (ms, ModelCall { user_id, prompt_log: log })
}

/// Whether the conversation has room for another turn. A count that could
/// not be read is taken as zero, so it lets the turn through.
pub fn room_for_reply(count: Result<i64, String>) -> (r: Result<(), Failure>)
    ensures
        count matches Ok(c) ==> (c >= 80 ==> (r matches Err(f) && f.status == 400 && f.message@
            == "conversation has reached its length limit — start a new one"@ && f.reason is None
            && f.log is None)),
        count matches Ok(c) ==> (c < 80 ==> r is Ok),
        count is Err ==> r is Ok,
{
    let c = match count {
        Ok(c) => c,
        Err(_) => 0,
    };
    bad_request(check_room(c))
}

} // verus!

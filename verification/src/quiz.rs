//! Multiple-choice quizzes: what a generation request may ask for, the
//! prompts that ask the model for questions, the rule a generated batch must
//! pass before anything is stored, and grading, which needs no model: an
//! answer is an index, and grading is a comparison.
use vstd::prelude::*;
use crate::ids::{parse_uuid, uuid_parse};
use crate::llm::LLMMessage;
use crate::flow::{recorded, refuse, single_turn, single_turn_messages, Failure, ModelCall, ModelReply};
use crate::ks::{ks_error_text, KsError, KsNode};
use crate::prompt::prompt_log_text;
use crate::prompt::{fit_entries, fitted, views};
use crate::text::{
    blank, char_count, chars_of, decimal, is_blank, lowercase_eq, lowercases_to, own,
    push_decimal, push_signed_decimal, signed_decimal, trim, trim_range, trimmed,
};

verus! {

/// Upper bound on questions per request.
pub const MAX_QUESTION_COUNT: u32 = 20;

/// Cap on a free-text topic, in characters.
pub const MAX_TOPIC_CHARS: usize = 8000;

/// Fewest and most choices a question may have.
pub const MIN_CHOICES: usize = 2;

pub const MAX_CHOICES: usize = 6;

/// Cap on the concept nodes fed into one prompt, and on the bytes they take.
pub const MAX_NODES_PER_PROMPT: usize = 30;

pub const MAX_NODE_CONTEXT_CHARS: usize = 6000;

/// The two sources a batch can come from, as stored.
pub const SOURCE_TOPIC: &'static str = "topic";

pub const SOURCE_KNOWLEDGE_STORE: &'static str = "knowledge_store";

/// `POST /quiz/generate`. Study sets are identified by their UUID's value.
pub struct GenerateQuizRequest {
    pub study_set_id: u128,
    /// `"topic"` or `"knowledge_store"`.
    pub source: String,
    /// Required when the source is a topic.
    pub topic: Option<String>,
    /// Optional subject narrowing for the knowledge-store source.
    pub subject_filter: Option<String>,
    pub count: u32,
}

/// `POST /quiz/{question_id}/attempt`.
pub struct AttemptRequest {
    pub selected_index: i32,
}

/// The only response that carries the answer: after the learner committed.
#[derive(Debug, PartialEq, Eq, Structural)]
pub struct AttemptResponse {
    pub is_correct: bool,
    pub correct_index: i32,
}

#[derive(Debug, Clone, Copy, PartialEq, Eq, Structural)]
pub enum QuizSource {
    Topic,
    KnowledgeStore,
}

impl QuizSource {
    pub fn as_str(&self) -> (s: &'static str)
        ensures
            *self is Topic ==> s@ == "topic"@,
            *self is KnowledgeStore ==> s@ == "knowledge_store"@,
    {
        match self {
            QuizSource::Topic => SOURCE_TOPIC,
            QuizSource::KnowledgeStore => SOURCE_KNOWLEDGE_STORE,
        }
    }
}

/// One question as the model is asked to emit it.
#[derive(Debug, Clone, PartialEq, Eq)]
pub struct GeneratedQuestion {
    pub question: String,
    pub choices: Vec<String>,
    pub correct_index: i32,
    /// Which numbered concept the question came from; read only in
    /// knowledge-store mode.
    pub source_node_index: Option<usize>,
}

// ---------------------------------------------------------------------------
// The request
// ---------------------------------------------------------------------------

/// How many questions to ask for: at least one, at most
/// `MAX_QUESTION_COUNT` (more is quietly capped).
pub fn question_count(count: u32) -> (r: Result<u32, String>)
    ensures
        count == 0 ==> (r matches Err(m) && m@ == "count must be >= 1"@),
        count > 0 ==> r == Ok::<u32, String>(if count > 20 {
            20
        } else {
            count
        }),
{
    if count == 0 {
        Err(own("count must be >= 1"))
    } else if count > MAX_QUESTION_COUNT {
        Ok(MAX_QUESTION_COUNT)
    } else {
        Ok(count)
    }
}

pub open spec fn invalid_source_text(raw: Seq<char>) -> Seq<char> {
    "invalid source '"@ + raw + "': must be 'topic' or 'knowledge_store'"@
}

/// The source named by `raw`, trimmed and compared case-insensitively.
pub fn quiz_source(raw: &str) -> (r: Result<QuizSource, String>)
    ensures
        lowercases_to(trim(raw@), "topic"@) ==> r == Ok::<QuizSource, String>(QuizSource::Topic),
        lowercases_to(trim(raw@), "knowledge_store"@) ==> r == Ok::<QuizSource, String>(
            QuizSource::KnowledgeStore,
        ),
        !lowercases_to(trim(raw@), "topic"@) && !lowercases_to(trim(raw@), "knowledge_store"@) ==> (r matches Err(
            m,
        ) && m@ == invalid_source_text(raw@)),
{
    let v = chars_of(raw);
    let (a, b) = trim_range(&v);
    proof {
        reveal_strlit("topic");
        reveal_strlit("knowledge_store");
    }
    if lowercase_eq(&v, a, b, SOURCE_TOPIC) {
        Ok(QuizSource::Topic)
    } else if lowercase_eq(&v, a, b, SOURCE_KNOWLEDGE_STORE) {
        Ok(QuizSource::KnowledgeStore)
    } else {
        let mut m = String::new();
        m.push_str("invalid source '");
        m.push_str(raw);
        m.push_str("': must be 'topic' or 'knowledge_store'");
        proof {
            assert(m@ =~= invalid_source_text(raw@));
        }
        Err(m)
    }
}

/// The topic to quiz on: required, trimmed, and at most `MAX_TOPIC_CHARS`
/// characters once trimmed.
pub fn quiz_topic(topic: Option<&str>) -> (r: Result<String, String>)
    ensures
        ({
            let t = match topic {
                Some(s) => trim(s@),
                None => Seq::<char>::empty(),
            };
            &&& t.len() == 0 ==> (r matches Err(m) && m@
                == "topic is required when source is 'topic'"@)
            &&& 0 < t.len() <= 8000 ==> (r matches Ok(s) && s@ == t)
            &&& t.len() > 8000 ==> (r matches Err(m) && m@
                == "topic exceeds 8000 character limit"@)
        }),
{
    let t = match topic {
        Some(s) => trimmed(s),
        None => String::new(),
    };
    if t.as_str().is_empty() {
        return Err(own("topic is required when source is 'topic'"));
    }
    if char_count(t.as_str()) > MAX_TOPIC_CHARS {
        return Err(own("topic exceeds 8000 character limit"));
    }
    Ok(t)
}

pub open spec fn no_concepts_text(subject: Option<Seq<char>>) -> Seq<char> {
    match subject {
        Some(s) => "the Knowledge Store has no concepts for subject '"@ + s
            + "' yet — nothing to quiz on"@,
        None => "the Knowledge Store has no concepts yet — nothing to quiz on"@,
    }
}

/// What to say when the store has nothing to quiz on.
pub fn no_concepts_message(subject: Option<&str>) -> (m: String)
    ensures
        m@ == no_concepts_text(
            match subject {
                Some(s) => Some(s@),
                None => None,
            },
        ),
{
    match subject {
        Some(s) => {
            let mut m = String::new();
            m.push_str("the Knowledge Store has no concepts for subject '");
            m.push_str(s);
            m.push_str("' yet — nothing to quiz on");
            proof {
                assert(m@ =~= no_concepts_text(Some(s@)));
            }
            m
        },
        None => own("the Knowledge Store has no concepts yet — nothing to quiz on"),
    }
}

/// The nodes a prompt is built from: the first `MAX_NODES_PER_PROMPT`.
pub fn prompt_nodes(nodes: Vec<KsNode>) -> (r: Vec<KsNode>)
    ensures
        r@ == (if nodes@.len() > 30 {
            nodes@.take(30)
        } else {
            nodes@
        }),
{
    let mut r = nodes;
    if r.len() > MAX_NODES_PER_PROMPT {
        r.truncate(MAX_NODES_PER_PROMPT);
    }
    r
}

/// The tag a generation call is logged under.
pub fn source_tag(source: QuizSource) -> (t: String)
    ensures
        source is Topic ==> t@ == "[source: topic]"@,
        source is KnowledgeStore ==> t@ == "[source: knowledge_store]"@,
{
    let mut t = String::new();
    t.push_str("[source: ");
    t.push_str(source.as_str());
    t.push_str("]");
    proof {
        reveal_strlit("[source: ");
        reveal_strlit("]");
        reveal_strlit("topic");
        reveal_strlit("knowledge_store");
        reveal_strlit("[source: topic]");
        reveal_strlit("[source: knowledge_store]");
        assert(source is Topic ==> t@ =~= "[source: topic]"@);
        assert(source is KnowledgeStore ==> t@ =~= "[source: knowledge_store]"@);
    }
    t
}

// ---------------------------------------------------------------------------
// Validating a generated batch
// ---------------------------------------------------------------------------

/// The first blank choice at or after `k`.
pub open spec fn first_blank_choice(cs: Seq<String>, k: int) -> Option<int>
    decreases cs.len() - k,
{
    if k < 0 || k >= cs.len() {
        None
    } else if is_blank(cs[k]@) {
        Some(k)
    } else {
        first_blank_choice(cs, k + 1)
    }
}

pub open spec fn at_index(i: nat) -> Seq<char> {
    "question at index "@ + decimal(i)
}

/// What is wrong with question `i`, checked in this order: blank text, the
/// number of choices, a blank choice, the correct index, and (when nodes
/// were given) the cited node.
pub open spec fn question_problem(q: GeneratedQuestion, i: nat, node_count: nat) -> Option<
    Seq<char>,
> {
    let n = q.choices@.len();
    if is_blank(q.question@) {
        Some(at_index(i) + " is empty"@)
    } else if n < 2 || n > 6 {
        Some(at_index(i) + " has "@ + decimal(n) + " choices; must be between 2 and 6"@)
    } else if first_blank_choice(q.choices@, 0) is Some {
        Some(at_index(i) + " has an empty choice at position "@ + decimal(
            first_blank_choice(q.choices@, 0)->0 as nat,
        ))
    } else if q.correct_index < 0 || q.correct_index >= n {
        Some(at_index(i) + " has correct_index "@ + signed_decimal(q.correct_index as int)
            + " outside its "@ + decimal(n) + " choices"@)
    } else if node_count > 0 {
        match q.source_node_index {
            Some(idx) => if idx < node_count {
                None
            } else {
                Some(at_index(i) + " cites source_node_index "@ + decimal(idx as nat)
                    + ", but only "@ + decimal(node_count) + " nodes were provided"@)
            },
            None => Some(at_index(i)
                + " is missing source_node_index, required in knowledge_store mode"@),
        }
    } else {
        None
    }
}

pub open spec fn batch_problem_from(qs: Seq<GeneratedQuestion>, i: nat, node_count: nat) -> Option<
    Seq<char>,
>
    decreases qs.len() - i,
{
    if i >= qs.len() {
        None
    } else {
        match question_problem(qs[i as int], i, node_count) {
            Some(m) => Some(m),
            None => batch_problem_from(qs, i + 1, node_count),
        }
    }
}

/// Why a batch is rejected, if it is: empty, or the first problem of the
/// first bad question. One bad question rejects the whole batch.
pub open spec fn batch_problem(qs: Seq<GeneratedQuestion>, node_count: nat) -> Option<Seq<char>> {
    if qs.len() == 0 {
        Some("model returned an empty array; nothing to insert"@)
    } else {
        batch_problem_from(qs, 0, node_count)
    }
}

fn at_index_text(i: usize) -> (s: String)
    ensures
        s@ == at_index(i as nat),
{
    let mut s = String::new();
    s.push_str("question at index ");
    push_decimal(&mut s, i as u64);
    proof {
        assert(s@ =~= at_index(i as nat));
    }
    s
}

fn first_blank(cs: &Vec<String>) -> (r: Option<usize>)
    ensures
        match first_blank_choice(cs@, 0) {
            Some(k) => r matches Some(x) && x as int == k,
            None => r is None,
        },
{
    let mut k: usize = 0;
    while k < cs.len()
        invariant
            k <= cs@.len(),
            first_blank_choice(cs@, k as int) == first_blank_choice(cs@, 0),
        decreases cs@.len() - k,
    {
        if blank(cs[k].as_str()) {
            return Some(k);
        }
        k = k + 1;
    }
    None
}

pub fn question_problem_of(q: &GeneratedQuestion, i: usize, node_count: usize) -> (r: Option<String>)
    ensures
        match question_problem(*q, i as nat, node_count as nat) {
            Some(m) => r matches Some(s) && s@ == m,
            None => r is None,
        },
{
    let n = q.choices.len();
    if blank(q.question.as_str()) {
        let mut s = at_index_text(i);
        s.push_str(" is empty");
        return Some(s);
    }
    if n < MIN_CHOICES || n > MAX_CHOICES {
        let mut s = at_index_text(i);
        s.push_str(" has ");
        push_decimal(&mut s, n as u64);
        s.push_str(" choices; must be between 2 and 6");
        proof {
            assert(s@ =~= question_problem(*q, i as nat, node_count as nat)->0);
        }
        return Some(s);
    }
    if let Some(k) = first_blank(&q.choices) {
        let mut s = at_index_text(i);
        s.push_str(" has an empty choice at position ");
        push_decimal(&mut s, k as u64);
        proof {
            assert(s@ =~= question_problem(*q, i as nat, node_count as nat)->0);
        }
        return Some(s);
    }
    if q.correct_index < 0 || q.correct_index as usize >= n {
        let mut s = at_index_text(i);
        s.push_str(" has correct_index ");
        push_signed_decimal(&mut s, q.correct_index as i64);
        s.push_str(" outside its ");
        push_decimal(&mut s, n as u64);
        s.push_str(" choices");
        proof {
            assert(s@ =~= question_problem(*q, i as nat, node_count as nat)->0);
        }
        return Some(s);
    }
    if node_count > 0 {
        match q.source_node_index {
            Some(idx) => {
                if idx < node_count {
                    None
                } else {
                    let mut s = at_index_text(i);
                    s.push_str(" cites source_node_index ");
                    push_decimal(&mut s, idx as u64);
                    s.push_str(", but only ");
                    push_decimal(&mut s, node_count as u64);
                    s.push_str(" nodes were provided");
                    proof {
                        assert(s@ =~= question_problem(*q, i as nat, node_count as nat)->0);
                    }
                    Some(s)
                }
            },
            None => {
                let mut s = at_index_text(i);
                s.push_str(" is missing source_node_index, required in knowledge_store mode");
                Some(s)
            },
        }
    } else {
        None
    }
}

/// Accept the batch only if every question is well formed. `node_count`
/// bounds the cited node; it is 0 in topic mode, where no citation is read.
pub fn validate_generated(questions: &[GeneratedQuestion], node_count: usize) -> (r: Result<
    (),
    String,
>)
    ensures
        match batch_problem(questions@, node_count as nat) {
            Some(m) => r matches Err(e) && e@ == m,
            None => r is Ok,
        },
{
    if questions.len() == 0 {
        return Err(own("model returned an empty array; nothing to insert"));
    }
    let mut i: usize = 0;
    while i < questions.len()
        invariant
            0 < questions@.len(),
            i <= questions@.len(),
            batch_problem_from(questions@, i as nat, node_count as nat) == batch_problem(
                questions@,
                node_count as nat,
            ),
        decreases questions@.len() - i,
    {
        if let Some(m) = question_problem_of(&questions[i], i, node_count) {
            return Err(m);
        }
        i = i + 1;
    }
    Ok(())
}

// ---------------------------------------------------------------------------
// Grading
// ---------------------------------------------------------------------------

/// An answer is right exactly when it is the correct index.
pub fn is_answer_correct(selected_index: i32, correct_index: i32) -> (b: bool)
    ensures
        b == (selected_index == correct_index),
{
    selected_index == correct_index
}

/// Of the choices of a question, exactly one grades as correct: the one at
/// the correct index.
pub proof fn law_exactly_one_choice_is_correct(correct_index: i32, choice_count: i32)
    requires
        0 <= correct_index < choice_count,
    ensures
        Set::new(|s: i32| 0 <= s < choice_count && s == correct_index) == set![correct_index],
{
    assert(Set::new(|s: i32| 0 <= s < choice_count && s == correct_index) =~= set![correct_index]);
}

pub open spec fn selection_out_of_range_text(selected: i32, choice_count: nat) -> Seq<char> {
    "selected_index "@ + signed_decimal(selected as int) + " is outside the "@ + decimal(
        choice_count,
    ) + " choices for this question"@
}

/// Grade an attempt: an index outside the offered choices is a malformed
/// request, not a wrong answer; any other is graded against the stored
/// correct index, which is disclosed only now.
pub fn grade_attempt(selected_index: i32, correct_index: i32, choice_count: usize) -> (r: Result<
    AttemptResponse,
    String,
>)
    ensures
        (selected_index < 0 || selected_index >= choice_count) ==> (r matches Err(m) && m@
            == selection_out_of_range_text(selected_index, choice_count as nat)),
        (0 <= selected_index < choice_count) ==> r == Ok::<AttemptResponse, String>(
            AttemptResponse { is_correct: selected_index == correct_index, correct_index },
        ),
{
    if selected_index < 0 || selected_index as usize >= choice_count {
        let mut m = String::new();
        m.push_str("selected_index ");
        push_signed_decimal(&mut m, selected_index as i64);
        m.push_str(" is outside the ");
        push_decimal(&mut m, choice_count as u64);
        m.push_str(" choices for this question");
        proof {
            assert(m@ =~= selection_out_of_range_text(selected_index, choice_count as nat));
        }
        return Err(m);
    }
    let is_correct = is_answer_correct(selected_index, correct_index);
    Ok(AttemptResponse { is_correct, correct_index })
}

/// The node a stored question is attributed to: the cited node's id, when
/// the citation is in range and the id parses as a UUID.
pub open spec fn attributed_node(q: GeneratedQuestion, nodes: Seq<KsNode>) -> Option<u128> {
    match q.source_node_index {
        Some(i) => if i < nodes.len() {
            uuid_parse(nodes[i as int].id@)
        } else {
            None
        },
        None => None,
    }
}

pub fn source_node_id(q: &GeneratedQuestion, nodes: &Vec<KsNode>) -> (r: Option<u128>)
    ensures
        r == attributed_node(*q, nodes@),
{
    match q.source_node_index {
        Some(i) => if i < nodes.len() {
            parse_uuid(nodes[i].id.as_str())
        } else {
            None
        },
        None => None,
    }
}

// ---------------------------------------------------------------------------
// Prompts
// ---------------------------------------------------------------------------

pub open spec fn node_field(with_node_index: bool) -> Seq<char> {
    if with_node_index {
        ", \"source_node_index\": integer"@
    } else {
        Seq::empty()
    }
}

pub open spec fn node_rule(with_node_index: bool) -> Seq<char> {
    if with_node_index {
        "\n`source_node_index` MUST be the 0-based number of the concept the question was written from, exactly as numbered in the list above."@
    } else {
        Seq::empty()
    }
}

/// The JSON contract both prompts end with.
pub open spec fn rules_text(n: u32, with_node_index: bool) -> Seq<char> {
    "Respond with ONLY valid JSON: an array of exactly "@ + decimal(n as nat)
        + " objects, each shaped {\"question\": string, \"choices\": array of strings, \"correct_index\": integer"@
        + node_field(with_node_index)
        + "}.\nEach question MUST have exactly 4 choices. Exactly ONE choice is correct, and `correct_index` is its 0-based position in `choices`. The wrong choices must be plausible — a learner who does not know the material should not be able to eliminate them by length, phrasing, or obvious absurdity. Vary which position holds the correct answer. Write the questions and choices in English."@
        + node_rule(with_node_index)
        + "\nNo prose, no markdown fences, no commentary outside the JSON."@
}

pub fn output_format_rules(n: u32, with_node_index: bool) -> (s: String)
    ensures
        s@ == rules_text(n, with_node_index),
{
    let mut s = String::new();
    s.push_str("Respond with ONLY valid JSON: an array of exactly ");
    push_decimal(&mut s, n as u64);
    s.push_str(
        " objects, each shaped {\"question\": string, \"choices\": array of strings, \"correct_index\": integer",
    );
    if with_node_index {
        s.push_str(", \"source_node_index\": integer");
    }
    s.push_str(
        "}.\nEach question MUST have exactly 4 choices. Exactly ONE choice is correct, and `correct_index` is its 0-based position in `choices`. The wrong choices must be plausible — a learner who does not know the material should not be able to eliminate them by length, phrasing, or obvious absurdity. Vary which position holds the correct answer. Write the questions and choices in English.",
    );
    if with_node_index {
        s.push_str(
            "\n`source_node_index` MUST be the 0-based number of the concept the question was written from, exactly as numbered in the list above.",
        );
    }
    s.push_str("\nNo prose, no markdown fences, no commentary outside the JSON.");
    proof {
        assert(s@ =~= rules_text(n, with_node_index));
    }
    s
}

pub open spec fn topic_system_text(n: u32) -> Seq<char> {
    "You are a quiz author. Write exactly "@ + decimal(n as nat)
        + " multiple-choice questions testing understanding of the material the user provides.\n\n"@
        + rules_text(n, false)
}

pub open spec fn topic_user_text(n: u32, topic: Seq<char>) -> Seq<char> {
    "Material:\n\n"@ + topic + "\n\nWrite "@ + decimal(n as nat) + " multiple-choice questions."@
}

/// The system and user prompts for a batch on a free-text topic.
pub fn build_topic_prompt(n: u32, topic: &str) -> (r: (String, String))
    ensures
        r.0@ == topic_system_text(n),
        r.1@ == topic_user_text(n, topic@),
{
    let mut system = String::new();
    system.push_str("You are a quiz author. Write exactly ");
    push_decimal(&mut system, n as u64);
    system.push_str(
        " multiple-choice questions testing understanding of the material the user provides.\n\n",
    );
    let rules = output_format_rules(n, false);
    system.push_str(rules.as_str());
    let mut user = String::new();
    user.push_str("Material:\n\n");
    user.push_str(topic);
    user.push_str("\n\nWrite ");
    push_decimal(&mut user, n as u64);
    user.push_str(" multiple-choice questions.");
    proof {
        assert(system@ =~= topic_system_text(n));
        assert(user@ =~= topic_user_text(n, topic@));
    }
    (system, user)
}

/// How a node is listed in a prompt: its number, title, subject and summary.
pub open spec fn node_entry(i: nat, node: KsNode) -> Seq<char> {
    "["@ + decimal(i) + "] "@ + node.title@ + " ("@ + node.subject@ + ")\n"@ + node.summary@
        + "\n\n"@
}

pub open spec fn node_entries(nodes: Seq<KsNode>) -> Seq<Seq<char>> {
    Seq::new(nodes.len(), |i: int| node_entry(i as nat, nodes[i]))
}

/// The numbered concept list: whole entries, in order, within
/// `MAX_NODE_CONTEXT_CHARS` bytes.
pub open spec fn node_listing(nodes: Seq<KsNode>) -> Seq<char> {
    fitted(node_entries(nodes), 6000).1
}

pub open spec fn ks_system_text(n: u32) -> Seq<char> {
    "You are a quiz author. Write exactly "@ + decimal(n as nat)
        + " multiple-choice questions testing the concepts the user has already studied. Base every question on one of the numbered concepts; do not invent material outside them.\n\n"@
        + rules_text(n, true)
}

pub open spec fn ks_user_text(n: u32, listing: Seq<char>) -> Seq<char> {
    "Concepts studied:\n\n"@ + listing + "Write "@ + decimal(n as nat)
        + " multiple-choice questions."@
}

fn node_entry_text(i: usize, node: &KsNode) -> (s: String)
    ensures
        s@ == node_entry(i as nat, *node),
{
    let mut s = String::new();
    s.push_str("[");
    push_decimal(&mut s, i as u64);
    s.push_str("] ");
    s.push_str(node.title.as_str());
    s.push_str(" (");
    s.push_str(node.subject.as_str());
    s.push_str(")\n");
    s.push_str(node.summary.as_str());
    s.push_str("\n\n");
    proof {
        assert(s@ =~= node_entry(i as nat, *node));
    }
    s
}

/// The prompts for a batch on concepts already studied: every node is
/// numbered, and each question must cite the number it came from.
pub fn build_knowledge_store_prompt(n: u32, nodes: &Vec<KsNode>) -> (r: (String, String))
    ensures
        r.0@ == ks_system_text(n),
        r.1@ == ks_user_text(n, node_listing(nodes@)),
{
    let mut entries: Vec<String> = Vec::new();
    let mut i: usize = 0;
    while i < nodes.len()
        invariant
            i <= nodes@.len(),
            entries@.len() == i,
            forall|k: int| 0 <= k < i ==> (#[trigger] entries@[k])@ == node_entry(k as nat, nodes@[k]),
        decreases nodes@.len() - i,
    {
        entries.push(node_entry_text(i, &nodes[i]));
        i = i + 1;
    }
    proof {
        assert(views(entries@) =~= node_entries(nodes@));
    }
    let (_, listing) = fit_entries(&entries, MAX_NODE_CONTEXT_CHARS);
    let mut system = String::new();
    system.push_str("You are a quiz author. Write exactly ");
    push_decimal(&mut system, n as u64);
    system.push_str(
        " multiple-choice questions testing the concepts the user has already studied. Base every question on one of the numbered concepts; do not invent material outside them.\n\n",
    );
    let rules = output_format_rules(n, true);
    system.push_str(rules.as_str());
    let mut user = String::new();
    user.push_str("Concepts studied:\n\n");
    user.push_str(listing.as_str());
    user.push_str("Write ");
    push_decimal(&mut user, n as u64);
    user.push_str(" multiple-choice questions.");
    proof {
        assert(system@ =~= ks_system_text(n));
        assert(user@ =~= ks_user_text(n, node_listing(nodes@)));
    }
    (system, user)
}

// ---------------------------------------------------------------------------
// A generation request, step by step
// ---------------------------------------------------------------------------

/// The source `raw` names, trimmed and compared case-insensitively.
pub open spec fn source_named(raw: Seq<char>) -> Option<QuizSource> {
    if lowercases_to(trim(raw), "topic"@) {
        Some(QuizSource::Topic)
    } else if lowercases_to(trim(raw), "knowledge_store"@) {
        Some(QuizSource::KnowledgeStore)
    } else {
        None
    }
}

/// What can be checked before anything is read: the count (capped) and the
/// source. A count of zero is refused first, then an unknown source; both
/// are a `400`.
pub fn plan_quiz(req: &GenerateQuizRequest) -> (r: Result<(u32, QuizSource), Failure>)
    ensures
        req.count == 0 ==> (r matches Err(f) && f.status == 400 && f.message@
            == "count must be >= 1"@ && f.reason is None && f.log is None),
        req.count > 0 && source_named(req.source@) is None ==> (r matches Err(f) && f.status
            == 400 && f.message@ == invalid_source_text(req.source@) && f.reason is None
            && f.log is None),
        req.count > 0 && source_named(req.source@) is Some ==> r == Ok::<(u32, QuizSource), Failure>(
            (
                if req.count > 20 {
                    20
                } else {
                    req.count
                },
                source_named(req.source@)->0,
            ),
        ),
{
    let count = match question_count(req.count) {
        Ok(c) => c,
        Err(m) => return Err(refuse(400, m)),
    };
    proof {
        reveal_strlit("topic");
        reveal_strlit("knowledge_store");
        assert(!(lowercases_to(trim(req.source@), "topic"@) && lowercases_to(
            trim(req.source@),
            "knowledge_store"@,
        )));
    }
    match quiz_source(req.source.as_str()) {
        Ok(s) => Ok((count, s)),
        Err(m) => Err(refuse(400, m)),
    }
}

/// A call on a free-text topic: the topic is required and within the cap
/// once trimmed (else a `400`), and the call is recorded under the source.
pub fn topic_call(owner: u128, count: u32, topic: Option<&str>) -> (r: Result<
    (Vec<LLMMessage>, ModelCall),
    Failure,
>)
    ensures
        ({
            let t = match topic {
                Some(s) => trim(s@),
                None => Seq::<char>::empty(),
            };
            &&& t.len() == 0 ==> (r matches Err(f) && f.status == 400 && f.message@
                == "topic is required when source is 'topic'"@ && f.reason is None && f.log is None)
            &&& t.len() > 8000 ==> (r matches Err(f) && f.status == 400 && f.message@
                == "topic exceeds 8000 character limit"@ && f.reason is None && f.log is None)
            &&& 0 < t.len() <= 8000 ==> (r matches Ok((ms, call)) && single_turn_messages(
                ms@,
                topic_system_text(count),
                topic_user_text(count, t),
            ) && call.user_id == owner && call.prompt_log@ == prompt_log_text(
                "[source: topic]"@,
                topic_system_text(count),
                topic_user_text(count, t),
            ))
        }),
{
    let t = match quiz_topic(topic) {
        Ok(t) => t,
        Err(m) => return Err(refuse(400, m)),
    };
    let (system, user) = build_topic_prompt(count, t.as_str());
    let tag = source_tag(QuizSource::Topic);
    Ok(single_turn(owner, tag.as_str(), system.as_str(), user.as_str()))
}

/// A call on the concepts in the store. `fetched` is what reading them
/// returned, `None` when no store is configured (a `503`). A failed read
/// is a `502`, an empty store a `400`; otherwise the call numbers the first
/// `MAX_NODES_PER_PROMPT` nodes, which are returned for attribution.
pub fn nodes_call(
    owner: u128,
    count: u32,
    subject: Option<&str>,
    fetched: Option<Result<Vec<KsNode>, KsError>>,
) -> (r: Result<(Vec<KsNode>, Vec<LLMMessage>, ModelCall), Failure>)
    ensures
        fetched is None ==> (r matches Err(f) && f.status == 503 && f.message@
            == "Knowledge Store is not configured (KS_HTTP_TOKEN unset); generate with source 'topic' instead"@
            && f.reason is None && f.log is None),
        fetched matches Some(Err(e)) ==> (r matches Err(f) && f.status == 502 && f.message@
            == "could not read concepts from the Knowledge Store: "@ + ks_error_text(e) && f.reason is None
            && f.log is None),
        fetched matches Some(Ok(ns)) ==> ns@.len() == 0 ==> (r matches Err(f) && f.status == 400
            && f.message@ == no_concepts_text(
            match subject {
                Some(s) => Some(s@),
                None => None,
            },
        ) && f.reason is None && f.log is None),
        fetched matches Some(Ok(ns)) ==> ns@.len() > 0 ==> (r matches Ok((nodes, ms, call)) && nodes@
            == (if ns@.len() > 30 {
            ns@.take(30)
        } else {
            ns@
        }) && single_turn_messages(ms@, ks_system_text(count), ks_user_text(count, node_listing(nodes@)))
            && call.user_id == owner && call.prompt_log@ == prompt_log_text(
            "[source: knowledge_store]"@,
            ks_system_text(count),
            ks_user_text(count, node_listing(nodes@)),
        )),
{
    let ns = match fetched {
        None => {
            return Err(
                refuse(
                    503,
                    own(
                        "Knowledge Store is not configured (KS_HTTP_TOKEN unset); generate with source 'topic' instead",
                    ),
                ),
            );
        },
        Some(Err(e)) => {
            let mut m = own("could not read concepts from the Knowledge Store: ");
            let t = e.message();
            m.push_str(t.as_str());
            proof {
                assert(m@ =~= "could not read concepts from the Knowledge Store: "@ + ks_error_text(e));
            }
            return Err(refuse(502, m));
        },
        Some(Ok(ns)) => ns,
    };
    if ns.len() == 0 {
        return Err(refuse(400, no_concepts_message(subject)));
    }
    let nodes = prompt_nodes(ns);
    let (system, user) = build_knowledge_store_prompt(count, &nodes);
    let tag = source_tag(QuizSource::KnowledgeStore);
    let (ms, call) = single_turn(owner, tag.as_str(), system.as_str(), user.as_str());
    Ok((nodes, ms, call))
}

/// The batch the reply holds: a reply that did not parse, or a batch that
/// breaks the rule, is a `502` after recording the call; nothing is stored
/// from a batch that fails.
pub fn quiz_batch(
    reply: &ModelReply,
    parsed: Result<Vec<GeneratedQuestion>, String>,
    node_count: usize,
) -> (r: Result<Vec<GeneratedQuestion>, Failure>)
    ensures
        parsed matches Err(e) ==> (r matches Err(f) && f.status == 502 && f.message@
            == "DeepSeek returned non-JSON output, parse failed: "@ + e@ && f.reason is None && (
        f.log matches Some(l) && recorded(*reply, l))),
        parsed matches Ok(qs) ==> batch_problem(qs@, node_count as nat) is Some ==> (r matches Err(
            f,
        ) && f.status == 502 && f.message@
            == "DeepSeek returned a malformed quiz. Batch rejected; nothing inserted: "@
            + batch_problem(qs@, node_count as nat)->0 && f.reason is None && (f.log matches Some(l)
            && recorded(*reply, l))),
        parsed matches Ok(qs) ==> batch_problem(qs@, node_count as nat) is None ==> r == Ok::<
            Vec<GeneratedQuestion>,
            Failure,
        >(qs),
{
    let qs = match parsed {
        Ok(qs) => qs,
        Err(e) => return Err(reply.unparsable(e.as_str())),
    };
    match validate_generated(qs.as_slice(), node_count) {
        Ok(()) => Ok(qs),
        Err(problem) => {
            let mut m = own("DeepSeek returned a malformed quiz. Batch rejected; nothing inserted: ");
            m.push_str(problem.as_str());
            proof {
                assert(m@ =~= "DeepSeek returned a malformed quiz. Batch rejected; nothing inserted: "@
                    + batch_problem(qs@, node_count as nat)->0);
            }
            Err(reply.stop(502, m))
        },
    }
}

/// The node a question is stored against. In knowledge-store mode every
/// question must have one (the schema requires it), so a citation whose
/// node id is not a UUID stops the request with a `502`.
pub fn quiz_attribution(q: &GeneratedQuestion, nodes: &Vec<KsNode>, source: QuizSource) -> (r:
    Result<Option<u128>, Failure>)
    ensures
        source is KnowledgeStore && attributed_node(*q, nodes@) is None ==> (r matches Err(f)
            && f.status == 502 && f.message@
            == "the Knowledge Store returned a node id that is not a UUID; cannot attribute questions"@
            && f.reason is None && f.log is None),
        !(source is KnowledgeStore && attributed_node(*q, nodes@) is None) ==> r == Ok::<
            Option<u128>,
            Failure,
        >(attributed_node(*q, nodes@)),
{
    let node = source_node_id(q, nodes);
    match source {
        QuizSource::KnowledgeStore => if node.is_none() {
            return Err(
                refuse(
                    502,
                    own(
                        "the Knowledge Store returned a node id that is not a UUID; cannot attribute questions",
                    ),
                ),
            );
        },
        QuizSource::Topic => {},
    }
    Ok(node)
}

/// An insert that failed after `done` of `total` questions were stored: a
/// `500` after recording the call.
pub fn quiz_insert_failed(reply: &ModelReply, done: usize, total: usize, cause: &str) -> (f:
    Failure)
    ensures
        f.status == 500,
        f.message@ == "quiz question insertion failed after "@ + decimal(done as nat) + " of "@
            + decimal(total as nat) + " inserted: "@ + cause@,
        f.reason is None,
        f.log matches Some(l) && recorded(*reply, l),
{
    let mut m = own("quiz question insertion failed after ");
    push_decimal(&mut m, done as u64);
    m.push_str(" of ");
    push_decimal(&mut m, total as u64);
    m.push_str(" inserted: ");
    m.push_str(cause);
    proof {
        assert(m@ =~= "quiz question insertion failed after "@ + decimal(done as nat) + " of "@
            + decimal(total as nat) + " inserted: "@ + cause@);
    }
    reply.stop(500, m)
}

} // verus!

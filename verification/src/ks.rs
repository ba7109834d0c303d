//! The Knowledge Store protocol: transcripts shipped to it, concept nodes read
//! back from it, and what each of its answers means. The HTTP calls are made
//! by the server; this module builds what is sent and classifies what comes
//! back.
//!
//! A delivered `POST /transcripts` has two outcomes that must not be
//! collapsed: saved, or "the store is up but its database is not"
//! (`200` with `ok: false`). Transport failures are [`KsError`] instead.
use vstd::prelude::*;
use vstd::string::StringSliceAdditionalSpecFns;
use crate::ids::{parse_uuid, uuid_parse};
use crate::text::{
    blank, decimal, first_chars, is_blank, non_empty, own, push_decimal, str_eq,
    strip_trailing_slashes, take_chars, trim, trimmed, without_trailing_slashes,
};

verus! {

/// Default port of the store on the loopback interface.
pub const DEFAULT_PORT: &'static str = "8080";

/// Page size for the list scan that stands in for a by-id lookup: the
/// largest page the store serves.
pub const NODE_LOOKUP_LIMIT: u32 = 500;

/// The `error` code of the store's own "no such node" 404.
pub const ERROR_NODE_NOT_FOUND: &'static str = "node_not_found";

/// Seconds a call may take; no model is involved, so a short wait is right.
pub const REQUEST_TIMEOUT_SECS: u64 = 10;

/// Role label for the tutor's turns.
pub const ROLE_COACH: &'static str = "coach";

/// Role label for the student's turns.
pub const ROLE_LEARNER: &'static str = "learner";

/// One conversational turn, labelled with the `coach` / `learner` pair the
/// store's extraction step understands.
#[derive(Debug, Clone, PartialEq, Eq)]
pub struct TranscriptTurn {
    pub role: String,
    pub content: String,
}

impl TranscriptTurn {
    pub fn coach(content: &str) -> (t: TranscriptTurn)
        ensures
            t.role@ == "coach"@,
            t.content@ == content@,
    {
        TranscriptTurn { role: own(ROLE_COACH), content: own(content) }
    }

    pub fn learner(content: &str) -> (t: TranscriptTurn)
        ensures
            t.role@ == "learner"@,
            t.content@ == content@,
    {
        TranscriptTurn { role: own(ROLE_LEARNER), content: own(content) }
    }

    /// A stored Socratic role in the store's labels: `assistant` is the
    /// coach, `user` the learner; any other role has no turn.
    pub fn from_socratic_role(role: &str, content: &str) -> (t: Option<TranscriptTurn>)
        ensures
            role@ == "assistant"@ ==> (t matches Some(x) && x.role@ == "coach"@ && x.content@
                == content@),
            role@ == "user"@ ==> (t matches Some(x) && x.role@ == "learner"@ && x.content@
                == content@),
            role@ != "assistant"@ && role@ != "user"@ ==> t is None,
    {
        proof {
            reveal_strlit("assistant");
            reveal_strlit("user");
            assert("assistant"@.len() != "user"@.len());
        }
        if str_eq(role, "assistant") {
            Some(TranscriptTurn::coach(content))
        } else if str_eq(role, "user") {
            Some(TranscriptTurn::learner(content))
        } else {
            None
        }
    }
}

/// The two ways a delivered `POST /transcripts` can turn out.
#[derive(Debug, Clone, PartialEq, Eq)]
pub enum SaveTranscriptOutcome {
    /// Stored (or already stored under this `session_ref`).
    Saved { transcript_id: String },
    /// `200` with `ok: false`: the store is alive, its database is not.
    KsDbUnavailable { error: String },
}

#[derive(Debug, Clone, PartialEq, Eq)]
pub enum KsError {
    /// The store did not answer.
    Unreachable(String),
    /// A non-success status, with the body.
    Http { status: u16, body: String },
    /// The body did not match the documented schema.
    Parse(String),
}

pub open spec fn ks_error_text(e: KsError) -> Seq<char> {
    match e {
        KsError::Unreachable(m) => "knowledge store unreachable: "@ + m@,
        KsError::Http { status, body } => "knowledge store HTTP "@ + decimal(status as nat) + ": "@
            + take_chars(body@, 500),
        KsError::Parse(m) => "knowledge store parse error: "@ + m@,
    }
}

impl KsError {
    pub fn message(&self) -> (s: String)
        ensures
            s@ == ks_error_text(*self),
    {
        let mut s = String::new();
        match self {
            KsError::Unreachable(m) => {
                s.push_str("knowledge store unreachable: ");
                s.push_str(m.as_str());
            },
            KsError::Http { status, body } => {
                s.push_str("knowledge store HTTP ");
                push_decimal(&mut s, *status as u64);
                s.push_str(": ");
                let snippet = first_chars(body.as_str(), 500);
                s.push_str(snippet.as_str());
            },
            KsError::Parse(m) => {
                s.push_str("knowledge store parse error: ");
                s.push_str(m.as_str());
            },
        }
        proof {
            assert(s@ =~= ks_error_text(*self));
        }
        s
    }
}

// ---------------------------------------------------------------------------
// Query strings and addresses
// ---------------------------------------------------------------------------

/// RFC 3986 unreserved bytes: the only ones a query value keeps as is.
pub open spec fn unreserved(b: u8) -> bool {
    ||| 65 <= b <= 90
    ||| 97 <= b <= 122
    ||| 48 <= b <= 57
    ||| b == 45
    ||| b == 95
    ||| b == 46
    ||| b == 126
}

/// An upper-case hexadecimal digit.
pub open spec fn hex_digit(d: u8) -> char {
    if d < 10 {
        ((d + 48) as u8) as char
    } else {
        ((d + 55) as u8) as char
    }
}

pub open spec fn encode_byte(b: u8) -> Seq<char> {
    if unreserved(b) {
        seq![b as char]
    } else {
        seq!['%', hex_digit(b / 16), hex_digit(b % 16)]
    }
}

/// Percent-encoding of a byte string.
pub open spec fn percent_encoded(bytes: Seq<u8>) -> Seq<char>
    decreases bytes.len(),
{
    if bytes.len() == 0 {
        Seq::empty()
    } else {
        percent_encoded(bytes.drop_last()) + encode_byte(bytes.last())
    }
}

fn hex_char(d: u8) -> (c: char)
    requires
        d < 16,
    ensures
        c == hex_digit(d),
{
    if d < 10 {
        (d + 48) as char
    } else {
        (d + 55) as char
    }
}

/// Percent-encode one query-string value: every byte of its UTF-8 encoding
/// outside the unreserved set becomes `%XX`.
pub fn percent_encode_query_value(value: &str) -> (out: String)
    ensures
        out@ == percent_encoded(value.spec_bytes()),
{
    let bytes = value.as_bytes();
    let mut out = String::new();
    let mut i: usize = 0;
    while i < bytes.len()
        invariant
            i <= bytes@.len(),
            bytes@ == value.spec_bytes(),
            out@ == percent_encoded(bytes@.take(i as int)),
        decreases bytes@.len() - i,
    {
        let b = bytes[i];
        let keep = (65 <= b && b <= 90) || (97 <= b && b <= 122) || (48 <= b && b <= 57) || b == 45
            || b == 95 || b == 46 || b == 126;
        if keep {
            out.push(b as char);
        } else {
            out.push('%');
            out.push(hex_char(b / 16));
            out.push(hex_char(b % 16));
        }
        proof {
            assert(bytes@.take(i + 1).drop_last() =~= bytes@.take(i as int));
            assert(bytes@.take(i + 1).last() == b);
            assert(out@ =~= percent_encoded(bytes@.take(i as int)) + encode_byte(b));
        }
        i = i + 1;
    }
    proof {
        assert(bytes@.take(i as int) =~= bytes@);
    }
    out
}

pub open spec fn loopback_url(port: Seq<char>) -> Seq<char> {
    "http://127.0.0.1:"@ + port
}

/// The store on the loopback interface at `port`.
pub fn base_url_for_port(port: &str) -> (s: String)
    ensures
        s@ == loopback_url(port@),
{
    let mut s = String::new();
    s.push_str("http://127.0.0.1:");
    s.push_str(port);
    proof {
        assert(s@ =~= loopback_url(port@));
    }
    s
}

/// Where the store is: an explicit URL (trimmed, without trailing slashes)
/// when one is given and not blank, else the loopback address on the given
/// port when that is not blank, else on the default port.
pub open spec fn base_url_spec(url: Option<Seq<char>>, port: Option<Seq<char>>) -> Seq<char> {
    if url is Some && !is_blank(url->0) {
        without_trailing_slashes(trim(url->0))
    } else if port is Some && !is_blank(port->0) {
        loopback_url(port->0)
    } else {
        loopback_url("8080"@)
    }
}

pub open spec fn opt_str(o: Option<&str>) -> Option<Seq<char>> {
    match o {
        Some(s) => Some(s@),
        None => None,
    }
}

pub fn base_url_from(url: Option<&str>, port: Option<&str>) -> (s: String)
    ensures
        s@ == base_url_spec(opt_str(url), opt_str(port)),
{
    proof {
        reveal_strlit("8080");
    }
    if let Some(u) = url {
        if !blank(u) {
            let t = trimmed(u);
            return strip_trailing_slashes(t.as_str());
        }
    }
    match port {
        Some(p) => if !blank(p) {
            base_url_for_port(p)
        } else {
            base_url_for_port(DEFAULT_PORT)
        },
        None => base_url_for_port(DEFAULT_PORT),
    }
}

/// The query string of `GET /nodes`: `?` and the `&`-joined parameters, or
/// nothing at all when there are none.
pub open spec fn nodes_query_spec(subject: Option<&str>, limit: Option<u32>) -> Seq<char> {
    let s = "subject="@ + percent_encoded(subject->0.spec_bytes());
    let l = "limit="@ + decimal(limit->0 as nat);
    if subject is Some && limit is Some {
        "?"@ + s + "&"@ + l
    } else if subject is Some {
        "?"@ + s
    } else if limit is Some {
        "?"@ + l
    } else {
        Seq::empty()
    }
}

pub fn nodes_query(subject: Option<&str>, limit: Option<u32>) -> (q: String)
    ensures
        q@ == nodes_query_spec(subject, limit),
{
    let mut q = String::new();
    if let Some(s) = subject {
        q.push_str("?subject=");
        let e = percent_encode_query_value(s);
        q.push_str(e.as_str());
    }
    if let Some(n) = limit {
        if subject.is_some() {
            q.push_str("&");
        } else {
            q.push_str("?");
        }
        q.push_str("limit=");
        push_decimal(&mut q, n as u64);
    }
    proof {
        reveal_strlit("?subject=");
        reveal_strlit("subject=");
        reveal_strlit("?");
        reveal_strlit("&");
        reveal_strlit("limit=");
        assert(q@ =~= nodes_query_spec(subject, limit));
    }
    q
}

// ---------------------------------------------------------------------------
// Answers
// ---------------------------------------------------------------------------

/// Whether a status means the body is worth parsing: only 2xx does. Every
/// other status, a 5xx from an endpoint documented never to send one
/// included, is surfaced as [`KsError::Http`].
pub fn check_status(status: u16, body: &str) -> (r: Result<(), KsError>)
    ensures
        200 <= status < 300 ==> r is Ok,
        !(200 <= status < 300) ==> (r matches Err(KsError::Http { status: s, body: b }) && s
            == status && b@ == body@),
{
    if 200 <= status && status < 300 {
        Ok(())
    } else {
        Err(KsError::Http { status, body: own(body) })
    }
}

pub open spec fn parse_error_text(detail: Seq<char>, expected: Seq<char>, body: Seq<char>) -> Seq<char> {
    detail + (if expected.len() == 0 {
        Seq::empty()
    } else {
        "; "@ + expected
    }) + "; body snippet: "@ + take_chars(body, 500)
}

/// The error for a body that did not parse: the parser's complaint, what was
/// expected (when there is something to say), and the start of the body.
pub fn body_parse_error(detail: &str, expected: &str, body: &str) -> (e: KsError)
    ensures
        e matches KsError::Parse(m) && m@ == parse_error_text(detail@, expected@, body@),
{
    let mut m = String::new();
    m.push_str(detail);
    if !expected.is_empty() {
        m.push_str("; ");
        m.push_str(expected);
    }
    m.push_str("; body snippet: ");
    let snippet = first_chars(body, 500);
    m.push_str(snippet.as_str());
    proof {
        assert(m@ =~= parse_error_text(detail@, expected@, body@));
    }
    KsError::Parse(m)
}

/// A 2xx `POST /transcripts` body.
pub struct SaveTranscriptBody {
    pub ok: bool,
    pub transcript_id: Option<String>,
    pub error: Option<String>,
}

/// What a delivered save means: `ok` with an id is saved; `ok` without one
/// breaks the contract; not `ok` means the store's database is down.
pub fn save_outcome(parsed: SaveTranscriptBody) -> (r: Result<SaveTranscriptOutcome, KsError>)
    ensures
        parsed.ok && parsed.transcript_id is Some && parsed.transcript_id->0@.len() > 0 ==> (r matches Ok(
            SaveTranscriptOutcome::Saved { transcript_id },
        ) && transcript_id@ == parsed.transcript_id->0@),
        parsed.ok && !(parsed.transcript_id is Some && parsed.transcript_id->0@.len() > 0) ==> (r matches Err(
            KsError::Parse(m),
        ) && m@ == "response had ok:true but no transcript_id"@),
        !parsed.ok ==> (r matches Ok(SaveTranscriptOutcome::KsDbUnavailable { error }) && error@
            == (match parsed.error {
            Some(e) => e@,
            None => "ok:false with no error field"@,
        })),
{
    if parsed.ok {
        match parsed.transcript_id {
            Some(id) => {
                if id.as_str().is_empty() {
                    Err(KsError::Parse(own("response had ok:true but no transcript_id")))
                } else {
                    Ok(SaveTranscriptOutcome::Saved { transcript_id: id })
                }
            },
            None => Err(KsError::Parse(own("response had ok:true but no transcript_id"))),
        }
    } else {
        let error = match parsed.error {
            Some(e) => e,
            None => own("ok:false with no error field"),
        };
        Ok(SaveTranscriptOutcome::KsDbUnavailable { error })
    }
}

/// A `GET /health` body.
pub struct HealthBody {
    pub status: String,
}

/// Healthy exactly when the status reads `ok`.
pub fn health_outcome(parsed: HealthBody) -> (r: Result<(), KsError>)
    ensures
        parsed.status@ == "ok"@ ==> r is Ok,
        parsed.status@ != "ok"@ ==> (r matches Err(KsError::Parse(m)) && m@
            == "unexpected health status: "@ + parsed.status@),
{
    proof {
        reveal_strlit("ok");
    }
    if str_eq(parsed.status.as_str(), "ok") {
        Ok(())
    } else {
        let mut m = String::new();
        m.push_str("unexpected health status: ");
        m.push_str(parsed.status.as_str());
        proof {
            assert(m@ =~= "unexpected health status: "@ + parsed.status@);
        }
        Err(KsError::Parse(m))
    }
}

/// One concept node, as the store describes it.
#[derive(Debug, Clone, PartialEq, Eq)]
pub struct KsNode {
    pub id: String,
    pub title: String,
    pub subject: String,
    pub summary: String,
}

/// The `{"error": ...}` body of the store's own errors.
pub struct KsErrorBody {
    pub error: String,
}

/// What a `GET /nodes/{id}` call established.
#[derive(Debug)]
pub enum ByIdOutcome {
    Found(KsNode),
    /// The store's documented 404: there is no such node.
    NotFound,
    /// A 404 that did not come from the store: the route is not deployed.
    RouteAbsent,
}

/// Tell the store's "no such node" from the web framework's "no such route":
/// only a JSON body naming `node_not_found` is the former. `parsed` is the
/// body read as the store's error shape, `None` when it is not that shape.
pub fn classify_not_found(parsed: Option<KsErrorBody>) -> (o: ByIdOutcome)
    ensures
        (parsed matches Some(b) && b.error@ == "node_not_found"@) ==> o is NotFound,
        !(parsed matches Some(b) && b.error@ == "node_not_found"@) ==> o is RouteAbsent,
{
    proof {
        reveal_strlit("node_not_found");
    }
    match parsed {
        Some(b) => if str_eq(b.error.as_str(), ERROR_NODE_NOT_FOUND) {
            ByIdOutcome::NotFound
        } else {
            ByIdOutcome::RouteAbsent
        },
        None => ByIdOutcome::RouteAbsent,
    }
}

/// What a by-id lookup leads to: an answer, or a list scan.
#[derive(Debug)]
pub enum NodeLookup {
    Answer(Option<KsNode>),
    ScanList,
}

pub fn after_by_id(o: ByIdOutcome) -> (r: NodeLookup)
    ensures
        o matches ByIdOutcome::Found(n) ==> r == NodeLookup::Answer(Some(n)),
        o is NotFound ==> r == NodeLookup::Answer(None),
        o is RouteAbsent ==> r is ScanList,
{
    match o {
        ByIdOutcome::Found(n) => NodeLookup::Answer(Some(n)),
        ByIdOutcome::NotFound => NodeLookup::Answer(None),
        ByIdOutcome::RouteAbsent => NodeLookup::ScanList,
    }
}

/// Whether a node's id, trimmed, parses to `id`.
pub open spec fn id_matches(n: KsNode, id: u128) -> bool {
    uuid_parse(trim(n.id@)) == Some(id)
}

/// The first node whose id parses to `id`.
pub open spec fn first_matching(nodes: Seq<KsNode>, id: u128) -> Option<KsNode>
    decreases nodes.len(),
{
    if nodes.len() == 0 {
        None
    } else if id_matches(nodes[0], id) {
        Some(nodes[0])
    } else {
        first_matching(nodes.drop_first(), id)
    }
}

proof fn lemma_first_matching_skip(nodes: Seq<KsNode>, id: u128, i: int)
    requires
        0 <= i < nodes.len(),
        !id_matches(nodes[i], id),
    ensures
        first_matching(nodes.skip(i), id) == first_matching(nodes.skip(i + 1), id),
{
    assert(nodes.skip(i).drop_first() =~= nodes.skip(i + 1));
}

/// Pick the node whose id is `node_id`, comparing parsed UUIDs so that case
/// or surrounding whitespace cannot cause a miss; a node whose id does not
/// parse is skipped.
pub fn find_node_by_id(nodes: Vec<KsNode>, node_id: u128) -> (r: Option<KsNode>)
    ensures
        r == first_matching(nodes@, node_id),
{
    let mut pool = nodes;
    let ghost all = pool@;
    let mut i: usize = 0;
    proof {
        assert(all.skip(0) =~= all);
    }
    while i < pool.len()
        invariant
            pool@ == all,
            all == nodes@,
            i <= all.len(),
            first_matching(all.skip(i as int), node_id) == first_matching(all, node_id),
        decreases all.len() - i,
    {
        let t = trimmed(pool[i].id.as_str());
        let parsed = parse_uuid(t.as_str());
        let hit = match parsed {
            Some(p) => p == node_id,
            None => false,
        };
        if hit {
            proof {
                assert(all.skip(i as int)[0] == all[i as int]);
                assert(id_matches(all[i as int], node_id));
                assert(first_matching(all.skip(i as int), node_id) == Some(all[i as int]));
            }
            let n = pool.remove(i);
            return Some(n);
        }
        proof {
            lemma_first_matching_skip(all, node_id, i as int);
        }
        i = i + 1;
    }
    proof {
        assert(all.skip(i as int).len() == 0);
    }
    None
}

/// The token to authenticate with: set and non-empty, or no client at all
/// (the store is auxiliary; its absence never stops a session).
pub fn token_from(raw: Option<String>) -> (r: Option<String>)
    ensures
        r == (match raw {
            Some(k) => if k@.len() == 0 {
                None
            } else {
                Some(k)
            },
            None => None,
        }),
{
    non_empty(raw)
}

} // verus!

//! The Todoist task protocol used to file weak-card review tasks: the
//! requests' paths, and what each answer means. The HTTP calls are made by
//! the server.
use vstd::prelude::*;
use crate::text::{decimal, first_chars, non_empty, own, push_decimal, take_chars};

verus! {

pub const BASE_URL: &'static str = "https://api.todoist.com/api/v1";

/// The label the scheduler reads as "ongoing review"; the `@` is part of the
/// label's name.
pub const ONTAP_LABEL: &'static str = "@ontap";

/// Seconds a call may take: these calls sit inside a review.
pub const REQUEST_TIMEOUT_SECS: u64 = 5;

/// What an update found out about the task.
#[derive(Debug, Clone, Copy, PartialEq, Eq, Structural)]
pub enum RemoteTaskState {
    Open,
    /// Completed or deleted on Todoist's side.
    Gone,
}

#[derive(Debug, Clone, PartialEq, Eq)]
pub enum TodoistError {
    /// Todoist did not answer.
    Unreachable(String),
    /// A non-success status.
    Http { status: u16, body: String },
    /// The body did not match the documented schema.
    Parse(String),
}

pub open spec fn todoist_error_text(e: TodoistError) -> Seq<char> {
    match e {
        TodoistError::Unreachable(m) => "Todoist unreachable: "@ + m@,
        TodoistError::Http { status, body } => "Todoist HTTP "@ + decimal(status as nat) + ": "@
            + take_chars(body@, 500),
        TodoistError::Parse(m) => "Todoist parse error: "@ + m@,
    }
}

impl TodoistError {
    /// Whether retrying can never help on its own: the token is missing,
    /// wrong or revoked (401 or 403). Every other failure is one the next
    /// review retries.
    pub fn is_permanent(&self) -> (b: bool)
        ensures
            b == (self matches TodoistError::Http { status, .. } && (status == 401 || status
                == 403)),
    {
        match self {
            TodoistError::Http { status, .. } => *status == 401 || *status == 403,
            _ => false,
        }
    }

    /// Whether this is the 404 of a task that no longer exists.
    pub fn is_not_found(&self) -> (b: bool)
        ensures
            b == (self matches TodoistError::Http { status, .. } && status == 404),
    {
        match self {
            TodoistError::Http { status, .. } => *status == 404,
            _ => false,
        }
    }

    pub fn message(&self) -> (s: String)
        ensures
            s@ == todoist_error_text(*self),
    {
        let mut s = String::new();
        match self {
            TodoistError::Unreachable(m) => {
                s.push_str("Todoist unreachable: ");
                s.push_str(m.as_str());
            },
            TodoistError::Http { status, body } => {
                s.push_str("Todoist HTTP ");
                push_decimal(&mut s, *status as u64);
                s.push_str(": ");
                let snippet = first_chars(body.as_str(), 500);
                s.push_str(snippet.as_str());
            },
            TodoistError::Parse(m) => {
                s.push_str("Todoist parse error: ");
                s.push_str(m.as_str());
            },
        }
        proof {
            assert(s@ =~= todoist_error_text(*self));
        }
        s
    }
}

/// Only a 2xx answer is worth reading.
pub fn check_status(status: u16, body: &str) -> (r: Result<(), TodoistError>)
    ensures
        200 <= status < 300 ==> r is Ok,
        !(200 <= status < 300) ==> (r matches Err(TodoistError::Http { status: s, body: b }) && s
            == status && b@ == body@),
{
    if 200 <= status && status < 300 {
        Ok(())
    } else {
        Err(TodoistError::Http { status, body: own(body) })
    }
}

/// The error for a body that did not parse: the parser's complaint and the
/// start of the body.
pub fn body_parse_error(detail: &str, body: &str) -> (e: TodoistError)
    ensures
        e matches TodoistError::Parse(m) && m@ == detail@ + "; body snippet: "@ + take_chars(
            body@,
            500,
        ),
{
    let mut m = String::new();
    m.push_str(detail);
    m.push_str("; body snippet: ");
    let snippet = first_chars(body, 500);
    m.push_str(snippet.as_str());
    proof {
        assert(m@ =~= detail@ + "; body snippet: "@ + take_chars(body@, 500));
    }
    TodoistError::Parse(m)
}

/// The fields of a task this client reads; the two flags default to `false`
/// when absent.
#[derive(Debug)]
pub struct TaskBody {
    pub id: String,
    pub checked: bool,
    pub is_deleted: bool,
}

/// A parsed task is usable only with a non-empty id.
pub fn checked_task(task: TaskBody) -> (r: Result<TaskBody, TodoistError>)
    ensures
        task.id@.len() > 0 ==> r == Ok::<TaskBody, TodoistError>(task),
        task.id@.len() == 0 ==> (r matches Err(TodoistError::Parse(m)) && m@
            == "task in response has an empty id"@),
{
    if task.id.as_str().is_empty() {
        Err(TodoistError::Parse(own("task in response has an empty id")))
    } else {
        Ok(task)
    }
}

/// A task completed or deleted on Todoist's side is gone.
pub fn remote_state(task: &TaskBody) -> (s: RemoteTaskState)
    ensures
        s == (if task.checked || task.is_deleted {
            RemoteTaskState::Gone
        } else {
            RemoteTaskState::Open
        }),
{
    if task.checked || task.is_deleted {
        RemoteTaskState::Gone
    } else {
        RemoteTaskState::Open
    }
}

/// `/tasks/{id}`, the path of an update.
pub fn task_path(task_id: &str) -> (p: String)
    ensures
        p@ == "/tasks/"@ + task_id@,
{
    let mut p = String::new();
    p.push_str("/tasks/");
    p.push_str(task_id);
    proof {
        assert(p@ =~= "/tasks/"@ + task_id@);
    }
    p
}

/// `/tasks/{id}/close`, the path that completes a task.
pub fn close_path(task_id: &str) -> (p: String)
    ensures
        p@ == "/tasks/"@ + task_id@ + "/close"@,
{
    let mut p = task_path(task_id);
    p.push_str("/close");
    p
}

/// The token to authenticate with: set and non-empty, or no client (a
/// review is recorded whether or not a task can be filed about it).
pub fn token_from(raw: Option<String>) -> (r: Option<String>)
    ensures
        r == (match raw {
            Some(k) => if k@.len() == 0 {
                None
            } else {
                Some(k)
            },
            None => None,
        }),
{
    non_empty(raw)
}

} // verus!

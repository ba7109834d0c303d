use mnemosyne::todoist::{
    body_parse_error, check_status, checked_task, close_path, remote_state, task_path,
    RemoteTaskState, TaskBody, TodoistError,
};

#[test]
fn non_success_statuses_become_http_errors() {
    assert!(check_status(200, "").is_ok());
    assert!(check_status(204, "").is_ok());
    assert_eq!(
        check_status(410, "This endpoint is deprecated."),
        Err(TodoistError::Http { status: 410, body: "This endpoint is deprecated.".into() })
    );
}

#[test]
fn only_auth_failures_are_permanent() {
    for status in [401, 403] {
        assert!(TodoistError::Http { status, body: String::new() }.is_permanent());
    }
    for status in [400, 404, 429, 500, 503] {
        assert!(!TodoistError::Http { status, body: String::new() }.is_permanent());
    }
    assert!(!TodoistError::Unreachable("timeout".into()).is_permanent());
    assert!(!TodoistError::Parse("bad".into()).is_permanent());
}

#[test]
fn a_missing_task_is_recognised() {
    assert!(TodoistError::Http { status: 404, body: String::new() }.is_not_found());
    assert!(!TodoistError::Http { status: 410, body: String::new() }.is_not_found());
    assert!(!TodoistError::Unreachable("x".into()).is_not_found());
}

#[test]
fn a_completed_or_deleted_task_reads_as_gone() {
    let task = |checked, is_deleted| TaskBody { id: "1".into(), checked, is_deleted };
    assert_eq!(remote_state(&task(false, false)), RemoteTaskState::Open);
    assert_eq!(remote_state(&task(true, false)), RemoteTaskState::Gone);
    assert_eq!(remote_state(&task(false, true)), RemoteTaskState::Gone);
}

#[test]
fn a_task_without_an_id_is_refused() {
    let empty = checked_task(TaskBody { id: String::new(), checked: false, is_deleted: false });
    assert!(matches!(empty, Err(TodoistError::Parse(m)) if m == "task in response has an empty id"));
    let ok = checked_task(TaskBody { id: "6XGgmFVcrG5RRjVr".into(), checked: false, is_deleted: false });
    assert_eq!(ok.unwrap().id, "6XGgmFVcrG5RRjVr");
}

#[test]
fn task_paths_and_errors_are_spelled_out() {
    assert_eq!(task_path("abc"), "/tasks/abc");
    assert_eq!(close_path("abc"), "/tasks/abc/close");
    assert_eq!(TodoistError::Http { status: 500, body: "boom".into() }.message(), "Todoist HTTP 500: boom");
    assert_eq!(
        body_parse_error("expected value", "<html>"),
        TodoistError::Parse("expected value; body snippet: <html>".to_string())
    );
}

/// A task body as the client reads it: JSON into the fields it uses (the
/// flags default to false), then the library's check on the id.
fn parse_task(body: &str) -> Result<TaskBody, TodoistError> {
    let v: serde_json::Value = serde_json::from_str(body).map_err(|e| TodoistError::Parse(e.to_string()))?;
    let id = v["id"].as_str().ok_or_else(|| TodoistError::Parse("missing field `id`".into()))?;
    checked_task(TaskBody {
        id: id.to_string(),
        checked: v["checked"].as_bool().unwrap_or(false),
        is_deleted: v["is_deleted"].as_bool().unwrap_or(false),
    })
}

#[test]
fn create_response_yields_the_string_id() {
    let body = r#"{"id":"6XGgmFVcrG5RRjVr","content":"Buy milk","labels":["@ontap"],
        "checked":false,"is_deleted":false,"project_id":"6XGgm6PHrGgMpCFX","due":null}"#;
    assert_eq!(parse_task(body).unwrap().id, "6XGgmFVcrG5RRjVr");
}

#[test]
fn a_response_without_an_id_is_a_parse_error() {
    assert!(matches!(parse_task(r#"{"content":"x"}"#), Err(TodoistError::Parse(_))));
    assert!(matches!(parse_task(r#"{"id":""}"#), Err(TodoistError::Parse(_))));
    assert!(matches!(parse_task("<html>502</html>"), Err(TodoistError::Parse(_))));
}

use mnemosyne::ks::{
    after_by_id, base_url_for_port, base_url_from, check_status, classify_not_found,
    find_node_by_id, health_outcome, nodes_query, percent_encode_query_value, save_outcome,
    ByIdOutcome, HealthBody, KsError, KsErrorBody, KsNode, NodeLookup, SaveTranscriptBody,
    SaveTranscriptOutcome, TranscriptTurn, DEFAULT_PORT, NODE_LOOKUP_LIMIT,
};
use uuid::Uuid;

fn node(id: &str, title: &str) -> KsNode {
    KsNode {
        id: id.to_string(),
        title: title.to_string(),
        subject: "Vật lý".to_string(),
        summary: "…".to_string(),
    }
}

const NODE_A: &str = "5248a55b-ca35-4a33-8479-09d0ec0a6784";
const NODE_B: &str = "8bea853e-1cea-4114-a3b5-e77b487b88b9";

fn id(s: &str) -> u128 {
    Uuid::parse_str(s).unwrap().as_u128()
}

#[test]
fn success_status_passes_through() {
    assert!(check_status(200, r#"{"ok": true}"#).is_ok());
}

#[test]
fn bad_request_maps_to_http_400() {
    let err = check_status(400, "missing session_ref").unwrap_err();
    assert_eq!(err, KsError::Http { status: 400, body: "missing session_ref".to_string() });
}

#[test]
fn missing_auth_header_maps_to_http_401() {
    let err = check_status(401, "unauthorized").unwrap_err();
    assert!(matches!(err, KsError::Http { status: 401, .. }));
}

#[test]
fn wrong_token_maps_to_http_403() {
    let err = check_status(403, "forbidden").unwrap_err();
    assert!(matches!(err, KsError::Http { status: 403, .. }));
}

#[test]
fn server_error_is_surfaced_not_swallowed() {
    let err = check_status(500, "traceback...").unwrap_err();
    assert!(matches!(err, KsError::Http { status: 500, .. }));
}

#[test]
fn socratic_roles_map_onto_the_coach_learner_pair() {
    assert_eq!(TranscriptTurn::from_socratic_role("assistant", "q?"), Some(TranscriptTurn::coach("q?")));
    assert_eq!(TranscriptTurn::from_socratic_role("user", "a."), Some(TranscriptTurn::learner("a.")));
    assert_eq!(TranscriptTurn::from_socratic_role("system", "x"), None);
}

#[test]
fn query_values_are_percent_encoded() {
    assert_eq!(percent_encode_query_value("physics"), "physics");
    assert_eq!(percent_encode_query_value("earth science"), "earth%20science");
    assert_eq!(percent_encode_query_value("Vật lý"), "V%E1%BA%ADt%20l%C3%BD");
    assert_eq!(percent_encode_query_value("a&b=c"), "a%26b%3Dc");
}

#[test]
fn base_url_is_localhost_only() {
    assert_eq!(base_url_for_port("8080"), "http://127.0.0.1:8080");
    assert_eq!(base_url_for_port("9999"), "http://127.0.0.1:9999");
}

#[test]
fn an_explicit_url_wins_over_the_port() {
    assert_eq!(base_url_from(Some("http://knowledge-store:8080/"), Some("9999")), "http://knowledge-store:8080");
}

#[test]
fn without_a_url_the_old_loopback_rule_still_holds() {
    assert_eq!(base_url_from(None, Some("8082")), "http://127.0.0.1:8082");
    assert_eq!(base_url_from(Some("  "), Some("8082")), "http://127.0.0.1:8082");
    assert_eq!(base_url_from(None, None), format!("http://127.0.0.1:{DEFAULT_PORT}"));
}

#[test]
fn lookup_finds_the_requested_node() {
    let nodes = vec![node(NODE_A, "Định luật II Newton"), node(NODE_B, "Gia tốc")];
    let found = find_node_by_id(nodes, id(NODE_B)).unwrap();
    assert_eq!(found.title, "Gia tốc");
}

#[test]
fn lookup_of_an_absent_node_is_none_not_an_error() {
    let nodes = vec![node(NODE_A, "Định luật II Newton")];
    assert!(find_node_by_id(nodes, id(NODE_B)).is_none());
}

#[test]
fn lookup_compares_uuids_not_raw_strings() {
    let nodes = vec![node(&NODE_A.to_uppercase(), "Định luật II Newton")];
    assert!(find_node_by_id(nodes, id(NODE_A)).is_some());
}

#[test]
fn lookup_skips_a_node_whose_id_does_not_parse() {
    let nodes = vec![node("not-a-uuid", "rác"), node(NODE_A, "Định luật II Newton")];
    let found = find_node_by_id(nodes, id(NODE_A)).unwrap();
    assert_eq!(found.title, "Định luật II Newton");
}

#[test]
fn lookup_tolerates_whitespace_around_an_id() {
    let nodes = vec![node(&format!("  {NODE_B} "), "Gia tốc")];
    assert!(find_node_by_id(nodes, id(NODE_B)).is_some());
}

#[test]
fn nodes_query_is_empty_when_nothing_is_constrained() {
    assert_eq!(nodes_query(None, None), "");
}

#[test]
fn nodes_query_states_the_limit_for_a_by_id_lookup() {
    assert_eq!(nodes_query(None, Some(NODE_LOOKUP_LIMIT)), "?limit=500");
}

#[test]
fn nodes_query_encodes_subject_and_combines_params() {
    assert_eq!(nodes_query(Some("Vật lý"), Some(10)), "?subject=V%E1%BA%ADt%20l%C3%BD&limit=10");
    assert_eq!(nodes_query(Some("a b"), None), "?subject=a%20b");
}

#[test]
fn a_delivered_save_is_saved_or_reports_the_stores_database() {
    let saved = save_outcome(SaveTranscriptBody {
        ok: true,
        transcript_id: Some("298178c8-1a0c-4d2c-adce-b143f6247a30".into()),
        error: None,
    });
    assert_eq!(
        saved,
        Ok(SaveTranscriptOutcome::Saved { transcript_id: "298178c8-1a0c-4d2c-adce-b143f6247a30".to_string() })
    );
    let down = save_outcome(SaveTranscriptBody { ok: false, transcript_id: None, error: Some("connection refused".into()) });
    assert_eq!(down, Ok(SaveTranscriptOutcome::KsDbUnavailable { error: "connection refused".to_string() }));
    let bare = save_outcome(SaveTranscriptBody { ok: false, transcript_id: None, error: None });
    assert_eq!(bare, Ok(SaveTranscriptOutcome::KsDbUnavailable { error: "ok:false with no error field".to_string() }));
    for id in [None, Some(String::new())] {
        let broken = save_outcome(SaveTranscriptBody { ok: true, transcript_id: id, error: None });
        assert_eq!(broken, Err(KsError::Parse("response had ok:true but no transcript_id".to_string())));
    }
}

#[test]
fn health_is_ok_only_for_the_documented_status() {
    assert!(health_outcome(HealthBody { status: "ok".into() }).is_ok());
    assert_eq!(
        health_outcome(HealthBody { status: "degraded".into() }),
        Err(KsError::Parse("unexpected health status: degraded".to_string()))
    );
}

#[test]
fn only_the_stores_own_not_found_means_no_such_node() {
    assert!(matches!(classify_not_found(Some(KsErrorBody { error: "node_not_found".into() })), ByIdOutcome::NotFound));
    assert!(matches!(classify_not_found(Some(KsErrorBody { error: "something_else".into() })), ByIdOutcome::RouteAbsent));
    assert!(matches!(classify_not_found(None), ByIdOutcome::RouteAbsent));
    assert!(matches!(after_by_id(ByIdOutcome::NotFound), NodeLookup::Answer(None)));
    assert!(matches!(after_by_id(ByIdOutcome::RouteAbsent), NodeLookup::ScanList));
    assert!(matches!(
        after_by_id(ByIdOutcome::Found(node(NODE_A, "t"))),
        NodeLookup::Answer(Some(ref n)) if n.title == "t"
    ));
}

#[test]
fn store_errors_render_with_their_cause() {
    assert_eq!(KsError::Unreachable("refused".into()).message(), "knowledge store unreachable: refused");
    assert_eq!(KsError::Http { status: 403, body: "no".into() }.message(), "knowledge store HTTP 403: no");
    assert_eq!(KsError::Parse("bad".into()).message(), "knowledge store parse error: bad");
}

/// The body as the client reads it: JSON into the documented fields, a
/// body that is not JSON, or lacks `ok`, being a parse error.
fn parse_save(body: &str) -> Result<SaveTranscriptOutcome, KsError> {
    let v: serde_json::Value =
        serde_json::from_str(body).map_err(|e| KsError::Parse(e.to_string()))?;
    let ok = v["ok"].as_bool().ok_or_else(|| KsError::Parse("missing field `ok`".into()))?;
    save_outcome(SaveTranscriptBody {
        ok,
        transcript_id: v["transcript_id"].as_str().map(str::to_string),
        error: v["error"].as_str().map(str::to_string),
    })
}

fn parse_health(body: &str) -> Result<(), KsError> {
    let v: serde_json::Value =
        serde_json::from_str(body).map_err(|e| KsError::Parse(e.to_string()))?;
    let status = v["status"].as_str().ok_or_else(|| KsError::Parse("missing field `status`".into()))?;
    health_outcome(HealthBody { status: status.to_string() })
}

fn classify(body: &str) -> ByIdOutcome {
    let parsed = serde_json::from_str::<serde_json::Value>(body)
        .ok()
        .and_then(|v| v["error"].as_str().map(|e| KsErrorBody { error: e.to_string() }));
    classify_not_found(parsed)
}

#[test]
fn parses_ok_true_into_saved() {
    let body = r#"{"ok": true, "transcript_id": "298178c8-1a0c-4d2c-adce-b143f6247a30"}"#;
    assert_eq!(
        parse_save(body).unwrap(),
        SaveTranscriptOutcome::Saved { transcript_id: "298178c8-1a0c-4d2c-adce-b143f6247a30".to_string() }
    );
}

#[test]
fn parses_ok_false_into_ks_db_unavailable_not_an_error() {
    let body = r#"{"ok": false, "transcript_id": null, "error": "connection refused"}"#;
    assert_eq!(
        parse_save(body).unwrap(),
        SaveTranscriptOutcome::KsDbUnavailable { error: "connection refused".to_string() }
    );
}

#[test]
fn ok_false_without_error_field_still_reports_db_unavailable() {
    let body = r#"{"ok": false}"#;
    assert!(matches!(parse_save(body).unwrap(), SaveTranscriptOutcome::KsDbUnavailable { .. }));
}

#[test]
fn ok_true_without_transcript_id_is_a_parse_error() {
    let body = r#"{"ok": true, "transcript_id": null}"#;
    assert!(matches!(parse_save(body), Err(KsError::Parse(_))));
}

#[test]
fn malformed_body_is_a_parse_error() {
    assert!(matches!(parse_save("<html>502 Bad Gateway</html>"), Err(KsError::Parse(_))));
}

#[test]
fn health_accepts_documented_body() {
    assert!(parse_health(r#"{"status": "ok"}"#).is_ok());
}

#[test]
fn health_rejects_unexpected_status_value() {
    assert!(matches!(parse_health(r#"{"status": "degraded"}"#), Err(KsError::Parse(_))));
}

#[test]
fn a_json_404_from_ks_means_the_node_does_not_exist() {
    assert!(matches!(
        classify(r#"{"error":"node_not_found","detail":"no node with that id"}"#),
        ByIdOutcome::NotFound
    ));
}

#[test]
fn an_html_404_means_the_route_is_not_deployed() {
    let werkzeug = "<!doctype html>\n<html lang=en>\n<title>404 Not Found</title>\n                        <h1>Not Found</h1>\n<p>The requested URL was not found on the server.</p>";
    assert!(matches!(classify(werkzeug), ByIdOutcome::RouteAbsent));
}

#[test]
fn an_unrecognised_json_404_falls_back_rather_than_guessing() {
    assert!(matches!(classify(r#"{"error":"something_else"}"#), ByIdOutcome::RouteAbsent));
}

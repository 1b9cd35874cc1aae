use gitless_sync::error::GitlessError;
use gitless_sync::graphql::{parse_chunk, AliasHistory, GraphqlChunkResponse, GraphqlErrorEntry};
use gitless_sync::timestamp::Timestamp;

fn hist(alias: &str, dates: &[&str]) -> AliasHistory {
    AliasHistory { alias: alias.to_string(), committed_dates: dates.iter().map(|d| d.to_string()).collect() }
}

fn paths(v: &[&str]) -> Vec<String> {
    v.iter().map(|s| s.to_string()).collect()
}

#[test]
fn parse_chunk_merges_into_out_map() {
    let resp = GraphqlChunkResponse {
        errors: vec![],
        target: Some(vec![hist("a1", &["2026-05-07T10:00:01Z"]), hist("a0", &["2026-05-07T10:00:00Z"])]),
    };
    let out = parse_chunk(&resp, &paths(&["x.md", "y.md"]), "main").unwrap();
    assert_eq!(out.len(), 2);
    assert_eq!(out[0], ("x.md".to_string(), Timestamp { secs: 1778148000, nanos: 0 }));
    assert_eq!(out[1], ("y.md".to_string(), Timestamp { secs: 1778148001, nanos: 0 }));
}

#[test]
fn parse_rate_limited_extension_code_maps_to_rate_limit_exceeded() {
    let resp = GraphqlChunkResponse {
        errors: vec![GraphqlErrorEntry { code: "RATE_LIMITED".to_string(), message: "slow down".to_string() }],
        target: None,
    };
    assert!(matches!(parse_chunk(&resp, &paths(&["x.md"]), "main"), Err(GitlessError::RateLimitExceeded { .. })));
}

#[test]
fn parse_unauthenticated_extension_code_maps_to_auth_failed() {
    let resp = GraphqlChunkResponse {
        errors: vec![GraphqlErrorEntry { code: "UNAUTHENTICATED".to_string(), message: "x".to_string() }],
        target: None,
    };
    assert!(matches!(parse_chunk(&resp, &paths(&["x.md"]), "main"), Err(GitlessError::AuthFailed)));
}

#[test]
fn parse_partial_errors_with_data_present_returns_fail() {
    let resp = GraphqlChunkResponse {
        errors: vec![GraphqlErrorEntry { code: "NOT_FOUND".to_string(), message: "gone".to_string() }],
        target: Some(vec![hist("a0", &["2026-05-07T10:00:00Z"])]),
    };
    assert_eq!(
        parse_chunk(&resp, &paths(&["x.md"]), "main").unwrap_err(),
        GitlessError::Http("graphql error NOT_FOUND: gone".to_string())
    );
}

#[test]
fn missing_target_returns_http_with_branch_name() {
    let resp = GraphqlChunkResponse { errors: vec![], target: None };
    assert_eq!(
        parse_chunk(&resp, &paths(&["x.md"]), "dev").unwrap_err(),
        GitlessError::Http("graphql: ref refs/heads/dev target missing in response".to_string())
    );
}

#[test]
fn missing_alias_returns_http() {
    let resp = GraphqlChunkResponse { errors: vec![], target: Some(vec![hist("a0", &["2026-05-07T10:00:00Z"])]) };
    assert_eq!(
        parse_chunk(&resp, &paths(&["x.md", "y.md"]), "main").unwrap_err(),
        GitlessError::Http("graphql: missing alias a1 for path y.md".to_string())
    );
}

#[test]
fn empty_nodes_returns_http() {
    let resp = GraphqlChunkResponse { errors: vec![], target: Some(vec![hist("a0", &[])]) };
    assert_eq!(
        parse_chunk(&resp, &paths(&["x.md"]), "main").unwrap_err(),
        GitlessError::Http("no commits found for path: x.md".to_string())
    );
}

#[test]
fn invalid_committed_date_returns_http() {
    let resp = GraphqlChunkResponse { errors: vec![], target: Some(vec![hist("a0", &["nope"])]) };
    match parse_chunk(&resp, &paths(&["x.md"]), "main") {
        Err(GitlessError::Http(m)) => assert!(m.starts_with("parse graphql commit date: "), "got: {m}"),
        other => panic!("expected Http, got {other:?}"),
    }
}

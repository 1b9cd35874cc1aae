use gitless_sync::error::{map_gh_error, map_graphql_error, GitlessError};

#[test]
fn map_gh_error_bad_credentials_returns_auth_failed() {
    let err = map_gh_error("gh: Bad credentials (HTTP 401)");
    assert!(matches!(err, GitlessError::AuthFailed));
}

#[test]
fn map_gh_error_secondary_rate_takes_precedence_over_primary_substring() {
    let err = map_gh_error("gh: secondary rate limit exceeded ...");
    assert!(matches!(err, GitlessError::RateLimitExceeded { .. }));
}

#[test]
fn map_gh_error_primary_rate_returns_rate_limit() {
    let err = map_gh_error("gh: API rate limit exceeded for user XXX. (HTTP 403)");
    assert!(matches!(err, GitlessError::RateLimitExceeded { .. }));
}

#[test]
fn map_gh_error_unknown_returns_http_with_stderr_preserved() {
    let stderr = "gh: weird thing happened";
    let err = map_gh_error(stderr);
    match err {
        GitlessError::Http(msg) => assert_eq!(msg, stderr),
        other => panic!("expected Http, got {other:?}"),
    }
}

#[test]
fn map_gh_error_bad_credentials_wins_over_rate_limit() {
    let err = map_gh_error("Bad credentials and API rate limit exceeded");
    assert!(matches!(err, GitlessError::AuthFailed));
}

#[test]
fn exit_codes_follow_the_documented_table() {
    assert_eq!(GitlessError::Config("x".to_string()).exit_code(), 1);
    assert_eq!(GitlessError::Io("x".to_string()).exit_code(), 1);
    assert_eq!(GitlessError::AuthFailed.exit_code(), 2);
    assert_eq!(GitlessError::RateLimitExceeded { reset_at: String::new() }.exit_code(), 3);
    assert_eq!(GitlessError::Http("x".to_string()).exit_code(), 3);
    assert_eq!(GitlessError::PartialFailure { failed_count: 1 }.exit_code(), 4);
    assert_eq!(GitlessError::TreesTruncated.exit_code(), 5);
    assert_eq!(GitlessError::BrokenPipe.exit_code(), 0);
}

#[test]
fn graphql_error_codes_map_to_errors() {
    assert!(matches!(map_graphql_error("UNAUTHENTICATED", "x"), GitlessError::AuthFailed));
    assert!(matches!(map_graphql_error("RATE_LIMITED", "x"), GitlessError::RateLimitExceeded { .. }));
    match map_graphql_error("NOT_FOUND", "Could not resolve") {
        GitlessError::Http(m) => assert_eq!(m, "graphql error NOT_FOUND: Could not resolve"),
        other => panic!("expected Http, got {other:?}"),
    }
}

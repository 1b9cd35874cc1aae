use gitless_sync::error::GitlessError;
use gitless_sync::github::{blob_bytes, check_gh_response, first_commit_date, tree_args, tree_files, GhResponse, TreeEntry, TreeListing};
use gitless_sync::timestamp::Timestamp;

fn te(path: &str, mode: &str, ty: &str) -> TreeEntry {
    TreeEntry { path: path.to_string(), mode: mode.to_string(), entry_type: ty.to_string(), sha: format!("sha-{path}"), size: Some(3) }
}

#[test]
fn fetch_tree_returns_blob_entries_only() {
    let listing = TreeListing {
        tree: vec![te("a.md", "100644", "blob"), te("dir", "040000", "tree"), te("b.md", "100644", "blob")],
        truncated: false,
    };
    let files = tree_files(&listing).unwrap();
    let paths: Vec<&str> = files.iter().map(|f| f.path.as_str()).collect();
    assert_eq!(paths, vec!["a.md", "b.md"]);
    assert_eq!(files[0].sha, "sha-a.md");
    assert_eq!(files[0].size, Some(3));
}

#[test]
fn fetch_tree_skips_unsupported_modes() {
    let listing = TreeListing {
        tree: vec![
            te("exe.sh", "100755", "blob"),
            te("link", "120000", "blob"),
            te("sub", "160000", "commit"),
            te("ok.md", "100644", "blob"),
        ],
        truncated: false,
    };
    let files = tree_files(&listing).unwrap();
    assert_eq!(files.len(), 1);
    assert_eq!(files[0].path, "ok.md");
}

#[test]
fn fetch_tree_truncated_returns_error() {
    let listing = TreeListing { tree: vec![te("a.md", "100644", "blob")], truncated: true };
    let err = tree_files(&listing).unwrap_err();
    assert_eq!(err, GitlessError::TreesTruncated);
    assert_eq!(err.exit_code(), 5);
}

#[test]
fn fetch_tree_auth_failed_when_bad_credentials_stderr() {
    let resp = GhResponse { stdout: vec![], stderr: "gh: Bad credentials (HTTP 401)".to_string(), exit_code: 1 };
    assert_eq!(check_gh_response(&resp).unwrap_err(), GitlessError::AuthFailed);
}

#[test]
fn fetch_tree_http_5xx_falls_through_to_http() {
    let resp = GhResponse { stdout: vec![], stderr: "gh: HTTP 502".to_string(), exit_code: 1 };
    assert_eq!(check_gh_response(&resp).unwrap_err(), GitlessError::Http("gh: HTTP 502".to_string()));
    let ok = GhResponse { stdout: b"{}".to_vec(), stderr: String::new(), exit_code: 0 };
    assert!(check_gh_response(&ok).is_ok());
}

#[test]
fn tree_args_name_the_recursive_trees_endpoint() {
    let args = tree_args("o/r", "main");
    assert!(args.iter().any(|a| a.contains("repos/o/r/git/trees/main")), "got: {args:?}");
}

#[test]
fn fetch_blob_decodes_base64_payload() {
    assert_eq!(blob_bytes("base64", "aGVsbG8K").unwrap(), b"hello\n");
}

#[test]
fn fetch_blob_strips_whitespace_in_base64() {
    assert_eq!(blob_bytes("base64", "aGVs\nbG8K\n").unwrap(), b"hello\n");
}

#[test]
fn fetch_blob_invalid_base64_returns_http_error() {
    match blob_bytes("base64", "!!!not base64!!!") {
        Err(GitlessError::Http(m)) => assert!(m.starts_with("decode blob base64: "), "got: {m}"),
        other => panic!("expected Http, got {other:?}"),
    }
}

#[test]
fn fetch_blob_unexpected_encoding_returns_http_error() {
    match blob_bytes("utf-8", "hello") {
        Err(GitlessError::Http(m)) => assert_eq!(m, "unexpected blob encoding: utf-8"),
        other => panic!("expected Http, got {other:?}"),
    }
}

#[test]
fn fetch_last_commit_at_returns_committer_date() {
    let t = first_commit_date(&vec!["2026-05-07T10:00:00Z".to_string(), "2020-01-01T00:00:00Z".to_string()], "f.md").unwrap();
    assert_eq!(t, Timestamp { secs: 1778148000, nanos: 0 });
}

#[test]
fn fetch_last_commit_at_empty_array_returns_http_error() {
    match first_commit_date(&vec![], "f.md") {
        Err(GitlessError::Http(m)) => assert_eq!(m, "no commits found for path: f.md"),
        other => panic!("expected Http, got {other:?}"),
    }
}

#[test]
fn fetch_last_commit_at_invalid_date_returns_http_error() {
    match first_commit_date(&vec!["not-a-date".to_string()], "f.md") {
        Err(GitlessError::Http(m)) => assert!(m.starts_with("parse commit date: "), "got: {m}"),
        other => panic!("expected Http, got {other:?}"),
    }
}

#[test]
fn commit_dates_with_offsets_are_converted_to_utc() {
    let a = first_commit_date(&vec!["2026-05-07T19:00:00+09:00".to_string()], "f.md").unwrap();
    let b = first_commit_date(&vec!["2026-05-07T10:00:00Z".to_string()], "f.md").unwrap();
    assert_eq!(a, b);
}

#[test]
fn fetch_blob_strips_unicode_whitespace_in_base64() {
    assert_eq!(blob_bytes("base64", "aGVs\tbG8K\u{3000}\u{a0}").unwrap(), b"hello\n");
}

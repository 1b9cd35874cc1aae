use gitless_sync::error::GitlessError;
use gitless_sync::graphql::{batch_plan, build_query, commit_batches, escape_graphql_string, split_repo, GRAPHQL_BATCH_SIZE};

fn check_escape() {
    assert_eq!(escape_graphql_string("plain"), "plain");
    assert_eq!(escape_graphql_string(r#"a"b"#), r#"a\"b"#);
    assert_eq!(escape_graphql_string(r"a\b"), r"a\\b");
    assert_eq!(escape_graphql_string("a\nb"), "a\\nb");
}

fn check_quote() {
    let paths = vec![r#"weird"name.md"#.to_string()];
    let q = build_query("owner", "repo", "main", &paths);
    assert!(q.contains(r#"path: "weird\"name.md""#), "got: {q}");
}

fn check_backslash() {
    let paths = vec![r"weird\name.md".to_string()];
    let q = build_query("owner", "repo", "main", &paths);
    assert!(q.contains(r#"path: "weird\\name.md""#), "got: {q}");
}

fn check_newline() {
    let paths = vec!["weird\nname.md".to_string()];
    let q = build_query("owner", "repo", "main", &paths);
    assert!(q.contains(r#"path: "weird\nname.md""#), "got: {q}");
}

#[test]
fn graphql_escape_graphql_string_escapes_backslash_quote_and_newline() {
    check_escape();
}

#[test]
fn graphql_build_query_escapes_path_with_quote() {
    check_quote();
}

#[test]
fn graphql_build_query_escapes_path_with_backslash() {
    check_backslash();
}

#[test]
fn graphql_build_query_escapes_path_with_newline() {
    check_newline();
}

#[test]
fn query_escape_graphql_string_escapes_backslash_quote_and_newline() {
    check_escape();
}

#[test]
fn query_build_query_escapes_path_with_quote() {
    check_quote();
}

#[test]
fn query_build_query_escapes_path_with_backslash() {
    check_backslash();
}

#[test]
fn query_build_query_escapes_path_with_newline() {
    check_newline();
}

#[test]
fn split_repo_returns_owner_and_name() {
    assert_eq!(split_repo("owner/repo").unwrap(), ("owner", "repo"));
}

#[test]
fn split_repo_without_slash_returns_config_error() {
    let err = split_repo("no-slash").unwrap_err();
    match err {
        GitlessError::Config(msg) => assert!(msg.contains("owner/name"), "got: {msg}"),
        other => panic!("expected Config, got {other:?}"),
    }
}

#[test]
fn build_query_names_one_alias_per_path_in_order() {
    let paths = vec!["a.md".to_string(), "b.md".to_string()];
    let q = build_query("owner", "repo", "dev", &paths);
    let a0 = q.find("a0: history").expect("alias a0");
    let a1 = q.find("a1: history").expect("alias a1");
    assert!(a0 < a1);
    assert!(q.contains("refs/heads/dev"));
    assert!(q.contains(r#"repository(owner: "owner", name: "repo")"#));
}

#[test]
fn batch_plan_chunks_paths_by_batch_size() {
    let paths: Vec<String> = (0..300).map(|i| format!("f{i}.md")).collect();
    let plan = batch_plan("owner", "repo", "main", &paths);
    assert_eq!(plan.len(), 2);
    assert_eq!((plan[0].start, plan[0].end), (0, GRAPHQL_BATCH_SIZE));
    assert_eq!((plan[1].start, plan[1].end), (GRAPHQL_BATCH_SIZE, 300));
    assert!(batch_plan("owner", "repo", "main", &[]).is_empty());
}

#[test]
fn commit_batches_check_the_repo_only_when_there_are_paths() {
    assert!(commit_batches("no-slash", "main", &[]).unwrap().is_empty());
    match commit_batches("no-slash", "main", &["a.md".to_string()]) {
        Err(GitlessError::Config(m)) => assert_eq!(m, "invalid repo format: no-slash (expected owner/name)"),
        other => panic!("expected Config, got {other:?}"),
    }
    let batches = commit_batches("owner/repo", "main", &["a.md".to_string()]).unwrap();
    assert_eq!(batches.len(), 1);
    assert!(batches[0].query.contains(r#"repository(owner: "owner", name: "repo")"#));
}

#[test]
fn commit_batches_cover_the_paths_in_consecutive_chunks() {
    let paths: Vec<String> = (0..450).map(|i| format!("f{i}.md")).collect();
    let batches = commit_batches("o/r", "main", &paths).unwrap();
    let ranges: Vec<(usize, usize)> = batches.iter().map(|b| (b.start, b.end)).collect();
    assert_eq!(ranges, vec![(0, 200), (200, 400), (400, 450)]);
    assert!(batches[2].query.contains("path: \"f449.md\""));
    assert!(!batches[2].query.contains("path: \"f0.md\""));
}

#[test]
fn escaped_paths_read_back_unchanged() {
    for s in ["plain", "a\"b", "a\\b", "a\nb", "\\\"\n"] {
        let e = escape_graphql_string(s);
        let mut back = String::new();
        let mut chars = e.chars();
        while let Some(c) = chars.next() {
            if c == '\\' {
                let n = chars.next().unwrap();
                back.push(if n == 'n' { '\n' } else { n });
            } else {
                back.push(c);
            }
        }
        assert_eq!(back, s);
        assert!(!e.contains('\n'));
    }
}

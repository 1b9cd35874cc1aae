use gitless_sync::diff::{compute_diff, diff_target, keys_of, remote_blob_sha, run_with_client, DiffArgs, DiffOutcome};
use gitless_sync::error::GitlessError;
use gitless_sync::size_gate::RemoteFile;

fn args(path: &str, json: bool) -> DiffArgs {
    DiffArgs {
        repo: Some("o/r".to_string()),
        branch: None,
        local: ".".to_string(),
        keep_bom: false,
        path: path.to_string(),
        remote_path: None,
        json,
    }
}

#[test]
fn neither_side_yields_config_error_naming_both_keys() {
    let err = compute_diff(&args("ghost.md", false), None, None).unwrap_err();
    match err {
        GitlessError::Config(m) => assert_eq!(m, "path not found locally or remotely: local=ghost.md remote=ghost.md"),
        other => panic!("expected Config, got {other:?}"),
    }
}

#[test]
fn local_only_returns_local_content_and_label() {
    let o = compute_diff(&args("only_local.md", false), Some(b"hello\n".to_vec()), None).unwrap();
    assert_eq!(o.stderr_message, "(local only)");
    assert_eq!(o.stdout, b"hello\n");
}

#[test]
fn remote_only_returns_normalized_remote_content() {
    let o = compute_diff(&args("r.md", false), None, Some(b"\xEF\xBB\xBFhi\r\n".to_vec())).unwrap();
    assert_eq!(o.stderr_message, "(remote only)");
    assert_eq!(o.stdout, b"hi\n");
}

#[test]
fn one_sided_binary_emits_message_only() {
    let o = compute_diff(&args("img.png", false), Some(vec![0u8, 1, 2, 3, 0, 5]), None).unwrap();
    assert!(o.stderr_message.starts_with("(local only) (binary file"), "got: {}", o.stderr_message);
    assert!(o.stdout.is_empty());
}

#[test]
fn both_sides_identical_yields_empty_diff() {
    let o = compute_diff(&args("a.md", false), Some(b"hello\n".to_vec()), Some(b"hello\n".to_vec())).unwrap();
    assert!(o.stderr_message.is_empty());
    assert!(!String::from_utf8(o.stdout).unwrap().contains("@@"));
}

#[test]
fn both_sides_different_emits_unified_diff() {
    let o = compute_diff(&args("a.md", false), Some(b"alpha\nbeta\n".to_vec()), Some(b"alpha\ngamma\n".to_vec())).unwrap();
    let s = String::from_utf8(o.stdout).unwrap();
    assert!(s.contains("--- a/a.md"), "missing a header: {s}");
    assert!(s.contains("+++ b/a.md"), "missing b header: {s}");
    assert!(s.contains("-gamma"), "missing remote line marker: {s}");
    assert!(s.contains("+beta"), "missing local line marker: {s}");
}

#[test]
fn crlf_is_normalized_before_comparing() {
    let o = compute_diff(&args("a.md", false), Some(b"hello\r\n".to_vec()), Some(b"hello\n".to_vec())).unwrap();
    assert!(!String::from_utf8(o.stdout).unwrap().contains("@@"));
}

#[test]
fn binary_side_skips_diff() {
    let o = compute_diff(&args("blob.bin", false), Some(vec![0u8, 1, 2, 3]), Some(b"hello\n".to_vec())).unwrap();
    assert_eq!(o.stderr_message, "binary file, diff skipped");
    assert!(o.stdout.is_empty());
}

#[test]
fn json_both_sides_equal_has_empty_unified() {
    let o = compute_diff(&args("a.md", true), Some(b"hello\r\n".to_vec()), Some(b"hello\n".to_vec())).unwrap();
    assert_eq!(o.stdout, b"{\"side\":\"both\",\"unified\":\"\",\"raw\":null,\"binary\":false}\n");
    assert!(o.stderr_message.is_empty());
}

#[test]
fn json_local_only_carries_raw_text() {
    let o = compute_diff(&args("a.md", true), Some(b"say \"hi\"\n".to_vec()), None).unwrap();
    assert_eq!(
        String::from_utf8(o.stdout).unwrap(),
        "{\"side\":\"local_only\",\"unified\":null,\"raw\":\"say \\\"hi\\\"\\n\",\"binary\":false}\n"
    );
}

#[test]
fn json_binary_remote_only() {
    let o = compute_diff(&args("a.bin", true), None, Some(vec![0u8, 1])).unwrap();
    assert_eq!(o.stdout, b"{\"side\":\"remote_only\",\"unified\":null,\"raw\":null,\"binary\":true}\n");
}

#[test]
fn json_both_sides_different_carries_the_diff() {
    let o = compute_diff(&args("a.md", true), Some(b"x\n".to_vec()), Some(b"y\n".to_vec())).unwrap();
    let v: serde_json::Value = serde_json::from_slice(&o.stdout).unwrap();
    assert_eq!(v["side"], "both");
    assert!(v["unified"].as_str().unwrap().contains("+x"));
    assert!(v["raw"].is_null());
}

#[test]
fn remote_path_override_names_the_a_side() {
    let mut a = args("new/name.md", false);
    a.remote_path = Some("old\\name.md".to_string());
    let (lk, rk) = keys_of(&a);
    assert_eq!((lk.as_str(), rk.as_str()), ("new/name.md", "old/name.md"));
    let o = compute_diff(&a, Some(b"x\n".to_vec()), Some(b"y\n".to_vec())).unwrap();
    let s = String::from_utf8(o.stdout).unwrap();
    assert!(s.contains("--- a/old/name.md"), "got: {s}");
    assert!(s.contains("+++ b/new/name.md"), "got: {s}");
}

#[test]
fn target_resolution_and_blob_lookup() {
    let mut a = args("a.md", false);
    a.repo = None;
    match diff_target(&a, None, None) {
        Err(GitlessError::Config(m)) => assert_eq!(m, "repo not specified"),
        other => panic!("expected Config, got {other:?}"),
    }
    assert_eq!(diff_target(&a, Some("c/d"), Some("dev")).unwrap(), ("c/d".to_string(), "dev".to_string()));
    let tree = vec![
        RemoteFile { path: "b.md".to_string(), sha: "s1".to_string(), mode: "100644".to_string(), size: None },
        RemoteFile { path: "a.md".to_string(), sha: "s2".to_string(), mode: "100644".to_string(), size: None },
    ];
    assert_eq!(remote_blob_sha(&tree, "a.md"), Some("s2".to_string()));
    assert_eq!(remote_blob_sha(&tree, "c.md"), None);
}

#[test]
fn run_with_client_writes_message_line_then_stdout() {
    let o = DiffOutcome { stdout: b"hi\n".to_vec(), stderr_message: "(local only)".to_string() };
    let (line, out) = run_with_client(Ok(o)).unwrap();
    assert_eq!(line.as_deref(), Some("(local only)\n"));
    assert_eq!(out, b"hi\n");
    let quiet = DiffOutcome { stdout: vec![], stderr_message: String::new() };
    assert_eq!(run_with_client(Ok(quiet)).unwrap().0, None);
    assert_eq!(run_with_client(Err(GitlessError::AuthFailed)).unwrap_err(), GitlessError::AuthFailed);
}

#[test]
fn json_raw_text_escapes_control_characters_like_serde_json() {
    let o = compute_diff(&args("a.md", true), Some(b"a\tb\x01\\\n".to_vec()), None).unwrap();
    assert_eq!(
        String::from_utf8(o.stdout).unwrap(),
        "{\"side\":\"local_only\",\"unified\":null,\"raw\":\"a\\tb\\u0001\\\\\\n\",\"binary\":false}\n"
    );
}

#[test]
fn json_local_only_hi_matches_the_readme_shape() {
    let o = compute_diff(&args("a.md", true), Some(b"hi\n".to_vec()), None).unwrap();
    assert_eq!(o.stdout, b"{\"side\":\"local_only\",\"unified\":null,\"raw\":\"hi\\n\",\"binary\":false}\n");
    assert!(o.stderr_message.is_empty());
}

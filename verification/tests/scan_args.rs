use gitless_sync::args::{collect_status_filter, resolve_branch, resolve_repo, retain_by_status, to_status, StatusFilter};
use gitless_sync::compare::{FileEntry, Presence, Status};
use gitless_sync::error::GitlessError;

#[test]
fn collect_status_filter_returns_none_when_empty() {
    assert!(collect_status_filter(vec![]).is_none());
}

#[test]
fn collect_status_filter_returns_some_when_non_empty() {
    assert_eq!(collect_status_filter(vec![StatusFilter::Drift]), Some(vec![StatusFilter::Drift]));
}

#[test]
fn to_status_maps_each_variant_to_corresponding_status() {
    assert_eq!(to_status(StatusFilter::Identical), Status::Identical);
    assert_eq!(to_status(StatusFilter::LocalOnlyChanged), Status::LocalOnlyChanged);
    assert_eq!(to_status(StatusFilter::RemoteOnlyChanged), Status::RemoteOnlyChanged);
    assert_eq!(to_status(StatusFilter::Drift), Status::Drift);
    assert_eq!(to_status(StatusFilter::Failed), Status::Failed);
}

fn entry(path: &str, status: Status) -> FileEntry {
    FileEntry {
        path: path.to_string(),
        status,
        presence: Presence::Both,
        local_sha: None,
        remote_sha: None,
        local_mtime: None,
        remote_last_commit_at: None,
        is_binary: false,
        mode: "100644".to_string(),
        diff_meaningful: None,
        failed_reason: None,
        lfs_pointer: None,
        size_bytes: None,
    }
}

#[test]
fn retain_by_status_keeps_selected_entries_in_order() {
    let entries = vec![
        entry("a.md", Status::Drift),
        entry("b.md", Status::Identical),
        entry("c.md", Status::LocalOnlyChanged),
        entry("d.md", Status::Drift),
    ];
    let kept = retain_by_status(entries, &vec![StatusFilter::Drift, StatusFilter::LocalOnlyChanged]);
    let paths: Vec<&str> = kept.iter().map(|e| e.path.as_str()).collect();
    assert_eq!(paths, vec!["a.md", "c.md", "d.md"]);
}

#[test]
fn resolve_branch_prefers_cli_then_config_then_main() {
    assert_eq!(resolve_branch(Some("dev"), Some("cfg")), "dev");
    assert_eq!(resolve_branch(None, Some("cfg")), "cfg");
    assert_eq!(resolve_branch(None, None), "main");
}

#[test]
fn resolve_repo_errors_when_unset() {
    assert_eq!(resolve_repo(Some("a/b"), Some("c/d")).unwrap(), "a/b");
    assert_eq!(resolve_repo(None, Some("c/d")).unwrap(), "c/d");
    match resolve_repo(None, None) {
        Err(GitlessError::Config(m)) => assert_eq!(m, "repo not specified"),
        other => panic!("expected Config, got {other:?}"),
    }
}

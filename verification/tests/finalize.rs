use gitless_sync::compare::{FailedReason, Presence, Status};
use gitless_sync::pipeline::{
    extract_commit_paths, finalize_entries, finish_pre_entry, normalize_targets, pre_entry_to_file, LocalFile,
    LocalHash, PreEntry, PreState,
};
use gitless_sync::size_gate::RemoteFile;
use gitless_sync::timestamp::Timestamp;

fn mtime(secs: i64) -> Timestamp {
    Timestamp { secs, nanos: 0 }
}

fn hashed_entry(path: &str, mode: &str, local: Option<&str>, remote: Option<&str>) -> PreEntry {
    PreEntry {
        path: path.to_string(),
        mode: mode.to_string(),
        presence: match (local, remote) {
            (Some(_), Some(_)) => Presence::Both,
            (Some(_), None) => Presence::LocalOnly,
            _ => Presence::RemoteOnly,
        },
        state: PreState::Hashed {
            local_sha: local.map(str::to_string),
            remote_sha: remote.map(str::to_string),
            local_mtime: local.map(|_| mtime(1_700_000_000)),
            is_binary: false,
        },
    }
}

fn failed_entry(path: &str, mode: &str, reason: Option<FailedReason>) -> PreEntry {
    PreEntry {
        path: path.to_string(),
        mode: mode.to_string(),
        presence: Presence::Both,
        state: PreState::Failed {
            remote_sha: Some("remote-sha".to_string()),
            local_mtime: Some(mtime(1_700_000_000)),
            failed_reason: reason,
            is_binary: false,
            size_bytes: None,
        },
    }
}

fn pending_mix() -> Vec<PreEntry> {
    vec![
        hashed_entry("identical.md", "100644", Some("abc"), Some("abc")),
        hashed_entry("changed.md", "100644", Some("local-sha"), Some("remote-sha")),
        hashed_entry("local-only.md", "100644", Some("local-sha"), None),
        hashed_entry("remote-only.md", "100644", None, Some("remote-sha")),
        failed_entry("failed.md", "120000", Some(FailedReason::Symlink)),
    ]
}

#[test]
fn finalize_extract_commit_paths_returns_only_hashed_entries_with_differing_shas() {
    assert_eq!(extract_commit_paths(&pending_mix()), vec!["changed.md".to_string()]);
}

#[test]
fn extract_extract_commit_paths_returns_only_hashed_entries_with_differing_shas() {
    assert_eq!(extract_commit_paths(&pending_mix()), vec!["changed.md".to_string()]);
}

#[test]
fn fetch_normalize_equal_map_skips_identical_sha_entries() {
    let targets = normalize_targets(&pending_mix());
    assert_eq!(targets.len(), 1);
    assert_eq!(targets[0].path, "changed.md");
    assert_eq!(targets[0].local_sha, "local-sha");
    assert_eq!(targets[0].remote_sha, "remote-sha");
}

#[test]
fn pre_entry_to_file_propagates_failed_reason_and_lfs_pointer_placeholder() {
    let pre = failed_entry("cover.psd", "100644", Some(FailedReason::LfsPointer));
    let entry = pre_entry_to_file(pre, &vec![], &vec![]);
    assert_eq!(entry.status, Status::Failed);
    assert_eq!(entry.failed_reason, Some(FailedReason::LfsPointer));
    let pointer = entry.lfs_pointer.expect("lfs_pointer reason gives the placeholder");
    assert_eq!(pointer.oid, "?");
    assert_eq!(pointer.size, 0);
}

#[test]
fn pre_entry_to_file_omits_lfs_pointer_for_non_lfs_failed_reasons() {
    for reason in [
        FailedReason::CaseCollision,
        FailedReason::Submodule,
        FailedReason::Symlink,
        FailedReason::LongPath,
        FailedReason::Encoding,
        FailedReason::NfdCollision,
        FailedReason::GitattributesUnsupported,
    ] {
        let entry = pre_entry_to_file(failed_entry("x", "100644", Some(reason)), &vec![], &vec![]);
        assert!(entry.lfs_pointer.is_none(), "{reason:?} carries lfs_pointer");
        assert!(!entry.is_binary, "{reason:?} flips is_binary");
    }
}

#[test]
fn pre_entry_to_file_preserves_is_binary_for_encoding_failure() {
    let pre = PreEntry {
        path: "u16.txt".to_string(),
        mode: "100644".to_string(),
        presence: Presence::LocalOnly,
        state: PreState::Failed {
            remote_sha: None,
            local_mtime: Some(mtime(1_700_000_000)),
            failed_reason: Some(FailedReason::Encoding),
            is_binary: true,
            size_bytes: None,
        },
    };
    let entry = pre_entry_to_file(pre, &vec![], &vec![]);
    assert_eq!(entry.status, Status::Failed);
    assert_eq!(entry.failed_reason, Some(FailedReason::Encoding));
    assert!(entry.is_binary);
}

#[test]
fn pre_entry_to_file_classifies_identical_when_shas_match_and_preserves_mode() {
    let entry = pre_entry_to_file(hashed_entry("build.sh", "100755", Some("sha-equal"), Some("sha-equal")), &vec![], &vec![]);
    assert_eq!(entry.status, Status::Identical);
    assert_eq!(entry.mode, "100755");
    assert_eq!(entry.diff_meaningful, Some(false));
    assert!(entry.failed_reason.is_none());
    assert!(entry.lfs_pointer.is_none());
}

#[test]
fn hashed_sha_differ_uses_normalize_eq_map_for_diff_meaningful() {
    let pre = hashed_entry("a.md", "100644", Some("l"), Some("r"));
    let norm = vec![("a.md".to_string(), true)];
    let entry = pre_entry_to_file(pre, &vec![], &norm);
    assert_eq!(entry.status, Status::Identical);
    assert_eq!(entry.diff_meaningful, Some(false));
    let pre = hashed_entry("a.md", "100644", Some("l"), Some("r"));
    let commits = vec![("a.md".to_string(), mtime(1_800_000_000))];
    let entry = pre_entry_to_file(pre, &commits, &vec![("a.md".to_string(), false)]);
    assert_eq!(entry.status, Status::RemoteOnlyChanged);
    assert_eq!(entry.diff_meaningful, Some(true));
    assert_eq!(entry.remote_last_commit_at, Some(mtime(1_800_000_000)));
}

#[test]
fn finalize_entries_aggregates_summary_across_mixed_states() {
    let pending = vec![
        hashed_entry("same.md", "100644", Some("abc"), Some("abc")),
        failed_entry("bad.md", "120000", Some(FailedReason::Symlink)),
        hashed_entry("local-only.md", "100644", Some("l"), None),
    ];
    let (entries, summary, failed) = finalize_entries(pending, &vec![], &vec![]);
    assert_eq!(entries.len(), 3);
    assert_eq!(summary.identical, 1);
    assert_eq!(summary.local_only_changed, 1);
    assert_eq!(summary.failed, 1);
    assert_eq!(failed, 1);
    assert_eq!(entries[2].presence, Presence::LocalOnly);
}

#[test]
fn unreadable_local_file_is_a_hash_io_failure() {
    let local = LocalFile { relative_path: "a.md".to_string(), absolute_path: "/root/a.md".to_string(), mtime: mtime(5), is_symlink: false };
    let remote = RemoteFile { path: "a.md".to_string(), sha: "r".to_string(), mode: "100644".to_string(), size: Some(3) };
    let pre = finish_pre_entry("a.md", &local, Some(&remote), LocalHash::IoError);
    let entry = pre_entry_to_file(pre, &vec![], &vec![]);
    assert_eq!(entry.status, Status::Failed);
    assert_eq!(entry.failed_reason, Some(FailedReason::HashIo));
    assert_eq!(entry.presence, Presence::Both);
}

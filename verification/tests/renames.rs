use gitless_sync::compare::{FileEntry, Presence, Status};
use gitless_sync::gitattributes::AttributeMatch;
use gitless_sync::normalize::blob_hash;
use gitless_sync::renames::{detect_renames, rename_candidates, sort_strings, FetchedBlob, RenamePair, CASE_B_UNMATCHED_CAP};

fn entry(path: &str, status: Status, local_sha: Option<&str>, remote_sha: Option<&str>) -> FileEntry {
    FileEntry {
        path: path.to_string(),
        status,
        presence: match status {
            Status::LocalOnlyChanged => Presence::LocalOnly,
            Status::RemoteOnlyChanged => Presence::RemoteOnly,
            _ => Presence::Both,
        },
        local_sha: local_sha.map(str::to_string),
        remote_sha: remote_sha.map(str::to_string),
        local_mtime: None,
        remote_last_commit_at: None,
        is_binary: false,
        mode: "100644".to_string(),
        diff_meaningful: None,
        failed_reason: None,
        lfs_pointer: None,
        size_bytes: None,
    }
}

fn local(p: &str, sha: &str) -> FileEntry {
    entry(p, Status::LocalOnlyChanged, Some(sha), None)
}

fn remote(p: &str, sha: &str) -> FileEntry {
    entry(p, Status::RemoteOnlyChanged, None, Some(sha))
}

/// Detection where every candidate fetch failed.
fn detect_offline(entries: &[FileEntry]) -> Vec<RenamePair> {
    let entries = entries.to_vec();
    let fetched: Vec<FetchedBlob> = rename_candidates(&entries)
        .iter()
        .map(|_| FetchedBlob { bytes: None, class: AttributeMatch::Default })
        .collect();
    detect_renames(&entries, &fetched, false)
}

#[test]
fn case_a_emits_single_pair_for_matching_sha() {
    let pairs = detect_offline(&[local("old/file.md", "abc"), remote("new/file.md", "abc")]);
    assert_eq!(pairs.len(), 1);
    assert_eq!(pairs[0].from, "old/file.md");
    assert_eq!(pairs[0].to, "new/file.md");
    assert_eq!(pairs[0].sha, "abc");
    assert!(pairs[0].raw_equal);
}

#[test]
fn empty_when_local_only_count_is_zero() {
    assert!(detect_offline(&[remote("new/file.md", "abc")]).is_empty());
}

#[test]
fn empty_when_remote_only_count_is_zero() {
    assert!(detect_offline(&[local("old/file.md", "abc")]).is_empty());
}

#[test]
fn disjoint_shas_emit_no_pairs() {
    assert!(detect_offline(&[local("a.md", "abc"), remote("b.md", "def")]).is_empty());
}

#[test]
fn collision_one_local_two_remote_emits_two_pairs() {
    let pairs = detect_offline(&[local("old.md", "abc"), remote("new1.md", "abc"), remote("new2.md", "abc")]);
    assert_eq!(pairs.len(), 2);
    assert!(pairs.iter().all(|p| p.from == "old.md" && p.raw_equal));
    let tos: Vec<&str> = pairs.iter().map(|p| p.to.as_str()).collect();
    assert!(tos.contains(&"new1.md") && tos.contains(&"new2.md"));
}

#[test]
fn case_b_emits_pair_when_normalize_equal_cross_path() {
    let local_norm = blob_hash(b"hello\n");
    let entries = vec![local("old.md", &local_norm), remote("new.md", "deadbeef")];
    let candidates = rename_candidates(&entries);
    assert_eq!(candidates, vec![("deadbeef".to_string(), "new.md".to_string())]);
    let fetched = vec![FetchedBlob { bytes: Some(b"hello\r\n".to_vec()), class: AttributeMatch::Default }];
    let pairs = detect_renames(&entries, &fetched, false);
    assert_eq!(pairs.len(), 1);
    assert_eq!(pairs[0].from, "old.md");
    assert_eq!(pairs[0].to, "new.md");
    assert!(!pairs[0].raw_equal);
    assert_eq!(pairs[0].sha, local_norm);
}

#[test]
fn case_b_fetch_failure_is_silently_skipped() {
    assert!(detect_offline(&[local("old.md", "abc"), remote("new.md", "def")]).is_empty());
}

#[test]
fn case_b_cap_skips_fetch_when_unmatched_exceeds_threshold() {
    let mut entries = vec![local("old.md", "abc")];
    for i in 0..=CASE_B_UNMATCHED_CAP {
        entries.push(remote(&format!("new{i}.md"), &format!("sha-{i}")));
    }
    assert!(rename_candidates(&entries).is_empty());
    assert!(detect_offline(&entries).is_empty());
}

#[test]
fn pairs_come_out_by_sha_then_path() {
    let entries = vec![
        local("z.md", "bbb"),
        local("b.md", "aaa"),
        local("a.md", "aaa"),
        remote("y.md", "aaa"),
        remote("x.md", "bbb"),
        entry("same.md", Status::Identical, Some("aaa"), Some("aaa")),
    ];
    let pairs = detect_offline(&entries);
    let got: Vec<(&str, &str, &str)> =
        pairs.iter().map(|p| (p.from.as_str(), p.to.as_str(), p.sha.as_str())).collect();
    assert_eq!(got, vec![("a.md", "y.md", "aaa"), ("b.md", "y.md", "aaa"), ("z.md", "x.md", "bbb")]);
}

#[test]
fn binary_marked_blob_is_compared_unnormalized() {
    let local_norm = blob_hash(b"hello\n");
    let entries = vec![local("old.md", &local_norm), remote("new.md", "deadbeef")];
    let fetched = vec![FetchedBlob { bytes: Some(b"hello\r\n".to_vec()), class: AttributeMatch::Binary }];
    assert!(detect_renames(&entries, &fetched, false).is_empty());
}

#[test]
fn sort_strings_orders_by_code_point() {
    let v = vec!["b".to_string(), "B".to_string(), "a".to_string(), "b".to_string()];
    assert_eq!(sort_strings(&v), vec!["B", "a", "b", "b"]);
}

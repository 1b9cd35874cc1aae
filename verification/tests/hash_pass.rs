use gitless_sync::compare::{FailedReason, Presence};
use gitless_sync::gitattributes::{parse_gitattributes, AttributeMatch};
use gitless_sync::hash_pass::{build_pre_entries, plan_pre_entries};
use gitless_sync::pipeline::{LocalFile, LocalHash, PreState};
use gitless_sync::size_gate::RemoteFile;
use gitless_sync::timestamp::Timestamp;

fn local(path: &str) -> LocalFile {
    LocalFile { relative_path: path.to_string(), absolute_path: format!("/root/{path}"), mtime: Timestamp { secs: 10, nanos: 0 }, is_symlink: false }
}

fn remote(path: &str, sha: &str) -> RemoteFile {
    RemoteFile { path: path.to_string(), sha: sha.to_string(), mode: "100644".to_string(), size: Some(5) }
}

#[test]
fn plan_covers_both_sides_in_order_and_asks_only_for_local_hashes() {
    let locals = vec![local("b.md"), local("a.md"), local("cover.psd")];
    let remotes = vec![remote("a.md", "ra"), remote("c.md", "rc")];
    let rules = parse_gitattributes("*.psd filter=lfs\n");
    let plan = plan_pre_entries(&locals, &remotes, &rules);
    assert_eq!(plan.paths(), &vec!["a.md".to_string(), "b.md".to_string(), "c.md".to_string(), "cover.psd".to_string()]);
    let requests = plan.hash_requests();
    let asked: Vec<(usize, &str)> = requests.iter().map(|q| (q.index, q.path.as_str())).collect();
    assert_eq!(asked, vec![(0, "a.md"), (1, "b.md")]);
    assert_eq!(requests[0].class, AttributeMatch::Default);

    let outcomes = vec![
        Some(LocalHash::Hashed { sha: "la".to_string(), is_binary: false }),
        None,
        None,
        None,
    ];
    let pending = build_pre_entries(plan, outcomes);
    assert_eq!(pending.len(), 4);
    assert_eq!(pending[0].presence, Presence::Both);
    assert!(matches!(&pending[0].state, PreState::Hashed { local_sha: Some(s), .. } if s == "la"));
    // No outcome handed in for b.md: a read failure.
    assert!(matches!(pending[1].state, PreState::Failed { failed_reason: Some(FailedReason::HashIo), .. }));
    assert_eq!(pending[2].presence, Presence::RemoteOnly);
    assert!(matches!(&pending[2].state, PreState::Hashed { local_sha: None, remote_sha: Some(r), .. } if r == "rc"));
    assert!(matches!(pending[3].state, PreState::Failed { failed_reason: Some(FailedReason::LfsPointer), .. }));
}

#[test]
fn plan_flags_duplicate_local_keys_as_nfd_collisions() {
    let locals = vec![local("가.txt"), local("가.txt")];
    let plan = plan_pre_entries(&locals, &vec![], &vec![]);
    assert_eq!(plan.paths().len(), 1);
    assert!(plan.hash_requests().is_empty());
    let pending = build_pre_entries(plan, vec![]);
    assert!(matches!(pending[0].state, PreState::Failed { failed_reason: Some(FailedReason::NfdCollision), .. }));
}

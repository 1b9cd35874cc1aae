use gitless_sync::compare::{FailedReason, Presence};
use gitless_sync::gitattributes::AttributeMatch;
use gitless_sync::pipeline::{
    build_one_pre_entry, finish_pre_entry, local_hash_from_bytes, local_hash_from_size, presence_of,
    ClassifyContext, LocalFile, LocalHash, PreState, PreStep,
};
use gitless_sync::normalize::blob_hash;
use gitless_sync::size_gate::RemoteFile;
use gitless_sync::timestamp::Timestamp;

fn cctx() -> ClassifyContext {
    ClassifyContext { case_collisions: vec![], nfd_collisions: vec![] }
}

fn remote_with_size(path: &str, size: u64) -> RemoteFile {
    RemoteFile { path: path.to_string(), sha: "remote-sha".to_string(), mode: "100644".to_string(), size: Some(size) }
}

fn local(path: &str) -> LocalFile {
    LocalFile { relative_path: path.to_string(), absolute_path: format!("/root/{path}"), mtime: Timestamp { secs: 1_700_000_000, nanos: 0 }, is_symlink: false }
}

fn failed_of(step: PreStep) -> (Option<FailedReason>, Option<u64>) {
    match step {
        PreStep::Done(pre) => match pre.state {
            PreState::Failed { failed_reason, size_bytes, .. } => (failed_reason, size_bytes),
            PreState::Hashed { .. } => panic!("expected PreState::Failed"),
        },
        PreStep::NeedsLocalHash => panic!("expected a decided entry"),
    }
}

#[test]
fn build_one_pre_entry_promotes_memory_exceeded_from_remote_size_pre_flight() {
    let n = 50 * 1024 * 1024 + 1;
    let r = remote_with_size("big.bin", n);
    let step = build_one_pre_entry("big.bin", None, Some(&r), &cctx(), &AttributeMatch::Default);
    assert_eq!(failed_of(step), (Some(FailedReason::MemoryExceeded), Some(n)));
}

#[test]
fn build_one_pre_entry_promotes_file_too_large_from_remote_size_pre_flight() {
    let n = 100 * 1024 * 1024 + 1;
    let r = remote_with_size("huge.bin", n);
    let step = build_one_pre_entry("huge.bin", None, Some(&r), &cctx(), &AttributeMatch::Default);
    assert_eq!(failed_of(step), (Some(FailedReason::FileTooLarge), Some(n)));
}

#[test]
fn remote_size_gate_wins_over_local_arm_when_remote_is_oversize() {
    let n = 100 * 1024 * 1024 + 1;
    let r = remote_with_size("huge.bin", n);
    let l = local("huge.bin");
    let step = build_one_pre_entry("huge.bin", Some(&l), Some(&r), &cctx(), &AttributeMatch::Default);
    assert_eq!(failed_of(step), (Some(FailedReason::FileTooLarge), Some(n)));
}

#[test]
fn build_one_pre_entry_carries_default_mode_for_local_only_path() {
    let l = local("local.md");
    assert!(matches!(
        build_one_pre_entry("local.md", Some(&l), None, &cctx(), &AttributeMatch::Default),
        PreStep::NeedsLocalHash
    ));
    let pre = finish_pre_entry("local.md", &l, None, LocalHash::Hashed { sha: "s".to_string(), is_binary: false });
    assert_eq!(pre.mode, "100644");
    assert_eq!(pre.presence, Presence::LocalOnly);
    assert!(matches!(pre.state, PreState::Hashed { .. }));
}

#[test]
fn remote_only_path_is_hashed_without_local_sha() {
    let r = remote_with_size("r.md", 10);
    match build_one_pre_entry("r.md", None, Some(&r), &cctx(), &AttributeMatch::Default) {
        PreStep::Done(pre) => match pre.state {
            PreState::Hashed { local_sha, remote_sha, .. } => {
                assert!(local_sha.is_none());
                assert_eq!(remote_sha.as_deref(), Some("remote-sha"));
            }
            PreState::Failed { .. } => panic!("expected Hashed"),
        },
        PreStep::NeedsLocalHash => panic!("a remote-only path needs no local hash"),
    }
}

#[test]
fn local_hash_outcomes() {
    assert!(local_hash_from_size(10).is_none());
    assert!(matches!(
        local_hash_from_size(50 * 1024 * 1024 + 1),
        Some(LocalHash::Failed { reason: FailedReason::MemoryExceeded, is_binary: false, size_bytes: Some(_) })
    ));
    match local_hash_from_bytes(b"hello\r\n", false, &AttributeMatch::Default) {
        LocalHash::Hashed { sha, is_binary } => {
            assert_eq!(sha, blob_hash(b"hello\n"));
            assert!(!is_binary);
        }
        other => panic!("expected Hashed, got {other:?}"),
    }
    assert!(matches!(
        local_hash_from_bytes(&[0xFF, 0xFE, b'a', 0], false, &AttributeMatch::Default),
        LocalHash::Failed { reason: FailedReason::Encoding, is_binary: true, size_bytes: None }
    ));
}

#[test]
fn presence_follows_the_sides() {
    assert_eq!(presence_of(true, true), Presence::Both);
    assert_eq!(presence_of(true, false), Presence::LocalOnly);
    assert_eq!(presence_of(false, true), Presence::RemoteOnly);
}

use gitless_sync::compare::FailedReason;
use gitless_sync::gitattributes::AttributeMatch;
use gitless_sync::pipeline::{try_short_circuit_failed, ClassifyContext, LocalFile};
use gitless_sync::size_gate::RemoteFile;
use gitless_sync::timestamp::Timestamp;

fn remote_file(path: &str, mode: &str) -> RemoteFile {
    RemoteFile { path: path.to_string(), sha: "remote-sha".to_string(), mode: mode.to_string(), size: None }
}

fn cctx(case: &[&str], nfd: &[&str]) -> ClassifyContext {
    ClassifyContext {
        case_collisions: case.iter().map(|s| s.to_string()).collect(),
        nfd_collisions: nfd.iter().map(|s| s.to_string()).collect(),
    }
}

fn promoted(mode: &str, reason: FailedReason) -> Option<(String, FailedReason)> {
    Some((mode.to_string(), reason))
}

#[test]
fn nfd_collision_promotes_with_remote_mode() {
    let r = remote_file("dup.txt", "100644");
    let got = try_short_circuit_failed("dup.txt", None, Some(&r), &cctx(&[], &["dup.txt"]), &AttributeMatch::Default);
    assert_eq!(got, promoted("100644", FailedReason::NfdCollision));
}

#[test]
fn case_collision_promotes_with_remote_mode() {
    let r = remote_file("Foo.txt", "100644");
    let got = try_short_circuit_failed("Foo.txt", None, Some(&r), &cctx(&["Foo.txt"], &[]), &AttributeMatch::Default);
    assert_eq!(got, promoted("100644", FailedReason::CaseCollision));
}

#[test]
fn long_path_reserved_dos_name_promotes() {
    let r = remote_file("docs/CON.md", "100644");
    let got = try_short_circuit_failed("docs/CON.md", None, Some(&r), &cctx(&[], &[]), &AttributeMatch::Default);
    assert_eq!(got, promoted("100644", FailedReason::LongPath));
}

#[test]
fn long_path_oversized_260_bytes_promotes() {
    let path = "a".repeat(260);
    let r = remote_file(&path, "100644");
    let got = try_short_circuit_failed(&path, None, Some(&r), &cctx(&[], &[]), &AttributeMatch::Default);
    assert_eq!(got, promoted("100644", FailedReason::LongPath));
}

#[test]
fn submodule_mode_160000_promotes_with_canonical_mode() {
    let r = remote_file("vendor/lib", "160000");
    let got = try_short_circuit_failed("vendor/lib", None, Some(&r), &cctx(&[], &[]), &AttributeMatch::Default);
    assert_eq!(got, promoted("160000", FailedReason::Submodule));
}

#[test]
fn symlink_mode_120000_remote_promotes_with_canonical_mode() {
    let r = remote_file("link", "120000");
    let got = try_short_circuit_failed("link", None, Some(&r), &cctx(&[], &[]), &AttributeMatch::Default);
    assert_eq!(got, promoted("120000", FailedReason::Symlink));
}

#[test]
fn local_only_symlink_overrides_default_mode_to_canonical_120000() {
    let l = LocalFile { relative_path: "stale-link".to_string(), absolute_path: "/root/stale-link".to_string(), mtime: Timestamp { secs: 1_700_000_000, nanos: 0 }, is_symlink: true };
    let got = try_short_circuit_failed("stale-link", Some(&l), None, &cctx(&[], &[]), &AttributeMatch::Default);
    assert_eq!(got, promoted("120000", FailedReason::Symlink));
}

#[test]
fn no_short_circuit_returns_none_for_plain_path() {
    let r = remote_file("plain.txt", "100644");
    let got = try_short_circuit_failed("plain.txt", None, Some(&r), &cctx(&[], &[]), &AttributeMatch::Default);
    assert_eq!(got, None);
}

#[test]
fn case_collision_outranks_submodule_when_both_match() {
    let r = remote_file("Foo.txt", "160000");
    let got = try_short_circuit_failed("Foo.txt", None, Some(&r), &cctx(&["Foo.txt"], &[]), &AttributeMatch::Default);
    assert_eq!(got, promoted("160000", FailedReason::CaseCollision));
}

#[test]
fn lfs_and_unsupported_attributes_promote_with_default_mode() {
    let got = try_short_circuit_failed("cover.psd", None, None, &cctx(&[], &[]), &AttributeMatch::LfsPointer);
    assert_eq!(got, promoted("100644", FailedReason::LfsPointer));
    let unsupported = AttributeMatch::Unsupported { attribute: "working-tree-encoding".to_string() };
    let got = try_short_circuit_failed("notes.txt", None, None, &cctx(&[], &[]), &unsupported);
    assert_eq!(got, promoted("100644", FailedReason::GitattributesUnsupported));
}

use gitless_sync::compare::FailedReason;
use gitless_sync::size_gate::{try_remote_size_gate, try_size_gate, RemoteFile, FILE_TOO_LARGE_BYTES, MEMORY_EXCEEDED_BYTES};

#[test]
fn size_gate_passes_through_at_or_below_50mb_exact() {
    assert_eq!(try_size_gate(0), None);
    assert_eq!(try_size_gate(MEMORY_EXCEEDED_BYTES), None);
}

#[test]
fn size_gate_promotes_memory_exceeded_just_over_50mb() {
    let n = MEMORY_EXCEEDED_BYTES + 1;
    assert_eq!(try_size_gate(n), Some((FailedReason::MemoryExceeded, n)));
}

#[test]
fn size_gate_returns_memory_exceeded_at_100mb_exact() {
    assert_eq!(try_size_gate(FILE_TOO_LARGE_BYTES), Some((FailedReason::MemoryExceeded, FILE_TOO_LARGE_BYTES)));
}

#[test]
fn size_gate_promotes_file_too_large_just_over_100mb() {
    let n = FILE_TOO_LARGE_BYTES + 1;
    assert_eq!(try_size_gate(n), Some((FailedReason::FileTooLarge, n)));
}

#[test]
fn size_gate_prefers_file_too_large_over_memory_exceeded() {
    let n = 200 * 1024 * 1024;
    assert_eq!(try_size_gate(n), Some((FailedReason::FileTooLarge, n)));
}

fn rf(size: Option<u64>) -> RemoteFile {
    RemoteFile { path: "x".to_string(), sha: "x".to_string(), mode: "100644".to_string(), size }
}

#[test]
fn try_remote_size_gate_returns_none_for_missing_remote() {
    assert_eq!(try_remote_size_gate(None), None);
}

#[test]
fn try_remote_size_gate_returns_none_for_remote_without_size_field() {
    let r = rf(None);
    assert_eq!(try_remote_size_gate(Some(&r)), None);
}

#[test]
fn try_remote_size_gate_passes_at_50mb_exact() {
    let r = rf(Some(MEMORY_EXCEEDED_BYTES));
    assert_eq!(try_remote_size_gate(Some(&r)), None);
}

#[test]
fn try_remote_size_gate_promotes_memory_exceeded_just_over_50mb() {
    let n = MEMORY_EXCEEDED_BYTES + 1;
    let r = rf(Some(n));
    assert_eq!(try_remote_size_gate(Some(&r)), Some((FailedReason::MemoryExceeded, n)));
}

#[test]
fn try_remote_size_gate_returns_memory_exceeded_at_100mb_exact() {
    let r = rf(Some(FILE_TOO_LARGE_BYTES));
    assert_eq!(try_remote_size_gate(Some(&r)), Some((FailedReason::MemoryExceeded, FILE_TOO_LARGE_BYTES)));
}

#[test]
fn try_remote_size_gate_promotes_file_too_large_just_over_100mb() {
    let n = FILE_TOO_LARGE_BYTES + 1;
    let r = rf(Some(n));
    assert_eq!(try_remote_size_gate(Some(&r)), Some((FailedReason::FileTooLarge, n)));
}

#[test]
fn try_remote_size_gate_prefers_file_too_large_over_memory_exceeded() {
    let n = 200 * 1024 * 1024;
    let r = rf(Some(n));
    assert_eq!(try_remote_size_gate(Some(&r)), Some((FailedReason::FileTooLarge, n)));
}

#[test]
fn larger_sizes_never_get_a_milder_verdict() {
    let sizes = [0, MEMORY_EXCEEDED_BYTES, MEMORY_EXCEEDED_BYTES + 1, FILE_TOO_LARGE_BYTES, FILE_TOO_LARGE_BYTES + 1, u64::MAX];
    for (i, &a) in sizes.iter().enumerate() {
        for &b in &sizes[i..] {
            if try_size_gate(a).is_some() {
                assert!(try_size_gate(b).is_some());
            }
            if matches!(try_size_gate(a), Some((FailedReason::FileTooLarge, _))) {
                assert!(matches!(try_size_gate(b), Some((FailedReason::FileTooLarge, _))));
            }
        }
    }
}

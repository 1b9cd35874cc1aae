use gitless_sync::compare::{classify, compare, Presence, Status};
use gitless_sync::timestamp::Timestamp;

fn ts(secs: i64) -> Timestamp {
    Timestamp { secs, nanos: 0 }
}

#[test]
fn compare_identical_returns_both_and_diff_meaningful_false() {
    assert_eq!(compare(Some("a"), Some("a"), None), (Presence::Both, Some(false)));
}

#[test]
fn compare_sha_differ_normalize_equal_returns_diff_meaningful_false() {
    assert_eq!(compare(Some("a"), Some("b"), Some(true)), (Presence::Both, Some(false)));
}

#[test]
fn compare_sha_differ_normalize_diff_returns_diff_meaningful_true() {
    assert_eq!(compare(Some("a"), Some("b"), Some(false)), (Presence::Both, Some(true)));
}

#[test]
fn compare_sha_differ_normalize_equal_unknown_returns_none() {
    assert_eq!(compare(Some("a"), Some("b"), None), (Presence::Both, None));
}

#[test]
fn compare_local_only_returns_local_only_presence_and_diff_meaningful_none() {
    assert_eq!(compare(Some("a"), None, None), (Presence::LocalOnly, None));
}

#[test]
fn compare_remote_only_returns_remote_only_presence_and_diff_meaningful_none() {
    assert_eq!(compare(None, Some("b"), None), (Presence::RemoteOnly, None));
}

#[test]
fn compare_ignores_normalize_equal_for_single_side() {
    assert_eq!(compare(Some("a"), None, Some(true)), (Presence::LocalOnly, None));
    assert_eq!(compare(None, Some("b"), Some(false)), (Presence::RemoteOnly, None));
}

fn check_identical_when_shas_match() {
    assert_eq!(classify(Some("abc"), Some("abc"), Some(ts(100)), Some(ts(200)), None), Status::Identical);
}

fn check_identical_ignores_timestamps() {
    assert_eq!(classify(Some("deadbeef"), Some("deadbeef"), None, None, None), Status::Identical);
}

fn check_local_only_when_remote_missing() {
    assert_eq!(classify(Some("abc"), None, Some(ts(100)), None, None), Status::LocalOnlyChanged);
}

fn check_remote_only_when_local_missing() {
    assert_eq!(classify(None, Some("abc"), None, Some(ts(100)), None), Status::RemoteOnlyChanged);
}

fn check_local_only_when_remote_older() {
    assert_eq!(classify(Some("a"), Some("b"), Some(ts(200)), Some(ts(100)), None), Status::LocalOnlyChanged);
}

fn check_remote_only_when_local_older() {
    assert_eq!(classify(Some("a"), Some("b"), Some(ts(100)), Some(ts(200)), None), Status::RemoteOnlyChanged);
}

fn check_drift_on_equal_timestamps() {
    assert_eq!(classify(Some("a"), Some("b"), Some(ts(100)), Some(ts(100)), None), Status::Drift);
}

fn check_drift_when_local_mtime_missing() {
    assert_eq!(classify(Some("a"), Some("b"), None, Some(ts(100)), None), Status::Drift);
}

fn check_drift_when_remote_commit_missing() {
    assert_eq!(classify(Some("a"), Some("b"), Some(ts(100)), None, None), Status::Drift);
}

fn check_drift_when_both_times_missing() {
    assert_eq!(classify(Some("a"), Some("b"), None, None, None), Status::Drift);
}

#[test]
fn compare_identical_when_shas_match() {
    check_identical_when_shas_match();
}

#[test]
fn compare_identical_ignores_timestamps() {
    check_identical_ignores_timestamps();
}

#[test]
fn compare_local_only_when_remote_missing() {
    check_local_only_when_remote_missing();
}

#[test]
fn compare_remote_only_when_local_missing() {
    check_remote_only_when_local_missing();
}

#[test]
fn compare_local_only_when_remote_older() {
    check_local_only_when_remote_older();
}

#[test]
fn compare_remote_only_when_local_older() {
    check_remote_only_when_local_older();
}

#[test]
fn compare_drift_on_equal_timestamps() {
    check_drift_on_equal_timestamps();
}

#[test]
fn compare_drift_when_local_mtime_missing() {
    check_drift_when_local_mtime_missing();
}

#[test]
fn compare_drift_when_remote_commit_missing() {
    check_drift_when_remote_commit_missing();
}

#[test]
fn compare_drift_when_both_times_missing() {
    check_drift_when_both_times_missing();
}

#[test]
fn decisions_identical_when_shas_match() {
    check_identical_when_shas_match();
}

#[test]
fn decisions_identical_ignores_timestamps() {
    check_identical_ignores_timestamps();
}

#[test]
fn decisions_local_only_when_remote_missing() {
    check_local_only_when_remote_missing();
}

#[test]
fn decisions_remote_only_when_local_missing() {
    check_remote_only_when_local_missing();
}

#[test]
fn decisions_local_only_when_remote_older() {
    check_local_only_when_remote_older();
}

#[test]
fn decisions_remote_only_when_local_older() {
    check_remote_only_when_local_older();
}

#[test]
fn decisions_drift_on_equal_timestamps() {
    check_drift_on_equal_timestamps();
}

#[test]
fn decisions_drift_when_local_mtime_missing() {
    check_drift_when_local_mtime_missing();
}

#[test]
fn decisions_drift_when_remote_commit_missing() {
    check_drift_when_remote_commit_missing();
}

#[test]
fn decisions_drift_when_both_times_missing() {
    check_drift_when_both_times_missing();
}

#[test]
fn identical_when_normalize_equal_despite_sha_differ() {
    assert_eq!(classify(Some("a"), Some("b"), Some(ts(200)), Some(ts(100)), Some(true)), Status::Identical);
}

#[test]
fn normalize_equal_some_false_falls_through_to_timestamp_arm() {
    assert_eq!(
        classify(Some("a"), Some("b"), Some(ts(200)), Some(ts(100)), Some(false)),
        Status::LocalOnlyChanged
    );
}

#[test]
fn sub_second_difference_orders_timestamps() {
    let older = Timestamp { secs: 100, nanos: 1 };
    let newer = Timestamp { secs: 100, nanos: 2 };
    assert_eq!(classify(Some("a"), Some("b"), Some(newer), Some(older), None), Status::LocalOnlyChanged);
    assert_eq!(classify(Some("a"), Some("b"), Some(older), Some(newer), None), Status::RemoteOnlyChanged);
}

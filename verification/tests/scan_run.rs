use gitless_sync::error::GitlessError;
use gitless_sync::report::{run_with_client, serialize_failure, write_failure};

#[test]
fn run_with_client_returns_partial_failure_exit_code_for_partial_failure_variant() {
    let err = GitlessError::PartialFailure { failed_count: 2 };
    assert_eq!(err.exit_code(), 4);
}

#[test]
fn run_with_client_reports_partial_failure_after_a_written_report() {
    let err = run_with_client(2, Ok(())).unwrap_err();
    assert_eq!(err, GitlessError::PartialFailure { failed_count: 2 });
    assert_eq!(err.exit_code(), 4);
    assert!(run_with_client(0, Ok(())).is_ok());
}

#[test]
fn run_with_client_maps_broken_pipe_write_to_broken_pipe_error() {
    let write = Err(write_failure(true, "Broken pipe".to_string()));
    let err = run_with_client(3, write).unwrap_err();
    assert_eq!(err, GitlessError::BrokenPipe);
    assert_eq!(err.exit_code(), 0);
    let other = Err(write_failure(false, "disk full".to_string()));
    assert_eq!(run_with_client(0, other).unwrap_err(), GitlessError::Io("disk full".to_string()));
}

#[test]
fn serialize_failure_is_a_config_error() {
    match serialize_failure("boom") {
        GitlessError::Config(m) => assert_eq!(m, "ScanReport JSON serialization failed: boom"),
        other => panic!("expected Config, got {other:?}"),
    }
}

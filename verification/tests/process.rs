use devconcurrent::{pty_read_is_stream_end, subprocess_result, Error};

#[test]
fn exit_zero_is_success() {
    assert!(subprocess_result(true, Some(0)).is_ok());
}

#[test]
fn exit_seven_reports_seven() {
    let err = subprocess_result(false, Some(7)).unwrap_err();
    assert!(matches!(err, Error::SubprocessFailed { code: 7 }));
    let msg = err.message();
    assert!(msg.contains("7"), "message must include the exit code: {msg}");
}

#[test]
fn exit_without_code_reports_one() {
    let err = subprocess_result(false, None).unwrap_err();
    assert!(matches!(err, Error::SubprocessFailed { code: 1 }));
}

#[test]
fn child_closing_the_pty_is_a_normal_stream_end() {
    // EIO (OS error 5) from the PTY read means the child closed its end.
    assert!(pty_read_is_stream_end(Some(5)));
    assert!(!pty_read_is_stream_end(Some(4)));
    assert!(!pty_read_is_stream_end(None));
}

#[test]
fn engine_unavailable_has_a_message() {
    assert_eq!(
        Error::EngineUnavailable.message(),
        "container engine is unavailable"
    );
}

#[test]
fn not_found_names_the_missing_thing() {
    let err = Error::NotFound("my-ws".to_string());
    assert_eq!(err.message(), "not found: my-ws");
}

#[test]
fn context_prefixes_the_unit_name() {
    let err = Error::Msg("inner".to_string()).with_context("outer".to_string());
    assert_eq!(err.message(), "outer: inner");
}

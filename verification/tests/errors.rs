use chrome_resolve::error::{AppError, ExitCode};

#[test]
fn exit_codes_are_fixed() {
    assert_eq!(ExitCode::Success.as_u8(), 0);
    assert_eq!(ExitCode::GeneralError.as_u8(), 1);
    assert_eq!(ExitCode::ConnectionError.as_u8(), 2);
    assert_eq!(ExitCode::TargetError.as_u8(), 3);
    assert_eq!(ExitCode::TimeoutError.as_u8(), 4);
    assert_eq!(ExitCode::ProtocolError.as_u8(), 5);
}

#[test]
fn constructors_carry_their_codes() {
    assert_eq!(AppError::stale_session().code.as_u8(), 2);
    assert_eq!(AppError::no_chrome_found().code.as_u8(), 2);
    assert_eq!(AppError::no_page_targets().code.as_u8(), 3);
    assert_eq!(AppError::target_not_found("x").code.as_u8(), 3);
    assert_eq!(AppError::not_implemented("x").code.as_u8(), 1);
}

#[test]
fn not_implemented_message_interpolates_command() {
    let err = AppError::not_implemented("screenshot");
    assert_eq!(err.message, "screenshot: not yet implemented");
}

#[test]
fn no_chrome_found_carries_a_hint() {
    let err = AppError::no_chrome_found();
    assert!(err.message.contains("remote debugging"));
}

#[test]
fn json_line_is_exact() {
    let err = AppError::not_implemented("screenshot");
    assert_eq!(
        err.to_json_line(),
        "{\"error\":\"screenshot: not yet implemented\",\"code\":1}"
    );
}

#[test]
fn json_line_escapes_the_message() {
    let err = AppError::target_not_found("a\"b\\c");
    assert_eq!(
        err.to_json_line(),
        "{\"error\":\"Target not found: a\\\"b\\\\c\",\"code\":3}"
    );
}

#[test]
fn json_line_parses_back() {
    let err = AppError::target_not_found("tab\n7");
    let line = err.to_json_line();
    let value: serde_json::Value = serde_json::from_str(&line).unwrap();
    assert_eq!(value["error"].as_str().unwrap(), "Target not found: tab\n7");
    assert_eq!(value["code"].as_u64().unwrap(), 3);
}

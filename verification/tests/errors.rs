use s2_mcp::errors::{Error, ErrorCode, ErrorDiagnostic, ErrorReport, ProtocolError};

#[test]
fn policy_errors_have_stable_public_diagnostics() {
    let error = Error::forbidden();
    let diagnostic = error.diagnostic();

    assert!(diagnostic.code == ErrorCode::OperationForbidden);
    assert_eq!(diagnostic.code.as_str(), "operation_forbidden");
    assert!(diagnostic.message.contains("active server policy"));
    assert!(diagnostic.remediation.is_some());
    assert!(error.is_tool_failure());
}

#[test]
fn internal_errors_are_not_public_tool_failures() {
    let error = Error::Protocol(ProtocolError::Mcp("private detail".to_owned()));

    assert_eq!(error.code(), ErrorCode::McpServerFailed);
    assert!(!error.is_tool_failure());
    assert!(error.remediation().is_none());
    assert!(matches!(error.report(), ErrorReport::Private));
}

#[test]
fn diagnostics_have_a_stable_json_shape() {
    let diagnostic = ErrorDiagnostic {
        code: ErrorCode::ExecutionTimeout,
        message: "timed out".to_owned(),
        remediation: Some("retry".to_owned()),
    };

    assert_eq!(diagnostic.code.as_str(), "execution_timeout");
    assert_eq!(diagnostic.message, "timed out");
    assert_eq!(diagnostic.remediation.as_deref(), Some("retry"));
}

#[test]
fn error_messages_read_as_displayed() {
    assert_eq!(
        Error::basin_scope("other", "mine").to_text(),
        "basin `other` is outside the configured basin scope `mine`"
    );
    assert_eq!(Error::execution_timeout(30).to_text(), "code execution timed out after 30 seconds");
    assert_eq!(Error::invalid_arguments("bad").to_text(), "invalid tool arguments: bad");
    assert_eq!(
        Error::executor_request_too_large(512).to_text(),
        "execution request exceeds the 512 byte child-process limit"
    );
    assert!(Error::code_mode("x").code() == ErrorCode::CodeModeFailed);
    assert!(Error::execution_cancelled().code() == ErrorCode::ExecutionCancelled);
}

#[test]
fn reported_errors_carry_advice() {
    for error in [
        Error::forbidden(),
        Error::invalid_arguments("x"),
        Error::invalid_configuration("x"),
        Error::execution_cancelled(),
    ] {
        assert!(error.is_tool_failure());
        assert!(error.remediation().is_some());
        match error.report() {
            ErrorReport::Public(d) => assert!(d.code == error.code()),
            ErrorReport::Private => panic!("a tool failure is reported"),
        }
    }
    for error in [Error::executor_failed("x"), Error::start_executor("x"), Error::executor_io("x")] {
        assert!(!error.is_tool_failure());
        assert!(error.remediation().is_none());
    }
}

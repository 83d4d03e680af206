use s2_mcp::codemode::{
    CallOutcome, CallTrace, DiagnosticPhase, Error as CodeModeError, ExecuteDiagnostic, ExecuteOutput, InvokeError,
    Limits,
};
use s2_mcp::envelope::{
    bound_output, map_execution, sanitize_runtime_text, serialized_envelope_size, transpile_failure, RuntimeExecution,
};
use s2_mcp::errors::{Error, ErrorCode, ErrorDiagnostic, ErrorReport, ExecutionError, SandboxError};
use s2_mcp::json::JsonValue;
use s2_mcp::ledger::{execution_error, CallLedger, InvokeResponse, RuntimeError};
use s2_mcp::surface::{call_reply, CallReply};
use s2_mcp::worker::{
    child_response, encode_frame, invoke_error, worker_outcome, FrameHeader, HeaderStep, WorkerResponse,
    MAX_CHILD_FRAME_BYTES,
};

fn nested(depth: usize) -> JsonValue {
    let mut value = JsonValue::Number("1".to_owned());
    for _ in 0..depth {
        value = JsonValue::Object(vec![("a".to_owned(), value)]);
    }
    value
}

fn empty_output() -> ExecuteOutput {
    ExecuteOutput {
        success: true,
        output: Some(JsonValue::Null),
        diagnostics: vec![],
        stdout: String::new(),
        stderr: String::new(),
        tool_calls: vec![],
        truncated: false,
    }
}

#[test]
fn execution_output_is_bounded() {
    let execution = RuntimeExecution {
        success: true,
        runtime_error: None,
        output: Some(JsonValue::String("y".repeat(300_000))),
        stdout: format!("{}\n", "x".repeat(300_000)),
        stderr: String::new(),
        calls: vec![],
        truncated: false,
    };
    let output = map_execution(execution, Limits::default()).unwrap_or_else(|_| panic!("the envelope fits"));
    assert!(!output.success);
    assert!(output.truncated);
    assert!(output.output.is_none());
    assert!(output.stderr.starts_with("Returned value exceeded the configured output limit."));
    assert!(serialized_envelope_size(&output) <= 256 * 1024);
}

#[test]
fn small_outputs_are_left_alone() {
    let output = bound_output(empty_output(), 256 * 1024).unwrap_or_else(|_| panic!("fits"));
    assert!(output.success);
    assert!(!output.truncated);
    assert_eq!(output.output, Some(JsonValue::Null));
    assert_eq!(serialized_envelope_size(&empty_output()), 105);
}

#[test]
fn an_envelope_that_cannot_fit_is_an_error() {
    match bound_output(empty_output(), 10) {
        Err(CodeModeError::Runtime(message)) => {
            assert_eq!(message, "the configured 10 byte output limit is too small for an execution envelope");
        },
        _ => panic!("expected a runtime error"),
    }
}

#[test]
fn deep_output_returns_a_depth_error() {
    let execution = RuntimeExecution {
        success: true,
        runtime_error: None,
        output: Some(nested(40)),
        stdout: String::new(),
        stderr: String::new(),
        calls: vec![],
        truncated: false,
    };
    assert!(matches!(
        map_execution(execution, Limits::default()),
        Err(CodeModeError::JsonDepthExceeded { maximum: 32 })
    ));
}

#[test]
fn missing_output_is_reported() {
    let execution = RuntimeExecution {
        success: true,
        runtime_error: None,
        output: None,
        stdout: String::new(),
        stderr: String::new(),
        calls: vec![CallTrace { name: "S2.checkTail".to_owned(), duration_ms: 3, outcome: CallOutcome::Success }],
        truncated: false,
    };
    let output = map_execution(execution, Limits::default()).unwrap_or_else(|_| panic!("fits"));
    assert!(!output.success);
    assert_eq!(output.diagnostics.len(), 1);
    assert!(output.diagnostics[0].phase == DiagnosticPhase::Runtime);
    assert_eq!(output.diagnostics[0].message, "run() did not return a JSON-serializable value");
    assert_eq!(output.tool_calls.len(), 1);
}

#[test]
fn runtime_messages_name_the_submitted_file() {
    assert_eq!(
        sanitize_runtime_text("  Uncaught Error at file:///execute.js:3:1 (file:///execute.ts)\n"),
        "Uncaught Error at execute.ts:3:1 (execute.ts)"
    );
    let failure = transpile_failure("bad token in file:///execute.ts");
    assert!(!failure.success);
    assert!(failure.diagnostics[0].phase == DiagnosticPhase::Transpile);
    assert_eq!(failure.diagnostics[0].message, "bad token in execute.ts");
}

#[test]
fn long_diagnostics_are_clipped() {
    let mut output = empty_output();
    output.diagnostics = (0..70)
        .map(|_| ExecuteDiagnostic { phase: DiagnosticPhase::Runtime, message: "m".to_owned() })
        .collect();
    let bounded = bound_output(output, 256 * 1024).unwrap_or_else(|_| panic!("fits"));
    assert_eq!(bounded.diagnostics.len(), 64);
    assert!(bounded.truncated);
}

#[test]
fn runtime_failures_map_to_public_errors() {
    let limits = Limits::default();
    assert!(matches!(
        execution_error(RuntimeError::Timeout, limits),
        CodeModeError::ExecutionTimeout { seconds: 30 }
    ));
    assert!(matches!(
        execution_error(RuntimeError::JsonDepthExceeded { maximum: 7 }, limits),
        CodeModeError::JsonDepthExceeded { maximum: 7 }
    ));
    match execution_error(RuntimeError::Bootstrap("boom".to_owned()), limits) {
        CodeModeError::Runtime(message) => assert_eq!(message, "JavaScript runtime bootstrap failed: boom"),
        _ => panic!("expected a runtime error"),
    }
}

#[test]
fn deep_arguments_are_refused_before_the_host_is_called() {
    let mut ledger = CallLedger::new(Limits::default());
    let deep = nested(40);
    match ledger.admit_call(Some("S2.test".to_owned()), Some(&deep), 1) {
        Err(message) => assert_eq!(message, "JSON value exceeds the maximum depth of 32"),
        Ok(_) => panic!("a deep argument is refused"),
    }
    let (calls, truncated) = ledger.captured_calls();
    assert_eq!(calls.len(), 1);
    assert!(calls[0].outcome == CallOutcome::Error);
    assert!(!truncated);
}

#[test]
fn unknown_functions_are_not_traced() {
    let mut ledger = CallLedger::new(Limits::default());
    match ledger.admit_call(None, None, 0) {
        Err(message) => assert_eq!(message, "host operation was not found"),
        Ok(_) => panic!("unknown functions are refused"),
    }
    assert!(ledger.captured_calls().0.is_empty());
}

#[test]
fn public_invoke_errors_reach_the_program() {
    let mut ledger = CallLedger::new(Limits::default());
    let call = ledger.admit_call(Some("S2.test".to_owned()), None, 0).unwrap_or_else(|_| panic!("admitted"));
    let failure = InvokeError::public_with_details("test_failed", "test failed", Some("retry the test".to_owned()));
    match ledger.complete_call(call, Err(failure), 5) {
        Ok(InvokeResponse::Error { code, message, remediation }) => {
            assert_eq!(code, "test_failed");
            assert_eq!(message, "test failed");
            assert_eq!(remediation, Some("retry the test".to_owned()));
        },
        _ => panic!("expected the public diagnostic"),
    }
    let call = ledger.admit_call(Some("S2.other".to_owned()), None, 6).unwrap_or_else(|_| panic!("admitted"));
    match ledger.complete_call(call, Err(InvokeError::private()), 7) {
        Ok(InvokeResponse::Error { code, message, remediation }) => {
            assert_eq!(code, "operation_failed");
            assert_eq!(message, "host operation failed");
            assert!(remediation.is_none());
        },
        _ => panic!("expected the private failure"),
    }
    let (calls, _) = ledger.captured_calls();
    assert_eq!(calls.len(), 2);
    assert_eq!(calls[0].name, "S2.test");
    assert_eq!(calls[1].duration_ms, 7);
}

#[test]
fn calls_beyond_the_limit_are_refused_and_the_trace_is_capped() {
    let mut limits = Limits::default();
    limits.max_calls = 2;
    limits.max_callback_trace_calls = 2;
    let mut ledger = CallLedger::new(limits);
    for i in 0..2u64 {
        let call = ledger.admit_call(Some("S2.f".to_owned()), None, i).unwrap_or_else(|_| panic!("admitted"));
        let response = ledger.complete_call(call, Ok(JsonValue::Bool(true)), i);
        assert!(matches!(response, Ok(InvokeResponse::Success { value: JsonValue::Bool(true) })));
    }
    match ledger.admit_call(Some("S2.f".to_owned()), None, 9) {
        Err(message) => assert_eq!(message, "execution exceeded the 2 host operation limit"),
        Ok(_) => panic!("the third call is refused"),
    }
    let (calls, truncated) = ledger.captured_calls();
    assert_eq!(calls.len(), 2);
    assert!(truncated);
}

#[test]
fn frames_carry_a_big_endian_length() {
    let framed = encode_frame(&b"{}".to_vec()).unwrap_or_else(|_| panic!("small payloads frame"));
    assert_eq!(framed, vec![0, 0, 0, 2, b'{', b'}']);
    let framed = encode_frame(&vec![7u8; 300]).unwrap_or_else(|_| panic!("small payloads frame"));
    assert_eq!(&framed[..4], &[0, 0, 1, 44]);
    assert!(matches!(
        encode_frame(&vec![0u8; MAX_CHILD_FRAME_BYTES + 1]),
        Err(Error::Sandbox(SandboxError::RequestTooLarge { maximum: 524288 }))
    ));
}

#[test]
fn frame_headers_are_read_back() {
    let framed = encode_frame(&vec![1u8; 1000]).unwrap_or_else(|_| panic!("frames"));
    let mut header = FrameHeader::new();
    assert_eq!(header.missing(), 4);
    assert!(matches!(header.accept(&framed[..1].to_vec()), Ok(HeaderStep::Pending)));
    assert_eq!(header.missing(), 3);
    assert!(matches!(header.accept(&framed[1..4].to_vec()), Ok(HeaderStep::Length(1000))));

    let mut closed = FrameHeader::new();
    assert!(matches!(closed.accept(&vec![]), Ok(HeaderStep::Closed)));

    let mut cut = FrameHeader::new();
    assert!(matches!(cut.accept(&vec![0, 0]), Ok(HeaderStep::Pending)));
    match cut.accept(&vec![]) {
        Err(Error::Sandbox(SandboxError::Io(message))) => {
            assert_eq!(message, "execution worker closed during a frame header");
        },
        _ => panic!("expected an input/output error"),
    }

    let mut huge = FrameHeader::new();
    assert!(matches!(
        huge.accept(&vec![0, 8, 0, 1]),
        Err(Error::Sandbox(SandboxError::RequestTooLarge { maximum: 524288 }))
    ));
}

#[test]
fn worker_responses_become_outcomes() {
    let limits = Limits::default();
    assert!(matches!(
        worker_outcome(None, limits),
        Err(Error::Sandbox(SandboxError::Failed(ref m))) if m == "execution worker closed before responding"
    ));
    assert!(matches!(
        worker_outcome(Some(WorkerResponse::Success { output: empty_output() }), limits),
        Ok(ExecuteOutput { success: true, .. })
    ));
    let timeout = ErrorDiagnostic { code: ErrorCode::ExecutionTimeout, message: "late".to_owned(), remediation: None };
    assert!(matches!(
        worker_outcome(Some(WorkerResponse::Error { error: ErrorReport::Public(timeout) }), limits),
        Err(Error::Execution(ExecutionError::Timeout { seconds: 30 }))
    ));
    let other = ErrorDiagnostic { code: ErrorCode::InvalidArguments, message: "bad".to_owned(), remediation: None };
    match worker_outcome(Some(WorkerResponse::Error { error: ErrorReport::Public(other) }), limits) {
        Err(Error::Execution(ExecutionError::CodeMode { message, code })) => {
            assert_eq!(message, "bad");
            assert!(code == ErrorCode::InvalidArguments);
        },
        _ => panic!("expected a Code Mode error"),
    }
    assert!(matches!(
        worker_outcome(Some(WorkerResponse::Error { error: ErrorReport::Private }), limits),
        Err(Error::Sandbox(SandboxError::Failed(ref m))) if m == "execution worker returned an internal error"
    ));
}

#[test]
fn child_responses_keep_internal_errors_private() {
    assert!(matches!(child_response(Ok(empty_output())), WorkerResponse::Success { .. }));
    match child_response(Err(Error::forbidden())) {
        WorkerResponse::Error { error: ErrorReport::Public(d) } => {
            assert!(d.code == ErrorCode::OperationForbidden);
            assert_eq!(d.message, "operation is not available under the active server policy");
        },
        _ => panic!("expected a public report"),
    }
    assert!(matches!(
        child_response(Err(Error::executor_failed("crashed"))),
        WorkerResponse::Error { error: ErrorReport::Private }
    ));
}

#[test]
fn host_failures_reach_programs_only_when_public() {
    match invoke_error(&Error::invalid_arguments("missing field")) {
        InvokeError::Public(d) => {
            assert_eq!(d.code, "invalid_arguments");
            assert_eq!(d.message, "invalid tool arguments: missing field");
            assert_eq!(d.remediation, Some("Check the tool input schema and provide valid JSON arguments.".to_owned()));
        },
        InvokeError::Private => panic!("expected a public failure"),
    }
    assert!(matches!(invoke_error(&Error::executor_io("pipe")), InvokeError::Private));
}

#[test]
fn tool_replies_separate_public_and_internal_failures() {
    assert!(matches!(call_reply(Ok(JsonValue::Null)), CallReply::Result(JsonValue::Null)));
    match call_reply(Err(Error::execution_timeout(30))) {
        CallReply::ToolError(d) => {
            assert!(d.code == ErrorCode::ExecutionTimeout);
            assert_eq!(d.message, "code execution timed out after 30 seconds");
        },
        _ => panic!("expected a tool error"),
    }
    match call_reply(Err(Error::executor_failed("gone"))) {
        CallReply::Internal(message) => assert_eq!(message, "execution process exited unsuccessfully: gone"),
        _ => panic!("expected an internal error"),
    }
}

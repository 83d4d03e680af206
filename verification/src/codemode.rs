use vstd::prelude::*;

use crate::json::{within_depth, JsonValue};
use crate::text::{concat2, concat3, copy_str, decimal, decimal_string};

verus! {

/// Errors of the Code Mode API generator, search index and executor.
pub enum Error {
    InvalidDescriptor(String),
    InvalidSearch(String),
    SourceTooLarge { maximum: usize },
    ImportsNotAllowed,
    Parse(String),
    JsonDepthExceeded { maximum: usize },
    ExecutionTimeout { seconds: u64 },
    Runtime(String),
    Serialize(String),
}

/// The human-readable text of a Code Mode error.
pub open spec fn error_text(error: Error) -> Seq<char> {
    match error {
        Error::InvalidDescriptor(m) => "invalid Code Mode descriptor: "@ + m@,
        Error::InvalidSearch(m) => "invalid search arguments: "@ + m@,
        Error::SourceTooLarge { maximum } => "code exceeds the "@ + decimal(maximum as nat)
            + " byte source limit"@,
        Error::ImportsNotAllowed => "module imports are not allowed in Code Mode"@,
        Error::Parse(m) => "TypeScript could not be parsed: "@ + m@,
        Error::JsonDepthExceeded { maximum } => "JSON value exceeds the maximum depth of "@
            + decimal(maximum as nat),
        Error::ExecutionTimeout { seconds } => "code execution timed out after "@ + decimal(
            seconds as nat,
        ) + " seconds"@,
        Error::Runtime(m) => "Code Mode runtime failed: "@ + m@,
        Error::Serialize(m) => "failed to serialize Code Mode output: "@ + m@,
    }
}

impl Error {
    /// The error's message, as its `Display` text reads.
    pub fn to_text(&self) -> (text: String)
        ensures
            text@ == error_text(*self),
    {
        match self {
            Error::InvalidDescriptor(m) => concat2("invalid Code Mode descriptor: ", m.as_str()),
            Error::InvalidSearch(m) => concat2("invalid search arguments: ", m.as_str()),
            Error::SourceTooLarge { maximum } => {
                let n = decimal_string(*maximum as u64);
                concat3("code exceeds the ", n.as_str(), " byte source limit")
            },
            Error::ImportsNotAllowed => copy_str("module imports are not allowed in Code Mode"),
            Error::Parse(m) => concat2("TypeScript could not be parsed: ", m.as_str()),
            Error::JsonDepthExceeded { maximum } => {
                let n = decimal_string(*maximum as u64);
                concat2("JSON value exceeds the maximum depth of ", n.as_str())
            },
            Error::ExecutionTimeout { seconds } => {
                let n = decimal_string(*seconds);
                concat3("code execution timed out after ", n.as_str(), " seconds")
            },
            Error::Runtime(m) => concat2("Code Mode runtime failed: ", m.as_str()),
            Error::Serialize(m) => concat2("failed to serialize Code Mode output: ", m.as_str()),
        }
    }
}

/// Rejects `value` when arrays and objects nest deeper than `maximum` levels.
pub fn validate_json_depth(value: &JsonValue, maximum: usize) -> (r: Result<(), Error>)
    ensures
        r is Ok <==> within_depth(*value, maximum as int),
        r is Err ==> r == Err::<(), Error>(Error::JsonDepthExceeded { maximum }),
{
    if crate::json::check_depth(value, 0, maximum) {
        Ok(())
    } else {
        Err(Error::JsonDepthExceeded { maximum })
    }
}

/// Resource limits of one Code Mode execution.
#[derive(Clone, Copy)]
pub struct Limits {
    pub max_source_bytes: usize,
    pub max_output_bytes: usize,
    pub max_json_depth: usize,
    pub max_calls: usize,
    pub max_concurrent_calls: usize,
    pub max_console_bytes: usize,
    pub max_callback_trace_calls: usize,
    pub max_heap_bytes: usize,
    /// Wall-clock budget of the execution, in milliseconds.
    pub execution_timeout_ms: u64,
}

impl Default for Limits {
    fn default() -> (limits: Self)
        ensures
            limits.max_source_bytes == 64 * 1024,
            limits.max_output_bytes == 256 * 1024,
            limits.max_json_depth == 32,
            limits.max_calls == 32,
            limits.max_concurrent_calls == 8,
            limits.max_console_bytes == 256 * 1024,
            limits.max_callback_trace_calls == 33,
            limits.max_heap_bytes == 128 * 1024 * 1024,
            limits.execution_timeout_ms == 30_000,
    {
        Limits {
            max_source_bytes: 64 * 1024,
            max_output_bytes: 256 * 1024,
            max_json_depth: 32,
            max_calls: 32,
            max_concurrent_calls: 8,
            max_console_bytes: 256 * 1024,
            max_callback_trace_calls: 33,
            max_heap_bytes: 128 * 1024 * 1024,
            execution_timeout_ms: 30_000,
        }
    }
}

/// Every limit is positive.
pub open spec fn limits_valid(limits: Limits) -> bool {
    &&& limits.max_source_bytes > 0
    &&& limits.max_output_bytes > 0
    &&& limits.max_json_depth > 0
    &&& limits.max_calls > 0
    &&& limits.max_concurrent_calls > 0
    &&& limits.max_console_bytes > 0
    &&& limits.max_callback_trace_calls > 0
    &&& limits.max_heap_bytes > 0
    &&& limits.execution_timeout_ms > 0
}

/// Rejects limits of which one is zero.
pub fn validate_limits(limits: Limits) -> (r: Result<(), Error>)
    ensures
        r is Ok <==> limits_valid(limits),
        r matches Err(e) ==> e matches Error::Runtime(m) && m@
            == "all Code Mode limits must be greater than zero"@,
{
    if limits.max_source_bytes == 0 || limits.max_output_bytes == 0 || limits.max_json_depth == 0
        || limits.max_calls == 0 || limits.max_concurrent_calls == 0 || limits.max_console_bytes
        == 0 || limits.max_callback_trace_calls == 0 || limits.max_heap_bytes == 0
        || limits.execution_timeout_ms == 0 {
        return Err(Error::Runtime(copy_str("all Code Mode limits must be greater than zero")));
    }
    Ok(())
}

/// The whole seconds of the execution timeout.
pub open spec fn timeout_seconds(limits: Limits) -> u64 {
    (limits.execution_timeout_ms / 1000) as u64
}

/// A diagnostic that a host operation returns to the program.
#[derive(Clone)]
pub struct InvokeDiagnostic {
    pub code: String,
    pub message: String,
    pub remediation: Option<String>,
}

/// Failure of a host operation invoked by a program: either public, with a
/// diagnostic the program may read, or private.
#[derive(Clone)]
pub enum InvokeError {
    Public(InvokeDiagnostic),
    Private,
}

impl InvokeError {
    /// A public failure with the generic `operation_failed` code.
    pub fn public(message: &str) -> (e: Self)
        ensures
            e matches InvokeError::Public(d) && d.code@ == "operation_failed"@ && d.message@
                == message@ && d.remediation is None,
    {
        Self::public_with_details("operation_failed", message, None)
    }

    /// A public failure with the given code, message and remediation.
    pub fn public_with_details(code: &str, message: &str, remediation: Option<String>) -> (e: Self)
        ensures
            e matches InvokeError::Public(d) && d.code@ == code@ && d.message@ == message@
                && d.remediation == remediation,
    {
        InvokeError::Public(
            InvokeDiagnostic { code: copy_str(code), message: copy_str(message), remediation },
        )
    }

    /// A failure whose details stay private to the host.
    pub fn private() -> (e: Self)
        ensures
            e is Private,
    {
        InvokeError::Private
    }

    /// The message a program sees for this failure.
    pub fn message(&self) -> (m: String)
        ensures
            self matches InvokeError::Public(d) ==> m@ == d.message@,
            self is Private ==> m@ == "host operation failed"@,
    {
        match self {
            InvokeError::Public(diagnostic) => copy_str(diagnostic.message.as_str()),
            InvokeError::Private => copy_str("host operation failed"),
        }
    }
}

/// The phase in which an execution diagnostic arose.
#[derive(Clone, Copy, PartialEq, Eq, Structural)]
pub enum DiagnosticPhase {
    Transpile,
    Runtime,
}

#[derive(Clone)]
pub struct ExecuteDiagnostic {
    pub phase: DiagnosticPhase,
    pub message: String,
}

/// Outcome of one host operation call.
#[derive(Clone, Copy, PartialEq, Eq, Structural)]
pub enum CallOutcome {
    Success,
    Error,
}

#[derive(Clone)]
pub struct CallTrace {
    pub name: String,
    pub duration_ms: u64,
    pub outcome: CallOutcome,
}

/// Result envelope of one execution.
pub struct ExecuteOutput {
    pub success: bool,
    pub output: Option<JsonValue>,
    pub diagnostics: Vec<ExecuteDiagnostic>,
    pub stdout: String,
    pub stderr: String,
    pub tool_calls: Vec<CallTrace>,
    pub truncated: bool,
}

/// A TypeScript function of the `S2` namespace, bound to a host operation.
pub struct FunctionDescriptor {
    pub operation: String,
    pub name: String,
    pub description: String,
    pub signature: String,
    pub input_schema: JsonValue,
}

/// Arguments of a search over the generated API.
pub struct SearchInput {
    pub query: String,
    pub cursor: Option<String>,
    pub limit: Option<usize>,
}

#[derive(Clone)]
pub struct SearchMatch {
    pub name: String,
    pub description: String,
    pub signature: String,
}

pub struct SearchOutput {
    pub matches: Vec<SearchMatch>,
    pub next_cursor: Option<String>,
}

/// Program submitted for execution.
pub struct ExecuteInput {
    pub code: String,
}

} // verus!

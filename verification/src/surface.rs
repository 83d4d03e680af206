use vstd::prelude::*;

use crate::catalog::{operation_name, OperationId, ToolHints};
use crate::codemode::Error as CodeModeError;
use crate::codemode::{error_text, validate_json_depth, Limits};
use crate::errors::{
    error_code, error_message, error_remediation, reported_to_caller, Error, ErrorCode, ErrorDiagnostic, ExecutionError,
};
use crate::json::{within_depth, JsonValue};
use crate::policy::{allows_destructive, Policy, ServerMode};
use crate::toolset::Catalog;

verus! {

/// The deepest nesting of arguments the server accepts.
pub const MAX_ARGUMENT_DEPTH: usize = 32;

/// Name of the tool that searches the generated API.
pub open spec fn search_tool_name() -> Seq<char> {
    "search"@
}

/// Name of the tool that runs a program.
pub open spec fn execute_tool_name() -> Seq<char> {
    "execute"@
}

/// The description of the search tool.
pub fn search_tool_description() -> (s: &'static str)
    ensures
        s@ == "Search the policy-filtered S2 TypeScript API. Returns complete declarations for the matched functions."@,
{
    "Search the policy-filtered S2 TypeScript API. Returns complete declarations for the matched functions."
}

/// The description of the execute tool.
pub fn execute_tool_description() -> (s: &'static str)
    ensures
        s@ == "Execute isolated TypeScript defining `async function run()`. Use `search` first to discover S2 functions."@,
{
    "Execute isolated TypeScript defining `async function run()`. Use `search` first to discover S2 functions."
}

/// The search tool only reads the generated API.
pub fn search_tool_hints() -> (h: ToolHints)
    ensures
        h.read_only,
        !h.destructive,
        h.idempotent,
        !h.open_world,
{
    ToolHints { read_only: true, destructive: false, idempotent: true, open_world: false }
}

/// The execute tool can do whatever the policy allows.
pub fn execute_tool_hints(policy: &Policy) -> (h: ToolHints)
    ensures
        h.read_only == policy.readonly,
        h.destructive == allows_destructive(*policy),
        h.idempotent == policy.readonly,
        h.open_world,
{
    ToolHints {
        read_only: policy.readonly,
        destructive: policy.allows_destructive(),
        idempotent: policy.readonly,
        open_world: true,
    }
}

/// The instructions the server gives its client.
pub open spec fn instructions_text(mode: ServerMode) -> Seq<char> {
    match mode {
        ServerMode::Code => "Call search to discover typed S2 functions, then execute one bounded TypeScript program."@,
        ServerMode::Tools => "Use the advertised S2 tools directly. Reads and waits are bounded."@,
    }
}

pub fn instructions(mode: ServerMode) -> (s: &'static str)
    ensures
        s@ == instructions_text(mode),
{
    match mode {
        ServerMode::Code => "Call search to discover typed S2 functions, then execute one bounded TypeScript program.",
        ServerMode::Tools => "Use the advertised S2 tools directly. Reads and waits are bounded.",
    }
}

/// What a tool call runs.
pub enum Route {
    Search,
    Execute,
    Operation(OperationId),
}

/// Finds the tool a call names: `search` and `execute` in code mode, the
/// allowed operations in tools mode; `None` for a tool the server does not
/// offer.
pub fn route(mode: ServerMode, catalog: &Catalog, name: &str) -> (r: Option<Route>)
    ensures
        mode == ServerMode::Code ==> (r matches Some(Route::Search) <==> name@ == search_tool_name()),
        mode == ServerMode::Code ==> (r matches Some(Route::Execute) <==> name@ == execute_tool_name()),
        mode == ServerMode::Code ==> !(r matches Some(Route::Operation(_))),
        mode == ServerMode::Tools ==> !(r matches Some(Route::Search)) && !(r matches Some(Route::Execute)),
        mode == ServerMode::Tools ==> (r is None <==> forall|i: int|
            0 <= i < catalog.ids().len() ==> operation_name(#[trigger] catalog.ids()[i]) != name@),
        r matches Some(Route::Operation(id)) ==> catalog.ids().contains(id) && operation_name(id) == name@,
{
    match mode {
        ServerMode::Code => {
            if crate::text::str_eq(name, "search") {
                proof {
                    reveal_strlit("search");
                    reveal_strlit("execute");
                    assert(search_tool_name().len() != execute_tool_name().len());
                }
                Some(Route::Search)
            } else if crate::text::str_eq(name, "execute") {
                proof {
                    reveal_strlit("execute");
                    reveal_strlit("search");
                }
                Some(Route::Execute)
            } else {
                proof {
                    reveal_strlit("execute");
                    reveal_strlit("search");
                }
                None
            }
        },
        ServerMode::Tools => match catalog.find(name) {
            Some(id) => Some(Route::Operation(id)),
            None => None,
        },
    }
}

/// Checks the nesting of a call's arguments before anything reads them.
pub fn check_argument_depth(arguments: &JsonValue) -> (r: Result<(), Error>)
    ensures
        r is Ok <==> within_depth(*arguments, MAX_ARGUMENT_DEPTH as int),
        r matches Err(e) ==> (e matches Error::Execution(ExecutionError::CodeMode { message, code })
            && code == ErrorCode::CodeModeFailed && message@ == error_text(
            CodeModeError::JsonDepthExceeded { maximum: MAX_ARGUMENT_DEPTH },
        )),
{
    let limits = Limits::default();
    match validate_json_depth(arguments, limits.max_json_depth) {
        Ok(()) => Ok(()),
        Err(error) => {
            let text = error.to_text();
            Err(Error::code_mode(text.as_str()))
        },
    }
}

/// How a finished tool call is answered.
pub enum CallReply {
    /// The result of the call.
    Result(JsonValue),
    /// A failure the caller may read, with its diagnostic.
    ToolError(ErrorDiagnostic),
    /// A failure of the server itself, by its message.
    Internal(String),
}

/// The answer to a finished tool call: its value, the diagnostic of a
/// failure reported to callers, or an internal failure.
pub fn call_reply(result: Result<JsonValue, Error>) -> (r: CallReply)
    ensures
        match result {
            Ok(v) => r == CallReply::Result(v),
            Err(e) => if reported_to_caller(e) {
                &&& r matches CallReply::ToolError(d)
                &&& r->ToolError_0.code == error_code(e)
                &&& r->ToolError_0.message@ == error_message(e)
                &&& r->ToolError_0.remediation matches Some(x) ==> error_remediation(e) == Some(x@)
                &&& r->ToolError_0.remediation is None ==> error_remediation(e) is None
            } else {
                r matches CallReply::Internal(m) && m@ == error_message(e)
            },
        },
{
    match result {
        Ok(value) => CallReply::Result(value),
        Err(error) => {
            if error.is_tool_failure() {
                CallReply::ToolError(error.diagnostic())
            } else {
                CallReply::Internal(error.to_text())
            }
        },
    }
}

} // verus!

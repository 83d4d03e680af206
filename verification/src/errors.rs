use vstd::prelude::*;

use crate::text::{concat2, concat3, copy_str, decimal, decimal_string, push_str};

verus! {

/// Stable codes of the diagnostics that tools report.
#[derive(Clone, Copy, Debug, PartialEq, Eq, Structural)]
pub enum ErrorCode {
    MissingAccessToken,
    ConfigDirectoryNotFound,
    ConfigReadFailed,
    ConfigParseFailed,
    InvalidEnvironment,
    LogFileCreationFailed,
    LoggingInitializationFailed,
    InvalidConfiguration,
    ManagedLiteUnavailable,
    InvalidArguments,
    OperationForbidden,
    BasinOutOfScope,
    S2RequestFailed,
    InvalidS2Value,
    CodeModeFailed,
    SourceTooLarge,
    ExecutionTimeout,
    ExecutionCancelled,
    ExecutorRequestTooLarge,
    ExecutorStartFailed,
    ExecutorIoFailed,
    ExecutorFailed,
    SerializationFailed,
    McpServerFailed,
}

/// The code as it appears in diagnostics.
pub open spec fn code_text(code: ErrorCode) -> Seq<char> {
    match code {
        ErrorCode::MissingAccessToken => "missing_access_token"@,
        ErrorCode::ConfigDirectoryNotFound => "config_directory_not_found"@,
        ErrorCode::ConfigReadFailed => "config_read_failed"@,
        ErrorCode::ConfigParseFailed => "config_parse_failed"@,
        ErrorCode::InvalidEnvironment => "invalid_environment"@,
        ErrorCode::LogFileCreationFailed => "log_file_creation_failed"@,
        ErrorCode::LoggingInitializationFailed => "logging_initialization_failed"@,
        ErrorCode::InvalidConfiguration => "invalid_configuration"@,
        ErrorCode::ManagedLiteUnavailable => "managed_lite_unavailable"@,
        ErrorCode::InvalidArguments => "invalid_arguments"@,
        ErrorCode::OperationForbidden => "operation_forbidden"@,
        ErrorCode::BasinOutOfScope => "basin_out_of_scope"@,
        ErrorCode::S2RequestFailed => "s2_request_failed"@,
        ErrorCode::InvalidS2Value => "invalid_s2_value"@,
        ErrorCode::CodeModeFailed => "code_mode_failed"@,
        ErrorCode::SourceTooLarge => "source_too_large"@,
        ErrorCode::ExecutionTimeout => "execution_timeout"@,
        ErrorCode::ExecutionCancelled => "execution_cancelled"@,
        ErrorCode::ExecutorRequestTooLarge => "executor_request_too_large"@,
        ErrorCode::ExecutorStartFailed => "executor_start_failed"@,
        ErrorCode::ExecutorIoFailed => "executor_io_failed"@,
        ErrorCode::ExecutorFailed => "executor_failed"@,
        ErrorCode::SerializationFailed => "serialization_failed"@,
        ErrorCode::McpServerFailed => "mcp_server_failed"@,
    }
}

/// The code a diagnostic text names, if any.
pub open spec fn code_named(t: Seq<char>) -> Option<ErrorCode> {
    if t == "missing_access_token"@ {
        Some(ErrorCode::MissingAccessToken)
    } else if t == "config_directory_not_found"@ {
        Some(ErrorCode::ConfigDirectoryNotFound)
    } else if t == "config_read_failed"@ {
        Some(ErrorCode::ConfigReadFailed)
    } else if t == "config_parse_failed"@ {
        Some(ErrorCode::ConfigParseFailed)
    } else if t == "invalid_environment"@ {
        Some(ErrorCode::InvalidEnvironment)
    } else if t == "log_file_creation_failed"@ {
        Some(ErrorCode::LogFileCreationFailed)
    } else if t == "logging_initialization_failed"@ {
        Some(ErrorCode::LoggingInitializationFailed)
    } else if t == "invalid_configuration"@ {
        Some(ErrorCode::InvalidConfiguration)
    } else if t == "managed_lite_unavailable"@ {
        Some(ErrorCode::ManagedLiteUnavailable)
    } else if t == "invalid_arguments"@ {
        Some(ErrorCode::InvalidArguments)
    } else if t == "operation_forbidden"@ {
        Some(ErrorCode::OperationForbidden)
    } else if t == "basin_out_of_scope"@ {
        Some(ErrorCode::BasinOutOfScope)
    } else if t == "s2_request_failed"@ {
        Some(ErrorCode::S2RequestFailed)
    } else if t == "invalid_s2_value"@ {
        Some(ErrorCode::InvalidS2Value)
    } else if t == "code_mode_failed"@ {
        Some(ErrorCode::CodeModeFailed)
    } else if t == "source_too_large"@ {
        Some(ErrorCode::SourceTooLarge)
    } else if t == "execution_timeout"@ {
        Some(ErrorCode::ExecutionTimeout)
    } else if t == "execution_cancelled"@ {
        Some(ErrorCode::ExecutionCancelled)
    } else if t == "executor_request_too_large"@ {
        Some(ErrorCode::ExecutorRequestTooLarge)
    } else if t == "executor_start_failed"@ {
        Some(ErrorCode::ExecutorStartFailed)
    } else if t == "executor_io_failed"@ {
        Some(ErrorCode::ExecutorIoFailed)
    } else if t == "executor_failed"@ {
        Some(ErrorCode::ExecutorFailed)
    } else if t == "serialization_failed"@ {
        Some(ErrorCode::SerializationFailed)
    } else if t == "mcp_server_failed"@ {
        Some(ErrorCode::McpServerFailed)
    } else {
        None
    }
}

proof fn lemma_code_named(code: ErrorCode)
    ensures
        code_named(code_text(code)) == Some(code),
{
    reveal_strlit("missing_access_token");
    reveal_strlit("config_directory_not_found");
    reveal_strlit("config_read_failed");
    reveal_strlit("config_parse_failed");
    reveal_strlit("invalid_environment");
    reveal_strlit("log_file_creation_failed");
    reveal_strlit("logging_initialization_failed");
    reveal_strlit("invalid_configuration");
    reveal_strlit("managed_lite_unavailable");
    reveal_strlit("invalid_arguments");
    reveal_strlit("operation_forbidden");
    reveal_strlit("basin_out_of_scope");
    reveal_strlit("s2_request_failed");
    reveal_strlit("invalid_s2_value");
    reveal_strlit("code_mode_failed");
    reveal_strlit("source_too_large");
    reveal_strlit("execution_timeout");
    reveal_strlit("execution_cancelled");
    reveal_strlit("executor_request_too_large");
    reveal_strlit("executor_start_failed");
    reveal_strlit("executor_io_failed");
    reveal_strlit("executor_failed");
    reveal_strlit("serialization_failed");
    reveal_strlit("mcp_server_failed");
    match code {
        ErrorCode::MissingAccessToken => {

            assert(code_named("missing_access_token"@) == Some(ErrorCode::MissingAccessToken));
        },
        ErrorCode::ConfigDirectoryNotFound => {
            assert("config_directory_not_found"@.len() != "missing_access_token"@.len());
            assert(code_named("config_directory_not_found"@) == Some(ErrorCode::ConfigDirectoryNotFound));
        },
        ErrorCode::ConfigReadFailed => {
            assert("config_read_failed"@.len() != "missing_access_token"@.len());
            assert("config_read_failed"@.len() != "config_directory_not_found"@.len());
            assert(code_named("config_read_failed"@) == Some(ErrorCode::ConfigReadFailed));
        },
        ErrorCode::ConfigParseFailed => {
            assert("config_parse_failed"@.len() != "missing_access_token"@.len());
            assert("config_parse_failed"@.len() != "config_directory_not_found"@.len());
            assert("config_parse_failed"@.len() != "config_read_failed"@.len());
            assert(code_named("config_parse_failed"@) == Some(ErrorCode::ConfigParseFailed));
        },
        ErrorCode::InvalidEnvironment => {
            assert("invalid_environment"@.len() != "missing_access_token"@.len());
            assert("invalid_environment"@.len() != "config_directory_not_found"@.len());
            assert("invalid_environment"@.len() != "config_read_failed"@.len());
            assert("invalid_environment"@[0] != "config_parse_failed"@[0]);
            assert(code_named("invalid_environment"@) == Some(ErrorCode::InvalidEnvironment));
        },
        ErrorCode::LogFileCreationFailed => {
            assert("log_file_creation_failed"@.len() != "missing_access_token"@.len());
            assert("log_file_creation_failed"@.len() != "config_directory_not_found"@.len());
            assert("log_file_creation_failed"@.len() != "config_read_failed"@.len());
            assert("log_file_creation_failed"@.len() != "config_parse_failed"@.len());
            assert("log_file_creation_failed"@.len() != "invalid_environment"@.len());
            assert(code_named("log_file_creation_failed"@) == Some(ErrorCode::LogFileCreationFailed));
        },
        ErrorCode::LoggingInitializationFailed => {
            assert("logging_initialization_failed"@.len() != "missing_access_token"@.len());
            assert("logging_initialization_failed"@.len() != "config_directory_not_found"@.len());
            assert("logging_initialization_failed"@.len() != "config_read_failed"@.len());
            assert("logging_initialization_failed"@.len() != "config_parse_failed"@.len());
            assert("logging_initialization_failed"@.len() != "invalid_environment"@.len());
            assert("logging_initialization_failed"@.len() != "log_file_creation_failed"@.len());
            assert(code_named("logging_initialization_failed"@) == Some(ErrorCode::LoggingInitializationFailed));
        },
        ErrorCode::InvalidConfiguration => {
            assert("invalid_configuration"@.len() != "missing_access_token"@.len());
            assert("invalid_configuration"@.len() != "config_directory_not_found"@.len());
            assert("invalid_configuration"@.len() != "config_read_failed"@.len());
            assert("invalid_configuration"@.len() != "config_parse_failed"@.len());
            assert("invalid_configuration"@.len() != "invalid_environment"@.len());
            assert("invalid_configuration"@.len() != "log_file_creation_failed"@.len());
            assert("invalid_configuration"@.len() != "logging_initialization_failed"@.len());
            assert(code_named("invalid_configuration"@) == Some(ErrorCode::InvalidConfiguration));
        },
        ErrorCode::ManagedLiteUnavailable => {
            assert("managed_lite_unavailable"@.len() != "missing_access_token"@.len());
            assert("managed_lite_unavailable"@.len() != "config_directory_not_found"@.len());
            assert("managed_lite_unavailable"@.len() != "config_read_failed"@.len());
            assert("managed_lite_unavailable"@.len() != "config_parse_failed"@.len());
            assert("managed_lite_unavailable"@.len() != "invalid_environment"@.len());
            assert("managed_lite_unavailable"@[0] != "log_file_creation_failed"@[0]);
            assert("managed_lite_unavailable"@.len() != "logging_initialization_failed"@.len());
            assert("managed_lite_unavailable"@.len() != "invalid_configuration"@.len());
            assert(code_named("managed_lite_unavailable"@) == Some(ErrorCode::ManagedLiteUnavailable));
        },
        ErrorCode::InvalidArguments => {
            assert("invalid_arguments"@.len() != "missing_access_token"@.len());
            assert("invalid_arguments"@.len() != "config_directory_not_found"@.len());
            assert("invalid_arguments"@.len() != "config_read_failed"@.len());
            assert("invalid_arguments"@.len() != "config_parse_failed"@.len());
            assert("invalid_arguments"@.len() != "invalid_environment"@.len());
            assert("invalid_arguments"@.len() != "log_file_creation_failed"@.len());
            assert("invalid_arguments"@.len() != "logging_initialization_failed"@.len());
            assert("invalid_arguments"@.len() != "invalid_configuration"@.len());
            assert("invalid_arguments"@.len() != "managed_lite_unavailable"@.len());
            assert(code_named("invalid_arguments"@) == Some(ErrorCode::InvalidArguments));
        },
        ErrorCode::OperationForbidden => {
            assert("operation_forbidden"@.len() != "missing_access_token"@.len());
            assert("operation_forbidden"@.len() != "config_directory_not_found"@.len());
            assert("operation_forbidden"@.len() != "config_read_failed"@.len());
            assert("operation_forbidden"@[0] != "config_parse_failed"@[0]);
            assert("operation_forbidden"@[0] != "invalid_environment"@[0]);
            assert("operation_forbidden"@.len() != "log_file_creation_failed"@.len());
            assert("operation_forbidden"@.len() != "logging_initialization_failed"@.len());
            assert("operation_forbidden"@.len() != "invalid_configuration"@.len());
            assert("operation_forbidden"@.len() != "managed_lite_unavailable"@.len());
            assert("operation_forbidden"@.len() != "invalid_arguments"@.len());
            assert(code_named("operation_forbidden"@) == Some(ErrorCode::OperationForbidden));
        },
        ErrorCode::BasinOutOfScope => {
            assert("basin_out_of_scope"@.len() != "missing_access_token"@.len());
            assert("basin_out_of_scope"@.len() != "config_directory_not_found"@.len());
            assert("basin_out_of_scope"@[0] != "config_read_failed"@[0]);
            assert("basin_out_of_scope"@.len() != "config_parse_failed"@.len());
            assert("basin_out_of_scope"@.len() != "invalid_environment"@.len());
            assert("basin_out_of_scope"@.len() != "log_file_creation_failed"@.len());
            assert("basin_out_of_scope"@.len() != "logging_initialization_failed"@.len());
            assert("basin_out_of_scope"@.len() != "invalid_configuration"@.len());
            assert("basin_out_of_scope"@.len() != "managed_lite_unavailable"@.len());
            assert("basin_out_of_scope"@.len() != "invalid_arguments"@.len());
            assert("basin_out_of_scope"@.len() != "operation_forbidden"@.len());
            assert(code_named("basin_out_of_scope"@) == Some(ErrorCode::BasinOutOfScope));
        },
        ErrorCode::S2RequestFailed => {
            assert("s2_request_failed"@.len() != "missing_access_token"@.len());
            assert("s2_request_failed"@.len() != "config_directory_not_found"@.len());
            assert("s2_request_failed"@.len() != "config_read_failed"@.len());
            assert("s2_request_failed"@.len() != "config_parse_failed"@.len());
            assert("s2_request_failed"@.len() != "invalid_environment"@.len());
            assert("s2_request_failed"@.len() != "log_file_creation_failed"@.len());
            assert("s2_request_failed"@.len() != "logging_initialization_failed"@.len());
            assert("s2_request_failed"@.len() != "invalid_configuration"@.len());
            assert("s2_request_failed"@.len() != "managed_lite_unavailable"@.len());
            assert("s2_request_failed"@[0] != "invalid_arguments"@[0]);
            assert("s2_request_failed"@.len() != "operation_forbidden"@.len());
            assert("s2_request_failed"@.len() != "basin_out_of_scope"@.len());
            assert(code_named("s2_request_failed"@) == Some(ErrorCode::S2RequestFailed));
        },
        ErrorCode::InvalidS2Value => {
            assert("invalid_s2_value"@.len() != "missing_access_token"@.len());
            assert("invalid_s2_value"@.len() != "config_directory_not_found"@.len());
            assert("invalid_s2_value"@.len() != "config_read_failed"@.len());
            assert("invalid_s2_value"@.len() != "config_parse_failed"@.len());
            assert("invalid_s2_value"@.len() != "invalid_environment"@.len());
            assert("invalid_s2_value"@.len() != "log_file_creation_failed"@.len());
            assert("invalid_s2_value"@.len() != "logging_initialization_failed"@.len());
            assert("invalid_s2_value"@.len() != "invalid_configuration"@.len());
            assert("invalid_s2_value"@.len() != "managed_lite_unavailable"@.len());
            assert("invalid_s2_value"@.len() != "invalid_arguments"@.len());
            assert("invalid_s2_value"@.len() != "operation_forbidden"@.len());
            assert("invalid_s2_value"@.len() != "basin_out_of_scope"@.len());
            assert("invalid_s2_value"@.len() != "s2_request_failed"@.len());
            assert(code_named("invalid_s2_value"@) == Some(ErrorCode::InvalidS2Value));
        },
        ErrorCode::CodeModeFailed => {
            assert("code_mode_failed"@.len() != "missing_access_token"@.len());
            assert("code_mode_failed"@.len() != "config_directory_not_found"@.len());
            assert("code_mode_failed"@.len() != "config_read_failed"@.len());
            assert("code_mode_failed"@.len() != "config_parse_failed"@.len());
            assert("code_mode_failed"@.len() != "invalid_environment"@.len());
            assert("code_mode_failed"@.len() != "log_file_creation_failed"@.len());
            assert("code_mode_failed"@.len() != "logging_initialization_failed"@.len());
            assert("code_mode_failed"@.len() != "invalid_configuration"@.len());
            assert("code_mode_failed"@.len() != "managed_lite_unavailable"@.len());
            assert("code_mode_failed"@.len() != "invalid_arguments"@.len());
            assert("code_mode_failed"@.len() != "operation_forbidden"@.len());
            assert("code_mode_failed"@.len() != "basin_out_of_scope"@.len());
            assert("code_mode_failed"@.len() != "s2_request_failed"@.len());
            assert("code_mode_failed"@[0] != "invalid_s2_value"@[0]);
            assert(code_named("code_mode_failed"@) == Some(ErrorCode::CodeModeFailed));
        },
        ErrorCode::SourceTooLarge => {
            assert("source_too_large"@.len() != "missing_access_token"@.len());
            assert("source_too_large"@.len() != "config_directory_not_found"@.len());
            assert("source_too_large"@.len() != "config_read_failed"@.len());
            assert("source_too_large"@.len() != "config_parse_failed"@.len());
            assert("source_too_large"@.len() != "invalid_environment"@.len());
            assert("source_too_large"@.len() != "log_file_creation_failed"@.len());
            assert("source_too_large"@.len() != "logging_initialization_failed"@.len());
            assert("source_too_large"@.len() != "invalid_configuration"@.len());
            assert("source_too_large"@.len() != "managed_lite_unavailable"@.len());
            assert("source_too_large"@.len() != "invalid_arguments"@.len());
            assert("source_too_large"@.len() != "operation_forbidden"@.len());
            assert("source_too_large"@.len() != "basin_out_of_scope"@.len());
            assert("source_too_large"@.len() != "s2_request_failed"@.len());
            assert("source_too_large"@[0] != "invalid_s2_value"@[0]);
            assert("source_too_large"@[0] != "code_mode_failed"@[0]);
            assert(code_named("source_too_large"@) == Some(ErrorCode::SourceTooLarge));
        },
        ErrorCode::ExecutionTimeout => {
            assert("execution_timeout"@.len() != "missing_access_token"@.len());
            assert("execution_timeout"@.len() != "config_directory_not_found"@.len());
            assert("execution_timeout"@.len() != "config_read_failed"@.len());
            assert("execution_timeout"@.len() != "config_parse_failed"@.len());
            assert("execution_timeout"@.len() != "invalid_environment"@.len());
            assert("execution_timeout"@.len() != "log_file_creation_failed"@.len());
            assert("execution_timeout"@.len() != "logging_initialization_failed"@.len());
            assert("execution_timeout"@.len() != "invalid_configuration"@.len());
            assert("execution_timeout"@.len() != "managed_lite_unavailable"@.len());
            assert("execution_timeout"@[0] != "invalid_arguments"@[0]);
            assert("execution_timeout"@.len() != "operation_forbidden"@.len());
            assert("execution_timeout"@.len() != "basin_out_of_scope"@.len());
            assert("execution_timeout"@[0] != "s2_request_failed"@[0]);
            assert("execution_timeout"@.len() != "invalid_s2_value"@.len());
            assert("execution_timeout"@.len() != "code_mode_failed"@.len());
            assert("execution_timeout"@.len() != "source_too_large"@.len());
            assert(code_named("execution_timeout"@) == Some(ErrorCode::ExecutionTimeout));
        },
        ErrorCode::ExecutionCancelled => {
            assert("execution_cancelled"@.len() != "missing_access_token"@.len());
            assert("execution_cancelled"@.len() != "config_directory_not_found"@.len());
            assert("execution_cancelled"@.len() != "config_read_failed"@.len());
            assert("execution_cancelled"@[0] != "config_parse_failed"@[0]);
            assert("execution_cancelled"@[0] != "invalid_environment"@[0]);
            assert("execution_cancelled"@.len() != "log_file_creation_failed"@.len());
            assert("execution_cancelled"@.len() != "logging_initialization_failed"@.len());
            assert("execution_cancelled"@.len() != "invalid_configuration"@.len());
            assert("execution_cancelled"@.len() != "managed_lite_unavailable"@.len());
            assert("execution_cancelled"@.len() != "invalid_arguments"@.len());
            assert("execution_cancelled"@[0] != "operation_forbidden"@[0]);
            assert("execution_cancelled"@.len() != "basin_out_of_scope"@.len());
            assert("execution_cancelled"@.len() != "s2_request_failed"@.len());
            assert("execution_cancelled"@.len() != "invalid_s2_value"@.len());
            assert("execution_cancelled"@.len() != "code_mode_failed"@.len());
            assert("execution_cancelled"@.len() != "source_too_large"@.len());
            assert("execution_cancelled"@.len() != "execution_timeout"@.len());
            assert(code_named("execution_cancelled"@) == Some(ErrorCode::ExecutionCancelled));
        },
        ErrorCode::ExecutorRequestTooLarge => {
            assert("executor_request_too_large"@.len() != "missing_access_token"@.len());
            assert("executor_request_too_large"@[0] != "config_directory_not_found"@[0]);
            assert("executor_request_too_large"@.len() != "config_read_failed"@.len());
            assert("executor_request_too_large"@.len() != "config_parse_failed"@.len());
            assert("executor_request_too_large"@.len() != "invalid_environment"@.len());
            assert("executor_request_too_large"@.len() != "log_file_creation_failed"@.len());
            assert("executor_request_too_large"@.len() != "logging_initialization_failed"@.len());
            assert("executor_request_too_large"@.len() != "invalid_configuration"@.len());
            assert("executor_request_too_large"@.len() != "managed_lite_unavailable"@.len());
            assert("executor_request_too_large"@.len() != "invalid_arguments"@.len());
            assert("executor_request_too_large"@.len() != "operation_forbidden"@.len());
            assert("executor_request_too_large"@.len() != "basin_out_of_scope"@.len());
            assert("executor_request_too_large"@.len() != "s2_request_failed"@.len());
            assert("executor_request_too_large"@.len() != "invalid_s2_value"@.len());
            assert("executor_request_too_large"@.len() != "code_mode_failed"@.len());
            assert("executor_request_too_large"@.len() != "source_too_large"@.len());
            assert("executor_request_too_large"@.len() != "execution_timeout"@.len());
            assert("executor_request_too_large"@.len() != "execution_cancelled"@.len());
            assert(code_named("executor_request_too_large"@) == Some(ErrorCode::ExecutorRequestTooLarge));
        },
        ErrorCode::ExecutorStartFailed => {
            assert("executor_start_failed"@.len() != "missing_access_token"@.len());
            assert("executor_start_failed"@.len() != "config_directory_not_found"@.len());
            assert("executor_start_failed"@.len() != "config_read_failed"@.len());
            assert("executor_start_failed"@.len() != "config_parse_failed"@.len());
            assert("executor_start_failed"@.len() != "invalid_environment"@.len());
            assert("executor_start_failed"@.len() != "log_file_creation_failed"@.len());
            assert("executor_start_failed"@.len() != "logging_initialization_failed"@.len());
            assert("executor_start_failed"@[0] != "invalid_configuration"@[0]);
            assert("executor_start_failed"@.len() != "managed_lite_unavailable"@.len());
            assert("executor_start_failed"@.len() != "invalid_arguments"@.len());
            assert("executor_start_failed"@.len() != "operation_forbidden"@.len());
            assert("executor_start_failed"@.len() != "basin_out_of_scope"@.len());
            assert("executor_start_failed"@.len() != "s2_request_failed"@.len());
            assert("executor_start_failed"@.len() != "invalid_s2_value"@.len());
            assert("executor_start_failed"@.len() != "code_mode_failed"@.len());
            assert("executor_start_failed"@.len() != "source_too_large"@.len());
            assert("executor_start_failed"@.len() != "execution_timeout"@.len());
            assert("executor_start_failed"@.len() != "execution_cancelled"@.len());
            assert("executor_start_failed"@.len() != "executor_request_too_large"@.len());
            assert(code_named("executor_start_failed"@) == Some(ErrorCode::ExecutorStartFailed));
        },
        ErrorCode::ExecutorIoFailed => {
            assert("executor_io_failed"@.len() != "missing_access_token"@.len());
            assert("executor_io_failed"@.len() != "config_directory_not_found"@.len());
            assert("executor_io_failed"@[0] != "config_read_failed"@[0]);
            assert("executor_io_failed"@.len() != "config_parse_failed"@.len());
            assert("executor_io_failed"@.len() != "invalid_environment"@.len());
            assert("executor_io_failed"@.len() != "log_file_creation_failed"@.len());
            assert("executor_io_failed"@.len() != "logging_initialization_failed"@.len());
            assert("executor_io_failed"@.len() != "invalid_configuration"@.len());
            assert("executor_io_failed"@.len() != "managed_lite_unavailable"@.len());
            assert("executor_io_failed"@.len() != "invalid_arguments"@.len());
            assert("executor_io_failed"@.len() != "operation_forbidden"@.len());
            assert("executor_io_failed"@[0] != "basin_out_of_scope"@[0]);
            assert("executor_io_failed"@.len() != "s2_request_failed"@.len());
            assert("executor_io_failed"@.len() != "invalid_s2_value"@.len());
            assert("executor_io_failed"@.len() != "code_mode_failed"@.len());
            assert("executor_io_failed"@.len() != "source_too_large"@.len());
            assert("executor_io_failed"@.len() != "execution_timeout"@.len());
            assert("executor_io_failed"@.len() != "execution_cancelled"@.len());
            assert("executor_io_failed"@.len() != "executor_request_too_large"@.len());
            assert("executor_io_failed"@.len() != "executor_start_failed"@.len());
            assert(code_named("executor_io_failed"@) == Some(ErrorCode::ExecutorIoFailed));
        },
        ErrorCode::ExecutorFailed => {
            assert("executor_failed"@.len() != "missing_access_token"@.len());
            assert("executor_failed"@.len() != "config_directory_not_found"@.len());
            assert("executor_failed"@.len() != "config_read_failed"@.len());
            assert("executor_failed"@.len() != "config_parse_failed"@.len());
            assert("executor_failed"@.len() != "invalid_environment"@.len());
            assert("executor_failed"@.len() != "log_file_creation_failed"@.len());
            assert("executor_failed"@.len() != "logging_initialization_failed"@.len());
            assert("executor_failed"@.len() != "invalid_configuration"@.len());
            assert("executor_failed"@.len() != "managed_lite_unavailable"@.len());
            assert("executor_failed"@.len() != "invalid_arguments"@.len());
            assert("executor_failed"@.len() != "operation_forbidden"@.len());
            assert("executor_failed"@.len() != "basin_out_of_scope"@.len());
            assert("executor_failed"@.len() != "s2_request_failed"@.len());
            assert("executor_failed"@.len() != "invalid_s2_value"@.len());
            assert("executor_failed"@.len() != "code_mode_failed"@.len());
            assert("executor_failed"@.len() != "source_too_large"@.len());
            assert("executor_failed"@.len() != "execution_timeout"@.len());
            assert("executor_failed"@.len() != "execution_cancelled"@.len());
            assert("executor_failed"@.len() != "executor_request_too_large"@.len());
            assert("executor_failed"@.len() != "executor_start_failed"@.len());
            assert("executor_failed"@.len() != "executor_io_failed"@.len());
            assert(code_named("executor_failed"@) == Some(ErrorCode::ExecutorFailed));
        },
        ErrorCode::SerializationFailed => {
            assert("serialization_failed"@[0] != "missing_access_token"@[0]);
            assert("serialization_failed"@.len() != "config_directory_not_found"@.len());
            assert("serialization_failed"@.len() != "config_read_failed"@.len());
            assert("serialization_failed"@.len() != "config_parse_failed"@.len());
            assert("serialization_failed"@.len() != "invalid_environment"@.len());
            assert("serialization_failed"@.len() != "log_file_creation_failed"@.len());
            assert("serialization_failed"@.len() != "logging_initialization_failed"@.len());
            assert("serialization_failed"@.len() != "invalid_configuration"@.len());
            assert("serialization_failed"@.len() != "managed_lite_unavailable"@.len());
            assert("serialization_failed"@.len() != "invalid_arguments"@.len());
            assert("serialization_failed"@.len() != "operation_forbidden"@.len());
            assert("serialization_failed"@.len() != "basin_out_of_scope"@.len());
            assert("serialization_failed"@.len() != "s2_request_failed"@.len());
            assert("serialization_failed"@.len() != "invalid_s2_value"@.len());
            assert("serialization_failed"@.len() != "code_mode_failed"@.len());
            assert("serialization_failed"@.len() != "source_too_large"@.len());
            assert("serialization_failed"@.len() != "execution_timeout"@.len());
            assert("serialization_failed"@.len() != "execution_cancelled"@.len());
            assert("serialization_failed"@.len() != "executor_request_too_large"@.len());
            assert("serialization_failed"@.len() != "executor_start_failed"@.len());
            assert("serialization_failed"@.len() != "executor_io_failed"@.len());
            assert("serialization_failed"@.len() != "executor_failed"@.len());
            assert(code_named("serialization_failed"@) == Some(ErrorCode::SerializationFailed));
        },
        ErrorCode::McpServerFailed => {
            assert("mcp_server_failed"@.len() != "missing_access_token"@.len());
            assert("mcp_server_failed"@.len() != "config_directory_not_found"@.len());
            assert("mcp_server_failed"@.len() != "config_read_failed"@.len());
            assert("mcp_server_failed"@.len() != "config_parse_failed"@.len());
            assert("mcp_server_failed"@.len() != "invalid_environment"@.len());
            assert("mcp_server_failed"@.len() != "log_file_creation_failed"@.len());
            assert("mcp_server_failed"@.len() != "logging_initialization_failed"@.len());
            assert("mcp_server_failed"@.len() != "invalid_configuration"@.len());
            assert("mcp_server_failed"@.len() != "managed_lite_unavailable"@.len());
            assert("mcp_server_failed"@[0] != "invalid_arguments"@[0]);
            assert("mcp_server_failed"@.len() != "operation_forbidden"@.len());
            assert("mcp_server_failed"@.len() != "basin_out_of_scope"@.len());
            assert("mcp_server_failed"@[0] != "s2_request_failed"@[0]);
            assert("mcp_server_failed"@.len() != "invalid_s2_value"@.len());
            assert("mcp_server_failed"@.len() != "code_mode_failed"@.len());
            assert("mcp_server_failed"@.len() != "source_too_large"@.len());
            assert("mcp_server_failed"@[0] != "execution_timeout"@[0]);
            assert("mcp_server_failed"@.len() != "execution_cancelled"@.len());
            assert("mcp_server_failed"@.len() != "executor_request_too_large"@.len());
            assert("mcp_server_failed"@.len() != "executor_start_failed"@.len());
            assert("mcp_server_failed"@.len() != "executor_io_failed"@.len());
            assert("mcp_server_failed"@.len() != "executor_failed"@.len());
            assert("mcp_server_failed"@.len() != "serialization_failed"@.len());
            assert(code_named("mcp_server_failed"@) == Some(ErrorCode::McpServerFailed));
        },
    }
}

/// Distinct codes appear under distinct texts, so a diagnostic's text names
/// its code.
pub proof fn lemma_code_texts_distinct(a: ErrorCode, b: ErrorCode)
    ensures
        code_text(a) == code_text(b) ==> a == b,
{
    lemma_code_named(a);
    lemma_code_named(b);
}

impl ErrorCode {
    pub fn as_str(self) -> (s: &'static str)
        ensures
            s@ == code_text(self),
    {
        match self {
            ErrorCode::MissingAccessToken => "missing_access_token",
            ErrorCode::ConfigDirectoryNotFound => "config_directory_not_found",
            ErrorCode::ConfigReadFailed => "config_read_failed",
            ErrorCode::ConfigParseFailed => "config_parse_failed",
            ErrorCode::InvalidEnvironment => "invalid_environment",
            ErrorCode::LogFileCreationFailed => "log_file_creation_failed",
            ErrorCode::LoggingInitializationFailed => "logging_initialization_failed",
            ErrorCode::InvalidConfiguration => "invalid_configuration",
            ErrorCode::ManagedLiteUnavailable => "managed_lite_unavailable",
            ErrorCode::InvalidArguments => "invalid_arguments",
            ErrorCode::OperationForbidden => "operation_forbidden",
            ErrorCode::BasinOutOfScope => "basin_out_of_scope",
            ErrorCode::S2RequestFailed => "s2_request_failed",
            ErrorCode::InvalidS2Value => "invalid_s2_value",
            ErrorCode::CodeModeFailed => "code_mode_failed",
            ErrorCode::SourceTooLarge => "source_too_large",
            ErrorCode::ExecutionTimeout => "execution_timeout",
            ErrorCode::ExecutionCancelled => "execution_cancelled",
            ErrorCode::ExecutorRequestTooLarge => "executor_request_too_large",
            ErrorCode::ExecutorStartFailed => "executor_start_failed",
            ErrorCode::ExecutorIoFailed => "executor_io_failed",
            ErrorCode::ExecutorFailed => "executor_failed",
            ErrorCode::SerializationFailed => "serialization_failed",
            ErrorCode::McpServerFailed => "mcp_server_failed",
        }
    }
}

/// A public diagnostic: code, message and what to do about it.
pub struct ErrorDiagnostic {
    pub code: ErrorCode,
    pub message: String,
    pub remediation: Option<String>,
}

/// What a failed tool call reports: a public diagnostic, or nothing beyond
/// the failure itself.
pub enum ErrorReport {
    Public(ErrorDiagnostic),
    Private,
}

/// Configuration failures. Paths and the causes reported by other
/// components are kept as their display text.
pub enum ConfigError {
    MissingAccessToken,
    DirectoryNotFound,
    Read { path: String, source: String },
    Parse { path: String, source: String },
    InvalidEnvironment { name: String },
    CreateLogFile { path: String, source: String },
    InitializeLogging { source: String },
    Invalid(String),
    StartManagedLite { source: String },
}

pub enum RequestError {
    InvalidArguments(String),
}

pub enum PolicyError {
    Forbidden,
    BasinScope { requested: String, allowed: String },
}

/// Failures reported by the S2 service or its client's validation, as text.
pub enum ServiceError {
    S2(String),
    Validation(String),
}

pub enum ExecutionError {
    CodeMode { message: String, code: ErrorCode },
    SourceTooLarge { maximum: usize },
    Timeout { seconds: u64 },
    Cancelled,
}

pub enum SandboxError {
    RequestTooLarge { maximum: usize },
    Start(String),
    Io(String),
    Failed(String),
}

pub enum ProtocolError {
    Serialize(String),
    Mcp(String),
}

/// Errors of the S2 MCP server.
pub enum Error {
    Config(ConfigError),
    Request(RequestError),
    Policy(PolicyError),
    Service(ServiceError),
    Execution(ExecutionError),
    Sandbox(SandboxError),
    Protocol(ProtocolError),
}

/// The error's message, as its `Display` text reads.
pub open spec fn error_message(e: Error) -> Seq<char> {
    match e {
        Error::Config(c) => match c {
            ConfigError::MissingAccessToken => "S2 access token is not configured"@,
            ConfigError::DirectoryNotFound => "could not determine the S2 configuration directory"@,
            ConfigError::Read { path, source } => "failed to read configuration at "@ + path@ + ": "@ + source@,
            ConfigError::Parse { path, source } => "invalid configuration at "@ + path@ + ": "@ + source@,
            ConfigError::InvalidEnvironment { name } => "environment variable "@ + name@ + " is not valid Unicode"@,
            ConfigError::CreateLogFile { path, source } => "failed to create log file at "@ + path@ + ": "@ + source@,
            ConfigError::InitializeLogging { source } => "failed to initialize logging: "@ + source@,
            ConfigError::Invalid(m) => "invalid configuration: "@ + m@,
            ConfigError::StartManagedLite { source } => "Could not start S2 Lite. Start Docker or OrbStack, set DOCKER_HOST if the socket is non-default, provide --endpoint URL, or use --from-env. Details: "@
                + source@,
        },
        Error::Request(RequestError::InvalidArguments(m)) => "invalid tool arguments: "@ + m@,
        Error::Policy(p) => match p {
            PolicyError::Forbidden => "operation is not available under the active server policy"@,
            PolicyError::BasinScope { requested, allowed } => "basin `"@ + requested@
                + "` is outside the configured basin scope `"@ + allowed@ + "`"@,
        },
        Error::Service(s) => match s {
            ServiceError::S2(m) => "S2 request failed: "@ + m@,
            ServiceError::Validation(m) => "invalid S2 value: "@ + m@,
        },
        Error::Execution(x) => match x {
            ExecutionError::CodeMode { message, code } => "Code Mode failed: "@ + message@,
            ExecutionError::SourceTooLarge { maximum } => "code exceeds the "@ + decimal(maximum as nat)
                + " byte source limit"@,
            ExecutionError::Timeout { seconds } => "code execution timed out after "@ + decimal(seconds as nat)
                + " seconds"@,
            ExecutionError::Cancelled => "execution cancelled"@,
        },
        Error::Sandbox(b) => match b {
            SandboxError::RequestTooLarge { maximum } => "execution request exceeds the "@ + decimal(
                maximum as nat,
            ) + " byte child-process limit"@,
            SandboxError::Start(m) => "failed to start the execution process: "@ + m@,
            SandboxError::Io(m) => "failed to communicate with the execution process: "@ + m@,
            SandboxError::Failed(m) => "execution process exited unsuccessfully: "@ + m@,
        },
        Error::Protocol(p) => match p {
            ProtocolError::Serialize(m) => "failed to serialize data: "@ + m@,
            ProtocolError::Mcp(m) => "MCP server failed: "@ + m@,
        },
    }
}

/// The diagnostic code of an error.
pub open spec fn error_code(e: Error) -> ErrorCode {
    match e {
        Error::Config(c) => match c {
            ConfigError::MissingAccessToken => ErrorCode::MissingAccessToken,
            ConfigError::DirectoryNotFound => ErrorCode::ConfigDirectoryNotFound,
            ConfigError::Read { .. } => ErrorCode::ConfigReadFailed,
            ConfigError::Parse { .. } => ErrorCode::ConfigParseFailed,
            ConfigError::InvalidEnvironment { .. } => ErrorCode::InvalidEnvironment,
            ConfigError::CreateLogFile { .. } => ErrorCode::LogFileCreationFailed,
            ConfigError::InitializeLogging { .. } => ErrorCode::LoggingInitializationFailed,
            ConfigError::Invalid(_) => ErrorCode::InvalidConfiguration,
            ConfigError::StartManagedLite { .. } => ErrorCode::ManagedLiteUnavailable,
        },
        Error::Request(_) => ErrorCode::InvalidArguments,
        Error::Policy(p) => match p {
            PolicyError::Forbidden => ErrorCode::OperationForbidden,
            PolicyError::BasinScope { .. } => ErrorCode::BasinOutOfScope,
        },
        Error::Service(s) => match s {
            ServiceError::S2(_) => ErrorCode::S2RequestFailed,
            ServiceError::Validation(_) => ErrorCode::InvalidS2Value,
        },
        Error::Execution(x) => match x {
            ExecutionError::CodeMode { code, .. } => code,
            ExecutionError::SourceTooLarge { .. } => ErrorCode::SourceTooLarge,
            ExecutionError::Timeout { .. } => ErrorCode::ExecutionTimeout,
            ExecutionError::Cancelled => ErrorCode::ExecutionCancelled,
        },
        Error::Sandbox(b) => match b {
            SandboxError::RequestTooLarge { .. } => ErrorCode::ExecutorRequestTooLarge,
            SandboxError::Start(_) => ErrorCode::ExecutorStartFailed,
            SandboxError::Io(_) => ErrorCode::ExecutorIoFailed,
            SandboxError::Failed(_) => ErrorCode::ExecutorFailed,
        },
        Error::Protocol(p) => match p {
            ProtocolError::Serialize(_) => ErrorCode::SerializationFailed,
            ProtocolError::Mcp(_) => ErrorCode::McpServerFailed,
        },
    }
}

/// What the caller of a tool can do about an error, where there is advice.
pub open spec fn error_remediation(e: Error) -> Option<Seq<char>> {
    match e {
        Error::Config(c) => Some(
            match c {
                ConfigError::MissingAccessToken => "Set S2_ACCESS_TOKEN or provide an access token in the S2 configuration."@,
                ConfigError::DirectoryNotFound => "Set a platform configuration directory before starting the server."@,
                ConfigError::Read { .. } => "Check the configuration path and its read permissions."@,
                ConfigError::Parse { .. } => "Fix the configuration values and retry the server startup."@,
                ConfigError::Invalid(_) => "Fix the configuration values and retry the server startup."@,
                ConfigError::InvalidEnvironment { .. } => "Set the environment variable to valid UTF-8 text."@,
                ConfigError::CreateLogFile { .. } => "Choose a writable log-file path or omit the log-file option."@,
                ConfigError::InitializeLogging { .. } => "Check the logging configuration and retry the server startup."@,
                ConfigError::StartManagedLite { .. } => "Start Docker or OrbStack, set DOCKER_HOST when needed, provide --endpoint, or use --from-env."@,
            },
        ),
        Error::Request(_) => Some("Check the tool input schema and provide valid JSON arguments."@),
        Error::Policy(p) => Some(
            match p {
                PolicyError::Forbidden => "Use --allow-destructive for destructive tools and remove --readonly for write operations."@,
                PolicyError::BasinScope { .. } => "Use a basin within the configured --basin scope or restart without --basin."@,
            },
        ),
        Error::Service(s) => Some(
            match s {
                ServiceError::S2(_) => "Check the S2 endpoints, access token, and service availability before retrying."@,
                ServiceError::Validation(_) => "Check the value against the advertised S2 tool schema."@,
            },
        ),
        Error::Execution(x) => Some(
            match x {
                ExecutionError::CodeMode { .. } => "Review the Code Mode diagnostic and correct the submitted program."@,
                ExecutionError::SourceTooLarge { .. } => "Reduce the TypeScript source or split it across smaller executions."@,
                ExecutionError::Timeout { .. } => "Reduce the program's work or split it across smaller executions."@,
                ExecutionError::Cancelled => "Retry the tool call; the previous request was cancelled."@,
            },
        ),
        Error::Sandbox(_) => None,
        Error::Protocol(_) => None,
    }
}

/// Errors that a tool call reports to its caller: configuration, request,
/// policy, service and execution failures; sandbox and protocol failures
/// stay internal.
pub open spec fn reported_to_caller(e: Error) -> bool {
    match e {
        Error::Sandbox(_) | Error::Protocol(_) => false,
        _ => true,
    }
}

impl Error {
    pub fn invalid_arguments(message: &str) -> (e: Self)
        ensures
            e matches Error::Request(RequestError::InvalidArguments(m)) && m@ == message@,
    {
        Error::Request(RequestError::InvalidArguments(copy_str(message)))
    }

    pub fn invalid_configuration(message: &str) -> (e: Self)
        ensures
            e matches Error::Config(ConfigError::Invalid(m)) && m@ == message@,
    {
        Error::Config(ConfigError::Invalid(copy_str(message)))
    }

    pub fn code_mode(message: &str) -> (e: Self)
        ensures
            e matches Error::Execution(ExecutionError::CodeMode { message: m, code }) && m@ == message@
                && code == ErrorCode::CodeModeFailed,
    {
        Error::Execution(ExecutionError::CodeMode { message: copy_str(message), code: ErrorCode::CodeModeFailed })
    }

    pub fn code_mode_with_diagnostic(diagnostic: ErrorDiagnostic) -> (e: Self)
        ensures
            e matches Error::Execution(ExecutionError::CodeMode { message: m, code }) && m@ == diagnostic.message@
                && code == diagnostic.code,
    {
        Error::Execution(ExecutionError::CodeMode { message: diagnostic.message, code: diagnostic.code })
    }

    pub fn forbidden() -> (e: Self)
        ensures
            e matches Error::Policy(PolicyError::Forbidden),
    {
        Error::Policy(PolicyError::Forbidden)
    }

    pub fn basin_scope(requested: &str, allowed: &str) -> (e: Self)
        ensures
            e matches Error::Policy(PolicyError::BasinScope { requested: r, allowed: a }) && r@ == requested@
                && a@ == allowed@,
    {
        Error::Policy(PolicyError::BasinScope { requested: copy_str(requested), allowed: copy_str(allowed) })
    }

    pub fn execution_cancelled() -> (e: Self)
        ensures
            e matches Error::Execution(ExecutionError::Cancelled),
    {
        Error::Execution(ExecutionError::Cancelled)
    }

    pub fn execution_timeout(seconds: u64) -> (e: Self)
        ensures
            e matches Error::Execution(ExecutionError::Timeout { seconds: s }) && s == seconds,
    {
        Error::Execution(ExecutionError::Timeout { seconds })
    }

    pub fn executor_failed(message: &str) -> (e: Self)
        ensures
            e matches Error::Sandbox(SandboxError::Failed(m)) && m@ == message@,
    {
        Error::Sandbox(SandboxError::Failed(copy_str(message)))
    }

    /// An input/output failure talking to the execution process, by its text.
    pub fn executor_io(error: &str) -> (e: Self)
        ensures
            e matches Error::Sandbox(SandboxError::Io(m)) && m@ == error@,
    {
        Error::Sandbox(SandboxError::Io(copy_str(error)))
    }

    /// A failure starting the execution process, by its text.
    pub fn start_executor(error: &str) -> (e: Self)
        ensures
            e matches Error::Sandbox(SandboxError::Start(m)) && m@ == error@,
    {
        Error::Sandbox(SandboxError::Start(copy_str(error)))
    }

    pub fn executor_request_too_large(maximum: usize) -> (e: Self)
        ensures
            e matches Error::Sandbox(SandboxError::RequestTooLarge { maximum: m }) && m == maximum,
    {
        Error::Sandbox(SandboxError::RequestTooLarge { maximum })
    }

    pub fn is_tool_failure(&self) -> (b: bool)
        ensures
            b == reported_to_caller(*self),
    {
        match self {
            Error::Sandbox(_) | Error::Protocol(_) => false,
            _ => true,
        }
    }

    pub fn code(&self) -> (c: ErrorCode)
        ensures
            c == error_code(*self),
    {
        match self {
            Error::Config(c) => match c {
                ConfigError::MissingAccessToken => ErrorCode::MissingAccessToken,
                ConfigError::DirectoryNotFound => ErrorCode::ConfigDirectoryNotFound,
                ConfigError::Read { .. } => ErrorCode::ConfigReadFailed,
                ConfigError::Parse { .. } => ErrorCode::ConfigParseFailed,
                ConfigError::InvalidEnvironment { .. } => ErrorCode::InvalidEnvironment,
                ConfigError::CreateLogFile { .. } => ErrorCode::LogFileCreationFailed,
                ConfigError::InitializeLogging { .. } => ErrorCode::LoggingInitializationFailed,
                ConfigError::Invalid(_) => ErrorCode::InvalidConfiguration,
                ConfigError::StartManagedLite { .. } => ErrorCode::ManagedLiteUnavailable,
            },
            Error::Request(_) => ErrorCode::InvalidArguments,
            Error::Policy(p) => match p {
                PolicyError::Forbidden => ErrorCode::OperationForbidden,
                PolicyError::BasinScope { .. } => ErrorCode::BasinOutOfScope,
            },
            Error::Service(s) => match s {
                ServiceError::S2(_) => ErrorCode::S2RequestFailed,
                ServiceError::Validation(_) => ErrorCode::InvalidS2Value,
            },
            Error::Execution(x) => match x {
                ExecutionError::CodeMode { code, .. } => *code,
                ExecutionError::SourceTooLarge { .. } => ErrorCode::SourceTooLarge,
                ExecutionError::Timeout { .. } => ErrorCode::ExecutionTimeout,
                ExecutionError::Cancelled => ErrorCode::ExecutionCancelled,
            },
            Error::Sandbox(b) => match b {
                SandboxError::RequestTooLarge { .. } => ErrorCode::ExecutorRequestTooLarge,
                SandboxError::Start(_) => ErrorCode::ExecutorStartFailed,
                SandboxError::Io(_) => ErrorCode::ExecutorIoFailed,
                SandboxError::Failed(_) => ErrorCode::ExecutorFailed,
            },
            Error::Protocol(p) => match p {
                ProtocolError::Serialize(_) => ErrorCode::SerializationFailed,
                ProtocolError::Mcp(_) => ErrorCode::McpServerFailed,
            },
        }
    }

    pub fn remediation(&self) -> (r: Option<&'static str>)
        ensures
            r matches Some(s) ==> error_remediation(*self) == Some(s@),
            r is None ==> error_remediation(*self) is None,
    {
        match self {
            Error::Config(c) => Some(
                match c {
                    ConfigError::MissingAccessToken => "Set S2_ACCESS_TOKEN or provide an access token in the S2 configuration.",
                    ConfigError::DirectoryNotFound => "Set a platform configuration directory before starting the server.",
                    ConfigError::Read { .. } => "Check the configuration path and its read permissions.",
                    ConfigError::Parse { .. } => "Fix the configuration values and retry the server startup.",
                    ConfigError::Invalid(_) => "Fix the configuration values and retry the server startup.",
                    ConfigError::InvalidEnvironment { .. } => "Set the environment variable to valid UTF-8 text.",
                    ConfigError::CreateLogFile { .. } => "Choose a writable log-file path or omit the log-file option.",
                    ConfigError::InitializeLogging { .. } => "Check the logging configuration and retry the server startup.",
                    ConfigError::StartManagedLite { .. } => "Start Docker or OrbStack, set DOCKER_HOST when needed, provide --endpoint, or use --from-env.",
                },
            ),
            Error::Request(_) => Some("Check the tool input schema and provide valid JSON arguments."),
            Error::Policy(p) => Some(
                match p {
                    PolicyError::Forbidden => "Use --allow-destructive for destructive tools and remove --readonly for write operations.",
                    PolicyError::BasinScope { .. } => "Use a basin within the configured --basin scope or restart without --basin.",
                },
            ),
            Error::Service(s) => Some(
                match s {
                    ServiceError::S2(_) => "Check the S2 endpoints, access token, and service availability before retrying.",
                    ServiceError::Validation(_) => "Check the value against the advertised S2 tool schema.",
                },
            ),
            Error::Execution(x) => Some(
                match x {
                    ExecutionError::CodeMode { .. } => "Review the Code Mode diagnostic and correct the submitted program.",
                    ExecutionError::SourceTooLarge { .. } => "Reduce the TypeScript source or split it across smaller executions.",
                    ExecutionError::Timeout { .. } => "Reduce the program's work or split it across smaller executions.",
                    ExecutionError::Cancelled => "Retry the tool call; the previous request was cancelled.",
                },
            ),
            Error::Sandbox(_) => None,
            Error::Protocol(_) => None,
        }
    }

    /// The error's message, as its `Display` text reads.
    pub fn to_text(&self) -> (t: String)
        ensures
            t@ == error_message(*self),
    {
        match self {
            Error::Config(c) => match c {
                ConfigError::MissingAccessToken => copy_str("S2 access token is not configured"),
                ConfigError::DirectoryNotFound => copy_str("could not determine the S2 configuration directory"),
                ConfigError::Read { path, source } => {
                    let mut t = concat3("failed to read configuration at ", path.as_str(), ": ");
                    push_str(&mut t, source.as_str());
                    t
                },
                ConfigError::Parse { path, source } => {
                    let mut t = concat3("invalid configuration at ", path.as_str(), ": ");
                    push_str(&mut t, source.as_str());
                    t
                },
                ConfigError::InvalidEnvironment { name } => concat3("environment variable ", name.as_str(), " is not valid Unicode"),
                ConfigError::CreateLogFile { path, source } => {
                    let mut t = concat3("failed to create log file at ", path.as_str(), ": ");
                    push_str(&mut t, source.as_str());
                    t
                },
                ConfigError::InitializeLogging { source } => concat2("failed to initialize logging: ", source.as_str()),
                ConfigError::Invalid(m) => concat2("invalid configuration: ", m.as_str()),
                ConfigError::StartManagedLite { source } => concat2(
                    "Could not start S2 Lite. Start Docker or OrbStack, set DOCKER_HOST if the socket is non-default, provide --endpoint URL, or use --from-env. Details: ",
                    source.as_str(),
                ),
            },
            Error::Request(RequestError::InvalidArguments(m)) => concat2("invalid tool arguments: ", m.as_str()),
            Error::Policy(p) => match p {
                PolicyError::Forbidden => copy_str("operation is not available under the active server policy"),
                PolicyError::BasinScope { requested, allowed } => {
                    let mut t = concat3("basin `", requested.as_str(), "` is outside the configured basin scope `");
                    push_str(&mut t, allowed.as_str());
                    push_str(&mut t, "`");
                    t
                },
            },
            Error::Service(s) => match s {
                ServiceError::S2(m) => concat2("S2 request failed: ", m.as_str()),
                ServiceError::Validation(m) => concat2("invalid S2 value: ", m.as_str()),
            },
            Error::Execution(x) => match x {
                ExecutionError::CodeMode { message, .. } => concat2("Code Mode failed: ", message.as_str()),
                ExecutionError::SourceTooLarge { maximum } => {
                    let n = decimal_string(*maximum as u64);
                    concat3("code exceeds the ", n.as_str(), " byte source limit")
                },
                ExecutionError::Timeout { seconds } => {
                    let n = decimal_string(*seconds);
                    concat3("code execution timed out after ", n.as_str(), " seconds")
                },
                ExecutionError::Cancelled => copy_str("execution cancelled"),
            },
            Error::Sandbox(b) => match b {
                SandboxError::RequestTooLarge { maximum } => {
                    let n = decimal_string(*maximum as u64);
                    concat3("execution request exceeds the ", n.as_str(), " byte child-process limit")
                },
                SandboxError::Start(m) => concat2("failed to start the execution process: ", m.as_str()),
                SandboxError::Io(m) => concat2("failed to communicate with the execution process: ", m.as_str()),
                SandboxError::Failed(m) => concat2("execution process exited unsuccessfully: ", m.as_str()),
            },
            Error::Protocol(p) => match p {
                ProtocolError::Serialize(m) => concat2("failed to serialize data: ", m.as_str()),
                ProtocolError::Mcp(m) => concat2("MCP server failed: ", m.as_str()),
            },
        }
    }

    /// The public diagnostic of the error.
    pub fn diagnostic(&self) -> (d: ErrorDiagnostic)
        ensures
            d.code == error_code(*self),
            d.message@ == error_message(*self),
            d.remediation matches Some(r) ==> error_remediation(*self) == Some(r@),
            d.remediation is None ==> error_remediation(*self) is None,
    {
        let remediation = match self.remediation() {
            Some(r) => Some(copy_str(r)),
            None => None,
        };
        ErrorDiagnostic { code: self.code(), message: self.to_text(), remediation }
    }

    /// The report of a failed tool call: the diagnostic when the error is
    /// one to report, nothing otherwise.
    pub fn report(&self) -> (r: ErrorReport)
        ensures
            reported_to_caller(*self) ==> (r matches ErrorReport::Public(d) && d.code == error_code(*self)
                && d.message@ == error_message(*self) && (d.remediation matches Some(x) ==> error_remediation(*self) == Some(x@))
                && (d.remediation is None ==> error_remediation(*self) is None)),
            !reported_to_caller(*self) ==> r is Private,
    {
        if self.is_tool_failure() {
            ErrorReport::Public(self.diagnostic())
        } else {
            ErrorReport::Private
        }
    }
}

/// Every error reported to a caller carries advice; internal errors carry
/// none.
pub proof fn lemma_reported_errors_have_remediation(e: Error)
    ensures
        reported_to_caller(e) <==> error_remediation(e) is Some,
{
}

} // verus!

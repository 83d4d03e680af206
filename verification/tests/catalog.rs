use s2_mcp::catalog::{allowed_operations, find_operation, sort_by_name, tool_hints, OperationId};
use s2_mcp::codemode::SearchInput;
use s2_mcp::dispatch::{authorize, list_limit, next_cursor, prepare_dispatch};
use s2_mcp::errors::{Error, PolicyError, RequestError};
use s2_mcp::json::JsonValue;
use s2_mcp::policy::{Access, Policy, Scope, ServerMode, ServerOptions};
use s2_mcp::surface::{check_argument_depth, execute_tool_hints, instructions, route, search_tool_hints, Route};
use s2_mcp::toolset::{Catalog, CatalogEntry};

fn policy(readonly: bool, basin: Option<&str>, allow_destructive: bool) -> Policy {
    Policy { readonly, basin: basin.map(str::to_owned), allow_destructive }
}

fn empty_object_schema() -> JsonValue {
    JsonValue::Object(vec![
        ("type".to_owned(), JsonValue::String("object".to_owned())),
        ("properties".to_owned(), JsonValue::Object(vec![])),
    ])
}

fn catalog_for(policy: &Policy) -> Catalog {
    let entries = allowed_operations(policy)
        .into_iter()
        .map(|id| CatalogEntry { id, input_schema: empty_object_schema(), output_schema: JsonValue::Bool(true) })
        .collect();
    Catalog::new(policy, entries).unwrap_or_else(|_| panic!("the catalog builds"))
}

fn names(ids: &[OperationId]) -> Vec<&'static str> {
    ids.iter().map(|id| id.name()).collect()
}

#[test]
fn modes_expose_the_expected_tools() {
    let code = catalog_for(&Policy::default());
    assert!(matches!(route(ServerMode::Code, &code, "execute"), Some(Route::Execute)));
    assert!(matches!(route(ServerMode::Code, &code, "search"), Some(Route::Search)));
    assert!(route(ServerMode::Code, &code, "connection_info").is_none());
    let search = code
        .code_mode()
        .search(SearchInput { query: "connection".to_owned(), cursor: None, limit: None })
        .unwrap_or_else(|_| panic!("search succeeds"));
    assert_eq!(search.matches[0].name, "S2.connectionInfo");

    let full = allowed_operations(&policy(false, None, true));
    assert_eq!(full.len(), 20);
    assert!(names(&full).contains(&"delete_basin"));
    assert_eq!(catalog_for(&policy(false, None, true)).operations().len(), 20);

    let readonly = allowed_operations(&policy(true, None, false));
    assert_eq!(readonly.len(), 10);
    assert!(!names(&readonly).contains(&"append_records"));
    assert_eq!(catalog_for(&policy(true, None, false)).operations().len(), 10);
    assert_eq!(catalog_for(&Policy::default()).operations().len(), 16);
}

#[test]
fn managed_development_defers_container_start_until_tools_call() {
    assert_eq!(allowed_operations(&Policy::default()).len(), 16);
}

#[test]
fn basin_scope_hides_account_operations() {
    let scoped = allowed_operations(&policy(false, Some("example"), false));
    let listed = names(&scoped);
    assert!(!listed.contains(&"list_basins"));
    assert!(!listed.contains(&"revoke_access_token"));
    assert!(listed.contains(&"get_metrics"));
    assert!(listed.contains(&"diff_resources"));
    assert!(listed.contains(&"read_records"));
}

#[test]
fn tools_are_listed_by_name() {
    let sorted = sort_by_name(allowed_operations(&policy(false, None, true)));
    let listed = names(&sorted);
    assert_eq!(listed.len(), 20);
    assert_eq!(listed[0], "append_records");
    assert_eq!(listed[19], "wait_for_records");
    for pair in listed.windows(2) {
        assert!(pair[0] <= pair[1]);
    }
}

#[test]
fn find_operation_by_tool_name() {
    let ids = allowed_operations(&Policy::default());
    assert_eq!(find_operation(&ids, "read_records"), Some(OperationId::ReadRecords));
    assert_eq!(find_operation(&ids, "delete_basin"), None);
    assert_eq!(find_operation(&ids, "nope"), None);
}

#[test]
fn tool_hints_follow_access() {
    let hints = tool_hints(OperationId::DeleteBasin);
    assert!(!hints.read_only);
    assert!(hints.destructive);
    let hints = tool_hints(OperationId::ReadRecords);
    assert!(hints.read_only);
    assert!(!hints.destructive);
    assert!(hints.open_world);
}

#[test]
fn readonly_policy_refuses_writes() {
    let p = policy(true, None, true);
    assert!(p.allows(Access::Read, Scope::Stream));
    assert!(!p.allows(Access::Write, Scope::Stream));
    assert!(!p.allows(Access::Destructive, Scope::Stream));
    assert!(matches!(p.enforce_operation(Access::Write, Scope::Basin), Err(Error::Policy(PolicyError::Forbidden))));
}

#[test]
fn destructive_operations_need_the_flag() {
    assert!(!Policy::default().allows(Access::Destructive, Scope::Basin));
    assert!(policy(false, None, true).allows(Access::Destructive, Scope::Basin));
    assert!(Policy::default().allows(Access::Write, Scope::Basin));
}

#[test]
fn basin_scope_is_enforced() {
    let p = policy(false, Some("example"), false);
    assert!(p.enforce_basin("example").is_ok());
    match p.enforce_basin("other") {
        Err(Error::Policy(PolicyError::BasinScope { requested, allowed })) => {
            assert_eq!(requested, "other");
            assert_eq!(allowed, "example");
        },
        _ => panic!("expected a basin scope error"),
    }
    assert!(Policy::default().enforce_basin("anything").is_ok());
    assert!(!p.allows(Access::Read, Scope::Account));
}

#[test]
fn authorize_checks_the_operation_before_the_basin() {
    let p = policy(true, Some("example"), false);
    assert!(matches!(
        authorize(&p, Access::Write, Scope::Stream, "other"),
        Err(Error::Policy(PolicyError::Forbidden))
    ));
    assert!(matches!(
        authorize(&p, Access::Read, Scope::Stream, "other"),
        Err(Error::Policy(PolicyError::BasinScope { .. }))
    ));
    assert!(authorize(&p, Access::Read, Scope::Stream, "example").is_ok());
}

#[test]
fn dispatch_fills_in_the_confined_basin() {
    let p = policy(false, Some("example"), false);
    let prepared = prepare_dispatch(&p, OperationId::ListStreams, JsonValue::Object(vec![]))
        .unwrap_or_else(|_| panic!("allowed"));
    assert_eq!(
        prepared,
        JsonValue::Object(vec![("basin".to_owned(), JsonValue::String("example".to_owned()))])
    );
    let given = || JsonValue::Object(vec![("basin".to_owned(), JsonValue::String("other".to_owned()))]);
    let prepared = prepare_dispatch(&p, OperationId::ListStreams, given()).unwrap_or_else(|_| panic!("allowed"));
    assert_eq!(prepared, given());
    assert!(matches!(
        prepare_dispatch(&p, OperationId::ListBasins, JsonValue::Object(vec![])),
        Err(Error::Policy(PolicyError::Forbidden))
    ));
    let unscoped = prepare_dispatch(&Policy::default(), OperationId::ListStreams, JsonValue::Object(vec![]))
        .unwrap_or_else(|_| panic!("allowed"));
    assert_eq!(unscoped, JsonValue::Object(vec![]));
}

#[test]
fn listing_limits_and_cursors() {
    assert_eq!(list_limit(None).ok(), Some(100));
    assert_eq!(list_limit(Some(7)).ok(), Some(7));
    match list_limit(Some(0)) {
        Err(Error::Request(RequestError::InvalidArguments(message))) => {
            assert_eq!(message, "limit must be between 1 and 100");
        },
        _ => panic!("expected invalid arguments"),
    }
    assert!(list_limit(Some(101)).is_err());
    let page = vec!["alpha".to_owned(), "beta".to_owned()];
    assert_eq!(next_cursor(&page, true), Some("beta".to_owned()));
    assert_eq!(next_cursor(&page, false), None);
    assert_eq!(next_cursor(&vec![], true), None);
}

#[test]
fn server_surface_routes_tools_by_mode() {
    let catalog = catalog_for(&Policy::default());
    assert!(matches!(route(ServerMode::Code, &catalog, "search"), Some(Route::Search)));
    assert!(matches!(route(ServerMode::Code, &catalog, "execute"), Some(Route::Execute)));
    assert!(route(ServerMode::Code, &catalog, "read_records").is_none());
    assert!(matches!(
        route(ServerMode::Tools, &catalog, "read_records"),
        Some(Route::Operation(OperationId::ReadRecords))
    ));
    assert!(route(ServerMode::Tools, &catalog, "search").is_none());
    assert!(route(ServerMode::Tools, &catalog, "delete_basin").is_none());
    assert_eq!(
        instructions(ServerMode::Tools),
        "Use the advertised S2 tools directly. Reads and waits are bounded."
    );
}

#[test]
fn execute_tool_hints_follow_the_policy() {
    let hints = execute_tool_hints(&policy(true, None, false));
    assert!(hints.read_only && hints.idempotent && !hints.destructive && hints.open_world);
    let hints = execute_tool_hints(&policy(false, None, true));
    assert!(!hints.read_only && hints.destructive);
    let hints = search_tool_hints();
    assert!(hints.read_only && !hints.open_world);
}

#[test]
fn deep_arguments_are_refused() {
    let mut value = JsonValue::Null;
    for _ in 0..40 {
        value = JsonValue::Array(vec![value]);
    }
    match check_argument_depth(&value) {
        Err(Error::Execution(s2_mcp::errors::ExecutionError::CodeMode { message, .. })) => {
            assert_eq!(message, "JSON value exceeds the maximum depth of 32");
        },
        _ => panic!("expected a depth error"),
    }
    assert!(check_argument_depth(&JsonValue::Object(vec![])).is_ok());
}

#[test]
fn server_options_default_to_code_mode() {
    let options = ServerOptions::default();
    assert!(options.mode == ServerMode::Code);
    assert!(!options.policy.readonly);
    assert!(options.policy.basin.is_none());
}

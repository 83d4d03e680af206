use s2_mcp::api::{search_cursor, CodeMode};
use s2_mcp::codemode::{validate_limits, Error, FunctionDescriptor, Limits, SearchInput};
use s2_mcp::json::{get_field, json_string_size, json_value_size, quote_json_string, truncate_json_string, JsonValue};
use s2_mcp::pointer::{parse_array_index, pointer_lookup};
use s2_mcp::search::tokenize;
use s2_mcp::text::{decimal_string, str_less, trim};
use s2_mcp::typescript::split_string;

fn object(members: Vec<(&str, JsonValue)>) -> JsonValue {
    JsonValue::Object(members.into_iter().map(|(k, v)| (k.to_owned(), v)).collect())
}

fn descriptor(operation: &str, description: &str) -> FunctionDescriptor {
    let input = object(vec![("type", JsonValue::String("object".to_owned())), ("properties", object(vec![]))]);
    FunctionDescriptor::from_schemas(operation, description, input, JsonValue::Bool(true))
        .unwrap_or_else(|_| panic!("the schema is valid"))
}

fn api() -> CodeMode {
    CodeMode::new(vec![
        descriptor("list_streams", "List streams in a basin."),
        descriptor("connection_info", "Describe the active S2 connection."),
        descriptor("read_records", "Read records from a stream."),
    ])
    .unwrap_or_else(|_| panic!("the descriptors are valid"))
}

fn sorted(mut terms: Vec<String>) -> Vec<String> {
    terms.sort();
    terms
}

#[test]
fn tokenize_splits_words_and_camel_case() {
    assert_eq!(sorted(tokenize("listStreams")), vec!["list", "streams"]);
    assert_eq!(sorted(tokenize("HTTPServer v2")), vec!["http", "server", "v2"]);
    assert_eq!(sorted(tokenize("read_records read-records")), vec!["read", "records"]);
    assert!(tokenize("  --  ").is_empty());
}

#[test]
fn json_strings_are_quoted_and_sized() {
    assert_eq!(quote_json_string("a\"b\\c\n"), "\"a\\\"b\\\\c\\n\"");
    assert_eq!(quote_json_string("\u{1}"), "\"\\u0001\"");
    assert_eq!(quote_json_string("é"), "\"é\"");
    assert_eq!(json_string_size("a\"b"), 6);
    assert_eq!(json_string_size("é"), 4);
    let value = object(vec![("a", JsonValue::Array(vec![JsonValue::Null, JsonValue::Bool(false)]))]);
    assert_eq!(json_value_size(&value), "{\"a\":[null,false]}".len());
    assert_eq!(json_value_size(&JsonValue::Number("12.5".to_owned())), 4);
}

#[test]
fn json_strings_are_cut_on_character_boundaries() {
    let mut value = "abcdef".to_owned();
    truncate_json_string(&mut value, 4);
    assert_eq!(value, "abcd");
    let mut value = "aé".to_owned();
    truncate_json_string(&mut value, 2);
    assert_eq!(value, "a");
    let mut value = "a\nb".to_owned();
    truncate_json_string(&mut value, 2);
    assert_eq!(value, "a");
    let mut value = "a\nb".to_owned();
    truncate_json_string(&mut value, 3);
    assert_eq!(value, "a\n");
    let mut value = "short".to_owned();
    truncate_json_string(&mut value, 100);
    assert_eq!(value, "short");
}

#[test]
fn json_pointers_follow_members_and_indices() {
    let document = object(vec![
        ("a/b", JsonValue::Number("1".to_owned())),
        ("m~n", JsonValue::Number("2".to_owned())),
        ("list", JsonValue::Array(vec![JsonValue::Null, JsonValue::Bool(true)])),
    ]);
    assert_eq!(pointer_lookup(&document, ""), Some(&document));
    assert_eq!(pointer_lookup(&document, "/a~1b"), Some(&JsonValue::Number("1".to_owned())));
    assert_eq!(pointer_lookup(&document, "/m~0n"), Some(&JsonValue::Number("2".to_owned())));
    assert_eq!(pointer_lookup(&document, "/list/1"), Some(&JsonValue::Bool(true)));
    assert_eq!(pointer_lookup(&document, "/list/01"), None);
    assert_eq!(pointer_lookup(&document, "/list/2"), None);
    assert_eq!(pointer_lookup(&document, "list"), None);
    assert_eq!(parse_array_index("0"), Some(0));
    assert_eq!(parse_array_index("12"), Some(12));
    assert_eq!(parse_array_index("-1"), None);
    assert_eq!(get_field(&document, "list").is_some(), true);
    assert_eq!(get_field(&JsonValue::Null, "list"), None);
}

#[test]
fn text_helpers() {
    assert_eq!(decimal_string(0), "0");
    assert_eq!(decimal_string(18446744073709551615), "18446744073709551615");
    assert_eq!(trim("\t x y \u{3000}"), "x y");
    assert!(str_less("abc", "abd"));
    assert!(str_less("ab", "abc"));
    assert!(!str_less("b", "abc"));
    assert_eq!(split_string("/a//b", '/'), vec!["", "a", "", "b"]);
}

#[test]
fn search_ranks_exact_names_first() {
    let api = api();
    let output = api
        .search(SearchInput { query: "connection".to_owned(), cursor: None, limit: None })
        .unwrap_or_else(|_| panic!("search succeeds"));
    assert_eq!(output.matches[0].name, "S2.connectionInfo");
    assert!(output.matches[0].signature.contains("export function connectionInfo("));

    let records = api
        .search(SearchInput { query: "records".to_owned(), cursor: None, limit: None })
        .unwrap_or_else(|_| panic!("search succeeds"));
    assert_eq!(records.matches.len(), 1);
    assert_eq!(records.matches[0].name, "S2.readRecords");
    assert!(records.next_cursor.is_none());
}

#[test]
fn an_empty_query_lists_everything_in_pages() {
    let api = api();
    let first = api
        .search(SearchInput { query: "  ".to_owned(), cursor: None, limit: Some(2) })
        .unwrap_or_else(|_| panic!("search succeeds"));
    assert_eq!(first.matches.len(), 2);
    assert_eq!(first.matches[0].name, "S2.connectionInfo");
    assert_eq!(first.matches[1].name, "S2.listStreams");
    assert_eq!(first.next_cursor, Some("v1:S2.listStreams".to_owned()));
    let second = api
        .search(SearchInput { query: String::new(), cursor: first.next_cursor, limit: Some(2) })
        .unwrap_or_else(|_| panic!("search succeeds"));
    assert_eq!(second.matches.len(), 1);
    assert_eq!(second.matches[0].name, "S2.readRecords");
    assert!(second.next_cursor.is_none());
}

#[test]
fn bad_search_arguments_are_refused() {
    let api = api();
    match api.search(SearchInput { query: "x".to_owned(), cursor: None, limit: Some(0) }) {
        Err(Error::InvalidSearch(message)) => assert_eq!(message, "limit must be between 1 and 25"),
        _ => panic!("expected an invalid search"),
    }
    match api.search(SearchInput { query: String::new(), cursor: Some("bogus".to_owned()), limit: None }) {
        Err(Error::InvalidSearch(message)) => assert_eq!(message, "search cursor is invalid"),
        _ => panic!("expected an invalid cursor"),
    }
    match api.search(SearchInput { query: String::new(), cursor: Some("v1:S2.nothing".to_owned()), limit: None }) {
        Err(Error::InvalidSearch(message)) => assert_eq!(message, "search cursor is invalid for this query"),
        _ => panic!("expected an invalid cursor"),
    }
    assert_eq!(search_cursor("S2.x"), "v1:S2.x");
}

#[test]
fn the_namespace_maps_local_names_to_operations() {
    let api = api();
    assert_eq!(api.public_name("read_records"), Some("S2.readRecords".to_owned()));
    assert_eq!(api.public_name("delete_basin"), None);
    let entries = api.namespace_entries();
    assert_eq!(entries.len(), 3);
    assert!(entries.contains(&("listStreams".to_owned(), "list_streams".to_owned())));
    assert_eq!(api.descriptors().len(), 3);
}

#[test]
fn duplicate_functions_are_refused() {
    let result = CodeMode::new(vec![descriptor("list_streams", "a"), descriptor("list_streams", "b")]);
    assert!(matches!(result, Err(Error::InvalidDescriptor(_))));
}

#[test]
fn executions_respect_the_limits() {
    let limits = Limits::default();
    assert!(validate_limits(limits).is_ok());
    assert!(CodeMode::check_execution("async function run() { return 1; }", limits).is_ok());
    let mut small = Limits::default();
    small.max_source_bytes = 4;
    assert!(matches!(CodeMode::check_execution("12345", small), Err(Error::SourceTooLarge { maximum: 4 })));
    let mut broken = Limits::default();
    broken.max_calls = 0;
    match CodeMode::check_execution("", broken) {
        Err(Error::Runtime(message)) => assert_eq!(message, "all Code Mode limits must be greater than zero"),
        _ => panic!("expected invalid limits"),
    }
}

use s2_mcp::codemode::{Error, FunctionDescriptor};
use s2_mcp::json::JsonValue;
use s2_mcp::schema::{render_schema_type, schema_allows_empty_object};
use s2_mcp::typescript::{doc_comment_text, to_lower_camel_case, to_upper_camel_case};

fn text(value: &str) -> JsonValue {
    JsonValue::String(value.to_owned())
}

fn object(members: Vec<(&str, JsonValue)>) -> JsonValue {
    JsonValue::Object(members.into_iter().map(|(k, v)| (k.to_owned(), v)).collect())
}

fn array(items: Vec<JsonValue>) -> JsonValue {
    JsonValue::Array(items)
}

#[test]
fn rejects_required_property_absent_from_properties() {
    let result = FunctionDescriptor::from_schemas(
        "test_operation",
        "Test operation.",
        object(vec![
            ("type", text("object")),
            ("properties", object(vec![("present", object(vec![("type", text("string"))]))])),
            ("required", array(vec![text("missing")])),
        ]),
        object(vec![]),
    );

    assert!(matches!(
        result,
        Err(Error::InvalidDescriptor(message)) if message.contains("`missing`")
    ));
}

#[test]
fn rejects_typed_additional_properties_with_declared_properties() {
    let result = FunctionDescriptor::from_schemas(
        "test_operation",
        "Test operation.",
        object(vec![
            ("type", text("object")),
            ("properties", object(vec![("name", object(vec![("type", text("string"))]))])),
            ("additionalProperties", object(vec![("type", text("number"))])),
        ]),
        object(vec![]),
    );

    assert!(matches!(result, Err(Error::InvalidDescriptor(_))));
}

#[test]
fn generated_declaration_has_the_expected_shape() {
    let input = object(vec![
        ("type", text("object")),
        (
            "properties",
            object(vec![
                ("basin", object(vec![("type", text("string")), ("description", text("Basin name."))])),
                ("limit", object(vec![("type", array(vec![text("integer"), text("null")]))])),
            ]),
        ),
        ("required", array(vec![text("basin")])),
    ]);
    let descriptor = FunctionDescriptor::from_schemas("list_streams", "List streams.", input, JsonValue::Bool(true))
        .unwrap_or_else(|_| panic!("schema is valid"));
    assert_eq!(descriptor.name, "S2.listStreams");
    assert_eq!(descriptor.operation, "list_streams");
    let expected = "declare namespace S2 {\n  export type ListStreamsInput = {\n    /**\n     * Basin name.\n     */\n    \"basin\": string;\n    \"limit\"?: null | number;\n  };\n\n  export type ListStreamsOutput = unknown;\n\n  /**\n   * List streams.\n   */\n  export function listStreams(input: ListStreamsInput): Promise<ListStreamsOutput>;\n}";
    assert_eq!(descriptor.signature, expected);
}

#[test]
fn optional_input_defaults_to_an_empty_object() {
    let input = object(vec![("type", text("object")), ("properties", object(vec![]))]);
    let descriptor = FunctionDescriptor::from_schemas("connection_info", "Describe.", input, JsonValue::Bool(true))
        .unwrap_or_else(|_| panic!("schema is valid"));
    assert!(descriptor.signature.contains("export function connectionInfo(input: ConnectionInfoInput = {}): Promise<ConnectionInfoOutput>;"));
    assert!(descriptor.signature.contains("export type ConnectionInfoInput = {};"));
}

#[test]
fn unions_are_sorted_and_deduplicated() {
    let schema = object(vec![(
        "anyOf",
        array(vec![
            object(vec![("type", text("string"))]),
            object(vec![("type", text("boolean"))]),
            object(vec![("type", text("string"))]),
        ]),
    )]);
    assert_eq!(render_schema_type(&schema), Ok("boolean | string".to_owned()));
    let empty = object(vec![("oneOf", array(vec![]))]);
    assert_eq!(render_schema_type(&empty), Ok("never".to_owned()));
}

#[test]
fn literals_are_quoted_as_json() {
    let schema = object(vec![(
        "enum",
        array(vec![text("a\"b"), JsonValue::Number("3".to_owned()), JsonValue::Null, text("\u{1}")]),
    )]);
    assert_eq!(render_schema_type(&schema), Ok("\"\\u0001\" | \"a\\\"b\" | 3 | null".to_owned()));
    let nested = object(vec![("const", array(vec![]))]);
    assert_eq!(
        render_schema_type(&nested),
        Err("operation JSON Schema contains a non-scalar literal".to_owned())
    );
}

#[test]
fn references_resolve_and_recursion_is_refused() {
    let root = object(vec![
        ("$defs", object(vec![("Name", object(vec![("type", text("string"))]))])),
        ("type", text("array")),
        ("items", object(vec![("$ref", text("#/$defs/Name"))])),
    ]);
    assert_eq!(render_schema_type(&root), Ok("Array<string>".to_owned()));

    let cyclic = object(vec![
        ("$defs", object(vec![("Loop", object(vec![("$ref", text("#/$defs/Loop"))]))])),
        ("$ref", text("#/$defs/Loop")),
    ]);
    assert_eq!(
        render_schema_type(&cyclic),
        Err("operation JSON Schema contains recursive reference `#/$defs/Loop`".to_owned())
    );

    let external = object(vec![("$ref", text("other.json"))]);
    assert_eq!(
        render_schema_type(&external),
        Err("operation JSON Schema contains unsupported external reference `other.json`".to_owned())
    );

    let missing = object(vec![("$ref", text("#/nowhere"))]);
    assert_eq!(
        render_schema_type(&missing),
        Err("operation JSON Schema reference `#/nowhere` could not be resolved".to_owned())
    );
}

#[test]
fn schema_kinds_render_as_typescript() {
    assert_eq!(render_schema_type(&JsonValue::Bool(true)), Ok("unknown".to_owned()));
    assert_eq!(render_schema_type(&JsonValue::Bool(false)), Ok("never".to_owned()));
    assert_eq!(
        render_schema_type(&JsonValue::Null),
        Err("operation JSON Schema was not an object or boolean".to_owned())
    );
    let record = object(vec![("type", text("object")), ("additionalProperties", object(vec![("type", text("number"))]))]);
    assert_eq!(render_schema_type(&record), Ok("Record<string, number>".to_owned()));
    let open = object(vec![("type", text("object")), ("additionalProperties", JsonValue::Bool(true))]);
    assert_eq!(render_schema_type(&open), Ok("Record<string, unknown>".to_owned()));
    let strange = object(vec![("type", text("tuple"))]);
    assert_eq!(
        render_schema_type(&strange),
        Err("operation JSON Schema contains unsupported type `tuple`".to_owned())
    );
    let intersection = object(vec![(
        "allOf",
        array(vec![object(vec![("type", text("string"))]), object(vec![("type", text("null"))])]),
    )]);
    assert_eq!(render_schema_type(&intersection), Ok("null & string".to_owned()));
}

#[test]
fn empty_object_acceptance_follows_required_and_variants() {
    let required = object(vec![("type", text("object")), ("required", array(vec![text("basin")]))]);
    assert!(!schema_allows_empty_object(&required));
    let optional = object(vec![("type", text("object"))]);
    assert!(schema_allows_empty_object(&optional));
    let any = object(vec![("anyOf", array(vec![required, optional]))]);
    assert!(schema_allows_empty_object(&any));
    assert!(!schema_allows_empty_object(&JsonValue::Bool(false)));
    let constant = object(vec![("const", text("x"))]);
    assert!(!schema_allows_empty_object(&constant));
}

#[test]
fn operation_names_become_camel_case() {
    assert_eq!(to_lower_camel_case("list_basins"), Ok("listBasins".to_owned()));
    assert_eq!(to_upper_camel_case("list_basins"), Ok("ListBasins".to_owned()));
    assert_eq!(
        to_lower_camel_case("_x"),
        Err("operation name cannot be empty when generating TypeScript".to_owned())
    );
    assert_eq!(
        to_upper_camel_case("a__b"),
        Err("operation name `a__b` cannot be converted to TypeScript".to_owned())
    );
}

#[test]
fn doc_comments_escape_their_terminator() {
    assert_eq!(doc_comment_text("a */ b\r\nc\n", "  "), "  /**\n   * a * / b\n   * c\n   */");
    assert_eq!(doc_comment_text("", ""), "/**\n\n */");
}

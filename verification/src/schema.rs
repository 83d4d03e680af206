use vstd::prelude::*;

use crate::json::{find_member, get, get_field, items_size, member, members_size, quote_json_string, quoted, value_size, JsonValue};
use crate::pointer::{
    json_pointer, lemma_item_strings, lemma_member_found, lemma_member_index_strings,
    lemma_member_strings, lemma_pointer_strings, lemma_strings_finite, pointer_lookup, strings_of,
    strings_of_items, strings_of_members,
};
use crate::text::{concat2, concat3, copy_str, lemma_lex_asymmetric, lemma_lex_total, lex_less, push_str, str_eq, str_less};
use crate::codemode::{Error, FunctionDescriptor};
use crate::typescript::{
    doc_comment, doc_comment_text, lower_camel_case, to_lower_camel_case, to_upper_camel_case,
    upper_camel_case,
};

verus! {

/// The string inside `v`, when it holds one.
pub open spec fn string_value(v: Option<JsonValue>) -> Option<Seq<char>> {
    match v {
        Some(JsonValue::String(s)) => Some(s@),
        _ => None,
    }
}

/// The items of `v`, when it is an array.
pub open spec fn array_value(v: Option<JsonValue>) -> Option<Seq<JsonValue>> {
    match v {
        Some(JsonValue::Array(items)) => Some(items@),
        _ => None,
    }
}

/// The members of `v`, when it is an object.
pub open spec fn object_value(v: Option<JsonValue>) -> Option<Seq<(String, JsonValue)>> {
    match v {
        Some(JsonValue::Object(members)) => Some(members@),
        _ => None,
    }
}

/// `values` without repeats, in increasing order: `x` put in its place in the
/// increasing list `sorted`.
pub open spec fn insert_sorted(sorted: Seq<Seq<char>>, x: Seq<char>) -> Seq<Seq<char>>
    decreases sorted.len(),
{
    if sorted.len() == 0 {
        seq![x]
    } else if sorted[0] == x {
        sorted
    } else if lex_less(x, sorted[0]) {
        seq![x] + sorted
    } else {
        seq![sorted[0]] + insert_sorted(sorted.drop_first(), x)
    }
}

/// The distinct strings of `values` in increasing order (a sort, then a
/// dedup).
pub open spec fn sorted_distinct(values: Seq<Seq<char>>) -> Seq<Seq<char>>
    decreases values.len(),
{
    if values.len() == 0 {
        Seq::empty()
    } else {
        insert_sorted(sorted_distinct(values.drop_last()), values.last())
    }
}

/// `parts` joined by `sep`.
pub open spec fn join_with(parts: Seq<Seq<char>>, sep: Seq<char>) -> Seq<char>
    decreases parts.len(),
{
    if parts.len() == 0 {
        Seq::empty()
    } else if parts.len() == 1 {
        parts[0]
    } else {
        join_with(parts.drop_last(), sep) + sep + parts.last()
    }
}

/// A union or intersection of TypeScript types: the distinct types in order,
/// joined by `sep`; `never` when there are none.
pub open spec fn join_types(values: Seq<Seq<char>>, sep: Seq<char>) -> Seq<char> {
    let d = sorted_distinct(values);
    if d.len() == 0 {
        "never"@
    } else {
        join_with(d, sep)
    }
}

pub open spec fn join_rendered(r: Result<Seq<Seq<char>>, Seq<char>>, sep: Seq<char>) -> Result<Seq<char>, Seq<char>> {
    match r {
        Ok(values) => Ok(join_types(values, sep)),
        Err(e) => Err(e),
    }
}

/// The TypeScript literal type for a `const` or `enum` value.
pub open spec fn literal_type(v: JsonValue) -> Result<Seq<char>, Seq<char>> {
    match v {
        JsonValue::Null => Ok("null"@),
        JsonValue::Bool(b) => Ok(
            if b {
                "true"@
            } else {
                "false"@
            },
        ),
        JsonValue::Number(text) => Ok(text@),
        JsonValue::String(s) => Ok(quoted(s@)),
        _ => Err("operation JSON Schema contains a non-scalar literal"@),
    }
}

pub open spec fn literal_types(values: Seq<JsonValue>) -> Result<Seq<Seq<char>>, Seq<char>>
    decreases values.len(),
{
    if values.len() == 0 {
        Ok(Seq::empty())
    } else {
        match literal_types(values.drop_last()) {
            Err(e) => Err(e),
            Ok(done) => match literal_type(values.last()) {
                Err(e) => Err(e),
                Ok(t) => Ok(done.push(t)),
            },
        }
    }
}

/// The names listed by the `required` array of an object schema.
pub open spec fn required_names(items: Seq<JsonValue>) -> Seq<Seq<char>>
    decreases items.len(),
{
    if items.len() == 0 {
        Seq::empty()
    } else {
        match items.last() {
            JsonValue::String(s) => required_names(items.drop_last()).push(s@),
            _ => required_names(items.drop_last()),
        }
    }
}

/// `properties` declares a property named `name`.
pub open spec fn declares(properties: Option<Seq<(String, JsonValue)>>, name: Seq<char>) -> bool {
    match properties {
        Some(ps) => member(ps, name) is Some,
        None => false,
    }
}

/// The first, in string order, of the names of `required` that `properties`
/// does not declare.
pub open spec fn first_missing(
    required: Seq<Seq<char>>,
    properties: Option<Seq<(String, JsonValue)>>,
) -> Option<Seq<char>>
    decreases required.len(),
{
    if required.len() == 0 {
        None
    } else {
        let before = first_missing(required.drop_last(), properties);
        let x = required.last();
        if declares(properties, x) {
            before
        } else {
            match before {
                Some(p) => if lex_less(x, p) {
                    Some(x)
                } else {
                    Some(p)
                },
                None => Some(x),
            }
        }
    }
}

/// The `description` string of a property schema.
pub open spec fn description_of(schema: JsonValue) -> Option<Seq<char>> {
    string_value(get(schema, "description"@))
}

/// One property line of an object type, with its documentation comment.
pub open spec fn field_text(name: Seq<char>, ty: Seq<char>, required: bool, description: Option<Seq<char>>) -> Seq<char> {
    let head = match description {
        Some(d) => "\n"@ + doc_comment(d, "    "@) + "\n"@,
        None => "\n"@,
    };
    head + "    "@ + quoted(name) + (if required {
        Seq::<char>::empty()
    } else {
        "?"@
    }) + ": "@ + ty + ";"@
}

/// How many references may still be followed: distinct strings of the root
/// not yet on the reference stack.
pub open spec fn ref_budget(root: JsonValue, stack: Seq<Seq<char>>) -> int {
    strings_of(root).len() - stack.len()
}

/// The reference stack holds distinct strings of the root.
pub open spec fn stack_ok(root: JsonValue, stack: Seq<Seq<char>>) -> bool {
    &&& stack.no_duplicates()
    &&& forall|i: int| 0 <= i < stack.len() ==> strings_of(root).contains(#[trigger] stack[i])
}

/// The error texts of the schema renderer.
pub open spec fn external_reference(r: Seq<char>) -> Seq<char> {
    "operation JSON Schema contains unsupported external reference `"@ + r + "`"@
}

pub open spec fn recursive_reference(r: Seq<char>) -> Seq<char> {
    "operation JSON Schema contains recursive reference `"@ + r + "`"@
}

pub open spec fn unresolved_reference(r: Seq<char>) -> Seq<char> {
    "operation JSON Schema reference `"@ + r + "` could not be resolved"@
}

pub open spec fn unsupported_type(t: Seq<char>) -> Seq<char> {
    "operation JSON Schema contains unsupported type `"@ + t + "`"@
}

pub open spec fn missing_property(name: Seq<char>) -> Seq<char> {
    "operation JSON Schema requires property `"@ + name
        + "`, but it is absent from `properties`"@
}

/// The TypeScript type for the schema `schema` inside the document `root`,
/// with the references on `stack` being resolved; or the error text.
pub open spec fn render_schema(root: JsonValue, stack: Seq<Seq<char>>, schema: JsonValue) -> Result<Seq<char>, Seq<char>>
    decreases ref_budget(root, stack), value_size(schema), 4nat, 0nat,
{
    match schema {
        JsonValue::Bool(b) => Ok(
            if b {
                "unknown"@
            } else {
                "never"@
            },
        ),
        JsonValue::Object(m) => render_object(root, stack, m@),
        _ => Err("operation JSON Schema was not an object or boolean"@),
    }
}

pub open spec fn render_object(root: JsonValue, stack: Seq<Seq<char>>, m: Seq<(String, JsonValue)>) -> Result<Seq<char>, Seq<char>>
    decreases ref_budget(root, stack), 2 + members_size(m), 3nat, 0nat
    when stack_ok(root, stack) && strings_of_members(m).subset_of(strings_of(root))
{
    match string_value(member(m, "$ref"@)) {
        Some(r) => if !(r.len() > 0 && r[0] == '#') {
            Err(external_reference(r))
        } else if stack.contains(r) {
            Err(recursive_reference(r))
        } else {
            match json_pointer(root, r.drop_first()) {
                None => Err(unresolved_reference(r)),
                Some(target) => {
                    proof {
                        lemma_reference_budget(root, stack, m, r);
                    }
                    render_schema(root, stack.push(r), target)
                },
            }
        },
        None => if member(m, "const"@) is Some {
            literal_type(member(m, "const"@)->0)
        } else if array_value(member(m, "enum"@)) is Some {
            join_rendered(literal_types(array_value(member(m, "enum"@))->0), " | "@)
        } else if array_value(member(m, "oneOf"@)) is Some {
            proof {
                lemma_member_array_size(m, "oneOf"@);
            }
            join_rendered(render_list(root, stack, array_value(member(m, "oneOf"@))->0), " | "@)
        } else if array_value(member(m, "anyOf"@)) is Some {
            proof {
                lemma_member_array_size(m, "anyOf"@);
            }
            join_rendered(render_list(root, stack, array_value(member(m, "anyOf"@))->0), " | "@)
        } else if array_value(member(m, "allOf"@)) is Some {
            proof {
                lemma_member_array_size(m, "allOf"@);
            }
            join_rendered(render_list(root, stack, array_value(member(m, "allOf"@))->0), " & "@)
        } else {
            match member(m, "type"@) {
                Some(JsonValue::String(t)) => render_type(root, stack, t@, m),
                Some(JsonValue::Array(ts)) => join_rendered(render_type_list(root, stack, ts@, m), " | "@),
                None => if member(m, "properties"@) is Some || member(m, "additionalProperties"@) is Some {
                    render_object_type(root, stack, m)
                } else {
                    Ok("unknown"@)
                },
                _ => Err("operation JSON Schema contains an invalid type"@),
            }
        },
    }
}

/// The types of the schemas `vs`, in order, or the first error.
pub open spec fn render_list(root: JsonValue, stack: Seq<Seq<char>>, vs: Seq<JsonValue>) -> Result<Seq<Seq<char>>, Seq<char>>
    decreases ref_budget(root, stack), 1 + items_size(vs), 0nat, vs.len(),
{
    if vs.len() == 0 {
        Ok(Seq::empty())
    } else {
        match render_list(root, stack, vs.drop_last()) {
            Err(e) => Err(e),
            Ok(done) => match render_schema(root, stack, vs.last()) {
                Err(e) => Err(e),
                Ok(t) => Ok(done.push(t)),
            },
        }
    }
}

/// The types for each entry of a `type` array, in order, or the first error.
pub open spec fn render_type_list(root: JsonValue, stack: Seq<Seq<char>>, ts: Seq<JsonValue>, m: Seq<(String, JsonValue)>) -> Result<Seq<Seq<char>>, Seq<char>>
    decreases ref_budget(root, stack), 2 + members_size(m), 2nat, ts.len(),
{
    if ts.len() == 0 {
        Ok(Seq::empty())
    } else {
        match render_type_list(root, stack, ts.drop_last(), m) {
            Err(e) => Err(e),
            Ok(done) => match ts.last() {
                JsonValue::String(t) => match render_type(root, stack, t@, m) {
                    Err(e) => Err(e),
                    Ok(x) => Ok(done.push(x)),
                },
                _ => Err("operation JSON Schema contains a non-string type"@),
            },
        }
    }
}

/// The type for the JSON Schema type name `t` of the object schema `m`.
pub open spec fn render_type(root: JsonValue, stack: Seq<Seq<char>>, t: Seq<char>, m: Seq<(String, JsonValue)>) -> Result<Seq<char>, Seq<char>>
    decreases ref_budget(root, stack), 2 + members_size(m), 1nat, 0nat,
{
    if t == "null"@ {
        Ok("null"@)
    } else if t == "boolean"@ {
        Ok("boolean"@)
    } else if t == "integer"@ || t == "number"@ {
        Ok("number"@)
    } else if t == "string"@ {
        Ok("string"@)
    } else if t == "array"@ {
        match member(m, "items"@) {
            Some(items) => {
                proof {
                    lemma_member_size(m, "items"@);
                }
                match render_schema(root, stack, items) {
                    Ok(x) => Ok("Array<"@ + x + ">"@),
                    Err(e) => Err(e),
                }
            },
            None => Ok("Array<unknown>"@),
        }
    } else if t == "object"@ {
        render_object_type(root, stack, m)
    } else {
        Err(unsupported_type(t))
    }
}

/// The object type for the object schema `m`.
pub open spec fn render_object_type(root: JsonValue, stack: Seq<Seq<char>>, m: Seq<(String, JsonValue)>) -> Result<Seq<char>, Seq<char>>
    decreases ref_budget(root, stack), 2 + members_size(m), 0nat, 0nat,
{
    let properties = object_value(member(m, "properties"@));
    let required = match array_value(member(m, "required"@)) {
        Some(items) => required_names(items),
        None => Seq::empty(),
    };
    let additional = member(m, "additionalProperties"@);
    let declared = match properties {
        Some(ps) => ps,
        None => Seq::empty(),
    };
    if first_missing(required, properties) is Some {
        Err(missing_property(first_missing(required, properties)->0))
    } else if declared.len() > 0 && object_value(additional) is Some {
        Err("operation JSON Schema cannot combine declared properties with typed `additionalProperties`"@)
    } else {
        proof {
            if properties is Some {
                lemma_member_size(m, "properties"@);
            }
        }
        match render_fields(root, stack, declared, required) {
            Err(e) => Err(e),
            Ok(fields) => {
                let object = if declared.len() == 0 {
                    "{}"@
                } else {
                    "{"@ + fields + "\n  }"@
                };
                match additional {
                    Some(JsonValue::Object(a)) => {
                        proof {
                            lemma_member_size(m, "additionalProperties"@);
                        }
                        match render_schema(root, stack, additional->0) {
                            Err(e) => Err(e),
                            Ok(x) => Ok(
                                if declared.len() == 0 {
                                    "Record<string, "@ + x + ">"@
                                } else {
                                    object + " & Record<string, "@ + x + ">"@
                                },
                            ),
                        }
                    },
                    Some(JsonValue::Bool(true)) => Ok(
                        if declared.len() == 0 {
                            "Record<string, unknown>"@
                        } else {
                            object
                        },
                    ),
                    _ => Ok(object),
                }
            },
        }
    }
}

/// The property lines for the declared properties `ps`, run together.
pub open spec fn render_fields(root: JsonValue, stack: Seq<Seq<char>>, ps: Seq<(String, JsonValue)>, required: Seq<Seq<char>>) -> Result<Seq<char>, Seq<char>>
    decreases ref_budget(root, stack), 1 + members_size(ps), 0nat, ps.len(),
{
    if ps.len() == 0 {
        Ok(Seq::empty())
    } else {
        match render_fields(root, stack, ps.drop_last(), required) {
            Err(e) => Err(e),
            Ok(done) => {
                let name = ps.last().0@;
                let schema = ps.last().1;
                match render_schema(root, stack, schema) {
                    Err(e) => Err(e),
                    Ok(ty) => Ok(done + field_text(name, ty, required.contains(name), description_of(schema))),
                }
            },
        }
    }
}

proof fn lemma_item_size(items: Seq<JsonValue>, i: int)
    requires
        0 <= i < items.len(),
    ensures
        value_size(items[i]) <= items_size(items),
    decreases items.len(),
{
    if i < items.len() - 1 {
        lemma_item_size(items.drop_last(), i);
    }
}

proof fn lemma_member_index_size(m: Seq<(String, JsonValue)>, i: int)
    requires
        0 <= i < m.len(),
    ensures
        value_size(m[i].1) + 3 <= members_size(m),
    decreases m.len(),
{
    if i < m.len() - 1 {
        lemma_member_index_size(m.drop_last(), i);
    }
}

/// A member value is smaller than the members that hold it.
pub proof fn lemma_member_size(m: Seq<(String, JsonValue)>, key: Seq<char>)
    requires
        member(m, key) is Some,
    ensures
        value_size(member(m, key)->0) + 3 <= members_size(m),
{
    let i = lemma_member_found(m, key);
    lemma_member_index_size(m, i);
}

/// An array member is smaller than the object that holds it.
pub proof fn lemma_member_array_size(m: Seq<(String, JsonValue)>, key: Seq<char>)
    requires
        array_value(member(m, key)) is Some,
    ensures
        items_size(array_value(member(m, key))->0) + 5 <= members_size(m),
{
    lemma_member_size(m, key);
}

/// Following a new reference found in a schema of the root uses up one of the
/// root's strings.
pub proof fn lemma_reference_budget(root: JsonValue, stack: Seq<Seq<char>>, m: Seq<(String, JsonValue)>, r: Seq<char>)
    requires
        stack_ok(root, stack),
        strings_of_members(m).subset_of(strings_of(root)),
        string_value(member(m, "$ref"@)) == Some(r),
        !stack.contains(r),
    ensures
        stack_ok(root, stack.push(r)),
        ref_budget(root, stack.push(r)) >= 0,
        ref_budget(root, stack.push(r)) < ref_budget(root, stack),
{
    lemma_member_strings(m, "$ref"@);
    assert(strings_of(member(m, "$ref"@)->0).contains(r));
    lemma_strings_finite(root);
    let s = stack.push(r);
    assert(s.no_duplicates()) by {
        assert forall|i: int, j: int| 0 <= i < s.len() && 0 <= j < s.len() && i != j implies s[i] != s[j] by {
            if i == s.len() - 1 {
                assert(stack.contains(s[j]) || j == i);
            } else if j == s.len() - 1 {
                assert(stack.contains(s[i]));
            }
        }
    }
    assert forall|i: int| 0 <= i < s.len() implies strings_of(root).contains(#[trigger] s[i]) by {
        if i < stack.len() {
            assert(s[i] == stack[i]);
        }
    }
    s.unique_seq_to_set();
    assert(s.to_set().subset_of(strings_of(root))) by {
        assert forall|x: Seq<char>| s.to_set().contains(x) implies strings_of(root).contains(x) by {
            let k = choose|k: int| 0 <= k < s.len() && s[k] == x;
            assert(strings_of(root).contains(s[k]));
        }
    }
    vstd::set_lib::lemma_len_subset(s.to_set(), strings_of(root));
}

/// The texts of a list of strings.
pub open spec fn texts(v: Seq<String>) -> Seq<Seq<char>> {
    v.map_values(|s: String| s@)
}

/// `r` carries the text, or the error text, that `s` describes.
pub open spec fn same_text(r: Result<String, String>, s: Result<Seq<char>, Seq<char>>) -> bool {
    match (r, s) {
        (Ok(a), Ok(b)) => a@ == b,
        (Err(a), Err(b)) => a@ == b,
        _ => false,
    }
}

pub open spec fn same_texts(r: Result<Vec<String>, String>, s: Result<Seq<Seq<char>>, Seq<char>>) -> bool {
    match (r, s) {
        (Ok(a), Ok(b)) => texts(a@) == b,
        (Err(a), Err(b)) => a@ == b,
        _ => false,
    }
}

/// The texts of a list grow by the pushed string.
pub proof fn lemma_texts_push(v: Seq<String>, x: String)
    ensures
        texts(v.push(x)) == texts(v).push(x@),
{
    assert(texts(v.push(x)) =~= texts(v).push(x@));
}

/// Puts `x` in its place in the increasing list `sorted`, unless it is there.
fn insert_sorted_text(sorted: &mut Vec<String>, x: String)
    ensures
        texts(final(sorted)@) == insert_sorted(texts(old(sorted)@), x@),
{
    let ghost s0 = texts(sorted@);
    let mut i: usize = 0;
    assert(s0.subrange(0, 0) + s0.subrange(0, s0.len() as int) =~= s0);
    while i < sorted.len() && !str_eq(sorted[i].as_str(), x.as_str()) && str_less(sorted[i].as_str(), x.as_str())
        invariant
            s0 == texts(sorted@),
            i <= sorted@.len(),
            insert_sorted(s0, x@) == s0.subrange(0, i as int) + insert_sorted(s0.subrange(i as int, s0.len() as int), x@),
        decreases sorted@.len() - i,
    {
        let ghost rest = s0.subrange(i as int, s0.len() as int);
        assert(rest[0] == s0[i as int]);
        proof {
            lemma_lex_asymmetric(s0[i as int], x@);
        }
        assert(rest.drop_first() =~= s0.subrange(i + 1, s0.len() as int));
        assert(insert_sorted(rest, x@) == seq![rest[0]] + insert_sorted(rest.drop_first(), x@));
        assert(s0.subrange(0, i as int) + insert_sorted(rest, x@) =~= s0.subrange(0, i + 1)
            + insert_sorted(s0.subrange(i + 1, s0.len() as int), x@));
        i = i + 1;
    }
    let ghost rest = s0.subrange(i as int, s0.len() as int);
    if i < sorted.len() && str_eq(sorted[i].as_str(), x.as_str()) {
        assert(rest[0] == s0[i as int]);
        assert(s0 =~= s0.subrange(0, i as int) + rest);
    } else {
        if i < sorted.len() {
            assert(rest[0] == s0[i as int]);
            proof {
                lemma_lex_total(s0[i as int], x@);
            }
        }
        sorted.insert(i, x);
        assert(texts(sorted@) =~= s0.subrange(0, i as int) + insert_sorted(rest, x@));
    }
}

/// A copy of a list of strings.
fn copy_texts(v: &Vec<String>) -> (r: Vec<String>)
    ensures
        texts(r@) == texts(v@),
{
    let mut r: Vec<String> = Vec::new();
    let mut i: usize = 0;
    while i < v.len()
        invariant
            i <= v@.len(),
            texts(r@) == texts(v@).subrange(0, i as int),
        decreases v@.len() - i,
    {
        let c = copy_str(v[i].as_str());
        proof {
            lemma_texts_push(r@, c);
        }
        r.push(c);
        i = i + 1;
        assert(texts(r@) =~= texts(v@).subrange(0, i as int));
    }
    assert(texts(v@).subrange(0, v@.len() as int) =~= texts(v@));
    r
}

/// Whether `v` holds the text `x`.
fn texts_contain(v: &Vec<String>, x: &str) -> (b: bool)
    ensures
        b == texts(v@).contains(x@),
{
    let mut i: usize = 0;
    while i < v.len()
        invariant
            i <= v@.len(),
            forall|j: int| 0 <= j < i ==> texts(v@)[j] != x@,
        decreases v@.len() - i,
    {
        if str_eq(v[i].as_str(), x) {
            assert(texts(v@)[i as int] == x@);
            return true;
        }
        i = i + 1;
    }
    false
}

/// `parts` joined by `sep`.
fn join_texts(parts: &Vec<String>, sep: &str) -> (r: String)
    ensures
        r@ == join_with(texts(parts@), sep@),
{
    let ghost ps = texts(parts@);
    let mut out = String::new();
    let mut i: usize = 0;
    assert(ps.subrange(0, 0) =~= Seq::<Seq<char>>::empty());
    while i < parts.len()
        invariant
            ps == texts(parts@),
            i <= parts@.len(),
            out@ == join_with(ps.subrange(0, i as int), sep@),
        decreases parts@.len() - i,
    {
        assert(ps.subrange(0, i + 1).drop_last() =~= ps.subrange(0, i as int));
        if i > 0 {
            push_str(&mut out, sep);
        }
        push_str(&mut out, parts[i].as_str());
        i = i + 1;
        assert(out@ =~= join_with(ps.subrange(0, i as int), sep@));
    }
    assert(ps.subrange(0, ps.len() as int) =~= ps);
    out
}

/// The union or intersection type of `values`.
pub fn join_type_texts(values: &Vec<String>, sep: &str) -> (r: String)
    ensures
        r@ == join_types(texts(values@), sep@),
{
    let ghost vs = texts(values@);
    let mut sorted: Vec<String> = Vec::new();
    let mut i: usize = 0;
    assert(vs.subrange(0, 0) =~= Seq::<Seq<char>>::empty());
    assert(texts(sorted@) =~= Seq::<Seq<char>>::empty());
    while i < values.len()
        invariant
            vs == texts(values@),
            i <= values@.len(),
            texts(sorted@) == sorted_distinct(vs.subrange(0, i as int)),
        decreases values@.len() - i,
    {
        assert(vs.subrange(0, i + 1).drop_last() =~= vs.subrange(0, i as int));
        insert_sorted_text(&mut sorted, copy_str(values[i].as_str()));
        i = i + 1;
    }
    assert(vs.subrange(0, vs.len() as int) =~= vs);
    if sorted.len() == 0 {
        copy_str("never")
    } else {
        join_texts(&sorted, sep)
    }
}

fn join_result(r: Result<Vec<String>, String>, sep: &str) -> (out: Result<String, String>)
    ensures
        forall|s: Result<Seq<Seq<char>>, Seq<char>>| same_texts(r, s) ==> same_text(out, join_rendered(s, sep@)),
{
    match r {
        Ok(values) => Ok(join_type_texts(&values, sep)),
        Err(e) => Err(e),
    }
}

/// The literal type of a `const` or `enum` value.
pub fn literal_type_text(v: &JsonValue) -> (r: Result<String, String>)
    ensures
        same_text(r, literal_type(*v)),
{
    match v {
        JsonValue::Null => Ok(copy_str("null")),
        JsonValue::Bool(b) => Ok(
            if *b {
                copy_str("true")
            } else {
                copy_str("false")
            },
        ),
        JsonValue::Number(text) => Ok(copy_str(text.as_str())),
        JsonValue::String(s) => Ok(quote_json_string(s.as_str())),
        _ => Err(copy_str("operation JSON Schema contains a non-scalar literal")),
    }
}

fn literal_types_upto(values: &Vec<JsonValue>, n: usize) -> (r: Result<Vec<String>, String>)
    requires
        n <= values@.len(),
    ensures
        same_texts(r, literal_types(values@.subrange(0, n as int))),
    decreases n,
{
    if n == 0 {
        let empty: Vec<String> = Vec::new();
        assert(texts(empty@) =~= Seq::<Seq<char>>::empty());
        return Ok(empty);
    }
    assert(values@.subrange(0, n as int).drop_last() =~= values@.subrange(0, n - 1));
    match literal_types_upto(values, n - 1) {
        Err(e) => Err(e),
        Ok(mut done) => match literal_type_text(&values[n - 1]) {
            Err(e) => Err(e),
            Ok(t) => {
                let ghost before = texts(done@);
                done.push(t);
                assert(texts(done@) =~= before.push(t@));
                Ok(done)
            },
        },
    }
}

/// The names of a `required` array.
fn required_names_of(items: &Vec<JsonValue>) -> (r: Vec<String>)
    ensures
        texts(r@) == required_names(items@),
{
    let mut r: Vec<String> = Vec::new();
    let mut i: usize = 0;
    assert(items@.subrange(0, 0) =~= Seq::<JsonValue>::empty());
    while i < items.len()
        invariant
            i <= items@.len(),
            texts(r@) == required_names(items@.subrange(0, i as int)),
        decreases items@.len() - i,
    {
        assert(items@.subrange(0, i + 1).drop_last() =~= items@.subrange(0, i as int));
        match &items[i] {
            JsonValue::String(s) => {
                let ghost before = texts(r@);
                r.push(copy_str(s.as_str()));
                assert(texts(r@) =~= before.push(s@));
            },
            _ => {},
        }
        i = i + 1;
    }
    assert(items@.subrange(0, items@.len() as int) =~= items@);
    r
}

pub open spec fn members_view(p: Option<&Vec<(String, JsonValue)>>) -> Option<Seq<(String, JsonValue)>> {
    match p {
        Some(ps) => Some(ps@),
        None => None,
    }
}

/// The first required name, in string order, that the properties lack.
fn first_missing_name(required: &Vec<String>, properties: Option<&Vec<(String, JsonValue)>>) -> (r: Option<String>)
    ensures
        r matches Some(x) ==> first_missing(texts(required@), members_view(properties)) == Some(x@),
        r is None ==> first_missing(texts(required@), members_view(properties)) is None,
{
    let ghost rs = texts(required@);
    let ghost pv = members_view(properties);
    let mut best: Option<String> = None;
    let mut i: usize = 0;
    assert(rs.subrange(0, 0) =~= Seq::<Seq<char>>::empty());
    while i < required.len()
        invariant
            rs == texts(required@),
            pv == members_view(properties),
            i <= required@.len(),
            best matches Some(x) ==> first_missing(rs.subrange(0, i as int), pv) == Some(x@),
            best is None ==> first_missing(rs.subrange(0, i as int), pv) is None,
        decreases required@.len() - i,
    {
        assert(rs.subrange(0, i + 1).drop_last() =~= rs.subrange(0, i as int));
        let x = required[i].as_str();
        let declared = match properties {
            Some(ps) => find_member(ps, x).is_some(),
            None => false,
        };
        if !declared {
            let replace = match &best {
                Some(p) => str_less(x, p.as_str()),
                None => true,
            };
            if replace {
                best = Some(copy_str(x));
            }
        }
        i = i + 1;
    }
    assert(rs.subrange(0, rs.len() as int) =~= rs);
    best
}

/// A copy of the reference stack with `r` on top.
fn pushed(stack: &Vec<String>, r: &str) -> (next: Vec<String>)
    ensures
        texts(next@) == texts(stack@).push(r@),
{
    let mut next = copy_texts(stack);
    let c = copy_str(r);
    proof {
        lemma_texts_push(next@, c);
    }
    next.push(c);
    next
}

fn render_schema_text(root: &JsonValue, stack: &Vec<String>, schema: &JsonValue) -> (r: Result<String, String>)
    requires
        stack_ok(*root, texts(stack@)),
        strings_of(*schema).subset_of(strings_of(*root)),
    ensures
        same_text(r, render_schema(*root, texts(stack@), *schema)),
    decreases ref_budget(*root, texts(stack@)), value_size(*schema), 4nat, 0nat,
{
    match schema {
        JsonValue::Bool(b) => Ok(
            if *b {
                copy_str("unknown")
            } else {
                copy_str("never")
            },
        ),
        JsonValue::Object(m) => render_object_text(root, stack, m),
        _ => Err(copy_str("operation JSON Schema was not an object or boolean")),
    }
}

fn render_object_text(root: &JsonValue, stack: &Vec<String>, m: &Vec<(String, JsonValue)>) -> (r: Result<String, String>)
    requires
        stack_ok(*root, texts(stack@)),
        strings_of_members(m@).subset_of(strings_of(*root)),
    ensures
        same_text(r, render_object(*root, texts(stack@), m@)),
    decreases ref_budget(*root, texts(stack@)), 2 + members_size(m@), 3nat, 0nat,
{
    let ghost sv = texts(stack@);
    if let Some(JsonValue::String(r)) = find_member(m, "$ref") {
        let n = r.unicode_len();
        if !(n > 0 && r.get_char(0) == '#') {
            return Err(
                concat3("operation JSON Schema contains unsupported external reference `", r.as_str(), "`"),
            );
        }
        if texts_contain(stack, r.as_str()) {
            return Err(concat3("operation JSON Schema contains recursive reference `", r.as_str(), "`"));
        }
        let p = r.as_str().substring_char(1, n);
        assert(p@ =~= r@.drop_first());
        return match pointer_lookup(root, p) {
            None => Err(concat3("operation JSON Schema reference `", r.as_str(), "` could not be resolved")),
            Some(target) => {
                proof {
                    lemma_reference_budget(*root, sv, m@, r@);
                    lemma_pointer_strings(*root, p@);
                }
                let next = pushed(stack, r.as_str());
                render_schema_text(root, &next, target)
            },
        };
    }
    if let Some(c) = find_member(m, "const") {
        return literal_type_text(c);
    }
    if let Some(JsonValue::Array(vals)) = find_member(m, "enum") {
        assert(vals@.subrange(0, vals@.len() as int) =~= vals@);
        let listed = literal_types_upto(vals, vals.len());
        return join_result(listed, " | ");
    }
    if let Some(JsonValue::Array(vs)) = find_member(m, "oneOf") {
        proof {
            lemma_member_array_size(m@, "oneOf"@);
            lemma_member_strings(m@, "oneOf"@);
        }
        assert(vs@.subrange(0, vs@.len() as int) =~= vs@);
        let listed = render_list_upto(root, stack, vs, vs.len());
        return join_result(listed, " | ");
    }
    if let Some(JsonValue::Array(vs)) = find_member(m, "anyOf") {
        proof {
            lemma_member_array_size(m@, "anyOf"@);
            lemma_member_strings(m@, "anyOf"@);
        }
        assert(vs@.subrange(0, vs@.len() as int) =~= vs@);
        let listed = render_list_upto(root, stack, vs, vs.len());
        return join_result(listed, " | ");
    }
    if let Some(JsonValue::Array(vs)) = find_member(m, "allOf") {
        proof {
            lemma_member_array_size(m@, "allOf"@);
            lemma_member_strings(m@, "allOf"@);
        }
        assert(vs@.subrange(0, vs@.len() as int) =~= vs@);
        let listed = render_list_upto(root, stack, vs, vs.len());
        return join_result(listed, " & ");
    }
    match find_member(m, "type") {
        Some(JsonValue::String(t)) => render_type_text(root, stack, t.as_str(), m),
        Some(JsonValue::Array(ts)) => {
            assert(ts@.subrange(0, ts@.len() as int) =~= ts@);
            let listed = render_type_list_upto(root, stack, ts, ts.len(), m);
            join_result(listed, " | ")
        },
        None => if find_member(m, "properties").is_some() || find_member(m, "additionalProperties").is_some() {
            render_object_type_text(root, stack, m)
        } else {
            Ok(copy_str("unknown"))
        },
        Some(_) => Err(copy_str("operation JSON Schema contains an invalid type")),
    }
}

fn render_list_upto(root: &JsonValue, stack: &Vec<String>, vs: &Vec<JsonValue>, n: usize) -> (r: Result<Vec<String>, String>)
    requires
        n <= vs@.len(),
        stack_ok(*root, texts(stack@)),
        strings_of_items(vs@).subset_of(strings_of(*root)),
    ensures
        same_texts(r, render_list(*root, texts(stack@), vs@.subrange(0, n as int))),
    decreases ref_budget(*root, texts(stack@)), 1 + items_size(vs@.subrange(0, n as int)), 0nat, n,
{
    if n == 0 {
        let empty: Vec<String> = Vec::new();
        assert(texts(empty@) =~= Seq::<Seq<char>>::empty());
        return Ok(empty);
    }
    let ghost pre = vs@.subrange(0, n as int);
    assert(pre.drop_last() =~= vs@.subrange(0, n - 1));
    assert(pre.last() == vs@[n - 1]);
    proof {
        lemma_item_strings(vs@, n - 1);
    }
    match render_list_upto(root, stack, vs, n - 1) {
        Err(e) => Err(e),
        Ok(mut done) => match render_schema_text(root, stack, &vs[n - 1]) {
            Err(e) => Err(e),
            Ok(t) => {
                proof {
                    lemma_texts_push(done@, t);
                }
                done.push(t);
                Ok(done)
            },
        },
    }
}

fn render_type_list_upto(
    root: &JsonValue,
    stack: &Vec<String>,
    ts: &Vec<JsonValue>,
    n: usize,
    m: &Vec<(String, JsonValue)>,
) -> (r: Result<Vec<String>, String>)
    requires
        n <= ts@.len(),
        stack_ok(*root, texts(stack@)),
        strings_of_members(m@).subset_of(strings_of(*root)),
    ensures
        same_texts(r, render_type_list(*root, texts(stack@), ts@.subrange(0, n as int), m@)),
    decreases ref_budget(*root, texts(stack@)), 2 + members_size(m@), 2nat, n,
{
    if n == 0 {
        let empty: Vec<String> = Vec::new();
        assert(texts(empty@) =~= Seq::<Seq<char>>::empty());
        return Ok(empty);
    }
    let ghost pre = ts@.subrange(0, n as int);
    assert(pre.drop_last() =~= ts@.subrange(0, n - 1));
    assert(pre.last() == ts@[n - 1]);
    match render_type_list_upto(root, stack, ts, n - 1, m) {
        Err(e) => Err(e),
        Ok(mut done) => match &ts[n - 1] {
            JsonValue::String(t) => match render_type_text(root, stack, t.as_str(), m) {
                Err(e) => Err(e),
                Ok(x) => {
                    proof {
                        lemma_texts_push(done@, x);
                    }
                    done.push(x);
                    Ok(done)
                },
            },
            _ => Err(copy_str("operation JSON Schema contains a non-string type")),
        },
    }
}

fn render_type_text(root: &JsonValue, stack: &Vec<String>, t: &str, m: &Vec<(String, JsonValue)>) -> (r: Result<String, String>)
    requires
        stack_ok(*root, texts(stack@)),
        strings_of_members(m@).subset_of(strings_of(*root)),
    ensures
        same_text(r, render_type(*root, texts(stack@), t@, m@)),
    decreases ref_budget(*root, texts(stack@)), 2 + members_size(m@), 1nat, 0nat,
{
    if str_eq(t, "null") {
        Ok(copy_str("null"))
    } else if str_eq(t, "boolean") {
        Ok(copy_str("boolean"))
    } else if str_eq(t, "integer") || str_eq(t, "number") {
        Ok(copy_str("number"))
    } else if str_eq(t, "string") {
        Ok(copy_str("string"))
    } else if str_eq(t, "array") {
        match find_member(m, "items") {
            Some(items) => {
                proof {
                    lemma_member_size(m@, "items"@);
                    lemma_member_strings(m@, "items"@);
                }
                match render_schema_text(root, stack, items) {
                    Ok(x) => Ok(concat3("Array<", x.as_str(), ">")),
                    Err(e) => Err(e),
                }
            },
            None => Ok(copy_str("Array<unknown>")),
        }
    } else if str_eq(t, "object") {
        render_object_type_text(root, stack, m)
    } else {
        Err(concat3("operation JSON Schema contains unsupported type `", t, "`"))
    }
}

fn render_object_type_text(root: &JsonValue, stack: &Vec<String>, m: &Vec<(String, JsonValue)>) -> (r: Result<String, String>)
    requires
        stack_ok(*root, texts(stack@)),
        strings_of_members(m@).subset_of(strings_of(*root)),
    ensures
        same_text(r, render_object_type(*root, texts(stack@), m@)),
    decreases ref_budget(*root, texts(stack@)), 2 + members_size(m@), 0nat, 0nat,
{
    let properties: Option<&Vec<(String, JsonValue)>> = match find_member(m, "properties") {
        Some(JsonValue::Object(ps)) => Some(ps),
        _ => None,
    };
    assert(members_view(properties) == object_value(member(m@, "properties"@)));
    let mut required: Vec<String> = Vec::new();
    if let Some(JsonValue::Array(items)) = find_member(m, "required") {
        required = required_names_of(items);
    } else {
        assert(texts(required@) =~= Seq::<Seq<char>>::empty());
    }
    let additional = find_member(m, "additionalProperties");
    if let Some(name) = first_missing_name(&required, properties) {
        return Err(
            concat3(
                "operation JSON Schema requires property `",
                name.as_str(),
                "`, but it is absent from `properties`",
            ),
        );
    }
    let empty: Vec<(String, JsonValue)> = Vec::new();
    let declared: &Vec<(String, JsonValue)> = match properties {
        Some(ps) => ps,
        None => &empty,
    };
    assert(declared@ =~= (match object_value(member(m@, "properties"@)) {
        Some(ps) => ps,
        None => Seq::<(String, JsonValue)>::empty(),
    }));
    let typed_additional = match additional {
        Some(JsonValue::Object(_)) => true,
        _ => false,
    };
    if declared.len() > 0 && typed_additional {
        return Err(
            copy_str(
                "operation JSON Schema cannot combine declared properties with typed `additionalProperties`",
            ),
        );
    }
    proof {
        if properties is Some {
            lemma_member_size(m@, "properties"@);
            lemma_member_strings(m@, "properties"@);
        }
    }
    assert(declared@.subrange(0, declared@.len() as int) =~= declared@);
    let fields = match render_fields_upto(root, stack, declared, declared.len(), &required) {
        Err(e) => {
            return Err(e);
        },
        Ok(f) => f,
    };
    let object = if declared.len() == 0 {
        copy_str("{}")
    } else {
        concat3("{", fields.as_str(), "\n  }")
    };
    match additional {
        Some(v) => match v {
            JsonValue::Object(_) => {
                proof {
                    lemma_member_size(m@, "additionalProperties"@);
                    lemma_member_strings(m@, "additionalProperties"@);
                }
                match render_schema_text(root, stack, v) {
                    Err(e) => Err(e),
                    Ok(x) => Ok(
                        if declared.len() == 0 {
                            concat3("Record<string, ", x.as_str(), ">")
                        } else {
                            let mut out = concat2(object.as_str(), " & Record<string, ");
                            push_str(&mut out, x.as_str());
                            push_str(&mut out, ">");
                            out
                        },
                    ),
                }
            },
            JsonValue::Bool(b) => Ok(
                if *b && declared.len() == 0 {
                    copy_str("Record<string, unknown>")
                } else {
                    object
                },
            ),
            _ => Ok(object),
        },
        None => Ok(object),
    }
}

fn render_fields_upto(
    root: &JsonValue,
    stack: &Vec<String>,
    ps: &Vec<(String, JsonValue)>,
    n: usize,
    required: &Vec<String>,
) -> (r: Result<String, String>)
    requires
        n <= ps@.len(),
        stack_ok(*root, texts(stack@)),
        strings_of_members(ps@).subset_of(strings_of(*root)),
    ensures
        same_text(r, render_fields(*root, texts(stack@), ps@.subrange(0, n as int), texts(required@))),
    decreases ref_budget(*root, texts(stack@)), 1 + members_size(ps@.subrange(0, n as int)), 0nat, n,
{
    if n == 0 {
        return Ok(String::new());
    }
    let ghost pre = ps@.subrange(0, n as int);
    assert(pre.drop_last() =~= ps@.subrange(0, n - 1));
    assert(pre.last() == ps@[n - 1]);
    proof {
        lemma_member_index_strings(ps@, n - 1);
    }
    match render_fields_upto(root, stack, ps, n - 1, required) {
        Err(e) => Err(e),
        Ok(mut done) => {
            let name = ps[n - 1].0.as_str();
            let schema = &ps[n - 1].1;
            match render_schema_text(root, stack, schema) {
                Err(e) => Err(e),
                Ok(ty) => {
                    let is_required = texts_contain(required, name);
                    let field = field_text_of(name, ty.as_str(), is_required, schema);
                    push_str(&mut done, field.as_str());
                    Ok(done)
                },
            }
        },
    }
}

/// One property line of an object type.
fn field_text_of(name: &str, ty: &str, required: bool, schema: &JsonValue) -> (r: String)
    ensures
        r@ == field_text(name@, ty@, required, description_of(*schema)),
{
    let mut out = match get_field(schema, "description") {
        Some(JsonValue::String(d)) => {
            let comment = doc_comment_text(d.as_str(), "    ");
            concat3("\n", comment.as_str(), "\n")
        },
        _ => copy_str("\n"),
    };
    push_str(&mut out, "    ");
    let quoted_name = quote_json_string(name);
    push_str(&mut out, quoted_name.as_str());
    if !required {
        push_str(&mut out, "?");
    }
    push_str(&mut out, ": ");
    push_str(&mut out, ty);
    push_str(&mut out, ";");
    assert(out@ =~= field_text(name@, ty@, required, description_of(*schema)));
    out
}

/// The TypeScript type of the JSON Schema `schema`, or the error text.
pub fn render_schema_type(schema: &JsonValue) -> (r: Result<String, String>)
    ensures
        same_text(r, render_schema(*schema, Seq::empty(), *schema)),
{
    let stack: Vec<String> = Vec::new();
    assert(texts(stack@) =~= Seq::<Seq<char>>::empty());
    render_schema_text(schema, &stack, schema)
}

/// An empty object `{}` satisfies `schema` (read as far as the generator
/// reads schemas), with the references on `stack` being resolved.
pub open spec fn allows_empty(root: JsonValue, stack: Seq<Seq<char>>, schema: JsonValue) -> bool
    decreases ref_budget(root, stack), value_size(schema), 2nat, 0nat,
{
    match schema {
        JsonValue::Object(m) => allows_empty_object(root, stack, m@),
        JsonValue::Bool(b) => b,
        _ => false,
    }
}

pub open spec fn allows_empty_object(root: JsonValue, stack: Seq<Seq<char>>, m: Seq<(String, JsonValue)>) -> bool
    decreases ref_budget(root, stack), 2 + members_size(m), 1nat, 0nat
    when stack_ok(root, stack) && strings_of_members(m).subset_of(strings_of(root))
{
    match string_value(member(m, "$ref"@)) {
        Some(r) => if !(r.len() > 0 && r[0] == '#') || stack.contains(r) {
            false
        } else {
            match json_pointer(root, r.drop_first()) {
                None => false,
                Some(target) => {
                    proof {
                        lemma_reference_budget(root, stack, m, r);
                    }
                    allows_empty(root, stack.push(r), target)
                },
            }
        },
        None => if array_value(member(m, "oneOf"@)) is Some {
            proof {
                lemma_member_array_size(m, "oneOf"@);
            }
            any_allows_empty(root, stack, array_value(member(m, "oneOf"@))->0)
        } else if array_value(member(m, "anyOf"@)) is Some {
            proof {
                lemma_member_array_size(m, "anyOf"@);
            }
            any_allows_empty(root, stack, array_value(member(m, "anyOf"@))->0)
        } else if array_value(member(m, "allOf"@)) is Some {
            proof {
                lemma_member_array_size(m, "allOf"@);
            }
            all_allow_empty(root, stack, array_value(member(m, "allOf"@))->0)
        } else if member(m, "const"@) is Some || member(m, "enum"@) is Some {
            false
        } else {
            match array_value(member(m, "required"@)) {
                Some(items) => items.len() == 0,
                None => true,
            }
        },
    }
}

pub open spec fn any_allows_empty(root: JsonValue, stack: Seq<Seq<char>>, vs: Seq<JsonValue>) -> bool
    decreases ref_budget(root, stack), 1 + items_size(vs), 0nat, vs.len(),
{
    if vs.len() == 0 {
        false
    } else {
        any_allows_empty(root, stack, vs.drop_last()) || allows_empty(root, stack, vs.last())
    }
}

pub open spec fn all_allow_empty(root: JsonValue, stack: Seq<Seq<char>>, vs: Seq<JsonValue>) -> bool
    decreases ref_budget(root, stack), 1 + items_size(vs), 0nat, vs.len(),
{
    if vs.len() == 0 {
        true
    } else {
        all_allow_empty(root, stack, vs.drop_last()) && allows_empty(root, stack, vs.last())
    }
}

fn allows_empty_value(root: &JsonValue, stack: &Vec<String>, schema: &JsonValue) -> (b: bool)
    requires
        stack_ok(*root, texts(stack@)),
        strings_of(*schema).subset_of(strings_of(*root)),
    ensures
        b == allows_empty(*root, texts(stack@), *schema),
    decreases ref_budget(*root, texts(stack@)), value_size(*schema), 2nat, 0nat,
{
    match schema {
        JsonValue::Object(m) => allows_empty_members(root, stack, m),
        JsonValue::Bool(b) => *b,
        _ => false,
    }
}

fn allows_empty_members(root: &JsonValue, stack: &Vec<String>, m: &Vec<(String, JsonValue)>) -> (b: bool)
    requires
        stack_ok(*root, texts(stack@)),
        strings_of_members(m@).subset_of(strings_of(*root)),
    ensures
        b == allows_empty_object(*root, texts(stack@), m@),
    decreases ref_budget(*root, texts(stack@)), 2 + members_size(m@), 1nat, 0nat,
{
    let ghost sv = texts(stack@);
    if let Some(JsonValue::String(r)) = find_member(m, "$ref") {
        let n = r.unicode_len();
        if !(n > 0 && r.get_char(0) == '#') || texts_contain(stack, r.as_str()) {
            return false;
        }
        let p = r.as_str().substring_char(1, n);
        assert(p@ =~= r@.drop_first());
        return match pointer_lookup(root, p) {
            None => false,
            Some(target) => {
                proof {
                    lemma_reference_budget(*root, sv, m@, r@);
                    lemma_pointer_strings(*root, p@);
                }
                let next = pushed(stack, r.as_str());
                allows_empty_value(root, &next, target)
            },
        };
    }
    if let Some(JsonValue::Array(vs)) = find_member(m, "oneOf") {
        proof {
            lemma_member_array_size(m@, "oneOf"@);
            lemma_member_strings(m@, "oneOf"@);
        }
        assert(vs@.subrange(0, vs@.len() as int) =~= vs@);
        return any_allows_upto(root, stack, vs, vs.len());
    }
    if let Some(JsonValue::Array(vs)) = find_member(m, "anyOf") {
        proof {
            lemma_member_array_size(m@, "anyOf"@);
            lemma_member_strings(m@, "anyOf"@);
        }
        assert(vs@.subrange(0, vs@.len() as int) =~= vs@);
        return any_allows_upto(root, stack, vs, vs.len());
    }
    if let Some(JsonValue::Array(vs)) = find_member(m, "allOf") {
        proof {
            lemma_member_array_size(m@, "allOf"@);
            lemma_member_strings(m@, "allOf"@);
        }
        assert(vs@.subrange(0, vs@.len() as int) =~= vs@);
        return all_allow_upto(root, stack, vs, vs.len());
    }
    if find_member(m, "const").is_some() || find_member(m, "enum").is_some() {
        return false;
    }
    match find_member(m, "required") {
        Some(JsonValue::Array(items)) => items.len() == 0,
        _ => true,
    }
}

fn any_allows_upto(root: &JsonValue, stack: &Vec<String>, vs: &Vec<JsonValue>, n: usize) -> (b: bool)
    requires
        n <= vs@.len(),
        stack_ok(*root, texts(stack@)),
        strings_of_items(vs@).subset_of(strings_of(*root)),
    ensures
        b == any_allows_empty(*root, texts(stack@), vs@.subrange(0, n as int)),
    decreases ref_budget(*root, texts(stack@)), 1 + items_size(vs@.subrange(0, n as int)), 0nat, n,
{
    if n == 0 {
        return false;
    }
    let ghost pre = vs@.subrange(0, n as int);
    assert(pre.drop_last() =~= vs@.subrange(0, n - 1));
    assert(pre.last() == vs@[n - 1]);
    proof {
        lemma_item_strings(vs@, n - 1);
    }
    any_allows_upto(root, stack, vs, n - 1) || allows_empty_value(root, stack, &vs[n - 1])
}

fn all_allow_upto(root: &JsonValue, stack: &Vec<String>, vs: &Vec<JsonValue>, n: usize) -> (b: bool)
    requires
        n <= vs@.len(),
        stack_ok(*root, texts(stack@)),
        strings_of_items(vs@).subset_of(strings_of(*root)),
    ensures
        b == all_allow_empty(*root, texts(stack@), vs@.subrange(0, n as int)),
    decreases ref_budget(*root, texts(stack@)), 1 + items_size(vs@.subrange(0, n as int)), 0nat, n,
{
    if n == 0 {
        return true;
    }
    let ghost pre = vs@.subrange(0, n as int);
    assert(pre.drop_last() =~= vs@.subrange(0, n - 1));
    assert(pre.last() == vs@[n - 1]);
    proof {
        lemma_item_strings(vs@, n - 1);
    }
    all_allow_upto(root, stack, vs, n - 1) && allows_empty_value(root, stack, &vs[n - 1])
}

/// Whether an empty object satisfies the JSON Schema `root`, so that the
/// generated function may default its input to `{}`.
pub fn schema_allows_empty_object(root: &JsonValue) -> (b: bool)
    ensures
        b == allows_empty(*root, Seq::empty(), *root),
{
    let stack: Vec<String> = Vec::new();
    assert(texts(stack@) =~= Seq::<Seq<char>>::empty());
    allows_empty_value(root, &stack, root)
}

/// The body of the `S2` namespace declaration for one generated function.
pub open spec fn function_body(
    description: Seq<char>,
    function_name: Seq<char>,
    input_type_name: Seq<char>,
    input_type: Seq<char>,
    output_type_name: Seq<char>,
    output_type: Seq<char>,
    input_default: bool,
) -> Seq<char> {
    let declaration = "export function "@ + function_name + "(input: "@ + input_type_name + (if input_default {
        " = {}"@
    } else {
        Seq::<char>::empty()
    }) + "): Promise<"@ + output_type_name + ">;"@;
    "  export type "@ + input_type_name + " = "@ + input_type + ";\n\n  export type "@
        + output_type_name + " = "@ + output_type + ";\n\n"@ + doc_comment(description, "  "@)
        + "\n  "@ + declaration
}

/// The public name and the TypeScript declaration generated for an
/// operation, or the error text.
pub open spec fn generated_function(
    operation: Seq<char>,
    description: Seq<char>,
    input_schema: JsonValue,
    output_schema: JsonValue,
) -> Result<(Seq<char>, Seq<char>), Seq<char>> {
    match lower_camel_case(operation) {
        Err(e) => Err(e),
        Ok(function_name) => match upper_camel_case(operation) {
            Err(e) => Err(e),
            Ok(prefix) => match render_schema(input_schema, Seq::empty(), input_schema) {
                Err(e) => Err(e),
                Ok(input_type) => match render_schema(output_schema, Seq::empty(), output_schema) {
                    Err(e) => Err(e),
                    Ok(output_type) => Ok(
                        (
                            "S2."@ + function_name,
                            "declare namespace S2 {\n"@ + function_body(
                                description,
                                function_name,
                                prefix + "Input"@,
                                input_type,
                                prefix + "Output"@,
                                output_type,
                                allows_empty(input_schema, Seq::empty(), input_schema),
                            ) + "\n}"@,
                        ),
                    ),
                },
            },
        },
    }
}

fn function_body_text(
    description: &str,
    function_name: &str,
    input_type_name: &str,
    input_type: &str,
    output_type_name: &str,
    output_type: &str,
    input_default: bool,
) -> (r: String)
    ensures
        r@ == function_body(
            description@,
            function_name@,
            input_type_name@,
            input_type@,
            output_type_name@,
            output_type@,
            input_default,
        ),
{
    let comment = doc_comment_text(description, "  ");
    let mut out = copy_str("  export type ");
    push_str(&mut out, input_type_name);
    push_str(&mut out, " = ");
    push_str(&mut out, input_type);
    push_str(&mut out, ";\n\n  export type ");
    push_str(&mut out, output_type_name);
    push_str(&mut out, " = ");
    push_str(&mut out, output_type);
    push_str(&mut out, ";\n\n");
    push_str(&mut out, comment.as_str());
    push_str(&mut out, "\n  ");
    push_str(&mut out, "export function ");
    push_str(&mut out, function_name);
    push_str(&mut out, "(input: ");
    push_str(&mut out, input_type_name);
    if input_default {
        push_str(&mut out, " = {}");
    }
    push_str(&mut out, "): Promise<");
    push_str(&mut out, output_type_name);
    push_str(&mut out, ">;");
    assert(out@ =~= function_body(
        description@,
        function_name@,
        input_type_name@,
        input_type@,
        output_type_name@,
        output_type@,
        input_default,
    ));
    out
}

impl FunctionDescriptor {
    /// Generates the TypeScript function for an operation from its input and
    /// output JSON Schemas.
    pub fn from_schemas(operation: &str, description: &str, input_schema: JsonValue, output_schema: JsonValue) -> (r: Result<FunctionDescriptor, Error>)
        ensures
            match (r, generated_function(operation@, description@, input_schema, output_schema)) {
                (Ok(d), Ok((name, signature))) => {
                    &&& d.operation@ == operation@
                    &&& d.name@ == name
                    &&& d.description@ == description@
                    &&& d.signature@ == signature
                    &&& d.input_schema == input_schema
                },
                (Err(Error::InvalidDescriptor(m)), Err(e)) => m@ == e,
                _ => false,
            },
    {
        let function_name = match to_lower_camel_case(operation) {
            Ok(n) => n,
            Err(e) => {
                return Err(Error::InvalidDescriptor(e));
            },
        };
        let type_prefix = match to_upper_camel_case(operation) {
            Ok(n) => n,
            Err(e) => {
                return Err(Error::InvalidDescriptor(e));
            },
        };
        let input_type = match render_schema_type(&input_schema) {
            Ok(t) => t,
            Err(e) => {
                return Err(Error::InvalidDescriptor(e));
            },
        };
        let output_type = match render_schema_type(&output_schema) {
            Ok(t) => t,
            Err(e) => {
                return Err(Error::InvalidDescriptor(e));
            },
        };
        let input_default = schema_allows_empty_object(&input_schema);
        let input_type_name = concat2(type_prefix.as_str(), "Input");
        let output_type_name = concat2(type_prefix.as_str(), "Output");
        let body = function_body_text(
            description,
            function_name.as_str(),
            input_type_name.as_str(),
            input_type.as_str(),
            output_type_name.as_str(),
            output_type.as_str(),
            input_default,
        );
        let signature = concat3("declare namespace S2 {\n", body.as_str(), "\n}");
        let name = concat2("S2.", function_name.as_str());
        Ok(
            FunctionDescriptor {
                operation: copy_str(operation),
                name,
                description: copy_str(description),
                signature,
                input_schema,
            },
        )
    }
}

} // verus!

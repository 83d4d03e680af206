use vstd::prelude::*;

use crate::catalog::{operation_access, operation_scope, OperationId};
use crate::errors::{Error, PolicyError, RequestError};
use crate::json::{find_member, member, JsonValue};
use crate::policy::{accepts_basin_injection, policy_allows, Access, Policy, Scope};
use crate::text::{concat3, copy_str, decimal, decimal_string, str_eq};

verus! {

/// The error text for a count outside `1..=maximum`.
pub open spec fn out_of_bounds(name: Seq<char>, maximum: usize) -> Seq<char> {
    name + " must be between 1 and "@ + decimal(maximum as nat)
}

/// Accepts a count between 1 and `maximum`.
pub fn bounded(value: usize, maximum: usize, name: &str) -> (r: Result<usize, Error>)
    ensures
        r is Ok <==> 1 <= value <= maximum,
        r matches Ok(v) ==> v == value,
        r matches Err(e) ==> (e matches Error::Request(RequestError::InvalidArguments(m)) && m@ == out_of_bounds(name@, maximum)),
{
    if value == 0 || value > maximum {
        let n = decimal_string(maximum as u64);
        return Err(Error::Request(RequestError::InvalidArguments(concat3(name, " must be between 1 and ", n.as_str()))));
    }
    Ok(value)
}

/// Deletions ignore a resource that is already gone unless told otherwise.
pub fn default_true() -> (b: bool)
    ensures
        b,
{
    true
}

/// The most items one listing page may ask for.
pub const MAX_LIST_LIMIT: usize = 100;

/// The page size of a listing: the one asked for, checked, or the largest.
pub fn list_limit(limit: Option<usize>) -> (r: Result<usize, Error>)
    ensures
        r is Ok <==> (limit matches Some(n) ==> 1 <= n <= MAX_LIST_LIMIT),
        r matches Ok(v) ==> v == match limit {
            Some(n) => n,
            None => MAX_LIST_LIMIT,
        },
        r matches Err(e) ==> (e matches Error::Request(RequestError::InvalidArguments(m)) && m@ == out_of_bounds(
            "limit"@,
            MAX_LIST_LIMIT,
        )),
{
    let value = match limit {
        Some(n) => n,
        None => MAX_LIST_LIMIT,
    };
    bounded(value, MAX_LIST_LIMIT, "limit")
}

/// The cursor of the next listing page: the last name of this page when the
/// service has more.
pub fn next_cursor(names: &Vec<String>, has_more: bool) -> (r: Option<String>)
    ensures
        has_more && names@.len() > 0 ==> (r matches Some(c) && c@ == names@.last()@),
        !has_more || names@.len() == 0 ==> r is None,
{
    if has_more && names.len() > 0 {
        Some(copy_str(names[names.len() - 1].as_str()))
    } else {
        None
    }
}

/// Checks a request on a named basin: the operation must be allowed, then
/// the basin must be within the configured scope.
pub fn authorize(policy: &Policy, access: Access, scope: Scope, basin: &str) -> (r: Result<(), Error>)
    ensures
        !policy_allows(*policy, access, scope) ==> (r matches Err(e) && e matches Error::Policy(PolicyError::Forbidden)),
        policy_allows(*policy, access, scope) ==> (r is Ok <==> (policy.basin matches Some(a) ==> basin@ == a@)),
        policy_allows(*policy, access, scope) && r is Err ==> (r->Err_0 matches Error::Policy(
            PolicyError::BasinScope { requested, allowed },
        ) && requested@ == basin@ && allowed@ == policy.basin->0@),
{
    policy.enforce_operation(access, scope)?;
    policy.enforce_basin(basin)
}

/// `arguments` with the confined basin added, where the operation names a
/// basin and the caller left it out; `arguments` unchanged otherwise.
pub open spec fn basin_injected(p: Policy, id: OperationId, arguments: JsonValue, result: JsonValue) -> bool {
    if p.basin is Some && accepts_basin_injection(operation_scope(id)) && arguments is Object && member(
        arguments->Object_0@,
        "basin"@,
    ) is None {
        let before = arguments->Object_0@;
        &&& result is Object
        &&& result->Object_0@.len() == before.len() + 1
        &&& result->Object_0@.subrange(0, before.len() as int) == before
        &&& result->Object_0@.last().0@ == "basin"@
        &&& result->Object_0@.last().1 matches JsonValue::String(s) && s@ == p.basin->0@
    } else {
        result == arguments
    }
}

proof fn lemma_member_after_push(ms: Seq<(String, JsonValue)>, x: (String, JsonValue), key: Seq<char>)
    requires
        member(ms, key) is None,
        x.0@ == key,
    ensures
        member(ms.push(x), key) == Some(x.1),
    decreases ms.len(),
{
    if ms.len() > 0 {
        assert(ms.push(x).drop_first() =~= ms.drop_first().push(x));
        lemma_member_after_push(ms.drop_first(), x, key);
    }
}

/// Under a basin-confined server, a call of a basin or stream operation that
/// leaves the basin out gets the confined basin: the completed arguments keep
/// every argument given and name the confined basin.
pub proof fn lemma_confined_basin_filled_in(p: Policy, id: OperationId, arguments: JsonValue, result: JsonValue)
    requires
        p.basin is Some,
        operation_scope(id) == Scope::Basin || operation_scope(id) == Scope::Stream,
        arguments is Object,
        member(arguments->Object_0@, "basin"@) is None,
        basin_injected(p, id, arguments, result),
    ensures
        result is Object,
        result->Object_0@.subrange(0, arguments->Object_0@.len() as int) == arguments->Object_0@,
        member(result->Object_0@, "basin"@) matches Some(JsonValue::String(b)) && b@ == p.basin->0@,
{
    let before = arguments->Object_0@;
    let after = result->Object_0@;
    assert(after =~= before.push(after.last()));
    lemma_member_after_push(before, after.last(), "basin"@);
}

/// Prepares the arguments of an operation call: refused when the policy
/// forbids the operation, completed with the confined basin otherwise.
pub fn prepare_dispatch(policy: &Policy, id: OperationId, arguments: JsonValue) -> (r: Result<JsonValue, Error>)
    ensures
        !policy_allows(*policy, operation_access(id), operation_scope(id)) ==> (r matches Err(e) && e matches Error::Policy(PolicyError::Forbidden)),
        policy_allows(*policy, operation_access(id), operation_scope(id)) ==> (r matches Ok(v) && basin_injected(*policy, id, arguments, v)),
{
    policy.enforce_operation(id.access(), id.scope())?;
    let ghost initial = arguments;
    match &policy.basin {
        Some(basin) => {
            if id.scope().accepts_basin_injection() {
                match arguments {
                    JsonValue::Object(mut members) => {
                        if find_member(&members, "basin").is_none() {
                            let ghost before = members@;
                            members.push((copy_str("basin"), JsonValue::String(copy_str(basin.as_str()))));
                            assert(members@.subrange(0, before.len() as int) =~= before);
                        }
                        Ok(JsonValue::Object(members))
                    },
                    other => Ok(other),
                }
            } else {
                Ok(arguments)
            }
        },
        None => Ok(arguments),
    }
}

/// `ms` without its members named `key`.
pub open spec fn without_key(ms: Seq<(String, JsonValue)>, key: Seq<char>) -> Seq<(String, JsonValue)>
    decreases ms.len(),
{
    if ms.len() == 0 {
        Seq::empty()
    } else {
        let rest = without_key(ms.drop_last(), key);
        if ms.last().0@ == key {
            rest
        } else {
            rest.push(ms.last())
        }
    }
}

/// `items` without the strings equal to `name`.
pub open spec fn without_name(items: Seq<JsonValue>, name: Seq<char>) -> Seq<JsonValue>
    decreases items.len(),
{
    if items.len() == 0 {
        Seq::empty()
    } else {
        let rest = without_name(items.drop_last(), name);
        if items.last() matches JsonValue::String(s) && s@ == name {
            rest
        } else {
            rest.push(items.last())
        }
    }
}

/// Index of the first member named `key`, if any.
pub open spec fn key_index(ms: Seq<(String, JsonValue)>, key: Seq<char>) -> Option<int> {
    if exists|i: int| 0 <= i < ms.len() && (#[trigger] ms[i]).0@ == key {
        Some(choose|i: int| 0 <= i < ms.len() && (#[trigger] ms[i]).0@ == key && forall|j: int| 0 <= j < i ==> (#[trigger] ms[j]).0@ != key)
    } else {
        None
    }
}

fn position_of(ms: &Vec<(String, JsonValue)>, key: &str) -> (r: Option<usize>)
    ensures
        r matches Some(i) ==> i < ms@.len() && ms@[i as int].0@ == key@ && forall|j: int| 0 <= j < i ==> (#[trigger] ms@[j]).0@ != key@,
        r is None ==> forall|j: int| 0 <= j < ms@.len() ==> (#[trigger] ms@[j]).0@ != key@,
{
    let mut i: usize = 0;
    while i < ms.len()
        invariant
            i <= ms@.len(),
            forall|j: int| 0 <= j < i ==> (#[trigger] ms@[j]).0@ != key@,
        decreases ms@.len() - i,
    {
        if str_eq(ms[i].0.as_str(), key) {
            return Some(i);
        }
        i = i + 1;
    }
    None
}

fn remove_key(ms: Vec<(String, JsonValue)>, key: &str) -> (r: Vec<(String, JsonValue)>)
    ensures
        r@ == without_key(ms@, key@),
{
    let mut out: Vec<(String, JsonValue)> = Vec::new();
    let mut rest = ms;
    let ghost initial = rest@;
    let mut reversed: Vec<(String, JsonValue)> = Vec::new();
    while rest.len() > 0
        invariant
            rest@ + reversed@.reverse() == initial,
        decreases rest@.len(),
    {
        let ghost before = rest@;
        let last = rest.pop().unwrap();
        assert(rest@ + seq![last] =~= before);
        reversed.push(last);
        assert(reversed@.reverse() =~= seq![last] + reversed@.drop_last().reverse());
        assert(rest@ + reversed@.reverse() =~= before + reversed@.drop_last().reverse());
    }
    assert(reversed@.reverse() =~= initial);
    let total = reversed.len();
    let mut k: usize = 0;
    assert(initial.subrange(0, 0) =~= Seq::<(String, JsonValue)>::empty());
    while reversed.len() > 0
        invariant
            reversed@.reverse() == initial.subrange(k as int, initial.len() as int),
            k <= initial.len(),
            k + reversed@.len() == initial.len(),
            initial.len() == total,
            out@ == without_key(initial.subrange(0, k as int), key@),
        decreases reversed@.len(),
    {
        let ghost before = reversed@;
        let item = reversed.pop().unwrap();
        assert(before.reverse()[0] == item);
        assert(reversed@.reverse() =~= before.reverse().drop_first());
        assert(initial.subrange(0, k + 1).drop_last() =~= initial.subrange(0, k as int));
        assert(initial.subrange(0, k + 1).last() == item);
        if !str_eq(item.0.as_str(), key) {
            out.push(item);
        }
        k = k + 1;
        assert(initial.subrange(k as int, initial.len() as int) =~= before.reverse().drop_first());
    }
    assert(initial.subrange(0, k as int) =~= initial);
    out
}

fn remove_name(items: Vec<JsonValue>, name: &str) -> (r: Vec<JsonValue>)
    ensures
        r@ == without_name(items@, name@),
{
    let mut out: Vec<JsonValue> = Vec::new();
    let mut rest = items;
    let ghost initial = rest@;
    let mut reversed: Vec<JsonValue> = Vec::new();
    while rest.len() > 0
        invariant
            rest@ + reversed@.reverse() == initial,
        decreases rest@.len(),
    {
        let ghost before = rest@;
        let last = rest.pop().unwrap();
        assert(rest@ + seq![last] =~= before);
        reversed.push(last);
        assert(reversed@.reverse() =~= seq![last] + reversed@.drop_last().reverse());
        assert(rest@ + reversed@.reverse() =~= before + reversed@.drop_last().reverse());
    }
    assert(reversed@.reverse() =~= initial);
    let total = reversed.len();
    let mut k: usize = 0;
    assert(initial.subrange(0, 0) =~= Seq::<JsonValue>::empty());
    while reversed.len() > 0
        invariant
            reversed@.reverse() == initial.subrange(k as int, initial.len() as int),
            k <= initial.len(),
            k + reversed@.len() == initial.len(),
            initial.len() == total,
            out@ == without_name(initial.subrange(0, k as int), name@),
        decreases reversed@.len(),
    {
        let ghost before = reversed@;
        let item = reversed.pop().unwrap();
        assert(before.reverse()[0] == item);
        assert(reversed@.reverse() =~= before.reverse().drop_first());
        assert(initial.subrange(0, k + 1).drop_last() =~= initial.subrange(0, k as int));
        assert(initial.subrange(0, k + 1).last() == item);
        let drop = match &item {
            JsonValue::String(s) => str_eq(s.as_str(), name),
            _ => false,
        };
        if !drop {
            out.push(item);
        }
        k = k + 1;
        assert(initial.subrange(k as int, initial.len() as int) =~= before.reverse().drop_first());
    }
    assert(initial.subrange(0, k as int) =~= initial);
    out
}

/// The input schema of an operation whose basin the server fills in: the
/// `basin` property and its `required` entry are gone; everything else stays.
pub open spec fn basin_input_removed(schema: JsonValue, result: JsonValue) -> bool {
    match schema {
        JsonValue::Object(ms) => {
            &&& result is Object
            &&& result->Object_0@.len() == ms@.len()
            &&& forall|i: int| 0 <= i < ms@.len() ==> (#[trigger] result->Object_0@[i]).0 == ms@[i].0
            &&& forall|i: int| 0 <= i < ms@.len() ==> {
                let v = ms@[i].1;
                let w = (#[trigger] result->Object_0@[i]).1;
                if key_index(ms@, "properties"@) == Some(i) && v is Object {
                    w is Object && w->Object_0@ == without_key(v->Object_0@, "basin"@)
                } else if key_index(ms@, "required"@) == Some(i) && v is Array {
                    w is Array && w->Array_0@ == without_name(v->Array_0@, "basin"@)
                } else {
                    w == v
                }
            }
        },
        _ => result == schema,
    }
}

proof fn lemma_key_index(ms: Seq<(String, JsonValue)>, key: Seq<char>, i: int)
    requires
        0 <= i < ms.len(),
        ms[i].0@ == key,
        forall|j: int| 0 <= j < i ==> (#[trigger] ms[j]).0@ != key,
    ensures
        key_index(ms, key) == Some(i),
{
    let k = choose|k: int| 0 <= k < ms.len() && (#[trigger] ms[k]).0@ == key && forall|j: int| 0 <= j < k ==> (#[trigger] ms[j]).0@ != key;
    if k < i {
        assert(ms[k].0@ != key);
    } else if k > i {
        assert(ms[i].0@ != key);
    }
}

/// Removes the `basin` input from an operation's input schema.
#[verifier::spinoff_prover]
#[verifier::rlimit(40)]
pub fn remove_basin_input(schema: JsonValue) -> (r: JsonValue)
    ensures
        basin_input_removed(schema, r),
{
    match schema {
        JsonValue::Object(members) => {
            let ghost initial = members@;
            let mut members = members;
            let p = position_of(&members, "properties");
            let q = position_of(&members, "required");
            proof {
                if let Some(i) = p {
                    lemma_key_index(initial, "properties"@, i as int);
                } else {
                    assert(key_index(initial, "properties"@) is None);
                }
                if let Some(i) = q {
                    lemma_key_index(initial, "required"@, i as int);
                } else {
                    assert(key_index(initial, "required"@) is None);
                }
            }
            if let Some(k) = p {
                let ghost before = members@;
                let (name, value) = members.remove(k);
                let value = match value {
                    JsonValue::Object(ps) => JsonValue::Object(remove_key(ps, "basin")),
                    other => other,
                };
                members.insert(k, (name, value));
                assert(forall|i: int| 0 <= i < members@.len() && i != k ==> members@[i] == before[i]);
            }
            let ghost middle = members@;
            if let Some(k) = q {
                let ghost before = members@;
                let (name, value) = members.remove(k);
                let value = match value {
                    JsonValue::Array(items) => JsonValue::Array(remove_name(items, "basin")),
                    other => other,
                };
                members.insert(k, (name, value));
                assert(forall|i: int| 0 <= i < members@.len() && i != k ==> members@[i] == before[i]);
            }
            proof {
                assert forall|i: int| 0 <= i < initial.len() implies (#[trigger] members@[i]).0 == initial[i].0 by {
                    assert(middle[i].0 == initial[i].0);
                }
            }
            JsonValue::Object(members)
        },
        other => other,
    }
}

} // verus!

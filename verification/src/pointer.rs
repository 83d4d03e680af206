use vstd::prelude::*;

use crate::json::{find_member, member, JsonValue};
use crate::text::{chars_of, is_ascii_digit, string_from_chars};
use crate::typescript::{lemma_split_on_len, replace_pair, replace_pair_in, split_on, split_string};

verus! {

/// Every string value that occurs inside `v` (object keys not included).
pub open spec fn strings_of(v: JsonValue) -> Set<Seq<char>>
    decreases v, 1nat,
{
    match v {
        JsonValue::String(s) => set![s@],
        JsonValue::Array(items) => strings_of_items(items@),
        JsonValue::Object(members) => strings_of_members(members@),
        _ => Set::empty(),
    }
}

pub open spec fn strings_of_items(items: Seq<JsonValue>) -> Set<Seq<char>>
    decreases items, 0nat,
{
    if items.len() == 0 {
        Set::empty()
    } else {
        strings_of_items(items.drop_last()).union(strings_of(items.last()))
    }
}

pub open spec fn strings_of_members(members: Seq<(String, JsonValue)>) -> Set<Seq<char>>
    decreases members, 0nat,
{
    if members.len() == 0 {
        Set::empty()
    } else {
        strings_of_members(members.drop_last()).union(strings_of(members.last().1))
    }
}

/// A JSON value holds finitely many strings.
pub proof fn lemma_strings_finite(v: JsonValue)
    ensures
        strings_of(v).finite(),
    decreases v, 1nat,
{
    match v {
        JsonValue::Array(items) => lemma_items_strings_finite(items@),
        JsonValue::Object(members) => lemma_members_strings_finite(members@),
        _ => {},
    }
}

proof fn lemma_items_strings_finite(items: Seq<JsonValue>)
    ensures
        strings_of_items(items).finite(),
    decreases items, 0nat,
{
    if items.len() > 0 {
        lemma_items_strings_finite(items.drop_last());
        lemma_strings_finite(items.last());
    }
}

proof fn lemma_members_strings_finite(members: Seq<(String, JsonValue)>)
    ensures
        strings_of_members(members).finite(),
    decreases members, 0nat,
{
    if members.len() > 0 {
        lemma_members_strings_finite(members.drop_last());
        lemma_strings_finite(members.last().1);
    }
}

/// The strings of an array item are strings of the array.
pub proof fn lemma_item_strings(items: Seq<JsonValue>, i: int)
    requires
        0 <= i < items.len(),
    ensures
        strings_of(items[i]).subset_of(strings_of_items(items)),
    decreases items.len(),
{
    if i < items.len() - 1 {
        lemma_item_strings(items.drop_last(), i);
    }
}

/// The strings of a member's value are strings of the object.
pub proof fn lemma_member_index_strings(members: Seq<(String, JsonValue)>, i: int)
    requires
        0 <= i < members.len(),
    ensures
        strings_of(members[i].1).subset_of(strings_of_members(members)),
    decreases members.len(),
{
    if i < members.len() - 1 {
        lemma_member_index_strings(members.drop_last(), i);
    }
}

/// A member that is found stands at some index of the object.
pub proof fn lemma_member_found(members: Seq<(String, JsonValue)>, key: Seq<char>) -> (i: int)
    requires
        member(members, key) is Some,
    ensures
        0 <= i < members.len(),
        member(members, key) == Some(members[i].1),
    decreases members.len(),
{
    if members[0].0@ == key {
        0
    } else {
        let j = lemma_member_found(members.drop_first(), key);
        j + 1
    }
}

/// The strings of a member found by key are strings of the object.
pub proof fn lemma_member_strings(members: Seq<(String, JsonValue)>, key: Seq<char>)
    requires
        member(members, key) is Some,
    ensures
        strings_of(member(members, key)->0).subset_of(strings_of_members(members)),
{
    let i = lemma_member_found(members, key);
    lemma_member_index_strings(members, i);
}

/// The value of the decimal digits `t`.
pub open spec fn digits_value(t: Seq<char>) -> nat
    decreases t.len(),
{
    if t.len() == 0 {
        0
    } else {
        10 * digits_value(t.drop_last()) + ((t.last() as nat) - ('0' as nat)) as nat
    }
}

/// The array index that the pointer token `t` names, as `serde_json` reads
/// it: decimal digits without a sign or a leading zero, within `usize`.
pub open spec fn array_index(t: Seq<char>) -> Option<nat> {
    if t.len() == 0 || (t[0] == '0' && t.len() != 1) || exists|i: int|
        0 <= i < t.len() && !is_ascii_digit(#[trigger] t[i]) {
        None
    } else if digits_value(t) > usize::MAX {
        None
    } else {
        Some(digits_value(t))
    }
}

/// A pointer token with `~1` read as `/` and then `~0` as `~`.
pub open spec fn pointer_token(t: Seq<char>) -> Seq<char> {
    replace_pair(replace_pair(t, '~', '1', seq!['/']), '~', '0', seq!['~'])
}

/// The child of `v` that the decoded token `token` names.
pub open spec fn pointer_step(v: JsonValue, token: Seq<char>) -> Option<JsonValue> {
    match v {
        JsonValue::Object(members) => member(members@, token),
        JsonValue::Array(items) => match array_index(token) {
            Some(i) => if i < items@.len() {
                Some(items@[i as int])
            } else {
                None
            },
            None => None,
        },
        _ => None,
    }
}

/// The value reached from `v` by following the raw tokens `tokens` in turn.
pub open spec fn pointer_walk(v: JsonValue, tokens: Seq<Seq<char>>) -> Option<JsonValue>
    decreases tokens.len(),
{
    if tokens.len() == 0 {
        Some(v)
    } else {
        match pointer_step(v, pointer_token(tokens[0])) {
            Some(child) => pointer_walk(child, tokens.drop_first()),
            None => None,
        }
    }
}

/// The value that the JSON Pointer `p` names inside `root` (RFC 6901, as
/// `serde_json::Value::pointer` reads it).
pub open spec fn json_pointer(root: JsonValue, p: Seq<char>) -> Option<JsonValue> {
    if p.len() == 0 {
        Some(root)
    } else if p[0] != '/' {
        None
    } else {
        pointer_walk(root, split_on(p, '/').drop_first())
    }
}

/// One pointer step only reaches strings that the value already holds.
pub proof fn lemma_step_strings(v: JsonValue, token: Seq<char>)
    requires
        pointer_step(v, token) is Some,
    ensures
        strings_of(pointer_step(v, token)->0).subset_of(strings_of(v)),
{
    match v {
        JsonValue::Object(members) => lemma_member_strings(members@, token),
        JsonValue::Array(items) => {
            let i = array_index(token)->0;
            lemma_item_strings(items@, i as int);
        },
        _ => {},
    }
}

proof fn lemma_walk_strings(v: JsonValue, tokens: Seq<Seq<char>>)
    requires
        pointer_walk(v, tokens) is Some,
    ensures
        strings_of(pointer_walk(v, tokens)->0).subset_of(strings_of(v)),
    decreases tokens.len(),
{
    if tokens.len() > 0 {
        let child = pointer_step(v, pointer_token(tokens[0]))->0;
        lemma_step_strings(v, pointer_token(tokens[0]));
        lemma_walk_strings(child, tokens.drop_first());
    }
}

/// What a pointer names inside a document holds no string that the document
/// does not hold.
pub proof fn lemma_pointer_strings(root: JsonValue, p: Seq<char>)
    requires
        json_pointer(root, p) is Some,
    ensures
        strings_of(json_pointer(root, p)->0).subset_of(strings_of(root)),
{
    if p.len() > 0 {
        lemma_walk_strings(root, split_on(p, '/').drop_first());
    }
}

proof fn lemma_digits_value_prefix(t: Seq<char>, k: int)
    requires
        0 <= k <= t.len(),
        forall|i: int| 0 <= i < t.len() ==> is_ascii_digit(#[trigger] t[i]),
    ensures
        digits_value(t.subrange(0, k)) <= digits_value(t),
    decreases t.len() - k,
{
    if k < t.len() {
        lemma_digits_value_prefix(t, k + 1);
        assert(t.subrange(0, k + 1).drop_last() =~= t.subrange(0, k));
    } else {
        assert(t.subrange(0, k) =~= t);
    }
}

/// Reads a pointer token as an array index.
pub fn parse_array_index(t: &str) -> (r: Option<usize>)
    ensures
        r matches Some(i) ==> array_index(t@) == Some(i as nat),
        r is None ==> array_index(t@) is None,
{
    let cs = chars_of(t);
    let n = cs.len();
    if n == 0 || (cs[0] == '0' && n != 1) {
        return None;
    }
    let mut value: usize = 0;
    let mut i: usize = 0;
    while i < n
        invariant
            cs@ == t@,
            n == cs@.len(),
            n > 0,
            !(cs@[0] == '0' && n != 1),
            i <= n,
            forall|j: int| 0 <= j < i ==> is_ascii_digit(#[trigger] cs@[j]),
            value == digits_value(cs@.subrange(0, i as int)),
        decreases n - i,
    {
        let c = cs[i];
        if !(c >= '0' && c <= '9') {
            assert(!is_ascii_digit(t@[i as int]));
            return None;
        }
        let d = (c as u32 - '0' as u32) as usize;
        assert(cs@.subrange(0, i + 1).drop_last() =~= cs@.subrange(0, i as int));
        if value > (usize::MAX - d) / 10 {
            proof {
                assert(value * 10 + d > usize::MAX) by (nonlinear_arith)
                    requires
                        value > (usize::MAX - d) / 10,
                        d <= 9,
                ;
                if forall|j: int| 0 <= j < n ==> is_ascii_digit(#[trigger] cs@[j]) {
                    lemma_digits_value_prefix(cs@, i + 1);
                }
            }
            return None;
        }
        value = value * 10 + d;
        i = i + 1;
    }
    assert(cs@.subrange(0, n as int) =~= cs@);
    Some(value)
}

/// Follows the decoded token `token` one step down from `v`.
pub fn step_into<'a>(v: &'a JsonValue, token: &str) -> (r: Option<&'a JsonValue>)
    ensures
        r matches Some(c) ==> pointer_step(*v, token@) == Some(*c),
        r is None ==> pointer_step(*v, token@) is None,
{
    match v {
        JsonValue::Object(members) => find_member(members, token),
        JsonValue::Array(items) => match parse_array_index(token) {
            Some(i) => if i < items.len() {
                Some(&items[i])
            } else {
                None
            },
            None => None,
        },
        _ => None,
    }
}

/// Looks up the JSON Pointer `p` inside `root`.
pub fn pointer_lookup<'a>(root: &'a JsonValue, p: &str) -> (r: Option<&'a JsonValue>)
    ensures
        r matches Some(t) ==> json_pointer(*root, p@) == Some(*t),
        r is None ==> json_pointer(*root, p@) is None,
{
    let n = p.unicode_len();
    if n == 0 {
        return Some(root);
    }
    if p.get_char(0) != '/' {
        return None;
    }
    let pieces = split_string(p, '/');
    proof {
        lemma_split_on_len(p@, '/');
    }
    let ghost tokens = split_on(p@, '/').drop_first();
    assert(tokens.subrange(0, tokens.len() as int) =~= tokens);
    let mut cur: &JsonValue = root;
    let mut k: usize = 1;
    while k < pieces.len()
        invariant
            1 <= k <= pieces@.len(),
            pieces@.len() == split_on(p@, '/').len(),
            forall|j: int| 0 <= j < pieces@.len() ==> #[trigger] pieces@[j]@ == split_on(p@, '/')[j],
            tokens == split_on(p@, '/').drop_first(),
            json_pointer(*root, p@) == pointer_walk(*cur, tokens.subrange(k - 1, tokens.len() as int)),
        decreases pieces@.len() - k,
    {
        let ghost rest = tokens.subrange(k - 1, tokens.len() as int);
        assert(rest[0] == pieces@[k as int]@);
        assert(rest.drop_first() =~= tokens.subrange(k as int, tokens.len() as int));
        let once = replace_pair_in(pieces[k].as_str(), '~', '1', "/");
        let token = replace_pair_in(once.as_str(), '~', '0', "~");
        proof {
            reveal_strlit("/");
            reveal_strlit("~");
            assert("/"@ =~= seq!['/']);
            assert("~"@ =~= seq!['~']);
        }
        match step_into(cur, token.as_str()) {
            Some(child) => {
                cur = child;
            },
            None => {
                return None;
            },
        }
        k = k + 1;
    }
    assert(tokens.subrange(k - 1, tokens.len() as int).len() == 0);
    Some(cur)
}

} // verus!

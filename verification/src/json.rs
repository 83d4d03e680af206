use vstd::prelude::*;

use crate::text::{
    add_capped, byte_len, capped, char_utf8_width, chars_of, copy_str, push_char, utf8_size, utf8_width,
};

verus! {

/// A JSON document as the library reads it.
///
/// Numbers keep their JSON text; object members keep the order in which the
/// document lists them.
#[derive(Debug, PartialEq)]
pub enum JsonValue {
    Null,
    Bool(bool),
    Number(String),
    String(String),
    Array(Vec<JsonValue>),
    Object(Vec<(String, JsonValue)>),
}

/// `value` nests no container deeper than `budget` levels: every array or
/// object costs one level, scalars cost none.
pub open spec fn within_depth(value: JsonValue, budget: int) -> bool
    decreases value,
{
    match value {
        JsonValue::Array(items) => budget >= 1 && forall|i: int|
            0 <= i < items@.len() ==> within_depth(#[trigger] items@[i], budget - 1),
        JsonValue::Object(members) => budget >= 1 && forall|i: int|
            0 <= i < members@.len() ==> within_depth(#[trigger] members@[i].1, budget - 1),
        _ => true,
    }
}

pub(crate) fn check_depth(value: &JsonValue, parent_depth: usize, maximum: usize) -> (ok: bool)
    requires
        parent_depth <= maximum,
    ensures
        ok == within_depth(*value, maximum - parent_depth),
    decreases value,
{
    match value {
        JsonValue::Array(items) => {
            if parent_depth == maximum {
                return false;
            }
            let depth = parent_depth + 1;
            let mut i: usize = 0;
            while i < items.len()
                invariant
                    i <= items@.len(),
                    depth == parent_depth + 1,
                    depth <= maximum,
                    *value == JsonValue::Array(*items),
                    forall|j: int| 0 <= j < i ==> within_depth(#[trigger] items@[j], maximum - depth),
                decreases items@.len() - i,
            {
                proof {
                    let ghost whole = *value;
                    assert(decreases_to!(whole => whole->Array_0));
                    assert(decreases_to!(whole->Array_0 => whole->Array_0[i as int]));
                }
                if !check_depth(&items[i], depth, maximum) {
                    assert(!within_depth(items@[i as int], maximum - depth));
                    return false;
                }
                i = i + 1;
            }
            true
        },
        JsonValue::Object(members) => {
            if parent_depth == maximum {
                return false;
            }
            let depth = parent_depth + 1;
            let mut i: usize = 0;
            while i < members.len()
                invariant
                    i <= members@.len(),
                    depth == parent_depth + 1,
                    depth <= maximum,
                    *value == JsonValue::Object(*members),
                    forall|j: int| 0 <= j < i ==> within_depth(#[trigger] members@[j].1, maximum - depth),
                decreases members@.len() - i,
            {
                proof {
                    let ghost whole = *value;
                    assert(decreases_to!(whole => whole->Object_0));
                    assert(decreases_to!(whole->Object_0 => whole->Object_0[i as int]));
                    assert(decreases_to!(whole->Object_0[i as int] => whole->Object_0[i as int].1));
                }
                if !check_depth(&members[i].1, depth, maximum) {
                    let ghost member = members@[i as int];
                    assert(!within_depth(member.1, maximum - depth));
                    return false;
                }
                i = i + 1;
            }
            true
        },
        _ => true,
    }
}

} // verus!

verus! {

/// Bytes that compact JSON needs for the character `c` inside a string
/// literal: short escapes for quote, backslash, backspace, tab, newline,
/// form feed and carriage return; `\u00XX` for the other control characters;
/// the UTF-8 encoding otherwise.
pub open spec fn escaped_width(c: char) -> nat {
    if c == '"' || c == '\\' || c == '\u{08}' || c == '\t' || c == '\n' || c == '\u{0c}' || c
        == '\r' {
        2
    } else if (c as u32) < 0x20 {
        6
    } else {
        utf8_width(c)
    }
}

/// Bytes of the escaped characters of `s`, quotes not included.
pub open spec fn escaped_size(s: Seq<char>) -> nat
    decreases s.len(),
{
    if s.len() == 0 {
        0
    } else {
        escaped_size(s.drop_last()) + escaped_width(s.last())
    }
}

/// Bytes of `s` written as a JSON string literal.
pub open spec fn string_size(s: Seq<char>) -> nat {
    escaped_size(s) + 2
}

/// The escaped size of a concatenation is the sum of the escaped sizes.
pub proof fn lemma_escaped_size_append(a: Seq<char>, b: Seq<char>)
    ensures
        escaped_size(a + b) == escaped_size(a) + escaped_size(b),
    decreases b.len(),
{
    if b.len() == 0 {
        assert(a + b =~= a);
    } else {
        lemma_escaped_size_append(a, b.drop_last());
        assert((a + b).drop_last() =~= a + b.drop_last());
    }
}

/// A longer prefix never has a smaller escaped size.
pub proof fn lemma_escaped_size_prefix_monotone(s: Seq<char>, i: int, j: int)
    requires
        0 <= i <= j <= s.len(),
    ensures
        escaped_size(s.subrange(0, i)) <= escaped_size(s.subrange(0, j)),
    decreases j - i,
{
    if i < j {
        lemma_escaped_size_prefix_monotone(s, i, j - 1);
        assert(s.subrange(0, j).drop_last() =~= s.subrange(0, j - 1));
    }
}

pub fn char_escaped_width(c: char) -> (n: usize)
    ensures
        n == escaped_width(c),
        1 <= n <= 6,
{
    if c == '"' || c == '\\' || c == '\u{08}' || c == '\t' || c == '\n' || c == '\u{0c}' || c
        == '\r' {
        2
    } else if (c as u32) < 0x20 {
        6
    } else {
        char_utf8_width(c)
    }
}

/// The lower-case hexadecimal digit for `d` (below 16).
pub open spec fn hex_digit(d: nat) -> char {
    if d < 10 {
        (('0' as nat) + d) as char
    } else {
        (('a' as nat) + d - 10) as char
    }
}

/// The characters that stand for `c` inside a JSON string literal: the short
/// escapes, `\u00xx` (lower-case hex) for the other control characters, and
/// `c` itself otherwise.
pub open spec fn escape_char(c: char) -> Seq<char> {
    if c == '"' {
        seq!['\\', '"']
    } else if c == '\\' {
        seq!['\\', '\\']
    } else if c == '\u{08}' {
        seq!['\\', 'b']
    } else if c == '\t' {
        seq!['\\', 't']
    } else if c == '\n' {
        seq!['\\', 'n']
    } else if c == '\u{0c}' {
        seq!['\\', 'f']
    } else if c == '\r' {
        seq!['\\', 'r']
    } else if (c as u32) < 0x20 {
        seq!['\\', 'u', '0', '0', hex_digit((c as nat) / 16), hex_digit((c as nat) % 16)]
    } else {
        seq![c]
    }
}

/// The escaped characters of `s`.
pub open spec fn escaped(s: Seq<char>) -> Seq<char>
    decreases s.len(),
{
    if s.len() == 0 {
        Seq::<char>::empty()
    } else {
        escaped(s.drop_last()) + escape_char(s.last())
    }
}

/// `s` written as a JSON string literal.
pub open spec fn quoted(s: Seq<char>) -> Seq<char> {
    seq!['"'] + escaped(s) + seq!['"']
}

fn hex_char(d: u32) -> (c: char)
    requires
        d < 16,
    ensures
        c == hex_digit(d as nat),
{
    if d < 10 {
        if d == 0 { '0' } else if d == 1 { '1' } else if d == 2 { '2' } else if d == 3 { '3' }
        else if d == 4 { '4' } else if d == 5 { '5' } else if d == 6 { '6' } else if d == 7 { '7' }
        else if d == 8 { '8' } else { '9' }
    } else {
        if d == 10 { 'a' } else if d == 11 { 'b' } else if d == 12 { 'c' } else if d == 13 { 'd' }
        else if d == 14 { 'e' } else { 'f' }
    }
}

fn push_escaped_char(out: &mut String, c: char)
    ensures
        final(out)@ == old(out)@ + escape_char(c),
{
    let u = c as u32;
    if c == '"' {
        push_char(out, '\\');
        push_char(out, '"');
    } else if c == '\\' {
        push_char(out, '\\');
        push_char(out, '\\');
    } else if c == '\u{08}' {
        push_char(out, '\\');
        push_char(out, 'b');
    } else if c == '\t' {
        push_char(out, '\\');
        push_char(out, 't');
    } else if c == '\n' {
        push_char(out, '\\');
        push_char(out, 'n');
    } else if c == '\u{0c}' {
        push_char(out, '\\');
        push_char(out, 'f');
    } else if c == '\r' {
        push_char(out, '\\');
        push_char(out, 'r');
    } else if u < 0x20 {
        push_char(out, '\\');
        push_char(out, 'u');
        push_char(out, '0');
        push_char(out, '0');
        push_char(out, hex_char(u / 16));
        push_char(out, hex_char(u % 16));
    } else {
        push_char(out, c);
    }
    assert(final(out)@ =~= old(out)@ + escape_char(c)) by {
        assert(u as nat == c as nat);
    }
}

/// `s` as a JSON string literal (what `serde_json::to_string` writes for it).
pub fn quote_json_string(s: &str) -> (r: String)
    ensures
        r@ == quoted(s@),
{
    let cs = chars_of(s);
    let mut out = String::new();
    push_char(&mut out, '"');
    let mut i: usize = 0;
    while i < cs.len()
        invariant
            cs@ == s@,
            i <= cs@.len(),
            out@ == seq!['"'] + escaped(cs@.subrange(0, i as int)),
        decreases cs@.len() - i,
    {
        assert(cs@.subrange(0, i + 1).drop_last() =~= cs@.subrange(0, i as int));
        push_escaped_char(&mut out, cs[i]);
        i = i + 1;
        assert(out@ =~= seq!['"'] + escaped(cs@.subrange(0, i as int)));
    }
    assert(cs@.subrange(0, cs@.len() as int) =~= cs@);
    push_char(&mut out, '"');
    assert(out@ =~= quoted(s@));
    out
}

/// Size of `s` as a JSON string literal, capped at the largest `usize`.
pub fn json_string_size(s: &str) -> (n: usize)
    ensures
        n == capped(string_size(s@) as int),
{
    let cs = chars_of(s);
    let mut n: usize = 2;
    let mut i: usize = 0;
    while i < cs.len()
        invariant
            cs@ == s@,
            i <= cs@.len(),
            n == capped(escaped_size(cs@.subrange(0, i as int)) + 2int),
        decreases cs@.len() - i,
    {
        let w = char_escaped_width(cs[i]);
        n = add_capped(n, w);
        assert(cs@.subrange(0, i + 1).drop_last() =~= cs@.subrange(0, i as int));
        i = i + 1;
    }
    assert(cs@.subrange(0, cs@.len() as int) =~= cs@);
    n
}

/// How many characters of `s`, from its start, have JSON escapes that fit in
/// `budget` bytes.
pub open spec fn fitting_len(s: Seq<char>, budget: int) -> nat
    decreases s.len(),
{
    if s.len() == 0 || escaped_width(s[0]) > budget {
        0
    } else {
        1 + fitting_len(s.drop_first(), budget - escaped_width(s[0]))
    }
}

/// The longest prefix of `s` whose JSON escapes take at most `maximum` bytes.
pub open spec fn json_prefix(s: Seq<char>, maximum: int) -> Seq<char> {
    s.subrange(0, fitting_len(s, maximum) as int)
}

/// The first `k` characters of `s` take at most `maximum` escaped bytes and
/// the first `k + 1` (when there are that many) take more.
pub open spec fn longest_fitting_prefix(s: Seq<char>, k: int, maximum: int) -> bool {
    &&& 0 <= k <= s.len()
    &&& escaped_size(s.subrange(0, k)) <= maximum
    &&& (k == s.len() || escaped_size(s.subrange(0, k + 1)) > maximum)
}

proof fn lemma_escaped_size_cons(s: Seq<char>, k: int)
    requires
        1 <= k <= s.len(),
    ensures
        escaped_size(s.subrange(0, k)) == escaped_width(s[0]) + escaped_size(s.drop_first().subrange(0, k - 1)),
{
    lemma_escaped_size_append(seq![s[0]], s.drop_first().subrange(0, k - 1));
    assert(seq![s[0]] + s.drop_first().subrange(0, k - 1) =~= s.subrange(0, k));
    assert(seq![s[0]].drop_last() =~= Seq::<char>::empty());
    assert(escaped_size(Seq::<char>::empty()) == 0);
    assert(escaped_size(seq![s[0]]) == escaped_width(s[0]));
}

/// The kept prefix is the longest that fits.
pub proof fn lemma_json_prefix_longest(s: Seq<char>, maximum: int)
    requires
        maximum >= 0,
    ensures
        longest_fitting_prefix(s, fitting_len(s, maximum) as int, maximum),
    decreases s.len(),
{
    let k = fitting_len(s, maximum) as int;
    if s.len() == 0 {
        assert(s.subrange(0, 0) =~= Seq::<char>::empty());
    } else if escaped_width(s[0]) > maximum {
        assert(s.subrange(0, 0) =~= Seq::<char>::empty());
        lemma_escaped_size_cons(s, 1);
    } else {
        let rest = maximum - escaped_width(s[0]);
        lemma_json_prefix_longest(s.drop_first(), rest);
        lemma_escaped_size_cons(s, k);
        if k < s.len() {
            lemma_escaped_size_cons(s, k + 1);
        }
    }
}

/// Cuts `value` to its longest prefix whose escaped JSON size is at most
/// `maximum` bytes, never splitting a character.
pub fn truncate_json_string(value: &mut String, maximum: usize)
    ensures
        final(value)@ == json_prefix(old(value)@, maximum as int),
{
    let cs = chars_of(value.as_str());
    let ghost s = cs@;
    let mut size: usize = 0;
    let mut k: usize = 0;
    let mut full = false;
    assert(s.subrange(0, s.len() as int) =~= s);
    while !full && k < cs.len()
        invariant
            cs@ == old(value)@,
            s == cs@,
            k <= cs@.len(),
            size <= maximum,
            fitting_len(s, maximum as int) == k + fitting_len(s.subrange(k as int, s.len() as int), maximum - size),
            full ==> k < cs@.len() && fitting_len(s.subrange(k as int, s.len() as int), maximum - size) == 0,
        decreases cs@.len() - k, if full { 0int } else { 1int },
    {
        let w = char_escaped_width(cs[k]);
        let ghost rest = s.subrange(k as int, s.len() as int);
        assert(rest[0] == s[k as int]);
        assert(rest.drop_first() =~= s.subrange(k + 1, s.len() as int));
        if w > maximum - size {
            full = true;
        } else {
            size = size + w;
            k = k + 1;
        }
    }
    if !full {
        assert(s.subrange(k as int, s.len() as int).len() == 0);
    }
    let kept = copy_str(value.as_str().substring_char(0, k));
    *value = kept;
}

/// Number of decimal digits of `n`.
pub open spec fn decimal_len(n: nat) -> nat
    decreases n,
{
    if n < 10 {
        1
    } else {
        1 + decimal_len(n / 10)
    }
}

/// Powers of ten.
pub open spec fn pow10(k: nat) -> nat
    decreases k,
{
    if k == 0 {
        1
    } else {
        10 * pow10((k - 1) as nat)
    }
}

proof fn lemma_decimal_len_bound(n: nat, k: nat)
    requires
        1 <= k,
        n < pow10(k),
    ensures
        decimal_len(n) <= k,
    decreases k,
{
    if n >= 10 {
        let p = pow10((k - 1) as nat);
        assert(n / 10 < p) by (nonlinear_arith)
            requires
                n < 10 * p,
        ;
        if k == 1 {
            assert(false);
        } else {
            lemma_decimal_len_bound(n / 10, (k - 1) as nat);
        }
    }
}

pub fn u64_json_size(n: u64) -> (r: usize)
    ensures
        r == decimal_len(n as nat),
        1 <= r <= 20,
{
    proof {
        assert(pow10(20) == 100000000000000000000) by {
            reveal_with_fuel(pow10, 21);
        }
        lemma_decimal_len_bound(n as nat, 20);
    }
    let mut r: usize = 1;
    let mut m: u64 = n;
    while m >= 10
        invariant
            1 <= r,
            r + decimal_len(m as nat) == decimal_len(n as nat) + 1,
            decimal_len(n as nat) <= 20,
        decreases m,
    {
        m = m / 10;
        r = r + 1;
    }
    r
}

} // verus!

verus! {

/// Bytes of `value` in compact JSON (no whitespace; numbers as written).
pub open spec fn value_size(value: JsonValue) -> nat
    decreases value, 1nat,
{
    match value {
        JsonValue::Null => 4,
        JsonValue::Bool(b) => if b {
            4
        } else {
            5
        },
        JsonValue::Number(text) => utf8_size(text@),
        JsonValue::String(s) => string_size(s@),
        JsonValue::Array(items) => 2 + items_size(items@),
        JsonValue::Object(members) => 2 + members_size(members@),
    }
}

/// Bytes of the comma-separated items of an array.
pub open spec fn items_size(items: Seq<JsonValue>) -> nat
    decreases items, 0nat,
{
    if items.len() == 0 {
        0
    } else {
        let rest = items.drop_last();
        items_size(rest) + value_size(items.last()) + if rest.len() == 0 {
            0nat
        } else {
            1nat
        }
    }
}

/// Bytes of the comma-separated `"key":value` members of an object.
pub open spec fn members_size(members: Seq<(String, JsonValue)>) -> nat
    decreases members, 0nat,
{
    if members.len() == 0 {
        0
    } else {
        let rest = members.drop_last();
        members_size(rest) + string_size(members.last().0@) + 1 + value_size(members.last().1)
            + if rest.len() == 0 {
            0nat
        } else {
            1nat
        }
    }
}

} // verus!

verus! {

/// Size of `value` in compact JSON, capped at the largest `usize`.
pub fn json_value_size(value: &JsonValue) -> (n: usize)
    ensures
        n == capped(value_size(*value) as int),
    decreases value,
{
    match value {
        JsonValue::Null => 4,
        JsonValue::Bool(b) => if *b {
            4
        } else {
            5
        },
        JsonValue::Number(text) => byte_len(text.as_str()),
        JsonValue::String(s) => json_string_size(s.as_str()),
        JsonValue::Array(items) => {
            let mut n: usize = 2;
            let mut i: usize = 0;
            while i < items.len()
                invariant
                    i <= items@.len(),
                    *value == JsonValue::Array(*items),
                    n == capped(2int + items_size(items@.subrange(0, i as int))),
                decreases items@.len() - i,
            {
                proof {
                    let ghost whole = *value;
                    assert(decreases_to!(whole => whole->Array_0));
                    assert(decreases_to!(whole->Array_0 => whole->Array_0[i as int]));
                }
                let item = json_value_size(&items[i]);
                if i > 0 {
                    n = add_capped(n, 1);
                }
                n = add_capped(n, item);
                assert(items@.subrange(0, i + 1).drop_last() =~= items@.subrange(0, i as int));
                i = i + 1;
            }
            assert(items@.subrange(0, items@.len() as int) =~= items@);
            n
        },
        JsonValue::Object(members) => {
            let mut n: usize = 2;
            let mut i: usize = 0;
            while i < members.len()
                invariant
                    i <= members@.len(),
                    *value == JsonValue::Object(*members),
                    n == capped(2int + members_size(members@.subrange(0, i as int))),
                decreases members@.len() - i,
            {
                proof {
                    let ghost whole = *value;
                    assert(decreases_to!(whole => whole->Object_0));
                    assert(decreases_to!(whole->Object_0 => whole->Object_0[i as int]));
                    assert(decreases_to!(whole->Object_0[i as int] => whole->Object_0[i as int].1));
                }
                let key = json_string_size(members[i].0.as_str());
                let item = json_value_size(&members[i].1);
                if i > 0 {
                    n = add_capped(n, 1);
                }
                n = add_capped(n, key);
                n = add_capped(n, 1);
                n = add_capped(n, item);
                assert(members@.subrange(0, i + 1).drop_last() =~= members@.subrange(0, i as int));
                i = i + 1;
            }
            assert(members@.subrange(0, members@.len() as int) =~= members@);
            n
        },
    }
}

} // verus!

verus! {

/// The value of the first member named `key`.
pub open spec fn member(members: Seq<(String, JsonValue)>, key: Seq<char>) -> Option<JsonValue>
    decreases members.len(),
{
    if members.len() == 0 {
        None
    } else if members[0].0@ == key {
        Some(members[0].1)
    } else {
        member(members.drop_first(), key)
    }
}

/// The value of member `key` when `value` is an object that has one.
pub open spec fn get(value: JsonValue, key: Seq<char>) -> Option<JsonValue> {
    match value {
        JsonValue::Object(members) => member(members@, key),
        _ => None,
    }
}

/// Looks up the first member named `key`.
pub fn find_member<'a>(members: &'a Vec<(String, JsonValue)>, key: &str) -> (r: Option<&'a JsonValue>)
    ensures
        r matches Some(v) ==> member(members@, key@) == Some(*v),
        r is None ==> member(members@, key@) is None,
{
    let mut i: usize = 0;
    assert(members@.subrange(0, members@.len() as int) =~= members@);
    while i < members.len()
        invariant
            i <= members@.len(),
            member(members@, key@) == member(members@.subrange(i as int, members@.len() as int), key@),
        decreases members@.len() - i,
    {
        let ghost rest = members@.subrange(i as int, members@.len() as int);
        assert(rest.drop_first() =~= members@.subrange(i + 1, members@.len() as int));
        if crate::text::str_eq(members[i].0.as_str(), key) {
            return Some(&members[i].1);
        }
        i = i + 1;
    }
    None
}

/// Looks up member `key` of `value` when it is an object.
pub fn get_field<'a>(value: &'a JsonValue, key: &str) -> (r: Option<&'a JsonValue>)
    ensures
        r matches Some(v) ==> get(*value, key@) == Some(*v),
        r is None ==> get(*value, key@) is None,
{
    match value {
        JsonValue::Object(members) => {
            proof {
                assert(members@.subrange(0, members@.len() as int) =~= members@);
            }
            find_member(members, key)
        },
        _ => None,
    }
}

} // verus!

use vstd::prelude::*;

use crate::codemode::{Error, FunctionDescriptor, SearchInput, SearchMatch, SearchOutput};
use crate::json::{json_string_size, string_size};
use crate::json::{get, member, JsonValue};
use crate::terms::{count_common, distinct_terms, insert_term, term_set};
use crate::text::{
    char_is_ascii_alnum, char_is_ascii_digit, char_is_ascii_lower, char_is_ascii_upper,
    char_to_lower, chars_of, is_ascii_alnum, is_ascii_digit, is_ascii_lower, is_ascii_upper, lower,
    string_from_chars, eq_ignore_ascii_case, str_eq_ignore_ascii_case, lex_less, str_less,
    lemma_lex_asymmetric, lemma_lex_total, lemma_lex_transitive, is_ascii_alpha, has_prefix,
    strip_prefix, copy_str, concat3, str_eq, concat2, add_capped, capped, trim, trim_spec,
};

verus! {

/// Terms found so far and the term being built.
pub struct Scan {
    pub terms: Set<Seq<char>>,
    pub current: Seq<char>,
}

/// Closes the term being built, if any.
pub open spec fn flush(scan: Scan) -> Scan {
    if scan.current.len() > 0 {
        Scan { terms: scan.terms.insert(scan.current), current: Seq::empty() }
    } else {
        scan
    }
}

/// Upper-case letter at `i` that starts a new camel-case word: it follows a
/// lower-case letter or digit, or it ends a run of capitals that a lower-case
/// letter follows (`HTTPServer` splits before `S`).
pub open spec fn camel_boundary(c: Seq<char>, i: int, current: Seq<char>) -> bool {
    &&& is_ascii_upper(c[i])
    &&& current.len() > 0
    &&& i > 0
    &&& ((is_ascii_lower(c[i - 1]) || is_ascii_digit(c[i - 1])) || (is_ascii_upper(c[i - 1]) && i
        + 1 < c.len() && is_ascii_lower(c[i + 1])))
}

/// Reading the character at `i`: separators close the current term, camel
/// boundaries close it before the letter, letters and digits join it in
/// lower case.
pub open spec fn scan_step(c: Seq<char>, i: int, scan: Scan) -> Scan {
    if !is_ascii_alnum(c[i]) {
        flush(scan)
    } else {
        let before = if camel_boundary(c, i, scan.current) {
            flush(scan)
        } else {
            scan
        };
        Scan { terms: before.terms, current: before.current.push(lower(c[i])) }
    }
}

/// The scan after reading the first `i` characters.
pub open spec fn scan_prefix(c: Seq<char>, i: nat) -> Scan
    recommends
        i <= c.len(),
    decreases i,
{
    if i == 0 {
        Scan { terms: Set::empty(), current: Seq::empty() }
    } else {
        scan_step(c, i - 1, scan_prefix(c, (i - 1) as nat))
    }
}

/// The search terms of a text: its ASCII alphanumeric words, split further at
/// camel-case boundaries, in lower case.
pub open spec fn tokens(c: Seq<char>) -> Set<Seq<char>> {
    flush(scan_prefix(c, c.len())).terms
}

/// A term is a non-empty run of lower-case ASCII letters and digits.
pub open spec fn is_term(t: Seq<char>) -> bool {
    t.len() > 0 && forall|k: int| 0 <= k < t.len() ==> #[trigger] is_term_char(t[k])
}

pub open spec fn is_term_char(c: char) -> bool {
    is_ascii_lower(c) || is_ascii_digit(c)
}

pub open spec fn scan_well_formed(scan: Scan) -> bool {
    &&& forall|t: Seq<char>| #[trigger] scan.terms.contains(t) ==> is_term(t)
    &&& forall|k: int| 0 <= k < scan.current.len() ==> #[trigger] is_term_char(scan.current[k])
}

proof fn lemma_scan_well_formed(c: Seq<char>, i: nat)
    requires
        i <= c.len(),
    ensures
        scan_well_formed(scan_prefix(c, i)),
    decreases i,
{
    if i > 0 {
        lemma_scan_well_formed(c, (i - 1) as nat);
        let prev = scan_prefix(c, (i - 1) as nat);
        let ch = c[i - 1];
        if is_ascii_alnum(ch) {
            let before = if camel_boundary(c, i - 1, prev.current) {
                flush(prev)
            } else {
                prev
            };
            assert(is_term_char(lower(ch)));
            let next = before.current.push(lower(ch));
            assert forall|k: int| 0 <= k < next.len() implies #[trigger] is_term_char(next[k]) by {
                if k < before.current.len() {
                    assert(next[k] == before.current[k]);
                }
            }
        }
    }
}

/// Every search term is a non-empty run of lower-case letters and digits.
pub proof fn lemma_tokens_are_terms(c: Seq<char>)
    ensures
        forall|t: Seq<char>| #[trigger] tokens(c).contains(t) ==> is_term(t),
{
    lemma_scan_well_formed(c, c.len());
}

/// Splits `value` into its search terms.
pub fn tokenize(value: &str) -> (terms: Vec<String>)
    ensures
        distinct_terms(terms@),
        term_set(terms@) == tokens(value@),
{
    let characters = chars_of(value);
    let mut terms: Vec<String> = Vec::new();
    let mut current: Vec<char> = Vec::new();
    let mut index: usize = 0;
    proof {
        assert(term_set(terms@) =~= Set::<Seq<char>>::empty());
    }
    while index < characters.len()
        invariant
            characters@ == value@,
            index <= characters@.len(),
            distinct_terms(terms@),
            term_set(terms@) == scan_prefix(value@, index as nat).terms,
            current@ == scan_prefix(value@, index as nat).current,
        decreases characters@.len() - index,
    {
        let character = characters[index];
        if !char_is_ascii_alnum(character) {
            push_term(&mut terms, &mut current);
        } else {
            let previous_lower_or_digit = index > 0 && (char_is_ascii_lower(characters[index - 1])
                || char_is_ascii_digit(characters[index - 1]));
            let previous_upper = index > 0 && char_is_ascii_upper(characters[index - 1]);
            let next_lower = index + 1 < characters.len() && char_is_ascii_lower(
                characters[index + 1],
            );
            let boundary = char_is_ascii_upper(character) && current.len() > 0 && (
            previous_lower_or_digit || (previous_upper && next_lower));
            if boundary {
                push_term(&mut terms, &mut current);
            }
            current.push(char_to_lower(character));
        }
        index = index + 1;
    }
    push_term(&mut terms, &mut current);
    terms
}

/// Closes the term being built into `terms`.
fn push_term(terms: &mut Vec<String>, current: &mut Vec<char>)
    requires
        distinct_terms(old(terms)@),
    ensures
        distinct_terms(final(terms)@),
        ({
            let after = flush(Scan { terms: term_set(old(terms)@), current: old(current)@ });
            term_set(final(terms)@) == after.terms && final(current)@ == after.current
        }),
{
    if current.len() > 0 {
        let term = string_from_chars(current.as_slice());
        insert_term(terms, term);
        *current = Vec::new();
        assert(current@ =~= Seq::<char>::empty());
    }
}

} // verus!

verus! {

/// Terms of property names and of property descriptions.
#[verifier::ext_equal]
pub struct PropertyTerms {
    pub names: Set<Seq<char>>,
    pub descriptions: Set<Seq<char>>,
}

pub open spec fn no_terms() -> PropertyTerms {
    PropertyTerms { names: Set::empty(), descriptions: Set::empty() }
}

pub open spec fn join(a: PropertyTerms, b: PropertyTerms) -> PropertyTerms {
    PropertyTerms { names: a.names.union(b.names), descriptions: a.descriptions.union(b.descriptions) }
}

/// Terms that one declared property contributes: those of its name, and
/// those of its `description` when its schema is an object with a string
/// description.
pub open spec fn property_terms(name: String, schema: JsonValue) -> PropertyTerms {
    PropertyTerms {
        names: tokens(name@),
        descriptions: match get(schema, "description"@) {
            Some(JsonValue::String(d)) => tokens(d@),
            _ => Set::empty(),
        },
    }
}

/// Terms of the properties declared in a `properties` object.
pub open spec fn declared_terms(properties: Seq<(String, JsonValue)>) -> PropertyTerms
    decreases properties.len(),
{
    if properties.len() == 0 {
        no_terms()
    } else {
        join(
            declared_terms(properties.drop_last()),
            property_terms(properties.last().0, properties.last().1),
        )
    }
}

/// Terms of the properties that `value` and every schema nested in it
/// declare under `properties`.
pub open spec fn schema_terms(value: JsonValue) -> PropertyTerms
    decreases value, 1nat,
{
    match value {
        JsonValue::Object(members) => join(
            match member(members@, "properties"@) {
                Some(JsonValue::Object(properties)) => declared_terms(properties@),
                _ => no_terms(),
            },
            members_schema_terms(members@),
        ),
        JsonValue::Array(items) => items_schema_terms(items@),
        _ => no_terms(),
    }
}

pub open spec fn items_schema_terms(items: Seq<JsonValue>) -> PropertyTerms
    decreases items, 0nat,
{
    if items.len() == 0 {
        no_terms()
    } else {
        join(items_schema_terms(items.drop_last()), schema_terms(items.last()))
    }
}

pub open spec fn members_schema_terms(members: Seq<(String, JsonValue)>) -> PropertyTerms
    decreases members, 0nat,
{
    if members.len() == 0 {
        no_terms()
    } else {
        join(members_schema_terms(members.drop_last()), schema_terms(members.last().1))
    }
}

/// Collected terms, as two vectors without repeats.
pub open spec fn collected(names: Seq<String>, descriptions: Seq<String>) -> PropertyTerms {
    PropertyTerms { names: term_set(names), descriptions: term_set(descriptions) }
}

fn collect_declared(
    properties: &Vec<(String, JsonValue)>,
    names: &mut Vec<String>,
    descriptions: &mut Vec<String>,
)
    requires
        distinct_terms(old(names)@),
        distinct_terms(old(descriptions)@),
    ensures
        distinct_terms(final(names)@),
        distinct_terms(final(descriptions)@),
        collected(final(names)@, final(descriptions)@) == join(
            collected(old(names)@, old(descriptions)@),
            declared_terms(properties@),
        ),
{
    let ghost start = collected(names@, descriptions@);
    let mut i: usize = 0;
    proof {
        assert(join(start, declared_terms(properties@.subrange(0, 0))) =~= start);
        assert(start.names.union(Set::empty()) =~= start.names);
    }
    while i < properties.len()
        invariant
            i <= properties@.len(),
            distinct_terms(names@),
            distinct_terms(descriptions@),
            collected(names@, descriptions@) == join(
                start,
                declared_terms(properties@.subrange(0, i as int)),
            ),
        decreases properties@.len() - i,
    {
        let ghost prev = collected(names@, descriptions@);
        let name_terms = tokenize(properties[i].0.as_str());
        crate::terms::extend_terms(names, name_terms);
        let description = crate::json::get_field(&properties[i].1, "description");
        let ghost added = property_terms(properties@[i as int].0, properties@[i as int].1);
        match description {
            Some(JsonValue::String(d)) => {
                let description_terms = tokenize(d.as_str());
                crate::terms::extend_terms(descriptions, description_terms);
            },
            _ => {
                assert(descriptions@ == descriptions@);
            },
        }
        proof {
            assert(properties@.subrange(0, i + 1).drop_last() =~= properties@.subrange(0, i as int));
            assert(collected(names@, descriptions@) =~= join(prev, added));
            assert(join(prev, added) =~= join(start, declared_terms(properties@.subrange(0, i + 1))));
        }
        i = i + 1;
    }
    assert(properties@.subrange(0, properties@.len() as int) =~= properties@);
}

/// Adds the property terms of `value` and of every schema nested in it.
pub fn collect_input_property_terms(
    value: &JsonValue,
    names: &mut Vec<String>,
    descriptions: &mut Vec<String>,
)
    requires
        distinct_terms(old(names)@),
        distinct_terms(old(descriptions)@),
    ensures
        distinct_terms(final(names)@),
        distinct_terms(final(descriptions)@),
        collected(final(names)@, final(descriptions)@) == join(
            collected(old(names)@, old(descriptions)@),
            schema_terms(*value),
        ),
    decreases value,
{
    let ghost start = collected(names@, descriptions@);
    match value {
        JsonValue::Object(members) => {
            let properties = crate::json::find_member(members, "properties");
            match properties {
                Some(JsonValue::Object(declared)) => {
                    collect_declared(declared, names, descriptions);
                },
                _ => {},
            }
            let ghost own = collected(names@, descriptions@);
            proof {
                assert(own == join(start, match member(members@, "properties"@) {
                    Some(JsonValue::Object(properties)) => declared_terms(properties@),
                    _ => no_terms(),
                })) by {
                    match properties {
                        Some(JsonValue::Object(declared)) => {},
                        _ => {
                            assert(join(start, no_terms()) =~= start);
                        },
                    }
                }
                assert(join(own, members_schema_terms(members@.subrange(0, 0))) =~= own);
            }
            let mut i: usize = 0;
            while i < members.len()
                invariant
                    i <= members@.len(),
                    *value == JsonValue::Object(*members),
                    distinct_terms(names@),
                    distinct_terms(descriptions@),
                    collected(names@, descriptions@) == join(
                        own,
                        members_schema_terms(members@.subrange(0, i as int)),
                    ),
                decreases members@.len() - i,
            {
                proof {
                    let ghost whole = *value;
                    assert(decreases_to!(whole => whole->Object_0));
                    assert(decreases_to!(whole->Object_0 => whole->Object_0[i as int]));
                    assert(decreases_to!(whole->Object_0[i as int] => whole->Object_0[i as int].1));
                }
                let ghost prev = collected(names@, descriptions@);
                collect_input_property_terms(&members[i].1, names, descriptions);
                proof {
                    assert(members@.subrange(0, i + 1).drop_last() =~= members@.subrange(0, i as int));
                    assert(collected(names@, descriptions@) =~= join(
                        own,
                        members_schema_terms(members@.subrange(0, i + 1)),
                    ));
                }
                i = i + 1;
            }
            proof {
                assert(members@.subrange(0, members@.len() as int) =~= members@);
                assert(collected(names@, descriptions@) =~= join(start, schema_terms(*value)));
            }
        },
        JsonValue::Array(items) => {
            proof {
                assert(join(start, items_schema_terms(items@.subrange(0, 0))) =~= start);
            }
            let mut i: usize = 0;
            while i < items.len()
                invariant
                    i <= items@.len(),
                    *value == JsonValue::Array(*items),
                    distinct_terms(names@),
                    distinct_terms(descriptions@),
                    collected(names@, descriptions@) == join(
                        start,
                        items_schema_terms(items@.subrange(0, i as int)),
                    ),
                decreases items@.len() - i,
            {
                proof {
                    let ghost whole = *value;
                    assert(decreases_to!(whole => whole->Array_0));
                    assert(decreases_to!(whole->Array_0 => whole->Array_0[i as int]));
                }
                collect_input_property_terms(&items[i], names, descriptions);
                proof {
                    assert(items@.subrange(0, i + 1).drop_last() =~= items@.subrange(0, i as int));
                    assert(collected(names@, descriptions@) =~= join(
                        start,
                        items_schema_terms(items@.subrange(0, i + 1)),
                    ));
                }
                i = i + 1;
            }
            proof {
                assert(items@.subrange(0, items@.len() as int) =~= items@);
            }
        },
        _ => {
            proof {
                assert(join(start, no_terms()) =~= start);
            }
        },
    }
}

} // verus!

verus! {

/// A descriptor with the search terms of its name, description and input
/// properties.
pub struct IndexedFunction {
    pub descriptor: FunctionDescriptor,
    pub name_segments: Vec<String>,
    pub description_terms: Vec<String>,
    pub input_property_name_terms: Vec<String>,
    pub input_property_description_terms: Vec<String>,
}

/// The index holds exactly the terms of its descriptor, each once.
pub open spec fn indexed(f: IndexedFunction) -> bool {
    &&& distinct_terms(f.name_segments@)
    &&& distinct_terms(f.description_terms@)
    &&& distinct_terms(f.input_property_name_terms@)
    &&& distinct_terms(f.input_property_description_terms@)
    &&& term_set(f.name_segments@) == tokens(f.descriptor.name@)
    &&& term_set(f.description_terms@) == tokens(f.descriptor.description@)
    &&& term_set(f.input_property_name_terms@) == schema_terms(f.descriptor.input_schema).names
    &&& term_set(f.input_property_description_terms@) == schema_terms(
        f.descriptor.input_schema,
    ).descriptions
}

/// Builds the search index of a descriptor.
pub fn index_function(descriptor: FunctionDescriptor) -> (f: IndexedFunction)
    ensures
        indexed(f),
        f.descriptor == descriptor,
{
    let mut names: Vec<String> = Vec::new();
    let mut descriptions: Vec<String> = Vec::new();
    proof {
        assert(collected(names@, descriptions@) =~= no_terms());
    }
    collect_input_property_terms(&descriptor.input_schema, &mut names, &mut descriptions);
    proof {
        assert(join(no_terms(), schema_terms(descriptor.input_schema)) =~= schema_terms(
            descriptor.input_schema,
        ));
    }
    let name_segments = tokenize(descriptor.name.as_str());
    let description_terms = tokenize(descriptor.description.as_str());
    IndexedFunction {
        name_segments,
        description_terms,
        input_property_name_terms: names,
        input_property_description_terms: descriptions,
        descriptor,
    }
}

/// How well a function matches a query; compared field by field, the
/// first field deciding.
#[derive(Clone, Copy, PartialEq, Eq, Structural)]
pub struct SearchRank {
    pub exact_full_name: bool,
    pub name_segments: usize,
    pub description_terms: usize,
    pub input_property_name_terms: usize,
    pub input_property_description_terms: usize,
}

/// The rank of a function for a query and its terms.
pub open spec fn rank_of(f: FunctionDescriptor, query: Seq<char>) -> SearchRank {
    let q = tokens(query);
    let p = schema_terms(f.input_schema);
    SearchRank {
        exact_full_name: eq_ignore_ascii_case(query, f.name@),
        name_segments: q.intersect(tokens(f.name@)).len() as usize,
        description_terms: q.intersect(tokens(f.description@)).len() as usize,
        input_property_name_terms: q.intersect(p.names).len() as usize,
        input_property_description_terms: q.intersect(p.descriptions).len() as usize,
    }
}

/// The rank with no match at all.
pub open spec fn is_zero_rank(r: SearchRank) -> bool {
    !r.exact_full_name && r.name_segments == 0 && r.description_terms == 0
        && r.input_property_name_terms == 0 && r.input_property_description_terms == 0
}

/// `a` ranks strictly above `b`.
pub open spec fn rank_above(a: SearchRank, b: SearchRank) -> bool {
    if a.exact_full_name != b.exact_full_name {
        a.exact_full_name
    } else if a.name_segments != b.name_segments {
        a.name_segments > b.name_segments
    } else if a.description_terms != b.description_terms {
        a.description_terms > b.description_terms
    } else if a.input_property_name_terms != b.input_property_name_terms {
        a.input_property_name_terms > b.input_property_name_terms
    } else {
        a.input_property_description_terms > b.input_property_description_terms
    }
}

/// The search ranks lexicographically: an exact full-name match first, then
/// more name-segment matches, then more description-term matches, then more
/// input property name matches, then more input property description
/// matches; an earlier criterion decides whatever the later ones say, and no
/// two ranks each rank above the other.
pub proof fn lemma_rank_order_is_lexicographic(a: SearchRank, b: SearchRank)
    ensures
        a.exact_full_name && !b.exact_full_name ==> rank_above(a, b),
        a.exact_full_name == b.exact_full_name && a.name_segments > b.name_segments ==> rank_above(a, b),
        a.exact_full_name == b.exact_full_name && a.name_segments == b.name_segments && a.description_terms
            > b.description_terms ==> rank_above(a, b),
        a.exact_full_name == b.exact_full_name && a.name_segments == b.name_segments && a.description_terms
            == b.description_terms && a.input_property_name_terms > b.input_property_name_terms ==> rank_above(a, b),
        a.exact_full_name == b.exact_full_name && a.name_segments == b.name_segments && a.description_terms
            == b.description_terms && a.input_property_name_terms == b.input_property_name_terms
            && a.input_property_description_terms > b.input_property_description_terms ==> rank_above(a, b),
        !(rank_above(a, b) && rank_above(b, a)),
        a == b ==> !rank_above(a, b),
{
}

pub fn rank_is_above(a: &SearchRank, b: &SearchRank) -> (r: bool)
    ensures
        r == rank_above(*a, *b),
{
    if a.exact_full_name != b.exact_full_name {
        a.exact_full_name
    } else if a.name_segments != b.name_segments {
        a.name_segments > b.name_segments
    } else if a.description_terms != b.description_terms {
        a.description_terms > b.description_terms
    } else if a.input_property_name_terms != b.input_property_name_terms {
        a.input_property_name_terms > b.input_property_name_terms
    } else {
        a.input_property_description_terms > b.input_property_description_terms
    }
}

/// Ranks an indexed function against a query and the query's terms.
pub fn search_rank(function: &IndexedFunction, query: &str, query_terms: &Vec<String>) -> (r:
    SearchRank)
    requires
        indexed(*function),
        distinct_terms(query_terms@),
        term_set(query_terms@) == tokens(query@),
    ensures
        r == rank_of(function.descriptor, query@),
{
    SearchRank {
        exact_full_name: str_eq_ignore_ascii_case(query, function.descriptor.name.as_str()),
        name_segments: count_common(query_terms, &function.name_segments),
        description_terms: count_common(query_terms, &function.description_terms),
        input_property_name_terms: count_common(query_terms, &function.input_property_name_terms),
        input_property_description_terms: count_common(
            query_terms,
            &function.input_property_description_terms,
        ),
    }
}

} // verus!

verus! {

/// Something the search orders: by rank, highest first, then by name.
pub trait Orderable {
    spec fn rank_key(&self) -> SearchRank;

    spec fn name_key(&self) -> Seq<char>;

    fn rank(&self) -> (r: SearchRank)
        ensures
            r == self.rank_key(),
    ;

    fn name(&self) -> (r: &str)
        ensures
            r@ == self.name_key(),
    ;
}

/// A function's rank, name and position, as the search orders them.
pub struct Ranked {
    pub rank: SearchRank,
    pub name: String,
    pub index: usize,
}

impl Orderable for Ranked {
    open spec fn rank_key(&self) -> SearchRank {
        self.rank
    }

    open spec fn name_key(&self) -> Seq<char> {
        self.name@
    }

    fn rank(&self) -> (r: SearchRank) {
        self.rank
    }

    fn name(&self) -> (r: &str) {
        self.name.as_str()
    }
}

/// Functions of the API are listed by name alone.
impl Orderable for IndexedFunction {
    open spec fn rank_key(&self) -> SearchRank {
        zero_rank()
    }

    open spec fn name_key(&self) -> Seq<char> {
        self.descriptor.name@
    }

    fn rank(&self) -> (r: SearchRank) {
        SearchRank {
            exact_full_name: false,
            name_segments: 0,
            description_terms: 0,
            input_property_name_terms: 0,
            input_property_description_terms: 0,
        }
    }

    fn name(&self) -> (r: &str) {
        self.descriptor.name.as_str()
    }
}

pub open spec fn zero_rank() -> SearchRank {
    SearchRank {
        exact_full_name: false,
        name_segments: 0,
        description_terms: 0,
        input_property_name_terms: 0,
        input_property_description_terms: 0,
    }
}

/// `a` comes first: it ranks higher, or ranks the same with a smaller name.
pub open spec fn ranked_before<T: Orderable>(a: T, b: T) -> bool {
    rank_above(a.rank_key(), b.rank_key()) || (a.rank_key() == b.rank_key() && lex_less(
        a.name_key(),
        b.name_key(),
    ))
}

pub open spec fn sorted_ranked<T: Orderable>(s: Seq<T>) -> bool {
    forall|i: int, j: int| 0 <= i < j < s.len() ==> ranked_before(#[trigger] s[i], #[trigger] s[j])
}

pub open spec fn distinct_ranked_names<T: Orderable>(s: Seq<T>) -> bool {
    forall|i: int, j: int|
        0 <= i < j < s.len() ==> #[trigger] s[i].name_key() != #[trigger] s[j].name_key()
}

/// The search order is transitive.
pub proof fn lemma_ranked_before_transitive<T: Orderable>(a: T, b: T, c: T)
    requires
        ranked_before(a, b),
        ranked_before(b, c),
    ensures
        ranked_before(a, c),
{
    if a.rank_key() == b.rank_key() && b.rank_key() == c.rank_key() {
        lemma_lex_transitive(a.name_key(), b.name_key(), c.name_key());
    }
}

/// Of two entries with different names, one comes first.
pub proof fn lemma_ranked_before_total<T: Orderable>(a: T, b: T)
    requires
        a.name_key() != b.name_key(),
    ensures
        ranked_before(a, b) || ranked_before(b, a),
{
    lemma_lex_total(a.name_key(), b.name_key());
}

/// No two entries each come before the other.
pub proof fn lemma_ranked_before_asymmetric<T: Orderable>(a: T, b: T)
    ensures
        !(ranked_before(a, b) && ranked_before(b, a)),
{
    lemma_lex_asymmetric(a.name_key(), b.name_key());
}

fn ranked_is_before<T: Orderable>(a: &T, b: &T) -> (r: bool)
    ensures
        r == ranked_before(*a, *b),
{
    let ra = a.rank();
    let rb = b.rank();
    if rank_is_above(&ra, &rb) {
        return true;
    }
    if ra == rb {
        str_less(a.name(), b.name())
    } else {
        false
    }
}

/// Orders entries with distinct names: higher ranks first, then by name.
pub fn sort_ranked<T: Orderable>(input: Vec<T>) -> (out: Vec<T>)
    requires
        distinct_ranked_names(input@),
    ensures
        out@.to_multiset() == input@.to_multiset(),
        sorted_ranked(out@),
        distinct_ranked_names(out@),
{
    broadcast use vstd::seq_lib::group_to_multiset_ensures;

    let mut rest = input;
    let mut sorted: Vec<T> = Vec::new();
    proof {
        assert(sorted@.to_multiset() =~= vstd::multiset::Multiset::<T>::empty());
        assert(rest@.to_multiset().add(sorted@.to_multiset()) =~= input@.to_multiset());
    }
    while rest.len() > 0
        invariant
            rest@.to_multiset().add(sorted@.to_multiset()) == input@.to_multiset(),
            distinct_ranked_names(rest@),
            distinct_ranked_names(sorted@),
            sorted_ranked(sorted@),
            forall|i: int, j: int|
                0 <= i < rest@.len() && 0 <= j < sorted@.len() ==> #[trigger] rest@[i].name_key()
                    != #[trigger] sorted@[j].name_key(),
        decreases rest@.len(),
    {
        let ghost before_rest = rest@;
        let x = rest.pop().unwrap();
        proof {
            assert(before_rest =~= rest@.push(x));
            assert forall|j: int| 0 <= j < sorted@.len() implies #[trigger] sorted@[j].name_key() != x.name_key() by {
                assert(before_rest[before_rest.len() - 1] == x);
            }
        }
        let mut p: usize = 0;
        while p < sorted.len() && ranked_is_before(&sorted[p], &x)
            invariant
                p <= sorted@.len(),
                forall|j: int| 0 <= j < p ==> ranked_before(#[trigger] sorted@[j], x),
            decreases sorted@.len() - p,
        {
            p = p + 1;
        }
        let ghost old_sorted = sorted@;
        proof {
            if p < old_sorted.len() {
                lemma_ranked_before_total(old_sorted[p as int], x);
                assert forall|j: int| p <= j < old_sorted.len() implies ranked_before(x, #[trigger] old_sorted[j]) by {
                    if j > p {
                        lemma_ranked_before_transitive(x, old_sorted[p as int], old_sorted[j]);
                    }
                }
            }
        }
        sorted.insert(p, x);
        proof {
            assert(sorted@ == old_sorted.insert(p as int, x));
            assert forall|i: int, j: int| 0 <= i < j < sorted@.len() implies ranked_before(
                #[trigger] sorted@[i],
                #[trigger] sorted@[j],
            ) by {
                if i < p && j < p {
                    assert(sorted@[i] == old_sorted[i]);
                    assert(sorted@[j] == old_sorted[j]);
                } else if i < p && j == p {
                    assert(sorted@[i] == old_sorted[i]);
                } else if i < p && j > p {
                    assert(sorted@[i] == old_sorted[i]);
                    assert(sorted@[j] == old_sorted[j - 1]);
                } else if i == p {
                    assert(sorted@[j] == old_sorted[j - 1]);
                } else {
                    assert(sorted@[i] == old_sorted[i - 1]);
                    assert(sorted@[j] == old_sorted[j - 1]);
                }
            }
            assert forall|i: int, j: int| 0 <= i < j < sorted@.len() implies #[trigger] sorted@[i].name_key()
                != #[trigger] sorted@[j].name_key() by {
                if i < p && j < p {
                    assert(sorted@[i] == old_sorted[i]);
                    assert(sorted@[j] == old_sorted[j]);
                } else if i < p && j == p {
                    assert(sorted@[i] == old_sorted[i]);
                } else if i < p && j > p {
                    assert(sorted@[i] == old_sorted[i]);
                    assert(sorted@[j] == old_sorted[j - 1]);
                } else if i == p {
                    assert(sorted@[j] == old_sorted[j - 1]);
                } else {
                    assert(sorted@[i] == old_sorted[i - 1]);
                    assert(sorted@[j] == old_sorted[j - 1]);
                }
            }
            assert forall|i: int, j: int|
                0 <= i < rest@.len() && 0 <= j < sorted@.len() implies #[trigger] rest@[i].name_key()
                != #[trigger] sorted@[j].name_key() by {
                assert(before_rest[i] == rest@[i]);
                assert(before_rest[before_rest.len() - 1] == x);
                if j < p {
                    assert(sorted@[j] == old_sorted[j]);
                } else if j > p {
                    assert(sorted@[j] == old_sorted[j - 1]);
                }
            }
            vstd::seq_lib::to_multiset_build(rest@, x);
            vstd::seq_lib::to_multiset_insert(old_sorted, p as int, x);
            broadcast use vstd::multiset::group_multiset_axioms;
            assert(rest@.to_multiset().add(sorted@.to_multiset()) =~= before_rest.to_multiset().add(
                old_sorted.to_multiset(),
            ));
        }
    }
    proof {
        assert(rest@.to_multiset() =~= vstd::multiset::Multiset::<T>::empty());
        assert(sorted@.to_multiset() =~= input@.to_multiset());
    }
    sorted
}

} // verus!


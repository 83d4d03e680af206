use vstd::prelude::*;

use crate::codemode::{
    limits_valid, validate_limits, Error, FunctionDescriptor, Limits, SearchInput, SearchMatch,
    SearchOutput,
};
use crate::json::{json_string_size, string_size};
use crate::search::{
    distinct_ranked_names, index_function, indexed, is_zero_rank, rank_of, ranked_before,
    search_rank, sort_ranked, sorted_ranked, tokenize, IndexedFunction, Orderable, Ranked,
};
use crate::terms::{distinct_terms, term_set};
use crate::text::{
    add_capped, capped, chars_of, char_is_ascii_alnum, char_is_ascii_lower, char_is_ascii_upper,
    concat2, concat3, copy_str, has_prefix, is_ascii_alnum, is_ascii_alpha, lex_less, str_eq,
    byte_len, strip_prefix, trim, trim_spec, utf8_size,
};
use crate::search::tokens;

verus! {

pub open spec fn is_identifier_start(c: char) -> bool {
    c == '_' || c == '$' || is_ascii_alpha(c)
}

pub open spec fn is_identifier_part(c: char) -> bool {
    c == '_' || c == '$' || is_ascii_alnum(c)
}

/// A TypeScript identifier of ASCII letters, digits, `_` and `$`.
pub open spec fn is_identifier(s: Seq<char>) -> bool {
    &&& s.len() > 0
    &&& is_identifier_start(s[0])
    &&& forall|k: int| 1 <= k < s.len() ==> #[trigger] is_identifier_part(s[k])
}

/// What is wrong with a descriptor on its own, if anything: an empty
/// operation, a name outside the `S2.` namespace, or a local name that is no
/// identifier.
pub open spec fn descriptor_problem(d: FunctionDescriptor) -> Option<Seq<char>> {
    name_problem(d.operation@, d.name@)
}

/// What is wrong with an operation and function name on their own, if
/// anything.
pub open spec fn name_problem(operation: Seq<char>, name: Seq<char>) -> Option<Seq<char>> {
    if operation.len() == 0 {
        Some("operation name is empty"@)
    } else if !has_prefix(name, "S2."@) {
        Some("function `"@ + name + "` is not in the S2 namespace"@)
    } else if !is_identifier(name.subrange("S2."@.len() as int, name.len() as int)) {
        Some("function name `"@ + name + "` is not a supported TypeScript identifier"@)
    } else {
        None
    }
}

fn validate_descriptor(descriptor: &FunctionDescriptor) -> (r: Result<(), Error>)
    ensures
        r is Ok <==> descriptor_problem(*descriptor) is None,
        r matches Err(e) ==> e matches Error::InvalidDescriptor(m) && Some(m@) == descriptor_problem(
            *descriptor,
        ),
{
    if descriptor.operation.as_str().unicode_len() == 0 {
        return Err(Error::InvalidDescriptor(copy_str("operation name is empty")));
    }
    let local = strip_prefix(descriptor.name.as_str(), "S2.");
    match local {
        None => Err(
            Error::InvalidDescriptor(
                concat3("function `", descriptor.name.as_str(), "` is not in the S2 namespace"),
            ),
        ),
        Some(local_name) => {
            let characters = chars_of(local_name.as_str());
            let valid_first = characters.len() > 0 && (characters[0] == '_' || characters[0] == '$'
                || char_is_ascii_lower(characters[0]) || char_is_ascii_upper(characters[0]));
            let mut valid = valid_first;
            let mut k: usize = 1;
            while valid && k < characters.len()
                invariant
                    valid ==> (forall|j: int| 1 <= j < k ==> #[trigger] is_identifier_part(characters@[j])),
                    !valid ==> !is_identifier(characters@),
                    valid ==> valid_first,
                    valid_first == (characters@.len() > 0 && is_identifier_start(characters@[0])),
                    1 <= k,
                decreases characters@.len() - k, if valid { 1int } else { 0int },
            {
                let c = characters[k];
                if !(c == '_' || c == '$' || char_is_ascii_alnum(c)) {
                    assert(!is_identifier_part(characters@[k as int]));
                    valid = false;
                } else {
                    k = k + 1;
                }
            }
            if valid {
                Ok(())
            } else {
                Err(
                    Error::InvalidDescriptor(
                        concat3(
                            "function name `",
                            descriptor.name.as_str(),
                            "` is not a supported TypeScript identifier",
                        ),
                    ),
                )
            }
        },
    }
}

} // verus!

verus! {

/// What keeps descriptor `i` out of the API: a problem of its own, or an
/// operation or name that an earlier descriptor already uses.
pub open spec fn new_problem(ds: Seq<FunctionDescriptor>, i: int) -> Option<Seq<char>> {
    match descriptor_problem(ds[i]) {
        Some(m) => Some(m),
        None => if exists|j: int| 0 <= j < i && #[trigger] ds[j].operation@ == ds[i].operation@ {
            Some("operation `"@ + ds[i].operation@ + "` is duplicated"@)
        } else if exists|j: int| 0 <= j < i && #[trigger] ds[j].name@ == ds[i].name@ {
            Some("function name `"@ + ds[i].name@ + "` is duplicated"@)
        } else {
            None
        },
    }
}

/// Descriptor `i` is the first that has a problem.
pub open spec fn first_problem(ds: Seq<FunctionDescriptor>, i: int) -> bool {
    &&& 0 <= i < ds.len()
    &&& new_problem(ds, i) is Some
    &&& forall|j: int| 0 <= j < i ==> #[trigger] new_problem(ds, j) is None
}

/// The operation and function name of each descriptor.
pub open spec fn listing_keys(ds: Seq<FunctionDescriptor>) -> Seq<(Seq<char>, Seq<char>)> {
    Seq::new(ds.len(), |i: int| (ds[i].operation@, ds[i].name@))
}

/// What keeps entry `i` of a listing of operation and function names out of
/// the API: a problem of its own, or an operation or name that an earlier
/// entry already uses.
pub open spec fn listing_problem(keys: Seq<(Seq<char>, Seq<char>)>, i: int) -> Option<Seq<char>> {
    match name_problem(keys[i].0, keys[i].1) {
        Some(m) => Some(m),
        None => if exists|j: int| 0 <= j < i && #[trigger] keys[j].0 == keys[i].0 {
            Some("operation `"@ + keys[i].0 + "` is duplicated"@)
        } else if exists|j: int| 0 <= j < i && #[trigger] keys[j].1 == keys[i].1 {
            Some("function name `"@ + keys[i].1 + "` is duplicated"@)
        } else {
            None
        },
    }
}

/// The problem of the first of the first `n` entries that has one.
pub open spec fn first_listing_problem(keys: Seq<(Seq<char>, Seq<char>)>, n: int) -> Option<Seq<char>>
    decreases n,
{
    if n <= 0 {
        None
    } else {
        match first_listing_problem(keys, n - 1) {
            Some(m) => Some(m),
            None => listing_problem(keys, n - 1),
        }
    }
}

/// A descriptor's problem is that of its operation and function name in the
/// listing.
pub proof fn lemma_new_problem_listing(ds: Seq<FunctionDescriptor>, i: int)
    requires
        0 <= i < ds.len(),
    ensures
        new_problem(ds, i) == listing_problem(listing_keys(ds), i),
{
    let keys = listing_keys(ds);
    assert(keys[i] == (ds[i].operation@, ds[i].name@));
    if exists|j: int| 0 <= j < i && #[trigger] ds[j].operation@ == ds[i].operation@ {
        let j = choose|j: int| 0 <= j < i && #[trigger] ds[j].operation@ == ds[i].operation@;
        assert(keys[j].0 == keys[i].0);
    }
    if exists|j: int| 0 <= j < i && #[trigger] keys[j].0 == keys[i].0 {
        let j = choose|j: int| 0 <= j < i && #[trigger] keys[j].0 == keys[i].0;
        assert(ds[j].operation@ == ds[i].operation@);
    }
    if exists|j: int| 0 <= j < i && #[trigger] ds[j].name@ == ds[i].name@ {
        let j = choose|j: int| 0 <= j < i && #[trigger] ds[j].name@ == ds[i].name@;
        assert(keys[j].1 == keys[i].1);
    }
    if exists|j: int| 0 <= j < i && #[trigger] keys[j].1 == keys[i].1 {
        let j = choose|j: int| 0 <= j < i && #[trigger] keys[j].1 == keys[i].1;
        assert(ds[j].name@ == ds[i].name@);
    }
}

/// The first problem of a listing is none exactly when no entry has one,
/// and otherwise that of the first entry that has one.
pub proof fn lemma_first_listing_problem(keys: Seq<(Seq<char>, Seq<char>)>, n: int)
    requires
        0 <= n <= keys.len(),
    ensures
        first_listing_problem(keys, n) is None <==> forall|i: int| 0 <= i < n ==> #[trigger] listing_problem(keys, i) is None,
        forall|i: int| 0 <= i < n && listing_problem(keys, i) is Some && (forall|j: int| 0 <= j < i ==> #[trigger] listing_problem(keys, j) is None)
            ==> first_listing_problem(keys, n) == #[trigger] listing_problem(keys, i),
    decreases n,
{
    if n > 0 {
        lemma_first_listing_problem(keys, n - 1);
        assert forall|i: int| 0 <= i < n && listing_problem(keys, i) is Some && (forall|j: int| 0 <= j < i ==> #[trigger] listing_problem(keys, j) is None)
            implies first_listing_problem(keys, n) == #[trigger] listing_problem(keys, i) by {
            if i < n - 1 {
                assert(first_listing_problem(keys, n - 1) == listing_problem(keys, i));
            } else {
                assert(first_listing_problem(keys, n - 1) is None);
            }
        }
    }
}

/// The generated TypeScript API: functions listed by name, each indexed for
/// search.
pub struct CodeMode {
    functions: Vec<IndexedFunction>,
}

impl CodeMode {
    /// The functions, in name order.
    pub closed spec fn entries(&self) -> Seq<IndexedFunction> {
        self.functions@
    }

    #[verifier::type_invariant]
    closed spec fn well_formed(&self) -> bool {
        &&& forall|i: int| 0 <= i < self.functions@.len() ==> indexed(#[trigger] self.functions@[i])
        &&& sorted_ranked(self.functions@)
        &&& distinct_ranked_names(self.functions@)
    }

    /// Validates the descriptors and builds the API, listed by name.
    pub fn new(descriptors: Vec<FunctionDescriptor>) -> (r: Result<Self, Error>)
        ensures
            r is Ok <==> forall|i: int| 0 <= i < descriptors@.len() ==> #[trigger] new_problem(descriptors@, i) is None,
            r matches Err(e) ==> exists|i: int| #[trigger] first_problem(descriptors@, i) && (e matches Error::InvalidDescriptor(m) && Some(m@) == new_problem(descriptors@, i)),
            r matches Ok(api) ==> {
                &&& api.entries().len() == descriptors@.len()
                &&& forall|i: int| 0 <= i < descriptors@.len() ==> exists|j: int| 0 <= j < api.entries().len() && #[trigger] api.entries()[j].descriptor == #[trigger] descriptors@[i]
                &&& forall|j: int| 0 <= j < api.entries().len() ==> exists|i: int| 0 <= i < descriptors@.len() && #[trigger] api.entries()[j].descriptor == #[trigger] descriptors@[i]
                &&& forall|a: int, b: int| 0 <= a < b < api.entries().len() ==> lex_less(
                    #[trigger] api.entries()[a].descriptor.name@,
                    #[trigger] api.entries()[b].descriptor.name@,
                )
            },
    {
        let mut i: usize = 0;
        while i < descriptors.len()
            invariant
                i <= descriptors@.len(),
                forall|j: int| 0 <= j < i ==> #[trigger] new_problem(descriptors@, j) is None,
            decreases descriptors@.len() - i,
        {
            if let Err(e) = validate_descriptor(&descriptors[i]) {
                assert(first_problem(descriptors@, i as int));
                return Err(e);
            }
            let mut j: usize = 0;
            while j < i
                invariant
                    i < descriptors@.len(),
                    j <= i,
                    descriptor_problem(descriptors@[i as int]) is None,
                    forall|k: int| 0 <= k < i ==> #[trigger] new_problem(descriptors@, k) is None,
                    forall|k: int| 0 <= k < j ==> #[trigger] descriptors@[k].operation@ != descriptors@[i as int].operation@,
                decreases i - j,
            {
                if str_eq(descriptors[j].operation.as_str(), descriptors[i].operation.as_str()) {
                    assert(descriptors@[j as int].operation@ == descriptors@[i as int].operation@);
                    assert(first_problem(descriptors@, i as int));
                    return Err(
                        Error::InvalidDescriptor(
                            concat3("operation `", descriptors[i].operation.as_str(), "` is duplicated"),
                        ),
                    );
                }
                j = j + 1;
            }
            let mut j: usize = 0;
            while j < i
                invariant
                    i < descriptors@.len(),
                    j <= i,
                    descriptor_problem(descriptors@[i as int]) is None,
                    forall|k: int| 0 <= k < i ==> #[trigger] new_problem(descriptors@, k) is None,
                    forall|k: int| 0 <= k < i ==> #[trigger] descriptors@[k].operation@ != descriptors@[i as int].operation@,
                    forall|k: int| 0 <= k < j ==> #[trigger] descriptors@[k].name@ != descriptors@[i as int].name@,
                decreases i - j,
            {
                if str_eq(descriptors[j].name.as_str(), descriptors[i].name.as_str()) {
                    assert(descriptors@[j as int].name@ == descriptors@[i as int].name@);
                    assert(first_problem(descriptors@, i as int));
                    return Err(
                        Error::InvalidDescriptor(
                            concat3("function name `", descriptors[i].name.as_str(), "` is duplicated"),
                        ),
                    );
                }
                j = j + 1;
            }
            assert(new_problem(descriptors@, i as int) is None);
            i = i + 1;
        }
        let ghost initial = descriptors@;
        let n = descriptors.len();
        let mut rest = descriptors;
        let mut functions: Vec<IndexedFunction> = Vec::new();
        while rest.len() > 0
            invariant
                rest@.len() + functions@.len() == n,
                n == initial.len(),
                rest@ == initial.subrange(0, rest@.len() as int),
                forall|k: int| 0 <= k < functions@.len() ==> #[trigger] functions@[k].descriptor == initial[n - 1 - k],
                forall|k: int| 0 <= k < functions@.len() ==> indexed(#[trigger] functions@[k]),
            decreases rest@.len(),
        {
            let ghost before = rest@;
            let d = rest.pop().unwrap();
            assert(rest@ =~= initial.subrange(0, rest@.len() as int));
            functions.push(index_function(d));
        }
        proof {
            assert forall|a: int, b: int| 0 <= a < b < functions@.len() implies #[trigger] functions@[a].name_key() != #[trigger] functions@[b].name_key() by {
                let ia = n - 1 - a;
                let ib = n - 1 - b;
                assert(functions@[a].descriptor == initial[ia]);
                assert(functions@[b].descriptor == initial[ib]);
                assert(new_problem(initial, ia) is None);
            }
        }
        let ghost unsorted = functions@;
        let sorted = sort_ranked(functions);
        proof {
            assert forall|k: int| 0 <= k < sorted@.len() implies indexed(#[trigger] sorted@[k]) by {
                vstd::seq_lib::to_multiset_contains(sorted@, sorted@[k]);
                vstd::seq_lib::to_multiset_contains(unsorted, sorted@[k]);
            }
            assert forall|i: int| 0 <= i < initial.len() implies exists|j: int| 0 <= j < sorted@.len() && #[trigger] sorted@[j].descriptor == #[trigger] initial[i] by {
                let f = unsorted[n - 1 - i];
                vstd::seq_lib::to_multiset_contains(unsorted, f);
                vstd::seq_lib::to_multiset_contains(sorted@, f);
                let j = choose|j: int| 0 <= j < sorted@.len() && sorted@[j] == f;
                assert(sorted@[j].descriptor == initial[i]);
            }
            assert forall|j: int| 0 <= j < sorted@.len() implies exists|i: int| 0 <= i < initial.len() && #[trigger] sorted@[j].descriptor == #[trigger] initial[i] by {
                vstd::seq_lib::to_multiset_contains(sorted@, sorted@[j]);
                vstd::seq_lib::to_multiset_contains(unsorted, sorted@[j]);
                let k = choose|k: int| 0 <= k < unsorted.len() && unsorted[k] == sorted@[j];
                assert(sorted@[j].descriptor == initial[n - 1 - k]);
            }
            vstd::seq_lib::to_multiset_len(sorted@);
            vstd::seq_lib::to_multiset_len(unsorted);
        }
        let ghost sorted_view = sorted@;
        let api = CodeMode { functions: sorted };
        assert(api.entries() == sorted_view);
        assert(api.entries().len() == initial.len());
        assert forall|j: int| 0 <= j < api.entries().len() implies exists|i: int| 0 <= i < initial.len() && #[trigger] api.entries()[j].descriptor == #[trigger] initial[i] by {
            assert(sorted_view[j] == api.entries()[j]);
        }
        assert forall|a: int, b: int| 0 <= a < b < api.entries().len() implies lex_less(
            #[trigger] api.entries()[a].descriptor.name@,
            #[trigger] api.entries()[b].descriptor.name@,
        ) by {
            assert(ranked_before(sorted_view[a], sorted_view[b]));
        }
        Ok(api)
    }

    /// The descriptors of the API, in name order.
    pub fn descriptors(&self) -> (ds: Vec<&FunctionDescriptor>)
        ensures
            ds@.len() == self.entries().len(),
            forall|i: int| 0 <= i < ds@.len() ==> *#[trigger] ds@[i] == self.entries()[i].descriptor,
            forall|a: int, b: int| 0 <= a < b < ds@.len() ==> lex_less(#[trigger] ds@[a].name@, #[trigger] ds@[b].name@),
    {
        proof {
            use_type_invariant(self);
        }
        let mut ds: Vec<&FunctionDescriptor> = Vec::new();
        let mut i: usize = 0;
        while i < self.functions.len()
            invariant
                i <= self.functions@.len(),
                ds@.len() == i,
                forall|k: int| 0 <= k < i ==> *#[trigger] ds@[k] == self.functions@[k].descriptor,
            decreases self.functions@.len() - i,
        {
            ds.push(&self.functions[i].descriptor);
            i = i + 1;
        }
        assert forall|a: int, b: int| 0 <= a < b < ds@.len() implies lex_less(#[trigger] ds@[a].name@, #[trigger] ds@[b].name@) by {
            assert(ranked_before(self.functions@[a], self.functions@[b]));
        }
        ds
    }
}

} // verus!

verus! {

pub const DEFAULT_SEARCH_RESULTS: usize = 8;

pub const MAX_SEARCH_RESULTS: usize = 25;

pub const MAX_SEARCH_OUTPUT_BYTES: usize = 262144;

/// A function takes part in a search when the query is empty or the
/// function matches it somewhere.
pub open spec fn qualifies(d: FunctionDescriptor, query: Seq<char>) -> bool {
    query.len() == 0 || !is_zero_rank(rank_of(d, query))
}

/// `order` lists the functions of `api` that take part in the search for
/// `query`, each once, with its rank and name, highest rank first and then
/// by name.
pub open spec fn search_order(api: Seq<IndexedFunction>, query: Seq<char>, order: Seq<Ranked>) -> bool {
    &&& sorted_ranked(order)
    &&& forall|k: int|
        0 <= k < order.len() ==> {
            &&& #[trigger] order[k].index < api.len()
            &&& order[k].rank == rank_of(api[order[k].index as int].descriptor, query)
            &&& order[k].name@ == api[order[k].index as int].descriptor.name@
        }
    &&& forall|k1: int, k2: int|
        0 <= k1 < k2 < order.len() ==> #[trigger] order[k1].index != #[trigger] order[k2].index
    &&& forall|i: int|
        0 <= i < api.len() ==> (qualifies(#[trigger] api[i].descriptor, query) <==> exists|k: int|
            0 <= k < order.len() && #[trigger] order[k].index == i)
}

/// The descriptors in search order.
pub open spec fn ordered(api: Seq<IndexedFunction>, order: Seq<Ranked>) -> Seq<FunctionDescriptor> {
    order.map_values(|r: Ranked| api[r.index as int].descriptor)
}

/// Bytes of one match object in compact JSON.
pub open spec fn match_size(d: FunctionDescriptor) -> nat {
    37 + string_size(d.name@) + string_size(d.description@) + string_size(d.signature@)
}

/// Bytes of the comma-separated match objects.
pub open spec fn matches_size(ds: Seq<FunctionDescriptor>) -> nat
    decreases ds.len(),
{
    if ds.len() == 0 {
        0
    } else {
        matches_size(ds.drop_last()) + match_size(ds.last()) + if ds.len() == 1 {
            0nat
        } else {
            1nat
        }
    }
}

/// The cursor that resumes a search after function `name`.
pub open spec fn cursor_text(name: Seq<char>) -> Seq<char> {
    "v1:"@ + name
}

/// Bytes of a search output in compact JSON.
pub open spec fn page_size(ds: Seq<FunctionDescriptor>, cursor: Option<Seq<char>>) -> nat {
    29 + matches_size(ds) + match cursor {
        Some(c) => string_size(c),
        None => 4,
    }
}

/// The cursor of a page of `count` functions from `start`: present when
/// functions remain after it.
pub open spec fn page_cursor(ds: Seq<FunctionDescriptor>, start: int, count: int) -> Option<Seq<char>> {
    if count > 0 && start + count < ds.len() {
        Some(cursor_text(ds[start + count - 1].name@))
    } else {
        None
    }
}

pub open spec fn page_fits(ds: Seq<FunctionDescriptor>, start: int, count: int) -> bool {
    page_size(ds.subrange(start, start + count), page_cursor(ds, start, count))
        <= MAX_SEARCH_OUTPUT_BYTES
}

/// A page shows `count` functions from `start`: as many as the limit and the
/// remaining functions allow, stopping before the first page that would
/// exceed the output bound.
pub open spec fn page_count(ds: Seq<FunctionDescriptor>, start: int, limit: int, count: int) -> bool {
    let most = if limit < ds.len() - start {
        limit
    } else {
        ds.len() - start
    };
    &&& 0 <= count <= most
    &&& forall|j: int| 1 <= j <= count ==> #[trigger] page_fits(ds, start, j)
    &&& count == most || !page_fits(ds, start, count + 1)
}

/// Where a search resumes: at the start without a cursor, after the named
/// function with a valid one.
pub open spec fn cursor_start(ds: Seq<FunctionDescriptor>, cursor: Option<String>) -> Result<int, Seq<char>> {
    match cursor {
        None => Ok(0),
        Some(c) => if !has_prefix(c@, "v1:"@) {
            Err("search cursor is invalid"@)
        } else if exists|k: int|
            0 <= k < ds.len() && #[trigger] ds[k].name@ == c@.subrange(
                "v1:"@.len() as int,
                c@.len() as int,
            ) {
            Ok(
                (choose|k: int|
                    0 <= k < ds.len() && #[trigger] ds[k].name@ == c@.subrange(
                        "v1:"@.len() as int,
                        c@.len() as int,
                    )) + 1,
            )
        } else {
            Err("search cursor is invalid for this query"@)
        },
    }
}

/// A page's next cursor resumes the search right after the page: where the
/// listed names are distinct, searching again with that cursor starts at the
/// first function the page did not show.
pub proof fn lemma_next_cursor_resumes(ds: Seq<FunctionDescriptor>, start: int, count: int, cursor: String)
    requires
        0 <= start,
        forall|i: int, j: int| 0 <= i < j < ds.len() ==> #[trigger] ds[i].name@ != #[trigger] ds[j].name@,
        page_cursor(ds, start, count) == Some(cursor@),
    ensures
        cursor_start(ds, Some(cursor)) == Ok::<int, Seq<char>>(start + count),
{
    reveal_strlit("v1:");
    let last = start + count - 1;
    let name = ds[last].name@;
    assert(cursor@ == "v1:"@ + name);
    assert(cursor@.subrange(0, 3) =~= "v1:"@);
    assert(cursor@.subrange(3, cursor@.len() as int) =~= name);
    assert(has_prefix(cursor@, "v1:"@));
    assert(0 <= last < ds.len() && ds[last].name@ == cursor@.subrange("v1:"@.len() as int, cursor@.len() as int));
    let k = choose|k: int|
        0 <= k < ds.len() && #[trigger] ds[k].name@ == cursor@.subrange(
            "v1:"@.len() as int,
            cursor@.len() as int,
        );
    assert(k == last);
}

/// The functions shown by consecutive pages of `ds`, the `k`-th page
/// showing `counts[k]` functions from `starts[k]`.
pub open spec fn pages_of(ds: Seq<FunctionDescriptor>, starts: Seq<int>, counts: Seq<int>) -> Seq<FunctionDescriptor>
    decreases starts.len(),
{
    if starts.len() == 0 || counts.len() == 0 {
        Seq::empty()
    } else {
        pages_of(ds, starts.drop_last(), counts.drop_last()) + ds.subrange(starts.last(), starts.last() + counts.last())
    }
}

proof fn lemma_pages_prefix(ds: Seq<FunctionDescriptor>, starts: Seq<int>, counts: Seq<int>, limit: int, n: int)
    requires
        starts.len() == counts.len(),
        0 < n <= starts.len(),
        starts[0] == 0,
        forall|k: int| 0 <= k < starts.len() ==> #[trigger] page_count(ds, starts[k], limit, counts[k]),
        forall|k: int| 0 <= k < starts.len() ==> 0 <= #[trigger] starts[k] <= ds.len(),
        forall|k: int| 1 <= k < starts.len() ==> #[trigger] starts[k] == starts[k - 1] + counts[k - 1],
    ensures
        pages_of(ds, starts.subrange(0, n), counts.subrange(0, n)) == ds.subrange(0, starts[n - 1] + counts[n - 1]),
    decreases n,
{
    let s = starts.subrange(0, n);
    let c = counts.subrange(0, n);
    assert(s.drop_last() =~= starts.subrange(0, n - 1));
    assert(c.drop_last() =~= counts.subrange(0, n - 1));
    assert(page_count(ds, starts[n - 1], limit, counts[n - 1]));
    if n == 1 {
        assert(pages_of(ds, s.drop_last(), c.drop_last()) =~= Seq::<FunctionDescriptor>::empty());
        assert(ds.subrange(0, counts[0]) =~= Seq::<FunctionDescriptor>::empty() + ds.subrange(0, counts[0]));
    } else {
        lemma_pages_prefix(ds, starts, counts, limit, n - 1);
        assert(starts[n - 1] == starts[n - 2] + counts[n - 2]);
        assert(ds.subrange(0, starts[n - 1]) + ds.subrange(starts[n - 1], starts[n - 1] + counts[n - 1]) =~= ds.subrange(
            0,
            starts[n - 1] + counts[n - 1],
        ));
    }
}

/// Following the cursors lists every match once, in order: pages that
/// start at the first function, each shown by a search with the limit and
/// each but the first resuming where the one before ended (as its next
/// cursor makes it, see `lemma_next_cursor_resumes`), together show all of
/// `ds` when the last page has no next cursor, unless a page shows nothing
/// because a single function alone exceeds the output bound.
pub proof fn lemma_cursor_pages_list_every_match(ds: Seq<FunctionDescriptor>, starts: Seq<int>, counts: Seq<int>, limit: int)
    requires
        starts.len() == counts.len(),
        starts.len() > 0,
        starts[0] == 0,
        forall|k: int| 0 <= k < starts.len() ==> #[trigger] page_count(ds, starts[k], limit, counts[k]),
        forall|k: int| 0 <= k < starts.len() ==> 0 <= #[trigger] starts[k] <= ds.len(),
        forall|k: int| 0 <= k < starts.len() ==> #[trigger] counts[k] > 0,
        forall|k: int| 1 <= k < starts.len() ==> #[trigger] starts[k] == starts[k - 1] + counts[k - 1],
        page_cursor(ds, starts.last(), counts.last()) is None,
    ensures
        pages_of(ds, starts, counts) == ds,
{
    let n = starts.len() as int;
    lemma_pages_prefix(ds, starts, counts, limit, n);
    assert(starts.subrange(0, n) =~= starts);
    assert(counts.subrange(0, n) =~= counts);
    assert(page_count(ds, starts[n - 1], limit, counts[n - 1]));
    assert(counts[n - 1] > 0);
    assert(ds.subrange(0, ds.len() as int) =~= ds);
}

/// The limit a search applies.
pub open spec fn effective_limit(input: SearchInput) -> int {
    match input.limit {
        Some(l) => l as int,
        None => DEFAULT_SEARCH_RESULTS as int,
    }
}

/// The output shows `ds[start..start+count]` and the matching cursor.
pub open spec fn shows(out: SearchOutput, ds: Seq<FunctionDescriptor>, start: int, count: int) -> bool {
    &&& out.matches@.len() == count
    &&& forall|k: int|
        0 <= k < count ==> {
            &&& #[trigger] out.matches@[k].name@ == ds[start + k].name@
            &&& out.matches@[k].description@ == ds[start + k].description@
            &&& out.matches@[k].signature@ == ds[start + k].signature@
        }
    &&& match page_cursor(ds, start, count) {
        Some(c) => out.next_cursor matches Some(n) && n@ == c,
        None => out.next_cursor is None,
    }
}

/// What a search over `ds` in order answers for the input.
pub open spec fn search_answer(
    ds: Seq<FunctionDescriptor>,
    input: SearchInput,
    r: Result<SearchOutput, Error>,
) -> bool {
    match cursor_start(ds, input.cursor) {
        Err(m) => r matches Err(Error::InvalidSearch(e)) && e@ == m,
        Ok(start) => if start < ds.len() && !page_fits(ds, start, 1) {
            r matches Err(Error::InvalidSearch(e)) && e@
                == "one search match exceeds the 256 KiB output limit"@
        } else {
            r matches Ok(out) && exists|count: int|
                page_count(ds, start, effective_limit(input), count) && #[trigger] shows(
                    out,
                    ds,
                    start,
                    count,
                )
        },
    }
}

} // verus!

verus! {

/// Where the search resumes for `cursor`, over functions named as `ds` in
/// order.
fn cursor_position(
    ranked: &Vec<Ranked>,
    cursor: Option<String>,
    Ghost(ds): Ghost<Seq<FunctionDescriptor>>,
) -> (r: Result<usize, Error>)
    requires
        ds.len() == ranked@.len(),
        forall|k: int| 0 <= k < ds.len() ==> #[trigger] ranked@[k].name@ == ds[k].name@,
        distinct_ranked_names(ranked@),
    ensures
        match cursor_start(ds, cursor) {
            Ok(start) => r == Ok::<usize, Error>(start as usize),
            Err(m) => r matches Err(Error::InvalidSearch(e)) && e@ == m,
        },
{
    match cursor {
        None => Ok(0),
        Some(c) => {
            let ghost cursor_view = c@;
            match strip_prefix(c.as_str(), "v1:") {
                None => Err(Error::InvalidSearch(copy_str("search cursor is invalid"))),
                Some(name) => {
                    let ghost target = cursor_view.subrange("v1:"@.len() as int, cursor_view.len() as int);
                    assert(has_prefix(cursor_view, "v1:"@));
                    assert(name@ == target);
                    let mut k: usize = 0;
                    while k < ranked.len()
                        invariant
                            name@ == target,
                            cursor == Some(c),
                            cursor_view == c@,
                            has_prefix(cursor_view, "v1:"@),
                            target == cursor_view.subrange("v1:"@.len() as int, cursor_view.len() as int),
                            distinct_ranked_names(ranked@),
                            k <= ranked@.len(),
                            ds.len() == ranked@.len(),
                            forall|j: int| 0 <= j < ds.len() ==> #[trigger] ranked@[j].name@ == ds[j].name@,
                            forall|j: int| 0 <= j < k ==> #[trigger] ds[j].name@ != name@,
                        decreases ranked@.len() - k,
                    {
                        if str_eq(ranked[k].name.as_str(), name.as_str()) {
                            proof {
                                assert(ds[k as int].name@ == target);
                                assert forall|j: int| 0 <= j < ds.len() && #[trigger] ds[j].name@ == target implies j == k by {
                                    if j < k {
                                        assert(ranked@[j].name_key() != ranked@[k as int].name_key());
                                    } else if j > k {
                                        assert(ranked@[k as int].name_key() != ranked@[j].name_key());
                                    }
                                }
                            }
                            return Ok(k + 1);
                        }
                        k = k + 1;
                    }
                    proof {
                        assert(!exists|j: int| 0 <= j < ds.len() && #[trigger] ds[j].name@ == target);
                    }
                    Err(Error::InvalidSearch(copy_str("search cursor is invalid for this query")))
                },
            }
        },
    }
}

fn descriptor_match_size(d: &FunctionDescriptor) -> (n: usize)
    ensures
        n == capped(match_size(*d) as int),
{
    let a = json_string_size(d.name.as_str());
    let b = json_string_size(d.description.as_str());
    let c = json_string_size(d.signature.as_str());
    add_capped(add_capped(add_capped(37, a), b), c)
}

/// The cursor that resumes after function `name`.
pub fn search_cursor(name: &str) -> (c: String)
    ensures
        c@ == cursor_text(name@),
{
    concat2("v1:", name)
}

/// The ranked functions of a search, in search order, given as a page
/// from `start`.
fn page(
    functions: &Vec<IndexedFunction>,
    ranked: &Vec<Ranked>,
    start: usize,
    limit: usize,
    Ghost(ds): Ghost<Seq<FunctionDescriptor>>,
) -> (r: Result<SearchOutput, Error>)
    requires
        ds == ordered(functions@, ranked@),
        forall|k: int| 0 <= k < ranked@.len() ==> #[trigger] ranked@[k].index < functions@.len(),
        start <= ranked@.len(),
        1 <= limit,
    ensures
        start < ds.len() && !page_fits(ds, start as int, 1) ==> (r matches Err(Error::InvalidSearch(e))
            && e@ == "one search match exceeds the 256 KiB output limit"@),
        !(start < ds.len() && !page_fits(ds, start as int, 1)) ==> (r matches Ok(out) && exists|count: int|
            page_count(ds, start as int, limit as int, count) && #[trigger] shows(out, ds, start as int, count)),
{
    let mut matches: Vec<SearchMatch> = Vec::new();
    let mut end: usize = start;
    let mut items: usize = 0;
    let mut full = false;
    while !full && end < ranked.len() && matches.len() < limit
        invariant
            ds == ordered(functions@, ranked@),
            forall|k: int| 0 <= k < ranked@.len() ==> #[trigger] ranked@[k].index < functions@.len(),
            ds.len() == ranked@.len(),
            start <= end <= ds.len(),
            matches@.len() == end - start,
            matches@.len() <= limit,
            items == capped(matches_size(ds.subrange(start as int, end as int)) as int),
            forall|j: int| 1 <= j <= end - start ==> #[trigger] page_fits(ds, start as int, j),
            forall|k: int| 0 <= k < end - start ==> #[trigger] matches@[k].name@ == ds[start + k].name@,
            forall|k: int| 0 <= k < end - start ==> #[trigger] matches@[k].description@ == ds[start + k].description@,
            forall|k: int| 0 <= k < end - start ==> #[trigger] matches@[k].signature@ == ds[start + k].signature@,
            full ==> end < ds.len() && matches@.len() < limit && !page_fits(
                ds,
                start as int,
                end - start + 1,
            ) && end > start,
        decreases ds.len() - end, if full { 0int } else { 1int },
    {
        let index = ranked[end].index;
        let d = &functions[index].descriptor;
        assert(*d == ds[end as int]);
        let size = descriptor_match_size(d);
        let new_items = if matches.len() > 0 {
            add_capped(add_capped(items, 1), size)
        } else {
            size
        };
        let cursor_size = if end + 1 < ranked.len() {
            let c = search_cursor(d.name.as_str());
            json_string_size(c.as_str())
        } else {
            4
        };
        let total = add_capped(add_capped(29, new_items), cursor_size);
        proof {
            let count = end - start + 1;
            assert(ds.subrange(start as int, end + 1).drop_last() =~= ds.subrange(
                start as int,
                end as int,
            ));
            assert(ds.subrange(start as int, end + 1).last() == ds[end as int]);
        }
        if total > MAX_SEARCH_OUTPUT_BYTES {
            if matches.len() == 0 {
                return Err(
                    Error::InvalidSearch(
                        copy_str("one search match exceeds the 256 KiB output limit"),
                    ),
                );
            }
            full = true;
        } else {
            let ghost before = matches@;
            matches.push(
                SearchMatch {
                    name: d.name.clone(),
                    description: d.description.clone(),
                    signature: d.signature.clone(),
                },
            );
            items = new_items;
            end = end + 1;
            proof {
                assert(matches@[end - start - 1].name@ == ds[end - 1].name@);
                assert forall|k: int| 0 <= k < end - start implies #[trigger] matches@[k].name@ == ds[start + k].name@ by {
                    if k < end - start - 1 {
                        assert(matches@[k] == before[k]);
                        assert(before[k].name@ == ds[start + k].name@);
                    }
                }
                assert forall|k: int| 0 <= k < end - start implies #[trigger] matches@[k].description@ == ds[start + k].description@ by {
                    if k < end - start - 1 {
                        assert(matches@[k] == before[k]);
                        assert(before[k].description@ == ds[start + k].description@);
                    }
                }
                assert forall|k: int| 0 <= k < end - start implies #[trigger] matches@[k].signature@ == ds[start + k].signature@ by {
                    if k < end - start - 1 {
                        assert(matches@[k] == before[k]);
                        assert(before[k].signature@ == ds[start + k].signature@);
                    }
                }
            }
        }
    }
    let next_cursor = if end < ranked.len() && matches.len() > 0 {
        Some(search_cursor(matches[matches.len() - 1].name.as_str()))
    } else {
        None
    };
    let out = SearchOutput { matches, next_cursor };
    proof {
        let count = end - start;
        assert(page_count(ds, start as int, limit as int, count));
        assert(shows(out, ds, start as int, count));
    }
    Ok(out)
}

/// The functions that take part in a search, each with its rank and name,
/// in API order.
fn rank_functions(functions: &Vec<IndexedFunction>, query: &str, query_terms: &Vec<String>) -> (ranked: Vec<Ranked>)
    requires
        distinct_terms(query_terms@),
        term_set(query_terms@) == tokens(query@),
        forall|k: int| 0 <= k < functions@.len() ==> indexed(#[trigger] functions@[k]),
    ensures
        forall|k: int|
            0 <= k < ranked@.len() ==> {
                &&& #[trigger] ranked@[k].index < functions@.len()
                &&& ranked@[k].rank == rank_of(functions@[ranked@[k].index as int].descriptor, query@)
                &&& ranked@[k].name@ == functions@[ranked@[k].index as int].descriptor.name@
            },
        forall|k1: int, k2: int|
            0 <= k1 < k2 < ranked@.len() ==> #[trigger] ranked@[k1].index < #[trigger] ranked@[k2].index,
        forall|j: int|
            0 <= j < functions@.len() ==> (qualifies(#[trigger] functions@[j].descriptor, query@) <==> exists|k: int|
                0 <= k < ranked@.len() && #[trigger] ranked@[k].index == j),
{
    let empty_query = query.unicode_len() == 0;
    let ghost api = functions@;
    let ghost q = query@;
    let mut ranked: Vec<Ranked> = Vec::new();
    let mut i: usize = 0;
    while i < functions.len()
        invariant
            i <= api.len(),
            api == functions@,
            q == query@,
            empty_query == (q.len() == 0),
            distinct_terms(query_terms@),
            term_set(query_terms@) == tokens(q),
            forall|k: int| 0 <= k < api.len() ==> indexed(#[trigger] api[k]),
            forall|k: int|
                0 <= k < ranked@.len() ==> {
                    &&& #[trigger] ranked@[k].index < i
                    &&& ranked@[k].rank == rank_of(api[ranked@[k].index as int].descriptor, q)
                    &&& ranked@[k].name@ == api[ranked@[k].index as int].descriptor.name@
                },
            forall|k1: int, k2: int|
                0 <= k1 < k2 < ranked@.len() ==> #[trigger] ranked@[k1].index < #[trigger] ranked@[k2].index,
            forall|j: int|
                0 <= j < i ==> (qualifies(#[trigger] api[j].descriptor, q) <==> exists|k: int|
                    0 <= k < ranked@.len() && #[trigger] ranked@[k].index == j),
        decreases api.len() - i,
    {
        let rank = search_rank(&functions[i], query, query_terms);
        let zero = !rank.exact_full_name && rank.name_segments == 0 && rank.description_terms == 0
            && rank.input_property_name_terms == 0 && rank.input_property_description_terms == 0;
        let ghost before = ranked@;
        if empty_query || !zero {
            ranked.push(Ranked { rank, name: functions[i].descriptor.name.clone(), index: i });
            proof {
                assert(ranked@[ranked@.len() - 1].index == i);
                assert forall|j: int| 0 <= j < i + 1 implies (qualifies(#[trigger] api[j].descriptor, q) <==> exists|k: int|
                    0 <= k < ranked@.len() && #[trigger] ranked@[k].index == j) by {
                    if j < i {
                        if qualifies(api[j].descriptor, q) {
                            let k = choose|k: int| 0 <= k < before.len() && #[trigger] before[k].index == j;
                            assert(ranked@[k] == before[k]);
                        } else {
                            if exists|k: int| 0 <= k < ranked@.len() && #[trigger] ranked@[k].index == j {
                                let k = choose|k: int| 0 <= k < ranked@.len() && #[trigger] ranked@[k].index == j;
                                assert(k < before.len());
                                assert(before[k] == ranked@[k]);
                            }
                        }
                    } else {
                        assert(ranked@[before.len() as int].index == j);
                    }
                }
            }
        } else {
            proof {
                assert(!qualifies(api[i as int].descriptor, q));
            }
        }
        i = i + 1;
    }
    ranked
}

impl CodeMode {
    /// Searches the API: functions that match the query (all of them for an
    /// empty query), highest rank first and then by name, one bounded page
    /// at a time.
    pub fn search(&self, input: SearchInput) -> (r: Result<SearchOutput, Error>)
        ensures
            (effective_limit(input) == 0 || effective_limit(input) > MAX_SEARCH_RESULTS) ==> (r matches Err(Error::InvalidSearch(e)) && e@ == "limit must be between 1 and 25"@),
            (1 <= effective_limit(input) <= MAX_SEARCH_RESULTS) ==> exists|order: Seq<Ranked>|
                search_order(self.entries(), trim_spec(input.query@), order) && #[trigger] search_answer(
                    ordered(self.entries(), order),
                    input,
                    r,
                ),
    {
        proof {
            use_type_invariant(self);
        }
        let limit = match input.limit {
            Some(l) => l,
            None => DEFAULT_SEARCH_RESULTS,
        };
        if limit == 0 || limit > MAX_SEARCH_RESULTS {
            return Err(Error::InvalidSearch(copy_str("limit must be between 1 and 25")));
        }
        let query = trim(input.query.as_str());
        let query_terms = tokenize(query.as_str());
        let ghost api = self.functions@;
        let ghost q = query@;
        let ranked = rank_functions(&self.functions, query.as_str(), &query_terms);
        proof {
            assert forall|a: int, b: int| 0 <= a < b < ranked@.len() implies #[trigger] ranked@[a].name_key() != #[trigger] ranked@[b].name_key() by {
                let ia = ranked@[a].index as int;
                let ib = ranked@[b].index as int;
                assert(api[ia].name_key() != api[ib].name_key());
            }
        }
        let ghost unsorted = ranked@;
        let ranked = sort_ranked(ranked);
        let ghost order = ranked@;
        proof {
            lemma_sorted_search_order(api, q, unsorted, order);
        }
        let ghost ds = ordered(api, order);
        let r = match cursor_position(&ranked, input.cursor, Ghost(ds)) {
            Ok(start) => page(&self.functions, &ranked, start, limit, Ghost(ds)),
            Err(e) => Err(e),
        };
        proof {
            assert(search_answer(ds, input, r));
            assert(self.entries() == api);
            assert(search_answer(ordered(self.entries(), order), input, r));
        }
        r
    }
}

/// Sorting the ranked functions keeps them a search order.
proof fn lemma_sorted_search_order(
    api: Seq<IndexedFunction>,
    q: Seq<char>,
    unsorted: Seq<Ranked>,
    order: Seq<Ranked>,
)
    requires
        order.to_multiset() == unsorted.to_multiset(),
        sorted_ranked(order),
        distinct_ranked_names(order),
        forall|k: int|
            0 <= k < unsorted.len() ==> {
                &&& #[trigger] unsorted[k].index < api.len()
                &&& unsorted[k].rank == rank_of(api[unsorted[k].index as int].descriptor, q)
                &&& unsorted[k].name@ == api[unsorted[k].index as int].descriptor.name@
            },
        forall|j: int|
            0 <= j < api.len() ==> (qualifies(#[trigger] api[j].descriptor, q) <==> exists|k: int|
                0 <= k < unsorted.len() && #[trigger] unsorted[k].index == j),
    ensures
        search_order(api, q, order),
{
    assert forall|k: int| 0 <= k < order.len() implies {
        &&& #[trigger] order[k].index < api.len()
        &&& order[k].rank == rank_of(api[order[k].index as int].descriptor, q)
        &&& order[k].name@ == api[order[k].index as int].descriptor.name@
    } by {
        vstd::seq_lib::to_multiset_contains(order, order[k]);
        vstd::seq_lib::to_multiset_contains(unsorted, order[k]);
    }
    assert forall|k1: int, k2: int| 0 <= k1 < k2 < order.len() implies #[trigger] order[k1].index != #[trigger] order[k2].index by {
        if order[k1].index == order[k2].index {
            assert(order[k1].name_key() != order[k2].name_key());
        }
    }
    assert forall|j: int| 0 <= j < api.len() implies (qualifies(#[trigger] api[j].descriptor, q) <==> exists|k: int|
        0 <= k < order.len() && #[trigger] order[k].index == j) by {
        if qualifies(api[j].descriptor, q) {
            let k = choose|k: int| 0 <= k < unsorted.len() && #[trigger] unsorted[k].index == j;
            vstd::seq_lib::to_multiset_contains(unsorted, unsorted[k]);
            vstd::seq_lib::to_multiset_contains(order, unsorted[k]);
            let m = choose|m: int| 0 <= m < order.len() && order[m] == unsorted[k];
            assert(order[m].index == j);
        }
        if exists|k: int| 0 <= k < order.len() && #[trigger] order[k].index == j {
            let k = choose|k: int| 0 <= k < order.len() && #[trigger] order[k].index == j;
            vstd::seq_lib::to_multiset_contains(order, order[k]);
            vstd::seq_lib::to_multiset_contains(unsorted, order[k]);
            let m = choose|m: int| 0 <= m < unsorted.len() && unsorted[m] == order[k];
            assert(unsorted[m].index == j);
        }
    }
}

} // verus!

verus! {

/// A public name without its `S2.` namespace prefix.
pub open spec fn local_name(name: Seq<char>) -> Seq<char> {
    if has_prefix(name, "S2."@) {
        name.subrange(3, name.len() as int)
    } else {
        name
    }
}

impl CodeMode {
    /// The public name of the function bound to `operation`.
    pub fn public_name(&self, operation: &str) -> (r: Option<String>)
        ensures
            r matches Some(n) ==> exists|j: int|
                0 <= j < self.entries().len() && #[trigger] self.entries()[j].descriptor.operation@ == operation@
                    && self.entries()[j].descriptor.name@ == n@,
            r is None ==> forall|j: int|
                0 <= j < self.entries().len() ==> #[trigger] self.entries()[j].descriptor.operation@ != operation@,
    {
        let mut i: usize = 0;
        while i < self.functions.len()
            invariant
                i <= self.functions@.len(),
                forall|j: int| 0 <= j < i ==> #[trigger] self.functions@[j].descriptor.operation@ != operation@,
            decreases self.functions@.len() - i,
        {
            let d = &self.functions[i].descriptor;
            if str_eq(d.operation.as_str(), operation) {
                let n = copy_str(d.name.as_str());
                assert(self.entries()[i as int].descriptor.operation@ == operation@ && self.entries()[i as int].descriptor.name@ == n@);
                return Some(n);
            }
            i = i + 1;
        }
        assert forall|j: int| 0 <= j < self.entries().len() implies #[trigger] self.entries()[j].descriptor.operation@ != operation@ by {
            assert(self.entries()[j] == self.functions@[j]);
        }
        None
    }

    /// The function bound to `operation`.
    pub fn descriptor(&self, operation: &str) -> (r: Option<&FunctionDescriptor>)
        ensures
            r matches Some(d) ==> exists|j: int|
                0 <= j < self.entries().len() && #[trigger] self.entries()[j].descriptor == *d && d.operation@
                    == operation@,
            r is None ==> forall|j: int|
                0 <= j < self.entries().len() ==> #[trigger] self.entries()[j].descriptor.operation@ != operation@,
    {
        let mut i: usize = 0;
        while i < self.functions.len()
            invariant
                i <= self.functions@.len(),
                forall|j: int| 0 <= j < i ==> #[trigger] self.functions@[j].descriptor.operation@ != operation@,
            decreases self.functions@.len() - i,
        {
            let d = &self.functions[i].descriptor;
            if str_eq(d.operation.as_str(), operation) {
                assert(self.entries()[i as int].descriptor == *d);
                return Some(d);
            }
            i = i + 1;
        }
        assert forall|j: int| 0 <= j < self.entries().len() implies #[trigger] self.entries()[j].descriptor.operation@ != operation@ by {
            assert(self.entries()[j] == self.functions@[j]);
        }
        None
    }

    /// The namespace that the runtime installs for programs: each function's
    /// name inside `S2` with its operation, in name order.
    pub fn namespace_entries(&self) -> (r: Vec<(String, String)>)
        ensures
            r@.len() == self.entries().len(),
            forall|j: int| 0 <= j < r@.len() ==> {
                &&& (#[trigger] r@[j]).0@ == local_name(self.entries()[j].descriptor.name@)
                &&& r@[j].1@ == self.entries()[j].descriptor.operation@
            },
    {
        let mut r: Vec<(String, String)> = Vec::new();
        let mut i: usize = 0;
        while i < self.functions.len()
            invariant
                i <= self.functions@.len(),
                r@.len() == i,
                forall|j: int| 0 <= j < i ==> {
                    &&& (#[trigger] r@[j]).0@ == local_name(self.functions@[j].descriptor.name@)
                    &&& r@[j].1@ == self.functions@[j].descriptor.operation@
                },
            decreases self.functions@.len() - i,
        {
            let d = &self.functions[i].descriptor;
            proof {
                reveal_strlit("S2.");
            }
            let local = match strip_prefix(d.name.as_str(), "S2.") {
                Some(l) => l,
                None => copy_str(d.name.as_str()),
            };
            r.push((local, copy_str(d.operation.as_str())));
            i = i + 1;
        }
        r
    }

    /// Checks an execution request before anything runs: every limit
    /// positive, the program within the source limit.
    pub fn check_execution(source: &str, limits: Limits) -> (r: Result<(), Error>)
        ensures
            r is Ok <==> limits_valid(limits) && capped(utf8_size(source@) as int) <= limits.max_source_bytes,
            !limits_valid(limits) ==> (r matches Err(Error::Runtime(m)) && m@ == "all Code Mode limits must be greater than zero"@),
            limits_valid(limits) && r is Err ==> r == Err::<(), Error>(Error::SourceTooLarge { maximum: limits.max_source_bytes }),
    {
        validate_limits(limits)?;
        if byte_len(source) > limits.max_source_bytes {
            return Err(Error::SourceTooLarge { maximum: limits.max_source_bytes });
        }
        Ok(())
    }
}

} // verus!

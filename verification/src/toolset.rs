use vstd::prelude::*;

use crate::api::{
    first_listing_problem, first_problem, lemma_first_listing_problem, lemma_new_problem_listing, listing_keys, listing_problem, new_problem,
    CodeMode,
};
use crate::catalog::{allowed_in, operation_description, operation_name, operation_scope, registry, OperationId};
use crate::codemode::{error_text, Error as CodeModeError, FunctionDescriptor};
use crate::dispatch::{basin_input_removed, remove_basin_input};
use crate::errors::{Error, ErrorCode, ExecutionError};
use crate::json::JsonValue;
use crate::schema::generated_function;
use crate::policy::{accepts_basin_injection, Policy};

verus! {

/// One operation of the catalog with the JSON Schemas of its tool.
pub struct CatalogEntry {
    pub id: OperationId,
    pub input_schema: JsonValue,
    pub output_schema: JsonValue,
}

/// The operations a policy allows and the TypeScript API generated from
/// their tools; a tool's published input schema is that of its function.
pub struct Catalog {
    ids: Vec<OperationId>,
    code_mode: CodeMode,
}

/// The entry's input schema as the catalog publishes it: without the `basin`
/// input where the confined basin is filled in.
pub open spec fn published_input(p: Policy, id: OperationId, schema: JsonValue, published: JsonValue) -> bool {
    if p.basin is Some && accepts_basin_injection(operation_scope(id)) {
        basin_input_removed(schema, published)
    } else {
        published == schema
    }
}

/// The function generated for an entry whose tool publishes `input`: its
/// public name and declaration, or the error text.
#[verifier::opaque]
pub open spec fn entry_function(e: CatalogEntry, input: JsonValue) -> Result<(Seq<char>, Seq<char>), Seq<char>> {
    generated_function(operation_name(e.id), operation_description(e.id), input, e.output_schema)
}

/// `inputs` are the entries' input schemas as the catalog publishes them.
#[verifier::opaque]
pub open spec fn published_inputs(p: Policy, es: Seq<CatalogEntry>, inputs: Seq<JsonValue>) -> bool {
    &&& inputs.len() == es.len()
    &&& forall|i: int| 0 <= i < es.len() ==> published_input(p, es[i].id, es[i].input_schema, #[trigger] inputs[i])
}

/// The error of the first of the first `n` entries whose function cannot be
/// generated.
pub open spec fn generation_failure(es: Seq<CatalogEntry>, inputs: Seq<JsonValue>, n: int) -> Option<Seq<char>>
    decreases n,
{
    if n <= 0 {
        None
    } else {
        match generation_failure(es, inputs, n - 1) {
            Some(m) => Some(m),
            None => match entry_function(es[n - 1], inputs[n - 1]) {
                Err(m) => Some(m),
                Ok(_) => None,
            },
        }
    }
}

/// The operation and public function name of each entry.
pub open spec fn published_keys(es: Seq<CatalogEntry>, inputs: Seq<JsonValue>) -> Seq<(Seq<char>, Seq<char>)> {
    Seq::new(
        es.len(),
        |i: int|
            (operation_name(es[i].id), match entry_function(es[i], inputs[i]) {
                Ok((name, _)) => name,
                Err(_) => Seq::empty(),
            }),
    )
}

/// Why the catalog cannot be built from entries publishing `inputs`: the
/// first function that cannot be generated, else the first that the API
/// refuses; none when it can be built.
#[verifier::opaque]
pub open spec fn catalog_failure(es: Seq<CatalogEntry>, inputs: Seq<JsonValue>) -> Option<Seq<char>> {
    match generation_failure(es, inputs, es.len() as int) {
        Some(m) => Some(m),
        None => first_listing_problem(published_keys(es, inputs), es.len() as int),
    }
}

proof fn lemma_generation_failure_stays(es: Seq<CatalogEntry>, inputs: Seq<JsonValue>, k: int, n: int)
    requires
        0 <= k <= n,
        generation_failure(es, inputs, k) is Some,
    ensures
        generation_failure(es, inputs, n) == generation_failure(es, inputs, k),
    decreases n - k,
{
    if k < n {
        lemma_generation_failure_stays(es, inputs, k, n - 1);
    }
}

fn code_mode_error(e: CodeModeError) -> (r: Error)
    ensures
        r matches Error::Execution(ExecutionError::CodeMode { message, code }) && code == ErrorCode::CodeModeFailed
            && message@ == error_text(e),
{
    Error::Execution(ExecutionError::CodeMode { message: e.to_text(), code: ErrorCode::CodeModeFailed })
}

/// The API's verdict on descriptors is that of their listing of operation and
/// function names.
proof fn lemma_listing_outcome(ds: Seq<FunctionDescriptor>)
    ensures
        (forall|i: int| 0 <= i < ds.len() ==> #[trigger] new_problem(ds, i) is None) <==> first_listing_problem(
            listing_keys(ds),
            ds.len() as int,
        ) is None,
        forall|i: int| #[trigger] first_problem(ds, i) ==> first_listing_problem(listing_keys(ds), ds.len() as int)
            == new_problem(ds, i),
{
    let n = ds.len() as int;
    lemma_first_listing_problem(listing_keys(ds), n);
    assert forall|i: int| 0 <= i < n implies new_problem(ds, i) == #[trigger] listing_problem(listing_keys(ds), i) by {
        lemma_new_problem_listing(ds, i);
    }
    assert forall|i: int| #[trigger] first_problem(ds, i) implies first_listing_problem(listing_keys(ds), n)
        == new_problem(ds, i) by {
        assert forall|j: int| 0 <= j < i implies #[trigger] listing_problem(listing_keys(ds), j) is None by {
            assert(new_problem(ds, j) is None);
        }
        assert(listing_problem(listing_keys(ds), i) == new_problem(ds, i));
    }
    if first_listing_problem(listing_keys(ds), n) is None {
        assert forall|i: int| 0 <= i < n implies #[trigger] new_problem(ds, i) is None by {
            assert(listing_problem(listing_keys(ds), i) is None);
        }
    } else {
        let i = choose|i: int| 0 <= i < n && #[trigger] listing_problem(listing_keys(ds), i) is Some;
        assert(new_problem(ds, i) is Some);
    }
}

/// A function that cannot be generated decides the catalog's failure.
proof fn lemma_generation_decides(initial: Seq<CatalogEntry>, inputs: Seq<JsonValue>)
    ensures
        generation_failure(initial, inputs, initial.len() as int) is Some ==> catalog_failure(initial, inputs)
            == generation_failure(initial, inputs, initial.len() as int),
{
    reveal(catalog_failure);
}

/// Once every function is generated, the catalog fails exactly as the API
/// refuses the generated descriptors.
proof fn lemma_catalog_listing(initial: Seq<CatalogEntry>, inputs: Seq<JsonValue>, ds: Seq<FunctionDescriptor>)
    requires
        ds.len() == initial.len(),
        inputs.len() == initial.len(),
        generation_failure(initial, inputs, initial.len() as int) is None,
        forall|i: int| 0 <= i < initial.len() ==> {
            &&& (#[trigger] ds[i]).operation@ == operation_name(initial[i].id)
            &&& entry_function(initial[i], inputs[i]) == Ok::<(Seq<char>, Seq<char>), Seq<char>>((ds[i].name@, ds[i].signature@))
        },
    ensures
        (forall|i: int| 0 <= i < ds.len() ==> #[trigger] new_problem(ds, i) is None) <==> catalog_failure(initial, inputs) is None,
        forall|i: int| #[trigger] first_problem(ds, i) ==> catalog_failure(initial, inputs) == new_problem(ds, i),
{
    reveal(catalog_failure);
    assert(listing_keys(ds) =~= published_keys(initial, inputs)) by {
        assert forall|i: int| 0 <= i < ds.len() implies listing_keys(ds)[i] == #[trigger] published_keys(initial, inputs)[i] by {
            assert(entry_function(initial[i], inputs[i]) == Ok::<(Seq<char>, Seq<char>), Seq<char>>((ds[i].name@, ds[i].signature@)));
        }
    }
    lemma_listing_outcome(ds);
}

/// The API lists a function with descriptor `d`.
pub open spec fn listed(api: CodeMode, d: FunctionDescriptor) -> bool {
    exists|j: int| 0 <= j < api.entries().len() && #[trigger] api.entries()[j].descriptor == d
}

/// The API of the generated descriptors, or the API's refusal.
fn build_api(
    descriptors: Vec<FunctionDescriptor>,
    Ghost(initial): Ghost<Seq<CatalogEntry>>,
    Ghost(inputs): Ghost<Seq<JsonValue>>,
    Ghost(ds): Ghost<Seq<FunctionDescriptor>>,
) -> (r: Result<CodeMode, CodeModeError>)
    requires
        ds == descriptors@,
        descriptors@.len() == initial.len(),
        inputs.len() == initial.len(),
        generation_failure(initial, inputs, initial.len() as int) is None,
        forall|i: int| 0 <= i < initial.len() ==> {
            &&& (#[trigger] descriptors@[i]).operation@ == operation_name(initial[i].id)
            &&& entry_function(initial[i], inputs[i]) == Ok::<(Seq<char>, Seq<char>), Seq<char>>((descriptors@[i].name@, descriptors@[i].signature@))
        },
    ensures
        r matches Ok(api) ==> {
            &&& catalog_failure(initial, inputs) is None
            &&& api.entries().len() == ds.len()
            &&& forall|i: int| 0 <= i < ds.len() ==> listed(api, #[trigger] ds[i])
        },
        r matches Err(e) ==> e matches CodeModeError::InvalidDescriptor(m) && catalog_failure(initial, inputs) == Some(m@),
{
    proof {
        lemma_catalog_listing(initial, inputs, ds);
    }
    let r = CodeMode::new(descriptors);
    if let Ok(api) = &r {
        assert forall|i: int| 0 <= i < ds.len() implies listed(*api, #[trigger] ds[i]) by {
            assert(exists|j: int| 0 <= j < api.entries().len() && #[trigger] api.entries()[j].descriptor == ds[i]);
        }
    }
    r
}

/// The entries with their input schemas as the catalog publishes them.
fn publish_inputs(policy: &Policy, schemas: Vec<CatalogEntry>) -> (out: Vec<CatalogEntry>)
    ensures
        out@.len() == schemas@.len(),
        forall|i: int| 0 <= i < schemas@.len() ==> {
            &&& (#[trigger] out@[i]).id == schemas@[i].id
            &&& out@[i].output_schema == schemas@[i].output_schema
            &&& published_input(*policy, schemas@[i].id, schemas@[i].input_schema, out@[i].input_schema)
        },
{
    let ghost initial = schemas@;
    let n = schemas.len();
    let mut rest = schemas;
    let mut out: Vec<CatalogEntry> = Vec::new();
    while rest.len() > 0
        invariant
            n == initial.len(),
            out@.len() + rest@.len() == n,
            rest@ == initial.subrange(out@.len() as int, n as int),
            forall|i: int| 0 <= i < out@.len() ==> {
                &&& (#[trigger] out@[i]).id == initial[i].id
                &&& out@[i].output_schema == initial[i].output_schema
                &&& published_input(*policy, initial[i].id, initial[i].input_schema, out@[i].input_schema)
            },
        decreases rest@.len(),
    {
        let ghost k: int = out@.len() as int;
        let entry = rest.remove(0);
        assert(entry == initial[k]);
        assert(rest@ =~= initial.subrange(k + 1, n as int));
        let CatalogEntry { id, input_schema, output_schema } = entry;
        let input = if policy.basin.is_some() && id.scope().accepts_basin_injection() {
            remove_basin_input(input_schema)
        } else {
            input_schema
        };
        out.push(CatalogEntry { id, input_schema: input, output_schema });
    }
    out
}

/// The operations of the entries, in order.
fn entry_ids(entries: &Vec<CatalogEntry>) -> (ids: Vec<OperationId>)
    ensures
        ids@ == entries@.map_values(|e: CatalogEntry| e.id),
{
    let mut ids: Vec<OperationId> = Vec::new();
    let mut i: usize = 0;
    while i < entries.len()
        invariant
            i <= entries@.len(),
            ids@ == entries@.subrange(0, i as int).map_values(|e: CatalogEntry| e.id),
        decreases entries@.len() - i,
    {
        ids.push(entries[i].id);
        i = i + 1;
        assert(entries@.subrange(0, i as int).map_values(|e: CatalogEntry| e.id) =~= ids@);
    }
    assert(entries@.subrange(0, i as int) =~= entries@);
    ids
}

/// Generates the function of every entry, in order, stopping at the first
/// that cannot be generated.
fn generate_descriptors(
    entries: Vec<CatalogEntry>,
    Ghost(initial): Ghost<Seq<CatalogEntry>>,
    Ghost(inputs): Ghost<Seq<JsonValue>>,
) -> (r: Result<Vec<FunctionDescriptor>, CodeModeError>)
    requires
        entries@.len() == initial.len(),
        inputs.len() == initial.len(),
        forall|i: int| 0 <= i < initial.len() ==> {
            &&& (#[trigger] entries@[i]).id == initial[i].id
            &&& entries@[i].output_schema == initial[i].output_schema
            &&& entries@[i].input_schema == inputs[i]
        },
    ensures
        r matches Ok(ds) ==> {
            &&& ds@.len() == initial.len()
            &&& generation_failure(initial, inputs, initial.len() as int) is None
            &&& forall|i: int| 0 <= i < initial.len() ==> {
                &&& (#[trigger] ds@[i]).operation@ == operation_name(initial[i].id)
                &&& ds@[i].input_schema == inputs[i]
                &&& entry_function(initial[i], inputs[i]) == Ok::<(Seq<char>, Seq<char>), Seq<char>>((ds@[i].name@, ds@[i].signature@))
            }
        },
        r matches Err(e) ==> e matches CodeModeError::InvalidDescriptor(m) && generation_failure(initial, inputs, initial.len() as int) == Some(m@),
{
    let ghost all = entries@;
    let n = entries.len();
    let mut rest = entries;
    let mut ds: Vec<FunctionDescriptor> = Vec::new();
    while rest.len() > 0
        invariant
            n == initial.len(),
            inputs.len() == n,
            all.len() == n,
            forall|i: int| 0 <= i < n ==> {
                &&& (#[trigger] all[i]).id == initial[i].id
                &&& all[i].output_schema == initial[i].output_schema
                &&& all[i].input_schema == inputs[i]
            },
            ds@.len() + rest@.len() == n,
            rest@ == all.subrange(ds@.len() as int, n as int),
            generation_failure(initial, inputs, ds@.len() as int) is None,
            forall|i: int| 0 <= i < ds@.len() ==> {
                &&& (#[trigger] ds@[i]).operation@ == operation_name(initial[i].id)
                &&& ds@[i].input_schema == inputs[i]
                &&& entry_function(initial[i], inputs[i]) == Ok::<(Seq<char>, Seq<char>), Seq<char>>((ds@[i].name@, ds@[i].signature@))
            },
        decreases rest@.len(),
    {
        let ghost k: int = ds@.len() as int;
        let entry = rest.remove(0);
        assert(entry == all[k]);
        assert(rest@ =~= all.subrange(k + 1, n as int));
        let CatalogEntry { id, input_schema, output_schema } = entry;
        proof {
            reveal(entry_function);
        }
        match FunctionDescriptor::from_schemas(id.name(), id.description(), input_schema, output_schema) {
            Ok(d) => {
                ds.push(d);
            },
            Err(e) => {
                proof {
                    assert(generation_failure(initial, inputs, k + 1) is Some);
                    lemma_generation_failure_stays(initial, inputs, k + 1, n as int);
                }
                return Err(e);
            },
        }
    }
    Ok(ds)
}

impl Catalog {
    pub closed spec fn ids(&self) -> Seq<OperationId> {
        self.ids@
    }

    pub closed spec fn api(&self) -> CodeMode {
        self.code_mode
    }

    /// Builds the catalog of the operations the policy allows, given the tool
    /// schemas of those operations in registry order. The published input
    /// schemas are the entries' own, without the `basin` input where the
    /// confined basin is filled in; the catalog is built exactly when every
    /// function can be generated from them and the API accepts the functions,
    /// and otherwise fails with the first reason.
    #[verifier::spinoff_prover]
    #[verifier::rlimit(40)]
    pub fn new(policy: &Policy, schemas: Vec<CatalogEntry>) -> (r: Result<Catalog, Error>)
        requires
            schemas@.map_values(|e: CatalogEntry| e.id) == allowed_in(registry(), *policy),
        ensures
            exists|inputs: Seq<JsonValue>| #[trigger] published_inputs(*policy, schemas@, inputs) && match catalog_failure(schemas@, inputs) {
                None => r matches Ok(c) && forall|i: int| 0 <= i < schemas@.len() ==> exists|j: int|
                    0 <= j < c.api().entries().len()
                    && (#[trigger] c.api().entries()[j]).descriptor.operation@ == operation_name(#[trigger] schemas@[i].id)
                    && c.api().entries()[j].descriptor.input_schema == inputs[i]
                    && entry_function(schemas@[i], inputs[i]) == Ok::<(Seq<char>, Seq<char>), Seq<char>>((
                        c.api().entries()[j].descriptor.name@,
                        c.api().entries()[j].descriptor.signature@,
                    )),
                Some(m) => r matches Err(Error::Execution(ExecutionError::CodeMode { message, code }))
                    && code == ErrorCode::CodeModeFailed && message@ == "invalid Code Mode descriptor: "@ + m,
            },
            r matches Ok(c) ==> {
                &&& c.ids() == allowed_in(registry(), *policy)
                &&& c.api().entries().len() == c.ids().len()
                &&& forall|i: int| 0 <= i < c.ids().len() ==> exists|j: int| 0 <= j < c.api().entries().len()
                    && (#[trigger] c.api().entries()[j]).descriptor.operation@ == operation_name(#[trigger] c.ids()[i])
                    && published_input(*policy, c.ids()[i], schemas@[i].input_schema, c.api().entries()[j].descriptor.input_schema)
            },
    {
        let ghost initial = schemas@;
        let published = publish_inputs(policy, schemas);
        let ghost inputs = published@.map_values(|e: CatalogEntry| e.input_schema);
        let ghost pv = published@;
        assert(published_inputs(*policy, initial, inputs)) by {
            reveal(published_inputs);
        }
        let ids = entry_ids(&published);
        let n = published.len();
        let descriptors = match generate_descriptors(published, Ghost(initial), Ghost(inputs)) {
            Ok(ds) => ds,
            Err(e) => {
                proof {
                    lemma_generation_decides(initial, inputs);
                }
                let r = Err(code_mode_error(e));
                assert(published_inputs(*policy, schemas@, inputs) && match catalog_failure(schemas@, inputs) {
                    Some(m) => r matches Err(Error::Execution(ExecutionError::CodeMode { message, code }))
                        && code == ErrorCode::CodeModeFailed && message@ == "invalid Code Mode descriptor: "@ + m,
                    None => false,
                });
                return r;
            },
        };
        let ghost ds = descriptors@;
        let code_mode = match build_api(descriptors, Ghost(initial), Ghost(inputs), Ghost(ds)) {
            Ok(c) => c,
            Err(e) => {
                let r = Err(code_mode_error(e));
                assert(published_inputs(*policy, schemas@, inputs) && match catalog_failure(schemas@, inputs) {
                    Some(m) => r matches Err(Error::Execution(ExecutionError::CodeMode { message, code }))
                        && code == ErrorCode::CodeModeFailed && message@ == "invalid Code Mode descriptor: "@ + m,
                    None => false,
                });
                return r;
            },
        };

        assert(ids@ =~= initial.map_values(|e: CatalogEntry| e.id)) by {
            assert forall|i: int| 0 <= i < initial.len() implies ids@[i] == initial[i].id by {
                assert(pv[i].id == initial[i].id);
            }
        }
        assert forall|i: int| 0 <= i < initial.len() implies published_input(*policy, initial[i].id, initial[i].input_schema, #[trigger] inputs[i]) by {
            reveal(published_inputs);
        }
        let c = Catalog::assemble(policy, ids, code_mode, Ghost(initial), Ghost(inputs), Ghost(ds));
        assert(published_inputs(*policy, schemas@, inputs) && catalog_failure(schemas@, inputs) is None);
        assert forall|i: int| 0 <= i < schemas@.len() implies exists|j: int|
            0 <= j < c.api().entries().len()
            && (#[trigger] c.api().entries()[j]).descriptor.operation@ == operation_name(#[trigger] schemas@[i].id)
            && c.api().entries()[j].descriptor.input_schema == inputs[i]
            && entry_function(schemas@[i], inputs[i]) == Ok::<(Seq<char>, Seq<char>), Seq<char>>((
                c.api().entries()[j].descriptor.name@,
                c.api().entries()[j].descriptor.signature@,
            )) by {
            assert(initial[i] == schemas@[i]);
            assert(initial[i].id == schemas@[i].id);
        }
        let ghost cg = c;
        let r: Result<Catalog, Error> = Ok(c);
        assert(r matches Ok(x) && x == cg);
        assert(catalog_failure(schemas@, inputs) == None::<Seq<char>>);
        assert(published_inputs(*policy, schemas@, inputs) && match catalog_failure(schemas@, inputs) {
            None => r matches Ok(c) && forall|i: int| 0 <= i < schemas@.len() ==> exists|j: int|
                0 <= j < c.api().entries().len()
                && (#[trigger] c.api().entries()[j]).descriptor.operation@ == operation_name(#[trigger] schemas@[i].id)
                && c.api().entries()[j].descriptor.input_schema == inputs[i]
                && entry_function(schemas@[i], inputs[i]) == Ok::<(Seq<char>, Seq<char>), Seq<char>>((
                    c.api().entries()[j].descriptor.name@,
                    c.api().entries()[j].descriptor.signature@,
                )),
            Some(m) => false,
        });
        r
    }

    /// The catalog of the operations `ids` and the API generated for them.
    fn assemble(
        policy: &Policy,
        ids: Vec<OperationId>,
        code_mode: CodeMode,
        Ghost(initial): Ghost<Seq<CatalogEntry>>,
        Ghost(inputs): Ghost<Seq<JsonValue>>,
        Ghost(ds): Ghost<Seq<FunctionDescriptor>>,
    ) -> (c: Catalog)
        requires
            ids@ == initial.map_values(|e: CatalogEntry| e.id),
            ds.len() == initial.len(),
            inputs.len() == initial.len(),
            forall|i: int| 0 <= i < initial.len() ==> published_input(*policy, initial[i].id, initial[i].input_schema, #[trigger] inputs[i]),
            forall|i: int| 0 <= i < initial.len() ==> {
                &&& (#[trigger] ds[i]).operation@ == operation_name(initial[i].id)
                &&& ds[i].input_schema == inputs[i]
                &&& entry_function(initial[i], inputs[i]) == Ok::<(Seq<char>, Seq<char>), Seq<char>>((ds[i].name@, ds[i].signature@))
            },
            code_mode.entries().len() == ds.len(),
            forall|i: int| 0 <= i < ds.len() ==> listed(code_mode, #[trigger] ds[i]),
        ensures
            c.ids() == ids@,
            c.api() == code_mode,
            forall|i: int| 0 <= i < initial.len() ==> exists|j: int|
                0 <= j < c.api().entries().len()
                && (#[trigger] c.api().entries()[j]).descriptor.operation@ == operation_name(#[trigger] initial[i].id)
                && c.api().entries()[j].descriptor.input_schema == inputs[i]
                && entry_function(initial[i], inputs[i]) == Ok::<(Seq<char>, Seq<char>), Seq<char>>((
                    c.api().entries()[j].descriptor.name@,
                    c.api().entries()[j].descriptor.signature@,
                )),
            forall|i: int| 0 <= i < c.ids().len() ==> exists|j: int| 0 <= j < c.api().entries().len()
                && (#[trigger] c.api().entries()[j]).descriptor.operation@ == operation_name(#[trigger] c.ids()[i])
                && published_input(*policy, c.ids()[i], initial[i].input_schema, c.api().entries()[j].descriptor.input_schema),
    {
        let c = Catalog { ids, code_mode };
        assert forall|i: int| 0 <= i < initial.len() implies exists|j: int|
            0 <= j < c.api().entries().len()
            && (#[trigger] c.api().entries()[j]).descriptor.operation@ == operation_name(#[trigger] initial[i].id)
            && c.api().entries()[j].descriptor.input_schema == inputs[i]
            && entry_function(initial[i], inputs[i]) == Ok::<(Seq<char>, Seq<char>), Seq<char>>((
                c.api().entries()[j].descriptor.name@,
                c.api().entries()[j].descriptor.signature@,
            )) by {
            assert(exists|j: int| 0 <= j < code_mode.entries().len() && #[trigger] code_mode.entries()[j].descriptor == ds[i]);
            let j = choose|j: int| 0 <= j < code_mode.entries().len() && #[trigger] code_mode.entries()[j].descriptor == ds[i];
            assert(c.api().entries()[j].descriptor == ds[i]);
        }
        assert forall|i: int| 0 <= i < c.ids().len() implies exists|j: int| 0 <= j < c.api().entries().len()
            && (#[trigger] c.api().entries()[j]).descriptor.operation@ == operation_name(#[trigger] c.ids()[i])
            && published_input(*policy, c.ids()[i], initial[i].input_schema, c.api().entries()[j].descriptor.input_schema) by {
            assert(exists|j: int| 0 <= j < code_mode.entries().len() && #[trigger] code_mode.entries()[j].descriptor == ds[i]);
            let j = choose|j: int| 0 <= j < code_mode.entries().len() && #[trigger] code_mode.entries()[j].descriptor == ds[i];
            assert(c.api().entries()[j].descriptor == ds[i]);
            assert(c.ids()[i] == initial[i].id);
        }
        c
    }

    /// The allowed operation whose tool is named `name`.
    pub fn find(&self, name: &str) -> (r: Option<OperationId>)
        ensures
            r matches Some(id) ==> self.ids().contains(id) && operation_name(id) == name@,
            r is None ==> forall|i: int| 0 <= i < self.ids().len() ==> operation_name(#[trigger] self.ids()[i]) != name@,
    {
        crate::catalog::find_operation(&self.ids, name)
    }

    /// The allowed operations, in registry order.
    pub fn operations(&self) -> (r: &Vec<OperationId>)
        ensures
            r@ == self.ids(),
    {
        &self.ids
    }

    /// The generated TypeScript API.
    pub fn code_mode(&self) -> (r: &CodeMode)
        ensures
            *r == self.api(),
    {
        &self.code_mode
    }
}

} // verus!

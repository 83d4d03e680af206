use vstd::prelude::*;

use crate::policy::{policy_allows, Access, Policy, Scope};
use crate::text::{lemma_lex_asymmetric, lemma_lex_transitive, lex_less, str_less};

verus! {

/// The operations the server offers, in registry order.
#[derive(Clone, Copy, Debug, PartialEq, Eq, Structural)]
pub enum OperationId {
    ConnectionInfo,
    ListBasins,
    GetBasinConfig,
    ListStreams,
    GetStreamConfig,
    CheckTail,
    ReadRecords,
    WaitForRecords,
    DiffResources,
    GetMetrics,
    EnsureBasin,
    EnsureStream,
    AppendRecords,
    ReconfigureBasin,
    ReconfigureStream,
    FenceStream,
    DeleteBasin,
    DeleteStream,
    TrimStream,
    RevokeAccessToken,
}

/// The operation's tool name.
pub open spec fn operation_name(id: OperationId) -> Seq<char> {
    match id {
        OperationId::ConnectionInfo => "connection_info"@,
        OperationId::ListBasins => "list_basins"@,
        OperationId::GetBasinConfig => "get_basin_config"@,
        OperationId::ListStreams => "list_streams"@,
        OperationId::GetStreamConfig => "get_stream_config"@,
        OperationId::CheckTail => "check_tail"@,
        OperationId::ReadRecords => "read_records"@,
        OperationId::WaitForRecords => "wait_for_records"@,
        OperationId::DiffResources => "diff_resources"@,
        OperationId::GetMetrics => "get_metrics"@,
        OperationId::EnsureBasin => "ensure_basin"@,
        OperationId::EnsureStream => "ensure_stream"@,
        OperationId::AppendRecords => "append_records"@,
        OperationId::ReconfigureBasin => "reconfigure_basin"@,
        OperationId::ReconfigureStream => "reconfigure_stream"@,
        OperationId::FenceStream => "fence_stream"@,
        OperationId::DeleteBasin => "delete_basin"@,
        OperationId::DeleteStream => "delete_stream"@,
        OperationId::TrimStream => "trim_stream"@,
        OperationId::RevokeAccessToken => "revoke_access_token"@,
    }
}

/// What the operation does to S2 state.
pub open spec fn operation_access(id: OperationId) -> Access {
    match id {
        OperationId::ConnectionInfo => Access::Read,
        OperationId::ListBasins => Access::Read,
        OperationId::GetBasinConfig => Access::Read,
        OperationId::ListStreams => Access::Read,
        OperationId::GetStreamConfig => Access::Read,
        OperationId::CheckTail => Access::Read,
        OperationId::ReadRecords => Access::Read,
        OperationId::WaitForRecords => Access::Read,
        OperationId::DiffResources => Access::Read,
        OperationId::GetMetrics => Access::Read,
        OperationId::EnsureBasin => Access::Write,
        OperationId::EnsureStream => Access::Write,
        OperationId::AppendRecords => Access::Write,
        OperationId::ReconfigureBasin => Access::Write,
        OperationId::ReconfigureStream => Access::Write,
        OperationId::FenceStream => Access::Write,
        OperationId::DeleteBasin => Access::Destructive,
        OperationId::DeleteStream => Access::Destructive,
        OperationId::TrimStream => Access::Destructive,
        OperationId::RevokeAccessToken => Access::Destructive,
    }
}

/// What the operation reaches.
pub open spec fn operation_scope(id: OperationId) -> Scope {
    match id {
        OperationId::ConnectionInfo => Scope::Global,
        OperationId::ListBasins => Scope::Account,
        OperationId::GetBasinConfig => Scope::Basin,
        OperationId::ListStreams => Scope::Basin,
        OperationId::GetStreamConfig => Scope::Stream,
        OperationId::CheckTail => Scope::Stream,
        OperationId::ReadRecords => Scope::Stream,
        OperationId::WaitForRecords => Scope::Stream,
        OperationId::DiffResources => Scope::Dynamic { applicable_under_basin: true },
        OperationId::GetMetrics => Scope::Dynamic { applicable_under_basin: true },
        OperationId::EnsureBasin => Scope::Basin,
        OperationId::EnsureStream => Scope::Stream,
        OperationId::AppendRecords => Scope::Stream,
        OperationId::ReconfigureBasin => Scope::Basin,
        OperationId::ReconfigureStream => Scope::Stream,
        OperationId::FenceStream => Scope::Stream,
        OperationId::DeleteBasin => Scope::Basin,
        OperationId::DeleteStream => Scope::Stream,
        OperationId::TrimStream => Scope::Stream,
        OperationId::RevokeAccessToken => Scope::Account,
    }
}

/// The operation's description.
pub open spec fn operation_description(id: OperationId) -> Seq<char> {
    match id {
        OperationId::ConnectionInfo => "Describe the active S2 endpoint and server policy without exposing credentials."@,
        OperationId::ListBasins => "List a bounded page of basins in the S2 account."@,
        OperationId::GetBasinConfig => "Get the effective configuration of an S2 basin."@,
        OperationId::ListStreams => "List a bounded page of streams in an S2 basin."@,
        OperationId::GetStreamConfig => "Get the effective configuration of an S2 stream."@,
        OperationId::CheckTail => "Get the current tail sequence number and timestamp for an S2 stream."@,
        OperationId::ReadRecords => "Read a bounded batch of records from an S2 stream without waiting."@,
        OperationId::WaitForRecords => "Wait for and read a bounded batch of records from an S2 stream."@,
        OperationId::DiffResources => "Compare desired basin or stream configurations with their current S2 state."@,
        OperationId::GetMetrics => "Get bounded account, basin, or stream metrics from S2."@,
        OperationId::EnsureBasin => "Create an S2 basin or update it to the requested configuration."@,
        OperationId::EnsureStream => "Create an S2 stream or update it to the requested configuration."@,
        OperationId::AppendRecords => "Atomically append a bounded batch of records to an S2 stream."@,
        OperationId::ReconfigureBasin => "Apply a partial configuration update to an S2 basin."@,
        OperationId::ReconfigureStream => "Apply a partial configuration update to an S2 stream."@,
        OperationId::FenceStream => "Set or clear the fencing token on an S2 stream."@,
        OperationId::DeleteBasin => "Delete an S2 basin."@,
        OperationId::DeleteStream => "Delete an S2 stream."@,
        OperationId::TrimStream => "Advance the earliest retained sequence number of an S2 stream."@,
        OperationId::RevokeAccessToken => "Revoke an S2 access token by ID."@,
    }
}

/// Repeating the operation with the same arguments has no further effect.
pub open spec fn operation_idempotent(id: OperationId) -> bool {
    match id {
        OperationId::ConnectionInfo => true,
        OperationId::ListBasins => true,
        OperationId::GetBasinConfig => true,
        OperationId::ListStreams => true,
        OperationId::GetStreamConfig => true,
        OperationId::CheckTail => true,
        OperationId::ReadRecords => true,
        OperationId::WaitForRecords => true,
        OperationId::DiffResources => true,
        OperationId::GetMetrics => true,
        OperationId::EnsureBasin => true,
        OperationId::EnsureStream => true,
        OperationId::AppendRecords => false,
        OperationId::ReconfigureBasin => true,
        OperationId::ReconfigureStream => true,
        OperationId::FenceStream => false,
        OperationId::DeleteBasin => true,
        OperationId::DeleteStream => true,
        OperationId::TrimStream => false,
        OperationId::RevokeAccessToken => true,
    }
}

/// Every operation, in registry order.
pub open spec fn registry() -> Seq<OperationId> {
    seq![
        OperationId::ConnectionInfo,
        OperationId::ListBasins,
        OperationId::GetBasinConfig,
        OperationId::ListStreams,
        OperationId::GetStreamConfig,
        OperationId::CheckTail,
        OperationId::ReadRecords,
        OperationId::WaitForRecords,
        OperationId::DiffResources,
        OperationId::GetMetrics,
        OperationId::EnsureBasin,
        OperationId::EnsureStream,
        OperationId::AppendRecords,
        OperationId::ReconfigureBasin,
        OperationId::ReconfigureStream,
        OperationId::FenceStream,
        OperationId::DeleteBasin,
        OperationId::DeleteStream,
        OperationId::TrimStream,
        OperationId::RevokeAccessToken,
    ]
}

impl OperationId {
    /// The operation's tool name.
    pub fn name(self) -> (r: &'static str)
        ensures
            r@ == operation_name(self),
    {
        match self {
            OperationId::ConnectionInfo => "connection_info",
            OperationId::ListBasins => "list_basins",
            OperationId::GetBasinConfig => "get_basin_config",
            OperationId::ListStreams => "list_streams",
            OperationId::GetStreamConfig => "get_stream_config",
            OperationId::CheckTail => "check_tail",
            OperationId::ReadRecords => "read_records",
            OperationId::WaitForRecords => "wait_for_records",
            OperationId::DiffResources => "diff_resources",
            OperationId::GetMetrics => "get_metrics",
            OperationId::EnsureBasin => "ensure_basin",
            OperationId::EnsureStream => "ensure_stream",
            OperationId::AppendRecords => "append_records",
            OperationId::ReconfigureBasin => "reconfigure_basin",
            OperationId::ReconfigureStream => "reconfigure_stream",
            OperationId::FenceStream => "fence_stream",
            OperationId::DeleteBasin => "delete_basin",
            OperationId::DeleteStream => "delete_stream",
            OperationId::TrimStream => "trim_stream",
            OperationId::RevokeAccessToken => "revoke_access_token",
        }
    }

    /// What the operation does to S2 state.
    pub fn access(self) -> (r: Access)
        ensures
            r == operation_access(self),
    {
        match self {
            OperationId::ConnectionInfo => Access::Read,
            OperationId::ListBasins => Access::Read,
            OperationId::GetBasinConfig => Access::Read,
            OperationId::ListStreams => Access::Read,
            OperationId::GetStreamConfig => Access::Read,
            OperationId::CheckTail => Access::Read,
            OperationId::ReadRecords => Access::Read,
            OperationId::WaitForRecords => Access::Read,
            OperationId::DiffResources => Access::Read,
            OperationId::GetMetrics => Access::Read,
            OperationId::EnsureBasin => Access::Write,
            OperationId::EnsureStream => Access::Write,
            OperationId::AppendRecords => Access::Write,
            OperationId::ReconfigureBasin => Access::Write,
            OperationId::ReconfigureStream => Access::Write,
            OperationId::FenceStream => Access::Write,
            OperationId::DeleteBasin => Access::Destructive,
            OperationId::DeleteStream => Access::Destructive,
            OperationId::TrimStream => Access::Destructive,
            OperationId::RevokeAccessToken => Access::Destructive,
        }
    }

    /// What the operation reaches.
    pub fn scope(self) -> (r: Scope)
        ensures
            r == operation_scope(self),
    {
        match self {
            OperationId::ConnectionInfo => Scope::Global,
            OperationId::ListBasins => Scope::Account,
            OperationId::GetBasinConfig => Scope::Basin,
            OperationId::ListStreams => Scope::Basin,
            OperationId::GetStreamConfig => Scope::Stream,
            OperationId::CheckTail => Scope::Stream,
            OperationId::ReadRecords => Scope::Stream,
            OperationId::WaitForRecords => Scope::Stream,
            OperationId::DiffResources => Scope::Dynamic { applicable_under_basin: true },
            OperationId::GetMetrics => Scope::Dynamic { applicable_under_basin: true },
            OperationId::EnsureBasin => Scope::Basin,
            OperationId::EnsureStream => Scope::Stream,
            OperationId::AppendRecords => Scope::Stream,
            OperationId::ReconfigureBasin => Scope::Basin,
            OperationId::ReconfigureStream => Scope::Stream,
            OperationId::FenceStream => Scope::Stream,
            OperationId::DeleteBasin => Scope::Basin,
            OperationId::DeleteStream => Scope::Stream,
            OperationId::TrimStream => Scope::Stream,
            OperationId::RevokeAccessToken => Scope::Account,
        }
    }

    /// The operation's description.
    pub fn description(self) -> (r: &'static str)
        ensures
            r@ == operation_description(self),
    {
        match self {
            OperationId::ConnectionInfo => "Describe the active S2 endpoint and server policy without exposing credentials.",
            OperationId::ListBasins => "List a bounded page of basins in the S2 account.",
            OperationId::GetBasinConfig => "Get the effective configuration of an S2 basin.",
            OperationId::ListStreams => "List a bounded page of streams in an S2 basin.",
            OperationId::GetStreamConfig => "Get the effective configuration of an S2 stream.",
            OperationId::CheckTail => "Get the current tail sequence number and timestamp for an S2 stream.",
            OperationId::ReadRecords => "Read a bounded batch of records from an S2 stream without waiting.",
            OperationId::WaitForRecords => "Wait for and read a bounded batch of records from an S2 stream.",
            OperationId::DiffResources => "Compare desired basin or stream configurations with their current S2 state.",
            OperationId::GetMetrics => "Get bounded account, basin, or stream metrics from S2.",
            OperationId::EnsureBasin => "Create an S2 basin or update it to the requested configuration.",
            OperationId::EnsureStream => "Create an S2 stream or update it to the requested configuration.",
            OperationId::AppendRecords => "Atomically append a bounded batch of records to an S2 stream.",
            OperationId::ReconfigureBasin => "Apply a partial configuration update to an S2 basin.",
            OperationId::ReconfigureStream => "Apply a partial configuration update to an S2 stream.",
            OperationId::FenceStream => "Set or clear the fencing token on an S2 stream.",
            OperationId::DeleteBasin => "Delete an S2 basin.",
            OperationId::DeleteStream => "Delete an S2 stream.",
            OperationId::TrimStream => "Advance the earliest retained sequence number of an S2 stream.",
            OperationId::RevokeAccessToken => "Revoke an S2 access token by ID.",
        }
    }

    /// Whether repeating the operation has no further effect.
    pub fn idempotent(self) -> (r: bool)
        ensures
            r == operation_idempotent(self),
    {
        match self {
            OperationId::ConnectionInfo => true,
            OperationId::ListBasins => true,
            OperationId::GetBasinConfig => true,
            OperationId::ListStreams => true,
            OperationId::GetStreamConfig => true,
            OperationId::CheckTail => true,
            OperationId::ReadRecords => true,
            OperationId::WaitForRecords => true,
            OperationId::DiffResources => true,
            OperationId::GetMetrics => true,
            OperationId::EnsureBasin => true,
            OperationId::EnsureStream => true,
            OperationId::AppendRecords => false,
            OperationId::ReconfigureBasin => true,
            OperationId::ReconfigureStream => true,
            OperationId::FenceStream => false,
            OperationId::DeleteBasin => true,
            OperationId::DeleteStream => true,
            OperationId::TrimStream => false,
            OperationId::RevokeAccessToken => true,
        }
    }

    /// Every operation, in registry order.
    pub fn all() -> (ids: Vec<OperationId>)
        ensures
            ids@ == registry(),
    {
        let ids = vec![
            OperationId::ConnectionInfo,
            OperationId::ListBasins,
            OperationId::GetBasinConfig,
            OperationId::ListStreams,
            OperationId::GetStreamConfig,
            OperationId::CheckTail,
            OperationId::ReadRecords,
            OperationId::WaitForRecords,
            OperationId::DiffResources,
            OperationId::GetMetrics,
            OperationId::EnsureBasin,
            OperationId::EnsureStream,
            OperationId::AppendRecords,
            OperationId::ReconfigureBasin,
            OperationId::ReconfigureStream,
            OperationId::FenceStream,
            OperationId::DeleteBasin,
            OperationId::DeleteStream,
            OperationId::TrimStream,
            OperationId::RevokeAccessToken,
        ];
        assert(ids@ =~= registry());
        ids
    }
}

/// The operations of `ids` that the policy allows, in order.
pub open spec fn allowed_in(ids: Seq<OperationId>, p: Policy) -> Seq<OperationId>
    decreases ids.len(),
{
    if ids.len() == 0 {
        Seq::empty()
    } else {
        let rest = allowed_in(ids.drop_last(), p);
        if policy_allows(p, operation_access(ids.last()), operation_scope(ids.last())) {
            rest.push(ids.last())
        } else {
            rest
        }
    }
}

/// An operation is kept from `ids` exactly when it is there and the policy
/// allows it.
pub proof fn lemma_allowed_in_contains(ids: Seq<OperationId>, p: Policy, id: OperationId)
    ensures
        allowed_in(ids, p).contains(id) <==> (ids.contains(id) && policy_allows(
            p,
            operation_access(id),
            operation_scope(id),
        )),
    decreases ids.len(),
{
    if ids.len() > 0 {
        lemma_allowed_in_contains(ids.drop_last(), p, id);
        let rest = allowed_in(ids.drop_last(), p);
        assert(ids =~= ids.drop_last().push(ids.last()));
        if policy_allows(p, operation_access(ids.last()), operation_scope(ids.last())) {
            assert(rest.push(ids.last()).contains(id) <==> (rest.contains(id) || id == ids.last())) by {
                if rest.push(ids.last()).contains(id) && id != ids.last() {
                    let k = choose|k: int| 0 <= k < rest.len() + 1 && rest.push(ids.last())[k] == id;
                    assert(rest[k] == id);
                }
                if rest.contains(id) {
                    let k = choose|k: int| 0 <= k < rest.len() && rest[k] == id;
                    assert(rest.push(ids.last())[k] == id);
                }
                if id == ids.last() {
                    assert(rest.push(ids.last())[rest.len() as int] == id);
                }
            }
        }
        assert(ids.contains(id) <==> (ids.drop_last().contains(id) || id == ids.last())) by {
            if ids.contains(id) && id != ids.last() {
                let k = choose|k: int| 0 <= k < ids.len() && ids[k] == id;
                assert(ids.drop_last()[k] == id);
            }
            if ids.drop_last().contains(id) {
                let k = choose|k: int| 0 <= k < ids.len() - 1 && ids.drop_last()[k] == id;
                assert(ids[k] == id);
            }
            if id == ids.last() {
                assert(ids[ids.len() - 1] == id);
            }
        }
    }
}

/// The server offers an operation, as a tool in tools mode and as a
/// function in code mode, exactly when the policy allows it: both modes
/// enforce the same access policy.
pub proof fn lemma_offered_operations_are_allowed(p: Policy, id: OperationId)
    ensures
        allowed_in(registry(), p).contains(id) <==> policy_allows(p, operation_access(id), operation_scope(id)),
{
    lemma_allowed_in_contains(registry(), p, id);
    let r = registry();
    assert(r.contains(id)) by {
        match id {
            OperationId::ConnectionInfo => assert(r[0] == id),
            OperationId::ListBasins => assert(r[1] == id),
            OperationId::GetBasinConfig => assert(r[2] == id),
            OperationId::ListStreams => assert(r[3] == id),
            OperationId::GetStreamConfig => assert(r[4] == id),
            OperationId::CheckTail => assert(r[5] == id),
            OperationId::ReadRecords => assert(r[6] == id),
            OperationId::WaitForRecords => assert(r[7] == id),
            OperationId::DiffResources => assert(r[8] == id),
            OperationId::GetMetrics => assert(r[9] == id),
            OperationId::EnsureBasin => assert(r[10] == id),
            OperationId::EnsureStream => assert(r[11] == id),
            OperationId::AppendRecords => assert(r[12] == id),
            OperationId::ReconfigureBasin => assert(r[13] == id),
            OperationId::ReconfigureStream => assert(r[14] == id),
            OperationId::FenceStream => assert(r[15] == id),
            OperationId::DeleteBasin => assert(r[16] == id),
            OperationId::DeleteStream => assert(r[17] == id),
            OperationId::TrimStream => assert(r[18] == id),
            OperationId::RevokeAccessToken => assert(r[19] == id),
        }
    }
}

/// The operations the policy allows, in registry order.
pub fn allowed_operations(policy: &Policy) -> (ids: Vec<OperationId>)
    ensures
        ids@ == allowed_in(registry(), *policy),
{
    let all = OperationId::all();
    let mut ids: Vec<OperationId> = Vec::new();
    let mut i: usize = 0;
    assert(all@.subrange(0, 0) =~= Seq::<OperationId>::empty());
    while i < all.len()
        invariant
            all@ == registry(),
            i <= all@.len(),
            ids@ == allowed_in(all@.subrange(0, i as int), *policy),
        decreases all@.len() - i,
    {
        assert(all@.subrange(0, i + 1).drop_last() =~= all@.subrange(0, i as int));
        let id = all[i];
        if policy.allows(id.access(), id.scope()) {
            ids.push(id);
        }
        i = i + 1;
    }
    assert(all@.subrange(0, all@.len() as int) =~= all@);
    ids
}

/// The hints a tool carries for its callers.
pub struct ToolHints {
    pub read_only: bool,
    pub destructive: bool,
    pub idempotent: bool,
    pub open_world: bool,
}

/// The hints of an operation's tool: read-only for reads, destructive for
/// destructive operations, open-world unless global.
pub fn tool_hints(id: OperationId) -> (h: ToolHints)
    ensures
        h.read_only == (operation_access(id) == Access::Read),
        h.destructive == (operation_access(id) == Access::Destructive),
        h.idempotent == operation_idempotent(id),
        h.open_world == (operation_scope(id) != Scope::Global),
{
    ToolHints {
        read_only: id.access() == Access::Read,
        destructive: id.access() == Access::Destructive,
        idempotent: id.idempotent(),
        open_world: id.scope() != Scope::Global,
    }
}

/// The first operation of `ids` whose tool name is `name`.
pub fn find_operation(ids: &Vec<OperationId>, name: &str) -> (r: Option<OperationId>)
    ensures
        r matches Some(id) ==> exists|i: int|
            0 <= i < ids@.len() && ids@[i] == id && operation_name(id) == name@ && forall|j: int|
                0 <= j < i ==> operation_name(#[trigger] ids@[j]) != name@,
        r is None ==> forall|i: int| 0 <= i < ids@.len() ==> operation_name(#[trigger] ids@[i]) != name@,
{
    let mut i: usize = 0;
    while i < ids.len()
        invariant
            i <= ids@.len(),
            forall|j: int| 0 <= j < i ==> operation_name(#[trigger] ids@[j]) != name@,
        decreases ids@.len() - i,
    {
        if crate::text::str_eq(ids[i].name(), name) {
            return Some(ids[i]);
        }
        i = i + 1;
    }
    None
}

/// The operations are in order of tool name.
pub open spec fn names_sorted(ids: Seq<OperationId>) -> bool {
    forall|i: int, j: int|
        0 <= i < j < ids.len() ==> !lex_less(operation_name(#[trigger] ids[j]), operation_name(#[trigger] ids[i]))
}

/// The operations ordered by tool name (the order in which tools are listed).
pub fn sort_by_name(ids: Vec<OperationId>) -> (out: Vec<OperationId>)
    ensures
        out@.to_multiset() == ids@.to_multiset(),
        names_sorted(out@),
{
    broadcast use vstd::seq_lib::group_to_multiset_ensures;

    let mut out: Vec<OperationId> = Vec::new();
    let mut k: usize = 0;
    assert(ids@.subrange(0, 0) =~= Seq::<OperationId>::empty());
    while k < ids.len()
        invariant
            k <= ids@.len(),
            out@.to_multiset() == ids@.subrange(0, k as int).to_multiset(),
            names_sorted(out@),
        decreases ids@.len() - k,
    {
        let x = ids[k];
        let mut p: usize = 0;
        while p < out.len() && !str_less(x.name(), out[p].name())
            invariant
                p <= out@.len(),
                forall|q: int| 0 <= q < p ==> !lex_less(operation_name(x), operation_name(#[trigger] out@[q])),
            decreases out@.len() - p,
        {
            p = p + 1;
        }
        let ghost before = out@;
        proof {
            if p < before.len() {
                lemma_lex_asymmetric(operation_name(x), operation_name(before[p as int]));
            }
            assert forall|i: int, j: int|
                0 <= i < j < before.len() + 1 implies !lex_less(
                operation_name(#[trigger] before.insert(p as int, x)[j]),
                operation_name(#[trigger] before.insert(p as int, x)[i]),
            ) by {
                let s = before.insert(p as int, x);
                if i < p && j == p {
                } else if i == p && j > p {
                    let t = before[j - 1];
                    assert(s[j] == t);
                    if lex_less(operation_name(t), operation_name(x)) {
                        assert(!lex_less(operation_name(t), operation_name(before[p as int])));
                        lemma_lex_transitive(operation_name(t), operation_name(x), operation_name(before[p as int]));
                    }
                } else if i < p && j > p {
                    assert(s[j] == before[j - 1]);
                    assert(s[i] == before[i]);
                } else if i > p {
                    assert(s[j] == before[j - 1]);
                    assert(s[i] == before[i - 1]);
                } else {
                    assert(s[j] == before[j]);
                    assert(s[i] == before[i]);
                }
            }
        }
        out.insert(p, x);
        proof {
            vstd::seq_lib::to_multiset_insert(before, p as int, x);
            vstd::seq_lib::to_multiset_build(ids@.subrange(0, k as int), x);
        }
        assert(ids@.subrange(0, k + 1) =~= ids@.subrange(0, k as int).push(x));
        k = k + 1;
    }
    assert(ids@.subrange(0, ids@.len() as int) =~= ids@);
    out
}

/// Without a basin confinement the catalog offers all 20 operations when
/// destructive operations are enabled, the 16 that do not delete by default,
/// and the 10 reads in read-only mode.
pub proof fn lemma_tool_counts(p: Policy)
    requires
        p.basin is None,
    ensures
        !p.readonly && p.allow_destructive ==> allowed_in(registry(), p).len() == 20,
        !p.readonly && !p.allow_destructive ==> allowed_in(registry(), p).len() == 16,
        p.readonly ==> allowed_in(registry(), p).len() == 10,
{
    reveal_with_fuel(allowed_in, 21);
}

/// A read-only server offers exactly the ten reads, in registry order, and
/// refuses every operation that changes S2 state, whether destructive
/// operations are enabled or not.
pub proof fn lemma_readonly_catalog(p: Policy)
    requires
        p.readonly,
        p.basin is None,
    ensures
        allowed_in(registry(), p) == seq![
            OperationId::ConnectionInfo,
            OperationId::ListBasins,
            OperationId::GetBasinConfig,
            OperationId::ListStreams,
            OperationId::GetStreamConfig,
            OperationId::CheckTail,
            OperationId::ReadRecords,
            OperationId::WaitForRecords,
            OperationId::DiffResources,
            OperationId::GetMetrics,
        ],
        forall|id: OperationId|
            (id == OperationId::EnsureBasin || id == OperationId::EnsureStream || id == OperationId::AppendRecords
                || id == OperationId::ReconfigureBasin || id == OperationId::ReconfigureStream || id
                == OperationId::FenceStream || id == OperationId::DeleteBasin || id == OperationId::DeleteStream
                || id == OperationId::TrimStream || id == OperationId::RevokeAccessToken) ==> !policy_allows(
                p,
                #[trigger] operation_access(id),
                operation_scope(id),
            ),
{
    reveal_with_fuel(allowed_in, 21);
    assert(allowed_in(registry(), p) =~= seq![
        OperationId::ConnectionInfo,
        OperationId::ListBasins,
        OperationId::GetBasinConfig,
        OperationId::ListStreams,
        OperationId::GetStreamConfig,
        OperationId::CheckTail,
        OperationId::ReadRecords,
        OperationId::WaitForRecords,
        OperationId::DiffResources,
        OperationId::GetMetrics,
    ]);
}

} // verus!

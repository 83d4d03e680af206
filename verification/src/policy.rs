use vstd::prelude::*;

use crate::errors::{Error, PolicyError};
use crate::text::{copy_str, str_eq};

verus! {

/// What an operation does to S2 state.
#[derive(Clone, Copy, PartialEq, Eq, Structural)]
pub enum Access {
    Read,
    Write,
    Destructive,
}

/// What an operation reaches: nothing remote, the account, one basin, one
/// stream, or a target chosen by its arguments.
#[derive(Clone, Copy, PartialEq, Eq, Structural)]
pub enum Scope {
    Global,
    Account,
    Basin,
    Stream,
    Dynamic { applicable_under_basin: bool },
}

/// The scope stays meaningful when the server is confined to one basin.
pub open spec fn applicable_under_basin(scope: Scope) -> bool {
    match scope {
        Scope::Account => false,
        Scope::Dynamic { applicable_under_basin } => applicable_under_basin,
        _ => true,
    }
}

/// Operations of this scope name a basin, which a basin-confined server
/// fills in when the caller leaves it out.
pub open spec fn accepts_basin_injection(scope: Scope) -> bool {
    match scope {
        Scope::Basin | Scope::Stream => true,
        Scope::Dynamic { applicable_under_basin } => applicable_under_basin,
        _ => false,
    }
}

impl Scope {
    pub fn applicable_under_basin(self) -> (b: bool)
        ensures
            b == applicable_under_basin(self),
    {
        match self {
            Scope::Account => false,
            Scope::Dynamic { applicable_under_basin } => applicable_under_basin,
            _ => true,
        }
    }

    pub fn accepts_basin_injection(self) -> (b: bool)
        ensures
            b == accepts_basin_injection(self),
    {
        match self {
            Scope::Basin | Scope::Stream => true,
            Scope::Dynamic { applicable_under_basin } => applicable_under_basin,
            _ => false,
        }
    }
}

/// The server's access policy: read-only, confined to one basin, and whether
/// destructive operations are allowed.
#[derive(Clone)]
pub struct Policy {
    pub readonly: bool,
    pub basin: Option<String>,
    pub allow_destructive: bool,
}

impl Default for Policy {
    fn default() -> (p: Self)
        ensures
            !p.readonly,
            p.basin is None,
            !p.allow_destructive,
    {
        Policy { readonly: false, basin: None, allow_destructive: false }
    }
}

/// Destructive operations are allowed: not read-only, and asked for.
pub open spec fn allows_destructive(p: Policy) -> bool {
    !p.readonly && p.allow_destructive
}

/// The policy allows an operation of this access and scope.
pub open spec fn policy_allows(p: Policy, access: Access, scope: Scope) -> bool {
    if p.basin is Some && !applicable_under_basin(scope) {
        false
    } else {
        match access {
            Access::Read => true,
            Access::Write => !p.readonly,
            Access::Destructive => allows_destructive(p),
        }
    }
}

impl Policy {
    pub fn allows(&self, access: Access, scope: Scope) -> (b: bool)
        ensures
            b == policy_allows(*self, access, scope),
    {
        if self.basin.is_some() && !scope.applicable_under_basin() {
            return false;
        }
        match access {
            Access::Read => true,
            Access::Write => !self.readonly,
            Access::Destructive => self.allows_destructive(),
        }
    }

    pub fn allows_destructive(&self) -> (b: bool)
        ensures
            b == allows_destructive(*self),
    {
        !self.readonly && self.allow_destructive
    }

    /// Refuses an operation that the policy does not allow.
    pub fn enforce_operation(&self, access: Access, scope: Scope) -> (r: Result<(), Error>)
        ensures
            r is Ok <==> policy_allows(*self, access, scope),
            r is Err ==> r->Err_0 matches Error::Policy(PolicyError::Forbidden),
    {
        if !self.allows(access, scope) {
            return Err(Error::Policy(PolicyError::Forbidden));
        }
        Ok(())
    }

    /// Refuses a basin other than the one the server is confined to.
    pub fn enforce_basin(&self, requested: &str) -> (r: Result<(), Error>)
        ensures
            r is Ok <==> (self.basin matches Some(allowed) ==> requested@ == allowed@),
            r matches Err(e) ==> (e matches Error::Policy(PolicyError::BasinScope { requested: q, allowed: a })
                && q@ == requested@ && self.basin is Some && a@ == self.basin->0@),
    {
        if let Some(allowed) = &self.basin {
            if !str_eq(requested, allowed.as_str()) {
                return Err(
                    Error::Policy(PolicyError::BasinScope { requested: copy_str(requested), allowed: copy_str(allowed.as_str()) }),
                );
            }
        }
        Ok(())
    }
}

/// A read-only server allows reads only.
pub proof fn lemma_readonly_allows_only_reads(p: Policy, access: Access, scope: Scope)
    requires
        p.readonly,
        policy_allows(p, access, scope),
    ensures
        access == Access::Read,
{
}

/// Whatever allows a destructive operation allows a write of the same scope,
/// and whatever allows a write allows a read.
pub proof fn lemma_access_is_graded(p: Policy, scope: Scope)
    ensures
        policy_allows(p, Access::Destructive, scope) ==> policy_allows(p, Access::Write, scope),
        policy_allows(p, Access::Write, scope) ==> policy_allows(p, Access::Read, scope),
{
}

/// A server confined to a basin allows nothing of account scope.
pub proof fn lemma_basin_confinement_excludes_account(p: Policy, access: Access)
    requires
        p.basin is Some,
    ensures
        !policy_allows(p, access, Scope::Account),
{
}

/// Without confinement, read-only or a refusal of destructive operations,
/// everything is allowed.
pub proof fn lemma_unrestricted_policy_allows_all(p: Policy, access: Access, scope: Scope)
    requires
        p.basin is None,
        !p.readonly,
        p.allow_destructive,
    ensures
        policy_allows(p, access, scope),
{
}

/// With `--readonly`, `--allow-destructive` has no effect.
pub proof fn lemma_destructive_flag_ignored_when_readonly(p: Policy, allow_destructive: bool, access: Access, scope: Scope)
    requires
        p.readonly,
    ensures
        policy_allows(p, access, scope) == policy_allows(
            Policy { readonly: p.readonly, basin: p.basin, allow_destructive },
            access,
            scope,
        ),
{
}

/// The mode in which the server exposes S2.
#[derive(Clone, Copy, PartialEq, Eq, Structural)]
pub enum ServerMode {
    Code,
    Tools,
}

impl Default for ServerMode {
    fn default() -> (m: Self)
        ensures
            m == ServerMode::Code,
    {
        ServerMode::Code
    }
}

/// How the server is started.
pub struct ServerOptions {
    pub mode: ServerMode,
    pub policy: Policy,
}

impl Default for ServerOptions {
    fn default() -> (o: Self)
        ensures
            o.mode == ServerMode::Code,
            !o.policy.readonly,
            o.policy.basin is None,
            !o.policy.allow_destructive,
    {
        ServerOptions { mode: ServerMode::default(), policy: Policy::default() }
    }
}

/// The policy with the same settings but no basin confinement.
pub open spec fn unconfined(p: Policy) -> Policy {
    Policy { readonly: p.readonly, basin: None, allow_destructive: p.allow_destructive }
}

/// Confining the server to a basin takes away nothing of global, basin or
/// stream scope: such an operation is allowed under the confinement exactly
/// when it is allowed without it.
pub proof fn lemma_confinement_keeps_global_basin_and_stream(p: Policy, access: Access)
    ensures
        policy_allows(p, access, Scope::Global) == policy_allows(unconfined(p), access, Scope::Global),
        policy_allows(p, access, Scope::Basin) == policy_allows(unconfined(p), access, Scope::Basin),
        policy_allows(p, access, Scope::Stream) == policy_allows(unconfined(p), access, Scope::Stream),
{
}

} // verus!

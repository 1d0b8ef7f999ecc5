//! Who may use the administration interface of a listener, and for what.

use crate::addr::IpAddress;
use crate::cidr::{cidr_contains, cidr_named, parse_cidr, CidrBlock};
use crate::config::{
    AdminAuthPolicyConfig, AdminAuthorizationScopeConfig, AdminOperatorConfig,
    ListenerResourceConfig,
};
use crate::error::ServeError;
use crate::named_map::NamedMap;
use vstd::prelude::*;

verus! {

/// What an operator may do.
#[derive(Debug, Clone, Copy, PartialEq, Eq, PartialOrd, Ord, Structural)]
pub enum AdminPermission {
    Read,
    Audit,
    Write,
}

/// The permission in words.
pub open spec fn permission_name(permission: AdminPermission) -> Seq<char> {
    match permission {
        AdminPermission::Read => "read"@,
        AdminPermission::Audit => "audit"@,
        AdminPermission::Write => "write"@,
    }
}

/// The permission in words.
pub fn admin_permission_name(permission: AdminPermission) -> (r: &'static str)
    ensures
        r@ == permission_name(permission),
{
    match permission {
        AdminPermission::Read => "read",
        AdminPermission::Audit => "audit",
        AdminPermission::Write => "write",
    }
}

/// The permissions of an operator.
#[derive(Debug, Clone, Copy, PartialEq, Eq, Structural)]
pub struct PermissionSet {
    pub read: bool,
    pub audit: bool,
    pub write: bool,
}

impl PermissionSet {
    /// Whether the permission is among them.
    pub open spec fn has(self, permission: AdminPermission) -> bool {
        match permission {
            AdminPermission::Read => self.read,
            AdminPermission::Audit => self.audit,
            AdminPermission::Write => self.write,
        }
    }

    /// Whether the permission is among them.
    pub fn contains(&self, permission: AdminPermission) -> (r: bool)
        ensures
            r == self.has(permission),
    {
        match permission {
            AdminPermission::Read => self.read,
            AdminPermission::Audit => self.audit,
            AdminPermission::Write => self.write,
        }
    }
}

/// The permission that a scope of the configuration grants.
pub open spec fn scope_permission(scope: AdminAuthorizationScopeConfig) -> AdminPermission {
    match scope {
        AdminAuthorizationScopeConfig::Read => AdminPermission::Read,
        AdminAuthorizationScopeConfig::Audit => AdminPermission::Audit,
        AdminAuthorizationScopeConfig::Write => AdminPermission::Write,
    }
}

/// Whether exactly the permissions that the scopes grant are in a set.
pub open spec fn grants(
    scopes: Seq<AdminAuthorizationScopeConfig>,
    permissions: PermissionSet,
) -> bool {
    forall|p: AdminPermission| #[trigger]
        permissions.has(p) <==> exists|i: int|
            0 <= i < scopes.len() && scope_permission(#[trigger] scopes[i]) == p
}

/// The permissions that the scopes of the configuration grant.
pub fn compile_admin_permissions(scopes: &Vec<AdminAuthorizationScopeConfig>) -> (r: PermissionSet)
    ensures
        grants(scopes@, r),
{
    let mut set = PermissionSet { read: false, audit: false, write: false };
    let mut i: usize = 0;
    while i < scopes.len()
        invariant
            i <= scopes@.len(),
            forall|p: AdminPermission| #[trigger]
                set.has(p) <==> exists|j: int|
                    0 <= j < i && scope_permission(#[trigger] scopes@[j]) == p,
        decreases scopes@.len() - i,
    {
        let ghost before = set;
        match scopes[i] {
            AdminAuthorizationScopeConfig::Read => {
                set.read = true;
            },
            AdminAuthorizationScopeConfig::Audit => {
                set.audit = true;
            },
            AdminAuthorizationScopeConfig::Write => {
                set.write = true;
            },
        }
        proof {
            assert forall|p: AdminPermission| #[trigger]
                set.has(p) <==> exists|j: int|
                    0 <= j < i + 1 && scope_permission(#[trigger] scopes@[j]) == p by {
                assert(before.has(p) ==> exists|j: int|
                    0 <= j < i && scope_permission(#[trigger] scopes@[j]) == p);
                if scope_permission(scopes@[i as int]) == p {
                    assert(set.has(p));
                } else {
                    assert(set.has(p) == before.has(p));
                }
            }
        }
        i = i + 1;
    }
    set
}

/// An operator who signs requests.
#[derive(Debug)]
pub struct CompiledAdminOperator {
    pub secret_env: String,
    pub permissions: PermissionSet,
}

/// How requests are authenticated.
#[derive(Debug)]
pub enum CompiledAdminAuthPolicy {
    Bearer { secret_env: String, permissions: PermissionSet },
    SignedHeaders {
        operators: NamedMap<CompiledAdminOperator>,
        max_clock_skew_secs: u64,
        nonce_ttl_secs: u64,
    },
}

/// How often one identity may ask.
#[derive(Debug, Clone, Copy, PartialEq, Eq, Structural)]
pub struct CompiledAdminRateLimit {
    pub requests_per_minute: u32,
    pub burst: u32,
}

/// Who may use the administration interface of a listener, and for what.
#[derive(Debug)]
pub struct CompiledAdminPolicy {
    pub auth: CompiledAdminAuthPolicy,
    pub allowed_source_cidrs: Vec<CidrBlock>,
    pub rate_limit: CompiledAdminRateLimit,
    pub audit_capacity: usize,
}

impl CompiledAdminPolicy {
    /// Every block of allowed sources is well formed.
    pub open spec fn wf(self) -> bool {
        forall|i: int|
            0 <= i < self.allowed_source_cidrs@.len() ==> (#[trigger] self.allowed_source_cidrs@[i])
                .wf()
    }

    /// Whether requests from an address are looked at: from any address where no block is named,
    /// else from those in one of the blocks.
    pub open spec fn source_allowed(self, ip: IpAddress) -> bool {
        self.allowed_source_cidrs@.len() == 0 || exists|i: int|
            0 <= i < self.allowed_source_cidrs@.len()
                && (#[trigger] self.allowed_source_cidrs@[i]).covers(ip)
    }
}

/// Whether requests from an address are looked at.
pub fn admin_source_allowed(source_ip: IpAddress, policy: &CompiledAdminPolicy) -> (r: bool)
    requires
        policy.wf(),
    ensures
        r == policy.source_allowed(source_ip),
{
    if policy.allowed_source_cidrs.len() == 0 {
        return true;
    }
    let mut i: usize = 0;
    while i < policy.allowed_source_cidrs.len()
        invariant
            policy.wf(),
            i <= policy.allowed_source_cidrs@.len(),
            forall|j: int|
                0 <= j < i ==> !(#[trigger] policy.allowed_source_cidrs@[j]).covers(source_ip),
        decreases policy.allowed_source_cidrs@.len() - i,
    {
        if cidr_contains(&policy.allowed_source_cidrs[i], &source_ip) {
            return true;
        }
        i = i + 1;
    }
    false
}

/// The operator that a map gives for an identity: the last one of that identity in the list.
pub open spec fn last_operator(list: Seq<AdminOperatorConfig>, id: Seq<char>) -> Option<
    AdminOperatorConfig,
>
    decreases list.len(),
{
    if list.len() == 0 {
        None
    } else if list.last().id@ == id {
        Some(list.last())
    } else {
        last_operator(list.drop_last(), id)
    }
}

/// Whether a map holds the operators of a list, the last one of each identity.
pub open spec fn holds_operators(
    list: Seq<AdminOperatorConfig>,
    operators: Map<Seq<char>, CompiledAdminOperator>,
) -> bool {
    forall|id: Seq<char>|
        match last_operator(list, id) {
            Some(operator) => {
                &&& #[trigger] operators.contains_key(id)
                &&& operators[id].secret_env == operator.secret_env
                &&& grants(operator.permissions@, operators[id].permissions)
            },
            None => !operators.contains_key(id),
        }
}

fn compile_operators(list: &Vec<AdminOperatorConfig>) -> (r: NamedMap<CompiledAdminOperator>)
    ensures
        holds_operators(list@, r@),
{
    let mut out: NamedMap<CompiledAdminOperator> = NamedMap::new();
    let mut i: usize = 0;
    while i < list.len()
        invariant
            i <= list@.len(),
            holds_operators(list@.take(i as int), out@),
        decreases list@.len() - i,
    {
        let ghost before = out@;
        let compiled = CompiledAdminOperator {
            secret_env: list[i].secret_env.clone(),
            permissions: compile_admin_permissions(&list[i].permissions),
        };
        out.insert(list[i].id.clone(), compiled);
        proof {
            let t = list@.take(i + 1);
            assert(t.drop_last() =~= list@.take(i as int));
            assert forall|id: Seq<char>|
                match last_operator(t, id) {
                    Some(operator) => {
                        &&& #[trigger] out@.contains_key(id)
                        &&& out@[id].secret_env == operator.secret_env
                        &&& grants(operator.permissions@, out@[id].permissions)
                    },
                    None => !out@.contains_key(id),
                } by {
                assert(before.contains_key(id) || !before.contains_key(id));
            }
        }
        i = i + 1;
    }
    proof {
        assert(list@.take(list@.len() as int) =~= list@);
    }
    out
}

/// The first text in a list that denotes no block.
pub open spec fn first_bad_cidr(list: Seq<String>) -> Option<int>
    decreases list.len(),
{
    if list.len() == 0 {
        None
    } else {
        match first_bad_cidr(list.drop_last()) {
            Some(i) => Some(i),
            None => if cidr_named(list.last()@) is None {
                Some(list.len() - 1)
            } else {
                None
            },
        }
    }
}

fn compile_cidrs(list: &Vec<String>) -> (r: Result<Vec<CidrBlock>, ServeError>)
    ensures
        match r {
            Ok(blocks) => {
                &&& first_bad_cidr(list@) is None
                &&& blocks@.len() == list@.len()
                &&& forall|i: int|
                    0 <= i < blocks@.len() ==> cidr_named(list@[i]@) == Some(#[trigger] blocks@[i])
                        && blocks@[i].wf()
            },
            Err(e) => first_bad_cidr(list@) is Some && e.message@ == "invalid IP address syntax"@,
        },
{
    let mut out: Vec<CidrBlock> = Vec::new();
    let mut i: usize = 0;
    while i < list.len()
        invariant
            i <= list@.len(),
            out@.len() == i,
            first_bad_cidr(list@.take(i as int)) is None,
            forall|j: int|
                0 <= j < i ==> cidr_named(list@[j]@) == Some(#[trigger] out@[j]) && out@[j].wf(),
        decreases list@.len() - i,
    {
        proof {
            assert(list@.take(i + 1).drop_last() =~= list@.take(i as int));
        }
        match parse_cidr(list[i].as_str()) {
            Ok(block) => {
                out.push(block);
            },
            Err(message) => {
                proof {
                    assert(first_bad_cidr(list@.take(i + 1)) is Some);
                    lemma_bad_cidr_stays(list@, i + 1);
                }
                return Err(ServeError { message });
            },
        }
        i = i + 1;
    }
    proof {
        assert(list@.take(list@.len() as int) =~= list@);
    }
    Ok(out)
}

proof fn lemma_bad_cidr_stays(list: Seq<String>, n: int)
    requires
        0 <= n <= list.len(),
        first_bad_cidr(list.take(n)) is Some,
    ensures
        first_bad_cidr(list) is Some,
    decreases list.len(),
{
    if n == list.len() {
        assert(list.take(n) =~= list);
    } else {
        assert(list.drop_last().take(n) =~= list.take(n));
        lemma_bad_cidr_stays(list.drop_last(), n);
    }
}

/// Whether a policy is what the administration settings of a listener say.
pub open spec fn compiles_admin(
    listener: ListenerResourceConfig,
    policy: CompiledAdminPolicy,
) -> bool {
    &&& match (listener.admin.auth, policy.auth) {
        (
            AdminAuthPolicyConfig::Bearer { secret_env, permissions },
            CompiledAdminAuthPolicy::Bearer { secret_env: compiled_env, permissions: compiled },
        ) => compiled_env == secret_env && grants(permissions@, compiled),
        (
            AdminAuthPolicyConfig::SignedHeaders { operators, max_clock_skew_secs, nonce_ttl_secs },
            CompiledAdminAuthPolicy::SignedHeaders {
                operators: compiled,
                max_clock_skew_secs: skew,
                nonce_ttl_secs: ttl,
            },
        ) => {
            &&& holds_operators(operators@, compiled@)
            &&& skew == max_clock_skew_secs
            &&& ttl == nonce_ttl_secs
        },
        _ => false,
    }
    &&& policy.allowed_source_cidrs@.len() == listener.admin.allowed_source_cidrs@.len()
    &&& forall|i: int|
        0 <= i < policy.allowed_source_cidrs@.len() ==> cidr_named(
            listener.admin.allowed_source_cidrs@[i]@,
        ) == Some(#[trigger] policy.allowed_source_cidrs@[i])
    &&& policy.rate_limit.requests_per_minute == listener.admin.rate_limit.requests_per_minute
    &&& policy.rate_limit.burst == listener.admin.rate_limit.burst
    &&& policy.audit_capacity == listener.admin.max_retained_audit_events
    &&& policy.wf()
}

/// Compiles the administration settings of a listener. It fails if and only if some block of
/// allowed sources cannot be read.
pub fn compile_admin_policy(listener: &ListenerResourceConfig) -> (r: Result<
    CompiledAdminPolicy,
    ServeError,
>)
    ensures
        match r {
            Ok(policy) => first_bad_cidr(listener.admin.allowed_source_cidrs@) is None
                && compiles_admin(*listener, policy),
            Err(e) => first_bad_cidr(listener.admin.allowed_source_cidrs@) is Some && e.message@
                == "invalid IP address syntax"@,
        },
{
    let auth = match &listener.admin.auth {
        AdminAuthPolicyConfig::Bearer { secret_env, permissions } => {
            CompiledAdminAuthPolicy::Bearer {
                secret_env: secret_env.clone(),
                permissions: compile_admin_permissions(permissions),
            }
        },
        AdminAuthPolicyConfig::SignedHeaders { operators, max_clock_skew_secs, nonce_ttl_secs } => {
            CompiledAdminAuthPolicy::SignedHeaders {
                operators: compile_operators(operators),
                max_clock_skew_secs: *max_clock_skew_secs,
                nonce_ttl_secs: *nonce_ttl_secs,
            }
        },
    };
    let allowed_source_cidrs = match compile_cidrs(&listener.admin.allowed_source_cidrs) {
        Ok(blocks) => blocks,
        Err(e) => {
            return Err(e);
        },
    };
    Ok(
        CompiledAdminPolicy {
            auth,
            allowed_source_cidrs,
            rate_limit: CompiledAdminRateLimit {
                requests_per_minute: listener.admin.rate_limit.requests_per_minute,
                burst: listener.admin.rate_limit.burst,
            },
            audit_capacity: listener.admin.max_retained_audit_events,
        },
    )
}

} // verus!

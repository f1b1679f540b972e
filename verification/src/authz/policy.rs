//! Policy model: rules, conditions, resources, requests, grants and decisions.
use vstd::prelude::*;
use crate::assoc::{lookup, set_entry, unique_keys};
use crate::text::{owned, cat3, join, join_with, views, lemma_map_push, lemma_map_take_step};
use crate::contract::claims::ClaimValue;
use crate::contract::delegation::ResourceScope;
use crate::contract::ids::{AuditEventId, Capability, DelegationId, PolicyId, PrincipalId, RunId, TaskId, TenantId};
use crate::contract::principal::PrincipalKind;

verus! {

#[derive(Debug, PartialEq, Eq)]
pub struct Policy {
    pub id: PolicyId,
    pub rules: Vec<Rule>,
}

#[derive(Debug, PartialEq, Eq)]
pub struct Rule {
    pub capability: Capability,
    pub condition: Condition,
    pub resource: Option<ResourceSelector>,
    pub action: Option<Action>,
    pub effect: Effect,
}

impl Rule {
    /// A rule granting `capability` for any resource and action when
    /// `condition` holds.
    pub fn allow(capability: &str, condition: Condition) -> (r: Self)
        ensures
            r.capability.0@ == capability@,
            r.condition == condition,
            r.resource is None,
            r.action is None,
            r.effect == Effect::Allow,
    {
        Rule {
            capability: Capability(owned(capability)),
            condition,
            resource: None,
            action: None,
            effect: Effect::Allow,
        }
    }
}

#[derive(Debug, Clone, Copy, PartialEq, Eq, Structural)]
pub enum Effect {
    Allow,
    Deny,
}

#[derive(Debug, Clone, PartialEq, Eq)]
pub struct Action(pub String);

impl Action {
    pub fn as_str(&self) -> (r: &str)
        ensures
            r@ == self.0@,
    {
        self.0.as_str()
    }
}

#[derive(Debug, Clone, PartialEq, Eq)]
pub struct ResourceRef {
    pub resource_type: String,
    pub resource_id: String,
    pub tenant_id: TenantId,
}

impl ResourceRef {
    pub fn new(resource_type: &str, resource_id: &str, tenant_id: &str) -> (r: Self)
        ensures
            r.resource_type@ == resource_type@,
            r.resource_id@ == resource_id@,
            r.tenant_id.0@ == tenant_id@,
    {
        ResourceRef {
            resource_type: owned(resource_type),
            resource_id: owned(resource_id),
            tenant_id: TenantId(owned(tenant_id)),
        }
    }

    /// `type:id`.
    pub fn opaque(&self) -> (r: String)
        ensures
            r@ == self.resource_type@ + ":"@ + self.resource_id@,
    {
        cat3(self.resource_type.as_str(), ":", self.resource_id.as_str())
    }
}

#[derive(Debug, Clone, PartialEq, Eq)]
pub struct ResourceSelector {
    pub resource_type: String,
    pub resource_id: Option<String>,
}

/// A selector matches a resource of its type; a selector id, where given,
/// must be `*` or the resource's id.
pub open spec fn selector_matches(s: ResourceSelector, r: ResourceRef) -> bool {
    &&& s.resource_type@ == r.resource_type@
    &&& match s.resource_id {
        Some(id) => id@ == "*"@ || id@ == r.resource_id@,
        None => true,
    }
}

impl ResourceSelector {
    pub fn any(resource_type: &str) -> (r: Self)
        ensures
            r.resource_type@ == resource_type@,
            r.resource_id is None,
    {
        ResourceSelector { resource_type: owned(resource_type), resource_id: None }
    }

    pub fn exact(resource_type: &str, resource_id: &str) -> (r: Self)
        ensures
            r.resource_type@ == resource_type@,
            r.resource_id matches Some(id) && id@ == resource_id@,
    {
        ResourceSelector { resource_type: owned(resource_type), resource_id: Some(owned(resource_id)) }
    }

    pub fn matches(&self, resource: &ResourceRef) -> (r: bool)
        ensures
            r == selector_matches(*self, *resource),
    {
        if self.resource_type != resource.resource_type {
            return false;
        }
        match &self.resource_id {
            Some(id) => {
                let star = owned("*");
                proof {
                    reveal_strlit("*");
                }
                *id == star || *id == resource.resource_id
            },
            None => true,
        }
    }
}

/// The facts a resource resolver reports about a resource.
#[derive(Debug, Clone, PartialEq, Eq, Default)]
pub struct ResourceAttributes {
    pub tenant_id: Option<TenantId>,
    pub values: Vec<(String, ClaimValue)>,
}

impl ResourceAttributes {
    pub fn new() -> (r: Self)
        ensures
            r.tenant_id is None,
            r.values@.len() == 0,
    {
        ResourceAttributes { tenant_id: None, values: Vec::new() }
    }

    pub fn with_tenant(self, tenant_id: &str) -> (r: Self)
        ensures
            r.tenant_id matches Some(t) && t.0@ == tenant_id@,
            r.values == self.values,
    {
        let mut s = self;
        s.tenant_id = Some(TenantId(owned(tenant_id)));
        s
    }

    pub fn with_value(self, key: &str, value: ClaimValue) -> (r: Self)
        ensures
            r.tenant_id == self.tenant_id,
            lookup(r.values@, key@) == Some(value),
            forall|k: Seq<char>| k != key@ ==> lookup(r.values@, k) == lookup(self.values@, k),
            unique_keys(self.values@) ==> unique_keys(r.values@),
    {
        let mut s = self;
        set_entry(&mut s.values, owned(key), value);
        s
    }
}

#[derive(Debug, Clone, PartialEq, Eq, Default)]
pub struct AuthorizationContext {
    pub values: Vec<(String, ClaimValue)>,
    pub run_id: Option<RunId>,
    pub task_id: Option<TaskId>,
    pub agent_principal: Option<PrincipalId>,
    pub delegation_id: Option<DelegationId>,
    pub delegation_chain: Vec<DelegationId>,
}

#[derive(Debug, Clone, PartialEq, Eq)]
pub struct AuthorizationRequest {
    pub principal: PrincipalId,
    pub tenant: TenantId,
    pub capability: Capability,
    pub action: Action,
    pub resource: Option<ResourceRef>,
    pub context: AuthorizationContext,
}

#[derive(Debug, Clone, PartialEq, Eq)]
pub struct AuthorizationEvidence {
    pub decision_id: String,
    pub timestamp: i64,
    pub principal: PrincipalId,
    pub tenant: TenantId,
    pub capability: Capability,
    pub action: Option<Action>,
    pub resource: Option<ResourceRef>,
    pub policy_id: Option<PolicyId>,
    pub matched_rules: Vec<String>,
    pub conditions: Vec<ConditionEvidence>,
    pub authority: Option<AuthorityBasis>,
    pub delegated_by: Option<PrincipalId>,
    pub delegation_chain: Vec<DelegationId>,
    pub run_id: Option<RunId>,
    pub task_id: Option<TaskId>,
    pub agent_principal: Option<PrincipalId>,
    pub delegation_id: Option<DelegationId>,
    pub parent_run_id: Option<RunId>,
    pub execution_scope: Option<ResourceScope>,
    pub authority_revision: u64,
    pub contract_fingerprint: String,
    pub decision: AuthorizationOutcome,
    pub reason: DecisionReason,
    pub audit_event_id: Option<AuditEventId>,
}

/// One condition checked while deciding, with its outcome and the fact it
/// rested on.
#[derive(Debug, Clone, PartialEq, Eq)]
pub struct ConditionEvidence {
    pub condition: String,
    pub result: ConditionResult,
    pub fact: Option<String>,
}

/// Evidence as plain values: the condition text, whether it passed, and the
/// fact.
pub open spec fn evidence_view(e: ConditionEvidence) -> (Seq<char>, bool, Option<Seq<char>>) {
    (
        e.condition@,
        e.result == ConditionResult::Pass,
        match e.fact {
            Some(f) => Some(f@),
            None => None,
        },
    )
}

pub open spec fn evidence_views(v: Seq<ConditionEvidence>) -> Seq<(Seq<char>, bool, Option<Seq<char>>)> {
    v.map_values(|e: ConditionEvidence| evidence_view(e))
}

/// Looks up what a resource is: the library's users supply it.
pub trait ResourceResolver {
    fn resolve(&self, resource: &ResourceRef, context: &AuthorizationContext) -> ResourceAttributes;
}

#[derive(Debug, PartialEq, Eq)]
pub enum Condition {
    Always,
    All(Vec<Condition>),
    ClaimEquals { key: String, value: ClaimValue },
    ClaimIn { key: String, values: Vec<ClaimValue> },
    TimeBound { start: i64, end: i64 },
    TenantCurrent,
    ResourceAttributeEquals { key: String, value: ClaimValue },
    ResourceAttributeIn { key: String, values: Vec<ClaimValue> },
    RelationshipEquals { resource_attribute: String, principal: PrincipalAttribute },
}

#[derive(Debug, Clone, PartialEq, Eq)]
pub enum PrincipalAttribute {
    Id,
    Tenant,
    Claim(String),
}

#[derive(Debug, Clone, PartialEq, Eq)]
pub struct CapabilityEnvelope {
    pub granted_capabilities: Vec<GrantedCapability>,
}

/// Index of the first grant of `cap` in `grants`.
pub open spec fn first_grant_of(grants: Seq<GrantedCapability>, cap: Seq<char>) -> Option<int>
    decreases grants.len(),
{
    if grants.len() == 0 {
        None
    } else {
        match first_grant_of(grants.drop_last(), cap) {
            Some(i) => Some(i),
            None => if grants.last().capability.0@ == cap {
                Some(grants.len() - 1)
            } else {
                None
            },
        }
    }
}

pub proof fn lemma_first_grant_of(grants: Seq<GrantedCapability>, cap: Seq<char>)
    ensures
        first_grant_of(grants, cap) matches Some(i) ==> 0 <= i < grants.len()
            && grants[i].capability.0@ == cap && forall|j: int|
            0 <= j < i ==> grants[j].capability.0@ != cap,
        first_grant_of(grants, cap) is None ==> forall|j: int|
            0 <= j < grants.len() ==> grants[j].capability.0@ != cap,
    decreases grants.len(),
{
    if grants.len() > 0 {
        lemma_first_grant_of(grants.drop_last(), cap);
        assert forall|j: int| 0 <= j < grants.len() - 1 implies grants.drop_last()[j] == grants[j] by {}
    }
}

impl CapabilityEnvelope {
    pub fn empty() -> (r: Self)
        ensures
            r.granted_capabilities@.len() == 0,
    {
        CapabilityEnvelope { granted_capabilities: Vec::new() }
    }

    /// The first grant of `capability`, if any.
    pub fn grant(&self, capability: &Capability) -> (r: Option<&GrantedCapability>)
        ensures
            match first_grant_of(self.granted_capabilities@, capability.0@) {
                Some(i) => r == Some(&self.granted_capabilities@[i]),
                None => r is None,
            },
    {
        let mut i: usize = 0;
        while i < self.granted_capabilities.len()
            invariant
                i <= self.granted_capabilities@.len(),
                first_grant_of(self.granted_capabilities@.take(i as int), capability.0@) is None,
            decreases self.granted_capabilities@.len() - i,
        {
            proof {
                assert(self.granted_capabilities@.take(i + 1).drop_last() =~= self.granted_capabilities@.take(i as int));
            }
            if self.granted_capabilities[i].capability.0 == capability.0 {
                proof {
                    lemma_first_grant_prefix(self.granted_capabilities@, capability.0@, i + 1);
                }
                return Some(&self.granted_capabilities[i]);
            }
            i = i + 1;
        }
        assert(self.granted_capabilities@.take(i as int) =~= self.granted_capabilities@);
        None
    }

    pub fn allows(&self, capability: &Capability) -> (r: bool)
        ensures
            r == first_grant_of(self.granted_capabilities@, capability.0@) is Some,
    {
        self.grant(capability).is_some()
    }

    /// Every grant, with its authority chain, one after another.
    pub fn explain(&self) -> (r: String)
        ensures
            r@ == join_with(
                self.granted_capabilities@.map_values(|g: GrantedCapability| explain_text(g)),
                "\n"@,
            ),
    {
        let mut parts: Vec<String> = Vec::new();
        let mut i: usize = 0;
        while i < self.granted_capabilities.len()
            invariant
                i <= self.granted_capabilities@.len(),
                views(parts@) == self.granted_capabilities@.take(i as int).map_values(
                    |g: GrantedCapability| explain_text(g),
                ),
            decreases self.granted_capabilities@.len() - i,
        {
            let e = self.granted_capabilities[i].explain();
            let ghost before = parts@;
            parts.push(e);
            proof {
                lemma_map_push(before, e, |s: String| s@);
                lemma_map_take_step(self.granted_capabilities@, i as int, |g: GrantedCapability| explain_text(g));
            }
            i = i + 1;
        }
        assert(self.granted_capabilities@.take(i as int) =~= self.granted_capabilities@);
        join(&parts, "\n")
    }

    /// The granted capabilities, in grant order.
    pub fn capabilities(&self) -> (r: Vec<Capability>)
        ensures
            r@.len() == self.granted_capabilities@.len(),
            forall|i: int| 0 <= i < r@.len() ==> (#[trigger] r@[i]).0@
                == self.granted_capabilities@[i].capability.0@,
    {
        let mut out: Vec<Capability> = Vec::new();
        let mut i: usize = 0;
        while i < self.granted_capabilities.len()
            invariant
                i <= self.granted_capabilities@.len(),
                out@.len() == i,
                forall|j: int| 0 <= j < i ==> (#[trigger] out@[j]).0@
                    == self.granted_capabilities@[j].capability.0@,
            decreases self.granted_capabilities@.len() - i,
        {
            out.push(Capability(self.granted_capabilities[i].capability.0.clone()));
            i = i + 1;
        }
        out
    }
}

proof fn lemma_first_grant_prefix(grants: Seq<GrantedCapability>, cap: Seq<char>, n: int)
    requires
        0 < n <= grants.len(),
        first_grant_of(grants.take(n - 1), cap) is None,
        grants[n - 1].capability.0@ == cap,
    ensures
        first_grant_of(grants, cap) == Some(n - 1),
{
    let t = grants.take(n);
    assert(t.drop_last() =~= grants.take(n - 1));
    assert(first_grant_of(t, cap) == Some(n - 1));
    lemma_first_grant_of(t, cap);
    lemma_first_grant_of(grants, cap);
    lemma_first_grant_of(grants.take(n - 1), cap);
    match first_grant_of(grants, cap) {
        Some(i) => {
            if i < n - 1 {
                assert(grants.take(n - 1)[i] == grants[i]);
            }
            if i > n - 1 {
                assert(grants[n - 1].capability.0@ != cap);
            }
        },
        None => {
            assert(grants[n - 1].capability.0@ != cap);
        },
    }
}

/// A capability grant that can explain itself: the answer to "why was this
/// principal allowed to do this?", kept identically for humans and agents.
#[derive(Debug, Clone, PartialEq, Eq)]
pub struct GrantedCapability {
    pub capability: Capability,
    pub policy_id: PolicyId,
    pub tenant_id: TenantId,
    pub principal_id: PrincipalId,
    pub principal_kind: PrincipalKind,
    pub authority: AuthorityBasis,
    pub claim_basis: Vec<String>,
    pub delegation_id: Option<DelegationId>,
    pub delegation_chain: Vec<DelegationId>,
    /// The human (or service) whose authority an agent acts on; never folded
    /// into `principal_id`.
    pub delegated_by: Option<PrincipalId>,
}

pub open spec fn principal_kind_name(k: PrincipalKind) -> Seq<char> {
    match k {
        PrincipalKind::Human => "human"@,
        PrincipalKind::Agent => "agent"@,
        PrincipalKind::Service => "service"@,
    }
}

pub fn principal_kind_str(kind: &PrincipalKind) -> (r: &'static str)
    ensures
        r@ == principal_kind_name(*kind),
{
    match kind {
        PrincipalKind::Human => "human",
        PrincipalKind::Agent => "agent",
        PrincipalKind::Service => "service",
    }
}

pub open spec fn delegation_id_views(v: Seq<DelegationId>) -> Seq<Seq<char>> {
    v.map_values(|d: DelegationId| d.0@)
}

/// The basis lines of an explanation, each indented and on its own line.
pub open spec fn basis_lines(basis: Seq<Seq<char>>) -> Seq<char>
    decreases basis.len(),
{
    if basis.len() == 0 {
        Seq::empty()
    } else {
        basis_lines(basis.drop_last()) + "    "@ + basis.last() + "\n"@
    }
}

/// The text `GrantedCapability::explain` renders.
pub open spec fn explain_text(g: GrantedCapability) -> Seq<char> {
    g.capability.0@ + "\n"@
        + "  principal: "@ + g.principal_id.0@ + " ("@ + principal_kind_name(g.principal_kind) + ")\n"@
        + "  tenant: "@ + g.tenant_id.0@ + "\n"@
        + "  policy: "@ + g.policy_id.0@ + "\n"@
        + "  authority: "@ + authority_basis_name(g.authority) + "\n"@
        + match g.delegation_id {
            Some(d) => "  delegation: "@ + d.0@ + "\n"@,
            None => Seq::empty(),
        }
        + if g.delegation_chain@.len() > 0 {
            "  delegation_chain: "@ + join_with(delegation_id_views(g.delegation_chain@), " -> "@) + "\n"@
        } else {
            Seq::empty()
        }
        + match g.delegated_by {
            Some(p) => "  delegated_by: "@ + p.0@ + "\n"@,
            None => Seq::empty(),
        }
        + "  basis:\n"@ + basis_lines(views(g.claim_basis@))
}

impl GrantedCapability {
    pub fn is_delegated(&self) -> (r: bool)
        ensures
            r == (self.authority == AuthorityBasis::Delegated),
    {
        self.authority == AuthorityBasis::Delegated
    }

    /// Renders the authority chain behind this grant.
    pub fn explain(&self) -> (r: String)
        ensures
            r@ == explain_text(*self),
    {
        let mut out = String::new();
        out.append(self.capability.0.as_str());
        out.append("\n");
        out.append("  principal: ");
        out.append(self.principal_id.0.as_str());
        out.append(" (");
        out.append(principal_kind_str(&self.principal_kind));
        out.append(")\n");
        out.append("  tenant: ");
        out.append(self.tenant_id.0.as_str());
        out.append("\n");
        out.append("  policy: ");
        out.append(self.policy_id.0.as_str());
        out.append("\n");
        out.append("  authority: ");
        out.append(self.authority.as_str());
        out.append("\n");
        let ghost head = out@;
        let mut tail = String::new();
        match &self.delegation_id {
            Some(d) => {
                tail.append("  delegation: ");
                tail.append(d.0.as_str());
                tail.append("\n");
            },
            None => {},
        }
        let ghost t1 = tail@;
        let mut chain_text = String::new();
        if self.delegation_chain.len() > 0 {
            let mut ids: Vec<String> = Vec::new();
            let mut i: usize = 0;
            while i < self.delegation_chain.len()
                invariant
                    i <= self.delegation_chain@.len(),
                    views(ids@) == delegation_id_views(self.delegation_chain@.take(i as int)),
                decreases self.delegation_chain@.len() - i,
            {
                let ghost before = ids@;
                let id = self.delegation_chain[i].0.clone();
                ids.push(id);
                proof {
                    lemma_map_push(before, id, |s: String| s@);
                    lemma_map_take_step(self.delegation_chain@, i as int, |d: DelegationId| d.0@);
                }
                i = i + 1;
            }
            assert(self.delegation_chain@.take(i as int) =~= self.delegation_chain@);
            chain_text.append("  delegation_chain: ");
            let joined = join(&ids, " -> ");
            chain_text.append(joined.as_str());
            chain_text.append("\n");
        }
        let mut by_text = String::new();
        match &self.delegated_by {
            Some(p) => {
                by_text.append("  delegated_by: ");
                by_text.append(p.0.as_str());
                by_text.append("\n");
            },
            None => {},
        }
        let mut basis = String::new();
        basis.append("  basis:\n");
        let ghost b0 = basis@;
        let mut i: usize = 0;
        while i < self.claim_basis.len()
            invariant
                i <= self.claim_basis@.len(),
                basis@ == b0 + basis_lines(views(self.claim_basis@).take(i as int)),
            decreases self.claim_basis@.len() - i,
        {
            basis.append("    ");
            basis.append(self.claim_basis[i].as_str());
            basis.append("\n");
            proof {
                let t = views(self.claim_basis@).take(i + 1);
                assert(t.drop_last() =~= views(self.claim_basis@).take(i as int));
            }
            i = i + 1;
        }
        assert(views(self.claim_basis@).take(i as int) =~= views(self.claim_basis@));
        out.append(tail.as_str());
        out.append(chain_text.as_str());
        out.append(by_text.as_str());
        out.append(basis.as_str());
        proof {
            reveal_strlit("\n");
            reveal_strlit("  basis:\n");
            assert(out@ =~= explain_text(*self));
        }
        out
    }
}

#[derive(Debug, Clone, PartialEq, Eq)]
pub enum AuthorizationDecision {
    Allow {
        grant: GrantedCapability,
        resource: Option<ResourceRef>,
        action: Option<Action>,
        matched_rules: Vec<String>,
        conditions: Vec<ConditionEvidence>,
        audit_event_id: Option<AuditEventId>,
    },
    Deny {
        reason: DenialReason,
        capability: Option<Capability>,
        resource: Option<ResourceRef>,
        action: Option<Action>,
        policy_id: Option<PolicyId>,
        matched_rules: Vec<String>,
        conditions: Vec<ConditionEvidence>,
        audit_event_id: Option<AuditEventId>,
    },
}

impl AuthorizationDecision {
    pub fn is_allowed(&self) -> (r: bool)
        ensures
            r == self is Allow,
    {
        match self {
            AuthorizationDecision::Allow { .. } => true,
            AuthorizationDecision::Deny { .. } => false,
        }
    }

    pub fn denial_reason(&self) -> (r: Option<DenialReason>)
        ensures
            match *self {
                AuthorizationDecision::Deny { reason, .. } => r == Some(reason),
                AuthorizationDecision::Allow { .. } => r is None,
            },
    {
        match self {
            AuthorizationDecision::Deny { reason, .. } => Some(*reason),
            AuthorizationDecision::Allow { .. } => None,
        }
    }

    pub fn grant(&self) -> (r: Option<&GrantedCapability>)
        ensures
            match *self {
                AuthorizationDecision::Allow { grant, .. } => r == Some(&grant),
                AuthorizationDecision::Deny { .. } => r is None,
            },
    {
        match self {
            AuthorizationDecision::Allow { grant, .. } => Some(grant),
            AuthorizationDecision::Deny { .. } => None,
        }
    }

    pub fn conditions(&self) -> (r: &[ConditionEvidence])
        ensures
            match *self {
                AuthorizationDecision::Allow { conditions, .. } => r@ == conditions@,
                AuthorizationDecision::Deny { conditions, .. } => r@ == conditions@,
            },
    {
        match self {
            AuthorizationDecision::Allow { conditions, .. } => conditions.as_slice(),
            AuthorizationDecision::Deny { conditions, .. } => conditions.as_slice(),
        }
    }

    pub fn reason(&self) -> (r: DecisionReason)
        ensures
            match *self {
                AuthorizationDecision::Allow { .. } => r == DecisionReason::AllowedByPolicy,
                AuthorizationDecision::Deny { reason, .. } => r == denial_decision_reason(reason),
            },
    {
        match self {
            AuthorizationDecision::Allow { .. } => DecisionReason::AllowedByPolicy,
            AuthorizationDecision::Deny { reason, .. } => denial_to_decision(*reason),
        }
    }
}

/// Why a request was refused.
#[derive(Debug, Clone, Copy, PartialEq, Eq, Structural)]
pub enum DenialReason {
    UnknownTenant,
    UnknownPrincipal,
    TenantMismatch,
    MissingClaim,
    ClaimMismatch,
    PolicyNotFound,
    CapabilityNotGranted,
    ExpiredSession,
    RevokedSession,
    ExpiredDelegation,
    RevokedDelegation,
    InvalidDelegation,
    DelegationMissing,
    DelegationScopeDenied,
    DelegationExceedsAuthority,
    RunNotFound,
    RunCancelled,
    RunExpired,
    RunScopeDenied,
    RunExceedsDelegation,
    ParentRunScopeDenied,
    AgentRevoked,
    AgentSuspended,
    UnknownCapability,
    UnsupportedConnector,
    InvalidSession,
    MissingCredential,
    PolicyDenied,
    ConditionFailed,
    AuditUnavailable,
}

pub open spec fn denial_reason_name(v: DenialReason) -> Seq<char> {
    match v {
        DenialReason::UnknownTenant => "unknown_tenant"@,
        DenialReason::UnknownPrincipal => "unknown_principal"@,
        DenialReason::TenantMismatch => "tenant_mismatch"@,
        DenialReason::MissingClaim => "missing_claim"@,
        DenialReason::ClaimMismatch => "claim_mismatch"@,
        DenialReason::PolicyNotFound => "policy_not_found"@,
        DenialReason::CapabilityNotGranted => "capability_not_granted"@,
        DenialReason::ExpiredSession => "expired_session"@,
        DenialReason::RevokedSession => "revoked_session"@,
        DenialReason::ExpiredDelegation => "delegation_expired"@,
        DenialReason::RevokedDelegation => "delegation_revoked"@,
        DenialReason::InvalidDelegation => "invalid_delegation"@,
        DenialReason::DelegationMissing => "delegation_missing"@,
        DenialReason::DelegationScopeDenied => "delegation_scope_denied"@,
        DenialReason::DelegationExceedsAuthority => "delegation_exceeds_authority"@,
        DenialReason::RunNotFound => "run_not_found"@,
        DenialReason::RunCancelled => "run_cancelled"@,
        DenialReason::RunExpired => "run_expired"@,
        DenialReason::RunScopeDenied => "run_scope_denied"@,
        DenialReason::RunExceedsDelegation => "run_exceeds_delegation"@,
        DenialReason::ParentRunScopeDenied => "parent_run_scope_denied"@,
        DenialReason::AgentRevoked => "agent_revoked"@,
        DenialReason::AgentSuspended => "agent_suspended"@,
        DenialReason::UnknownCapability => "unknown_capability"@,
        DenialReason::UnsupportedConnector => "unsupported_connector"@,
        DenialReason::InvalidSession => "invalid_session"@,
        DenialReason::MissingCredential => "missing_credential"@,
        DenialReason::PolicyDenied => "policy_denied"@,
        DenialReason::ConditionFailed => "condition_failed"@,
        DenialReason::AuditUnavailable => "audit_unavailable"@,
    }
}

impl DenialReason {
    pub fn as_str(&self) -> (r: &'static str)
        ensures
            r@ == denial_reason_name(*self),
    {
        match self {
            DenialReason::UnknownTenant => "unknown_tenant",
            DenialReason::UnknownPrincipal => "unknown_principal",
            DenialReason::TenantMismatch => "tenant_mismatch",
            DenialReason::MissingClaim => "missing_claim",
            DenialReason::ClaimMismatch => "claim_mismatch",
            DenialReason::PolicyNotFound => "policy_not_found",
            DenialReason::CapabilityNotGranted => "capability_not_granted",
            DenialReason::ExpiredSession => "expired_session",
            DenialReason::RevokedSession => "revoked_session",
            DenialReason::ExpiredDelegation => "delegation_expired",
            DenialReason::RevokedDelegation => "delegation_revoked",
            DenialReason::InvalidDelegation => "invalid_delegation",
            DenialReason::DelegationMissing => "delegation_missing",
            DenialReason::DelegationScopeDenied => "delegation_scope_denied",
            DenialReason::DelegationExceedsAuthority => "delegation_exceeds_authority",
            DenialReason::RunNotFound => "run_not_found",
            DenialReason::RunCancelled => "run_cancelled",
            DenialReason::RunExpired => "run_expired",
            DenialReason::RunScopeDenied => "run_scope_denied",
            DenialReason::RunExceedsDelegation => "run_exceeds_delegation",
            DenialReason::ParentRunScopeDenied => "parent_run_scope_denied",
            DenialReason::AgentRevoked => "agent_revoked",
            DenialReason::AgentSuspended => "agent_suspended",
            DenialReason::UnknownCapability => "unknown_capability",
            DenialReason::UnsupportedConnector => "unsupported_connector",
            DenialReason::InvalidSession => "invalid_session",
            DenialReason::MissingCredential => "missing_credential",
            DenialReason::PolicyDenied => "policy_denied",
            DenialReason::ConditionFailed => "condition_failed",
            DenialReason::AuditUnavailable => "audit_unavailable",
        }
    }
}

/// The reason a decision reports, coarser than a denial reason.
#[derive(Debug, Clone, Copy, PartialEq, Eq, Structural)]
pub enum DecisionReason {
    AllowedByPolicy,
    CapabilityMissing,
    PolicyDenied,
    TenantMismatch,
    ConditionFailed,
    ResourceResolutionFailed,
    PrincipalMissing,
    SessionInvalid,
    RouteUnprotected,
    AuthorityUnavailable,
    DelegationMissing,
    DelegationExpired,
    DelegationRevoked,
    DelegationScopeDenied,
    DelegationExceedsAuthority,
    RunNotFound,
    RunCancelled,
    RunExpired,
    RunScopeDenied,
    RunExceedsDelegation,
    ParentRunScopeDenied,
    AgentRevoked,
    AgentSuspended,
    FailClosed,
}

pub open spec fn decision_reason_name(v: DecisionReason) -> Seq<char> {
    match v {
        DecisionReason::AllowedByPolicy => "allowed_by_policy"@,
        DecisionReason::CapabilityMissing => "capability_missing"@,
        DecisionReason::PolicyDenied => "policy_denied"@,
        DecisionReason::TenantMismatch => "tenant_mismatch"@,
        DecisionReason::ConditionFailed => "condition_failed"@,
        DecisionReason::ResourceResolutionFailed => "resource_resolution_failed"@,
        DecisionReason::PrincipalMissing => "principal_missing"@,
        DecisionReason::SessionInvalid => "session_invalid"@,
        DecisionReason::RouteUnprotected => "route_unprotected"@,
        DecisionReason::AuthorityUnavailable => "authority_unavailable"@,
        DecisionReason::DelegationMissing => "delegation_missing"@,
        DecisionReason::DelegationExpired => "delegation_expired"@,
        DecisionReason::DelegationRevoked => "delegation_revoked"@,
        DecisionReason::DelegationScopeDenied => "delegation_scope_denied"@,
        DecisionReason::DelegationExceedsAuthority => "delegation_exceeds_authority"@,
        DecisionReason::RunNotFound => "run_not_found"@,
        DecisionReason::RunCancelled => "run_cancelled"@,
        DecisionReason::RunExpired => "run_expired"@,
        DecisionReason::RunScopeDenied => "run_scope_denied"@,
        DecisionReason::RunExceedsDelegation => "run_exceeds_delegation"@,
        DecisionReason::ParentRunScopeDenied => "parent_run_scope_denied"@,
        DecisionReason::AgentRevoked => "agent_revoked"@,
        DecisionReason::AgentSuspended => "agent_suspended"@,
        DecisionReason::FailClosed => "fail_closed"@,
    }
}

impl DecisionReason {
    pub fn as_str(&self) -> (r: &'static str)
        ensures
            r@ == decision_reason_name(*self),
    {
        match self {
            DecisionReason::AllowedByPolicy => "allowed_by_policy",
            DecisionReason::CapabilityMissing => "capability_missing",
            DecisionReason::PolicyDenied => "policy_denied",
            DecisionReason::TenantMismatch => "tenant_mismatch",
            DecisionReason::ConditionFailed => "condition_failed",
            DecisionReason::ResourceResolutionFailed => "resource_resolution_failed",
            DecisionReason::PrincipalMissing => "principal_missing",
            DecisionReason::SessionInvalid => "session_invalid",
            DecisionReason::RouteUnprotected => "route_unprotected",
            DecisionReason::AuthorityUnavailable => "authority_unavailable",
            DecisionReason::DelegationMissing => "delegation_missing",
            DecisionReason::DelegationExpired => "delegation_expired",
            DecisionReason::DelegationRevoked => "delegation_revoked",
            DecisionReason::DelegationScopeDenied => "delegation_scope_denied",
            DecisionReason::DelegationExceedsAuthority => "delegation_exceeds_authority",
            DecisionReason::RunNotFound => "run_not_found",
            DecisionReason::RunCancelled => "run_cancelled",
            DecisionReason::RunExpired => "run_expired",
            DecisionReason::RunScopeDenied => "run_scope_denied",
            DecisionReason::RunExceedsDelegation => "run_exceeds_delegation",
            DecisionReason::ParentRunScopeDenied => "parent_run_scope_denied",
            DecisionReason::AgentRevoked => "agent_revoked",
            DecisionReason::AgentSuspended => "agent_suspended",
            DecisionReason::FailClosed => "fail_closed",
        }
    }
}

#[derive(Debug, Clone, Copy, PartialEq, Eq, Structural)]
pub enum AuthorizationOutcome {
    Allow,
    Deny,
}

pub open spec fn authorization_outcome_name(v: AuthorizationOutcome) -> Seq<char> {
    match v {
        AuthorizationOutcome::Allow => "allow"@,
        AuthorizationOutcome::Deny => "deny"@,
    }
}

impl AuthorizationOutcome {
    pub fn as_str(&self) -> (r: &'static str)
        ensures
            r@ == authorization_outcome_name(*self),
    {
        match self {
            AuthorizationOutcome::Allow => "allow",
            AuthorizationOutcome::Deny => "deny",
        }
    }
}

#[derive(Debug, Clone, Copy, PartialEq, Eq, Structural)]
pub enum ConditionResult {
    Pass,
    Fail,
}

pub open spec fn condition_result_name(v: ConditionResult) -> Seq<char> {
    match v {
        ConditionResult::Pass => "pass"@,
        ConditionResult::Fail => "fail"@,
    }
}

impl ConditionResult {
    pub fn as_str(&self) -> (r: &'static str)
        ensures
            r@ == condition_result_name(*self),
    {
        match self {
            ConditionResult::Pass => "pass",
            ConditionResult::Fail => "fail",
        }
    }
}

/// Where a grant's authority comes from: the principal's own claims, or authority delegated by another principal.
#[derive(Debug, Clone, Copy, PartialEq, Eq, Structural)]
pub enum AuthorityBasis {
    Claim,
    Delegated,
}

pub open spec fn authority_basis_name(v: AuthorityBasis) -> Seq<char> {
    match v {
        AuthorityBasis::Claim => "claim"@,
        AuthorityBasis::Delegated => "delegated"@,
    }
}

impl AuthorityBasis {
    pub fn as_str(&self) -> (r: &'static str)
        ensures
            r@ == authority_basis_name(*self),
    {
        match self {
            AuthorityBasis::Claim => "claim",
            AuthorityBasis::Delegated => "delegated",
        }
    }
}
/// The decision reason a denial reason reports.
pub open spec fn denial_decision_reason(r: DenialReason) -> DecisionReason {
    match r {
        DenialReason::UnknownTenant => DecisionReason::TenantMismatch,
        DenialReason::UnknownPrincipal => DecisionReason::PrincipalMissing,
        DenialReason::TenantMismatch => DecisionReason::TenantMismatch,
        DenialReason::MissingClaim => DecisionReason::CapabilityMissing,
        DenialReason::ClaimMismatch => DecisionReason::CapabilityMissing,
        DenialReason::PolicyNotFound => DecisionReason::AuthorityUnavailable,
        DenialReason::CapabilityNotGranted => DecisionReason::CapabilityMissing,
        DenialReason::ExpiredSession => DecisionReason::SessionInvalid,
        DenialReason::RevokedSession => DecisionReason::SessionInvalid,
        DenialReason::ExpiredDelegation => DecisionReason::DelegationExpired,
        DenialReason::RevokedDelegation => DecisionReason::DelegationRevoked,
        DenialReason::InvalidDelegation => DecisionReason::FailClosed,
        DenialReason::DelegationMissing => DecisionReason::DelegationMissing,
        DenialReason::DelegationScopeDenied => DecisionReason::DelegationScopeDenied,
        DenialReason::DelegationExceedsAuthority => DecisionReason::DelegationExceedsAuthority,
        DenialReason::RunNotFound => DecisionReason::RunNotFound,
        DenialReason::RunCancelled => DecisionReason::RunCancelled,
        DenialReason::RunExpired => DecisionReason::RunExpired,
        DenialReason::RunScopeDenied => DecisionReason::RunScopeDenied,
        DenialReason::RunExceedsDelegation => DecisionReason::RunExceedsDelegation,
        DenialReason::ParentRunScopeDenied => DecisionReason::ParentRunScopeDenied,
        DenialReason::AgentRevoked => DecisionReason::AgentRevoked,
        DenialReason::AgentSuspended => DecisionReason::AgentSuspended,
        DenialReason::UnknownCapability => DecisionReason::AuthorityUnavailable,
        DenialReason::UnsupportedConnector => DecisionReason::FailClosed,
        DenialReason::InvalidSession => DecisionReason::SessionInvalid,
        DenialReason::MissingCredential => DecisionReason::SessionInvalid,
        DenialReason::PolicyDenied => DecisionReason::PolicyDenied,
        DenialReason::ConditionFailed => DecisionReason::ConditionFailed,
        DenialReason::AuditUnavailable => DecisionReason::FailClosed,
    }
}

fn denial_to_decision(r: DenialReason) -> (d: DecisionReason)
    ensures
        d == denial_decision_reason(r),
{
    match r {
        DenialReason::UnknownTenant => DecisionReason::TenantMismatch,
        DenialReason::UnknownPrincipal => DecisionReason::PrincipalMissing,
        DenialReason::TenantMismatch => DecisionReason::TenantMismatch,
        DenialReason::MissingClaim => DecisionReason::CapabilityMissing,
        DenialReason::ClaimMismatch => DecisionReason::CapabilityMissing,
        DenialReason::PolicyNotFound => DecisionReason::AuthorityUnavailable,
        DenialReason::CapabilityNotGranted => DecisionReason::CapabilityMissing,
        DenialReason::ExpiredSession => DecisionReason::SessionInvalid,
        DenialReason::RevokedSession => DecisionReason::SessionInvalid,
        DenialReason::ExpiredDelegation => DecisionReason::DelegationExpired,
        DenialReason::RevokedDelegation => DecisionReason::DelegationRevoked,
        DenialReason::InvalidDelegation => DecisionReason::FailClosed,
        DenialReason::DelegationMissing => DecisionReason::DelegationMissing,
        DenialReason::DelegationScopeDenied => DecisionReason::DelegationScopeDenied,
        DenialReason::DelegationExceedsAuthority => DecisionReason::DelegationExceedsAuthority,
        DenialReason::RunNotFound => DecisionReason::RunNotFound,
        DenialReason::RunCancelled => DecisionReason::RunCancelled,
        DenialReason::RunExpired => DecisionReason::RunExpired,
        DenialReason::RunScopeDenied => DecisionReason::RunScopeDenied,
        DenialReason::RunExceedsDelegation => DecisionReason::RunExceedsDelegation,
        DenialReason::ParentRunScopeDenied => DecisionReason::ParentRunScopeDenied,
        DenialReason::AgentRevoked => DecisionReason::AgentRevoked,
        DenialReason::AgentSuspended => DecisionReason::AgentSuspended,
        DenialReason::UnknownCapability => DecisionReason::AuthorityUnavailable,
        DenialReason::UnsupportedConnector => DecisionReason::FailClosed,
        DenialReason::InvalidSession => DecisionReason::SessionInvalid,
        DenialReason::MissingCredential => DecisionReason::SessionInvalid,
        DenialReason::PolicyDenied => DecisionReason::PolicyDenied,
        DenialReason::ConditionFailed => DecisionReason::ConditionFailed,
        DenialReason::AuditUnavailable => DecisionReason::FailClosed,
    }
}
} // verus!

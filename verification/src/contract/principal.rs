//! Principals: humans, agents and services all act through the same model.
use vstd::prelude::*;
use super::claims::Claims;
use super::ids::{AgentCredentialId, AgentId, PrincipalId, TenantId};
use super::versioning::ContractVersion;

verus! {

#[derive(Debug, Clone, Copy, PartialEq, Eq, Structural)]
pub enum PrincipalKind {
    Human,
    Agent,
    Service,
}

#[derive(Debug, Clone, Copy, PartialEq, Eq, Structural)]
pub enum AgentState {
    Created,
    Active,
    Suspended,
    Revoked,
    Retired,
}

pub type AgentStatus = AgentState;

#[derive(Debug, Clone, PartialEq, Eq)]
pub struct Agent {
    pub id: AgentId,
    pub principal_id: PrincipalId,
    pub tenant_id: TenantId,
    pub name: String,
    pub status: AgentStatus,
    pub created_by: PrincipalId,
    pub created_at: i64,
}

#[derive(Debug, Clone, PartialEq, Eq)]
pub struct AgentCredential {
    pub id: AgentCredentialId,
    pub agent: PrincipalId,
    pub tenant_id: TenantId,
    pub secret_hash: String,
    pub created_at: i64,
    pub revoked_at: Option<i64>,
}

impl AgentCredential {
    /// The credential authenticates `agent` at `now`: it belongs to that active
    /// agent in the same tenant and has not been revoked by then.
    pub open spec fn spec_valid_at(&self, agent: Principal, now: i64) -> bool {
        &&& agent.kind == PrincipalKind::Agent
        &&& agent.tenant_id.0@ == self.tenant_id.0@
        &&& agent.id.0@ == self.agent.0@
        &&& agent.agent_state == Some(AgentState::Active)
        &&& match self.revoked_at {
            Some(revoked_at) => now < revoked_at,
            None => true,
        }
    }

    pub fn is_valid_at(&self, agent: &Principal, now: i64) -> (r: bool)
        ensures
            r == self.spec_valid_at(*agent, now),
    {
        agent.kind == PrincipalKind::Agent && agent.tenant_id.same(&self.tenant_id)
            && agent.id.same(&self.agent) && agent.agent_state == Some(AgentState::Active)
            && match self.revoked_at {
            Some(revoked_at) => now < revoked_at,
            None => true,
        }
    }
}

#[derive(Debug, Clone, PartialEq, Eq)]
pub struct Principal {
    pub id: PrincipalId,
    pub kind: PrincipalKind,
    pub tenant_id: TenantId,
    pub claims: Claims,
    pub version: ContractVersion,
    pub agent_state: Option<AgentState>,
}

impl Principal {
    pub fn human(id: PrincipalId, tenant_id: TenantId, claims: Claims, version: ContractVersion) -> (r:
        Self)
        ensures
            r == (Principal { id, kind: PrincipalKind::Human, tenant_id, claims, version, agent_state: None }),
    {
        Principal { id, kind: PrincipalKind::Human, tenant_id, claims, version, agent_state: None }
    }

    pub fn agent(
        id: PrincipalId,
        tenant_id: TenantId,
        claims: Claims,
        version: ContractVersion,
        state: AgentState,
    ) -> (r: Self)
        ensures
            r == (Principal {
                id,
                kind: PrincipalKind::Agent,
                tenant_id,
                claims,
                version,
                agent_state: Some(state),
            }),
    {
        Principal { id, kind: PrincipalKind::Agent, tenant_id, claims, version, agent_state: Some(state) }
    }

    pub fn service(id: PrincipalId, tenant_id: TenantId, claims: Claims, version: ContractVersion) -> (r:
        Self)
        ensures
            r == (Principal {
                id,
                kind: PrincipalKind::Service,
                tenant_id,
                claims,
                version,
                agent_state: None,
            }),
    {
        Principal { id, kind: PrincipalKind::Service, tenant_id, claims, version, agent_state: None }
    }
}

} // verus!

use authboundry::authz::evaluator::evaluate_capability;
use authboundry::authz::policy::{AuthorizationDecision, Condition, DenialReason, Policy, Rule};
use authboundry::contract::claims::{ClaimValue, Claims};
use authboundry::contract::delegation::{Delegation, ResourceScope};
use authboundry::contract::ids::{Capability, DelegationId, PolicyId, PrincipalId, StorageRootId, TenantId};
use authboundry::contract::principal::{AgentState, Principal, PrincipalKind};
use authboundry::contract::tenant::TenantContext;
use authboundry::contract::versioning::ContractVersion;
use authboundry::dsl::parser::parse_auth_block;

fn tenant(id: &str) -> TenantContext {
    TenantContext {
        tenant_id: TenantId::new(id),
        namespace: id.to_string(),
        policy_id: PolicyId::new(&format!("{}-policy", id)),
        storage_root_id: StorageRootId::new(&format!("{}-root", id)),
    }
}

fn claims(role: &str, plan: &str) -> Claims {
    Claims {
        values: vec![
            ("role".to_string(), ClaimValue::Enum(role.to_string())),
            ("plan".to_string(), ClaimValue::Enum(plan.to_string())),
        ],
    }
}

fn principal(id: &str, kind: PrincipalKind, tenant: &TenantContext, claims: Claims) -> Principal {
    Principal {
        id: PrincipalId(id.to_string()),
        kind,
        tenant_id: tenant.tenant_id.clone(),
        claims,
        version: ContractVersion { major: 1, minor: 0 },
        agent_state: None,
    }
}

fn active_agent(id: &str, tenant: &TenantContext) -> Principal {
    let mut agent = principal(id, PrincipalKind::Agent, tenant, Claims { values: Vec::new() });
    agent.agent_state = Some(AgentState::Active);
    agent
}

fn policy(tenant: &TenantContext) -> Policy {
    Policy {
        id: tenant.policy_id.clone(),
        rules: vec![
            Rule::allow(
                "billing.charge",
                Condition::ClaimEquals { key: "role".to_string(), value: ClaimValue::Enum("admin".to_string()) },
            ),
            Rule::allow(
                "reports.export",
                Condition::ClaimEquals { key: "plan".to_string(), value: ClaimValue::Enum("pro".to_string()) },
            ),
            Rule::allow(
                "invoice.create",
                Condition::ClaimEquals { key: "role".to_string(), value: ClaimValue::Enum("admin".to_string()) },
            ),
        ],
    }
}

fn assert_allow(decision: AuthorizationDecision, capability: &str) {
    match decision {
        AuthorizationDecision::Allow { grant, .. } => {
            assert_eq!(grant.capability, Capability(capability.to_string()));
            assert!(!grant.claim_basis.is_empty());
        }
        AuthorizationDecision::Deny { reason, .. } => {
            panic!("expected allow, got deny: {reason:?}");
        }
    }
}

fn assert_deny(decision: AuthorizationDecision, expected: DenialReason) {
    match decision {
        AuthorizationDecision::Allow { grant, .. } => {
            panic!("expected deny, got allow: {grant:?}");
        }
        AuthorizationDecision::Deny { reason, .. } => assert_eq!(reason, expected),
    }
}

fn delegation_to(alice: &Principal, agent: &Principal, tenant: &TenantContext) -> Delegation {
    Delegation {
        id: DelegationId("delegation-1".to_string()),
        delegator: alice.id.clone(),
        delegate: agent.id.clone(),
        tenant_id: tenant.tenant_id.clone(),
        capabilities: vec![Capability("invoice.create".to_string()), Capability("invoice.read".to_string())],
        resource_scope: ResourceScope::any(),
        issued_at: 0,
        expires_at: Some(100),
        revoked_at: None,
        chain: Vec::new(),
    }
}

#[test]
fn humans_agents_delegation_and_tenant_boundaries_work_end_to_end() {
    let dsl = r#"
use auth {
  multi_tenant: true
  providers: [local, agent]
  claims: {
    role: enum["admin","user"]
    plan: enum["free","pro"]
  }
  isolation: "strict"
}
"#;
    let auth_config = parse_auth_block(dsl).expect("valid auth DSL");
    assert_eq!(auth_config.fingerprint(), parse_auth_block(dsl).unwrap().canonical().fingerprint());

    let tenant_a = tenant("tenant-a");
    let tenant_b = tenant("tenant-b");
    let alice = principal("alice", PrincipalKind::Human, &tenant_a, claims("admin", "pro"));
    let invoice_agent = active_agent("invoice-agent", &tenant_a);
    let tenant_b_agent = active_agent("tenant-b-agent", &tenant_b);
    let policy = policy(&tenant_a);
    let cap = |c: &str| Capability(c.to_string());

    assert_allow(evaluate_capability(Some(&policy), Some(&alice), Some(&tenant_a), None, &cap("billing.charge"), 10), "billing.charge");
    assert_allow(evaluate_capability(Some(&policy), Some(&alice), Some(&tenant_a), None, &cap("reports.export"), 10), "reports.export");

    let delegation = delegation_to(&alice, &invoice_agent, &tenant_a);
    assert_allow(evaluate_capability(Some(&policy), Some(&invoice_agent), Some(&tenant_a), Some(&delegation), &cap("invoice.create"), 10), "invoice.create");
    assert_allow(evaluate_capability(Some(&policy), Some(&invoice_agent), Some(&tenant_a), Some(&delegation), &cap("invoice.read"), 10), "invoice.read");
    assert_deny(evaluate_capability(Some(&policy), Some(&invoice_agent), Some(&tenant_a), Some(&delegation), &cap("billing.charge"), 10), DenialReason::DelegationMissing);
    assert_deny(evaluate_capability(Some(&policy), Some(&invoice_agent), Some(&tenant_a), Some(&delegation), &cap("reports.export"), 10), DenialReason::DelegationMissing);
    assert_allow(evaluate_capability(Some(&policy), Some(&alice), Some(&tenant_a), None, &cap("invoice.create"), 10), "invoice.create");

    let mut revoked_delegation = delegation.clone();
    revoked_delegation.revoked_at = Some(20);
    assert_deny(evaluate_capability(Some(&policy), Some(&invoice_agent), Some(&tenant_a), Some(&revoked_delegation), &cap("invoice.create"), 30), DenialReason::RevokedDelegation);

    let mut revoked_agent = invoice_agent.clone();
    revoked_agent.agent_state = Some(AgentState::Revoked);
    assert_deny(evaluate_capability(Some(&policy), Some(&revoked_agent), Some(&tenant_a), Some(&revoked_delegation), &cap("invoice.read"), 30), DenialReason::AgentRevoked);

    assert_deny(evaluate_capability(Some(&policy), Some(&tenant_b_agent), Some(&tenant_a), None, &cap("invoice.read"), 10), DenialReason::TenantMismatch);
}

#[test]
fn adversarial_authorization_cases_fail_closed() {
    let tenant_a = tenant("tenant-a");
    let tenant_b = tenant("tenant-b");
    let alice = principal(
        "alice",
        PrincipalKind::Human,
        &tenant_a,
        claims("admin", "pro"),
    );
    let agent = active_agent("agent", &tenant_a);
    let policy = policy(&tenant_a);

    assert_deny(
        evaluate_capability(
            None,
            Some(&alice),
            Some(&tenant_a),
            None,
            &Capability("billing.charge".to_string()),
            10,
        ),
        DenialReason::PolicyNotFound,
    );
    assert_deny(
        evaluate_capability(
            Some(&policy),
            None,
            Some(&tenant_a),
            None,
            &Capability("billing.charge".to_string()),
            10,
        ),
        DenialReason::UnknownPrincipal,
    );
    assert_deny(
        evaluate_capability(
            Some(&policy),
            Some(&alice),
            None,
            None,
            &Capability("billing.charge".to_string()),
            10,
        ),
        DenialReason::UnknownTenant,
    );
    assert_deny(
        evaluate_capability(
            Some(&policy),
            Some(&alice),
            Some(&tenant_b),
            None,
            &Capability("billing.charge".to_string()),
            10,
        ),
        DenialReason::TenantMismatch,
    );
    assert_deny(
        evaluate_capability(
            Some(&policy),
            Some(&agent),
            Some(&tenant_a),
            Some(&Delegation {
                id: DelegationId("expired".to_string()),
                delegator: alice.id.clone(),
                delegate: agent.id.clone(),
                tenant_id: tenant_a.tenant_id.clone(),
                capabilities: vec![Capability("invoice.create".to_string())],
                resource_scope: ResourceScope::any(),
                issued_at: 0,
                expires_at: Some(5),
                revoked_at: None,
                chain: Vec::new(),
            }),
            &Capability("invoice.create".to_string()),
            10,
        ),
        DenialReason::ExpiredDelegation,
    );
    assert_deny(
        evaluate_capability(
            Some(&policy),
            Some(&agent),
            Some(&tenant_a),
            Some(&Delegation {
                id: DelegationId("wrong-tenant".to_string()),
                delegator: alice.id.clone(),
                delegate: agent.id.clone(),
                tenant_id: tenant_b.tenant_id.clone(),
                capabilities: vec![Capability("invoice.create".to_string())],
                resource_scope: ResourceScope::any(),
                issued_at: 0,
                expires_at: Some(100),
                revoked_at: None,
                chain: Vec::new(),
            }),
            &Capability("invoice.create".to_string()),
            10,
        ),
        DenialReason::InvalidDelegation,
    );
}

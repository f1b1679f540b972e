use authboundry::authz::evaluator::{evaluate, evaluate_authorization_request};
use authboundry::authz::policy::{
    Action, AuthorizationContext, AuthorizationRequest, Condition, ConditionResult, DenialReason,
    Effect, Policy, PrincipalAttribute, ResourceAttributes, ResourceRef, ResourceSelector, Rule,
};
use authboundry::contract::claims::{ClaimValue, Claims};
use authboundry::contract::ids::{Capability, PolicyId, PrincipalId, StorageRootId, TenantId};
use authboundry::contract::principal::{Principal, PrincipalKind};
use authboundry::contract::tenant::TenantContext;
use authboundry::contract::versioning::ContractVersion;

fn tenant_context(tenant: &str, root: &str) -> TenantContext {
    TenantContext {
        tenant_id: TenantId::new(tenant),
        namespace: tenant.to_string(),
        policy_id: PolicyId::new("p1"),
        storage_root_id: StorageRootId::new(root),
    }
}

#[test]
fn grants_capability_when_claim_matches() {
    let claims = vec![("role".to_string(), ClaimValue::Enum("admin".to_string()))];
    let principal = Principal {
        id: PrincipalId("id-1".to_string()),
        kind: PrincipalKind::Human,
        tenant_id: TenantId::new("tenant-a"),
        claims: Claims { values: claims },
        version: ContractVersion { major: 1, minor: 0 },
        agent_state: None,
    };
    let tenant = tenant_context("tenant-a", "root-a");
    let policy = Policy {
        id: PolicyId::new("p1"),
        rules: vec![Rule::allow(
            "billing.charge",
            Condition::ClaimEquals {
                key: "role".to_string(),
                value: ClaimValue::Enum("admin".to_string()),
            },
        )],
    };

    let envelope = evaluate(&policy, &principal, &tenant).expect("policy should evaluate");
    assert_eq!(envelope.capabilities(), vec![Capability::new("billing.charge")]);
}

#[test]
fn fails_closed_when_principal_tenant_does_not_match_context() {
    let principal = Principal {
        id: PrincipalId("id-1".to_string()),
        kind: PrincipalKind::Human,
        tenant_id: TenantId::new("tenant-a"),
        claims: Claims { values: Vec::new() },
        version: ContractVersion { major: 1, minor: 0 },
        agent_state: None,
    };
    let tenant = tenant_context("tenant-b", "root-b");
    let policy = Policy {
        id: PolicyId::new("p1"),
        rules: vec![Rule::allow(
            "storage.read",
            Condition::TimeBound {
                start: 0,
                end: i64::MAX,
            },
        )],
    };

    let err = evaluate(&policy, &principal, &tenant).expect_err("tenant mismatch must fail");
    assert_eq!(err.message, "principal tenant does not match tenant context");
}

#[test]
fn resource_requests_enforce_tenant_claims_and_relationships() {
    let claims = vec![
        ("role".to_string(), ClaimValue::Enum("admin".to_string())),
        (
            "department".to_string(),
            ClaimValue::String("finance".to_string()),
        ),
    ];
    let principal = Principal {
        id: PrincipalId("user-1".to_string()),
        kind: PrincipalKind::Human,
        tenant_id: TenantId::new("acme"),
        claims: Claims { values: claims },
        version: ContractVersion { major: 1, minor: 0 },
        agent_state: None,
    };
    let tenant = tenant_context("acme", "root-a");
    let policy = Policy {
        id: PolicyId::new("p1"),
        rules: vec![Rule {
            capability: Capability::new("invoice.update"),
            condition: Condition::All(vec![
                Condition::TenantCurrent,
                Condition::ClaimIn {
                    key: "role".to_string(),
                    values: vec![
                        ClaimValue::Enum("owner".to_string()),
                        ClaimValue::Enum("admin".to_string()),
                    ],
                },
                Condition::RelationshipEquals {
                    resource_attribute: "department".to_string(),
                    principal: PrincipalAttribute::Claim("department".to_string()),
                },
            ]),
            resource: Some(ResourceSelector::any("invoice")),
            action: Some(Action("update".to_string())),
            effect: Effect::Allow,
        }],
    };
    let request = AuthorizationRequest {
        principal: principal.id.clone(),
        tenant: tenant.tenant_id.clone(),
        capability: Capability::new("invoice.update"),
        action: Action("update".to_string()),
        resource: Some(ResourceRef::new("invoice", "8472", "acme")),
        context: AuthorizationContext::default(),
    };
    let attributes = ResourceAttributes::new()
        .with_tenant("acme")
        .with_value("department", ClaimValue::String("finance".to_string()));

    let decision = evaluate_authorization_request(
        Some(&policy),
        Some(&principal),
        Some(&tenant),
        None,
        &request,
        Some(&attributes),
        0,
    );
    assert!(decision.is_allowed());

    let globex_attributes = ResourceAttributes::new()
        .with_tenant("globex")
        .with_value("department", ClaimValue::String("finance".to_string()));
    let denied = evaluate_authorization_request(
        Some(&policy),
        Some(&principal),
        Some(&tenant),
        None,
        &request,
        Some(&globex_attributes),
        0,
    );
    assert_eq!(denied.denial_reason(), Some(DenialReason::TenantMismatch));

    let mismatch_attributes = ResourceAttributes::new()
        .with_tenant("acme")
        .with_value("department", ClaimValue::String("legal".to_string()));
    let condition_denied = evaluate_authorization_request(
        Some(&policy),
        Some(&principal),
        Some(&tenant),
        None,
        &request,
        Some(&mismatch_attributes),
        0,
    );
    assert_eq!(
        condition_denied.denial_reason(),
        Some(DenialReason::ConditionFailed)
    );
    let conditions = condition_denied.conditions();
    assert_eq!(conditions.len(), 3);
    assert_eq!(conditions[0].result, ConditionResult::Pass);
    assert_eq!(conditions[1].result, ConditionResult::Pass);
    assert_eq!(conditions[2].result, ConditionResult::Fail);
    assert_eq!(
        conditions[2].condition,
        "resource.department == principal.claim.department"
    );
}

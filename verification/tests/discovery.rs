use authboundry::discovery::authority_map::AuthorityMap;
use authboundry::discovery::model::{
    ApplicationCandidate, AuthorityDrift, Confidence, DiscoveryConfidence, ExistingAuthPort,
    ProposalHistoryItem, ProtectionState, RecommendationAction, ResourceInference, RouteCandidate,
    RouteSource,
};
use authboundry::discovery::paths::{infer_capability, normalize_path};
use authboundry::discovery::propose::propose_authority;
use authboundry::discovery::reconcile::AuthorityReconciler;
use authboundry::discovery::render::{
    escape, render_drift_json, render_drift_text, render_proposal_json, render_proposal_text,
    render_reconciliation_json, render_reconciliation_text,
};

fn app_with(routes: Vec<RouteCandidate>) -> ApplicationCandidate {
    ApplicationCandidate {
        root: ".".to_string(),
        name: Some("billing-api".to_string()),
        language: Some("Node".to_string()),
        framework: Some("Express".to_string()),
        package_manager: Some("npm".to_string()),
        entrypoints: Vec::new(),
        servers: Vec::new(),
        routes,
        providers: Vec::new(),
        existing_auth: Vec::new(),
        existing_authport: ExistingAuthPort::default(),
        confidence: DiscoveryConfidence::High,
    }
}

fn route(method: &str, path: &str) -> RouteCandidate {
    RouteCandidate {
        method: method.to_string(),
        path: path.to_string(),
        source: RouteSource::Express,
        capability: None,
    }
}

fn authority(entries: &[(&str, &str, &str)]) -> AuthorityMap {
    let mut map = AuthorityMap::new();
    for (method, path, capability) in entries {
        map.insert((method.to_string(), path.to_string()), capability.to_string());
    }
    map
}

#[test]
fn infers_capabilities_and_normalizes_parameters_deterministically() {
    assert_eq!(
        normalize_path("/invoices/{id}"),
        normalize_path("/invoices/[id]")
    );
    assert_eq!(normalize_path("/invoices/:id"), "/invoices/:param");

    let read = infer_capability("GET", "/invoices/:id").unwrap();
    assert_eq!(read.capability, "invoice.read");
    assert_eq!(read.confidence, Confidence::High);
    assert_eq!(
        read.resource,
        Some(ResourceInference {
            resource_type: "invoice".to_string(),
            resource_id: "{id}".to_string(),
            action: "read".to_string(),
        })
    );

    let create = infer_capability("POST", "/customers").unwrap();
    assert_eq!(create.capability, "customer.create");
    assert_eq!(create.confidence, Confidence::High);
    assert_eq!(create.resource.as_ref().unwrap().resource_id, "*");

    let action = infer_capability("POST", "/billing/charge").unwrap();
    assert_eq!(action.capability, "billing.charge");
    assert_eq!(action.confidence, Confidence::High);

    let weak = infer_capability("POST", "/process").unwrap();
    assert_eq!(weak.capability, "process.create");
    assert_eq!(weak.confidence, Confidence::Low);

    let medium = infer_capability("GET", "/reports/summary").unwrap();
    assert_eq!(medium.confidence, Confidence::Medium);
}

#[test]
fn proposal_preserves_explicit_mapping_and_recommends_without_applying() {
    let app = app_with(vec![
        route("GET", "/health"),
        RouteCandidate {
            method: "POST".to_string(),
            path: "/invoices".to_string(),
            source: RouteSource::Express,
            capability: Some("invoice.write".to_string()),
        },
        route("POST", "/billing/charge"),
    ]);

    let proposal = propose_authority(&app, "contract-1", 4, &AuthorityMap::new());
    assert_eq!(proposal.contract_fingerprint, "contract-1");
    assert_eq!(proposal.live_revision, 4);
    let explicit = proposal
        .routes
        .iter()
        .find(|route| route.path == "/invoices")
        .unwrap();
    assert_eq!(explicit.capability.as_deref(), Some("invoice.write"));
    assert!(explicit.inference.is_none());
    assert_eq!(explicit.protection, ProtectionState::Protected);

    let charge = proposal
        .routes
        .iter()
        .find(|route| route.path == "/billing/charge")
        .unwrap();
    assert_eq!(
        charge.inference.as_ref().map(|i| i.capability.as_str()),
        Some("billing.charge")
    );
    assert_eq!(charge.protection, ProtectionState::Unprotected);
    assert!(proposal.recommendations.iter().any(|item| {
        item.path == "/billing/charge" && item.action == RecommendationAction::ProtectRoute
    }));

    let json = render_proposal_json(&proposal);
    assert!(json.contains("\"contract_fingerprint\": \"contract-1\""));
    assert!(json.contains("\"live_revision\": 4"));
    assert_eq!(json, render_proposal_json(&proposal));
}

#[test]
fn reconciliation_proposes_new_routes_without_mutating_authority() {
    let previous = app_with(vec![route("POST", "/invoices")]);
    let current = app_with(vec![route("POST", "/invoices"), route("POST", "/refunds")]);
    let authority = authority(&[("POST", "/invoices", "invoice.create")]);

    let result =
        AuthorityReconciler::reconcile(Some(&previous), &current, "contract-1", 7, &authority, &[]);

    assert_eq!(result.authority_revision, 7);
    assert_eq!(result.contract_fingerprint, "contract-1");
    assert_eq!(result.new_routes.len(), 1);
    assert_eq!(result.new_routes[0].path, "/refunds");
    assert_eq!(
        result.new_routes[0]
            .inference
            .as_ref()
            .map(|inference| inference.capability.as_str()),
        Some("refund.create")
    );
    assert_eq!(result.new_authority_proposals.len(), 1);
    assert_eq!(
        result.new_authority_proposals[0].current_authority_state,
        "unprotected"
    );
    assert_eq!(
        result.new_authority_proposals[0].proposed_authority_state,
        "protected"
    );
    assert!(result
        .drift
        .iter()
        .any(|item| { item.kind == AuthorityDrift::NewRoute && item.route == "POST /refunds" }));
    assert!(render_reconciliation_text(&result).contains("No authority was changed."));
}

#[test]
fn reconciliation_orphans_removed_authority_without_deleting_history() {
    let previous = app_with(vec![route("POST", "/billing/charge")]);
    let current = app_with(Vec::new());
    let authority = authority(&[("POST", "/billing/charge", "billing.charge")]);

    let result =
        AuthorityReconciler::reconcile(Some(&previous), &current, "contract-1", 3, &authority, &[]);

    assert_eq!(authority.len(), 1, "reconciliation is read-only");
    assert_eq!(result.orphaned_authority.len(), 1);
    assert_eq!(result.orphaned_authority[0].capability, "billing.charge");
    assert!(result.drift.iter().any(|item| {
        item.kind == AuthorityDrift::OrphanedAuthority
            && item.authority_state == "retained:billing.charge"
    }));
}

#[test]
fn reconciliation_distinguishes_equivalent_and_meaningful_route_changes() {
    let equivalent_previous = app_with(vec![route("GET", "/invoices/{id}")]);
    let equivalent_current = app_with(vec![route("GET", "/invoices/[id]")]);
    let authority = AuthorityMap::new();

    let equivalent = AuthorityReconciler::reconcile(
        Some(&equivalent_previous),
        &equivalent_current,
        "contract-1",
        0,
        &authority,
        &[],
    );
    assert_eq!(equivalent.equivalent_routes.len(), 1);
    assert!(equivalent.changed_routes.is_empty());
    assert!(equivalent.new_routes.is_empty());
    assert!(equivalent.removed_routes.is_empty());

    let changed_previous = app_with(vec![route("POST", "/invoices")]);
    let changed_current = app_with(vec![route("PATCH", "/invoices/:id")]);
    let changed = AuthorityReconciler::reconcile(
        Some(&changed_previous),
        &changed_current,
        "contract-1",
        0,
        &authority,
        &[],
    );
    assert_eq!(changed.changed_routes.len(), 1);
    assert_eq!(changed.changed_routes[0].reason, "HTTP method changed");
    assert!(changed
        .drift
        .iter()
        .any(|item| item.kind == AuthorityDrift::RouteChanged));
}

#[test]
fn reconciliation_surfaces_conflicts_and_is_idempotent() {
    let app = app_with(vec![route("POST", "/invoices")]);
    let authority = authority(&[("POST", "/invoices", "invoice.write")]);

    let first = AuthorityReconciler::reconcile(None, &app, "contract-1", 9, &authority, &[]);
    let second = AuthorityReconciler::reconcile(None, &app, "contract-1", 9, &authority, &[]);

    assert_eq!(first, second);
    assert!(first.new_authority_proposals.is_empty());
    assert!(first.drift.iter().any(|item| {
        item.kind == AuthorityDrift::CapabilityConflict
            && item.previous_state == "invoice.write"
            && item.current_state == "invoice.create"
            && item.authority_state == "explicit authority preserved"
    }));
}

#[test]
fn stale_proposals_are_reported_for_absent_routes_only() {
    let app = app_with(vec![route("POST", "/invoices")]);
    let history = vec![
        ProposalHistoryItem {
            id: "p-2".to_string(),
            method: "POST".to_string(),
            path: "/refunds".to_string(),
            capability: "refund.create".to_string(),
            status: "pending".to_string(),
            discovery_revision: 1,
            authority_revision: 1,
        },
        ProposalHistoryItem {
            id: "p-1".to_string(),
            method: "POST".to_string(),
            path: "/invoices".to_string(),
            capability: "invoice.create".to_string(),
            status: "pending".to_string(),
            discovery_revision: 1,
            authority_revision: 1,
        },
        ProposalHistoryItem {
            id: "p-0".to_string(),
            method: "DELETE".to_string(),
            path: "/refunds".to_string(),
            capability: "refund.delete".to_string(),
            status: "applied".to_string(),
            discovery_revision: 1,
            authority_revision: 1,
        },
    ];
    let result =
        AuthorityReconciler::reconcile(None, &app, "c", 1, &AuthorityMap::new(), &history);
    assert_eq!(result.stale_proposals.len(), 1);
    assert_eq!(result.stale_proposals[0].id, "p-2");
    assert!(result.drift.iter().any(|item| item.kind == AuthorityDrift::StaleProposal
        && item.authority_state == "proposal:p-2"
        && item.recommended_action == "reject_or_supersede"));
}

#[test]
fn reconciliation_without_history_compares_against_live_authority() {
    let app = app_with(vec![route("POST", "/invoices"), route("GET", "/reports")]);
    let authority = authority(&[("POST", "/invoices", "invoice.create")]);
    let result = AuthorityReconciler::reconcile(None, &app, "c", 2, &authority, &[]);
    assert_eq!(result.unchanged_routes.len(), 1);
    assert_eq!(result.unchanged_routes[0].path, "/invoices");
    assert_eq!(result.new_routes.len(), 1);
    assert_eq!(result.new_routes[0].path, "/reports");
    assert!(result.orphaned_authority.is_empty());
    let drift = render_drift_json(&result);
    assert!(drift.starts_with("{\n  \"contract_fingerprint\": \"c\""));
    let json = render_reconciliation_json(&result);
    assert!(json.contains("\"summary\": {\"new_routes\": 1, \"removed_routes\": 0"));
    assert!(json.contains("\"unsafe_automatic_changes\": 0}"));
}

#[test]
fn renders_proposal_text_with_padded_safe_defaults() {
    let app = app_with(vec![route("POST", "/billing/charge"), route("GET", "/health")]);
    let proposal = propose_authority(&app, "fp", 1, &AuthorityMap::new());
    let text = render_proposal_text(&proposal);
    assert!(text.starts_with("AUTHORITY PROPOSAL\nApplication: billing-api\nObserved routes: 2\n"));
    assert!(text.contains("HIGH CONFIDENCE\nPOST /billing/charge\n  → billing.charge\n  Reasons:\n"));
    assert!(text.contains("GET    /health                  public      (none)\n"));
    assert!(text.contains("RECOMMENDED PROTECTION\nPOST /billing/charge -> billing.charge\n"));
    assert!(text.ends_with("Nothing has been changed.\n"));
}

#[test]
fn escape_quotes_backslashes_and_quotation_marks() {
    assert_eq!(escape("a\"b\\c"), "a\\\"b\\\\c");
    assert_eq!(escape("plain"), "plain");
}

#[test]
fn drift_text_lists_each_item_and_changes_nothing() {
    let app = app_with(vec![route("POST", "/invoices")]);
    let authority = authority(&[("POST", "/invoices", "invoice.write")]);
    let result = AuthorityReconciler::reconcile(None, &app, "contract-1", 9, &authority, &[]);
    let text = render_drift_text(&result);
    assert!(text.starts_with("AuthPort Authority Drift\nCAPABILITY_CONFLICT\n  POST /invoices\n"));
    assert!(text.contains("  previous: invoice.write\n  current: invoice.create\n"));
    assert!(text.contains("  authority: explicit authority preserved\n  action: review\n"));
    assert!(text.ends_with("No authority was changed.\n"));

    let quiet = AuthorityReconciler::reconcile(None, &app_with(vec![]), "contract-1", 9, &AuthorityMap::new(), &[]);
    assert_eq!(
        render_drift_text(&quiet),
        "AuthPort Authority Drift\nNo authority drift detected.\n"
    );
}

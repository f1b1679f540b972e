use authboundry::authz::policy::{Condition, Policy, Rule};
use authboundry::boundary::control::{
    apply_change, apply_revert_change, Approval, AuthorityChange, ChangeProposal,
    LiveAuthorityState, Preview, PreviewState, ProviderState, RouteId,
};
use authboundry::boundary::proposal_store::{
    ChangeRecord, MemoryProposalStore, ProposalStatus, StoredProposal,
};
use authboundry::boundary::request::Method;
use authboundry::contract::ids::PolicyId;

fn protect(path: &str, capability: &str) -> AuthorityChange {
    AuthorityChange::ProtectRoute {
        method: Method::Post,
        path: path.to_string(),
        capability: capability.to_string(),
    }
}

fn proposal(id: &str, change: AuthorityChange, state: &LiveAuthorityState) -> ChangeProposal {
    let after = apply_change(state, &change).unwrap();
    ChangeProposal {
        id: id.to_string(),
        change,
        preview: Preview {
            before: PreviewState::from(state),
            after: PreviewState::from(&after),
        },
        revision: state.revision,
    }
}

fn route_capability(state: &LiveAuthorityState, method: Method, path: &str) -> Option<Option<String>> {
    state
        .route_protection
        .iter()
        .find(|(id, _)| id.method == method && id.path == path)
        .map(|(_, p)| p.capability.clone())
}

fn stored(id: &str, created_at: i64) -> StoredProposal {
    let state = LiveAuthorityState::new();
    let p = proposal(id, protect("/invoices", "invoice.create"), &state);
    StoredProposal {
        id: p.id,
        change: p.change,
        preview: p.preview,
        revision: p.revision,
        status: ProposalStatus::Pending,
        created_at,
        applied_at: None,
        change_id: None,
        rejection_reason: None,
    }
}

#[test]
fn approval_token_is_deterministic() {
    let change = AuthorityChange::ProtectRoute {
        method: Method::Post,
        path: "/invoices".to_string(),
        capability: "invoice.create".to_string(),
    };

    let current_state = LiveAuthorityState::new();
    let after_state = apply_change(&current_state, &change).unwrap();

    let proposal = ChangeProposal {
        id: "proposal-test".to_string(),
        change,
        preview: Preview {
            before: PreviewState::from(&current_state),
            after: PreviewState::from(&after_state),
        },
        revision: 0,
    };

    let approval1 = Approval::for_proposal(&proposal);
    let approval2 = Approval::for_proposal(&proposal);

    assert_eq!(approval1, approval2);
    assert!(approval1.verify(&proposal));
}

#[test]
fn an_approval_is_bound_to_its_change() {
    let state = LiveAuthorityState::new();
    let a = proposal("a", protect("/invoices", "invoice.create"), &state);
    let b = proposal("b", protect("/invoices", "invoice.delete"), &state);
    let approval = Approval::for_proposal(&a);
    assert!(approval.token.starts_with("dev-approval-"));
    assert!(!approval.verify(&b));
    let forged = Approval { token: "dev-approval-0".to_string() };
    assert!(!forged.verify(&a));
}

#[test]
fn protecting_a_route_advances_the_revision_and_keeps_the_old_state() {
    let state = LiveAuthorityState::new();
    let next = apply_change(&state, &protect("/invoices", "invoice.create")).unwrap();
    assert_eq!(next.revision, 1);
    assert_eq!(state.revision, 0);
    assert!(state.route_protection.is_empty());
    assert_eq!(
        route_capability(&next, Method::Post, "/invoices"),
        Some(Some("invoice.create".to_string()))
    );
    let again = apply_change(&next, &protect("/invoices", "invoice.update")).unwrap();
    assert_eq!(again.revision, 2);
    assert_eq!(again.route_protection.len(), 1);
    assert_eq!(
        route_capability(&again, Method::Post, "/invoices"),
        Some(Some("invoice.update".to_string()))
    );
}

#[test]
fn unprotecting_a_route_leaves_other_routes() {
    let state = LiveAuthorityState::new();
    let one = apply_change(&state, &protect("/invoices", "invoice.create")).unwrap();
    let two = apply_change(&one, &protect("/reports", "report.read")).unwrap();
    let three = apply_change(
        &two,
        &AuthorityChange::UnprotectRoute { method: Method::Post, path: "/invoices".to_string() },
    )
    .unwrap();
    assert_eq!(three.revision, 3);
    assert_eq!(route_capability(&three, Method::Post, "/invoices"), None);
    assert_eq!(
        route_capability(&three, Method::Post, "/reports"),
        Some(Some("report.read".to_string()))
    );
}

#[test]
fn policies_and_providers_are_set_by_name() {
    let state = LiveAuthorityState::new();
    let policy = Policy {
        id: PolicyId::new("default"),
        rules: vec![Rule::allow("invoice.read", Condition::Always)],
    };
    let next = apply_change(
        &state,
        &AuthorityChange::SetCapabilityPolicy { capability: "invoice.read".to_string(), policy: policy.clone() },
    )
    .unwrap();
    assert_eq!(next.capability_policies.len(), 1);
    assert_eq!(next.capability_policies[0].0, "invoice.read");
    assert_eq!(next.capability_policies[0].1, policy);
    let off = apply_change(
        &next,
        &AuthorityChange::SetProviderEnabled { provider: "local".to_string(), enabled: false },
    )
    .unwrap();
    let on = apply_change(
        &off,
        &AuthorityChange::SetProviderEnabled { provider: "local".to_string(), enabled: true },
    )
    .unwrap();
    assert_eq!(on.revision, 3);
    assert_eq!(on.provider_state, vec![("local".to_string(), ProviderState { enabled: true })]);
    assert_eq!(on.capability_policies.len(), 1);
}

#[test]
fn a_revert_cannot_be_applied_directly() {
    let state = LiveAuthorityState::new();
    let r = apply_change(&state, &AuthorityChange::Revert { change_id: "change-1".to_string() });
    assert_eq!(r.err(), Some("revert requires an applied change record".to_string()));
}

#[test]
fn a_revert_restores_the_recorded_tables() {
    let state = LiveAuthorityState::new();
    let change = protect("/invoices", "invoice.create");
    let after = apply_change(&state, &change).unwrap();
    let record = ChangeRecord {
        change_id: "change-1".to_string(),
        proposal_id: "proposal-1".to_string(),
        change,
        previous_state: state.duplicate(),
        resulting_state: after.duplicate(),
        applied_at: 100,
        applied_by: None,
        reverted_change_id: None,
    };
    let reverted = apply_revert_change(&after, "change-1", &record).unwrap();
    assert_eq!(reverted.revision, 2);
    assert!(reverted.route_protection.is_empty());

    let wrong = apply_revert_change(&after, "change-2", &record);
    assert_eq!(wrong.err(), Some("revert change id does not match the stored record".to_string()));
    let stale = apply_revert_change(&state, "change-1", &record);
    assert_eq!(stale.err(), Some("cannot revert against an older authority state".to_string()));
}

#[test]
fn change_types_are_named() {
    assert_eq!(protect("/x", "y").change_type(), "protect_route");
    assert_eq!(
        AuthorityChange::Revert { change_id: "c".to_string() }.change_type(),
        "revert"
    );
    assert_eq!(
        AuthorityChange::SetProviderEnabled { provider: "p".to_string(), enabled: true }.change_type(),
        "set_provider_enabled"
    );
    let id = RouteId::new(Method::Get, "/a".to_string());
    assert_eq!(id.path, "/a");
}

#[test]
fn proposal_ids_are_allocated_in_order() {
    let mut store = MemoryProposalStore::new();
    assert_eq!(store.allocate_proposal_id(), "proposal-1");
    assert_eq!(store.allocate_proposal_id(), "proposal-2");
}

#[test]
fn a_stored_proposal_is_retrieved_and_never_stored_twice() {
    let mut store = MemoryProposalStore::new();
    assert!(store.store_proposal(stored("proposal-1", 10)).is_ok());
    assert_eq!(
        store.store_proposal(stored("proposal-1", 11)).err(),
        Some("proposal `proposal-1` already exists".to_string())
    );
    let p = store.retrieve_proposal("proposal-1").unwrap();
    assert_eq!(p.created_at, 10);
    assert_eq!(p.status, ProposalStatus::Pending);
    assert_eq!(
        store.retrieve_proposal("proposal-9").err(),
        Some("proposal `proposal-9` was not found".to_string())
    );
}

#[test]
fn proposals_are_listed_newest_first_and_paged() {
    let mut store = MemoryProposalStore::new();
    store.store_proposal(stored("proposal-1", 10)).unwrap();
    store.store_proposal(stored("proposal-2", 30)).unwrap();
    store.store_proposal(stored("proposal-3", 20)).unwrap();
    let all = store.list_proposals(10, 0).unwrap();
    let ids: Vec<&str> = all.iter().map(|m| m.id.as_str()).collect();
    assert_eq!(ids, vec!["proposal-2", "proposal-3", "proposal-1"]);
    assert_eq!(all[0].change_type, "protect_route");
    let page = store.list_proposals(1, 1).unwrap();
    assert_eq!(page.len(), 1);
    assert_eq!(page[0].id, "proposal-3");
    assert!(store.list_proposals(5, 7).unwrap().is_empty());
}

#[test]
fn proposals_are_marked_applied_or_rejected() {
    let mut store = MemoryProposalStore::new();
    store.store_proposal(stored("proposal-1", 10)).unwrap();
    store.store_proposal(stored("proposal-2", 20)).unwrap();
    store.mark_applied("proposal-1", "change-1".to_string(), 1).unwrap();
    store.mark_rejected("proposal-2", "not now".to_string()).unwrap();
    let a = store.retrieve_proposal("proposal-1").unwrap();
    assert_eq!(a.status, ProposalStatus::Applied);
    assert_eq!(a.change_id, Some("change-1".to_string()));
    let b = store.retrieve_proposal("proposal-2").unwrap();
    assert_eq!(b.status, ProposalStatus::Rejected);
    assert_eq!(b.rejection_reason, Some("not now".to_string()));
    assert_eq!(
        store.mark_rejected("proposal-3", "x".to_string()).err(),
        Some("proposal `proposal-3` was not found".to_string())
    );
}

#[test]
fn change_records_are_replaced_by_id_and_listed_newest_first() {
    let mut store = MemoryProposalStore::new();
    let state = LiveAuthorityState::new();
    for (id, at) in [("change-1", 5), ("change-2", 7), ("change-1", 9)] {
        let change = protect("/invoices", "invoice.create");
        let after = apply_change(&state, &change).unwrap();
        store
            .store_change_record(ChangeRecord {
                change_id: id.to_string(),
                proposal_id: "proposal-1".to_string(),
                change,
                previous_state: state.duplicate(),
                resulting_state: after,
                applied_at: at,
                applied_by: Some("alice".to_string()),
                reverted_change_id: None,
            })
            .unwrap();
    }
    let listed = store.list_change_records(10, 0).unwrap();
    let ids: Vec<(&str, i64)> = listed.iter().map(|r| (r.change_id.as_str(), r.applied_at)).collect();
    assert_eq!(ids, vec![("change-1", 9), ("change-2", 7)]);
    assert_eq!(store.retrieve_change_record("change-2").unwrap().applied_at, 7);
    assert_eq!(
        store.retrieve_change_record("change-3").err(),
        Some("change `change-3` was not found".to_string())
    );
}

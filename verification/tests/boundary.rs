use authboundry::boundary::ceremony::{
    CeremonyKind, ChallengeStore, MailMessage, MailPort, MemoryMailPort,
};
use authboundry::boundary::clock::{Clock, TestClock};
use authboundry::boundary::context::{ClientAuthContext, ClientDelegation};
use authboundry::boundary::request::{
    BoundaryRequest, Method, SessionCredential, RESERVED_HEADER_PREFIX, SESSION_COOKIE,
};
use authboundry::boundary::requirement::Requirement;
use authboundry::boundary::settings::{BindingMode, RegistrationPolicy};
use authboundry::boundary::proposal_store::ProposalStatus;
use authboundry::contract::ids::SessionId;

#[test]
fn a_session_credential_round_trips_and_rejects_nonsense() {
    let credential = SessionCredential::new("acme", SessionId::new("sess_abc"));
    let encoded = credential.encode();
    assert_eq!(SessionCredential::parse(&encoded), Some(credential));

    for nonsense in ["", "apt_", "apt_acme", "acme.sess_abc", "apt_.x", "apt_x."] {
        assert_eq!(SessionCredential::parse(nonsense), None, "{nonsense}");
    }
}

#[test]
fn reserved_headers_never_reach_the_boundary() {
    let request = BoundaryRequest::get("/invoices")
        .with_header("x-authboundry-principal", "prn_root")
        .with_header("x-authboundry-capabilities", "billing.charge")
        .with_header("x-app-header", "kept")
        .sanitized();

    assert!(request
        .headers
        .iter()
        .all(|(name, _)| !name.starts_with(RESERVED_HEADER_PREFIX)));
    assert_eq!(request.header("x-app-header").as_deref(), Some("kept"));
}

#[test]
fn reserved_headers_are_matched_without_regard_to_case() {
    let request = BoundaryRequest::get("/invoices")
        .with_header("X-AuthBoundry-Principal", "admin")
        .with_header("Accept", "application/json")
        .sanitized();
    assert_eq!(request.header("x-authboundry-principal"), None);
    assert_eq!(request.header("ACCEPT").as_deref(), Some("application/json"));
}

#[test]
fn request_hints_are_trimmed_and_body_fields_shadow_the_query() {
    let mut request = BoundaryRequest::post("/auth/login").with_field("tenant", "  acme ");
    request.query.push(("tenant".to_string(), "globex".to_string()));
    assert_eq!(request.field("tenant").as_deref(), Some("acme"));
    assert_eq!(request.tenant_hint().as_deref(), Some("acme"));
    let hinted = request.clone().with_header("X-Tenant-Id", "initech");
    assert_eq!(hinted.tenant_hint().as_deref(), Some("initech"));
    let blank = BoundaryRequest::get("/").with_field("tenant", "   ");
    assert_eq!(blank.tenant_hint(), None);
    assert_eq!(Method::parse("patch"), Some(Method::Patch));
    assert_eq!(Method::parse("TRACE"), None);
    assert_eq!(Method::Options.as_str(), "OPTIONS");
    assert_eq!(BoundaryRequest::default().path, "/");
    let with_cookie = BoundaryRequest::new(Method::Delete, "/x").with_cookie("sid", "v");
    assert_eq!(with_cookie.cookies, vec![("sid".to_string(), "v".to_string())]);
}

#[test]
fn requirements_describe_themselves() {
    assert!(Requirement::Public.is_public());
    assert!(!Requirement::capability("invoice.read").is_public());
    assert_eq!(Requirement::Authenticated.describe(), "authenticated");
    assert_eq!(Requirement::capability("invoice.read").describe(), "invoice.read");
}

#[test]
fn a_test_clock_moves_only_by_hand() {
    let mut clock = TestClock::new(100);
    assert_eq!(clock.now(), 100);
    clock.advance(50);
    assert_eq!(clock.now_value(), 150);
    clock.set(7);
    assert_eq!(clock.now(), 7);
}

#[test]
fn password_recovery_challenges_are_opaque_and_single_use() {
    let mut store = ChallengeStore::new();
    let token = store
        .issue(CeremonyKind::PasswordReset, "acme", "alice", 100)
        .unwrap();
    assert_eq!(token.len(), 64);
    assert!(token.chars().all(|c| c.is_ascii_hexdigit()));
    assert_eq!(
        store.consume(&token, CeremonyKind::EmailVerification, 10).unwrap_err(),
        "invalid or expired recovery challenge"
    );
    assert_eq!(
        store.consume(&token, CeremonyKind::PasswordReset, 10).unwrap(),
        ("acme".to_string(), "alice".to_string())
    );
    assert_eq!(
        store.consume(&token, CeremonyKind::PasswordReset, 11).unwrap_err(),
        "invalid or expired recovery challenge"
    );
    assert_eq!(
        store.consume("0000", CeremonyKind::PasswordReset, 11).unwrap_err(),
        "invalid recovery challenge"
    );
}

#[test]
fn expired_and_revoked_challenges_are_refused() {
    let mut store = ChallengeStore::new();
    let expiring = store
        .issue(CeremonyKind::EmailVerification, "acme", "bob", 100)
        .unwrap();
    assert!(store
        .consume(&expiring, CeremonyKind::EmailVerification, 100)
        .is_err());
    let revoked = store
        .issue(CeremonyKind::EmailVerification, "acme", "bob", 100)
        .unwrap();
    assert_ne!(expiring, revoked);
    assert!(store.revoke(&revoked));
    assert!(!store.revoke("unknown"));
    assert!(store
        .consume(&revoked, CeremonyKind::EmailVerification, 1)
        .is_err());
}

#[test]
fn memory_mail_port_keeps_what_it_sends() {
    let mut port = MemoryMailPort::new();
    let message = MailMessage {
        template: "password_reset".to_string(),
        identity: "auth".to_string(),
        to: "alice@example.test".to_string(),
        tenant: "acme".to_string(),
        variables: vec![("link".to_string(), "https://x".to_string())],
        idempotency_key: "k1".to_string(),
    };
    port.send(message.clone()).unwrap();
    assert_eq!(port.messages(), vec![message]);
}

#[test]
fn the_client_projection_is_exact_json() {
    let context = ClientAuthContext {
        authenticated: true,
        principal_id: "principal:alice".to_string(),
        principal_kind: "human".to_string(),
        tenant_id: "acme".to_string(),
        claims: vec![("role".to_string(), "ow\"ner".to_string())],
        capabilities: vec!["invoice.read".to_string(), "invoice.create".to_string()],
        session_expires_at: 1700,
        delegation: Some(ClientDelegation {
            id: "d1".to_string(),
            delegated_by: "principal:bob".to_string(),
            capabilities: vec!["invoice.read".to_string()],
        }),
    };
    assert_eq!(
        context.to_json(),
        "{\"authenticated\": true, \"principal\": {\"id\": \"principal:alice\", \"kind\": \"human\"}, \"tenant\": {\"id\": \"acme\"}, \"claims\": {\"role\": \"ow\\\"ner\"}, \"capabilities\": [\"invoice.read\", \"invoice.create\"], \"session\": {\"expires_at\": 1700}, \"delegation\": {\"id\": \"d1\", \"delegated_by\": \"principal:bob\", \"capabilities\": [\"invoice.read\"]}}"
    );
    assert!(ClientAuthContext::anonymous_json().starts_with("{\"authenticated\": false"));
}

#[test]
fn deployment_settings() {
    assert_eq!(BindingMode::Standalone.as_str(), "standalone");
    assert_eq!(RegistrationPolicy::default(), RegistrationPolicy::Closed);
    assert_eq!(
        RegistrationPolicy::self_service(&[("role", "member"), ("role", "user")]),
        RegistrationPolicy::SelfService {
            claims: vec![("role".to_string(), "user".to_string())]
        }
    );
    assert_eq!(ProposalStatus::Rejected.as_str(), "rejected");
}

#[test]
fn a_credential_is_read_from_the_cookie_or_a_bearer_token() {
    let credential = SessionCredential::new("acme", SessionId::new("sess_1"));
    let request = BoundaryRequest::get("/invoices").with_credential(&credential);
    assert_eq!(request.credential(), Some(credential.clone()));
    assert_eq!(SESSION_COOKIE, "authboundry_session");
    let bearer = BoundaryRequest::get("/invoices").with_header("Authorization", "Bearer apt_acme.sess_1");
    assert_eq!(bearer.credential(), Some(credential));
    let basic = BoundaryRequest::get("/invoices").with_header("Authorization", "Basic abc");
    assert_eq!(basic.credential(), None);
    assert_eq!(BoundaryRequest::get("/").credential(), None);
}

#[test]
fn a_challenge_token_is_its_bytes_in_hexadecimal() {
    let mut store = ChallengeStore::new();
    let mut bytes = vec![0u8; 32];
    bytes[0] = 0xab;
    bytes[31] = 0x01;
    let token = store.issue_with(&bytes, CeremonyKind::PasswordReset, "acme", "alice", 100);
    assert_eq!(token, format!("ab{}01", "00".repeat(30)));
    assert_eq!(
        store.consume(&token, CeremonyKind::PasswordReset, 10).unwrap(),
        ("acme".to_string(), "alice".to_string())
    );
    assert!(store.consume(&token, CeremonyKind::PasswordReset, 10).is_err());
}

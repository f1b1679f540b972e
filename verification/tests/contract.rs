use authboundry::contract::authentication::{
    AuthExtension, AuthPortIdentityProfile, AuthenticationCeremony, AuthenticationCeremonyState,
    AuthenticationMethod, Device, DeviceId, DeviceStatus, DeviceType,
};
use authboundry::contract::capability::{CapabilityId, CapabilityKind, RecoveryCapability};
use authboundry::contract::claims::Claims;
use authboundry::contract::ids::{IdentityId, PrincipalId, TenantId};
use authboundry::contract::principal::Principal;
use authboundry::contract::versioning::ContractVersion;

#[test]
fn authentication_ceremony_has_explicit_lifecycle() {
    let mut ceremony = AuthenticationCeremony::new(
        "ceremony-1",
        AuthenticationMethod::Passkey,
        Some("alice@example.test".to_string()),
        100,
        160,
    );

    assert_eq!(ceremony.state, AuthenticationCeremonyState::Created);
    ceremony
        .transition(AuthenticationCeremonyState::Challenged)
        .unwrap();
    ceremony
        .transition(AuthenticationCeremonyState::AwaitingUser)
        .unwrap();
    ceremony
        .transition(AuthenticationCeremonyState::Verified)
        .unwrap();
    ceremony
        .transition(AuthenticationCeremonyState::Completed)
        .unwrap();

    assert!(ceremony
        .transition(AuthenticationCeremonyState::Verified)
        .unwrap_err()
        .contains("cannot transition"));
}

#[test]
fn device_and_profile_do_not_replace_principal_authority() {
    let principal = Principal::human(
        PrincipalId("principal:alice".to_string()),
        TenantId("tenant-a".to_string()),
        Claims { values: Vec::new() },
        ContractVersion { major: 1, minor: 0 },
    );
    let device = Device {
        id: DeviceId("device:phone".to_string()),
        principal: principal.id.clone(),
        device_type: DeviceType::Mobile,
        name: "Alice phone".to_string(),
        created_at: 100,
        last_seen_at: Some(150),
        status: DeviceStatus::Active,
    };
    let profile = AuthPortIdentityProfile {
        principal: principal.id.clone(),
        display_name: Some("Alice".to_string()),
        email: Some("alice@example.test".to_string()),
        verified_identities: vec!["local:alice".to_string()],
        avatar_url: None,
        application_profile_ref: Some("app-profile:alice".to_string()),
    };

    assert_eq!(device.principal, principal.id);
    assert_ne!(device.id.as_str(), principal.id.as_str());
    assert_eq!(
        profile.application_profile_ref.as_deref(),
        Some("app-profile:alice")
    );
}

#[test]
fn auth_extension_boundary_is_method_oriented() {
    let extension = AuthExtension {
        id: "passkey-extension".to_string(),
        extension_type: "authentication_method".to_string(),
        capabilities: vec![
            "begin".to_string(),
            "challenge".to_string(),
            "verify".to_string(),
        ],
    };

    assert_eq!(AuthenticationMethod::Passkey.as_str(), "passkey");
    assert_eq!(extension.extension_type, "authentication_method");
    assert!(extension.capabilities.contains(&"verify".to_string()));
}

fn capability(consumed_at: Option<i64>) -> RecoveryCapability {
    RecoveryCapability {
        id: CapabilityId::new("test"),
        tenant_id: TenantId::new("acme"),
        identity_id: IdentityId::new("user123"),
        kind: CapabilityKind::PasswordReset,
        created_at: 900,
        expires_at: 1900,
        consumed_at,
        metadata: Vec::new(),
    }
}

#[test]
fn capability_validity() {
    let now = 1000;
    let cap = capability(None);

    assert!(cap.is_valid(now));
    assert!(!cap.is_consumed());
    assert!(!cap.is_expired(now));
}

#[test]
fn capability_expired() {
    let now = 2000;
    let cap = capability(None);

    assert!(!cap.is_valid(now));
    assert!(cap.is_expired(now));
}

#[test]
fn capability_consumed() {
    let now = 1000;
    let cap = capability(Some(950));

    assert!(!cap.is_valid(now));
    assert!(cap.is_consumed());
}

#[test]
fn capability_is_still_valid_at_its_expiry_instant() {
    let cap = capability(None);
    assert!(cap.is_valid(1900));
    assert!(!cap.is_valid(1901));
}

#[test]
fn terminal_ceremony_states_refuse_every_transition() {
    let mut ceremony =
        AuthenticationCeremony::new("c", AuthenticationMethod::Password, None, 0, 10);
    ceremony.transition(AuthenticationCeremonyState::Failed).unwrap();
    let error = ceremony
        .transition(AuthenticationCeremonyState::Challenged)
        .unwrap_err();
    assert_eq!(
        error,
        "cannot transition authentication ceremony from failed to challenged"
    );
    assert_eq!(ceremony.state, AuthenticationCeremonyState::Failed);
}

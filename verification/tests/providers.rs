use authboundry::dsl::model::PasswordPolicy;
use authboundry::dsl::parser::parse_auth_block;
use authboundry::providers::catalog::{all, describe, lookup};
use authboundry::providers::connector::{
    challenge_state, AuthConnector, AuthRequest, AuthResponse, ChallengeKind, ConnectorError,
    ConnectorKind, ConnectorStatus, ExternalIdentity,
};
use authboundry::providers::declared::DeclaredConnector;
use authboundry::providers::identity::{
    JwtProvider, LocalCredentials, LocalProvider, MagicLinkProvider, OauthProvider,
};
use authboundry::providers::local::{LocalAccount, LocalConnector};
use authboundry::providers::registry::{Connector, ConnectorRegistry};

fn alice() -> LocalConnector {
    LocalConnector::new().with_account(
        LocalAccount::new("alice", "correct horse")
            .unwrap()
            .with_attribute("email", "alice@example.test"),
    )
}

fn sign_in(connector: &LocalConnector, username: &str, password: &str) -> Result<ExternalIdentity, ConnectorError> {
    let challenge = connector
        .begin(&AuthRequest::new("local").with_parameter("username", username))
        .unwrap();
    connector.authenticate(
        &AuthResponse::to_challenge(&challenge)
            .with_parameter("username", username)
            .with_parameter("password", password),
    )
}

#[test]
fn catalog_knows_connectors_and_reports_unknown_ones_honestly() {
    let local = lookup("local").unwrap();
    assert_eq!(local.display_name, "Local Directory");
    assert_eq!(local.kind, ConnectorKind::Local);
    assert!(local.status.is_supported());
    assert_eq!(lookup("google").unwrap().status, ConnectorStatus::Declared);
    assert!(lookup("myspace").is_none());
    let unknown = describe("myspace");
    assert_eq!(unknown.status, ConnectorStatus::Unknown);
    assert_eq!(unknown.kind, ConnectorKind::Token);
    assert_eq!(unknown.display_name, "myspace");
    let every = all();
    assert_eq!(every.len(), 10);
    assert_eq!(every[0].id, "local");
    assert_eq!(every[9].id, "jwt");
    assert_eq!(ConnectorKind::MagicLink.as_str(), "magic_link");
    assert_eq!(ConnectorStatus::Declared.as_str(), "declared");
}

#[test]
fn simple_providers_refuse_blank_input() {
    assert_eq!(JwtProvider::authenticate("  ").unwrap_err().message, "jwt cannot be empty");
    assert_eq!(JwtProvider::authenticate("token").unwrap().subject, "token");
    assert_eq!(
        MagicLinkProvider::authenticate("").unwrap_err().message,
        "magic link token cannot be empty"
    );
    assert_eq!(MagicLinkProvider::authenticate("m").unwrap().provider, "magic_link");
    let refused = LocalProvider::authenticate(LocalCredentials {
        username: "alice".to_string(),
        password: String::new(),
    });
    assert_eq!(refused.unwrap_err().message, "invalid local credentials");
    let accepted = LocalProvider::authenticate(LocalCredentials {
        username: "alice".to_string(),
        password: "pw".to_string(),
    })
    .unwrap();
    assert_eq!(accepted.provider, "local");
    assert_eq!(accepted.subject, "alice");
    assert_eq!(
        OauthProvider::authenticate("t", "google").unwrap_err().message,
        "provider `google` is not supported"
    );
}

#[test]
fn request_parameters_are_trimmed_and_blank_ones_absent() {
    let request = AuthRequest::new("local")
        .for_tenant("acme")
        .with_parameter("username", "  alice ")
        .with_parameter("code", "   ")
        .with_parameter("username", " bob ");
    assert_eq!(request.parameter("username").as_deref(), Some("bob"));
    assert_eq!(request.parameter("code"), None);
    assert_eq!(request.parameter("missing"), None);
    assert_eq!(request.tenant.as_deref(), Some("acme"));
}

#[test]
fn challenge_state_is_stable_and_bound_to_tenant_and_subject() {
    let a = challenge_state("local", Some("acme"), "alice");
    assert!(a.starts_with("chal_"));
    assert_eq!(a.len(), 21);
    assert_eq!(a, challenge_state("local", Some("acme"), "alice"));
    assert_ne!(a, challenge_state("local", Some("globex"), "alice"));
    assert_ne!(a, challenge_state("local", None, "alice"));
}

#[test]
fn local_connector_authenticates_only_real_credentials() {
    let connector = alice();
    let identity = sign_in(&connector, "alice", "correct horse").unwrap();
    assert_eq!(identity.connector, "local");
    assert_eq!(identity.subject, "alice");
    assert!(identity
        .attributes
        .iter()
        .any(|(k, v)| k == "email" && v == "alice@example.test"));
    assert!(identity
        .attributes
        .iter()
        .any(|(k, v)| k == "password_changed_at" && v == "0"));

    assert_eq!(
        sign_in(&connector, "alice", "wrong").unwrap_err(),
        ConnectorError::InvalidCredentials { connector: "local".to_string() }
    );
    assert_eq!(
        sign_in(&connector, "mallory", "correct horse").unwrap_err(),
        ConnectorError::InvalidCredentials { connector: "local".to_string() }
    );
}

#[test]
fn begin_reveals_nothing_and_a_foreign_state_is_refused() {
    let connector = alice();
    let known = connector
        .begin(&AuthRequest::new("local").with_parameter("username", "alice"))
        .unwrap();
    let unknown = connector
        .begin(&AuthRequest::new("local").with_parameter("username", "nobody"))
        .unwrap();
    assert_eq!(known.kind, ChallengeKind::Credentials);
    assert_eq!(unknown.kind, ChallengeKind::Credentials);

    let forged = AuthResponse {
        connector: "local".to_string(),
        tenant: None,
        state: "chal_0000000000000000".to_string(),
        parameters: vec![
            ("username".to_string(), "alice".to_string()),
            ("password".to_string(), "correct horse".to_string()),
        ],
    };
    assert_eq!(
        connector.authenticate(&forged).unwrap_err(),
        ConnectorError::ChallengeMismatch { connector: "local".to_string() }
    );
    assert_eq!(
        connector.begin(&AuthRequest::new("google")).unwrap_err(),
        ConnectorError::InvalidRequest {
            connector: "local".to_string(),
            message: "request targets connector `google`".to_string(),
        }
    );
    assert_eq!(
        connector.begin(&AuthRequest::new("local")).unwrap_err().message(),
        "connector `local`: missing `username`"
    );
}

#[test]
fn password_changes_refuse_reuse_and_keep_history() {
    let mut connector = alice();
    let mut policy = PasswordPolicy::default();
    policy.password_history_count = 2;

    assert_eq!(
        connector
            .change_password("acme", "alice", "wrong", "new password one", &policy, 10)
            .unwrap_err(),
        ConnectorError::InvalidCredentials { connector: "local".to_string() }
    );
    connector
        .change_password("acme", "alice", "correct horse", "new password one", &policy, 10)
        .unwrap();
    assert!(sign_in(&connector, "alice", "new password one").is_ok());
    assert!(sign_in(&connector, "alice", "correct horse").is_err());

    let reused = connector
        .reset_password("acme", "alice", "correct horse", &policy, 20)
        .unwrap_err();
    assert_eq!(reused.message(), "connector `local`: PASSWORD_REUSED");
    connector
        .reset_password("acme", "alice", "new password two", &policy, 30)
        .unwrap();
    let identity = sign_in(&connector, "alice", "new password two").unwrap();
    assert!(identity
        .attributes
        .iter()
        .any(|(k, v)| k == "password_changed_at" && v == "30"));
    assert_eq!(
        connector
            .reset_password("acme", "nobody", "x", &policy, 40)
            .unwrap_err(),
        ConnectorError::InvalidCredentials { connector: "local".to_string() }
    );
}

#[test]
fn local_directory_registration_and_attributes() {
    let mut connector = alice();
    let again = LocalAccount::new("alice", "other").unwrap();
    assert_eq!(
        connector.register(again).unwrap_err().message(),
        "connector `local`: account `alice` already exists"
    );
    connector
        .register(LocalAccount::new("aaron", "pw").unwrap())
        .unwrap();
    assert_eq!(connector.usernames(), vec!["aaron".to_string(), "alice".to_string()]);
    assert_eq!(
        connector.account_attribute("alice", "email").as_deref(),
        Some("alice@example.test")
    );
    assert_eq!(connector.account_attribute("alice", "phone"), None);
    assert_eq!(
        connector.recovery_address("alice").as_deref(),
        Some("alice@example.test")
    );
    connector.mark_email_verified("alice").unwrap();
    assert_eq!(
        connector.account_attribute("alice", "email_verified").as_deref(),
        Some("true")
    );
    assert!(connector.mark_email_verified("nobody").is_err());
}

#[test]
fn declared_connectors_fail_closed() {
    let google = DeclaredConnector::new("google");
    assert_eq!(google.id(), "google");
    assert_eq!(google.metadata().display_name, "Google");
    assert!(!google.supports_password_management());
    assert_eq!(
        google.begin(&AuthRequest::new("google")).unwrap_err(),
        ConnectorError::Unsupported { connector: "google".to_string() }
    );
    assert_eq!(
        google
            .authenticate(&AuthResponse::default())
            .unwrap_err()
            .message(),
        "connector `google` is declared but not implemented"
    );
}

#[test]
fn registry_resolves_declared_providers_through_the_catalog() {
    let config = parse_auth_block("use auth { providers = [local, google] }").unwrap();
    let registry = ConnectorRegistry::from_config(&config).unwrap();
    assert_eq!(registry.len(), 2);
    assert!(!registry.is_empty());
    assert_eq!(registry.ids(), vec!["google".to_string(), "local".to_string()]);
    assert!(registry.contains("local"));
    assert!(!registry.contains("github"));
    let metadata = registry.metadata();
    assert_eq!(metadata[0].id, "google");
    assert_eq!(metadata[1].status, ConnectorStatus::Supported);
    assert!(registry.get("local").unwrap().supports_password_management());
    assert_eq!(
        registry
            .get("google")
            .unwrap()
            .begin(&AuthRequest::new("google"))
            .unwrap_err(),
        ConnectorError::Unsupported { connector: "google".to_string() }
    );
    assert_eq!(
        registry.get("github").err(),
        Some(ConnectorError::UnknownConnector { connector: "github".to_string() })
    );
}

#[test]
fn registry_refuses_undeclared_duplicate_and_unknown_connectors() {
    let config = parse_auth_block("use auth { providers = [local] }").unwrap();
    let refused = ConnectorRegistry::from_config_with(
        &config,
        vec![Connector::Declared(DeclaredConnector::new("google"))],
    );
    assert_eq!(
        refused.err(),
        Some(ConnectorError::NotDeclared { connector: "google".to_string() })
    );
    let duplicated = ConnectorRegistry::from_config_with(
        &config,
        vec![Connector::Local(alice()), Connector::Local(LocalConnector::new())],
    );
    assert_eq!(
        duplicated.err(),
        Some(ConnectorError::DuplicateConnector { connector: "local".to_string() })
    );
    let supplied = ConnectorRegistry::from_config_with(&config, vec![Connector::Local(alice())]).unwrap();
    let local = supplied.get("local").unwrap();
    let challenge = local
        .begin(&AuthRequest::new("local").with_parameter("username", "alice"))
        .unwrap();
    assert!(local
        .authenticate(
            &AuthResponse::to_challenge(&challenge)
                .with_parameter("username", "alice")
                .with_parameter("password", "correct horse"),
        )
        .is_ok());

    let mut unknown = parse_auth_block("use auth { providers = [local] }").unwrap();
    unknown.providers.push("myspace".to_string());
    assert_eq!(
        ConnectorRegistry::from_config(&unknown).err(),
        Some(ConnectorError::UnknownConnector { connector: "myspace".to_string() })
    );
    let mut registry = ConnectorRegistry::new();
    registry.register(Connector::Local(LocalConnector::new())).unwrap();
    assert_eq!(
        registry.register(Connector::Local(LocalConnector::new())).unwrap_err(),
        ConnectorError::DuplicateConnector { connector: "local".to_string() }
    );
}

#[test]
fn passwords_hashed_under_a_given_salt_are_accepted() {
    let salt = vec![7u8; 16];
    let account = LocalAccount::new_with_salt("carol", "correct horse", &salt).unwrap();
    let mut connector = LocalConnector::new().with_account(account);
    assert!(sign_in(&connector, "carol", "correct horse").is_ok());
    let policy = PasswordPolicy::default();
    connector
        .change_password_with_salt("carol", "correct horse", "battery staple", &vec![9u8; 16], &policy, 5)
        .unwrap();
    assert!(sign_in(&connector, "carol", "battery staple").is_ok());
    connector
        .reset_password_with_salt("carol", "stapler battery", &vec![1u8; 16], &policy, 6)
        .unwrap();
    assert!(sign_in(&connector, "carol", "stapler battery").is_ok());
    assert_eq!(
        connector
            .reset_password_with_salt("carol", "stapler battery", &vec![2u8; 16], &policy, 7)
            .unwrap_err()
            .message(),
        "connector `local`: PASSWORD_REUSED"
    );
}

use authboundry::dsl::model::{
    AuthUiConfig, AuthUiMode, ClaimKind, IsolationMode, PasswordPolicy, UiScreen,
};
use authboundry::dsl::parser::parse_auth_block;

#[test]
fn parses_mvp_auth_block() {
    let src = r#"
use auth {
  multi_tenant: true
  providers: [local, google, microsoft]
  claims: {
role: enum["admin","user"]
plan: enum["free","pro"]
  }
  isolation: "strict"
}
"#;

    let parsed = parse_auth_block(src).expect("parser should parse valid DSL");
    assert!(parsed.multi_tenant);
    assert_eq!(parsed.providers, vec!["local", "google", "microsoft"]);
    assert_eq!(parsed.claims.len(), 2);
    assert_eq!(parsed.isolation, IsolationMode::Strict);
    assert!(!parsed.agents);
    assert_eq!(parsed.ui, AuthUiConfig::default());
}

#[test]
fn parses_resource_aware_policy_block() {
    let parsed = parse_auth_block(
        r#"
use auth {
  providers = [local]
  tenant = true
  claims = {
role = enum["owner", "admin", "member"]
  }
  policy {
invoice.read {
  tenant = current
  resource = invoice
}
invoice.update {
  tenant = current
  resource = invoice
  role = ["owner", "admin"]
}
  }
}
"#,
    )
    .expect("policy DSL should parse");

    assert_eq!(parsed.policies.len(), 2);
    let update = parsed
        .policies
        .iter()
        .find(|policy| policy.capability == "invoice.update")
        .unwrap();
    assert!(update.tenant_current);
    assert_eq!(update.resource.as_deref(), Some("invoice"));
    assert_eq!(update.action.as_deref(), Some("update"));
    assert_eq!(update.claims[0].claim, "role");
    assert_eq!(update.claims[0].values, vec!["owner", "admin"]);
}

#[test]
fn parses_password_policy_with_modern_defaults() {
    let defaulted = parse_auth_block("use auth { providers = [local] }").unwrap();
    assert_eq!(defaulted.password_policy, PasswordPolicy::default());

    let parsed = parse_auth_block(
        r#"
use auth {
  providers = [local]
  password {
min_length = 16
max_length = 128
require_number = true
require_special_character = true
expiration_days = 90
history_count = 7
  }
}
"#,
    )
    .unwrap();

    assert_eq!(parsed.password_policy.min_length, 16);
    assert!(parsed.password_policy.require_number);
    assert!(parsed.password_policy.require_special_character);
    assert_eq!(parsed.password_policy.password_expiration_days, Some(90));
    assert_eq!(parsed.password_policy.password_history_count, 7);
    assert!(parsed.password_policy.allow_password_change);
}

#[test]
fn parses_capability_declaration_syntax() {
    let src = r#"
use auth {
  providers = [google, github, email]

  tenant = true

  claims = {
role = enum["owner", "admin", "member"]
plan = enum["free", "pro"]
  }

  agents = true
}
"#;

    let parsed = parse_auth_block(src).expect("capability syntax should parse");
    assert!(parsed.multi_tenant);
    assert!(parsed.agents);
    assert_eq!(parsed.providers, vec!["google", "github", "email"]);
    assert_eq!(
        parsed.claim("role").map(|claim| claim.kind.clone()),
        Some(ClaimKind::Enum(vec![
            "owner".to_string(),
            "admin".to_string(),
            "member".to_string()
        ]))
    );
    // Isolation is an implementation detail the application need not declare.
    assert_eq!(parsed.isolation, IsolationMode::Strict);
}

#[test]
fn both_syntaxes_produce_the_same_contract() {
    let colon = parse_auth_block(
        r#"
use auth {
  multi_tenant: true
  providers: [local, google]
  claims: {
role: enum["admin","user"]
  }
  isolation: "strict"
  agents: true
}
"#,
    )
    .unwrap();
    let equals = parse_auth_block(
        r#"
use auth {
  tenant = true
  providers = [google, local]
  claims = {
role = enum["user", "admin"]
  }
  isolation = "strict"
  agents = true
}
"#,
    )
    .unwrap();

    assert_eq!(colon.fingerprint(), equals.fingerprint());
    assert_eq!(colon.canonical(), equals.canonical());
}

#[test]
fn parses_ui_customization() {
    let parsed = parse_auth_block(
        r#"
use auth {
  providers = [local]
  ui = {
login = "custom"
account = "custom"
theme = "midnight"
  }
}
"#,
    )
    .expect("ui block should parse");

    assert_eq!(parsed.ui.mode, AuthUiMode::Custom);
    assert_eq!(parsed.ui.theme.name, "midnight");
    assert_eq!(parsed.ui.mode_for(UiScreen::Login), AuthUiMode::Custom);
    assert_eq!(parsed.ui.mode_for(UiScreen::Signup), AuthUiMode::Default);
}

#[test]
fn canonical_fingerprint_is_deterministic_for_equivalent_config() {
    let a = parse_auth_block(
        r#"
use auth {
  multi_tenant: true
  providers: [local, agent]
  claims: {
role: enum["admin","user"]
plan: enum["free","pro"]
  }
  isolation: "strict"
}
"#,
    )
    .unwrap();
    let b = parse_auth_block(
        r#"
use auth {
  multi_tenant: true
  providers: [agent, local]
  claims: {
plan: enum["pro","free"]
role: enum["user","admin"]
  }
  isolation: "strict"
}
"#,
    )
    .unwrap();

    assert_eq!(a.fingerprint(), b.fingerprint());
}

#[test]
fn agents_and_ui_participate_in_the_fingerprint() {
    let base = parse_auth_block(
        r#"
use auth {
  providers = [local]
}
"#,
    )
    .unwrap();
    let with_agents = parse_auth_block(
        r#"
use auth {
  providers = [local]
  agents = true
}
"#,
    )
    .unwrap();
    let with_ui = parse_auth_block(
        r#"
use auth {
  providers = [local]
  ui = { login = "custom" }
}
"#,
    )
    .unwrap();

    assert_ne!(base.fingerprint(), with_agents.fingerprint());
    assert_ne!(base.fingerprint(), with_ui.fingerprint());
    assert_ne!(with_agents.fingerprint(), with_ui.fingerprint());
}

#[test]
fn rejects_duplicate_claims_and_unknown_fields() {
    let duplicate_claim = r#"
use auth {
  multi_tenant: true
  providers: [local]
  claims: {
role: enum["admin","user"]
role: enum["admin","user"]
  }
  isolation: "strict"
}
"#;
    assert_eq!(
        parse_auth_block(duplicate_claim).unwrap_err().message,
        "duplicate claim `role`"
    );

    let unknown_field = r#"
use auth {
  multi_tenant: true
  providers: [local]
  claims: {
role: enum["admin","user"]
  }
  isolation: "strict"
  secret_backdoor: true
}
"#;
    assert!(parse_auth_block(unknown_field)
        .unwrap_err()
        .message
        .starts_with("unknown auth field"));
}

#[test]
fn rejects_duplicate_providers_duplicate_enum_values_and_multiple_blocks() {
    assert_eq!(
        parse_auth_block(
            r#"
use auth {
  multi_tenant: true
  providers: [local, local]
  claims: {
role: enum["admin","user"]
  }
  isolation: "strict"
}
"#
        )
        .unwrap_err()
        .message,
        "duplicate provider `local`"
    );

    assert_eq!(
        parse_auth_block(
            r#"
use auth {
  multi_tenant: true
  providers: [local]
  claims: {
role: enum["admin","admin"]
  }
  isolation: "strict"
}
"#
        )
        .unwrap_err()
        .message,
        "duplicate enum value `admin`"
    );

    assert_eq!(
        parse_auth_block(
            r#"
use auth {
  multi_tenant: true
  providers: [local]
  claims: {}
  isolation: "strict"
}
use auth {
  multi_tenant: true
  providers: [local]
  claims: {}
  isolation: "strict"
}
"#
        )
        .unwrap_err()
        .message,
        "multiple auth blocks are not allowed"
    );
}

#[test]
fn rejects_conflicting_and_repeated_declarations() {
    assert_eq!(
        parse_auth_block(
            r#"
use auth {
  tenant = true
  multi_tenant = false
  providers = [local]
}
"#
        )
        .unwrap_err()
        .message,
        "conflicting tenant declaration"
    );

    assert_eq!(
        parse_auth_block(
            r#"
use auth {
  providers = [local]
  providers = [google]
}
"#
        )
        .unwrap_err()
        .message,
        "duplicate auth field `providers`"
    );

    assert_eq!(
        parse_auth_block("use auth {\n  tenant = true\n}\n")
            .unwrap()
            .providers,
        vec!["local"]
    );

    assert_eq!(
        parse_auth_block("use auth").unwrap().providers,
        vec!["local"]
    );

    assert_eq!(
        parse_auth_block(
            "use auth {\n  providers = [local]\n  ui = { login = \"fancy\" }\n}\n"
        )
        .unwrap_err()
        .message,
        "ui surface `login` must be \"default\" or \"custom\", found `fancy`"
    );
}

#[test]
fn unknown_isolation_mode_and_missing_block_are_reported() {
    assert_eq!(
        parse_auth_block("use auth {\n  isolation = \"loose\"\n}\n")
            .unwrap_err()
            .message,
        "unknown isolation mode `loose`"
    );
    assert_eq!(
        parse_auth_block("providers = [local]").unwrap_err().message,
        "missing `use auth` block"
    );
}

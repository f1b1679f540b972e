use authboundry::cli::adoption::{
    adoption_from_source, adoption_upstream, confirm_adoption, conventional_dev_upstream, InitMode,
    InitOptions,
};
use authboundry::cli::control::{
    agent, apply, apply_body, approve, common_options, escape_path, explain_path,
    extract_quoted_field, http_request_text, option_value, parse_http_url, proposal_body,
    proposal_ids_body, reject, reject_body, report, run, strip_common_options, ControlCommand,
};
use authboundry::cli::serve::{Account, Grant, ServeOptions};
use authboundry::cli::invocation::{is_control_propose, parse_invocation, Invocation, USAGE};
use authboundry::cli::describe::describe_password_policy;
use authboundry::dsl::parser::parse_auth_block;

fn strings(args: &[&str]) -> Vec<String> {
    args.iter().map(|arg| arg.to_string()).collect()
}

#[test]
fn builds_supported_proposal_bodies() {
    let body = proposal_body(
        "protect-route",
        &strings(&[
            "--method",
            "POST",
            "--path",
            "/invoices",
            "--capability",
            "invoice.create",
        ]),
    )
    .unwrap();
    assert!(body.contains("\"type\": \"protect_route\""));
    assert!(body.contains("\"method\": \"POST\""));

    let body = proposal_body("disable-provider", &strings(&["--provider", "github"])).unwrap();
    assert!(body.contains("\"enabled\": false"));
}

#[test]
fn parses_http_urls_for_the_embedded_client() {
    assert_eq!(
        parse_http_url("http://localhost:8787").unwrap(),
        ("localhost".to_string(), 8787)
    );
    assert!(parse_http_url("https://localhost:8787").is_err());
}

#[test]
fn explain_uses_latest_or_specific_decision_endpoint() {
    assert_eq!(
        explain_path(&[]),
        "/_authport/authorization/explain".to_string()
    );
    assert_eq!(
        explain_path(&strings(&["evt_1"])),
        "/_authport/authorization/decisions/evt_1/explain".to_string()
    );
}

#[test]
fn agent_commands_validate_required_arguments_before_network_io() {
    assert!(agent(&strings(&["create", "--tenant", "acme"]))
        .unwrap_err()
        .message
        .contains("--name"));
    assert!(agent(&strings(&["show", "agent:invoice"]))
        .unwrap_err()
        .message
        .contains("--tenant"));
    assert_eq!(escape_path("invoice agent"), "invoice%20agent");
}

#[test]
fn proposal_bodies_name_the_missing_flag_and_unknown_types() {
    assert_eq!(
        proposal_body("protect-route", &strings(&["--method", "POST"]))
            .unwrap_err()
            .message,
        "--path needs a value"
    );
    assert_eq!(
        proposal_body("rename-route", &[]).unwrap_err().message,
        "unknown proposal change type `rename-route`"
    );
    assert_eq!(
        proposal_body("set-policy", &strings(&["--capability", "a\"b", "--policy", "p"])).unwrap(),
        "{\"type\": \"set_policy\", \"capability\": \"a\\\"b\", \"policy\": \"p\"}"
    );
}

#[test]
fn http_urls_default_to_port_80_and_need_a_host() {
    assert_eq!(
        parse_http_url("http://example.test/api").unwrap(),
        ("example.test".to_string(), 80)
    );
    assert_eq!(
        parse_http_url("http://:8080").unwrap_err().message,
        "--server needs a host"
    );
    assert_eq!(
        parse_http_url("http://localhost:99999").unwrap_err().message,
        "--server has an invalid port"
    );
}

#[test]
fn common_options_and_stripping() {
    let args = strings(&["create", "--server", "http://h:1", "--dry-run", "--tenant", "acme"]);
    let (server, token, dry) = common_options(&args).unwrap();
    assert_eq!(server.as_deref(), Some("http://h:1"));
    assert!(!token);
    assert!(dry);
    assert_eq!(strip_common_options(&args), strings(&["create", "--tenant", "acme"]));
    assert_eq!(option_value(&args, "--tenant").as_deref(), Some("acme"));
    assert_eq!(
        common_options(&strings(&["--server"])).unwrap_err().message,
        "--server needs a value"
    );
}

#[test]
fn control_commands_are_planned_before_any_request() {
    let plan = run(&strings(&["agents", "--tenant", "acme", "--server", "http://x:1"])).unwrap();
    assert_eq!(plan.server.as_deref(), Some("http://x:1"));
    assert_eq!(plan.command, ControlCommand::Agents { tenant: "acme".to_string() });
    assert_eq!(run(&strings(&["teleport"])).unwrap_err().message, "unknown control command");
    assert_eq!(
        approve(&strings(&["--proposal-id", "p1"])).unwrap_err().message,
        "approve needs --yes to confirm in non-interactive mode"
    );
    assert_eq!(
        apply(&strings(&["--all", "--yes"])).unwrap(),
        ControlCommand::Apply { all: true, proposal_id: None }
    );
    assert_eq!(
        reject(&strings(&["--proposal-id", "p1", "--reason", "dup"])).unwrap(),
        ControlCommand::Reject { proposal_id: Some("p1".to_string()), reason: "dup".to_string() }
    );
    assert_eq!(
        reject(&strings(&["--reason"])).unwrap_err().message,
        "--reason needs a value"
    );
    let created = run(&strings(&["agent", "create", "--tenant", "acme", "--name", "Bot", "--id", "a1"])).unwrap();
    assert_eq!(
        created.command,
        ControlCommand::AgentCreate {
            body: "{\"tenant\": \"acme\", \"name\": \"Bot\", \"id\": \"a1\"}".to_string()
        }
    );
}

#[test]
fn request_bodies_and_reports() {
    assert_eq!(
        proposal_ids_body(&strings(&["p1", "p2"])),
        "{\"proposal_ids\": \"p1,p2\"}"
    );
    assert_eq!(apply_body("p1", ""), "{\"proposal_id\": \"p1\"}");
    assert_eq!(
        apply_body("p1", "tok"),
        "{\"proposal_id\": \"p1\", \"approval_token\": \"tok\"}"
    );
    assert_eq!(
        reject_body("p1", "no"),
        "{\"proposal_id\": \"p1\", \"reason\": \"no\"}"
    );
    assert_eq!(report("connected to", "http://h", "{}"), "connected to http://h\n{}\n");
    assert_eq!(
        http_request_text("POST", "/x", "h", "ab"),
        "POST /x HTTP/1.1\r\nhost: h\r\ncontent-type: application/json\r\ncontent-length: 2\r\nconnection: close\r\n\r\nab"
    );
    assert_eq!(
        extract_quoted_field("{\"proposal_id\":  \"p-9\", \"x\": 1}", "proposal_id").as_deref(),
        Some("p-9")
    );
    assert_eq!(extract_quoted_field("{\"x\": 1}", "x"), None);
}

#[test]
fn confirmation_defaults_to_no_and_accepts_only_explicit_yes() {
    assert!(!confirm_adoption(Some("\n")).unwrap());
    assert!(!confirm_adoption(Some("n\n")).unwrap());
    assert!(confirm_adoption(Some("y\n")).unwrap());
    assert!(confirm_adoption(Some("YES\n")).unwrap());
}

#[test]
fn unavailable_stdin_fails_closed() {
    let error = confirm_adoption(None).unwrap_err();
    assert!(error
        .message
        .contains("cannot obtain interactive confirmation"));
}

#[test]
fn create_react_app_uses_its_conventional_port() {
    assert_eq!(conventional_dev_upstream("React"), "http://127.0.0.1:3000");
    assert_eq!(conventional_dev_upstream("Django"), "http://127.0.0.1:8000");
    assert_eq!(conventional_dev_upstream("Vite"), "http://127.0.0.1:5173");
}

#[test]
fn adoption_records_are_read_with_defaults() {
    let state = adoption_from_source(
        "{\"application\": \"billing\", \"upstream\": \"http://127.0.0.1:9000\", \"routes\": 12, \"run_command\": \"\"}",
    );
    assert_eq!(state.application, "billing");
    assert_eq!(state.mode, "standalone");
    assert_eq!(state.authority, "configured");
    assert_eq!(state.upstream.as_deref(), Some("http://127.0.0.1:9000"));
    assert_eq!(state.routes, 12);
    assert_eq!(state.run_command, None);
    assert_eq!(adoption_upstream("{\"upstream\": \"\"}"), None);
    assert_eq!(InitMode::Embedded.as_str(), "embedded");
    assert_eq!(InitOptions::default().mode, None);
}

#[test]
fn parses_serve_deployment_flags() {
    let account = Account::parse("alice:secret:role=owner,plan=pro@acme", "default")
        .expect("account parses");
    assert_eq!(account.tenant, "acme");
    assert_eq!(account.username, "alice");
    assert_eq!(
        account
            .claims
            .iter()
            .find(|(name, _)| name == "role")
            .map(|(_, value)| value.as_str()),
        Some("owner")
    );

    let default_tenant = Account::parse("bob:secret", "globex").expect("account parses");
    assert_eq!(default_tenant.tenant, "globex");
    assert!(default_tenant.claims.is_empty());
    assert!(Account::parse("nopassword", "default").is_err());

    let grant = Grant::parse("invoice.read=role:owner").expect("grant parses");
    assert_eq!(grant.capability, "invoice.read");
    assert_eq!(grant.claim, "role");
    assert_eq!(grant.value, "owner");
    assert!(Grant::parse("invoice.read").is_err());
}

#[test]
fn account_claims_skip_malformed_items_and_later_values_win() {
    let account = Account::parse("carol:pw: role = admin ,, bad ,role=owner", "t").unwrap();
    assert_eq!(account.claims, vec![("role".to_string(), "owner".to_string())]);
    assert_eq!(
        Account::parse(":pw", "t").unwrap_err().message,
        "--account needs a username"
    );
    assert_eq!(
        Account::parse("dave:", "t").unwrap_err().message,
        "--account dave needs a password"
    );
    assert_eq!(ServeOptions::default().address, "127.0.0.1:8787");
}

fn command_line(args: &[&str]) -> authboundry::cli::invocation::CommandLine {
    match parse_invocation(&strings(args)) {
        Ok(Invocation::Command(c)) => c,
        other => panic!("expected a command line, got {:?}", other),
    }
}

#[test]
fn commands_route_to_the_service_init_verify_or_run_here() {
    assert_eq!(parse_invocation(&strings(&["approve", "--yes"])), Ok(Invocation::Control));
    assert_eq!(parse_invocation(&strings(&["propose", "protect-route"])), Ok(Invocation::Control));
    assert_eq!(parse_invocation(&strings(&["password-policy", "--server", "http://x"])), Ok(Invocation::Control));
    assert_eq!(parse_invocation(&strings(&["init", "."])), Ok(Invocation::Init));
    assert_eq!(parse_invocation(&strings(&["verify"])), Ok(Invocation::Verify));
    assert_eq!(parse_invocation(&strings(&["--help"])), Ok(Invocation::Help));
    assert!(is_control_propose(&strings(&["propose", "app.auth", "--dry-run"])));
    assert!(!is_control_propose(&strings(&["propose", "app.auth"])));
    assert!(USAGE.contains("authport serve [FILE] [options]"));

    let c = command_line(&["propose", "app.auth", "--json"]);
    assert_eq!(c.command, "propose");
    assert_eq!(c.file, Some("app.auth".to_string()));
    assert!(c.json);
    let d = command_line(&[]);
    assert_eq!(d.command, "inspect");
    assert_eq!(d.file, None);
}

#[test]
fn serve_flags_are_read_in_order() {
    let c = command_line(&[
        "serve",
        "--tenant",
        "acme",
        "--account",
        "alice:secret:role=owner",
        "--account",
        "bob:pw@globex",
        "--grant",
        "invoice.read=role:owner",
        "--require",
        "/invoices=invoice.read",
        "--public",
        "/health",
        "--upstream",
        "127.0.0.1:3000",
        "--addr",
        "0.0.0.0:9000",
        "--mode",
        "standalone",
        "--check",
    ]);
    assert_eq!(c.command, "serve");
    assert!(c.check);
    assert_eq!(c.mode, Some("standalone".to_string()));
    assert_eq!(c.serve.address, "0.0.0.0:9000");
    assert_eq!(c.serve.tenants, strings(&["acme", "globex"]));
    assert_eq!(c.serve.accounts[0].tenant, "acme");
    assert_eq!(c.serve.accounts[1].tenant, "globex");
    assert_eq!(c.serve.grants[0].capability, "invoice.read");
    assert_eq!(c.serve.required, vec![("/invoices".to_string(), "invoice.read".to_string())]);
    assert_eq!(c.serve.public_paths, strings(&["/health"]));
    assert_eq!(c.serve.upstream, Some("127.0.0.1:3000".to_string()));
}

#[test]
fn bad_flags_are_refused_with_their_reason() {
    let message = |args: &[&str]| parse_invocation(&strings(args)).unwrap_err().message;
    assert_eq!(message(&["inspect", "--mode", "cloud"]), "--mode must be embedded or standalone");
    assert_eq!(message(&["serve", "--addr"]), "--addr needs a value");
    assert_eq!(message(&["serve", "--frobnicate"]), "unknown flag `--frobnicate`");
    assert_eq!(message(&["inspect", "a", "b"]), "unexpected argument `b`");
    assert_eq!(message(&["serve", "--require", "/x"]), "--require expects PATH=CAPABILITY");
    assert_eq!(message(&["serve", "--grant", "x"]), "--grant expects capability=claim:value");
    assert_eq!(message(&["serve", "--account", "carol"]), "--account carol needs a password");
}

#[test]
fn password_policy_is_described_as_a_table_or_json() {
    let config = parse_auth_block("use auth { providers = [local] }").unwrap();
    let table = describe_password_policy(&config, false);
    assert!(table.starts_with("Password Policy\n  Minimum length       "));
    assert!(table.contains("\n  Password expiration  "));
    assert!(table.ends_with(" passwords\n"));
    let json = describe_password_policy(&config, true);
    assert!(json.starts_with("{\"min_length\": "));
    assert!(json.contains(&format!("\"contract_fingerprint\": \"{}\"", config.fingerprint())));
    assert!(json.contains(&format!("\"policy_revision\": \"{}\"", config.password_policy.revision_fingerprint())));
    assert!(json.ends_with("\"}\n"));
}

use authboundry::cli::adoption::{development_accounts_from_source, is_public_entry_path, parse_options};
use authboundry::cli::control::{
    cached_proposal_text, content_length_header, ends_headers, extract_all_quoted_fields,
    inferred_proposal_ids, response_body, response_status, token_file_text,
};
use authboundry::cli::declaration::{
    auth_option_default, auth_has_field, insert_auth_declaration, insert_named_block_declaration, named_block_has_field,
    upgrade_declaration, DEFAULT_DECLARATION,
};
use authboundry::cli::describe::describe_providers;
use authboundry::cli::serve::{policy, tenant_context};

#[test]
fn every_quoted_field_is_extracted_in_order() {
    let json = r#"[{"id": "p-1", "x": 1}, {"id": 7}, {"id": "p-2"}]"#;
    assert_eq!(extract_all_quoted_fields(json, "id"), strings(&["p-1", "p-2"]));
    assert_eq!(inferred_proposal_ids(json).unwrap(), strings(&["p-1", "p-2"]));
    assert_eq!(
        inferred_proposal_ids("[]").unwrap_err().message,
        "no inferred proposals to approve or apply"
    );
    assert_eq!(extract_all_quoted_fields(r#"{"id": "open"#, "id"), Vec::<String>::new());
}

#[test]
fn responses_are_read_by_status_and_length() {
    assert_eq!(response_status("HTTP/1.1 201 Created\r\n"), Some(201));
    assert_eq!(response_status("  HTTP/1.1   404"), Some(404));
    assert_eq!(response_status("HTTP/1.1"), None);
    assert_eq!(response_status("HTTP/1.1 abc"), None);
    assert_eq!(content_length_header("Content-Length: 42\r\n"), Some(Some(42)));
    assert_eq!(content_length_header("content-length: x\r\n"), Some(None));
    assert_eq!(content_length_header("Connection: close\r\n"), None);
    assert!(ends_headers("\r\n"));
    assert!(!ends_headers("Host: x\r\n"));
    assert_eq!(response_body(200, "ok".to_string()).unwrap(), "ok");
    assert_eq!(
        response_body(503, "down".to_string()).unwrap_err().message,
        "AuthPort returned 503: down"
    );
}

#[test]
fn caches_are_written_as_json() {
    assert_eq!(token_file_text("t\"1"), "{\"token\": \"t\\\"1\"}\n");
    assert_eq!(
        cached_proposal_text("http://x", "{\"ok\": true}"),
        "{\"server_url\": \"http://x\", \"response\": {\"ok\": true}}"
    );
}

#[test]
fn init_flags_are_read() {
    let o = parse_options(&strings(&["--dry-run", "--json", "--standalone", "app"])).unwrap();
    assert!(o.dry_run && o.json && !o.yes);
    assert_eq!(o.root, Some("app".to_string()));
    let p = parse_options(&strings(&["--root", "x", "--embedded", "--yes"])).unwrap();
    assert_eq!(p.root, Some("x".to_string()));
    assert!(p.yes);
    assert_eq!(parse_options(&strings(&["--root"])).unwrap_err().message, "--root needs a value");
    assert_eq!(parse_options(&strings(&["--force"])).unwrap_err().message, "unknown flag `--force`");
}

#[test]
fn sign_in_and_sign_up_pages_stay_public() {
    assert!(is_public_entry_path("/login/"));
    assert!(is_public_entry_path("/"));
    assert!(is_public_entry_path("/sign-up"));
    assert!(!is_public_entry_path("/invoices"));
}

#[test]
fn development_accounts_are_read_from_their_file() {
    let source = r#"{
  "tenant": "acme",
  "accounts": [
    {"username": "admin", "password": "p1", "claims": "role=admin"},
    {"username": "broken"},
    {"username": "user", "password": "p2", "claims": "role=user"}
  ]
}"#;
    let accounts = development_accounts_from_source(source);
    assert_eq!(accounts.len(), 2);
    assert_eq!(accounts[0].username, "admin");
    assert_eq!(accounts[0].tenant, "acme");
    assert_eq!(accounts[1].password, "p2");
    assert_eq!(accounts[1].claims, vec![("role".to_string(), "user".to_string())]);
}

#[test]
fn declarations_are_edited_in_place() {
    let source = "use auth {\n  providers = [local]\n  ui = {\n    login = \"default\"\n  }\n}\n";
    assert!(auth_has_field(source, "providers"));
    assert!(auth_has_field(source, "ui"));
    assert!(!auth_has_field(source, "login"));
    assert!(!auth_has_field(source, "tenant"));
    let with_tenant = insert_auth_declaration(source, "  tenant = false\n").unwrap();
    assert!(with_tenant.ends_with("  }\n  tenant = false\n}\n"));
    assert!(auth_has_field(&with_tenant, "tenant"));
    assert!(named_block_has_field(source, "ui", "login"));
    assert!(!named_block_has_field(source, "ui", "signup"));
    let with_signup =
        insert_named_block_declaration(source, "ui", "    signup = \"default\"\n").unwrap();
    assert!(with_signup.contains("    login = \"default\"\n  \n    signup = \"default\"\n}"));
    assert!(named_block_has_field(&with_signup, "ui", "signup"));
    assert_eq!(insert_auth_declaration("no block", "x"), None);
}

#[test]
fn an_upgrade_adds_every_missing_option_once() {
    let source = "use auth {\n  providers = [local]\n}\n";
    let upgraded = upgrade_declaration(source).unwrap();
    for field in ["tenant", "isolation", "agents", "policy", "experience", "password", "storage", "ui", "claims"] {
        assert!(auth_has_field(&upgraded, field), "missing {field}");
    }
    for screen in ["login", "signup", "agents", "tenant"] {
        assert!(named_block_has_field(&upgraded, "ui", screen), "missing {screen}");
    }
    assert!(upgraded.contains("use mail"));
    assert_eq!(upgrade_declaration(&upgraded), None);
    assert_eq!(upgrade_declaration(DEFAULT_DECLARATION), None);
    assert_eq!(upgrade_declaration("use auth {\n  providers = [google]\n}\n"), None);
}

#[test]
fn providers_are_listed_in_columns() {
    let config = parse_auth_block("use auth { providers = [local] }").unwrap();
    let text = describe_providers(&config).unwrap();
    assert!(text.starts_with("local        "));
    assert!(text.ends_with("\n"));
}

#[test]
fn served_tenants_get_a_policy_of_their_grants() {
    let tenant = tenant_context("acme");
    assert_eq!(tenant.policy_id.0, "acme-policy");
    assert_eq!(tenant.storage_root_id.0, "acme-root");
    let grants = vec![Grant::parse("invoice.read=role:owner").unwrap()];
    let p = policy(&tenant, &grants);
    assert_eq!(p.id.0, "acme-policy");
    assert_eq!(p.rules.len(), 1);
    assert_eq!(p.rules[0].capability.0, "invoice.read");
}

#[test]
fn generated_and_upgraded_contracts_expose_every_supported_option_group() {
    parse_auth_block(DEFAULT_DECLARATION).expect("the complete generated contract is valid");
    let mut upgraded = "use auth {\n  providers = [local]\n  claims = { role = enum[\"admin\", \"user\"] }\n}\n".to_string();
    for i in 0..8 {
        let (field, declaration) = auth_option_default(i);
        if !auth_has_field(&upgraded, field) {
            upgraded = insert_auth_declaration(&upgraded, declaration).unwrap();
        }
    }
    for i in 0..8 {
        let (field, _) = auth_option_default(i);
        assert!(auth_has_field(&upgraded, field), "missing {field}");
    }
    parse_auth_block(&upgraded).expect("the upgraded auth block is valid");
}

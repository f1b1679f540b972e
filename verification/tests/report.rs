use authboundry::cli::adoption::{AdoptionState, InitMode};
use authboundry::cli::report::{
    applied_plan_text, display_path, render_manifest_with_upstream, render_patch,
    render_plan_json, render_plan_text, render_verify_json, render_verify_text, verify_report, FileChange,
    InitPlan, VerifyReport,
};
use authboundry::discovery::model::{
    ApplicationCandidate, AuthCoexistence, DiscoveryConfidence, EntrypointCandidate,
    EntrypointKind, ExistingAuthPort, ExistingAuthSystem, ProviderCandidate, RouteCandidate,
    RouteSource, ServerCandidate,
};

fn application() -> ApplicationCandidate {
    ApplicationCandidate {
        root: "/srv/app".to_string(),
        name: Some("billing-api".to_string()),
        language: Some("Node".to_string()),
        framework: Some("Express".to_string()),
        package_manager: Some("npm".to_string()),
        entrypoints: vec![EntrypointCandidate {
            path: "/srv/app/src/server.js".to_string(),
            kind: EntrypointKind::NodeScript,
            confidence: DiscoveryConfidence::High,
        }],
        servers: vec![ServerCandidate {
            command: "npm start".to_string(),
            source: "package.json".to_string(),
            confidence: DiscoveryConfidence::High,
        }],
        routes: vec![RouteCandidate {
            method: "GET".to_string(),
            path: "/health".to_string(),
            source: RouteSource::Express,
            capability: None,
        }],
        providers: vec![ProviderCandidate {
            id: "google".to_string(),
            display_name: "Google".to_string(),
        }],
        existing_auth: vec![ExistingAuthSystem {
            id: "passport".to_string(),
            display_name: "Passport".to_string(),
            credentials: true,
            sessions: true,
            profiles: false,
            authorization: false,
            coexistence: AuthCoexistence::Bridge,
            evidence: Vec::new(),
        }],
        existing_authport: ExistingAuthPort::default(),
        confidence: DiscoveryConfidence::High,
    }
}

fn source_change() -> FileChange {
    FileChange {
        path: "/srv/app/src/server.js".to_string(),
        before: Some("const a = 1;\n".to_string()),
        after: "const a = 1;\nrequire('authboundry');\n".to_string(),
    }
}

fn plan(changes: Vec<FileChange>) -> InitPlan {
    InitPlan {
        application: application(),
        mode: InitMode::Embedded,
        changes,
        already_integrated: false,
        detected: true,
        integration_supported: true,
    }
}

fn report() -> VerifyReport {
    VerifyReport {
        ok: false,
        application_discovered: true,
        boundary_present: true,
        runtime_starts: true,
        control_plane_responds: true,
        application_routes_remain_reachable: true,
        authboundry_routes_respond: true,
        contract_fingerprint_stable: true,
        live_authority_available: false,
        application_routes: 3,
        application: "billing-api".to_string(),
        upstream: Some("http://127.0.0.1:3000".to_string()),
        upstream_reachable: true,
        application_responded: false,
        runtime_running: false,
    }
}

#[test]
fn display_path_is_relative_to_the_root_with_forward_slashes() {
    assert_eq!(display_path("/srv/app/src/server.js", "/srv/app"), "src/server.js");
    assert_eq!(display_path("/srv/app/src\\lib.js", "/srv/app"), "src/lib.js");
    assert_eq!(display_path("/other/place.js", "/srv/app"), "/other/place.js");
}

#[test]
fn a_patch_lists_only_the_added_lines() {
    assert_eq!(
        render_patch(&source_change(), "/srv/app"),
        "--- src/server.js\n+++ src/server.js\n+ require('authboundry');\n"
    );
    let created = FileChange {
        path: "/srv/app/.authboundry/adoption.json".to_string(),
        before: None,
        after: "{\n}\n".to_string(),
    };
    assert_eq!(
        render_patch(&created, "/srv/app"),
        "--- .authboundry/adoption.json\n+++ .authboundry/adoption.json\n+ {\n+ }\n"
    );
}

#[test]
fn the_development_file_patch_hides_generated_secrets() {
    let change = FileChange {
        path: "/srv/app/.authboundry/development.json".to_string(),
        before: None,
        after: "{\"proxy_secret\": \"real\"}\n".to_string(),
    };
    let patch = render_patch(&change, "/srv/app");
    assert!(patch.starts_with("--- .authboundry/development.json\n+++ .authboundry/development.json\n+ {\n"));
    assert!(patch.contains("<generated after approval>"));
    assert!(!patch.contains("real"));
}

#[test]
fn verify_text_marks_each_check_and_explains_inactive_protection() {
    let expected = "\u{2713} application discovered\n\u{2713} AuthBoundry configuration present\n\u{2713} authority configuration valid\n\u{2713} control plane surface derivable\n\u{2713} application routes discovered\n\u{2713} authority routes derivable\n\u{2713} contract fingerprint stable\n\u{2717} authority state available\n\nAuthBoundry \u{b7} Boundary Verification\nApplication:\n  billing-api\nUpstream:\n  http://127.0.0.1:3000\nConnectivity:\n  \u{2713} reachable\nApplication response:\n  \u{2717} not received\nAuthority boundary:\n  \u{2713} configured\nRuntime protection:\n  \u{25cb} inactive\nReason:\n  AuthBoundry runtime is not running.\n";
    assert_eq!(render_verify_text(&report()), expected);
    let mut local = report();
    local.upstream = None;
    assert!(render_verify_text(&local).ends_with("\u{2717} authority state available\n"));
}

#[test]
fn verify_json_reports_every_check() {
    let expected = "{\"ok\": false, \"application_discovered\": true, \"authority_configured\": true, \"authority_configuration_valid\": true, \"control_plane_surface_derivable\": true, \"application_routes_discovered\": true, \"authority_routes_derivable\": true, \"contract_fingerprint_stable\": true, \"authority_state_available\": false, \"application_routes\": 3, \"application\": \"billing-api\", \"upstream\": \"http://127.0.0.1:3000\", \"upstream_reachable\": true, \"application_responded\": false, \"runtime_running\": false, \"runtime_protection_active\": false}\n";
    assert_eq!(render_verify_json(&report()), expected);
    let mut local = report();
    local.upstream = None;
    assert!(render_verify_json(&local).contains("\"upstream\": null,"));
}

#[test]
fn plan_json_lists_providers_and_changes() {
    let created = FileChange {
        path: "/srv/app/.authboundry/adoption.json".to_string(),
        before: None,
        after: "{\n}\n".to_string(),
    };
    let expected = "{\n  \"application\": \"billing-api\",\n  \"language\": \"Node\",\n  \"framework\": \"Express\",\n  \"package_manager\": \"npm\",\n  \"entrypoint\": \"src/server.js\",\n  \"run_command\": \"npm start\",\n  \"detected\": true,\n  \"already_configured\": false,\n  \"mode\": \"embedded\",\n  \"dry_run\": true,\n  \"routes\": 1,\n  \"providers\": [\"google\"],\n  \"changes\": [{\"path\": \"src/server.js\", \"action\": \"modify\"}, {\"path\": \".authboundry/adoption.json\", \"action\": \"create\"}]\n}\n";
    assert_eq!(render_plan_json(&plan(vec![source_change(), created]), true), expected);
}

#[test]
fn the_adoption_record_names_the_upstream() {
    let expected = "{\n  \"application\": \"billing-api\",\n  \"mode\": \"standalone\",\n  \"authority\": \"configured\",\n  \"attachment\": \"upstream\",\n  \"protection\": \"inactive\",\n  \"upstream\": \"http://127.0.0.1:3000\",\n  \"language\": \"Node\",\n  \"framework\": \"Express\",\n  \"package_manager\": \"npm\",\n  \"entrypoint\": \"src/server.js\",\n  \"run_command\": \"npm start\",\n  \"routes\": 1\n}\n";
    assert_eq!(
        render_manifest_with_upstream(&application(), InitMode::Standalone, Some("http://127.0.0.1:3000")),
        expected
    );
    let without = render_manifest_with_upstream(&application(), InitMode::Embedded, None);
    assert!(without.contains("\"attachment\": \"none\","));
    assert!(without.contains("\"upstream\": \"\","));
}

#[test]
fn plan_text_previews_the_whole_adoption() {
    let created = FileChange {
        path: "/srv/app/.authboundry/adoption.json".to_string(),
        before: None,
        after: "{\n}\n".to_string(),
    };
    let mut expected = String::from("AuthBoundry found your application.\nApplication:\n  billing-api\nLanguage:\n  Node\nFramework:\n  Express\nPackage manager:\n  npm\nEntrypoint:\n  src/server.js\nRun command:\n  npm start\n");
    expected.push_str("Discovered routes:\n");
    expected.push_str(&format!("  {:<6} {:<24} {}\n", "GET", "/health", "public"));
    expected.push_str("Detected:\n  Google\nAvailable to AuthBoundry:\n  google\n");
    expected.push_str("Existing authentication:\n  Passport\n    strategy: bridge\n    credentials: preserve during adoption \u{b7} sessions: bridge then offboard \u{b7} profiles: none detected \u{b7} authorization: AuthBoundry\n");
    expected.push_str("  Existing auth will not be removed until replacement verification passes.\n");
    expected.push_str("Proposed integration:\n  framework-native coexistence bridge\n  + initialize AuthBoundry SDK/context\n  + preserve incumbent authentication during cutover\n  + preserve existing application routes and profiles\n  + record every source change for rollback\n");
    expected.push_str("Authority:\n  configured\nApplication attachment:\n  none\n");
    expected.push_str("Cutover:\n  pending runtime verification; incumbent auth remains active\n");
    expected.push_str("No application routes will be rewritten.\n");
    expected.push_str("Files to modify:\n  src/server.js\nFiles to create:\n  .authboundry/adoption.json\nFiles to leave unchanged:\n  application routes\n");
    let without_preview = expected.clone();
    expected.push_str("Patch preview:\n--- src/server.js\n+++ src/server.js\n+ require('authboundry');\n--- .authboundry/adoption.json\n+++ .authboundry/adoption.json\n+ {\n+ }\n");
    let p = plan(vec![source_change(), created]);
    assert_eq!(render_plan_text(&p, true), expected);
    assert_eq!(render_plan_text(&p, false), without_preview);
}

#[test]
fn plan_text_explains_unsupported_integration() {
    let mut p = plan(Vec::new());
    p.integration_supported = false;
    p.already_integrated = true;
    let text = render_plan_text(&p, false);
    assert!(text.starts_with("AuthBoundry already detected.\n"));
    assert!(text.contains("  (automatic source integration is not supported for this application)\n"));
    assert!(text.contains("Reason:\n  automatic source integration is not supported\n  and no application runtime attachment was discovered\n"));
    assert!(!text.contains("Cutover:"));
}

#[test]
fn applied_plan_lists_changes_and_development_sign_in() {
    let development = FileChange {
        path: "/srv/app/.authboundry/development.json".to_string(),
        before: None,
        after: "{\n  \"tenant\": \"development\",\n  \"proxy_secret\": \"s\",\n  \"accounts\": [\n    {\"username\": \"admin\", \"password\": \"pw1\", \"claims\": \"role=admin\"}\n  ]\n}\n".to_string(),
    };
    let expected = "Applying adoption plan...\n\u{2713} Modified src/server.js\n\u{2713} Created .authboundry/development.json\n\u{2713} Application routes unchanged\n\u{2713} 3 application routes discovered\n\u{2713} Application detected\n\u{2713} AuthBoundry configuration created\n\u{2713} Development identities created\nDevelopment sign-in (stored in .authboundry/development.json):\n  admin / pw1\n\u{2713} Application coexistence bridge installed\n\u{26a0} Cutover pending runtime verification\nAuthority state:\n  configured\nApplication state:\n  unattached\nReason:\n  no application runtime attachment was discovered\nAuthBoundry adoption complete.\n";
    assert_eq!(applied_plan_text(&plan(vec![source_change(), development]), &report()), expected);
}

#[test]
fn applied_plan_counts_at_least_the_discovered_routes() {
    let mut r = report();
    r.application_routes = 0;
    let mut p = plan(Vec::new());
    p.integration_supported = false;
    let text = applied_plan_text(&p, &r);
    assert!(text.contains("\u{2713} 1 application routes discovered\n"));
    assert!(text.contains("\u{26a0} Application integration not established\n"));
    assert!(!text.contains("Development sign-in"));
}

#[test]
fn a_verification_report_follows_what_was_found() {
    let mut app = application();
    app.existing_authport.middleware = true;
    let adoption = AdoptionState {
        application: "billing".to_string(),
        mode: "standalone".to_string(),
        authority: "configured".to_string(),
        upstream: Some("http://127.0.0.1:3000".to_string()),
        routes: 1,
        framework: "Express".to_string(),
        run_command: None,
    };
    let r = verify_report(Some(&app), true, Some(&adoption), true, false, false);
    assert!(r.ok);
    assert!(r.application_discovered && r.boundary_present && r.live_authority_available);
    assert_eq!(r.application_routes, 1);
    assert!(r.application_routes_remain_reachable);
    assert_eq!(r.application, "billing");
    assert_eq!(r.upstream.as_deref(), Some("http://127.0.0.1:3000"));
    let bare = verify_report(Some(&application()), true, None, false, false, false);
    assert!(!bare.ok);
    assert_eq!(bare.application, "billing-api");
    assert_eq!(bare.upstream, None);
    let missing = verify_report(None, false, None, false, false, false);
    assert_eq!(missing.application, "(unknown)");
    assert!(!missing.application_discovered);
    assert_eq!(missing.application_routes, 0);
}

use authboundry::cli::adoption::InitMode;
use authboundry::cli::declaration::DEFAULT_DECLARATION;
use authboundry::cli::integration::{
    assemble_plan, development_accounts_change, development_password, express_integration_changes,
    fastapi_integration_changes, framework_bridge, framework_integration_changes, gitignore_after,
    integration_change, join_path, package_dependency_after, parent_path, path_extension,
    react_integration_changes, vite_guard_upgrade_change, Bridge, PlanInputs, EXPRESS_CONTEXT,
    EXPRESS_HEADER, FASTAPI_CONTEXT, FASTAPI_HEADER, REACT_HEADER, REACT_PROVIDER_JS,
    VITE_IMPORT_WITH_SECRET,
};
use authboundry::cli::report::FileChange;
use authboundry::discovery::model::{
    ApplicationCandidate, AuthCoexistence, DiscoveryConfidence, EntrypointCandidate,
    EntrypointKind, ExistingAuthPort, ExistingAuthSystem,
};

const EXPRESS_SOURCE: &str = "const express = require('express');\nconst app = express();\napp.listen(3000);\n";

fn application(framework: &str) -> ApplicationCandidate {
    ApplicationCandidate {
        root: "/srv/app".to_string(),
        name: Some("billing-api".to_string()),
        language: Some("Node".to_string()),
        framework: Some(framework.to_string()),
        package_manager: Some("npm".to_string()),
        entrypoints: vec![EntrypointCandidate {
            path: "/srv/app/src/server.js".to_string(),
            kind: EntrypointKind::NodeScript,
            confidence: DiscoveryConfidence::High,
        }],
        servers: Vec::new(),
        routes: Vec::new(),
        providers: Vec::new(),
        existing_auth: Vec::new(),
        existing_authport: ExistingAuthPort::default(),
        confidence: DiscoveryConfidence::High,
    }
}

#[test]
fn gitignore_lists_development_secrets_once() {
    let fresh = gitignore_after(&None).unwrap();
    assert_eq!(fresh, ".authboundry/development.json\n.authboundry/mail/\n");
    assert_eq!(gitignore_after(&Some(fresh)), None);
    let open_line = gitignore_after(&Some("node_modules".to_string())).unwrap();
    assert_eq!(open_line, "node_modules\n.authboundry/development.json\n.authboundry/mail/\n");
    assert_eq!(gitignore_after(&Some(open_line)), None);
    let partly = gitignore_after(&Some("  .authboundry/development.json \r\n".to_string())).unwrap();
    assert_eq!(partly, "  .authboundry/development.json \r\n.authboundry/mail/\n");
}

#[test]
fn the_core_dependency_is_added_once() {
    let with_dependencies = "{\n  \"name\": \"a\",\n  \"dependencies\": {\n    \"express\": \"^4\"\n  }\n}";
    let added = package_dependency_after(with_dependencies).unwrap();
    assert_eq!(
        added,
        "{\n  \"name\": \"a\",\n  \"dependencies\": {\n    \"@authboundry/core\": \"^1.12.0\",\n    \"express\": \"^4\"\n  }\n}"
    );
    assert_eq!(package_dependency_after(&added), None);
    assert_eq!(
        package_dependency_after("{\n  \"name\": \"a\"\n}").unwrap(),
        "{\n  \"dependencies\": {\"@authboundry/core\": \"^1.12.0\"},\n  \"name\": \"a\"\n}"
    );
}

#[test]
fn paths_join_split_and_name_extensions() {
    assert_eq!(join_path("/srv/app", "package.json"), "/srv/app/package.json");
    assert_eq!(join_path("/srv/app/", "package.json"), "/srv/app/package.json");
    assert_eq!(join_path("", "authboundry"), "authboundry");
    assert_eq!(join_path("/srv/app", "/etc/hosts"), "/etc/hosts");
    assert_eq!(parent_path("/srv/app/src/server.js").as_deref(), Some("/srv/app/src"));
    assert_eq!(parent_path("/server.js").as_deref(), Some("/"));
    assert_eq!(parent_path("server.js").as_deref(), Some(""));
    assert_eq!(parent_path("/"), None);
    assert_eq!(path_extension("src/main.tsx").as_deref(), Some("tsx"));
    assert_eq!(path_extension("src/.env"), None);
    assert_eq!(path_extension("src.d/main"), None);
}

#[test]
fn express_bridge_installs_middleware_after_the_constructor() {
    let changes = express_integration_changes("/srv/app/src/server.js", EXPRESS_SOURCE, None).unwrap();
    assert_eq!(changes.len(), 2);
    assert_eq!(changes[0].path, "/srv/app/src/authboundry/context.cjs");
    assert_eq!(changes[0].before, None);
    assert_eq!(changes[0].after, EXPRESS_CONTEXT);
    assert_eq!(changes[1].path, "/srv/app/src/server.js");
    assert_eq!(changes[1].before.as_deref(), Some(EXPRESS_SOURCE));
    assert_eq!(
        changes[1].after,
        format!("{}const express = require('express');\nconst app = express();\napp.use(authBoundryContext()); // AuthBoundry verified authority context\napp.listen(3000);\n", EXPRESS_HEADER)
    );
    let refused = express_integration_changes("server.js", "module.exports = {};\n", None).unwrap_err();
    assert_eq!(
        refused.message,
        "Express was detected but its application constructor is not safe to modify automatically"
    );
}

#[test]
fn fastapi_bridge_installs_middleware_after_the_constructor() {
    let source = "from fastapi import FastAPI\napp = FastAPI()\n";
    let changes = fastapi_integration_changes("main.py", source, Some("old".to_string())).unwrap();
    assert_eq!(changes[0].path, "authboundry_context.py");
    assert_eq!(changes[0].before.as_deref(), Some("old"));
    assert_eq!(changes[0].after, FASTAPI_CONTEXT);
    assert_eq!(
        changes[1].after,
        format!("{}from fastapi import FastAPI\napp = FastAPI()\ninstall_authboundry(app)  # AuthBoundry verified authority context\n", FASTAPI_HEADER)
    );
}

#[test]
fn react_bridge_wraps_the_application_and_adds_the_dependency() {
    let source = "root.render(<App />);\n";
    let changes = react_integration_changes(
        "/srv/app",
        "/srv/app/src/main.jsx",
        source,
        None,
        Ok("{\n  \"name\": \"web\"\n}".to_string()),
    )
    .unwrap();
    assert_eq!(changes.len(), 3);
    assert_eq!(changes[0].path, "/srv/app/src/authboundry/provider.jsx");
    assert_eq!(changes[0].after, REACT_PROVIDER_JS);
    assert_eq!(
        changes[1].after,
        format!("{}root.render(<AuthBoundryProvider><App /></AuthBoundryProvider>);\n", REACT_HEADER)
    );
    assert_eq!(changes[2].path, "/srv/app/package.json");
    let failed = react_integration_changes("/srv/app", "/srv/app/src/main.jsx", source, None, Err("denied".to_string()))
        .unwrap_err();
    assert_eq!(failed.message, "cannot read package.json: denied");
}

#[test]
fn the_bridge_follows_the_framework() {
    assert_eq!(framework_bridge(&Some("Express".to_string()), EXPRESS_SOURCE), Bridge::Express);
    assert_eq!(framework_bridge(&Some("FastAPI".to_string()), "app = FastAPI()"), Bridge::FastApi);
    assert_eq!(framework_bridge(&Some("Vite".to_string()), "render(<App />)"), Bridge::React);
    assert_eq!(framework_bridge(&Some("Vite".to_string()), "render(<Main />)"), Bridge::Unsupported);
    assert_eq!(framework_bridge(&None, EXPRESS_SOURCE), Bridge::Unsupported);
    assert_eq!(
        framework_bridge(&Some("Express".to_string()), "// AuthBoundry integration: signed context bridge"),
        Bridge::Installed
    );
}

#[test]
fn framework_changes_need_a_readable_entrypoint() {
    let app = application("Express");
    let failed = framework_integration_changes(&app, Err("gone".to_string()), None, Err("x".to_string())).unwrap_err();
    assert_eq!(failed.message, "cannot inspect integration entrypoint `/srv/app/src/server.js`: gone");
    let mut bare = app.clone();
    bare.entrypoints.clear();
    assert!(framework_integration_changes(&bare, Err("gone".to_string()), None, Err("x".to_string()))
        .unwrap()
        .is_empty());
    let express = framework_integration_changes(&app, Ok(EXPRESS_SOURCE.to_string()), None, Err("x".to_string())).unwrap();
    assert_eq!(express.len(), 2);
}

#[test]
fn the_integration_record_lists_incumbent_systems() {
    let mut app = application("Express");
    app.existing_auth.push(ExistingAuthSystem {
        id: "passport".to_string(),
        display_name: "Passport \"local\"".to_string(),
        credentials: true,
        sessions: false,
        profiles: true,
        authorization: false,
        coexistence: AuthCoexistence::Migrate,
        evidence: Vec::new(),
    });
    let change = integration_change(&app);
    assert_eq!(change.path, "/srv/app/.authboundry/integration.json");
    assert_eq!(change.before, None);
    assert_eq!(
        change.after,
        "{\n  \"framework\": \"Express\",\n  \"status\": \"planned\",\n  \"default_strategy\": \"migrate\",\n  \"preserve_profiles\": true,\n  \"rollback_manifest\": \".authboundry/rollback/manifest.tsv\",\n  \"existing_auth\": [{\"id\":\"passport\",\"name\":\"Passport \\\"local\\\"\",\"credentials\":true,\"sessions\":false,\"profiles\":true,\"authorization\":false,\"strategy\":\"migrate\"}]\n}\n"
    );
    assert!(integration_change(&application("Express")).after.contains("\"default_strategy\": \"bridge\""));
}

#[test]
fn the_vite_guard_reads_the_development_secret() {
    let before = "// Generated by AuthBoundry. Direct Vite access is refused.\nimport { defineConfig } from 'vite';\nconst secret = process.env.AUTHBOUNDRY_PROXY_SECRET || '';\n";
    let change = vite_guard_upgrade_change("vite.config.ts", Some(before.to_string())).unwrap();
    assert_eq!(
        change.after,
        format!("// Generated by AuthBoundry. Direct Vite access is refused.\n{}\nconst secret = developmentSecret();\n", VITE_IMPORT_WITH_SECRET)
    );
    assert_eq!(vite_guard_upgrade_change("vite.config.ts", Some(change.after.clone())), None);
    assert_eq!(vite_guard_upgrade_change("vite.config.ts", Some("export default {}".to_string())), None);
    assert_eq!(vite_guard_upgrade_change("vite.config.ts", None), None);
}

#[test]
fn development_accounts_and_passwords() {
    let change = development_accounts_change("/srv/app", "s3", "a1", "u2");
    assert_eq!(change.path, "/srv/app/.authboundry/development.json");
    assert_eq!(
        change.after,
        "{\n  \"tenant\": \"development\",\n  \"proxy_secret\": \"s3\",\n  \"accounts\": [\n    {\"username\": \"admin\", \"password\": \"a1\", \"claims\": \"role=admin\"},\n    {\"username\": \"user\", \"password\": \"u2\", \"claims\": \"role=user\"}\n  ]\n}\n"
    );
    assert_eq!(development_password(&[0, 1, 56, 57, 255]), "AB9Ad");
    assert_eq!(development_password(&[7u8; 18]).len(), 18);
}

fn inputs() -> PlanInputs {
    PlanInputs {
        already_integrated: false,
        config_before: None,
        manifest_before: None,
        declaration: None,
        development_exists: false,
        proxy_secret: "s".to_string(),
        admin_password: "a".to_string(),
        user_password: "u".to_string(),
        integration_exists: false,
        emails: vec![FileChange {
            path: "/srv/app/emails/password-reset.txt".to_string(),
            before: None,
            after: "reset".to_string(),
        }],
        gitignore_before: None,
        vite: None,
        entry_source: Ok(EXPRESS_SOURCE.to_string()),
        generated_before: None,
        package: Err("unused".to_string()),
        entry_sources: vec![Some(EXPRESS_SOURCE.to_string())],
    }
}

#[test]
fn an_adoption_plan_lists_every_change_in_order() {
    let plan = assemble_plan(application("Express"), InitMode::Embedded, inputs()).unwrap();
    let paths: Vec<&str> = plan.changes.iter().map(|c| c.path.as_str()).collect();
    assert_eq!(
        paths,
        vec![
            "/srv/app/authboundry.toml",
            "/srv/app/.authboundry/adoption.json",
            "/srv/app/.authboundry/development.json",
            "/srv/app/.authboundry/integration.json",
            "/srv/app/emails/password-reset.txt",
            "/srv/app/.gitignore",
            "/srv/app/src/authboundry/context.cjs",
            "/srv/app/src/server.js",
        ]
    );
    assert_eq!(plan.changes[0].after, DEFAULT_DECLARATION);
    assert!(plan.integration_supported);
    assert!(plan.detected);
    assert!(!plan.already_integrated);
}

#[test]
fn an_adopted_application_only_gets_what_is_missing() {
    let mut i = inputs();
    i.already_integrated = true;
    i.development_exists = true;
    i.integration_exists = true;
    i.emails.clear();
    i.gitignore_before = Some(".authboundry/development.json\n.authboundry/mail/\n".to_string());
    i.entry_source = Ok(format!("// AuthBoundry integration: signed context bridge\n{}", EXPRESS_SOURCE));
    i.entry_sources = vec![Some("// AuthBoundry integration".to_string())];
    let plan = assemble_plan(application("Express"), InitMode::Standalone, i).unwrap();
    assert!(plan.changes.is_empty());
    assert!(plan.integration_supported);
    assert!(plan.already_integrated);
}

#[test]
fn a_plan_fails_where_the_bridge_cannot_be_written() {
    let mut i = inputs();
    i.entry_source = Ok("module.exports = {};\n".to_string());
    let failed = assemble_plan(application("Express"), InitMode::Embedded, i).unwrap_err();
    assert!(failed.message.starts_with("Express was detected"));
}

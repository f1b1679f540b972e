use authboundry::cli::adoption::InitMode;
use authboundry::cli::journal::{
    confirmed_options, journal_of, offboard_record, rollback_report, rollback_steps, RollbackStep,
};
use authboundry::cli::report::{FileChange, InitPlan};
use authboundry::discovery::model::{ApplicationCandidate, DiscoveryConfidence, ExistingAuthPort};

fn plan(changes: Vec<FileChange>) -> InitPlan {
    InitPlan {
        application: ApplicationCandidate {
            root: "/srv/app".to_string(),
            name: None,
            language: None,
            framework: None,
            package_manager: None,
            entrypoints: Vec::new(),
            servers: Vec::new(),
            routes: Vec::new(),
            providers: Vec::new(),
            existing_auth: Vec::new(),
            existing_authport: ExistingAuthPort::default(),
            confidence: DiscoveryConfidence::High,
        },
        mode: InitMode::Embedded,
        changes,
        already_integrated: false,
        detected: true,
        integration_supported: false,
    }
}

fn change(path: &str, before: Option<&str>) -> FileChange {
    FileChange { path: path.to_string(), before: before.map(str::to_string), after: "new".to_string() }
}

#[test]
fn the_journal_records_each_change_and_its_backup() {
    let journal = journal_of(&plan(vec![
        change("/srv/app/src/server.js", Some("old")),
        change("/srv/app/.authboundry/development.json", None),
    ]));
    assert_eq!(journal.backups, vec![("0.backup".to_string(), "old".to_string())]);
    assert_eq!(
        journal.manifest.unwrap(),
        "existing\tsrc/server.js\t0.backup\ncreated\t.authboundry/development.json\t\n"
    );
}

#[test]
fn rollback_reverses_the_journal_last_change_first() {
    let journal = journal_of(&plan(vec![
        change("/srv/app/src/server.js", Some("old")),
        change("/srv/app/.authboundry/development.json", None),
        change("/srv/app/package.json", Some("{}")),
    ]));
    let (steps, refused) = rollback_steps(&journal.manifest.unwrap());
    assert_eq!(refused, None);
    assert_eq!(
        steps,
        vec![
            RollbackStep::Restore { relative: "package.json".to_string(), backup: "2.backup".to_string() },
            RollbackStep::Remove { relative: ".authboundry/development.json".to_string() },
            RollbackStep::Restore { relative: "src/server.js".to_string(), backup: "0.backup".to_string() },
        ]
    );
    assert_eq!(
        rollback_report(steps.len()),
        "AuthBoundry integration rolled back.\n\u{2713} 3 exact file changes reversed\n\u{2713} Incumbent authentication remains available\n"
    );
}

#[test]
fn an_unjournalable_path_stops_the_journal() {
    let journal = journal_of(&plan(vec![
        change("/srv/app/a.js", Some("a")),
        change("/srv/app/b\tc.js", Some("b")),
        change("/srv/app/d.js", Some("d")),
    ]));
    assert_eq!(journal.backups, vec![("0.backup".to_string(), "a".to_string())]);
    assert_eq!(journal.manifest.unwrap_err().message, "cannot journal an unsafe integration path");
}

#[test]
fn rollback_refuses_unsafe_paths_and_unknown_actions() {
    let (steps, refused) = rollback_steps("existing\t/etc/passwd\t0.backup\n");
    assert!(steps.is_empty());
    assert_eq!(refused.unwrap().message, "rollback journal contains an unsafe path");
    let (_, refused) = rollback_steps("created\tsrc/../../x\t\n");
    assert_eq!(refused.unwrap().message, "rollback journal contains an unsafe path");
    let (_, refused) = rollback_steps("created\t\t\n");
    assert_eq!(refused.unwrap().message, "rollback journal contains an unsafe path");
    let (steps, refused) = rollback_steps("moved\ta.txt\t\ncreated\tb.txt\t\n");
    assert_eq!(steps, vec![RollbackStep::Remove { relative: "b.txt".to_string() }]);
    assert_eq!(refused.unwrap().message, "rollback journal contains an unknown action");
}

fn strings(args: &[&str]) -> Vec<String> {
    args.iter().map(|arg| arg.to_string()).collect()
}

#[test]
fn confirmed_commands_need_yes_and_one_path() {
    let refusal = "rollback requires --yes after reviewing the integration plan";
    assert_eq!(confirmed_options(&strings(&["--yes"]), "rollback", refusal).unwrap(), None);
    assert_eq!(
        confirmed_options(&strings(&["app", "--yes"]), "rollback", refusal).unwrap().as_deref(),
        Some("app")
    );
    assert_eq!(confirmed_options(&strings(&["app"]), "rollback", refusal).unwrap_err().message, refusal);
    assert_eq!(
        confirmed_options(&strings(&["--force", "--yes"]), "rollback", refusal).unwrap_err().message,
        "unknown flag `--force`"
    );
    assert_eq!(
        confirmed_options(&strings(&["a", "b", "--yes"]), "offboard-auth", refusal).unwrap_err().message,
        "offboard-auth accepts at most one application path"
    );
}

#[test]
fn offboarding_needs_a_verified_cutover_and_a_journal() {
    let verified = "{\n  \"status\": \"verified\"\n}\n".to_string();
    assert_eq!(
        offboard_record(Some(verified.clone()), true).unwrap(),
        "{\n  \"status\": \"offboarded\"\n}\n"
    );
    assert_eq!(
        offboard_record(Some(verified), false).unwrap_err().message,
        "offboarding refused: rollback journal is unavailable"
    );
    assert_eq!(
        offboard_record(Some("{\"status\": \"planned\"}".to_string()), true).unwrap_err().message,
        "offboarding refused: AuthBoundry cutover has not passed runtime verification"
    );
    assert_eq!(offboard_record(None, true).unwrap_err().message, "no AuthBoundry integration plan exists");
}

//! What `init` and `verify` report: the adoption plan before and after it
//! is applied, the file changes it makes, the adoption record it writes, and
//! the verification of an adopted application.
use vstd::prelude::*;
use crate::text::{owned, cat, bool_str, bool_text, u64_decimal, decimal, chars_of, string_from_chars, push_char};
use crate::discovery::model::{
    ApplicationCandidate, ExistingAuthSystem, ProviderCandidate, auth_coexistence_name,
    protection_state_name,
};
use crate::discovery::render::{esc, append_escaped};
use super::adoption::InitMode;
use super::control::opt_view;

verus! {

/// One file the plan writes: what it holds now (`None` where it is new) and
/// what it will hold.
#[derive(Debug, Clone, PartialEq, Eq)]
pub struct FileChange {
    pub path: String,
    pub before: Option<String>,
    pub after: String,
}

impl View for FileChange {
    type V = (Seq<char>, Option<Seq<char>>, Seq<char>);

    open spec fn view(&self) -> (Seq<char>, Option<Seq<char>>, Seq<char>) {
        (self.path@, opt_view(self.before), self.after@)
    }
}

/// The adoption plan for an application.
#[derive(Debug, Clone, PartialEq, Eq)]
pub struct InitPlan {
    pub application: ApplicationCandidate,
    pub mode: InitMode,
    pub changes: Vec<FileChange>,
    pub already_integrated: bool,
    pub detected: bool,
    pub integration_supported: bool,
}

/// What verifying an adopted application found.
#[derive(Debug, Clone, PartialEq, Eq)]
pub struct VerifyReport {
    pub ok: bool,
    pub application_discovered: bool,
    pub boundary_present: bool,
    pub runtime_starts: bool,
    pub control_plane_responds: bool,
    pub application_routes_remain_reachable: bool,
    pub authboundry_routes_respond: bool,
    pub contract_fingerprint_stable: bool,
    pub live_authority_available: bool,
    pub application_routes: usize,
    pub application: String,
    pub upstream: Option<String>,
    pub upstream_reachable: bool,
    pub application_responded: bool,
    pub runtime_running: bool,
}

/// `Path::strip_prefix`: what is left of `path` once the components of
/// `root` are taken off its front, where they are its first components.
pub uninterp spec fn path_without_prefix(path: Seq<char>, root: Seq<char>) -> Option<Seq<char>>;

/// `Path::strip_prefix` on `path` and `root`, the rest given back as text.
#[verifier::external_body]
fn strip_path_prefix(path: &str, root: &str) -> (r: Option<String>)
    ensures
        opt_view(r) == path_without_prefix(path@, root@),
{
    match std::path::Path::new(path).strip_prefix(root) {
        Ok(rest) => Some(rest.to_string_lossy().into_owned()),
        Err(_) => None,
    }
}

pub open spec fn slash_char(c: char) -> char {
    if c == '\\' {
        '/'
    } else {
        c
    }
}

/// A path as reports show it: relative to the application's root where it
/// lies under it, with forward slashes.
pub open spec fn display_of(path: Seq<char>, root: Seq<char>) -> Seq<char> {
    let p = match path_without_prefix(path, root) {
        Some(rest) => rest,
        None => path,
    };
    p.map_values(|c: char| slash_char(c))
}

pub fn display_path(path: &str, root: &str) -> (r: String)
    ensures
        r@ == display_of(path@, root@),
{
    let p = match strip_path_prefix(path, root) {
        Some(rest) => rest,
        None => owned(path),
    };
    let v = chars_of(p.as_str());
    let mut out = String::new();
    let mut i: usize = 0;
    while i < v.len()
        invariant
            i <= v@.len(),
            out@ == v@.take(i as int).map_values(|c: char| slash_char(c)),
        decreases v@.len() - i,
    {
        let c = if v[i] == '\\' {
            '/'
        } else {
            v[i]
        };
        push_char(&mut out, c);
        assert(v@.take(i + 1).map_values(|c: char| slash_char(c)) =~= v@.take(i as int).map_values(
            |c: char| slash_char(c),
        ).push(slash_char(v@[i as int])));
        i = i + 1;
    }
    assert(v@.take(i as int) =~= v@);
    out
}

pub open spec fn or_text(o: Option<String>, d: Seq<char>) -> Seq<char> {
    match o {
        Some(s) => s@,
        None => d,
    }
}

/// The first entrypoint, as reports show it, or `d`.
pub open spec fn entrypoint_text(app: ApplicationCandidate, d: Seq<char>) -> Seq<char> {
    if app.entrypoints@.len() > 0 {
        display_of(app.entrypoints@[0].path@, app.root@)
    } else {
        d
    }
}

/// The first server's command, or `d`.
pub open spec fn run_command_text(app: ApplicationCandidate, d: Seq<char>) -> Seq<char> {
    if app.servers@.len() > 0 {
        app.servers@[0].command@
    } else {
        d
    }
}

fn append_opt_or(out: &mut String, o: &Option<String>, d: &str)
    ensures
        final(out)@ == old(out)@ + or_text(*o, d@),
{
    match o {
        Some(s) => out.append(s.as_str()),
        None => out.append(d),
    }
}

fn entrypoint_exec(app: &ApplicationCandidate, d: &str) -> (r: String)
    ensures
        r@ == entrypoint_text(*app, d@),
{
    if app.entrypoints.len() > 0 {
        display_path(app.entrypoints[0].path.as_str(), app.root.as_str())
    } else {
        owned(d)
    }
}

fn run_command_exec(app: &ApplicationCandidate, d: &str) -> (r: String)
    ensures
        r@ == run_command_text(*app, d@),
{
    if app.servers.len() > 0 {
        app.servers[0].command.clone()
    } else {
        owned(d)
    }
}

// ---------------------------------------------------------------------------
// Verification.
// ---------------------------------------------------------------------------

pub open spec fn mark(ok: bool) -> Seq<char> {
    if ok {
        "\u{2713}"@
    } else {
        "\u{2717}"@
    }
}

fn mark_exec(ok: bool) -> (r: &'static str)
    ensures
        r@ == mark(ok),
{
    if ok {
        "\u{2713}"
    } else {
        "\u{2717}"
    }
}

/// The checklist of a verification, and where an upstream is named, how the
/// boundary in front of it stands.
pub open spec fn verify_text(r: VerifyReport) -> Seq<char> {
    let checks = mark(r.application_discovered) + " application discovered\n"@ + mark(
        r.boundary_present,
    ) + " AuthBoundry configuration present\n"@ + mark(r.runtime_starts)
        + " authority configuration valid\n"@ + mark(r.control_plane_responds)
        + " control plane surface derivable\n"@ + mark(r.application_routes_remain_reachable)
        + " application routes discovered\n"@ + mark(r.authboundry_routes_respond)
        + " authority routes derivable\n"@ + mark(r.contract_fingerprint_stable)
        + " contract fingerprint stable\n"@ + mark(r.live_authority_available)
        + " authority state available\n"@;
    match r.upstream {
        None => checks,
        Some(u) => checks + "\nAuthBoundry \u{b7} Boundary Verification\nApplication:\n  "@ + r.application@
            + "\nUpstream:\n  "@ + u@ + "\nConnectivity:\n  "@ + (if r.upstream_reachable {
            "\u{2713} reachable"@
        } else {
            "\u{2717} unreachable"@
        }) + "\nApplication response:\n  "@ + (if r.application_responded {
            "\u{2713} received"@
        } else {
            "\u{2717} not received"@
        }) + "\nAuthority boundary:\n  \u{2713} configured\nRuntime protection:\n  "@ + (
        if r.runtime_running && r.upstream_reachable {
            "\u{2713} active"@
        } else {
            "\u{25cb} inactive"@
        }) + "\n"@ + (if r.runtime_running {
            ""@
        } else {
            "Reason:\n  AuthBoundry runtime is not running.\n"@
        }),
    }
}

fn append_check(out: &mut String, ok: bool, label: &str)
    ensures
        final(out)@ == old(out)@ + mark(ok) + label@,
{
    out.append(mark_exec(ok));
    out.append(label);
}

pub fn render_verify_text(report: &VerifyReport) -> (r: String)
    ensures
        r@ == verify_text(*report),
{
    let mut out = String::new();
    append_check(&mut out, report.application_discovered, " application discovered\n");
    append_check(&mut out, report.boundary_present, " AuthBoundry configuration present\n");
    append_check(&mut out, report.runtime_starts, " authority configuration valid\n");
    append_check(&mut out, report.control_plane_responds, " control plane surface derivable\n");
    append_check(&mut out, report.application_routes_remain_reachable, " application routes discovered\n");
    append_check(&mut out, report.authboundry_routes_respond, " authority routes derivable\n");
    append_check(&mut out, report.contract_fingerprint_stable, " contract fingerprint stable\n");
    append_check(&mut out, report.live_authority_available, " authority state available\n");
    let ghost checks = out@;
    match &report.upstream {
        None => {},
        Some(u) => {
            out.append("\nAuthBoundry \u{b7} Boundary Verification\nApplication:\n  ");
            out.append(report.application.as_str());
            out.append("\nUpstream:\n  ");
            out.append(u.as_str());
            out.append("\nConnectivity:\n  ");
            out.append(
                if report.upstream_reachable {
                    "\u{2713} reachable"
                } else {
                    "\u{2717} unreachable"
                },
            );
            out.append("\nApplication response:\n  ");
            out.append(
                if report.application_responded {
                    "\u{2713} received"
                } else {
                    "\u{2717} not received"
                },
            );
            out.append("\nAuthority boundary:\n  \u{2713} configured\nRuntime protection:\n  ");
            out.append(
                if report.runtime_running && report.upstream_reachable {
                    "\u{2713} active"
                } else {
                    "\u{25cb} inactive"
                },
            );
            out.append("\n");
            out.append(
                if report.runtime_running {
                    ""
                } else {
                    "Reason:\n  AuthBoundry runtime is not running.\n"
                },
            );
        },
    }
    out
}

pub open spec fn upstream_json(u: Option<String>) -> Seq<char> {
    match u {
        Some(v) => "\""@ + esc(v@) + "\""@,
        None => "null"@,
    }
}

/// Three labelled flags.
#[verifier::opaque]
pub open spec fn flags3(l1: Seq<char>, b1: bool, l2: Seq<char>, b2: bool, l3: Seq<char>, b3: bool) -> Seq<char> {
    l1 + bool_text(b1) + l2 + bool_text(b2) + l3 + bool_text(b3)
}

/// The checks of a verification as the start of its JSON.
pub open spec fn verify_json_checks(r: VerifyReport) -> Seq<char> {
    flags3(
        "{\"ok\": "@,
        r.ok,
        ", \"application_discovered\": "@,
        r.application_discovered,
        ", \"authority_configured\": "@,
        r.boundary_present,
    ) + flags3(
        ", \"authority_configuration_valid\": "@,
        r.runtime_starts,
        ", \"control_plane_surface_derivable\": "@,
        r.control_plane_responds,
        ", \"application_routes_discovered\": "@,
        r.application_routes_remain_reachable,
    ) + flags3(
        ", \"authority_routes_derivable\": "@,
        r.authboundry_routes_respond,
        ", \"contract_fingerprint_stable\": "@,
        r.contract_fingerprint_stable,
        ", \"authority_state_available\": "@,
        r.live_authority_available,
    )
}

/// The application and its upstream as the rest of the JSON.
pub open spec fn verify_json_application(r: VerifyReport) -> Seq<char> {
    ", \"application_routes\": "@ + decimal(r.application_routes as nat) + ", \"application\": \""@
        + esc(r.application@) + "\", \"upstream\": "@ + upstream_json(r.upstream) + flags3(
        ", \"upstream_reachable\": "@,
        r.upstream_reachable,
        ", \"application_responded\": "@,
        r.application_responded,
        ", \"runtime_running\": "@,
        r.runtime_running,
    ) + ", \"runtime_protection_active\": "@ + bool_text(r.runtime_running && r.upstream_reachable)
        + "}\n"@
}

/// The verification as JSON.
pub open spec fn verify_json(r: VerifyReport) -> Seq<char> {
    verify_json_checks(r) + verify_json_application(r)
}

fn append_flag(out: &mut String, label: &str, b: bool)
    ensures
        final(out)@ == old(out)@ + label@ + bool_text(b),
{
    out.append(label);
    out.append(bool_str(b));
}

fn append_flags3(out: &mut String, l1: &str, b1: bool, l2: &str, b2: bool, l3: &str, b3: bool)
    ensures
        final(out)@ == old(out)@ + flags3(l1@, b1, l2@, b2, l3@, b3),
{
    let ghost start = out@;
    append_flag(out, l1, b1);
    append_flag(out, l2, b2);
    append_flag(out, l3, b3);
    proof {
        reveal(flags3);
    }
    assert(out@ =~= start + flags3(l1@, b1, l2@, b2, l3@, b3));
}

fn append_verify_checks(out: &mut String, report: &VerifyReport)
    ensures
        final(out)@ == old(out)@ + verify_json_checks(*report),
{
    let ghost start = out@;
    append_flags3(
        out,
        "{\"ok\": ",
        report.ok,
        ", \"application_discovered\": ",
        report.application_discovered,
        ", \"authority_configured\": ",
        report.boundary_present,
    );
    let ghost a = out@;
    append_flags3(
        out,
        ", \"authority_configuration_valid\": ",
        report.runtime_starts,
        ", \"control_plane_surface_derivable\": ",
        report.control_plane_responds,
        ", \"application_routes_discovered\": ",
        report.application_routes_remain_reachable,
    );
    let ghost b = out@;
    append_flags3(
        out,
        ", \"authority_routes_derivable\": ",
        report.authboundry_routes_respond,
        ", \"contract_fingerprint_stable\": ",
        report.contract_fingerprint_stable,
        ", \"authority_state_available\": ",
        report.live_authority_available,
    );
    assert(out@ =~= start + verify_json_checks(*report));
}

fn append_verify_application(out: &mut String, report: &VerifyReport)
    ensures
        final(out)@ == old(out)@ + verify_json_application(*report),
{
    let ghost start = out@;
    out.append(", \"application_routes\": ");
    let n = u64_decimal(report.application_routes as u64);
    out.append(n.as_str());
    out.append(", \"application\": \"");
    append_escaped(out, report.application.as_str());
    out.append("\", \"upstream\": ");
    let ghost mid = out@;
    match &report.upstream {
        Some(v) => {
            out.append("\"");
            append_escaped(out, v.as_str());
            out.append("\"");
        },
        None => out.append("null"),
    }
    assert(out@ =~= mid + upstream_json(report.upstream));
    append_flags3(
        out,
        ", \"upstream_reachable\": ",
        report.upstream_reachable,
        ", \"application_responded\": ",
        report.application_responded,
        ", \"runtime_running\": ",
        report.runtime_running,
    );
    append_flag(
        out,
        ", \"runtime_protection_active\": ",
        report.runtime_running && report.upstream_reachable,
    );
    out.append("}\n");
    assert(out@ =~= start + verify_json_application(*report));
}

pub fn render_verify_json(report: &VerifyReport) -> (r: String)
    ensures
        r@ == verify_json(*report),
{
    let mut out = String::new();
    append_verify_checks(&mut out, report);
    append_verify_application(&mut out, report);
    out
}

// ---------------------------------------------------------------------------
// The plan and the adoption record as JSON.
// ---------------------------------------------------------------------------

pub open spec fn mode_name(m: InitMode) -> Seq<char> {
    match m {
        InitMode::Embedded => "embedded"@,
        InitMode::Standalone => "standalone"@,
    }
}

/// A further string member of a JSON object.
#[verifier::opaque]
pub open spec fn jfield(key: Seq<char>, v: Seq<char>) -> Seq<char> {
    ",\n  \""@ + key + "\": \""@ + esc(v) + "\""@
}

/// A further member of a JSON object, its value written as it is.
#[verifier::opaque]
pub open spec fn jraw(key: Seq<char>, t: Seq<char>) -> Seq<char> {
    ",\n  \""@ + key + "\": "@ + t
}

fn append_jfield(out: &mut String, key: &str, v: &str)
    ensures
        final(out)@ == old(out)@ + jfield(key@, v@),
{
    let ghost start = out@;
    out.append(",\n  \"");
    out.append(key);
    out.append("\": \"");
    append_escaped(out, v);
    out.append("\"");
    proof {
        reveal(jfield);
    }
    assert(out@ =~= start + jfield(key@, v@));
}

fn append_jraw(out: &mut String, key: &str, t: &str)
    ensures
        final(out)@ == old(out)@ + jraw(key@, t@),
{
    let ghost start = out@;
    out.append(",\n  \"");
    out.append(key);
    out.append("\": ");
    out.append(t);
    proof {
        reveal(jraw);
    }
    assert(out@ =~= start + jraw(key@, t@));
}

/// The application's description as the first members of a JSON object.
pub open spec fn application_json(app: ApplicationCandidate) -> Seq<char> {
    "{\n  \"application\": \""@ + esc(or_text(app.name, ""@)) + "\""@ + jfield(
        "language"@,
        or_text(app.language, ""@),
    ) + jfield("framework"@, or_text(app.framework, ""@)) + jfield(
        "package_manager"@,
        or_text(app.package_manager, ""@),
    ) + jfield("entrypoint"@, entrypoint_text(app, ""@)) + jfield(
        "run_command"@,
        run_command_text(app, ""@),
    )
}

fn opt_str_or<'a>(o: &'a Option<String>, d: &'a str) -> (r: &'a str)
    ensures
        r@ == or_text(*o, d@),
{
    match o {
        Some(s) => s.as_str(),
        None => d,
    }
}

fn append_application_json(out: &mut String, app: &ApplicationCandidate)
    ensures
        final(out)@ == old(out)@ + application_json(*app),
{
    let ghost start = out@;
    out.append("{\n  \"application\": \"");
    append_escaped(out, opt_str_or(&app.name, ""));
    out.append("\"");
    append_jfield(out, "language", opt_str_or(&app.language, ""));
    append_jfield(out, "framework", opt_str_or(&app.framework, ""));
    append_jfield(out, "package_manager", opt_str_or(&app.package_manager, ""));
    let e = entrypoint_exec(app, "");
    append_jfield(out, "entrypoint", e.as_str());
    let c = run_command_exec(app, "");
    append_jfield(out, "run_command", c.as_str());
    assert(out@ =~= start + application_json(*app));
}

pub open spec fn provider_json(p: ProviderCandidate) -> Seq<char> {
    "\""@ + esc(p.id@) + "\""@
}

pub open spec fn change_json(c: FileChange, root: Seq<char>) -> Seq<char> {
    "{\"path\": \""@ + esc(display_of(c.path@, root)) + "\", \"action\": \""@ + (if c.before is Some {
        "modify"@
    } else {
        "create"@
    }) + "\"}"@
}

/// The plan as JSON.
pub open spec fn plan_json(plan: InitPlan, dry_run: bool) -> Seq<char> {
    application_json(plan.application) + jraw("detected"@, bool_text(plan.detected)) + jraw(
        "already_configured"@,
        bool_text(plan.already_integrated),
    ) + ",\n  \"mode\": \""@ + mode_name(plan.mode) + "\""@ + jraw("dry_run"@, bool_text(dry_run))
        + jraw("routes"@, decimal(plan.application.routes@.len())) + ",\n  \"providers\": ["@
        + crate::text::join_with(
        plan.application.providers@.map_values(|p: ProviderCandidate| provider_json(p)),
        ", "@,
    ) + "],\n  \"changes\": ["@ + crate::text::join_with(
        plan.changes@.map_values(|c: FileChange| change_json(c, plan.application.root@)),
        ", "@,
    ) + "]\n}\n"@
}

fn append_providers_json(out: &mut String, ps: &Vec<ProviderCandidate>)
    ensures
        final(out)@ == old(out)@ + crate::text::join_with(
            ps@.map_values(|p: ProviderCandidate| provider_json(p)),
            ", "@,
        ),
{
    let ghost start = out@;
    let mut i: usize = 0;
    while i < ps.len()
        invariant
            i <= ps@.len(),
            out@ == start + crate::text::join_with(
                ps@.take(i as int).map_values(|p: ProviderCandidate| provider_json(p)),
                ", "@,
            ),
        decreases ps@.len() - i,
    {
        let ghost before = out@;
        if i > 0 {
            out.append(", ");
        }
        out.append("\"");
        append_escaped(out, ps[i].id.as_str());
        out.append("\"");
        proof {
            let t = ps@.take(i + 1).map_values(|p: ProviderCandidate| provider_json(p));
            assert(t.drop_last() =~= ps@.take(i as int).map_values(|p: ProviderCandidate| provider_json(p)));
            assert(t.last() == provider_json(ps@[i as int]));
            if i == 0 {
                assert(t.len() == 1);
            }
        }
        i = i + 1;
    }
    assert(ps@.take(i as int) =~= ps@);
}

fn append_changes_json(out: &mut String, cs: &Vec<FileChange>, root: &str)
    ensures
        final(out)@ == old(out)@ + crate::text::join_with(
            cs@.map_values(|c: FileChange| change_json(c, root@)),
            ", "@,
        ),
{
    let ghost start = out@;
    let mut i: usize = 0;
    while i < cs.len()
        invariant
            i <= cs@.len(),
            out@ == start + crate::text::join_with(
                cs@.take(i as int).map_values(|c: FileChange| change_json(c, root@)),
                ", "@,
            ),
        decreases cs@.len() - i,
    {
        let ghost before = out@;
        if i > 0 {
            out.append(", ");
        }
        let ghost mid = out@;
        out.append("{\"path\": \"");
        let d = display_path(cs[i].path.as_str(), root);
        append_escaped(out, d.as_str());
        out.append("\", \"action\": \"");
        out.append(
            if cs[i].before.is_some() {
                "modify"
            } else {
                "create"
            },
        );
        out.append("\"}");
        proof {
            assert(out@ =~= mid + change_json(cs@[i as int], root@));
            let t = cs@.take(i + 1).map_values(|c: FileChange| change_json(c, root@));
            assert(t.drop_last() =~= cs@.take(i as int).map_values(|c: FileChange| change_json(c, root@)));
            assert(t.last() == change_json(cs@[i as int], root@));
            if i == 0 {
                assert(t.len() == 1);
            }
        }
        i = i + 1;
    }
    assert(cs@.take(i as int) =~= cs@);
}

pub fn render_plan_json(plan: &InitPlan, dry_run: bool) -> (r: String)
    ensures
        r@ == plan_json(*plan, dry_run),
{
    let mut out = String::new();
    append_application_json(&mut out, &plan.application);
    append_jraw(&mut out, "detected", bool_str(plan.detected));
    append_jraw(&mut out, "already_configured", bool_str(plan.already_integrated));
    out.append(",\n  \"mode\": \"");
    out.append(plan.mode.as_str());
    out.append("\"");
    append_jraw(&mut out, "dry_run", bool_str(dry_run));
    let n = u64_decimal(plan.application.routes.len() as u64);
    append_jraw(&mut out, "routes", n.as_str());
    out.append(",\n  \"providers\": [");
    append_providers_json(&mut out, &plan.application.providers);
    out.append("],\n  \"changes\": [");
    append_changes_json(&mut out, &plan.changes, plan.application.root.as_str());
    out.append("]\n}\n");
    out
}

/// The adoption record `init` writes for an application.
pub open spec fn manifest_json(app: ApplicationCandidate, mode: InitMode, upstream: Option<Seq<char>>) -> Seq<char> {
    "{\n  \"application\": \""@ + esc(or_text(app.name, ""@)) + "\""@ + ",\n  \"mode\": \""@ + mode_name(mode)
        + "\""@ + ",\n  \"authority\": \"configured\""@ + ",\n  \"attachment\": \""@ + (if upstream is Some {
        "upstream"@
    } else {
        "none"@
    }) + "\""@ + ",\n  \"protection\": \"inactive\""@ + jfield(
        "upstream"@,
        match upstream {
            Some(u) => u,
            None => ""@,
        },
    ) + jfield("language"@, or_text(app.language, ""@)) + jfield(
        "framework"@,
        or_text(app.framework, ""@),
    ) + jfield("package_manager"@, or_text(app.package_manager, ""@)) + jfield(
        "entrypoint"@,
        entrypoint_text(app, ""@),
    ) + jfield("run_command"@, run_command_text(app, ""@)) + jraw(
        "routes"@,
        decimal(app.routes@.len()),
    ) + "\n}\n"@
}

pub fn render_manifest_with_upstream(application: &ApplicationCandidate, mode: InitMode, upstream: Option<&str>) -> (r:
    String)
    ensures
        r@ == manifest_json(
            *application,
            mode,
            match upstream {
                Some(u) => Some(u@),
                None => None,
            },
        ),
{
    let mut out = owned("{\n  \"application\": \"");
    append_escaped(&mut out, opt_str_or(&application.name, ""));
    out.append("\"");
    out.append(",\n  \"mode\": \"");
    out.append(mode.as_str());
    out.append("\"");
    out.append(",\n  \"authority\": \"configured\"");
    out.append(",\n  \"attachment\": \"");
    out.append(
        match upstream {
            Some(_) => "upstream",
            None => "none",
        },
    );
    out.append("\"");
    out.append(",\n  \"protection\": \"inactive\"");
    append_jfield(
        &mut out,
        "upstream",
        match upstream {
            Some(u) => u,
            None => "",
        },
    );
    append_jfield(&mut out, "language", opt_str_or(&application.language, ""));
    append_jfield(&mut out, "framework", opt_str_or(&application.framework, ""));
    append_jfield(&mut out, "package_manager", opt_str_or(&application.package_manager, ""));
    let e = entrypoint_exec(application, "");
    append_jfield(&mut out, "entrypoint", e.as_str());
    let c = run_command_exec(application, "");
    append_jfield(&mut out, "run_command", c.as_str());
    let n = u64_decimal(application.routes.len() as u64);
    append_jraw(&mut out, "routes", n.as_str());
    out.append("\n}\n");
    out
}

// ---------------------------------------------------------------------------
// The plan as text, and the changes it makes.
// ---------------------------------------------------------------------------

/// `Path::ends_with`: whether the last components of `path` are those of
/// `child`.
pub uninterp spec fn path_ends_with(path: Seq<char>, child: Seq<char>) -> bool;

/// `Path::ends_with` on `path` and `child`.
#[verifier::external_body]
fn path_ends_with_exec(path: &str, child: &str) -> (r: bool)
    ensures
        r == path_ends_with(path@, child@),
{
    std::path::Path::new(path).ends_with(child)
}

/// Where the development accounts are kept, under the application's root.
pub const DEVELOPMENT_FILE: &'static str = ".authboundry/development.json";

/// What the patch preview shows for the development accounts, whose
/// secrets are only made once the plan is approved.
pub const DEVELOPMENT_PATCH: &'static str = "+ {\n+   \"tenant\": \"development\",\n+   \"proxy_secret\": \"<generated after approval>\",\n+   \"accounts\": [\n+     {\"username\": \"admin\", \"password\": \"<generated after approval>\", \"claims\": \"role=admin\"},\n+     {\"username\": \"user\", \"password\": \"<generated after approval>\", \"claims\": \"role=user\"}\n+   ]\n+ }\n";

/// Each line of `ls` that `old` lacks (every line, where `old` is `None`),
/// marked as added.
pub open spec fn added_lines(ls: Seq<Seq<char>>, old: Option<Seq<Seq<char>>>) -> Seq<char>
    decreases ls.len(),
{
    if ls.len() == 0 {
        Seq::empty()
    } else {
        let rest = added_lines(ls.drop_last(), old);
        let l = ls.last();
        match old {
            Some(o) => if o.contains(l) {
                rest
            } else {
                rest + "+ "@ + l + "\n"@
            },
            None => rest + "+ "@ + l + "\n"@,
        }
    }
}

/// The lines a file holds before the change, where it exists.
pub open spec fn before_lines(c: FileChange) -> Option<Seq<Seq<char>>> {
    match c.before {
        Some(b) => Some(crate::cli::declaration::lines_of(b@)),
        None => None,
    }
}

/// The patch a change shows in a preview.
pub open spec fn patch_text(c: FileChange, root: Seq<char>) -> Seq<char> {
    let path = display_of(c.path@, root);
    let head = "--- "@ + path + "\n+++ "@ + path + "\n"@;
    if path_ends_with(c.path@, DEVELOPMENT_FILE@) {
        head + DEVELOPMENT_PATCH@
    } else {
        head + added_lines(crate::cli::declaration::lines_of(c.after@), before_lines(c))
    }
}

pub(crate) fn lines_exec(s: &str) -> (r: Vec<String>)
    ensures
        crate::text::views(r@) == crate::cli::declaration::lines_of(s@),
{
    let v = chars_of(s);
    let mut out: Vec<String> = Vec::new();
    let mut i: usize = 0;
    assert(v@.skip(0) =~= v@);
    while i < v.len()
        invariant
            i <= v@.len(),
            v@ == s@,
            crate::text::views(out@) + crate::cli::declaration::lines_of(v@.skip(i as int))
                == crate::cli::declaration::lines_of(s@),
        decreases v@.len() - i,
    {
        let (line, next) = crate::cli::declaration::next_line(&v, i);
        let ls = string_from_chars(line.as_slice());
        let ghost before = out@;
        out.push(ls);
        proof {
            assert(crate::text::views(out@) =~= crate::text::views(before).push(ls@));
            assert(crate::text::views(out@) + crate::cli::declaration::lines_of(v@.skip(next as int))
                =~= crate::text::views(before) + (seq![line@] + crate::cli::declaration::lines_of(
                v@.skip(next as int),
            )));
        }
        i = next;
    }
    proof {
        assert(v@.skip(i as int) =~= Seq::<char>::empty());
        assert(crate::cli::declaration::lines_of(Seq::<char>::empty()) =~= Seq::<Seq<char>>::empty());
        assert(crate::text::views(out@) + Seq::<Seq<char>>::empty() =~= crate::text::views(out@));
    }
    out
}

fn contains_line(ls: &Vec<String>, l: &str) -> (r: bool)
    ensures
        r == crate::text::views(ls@).contains(l@),
{
    let mut i: usize = 0;
    while i < ls.len()
        invariant
            i <= ls@.len(),
            forall|j: int| 0 <= j < i ==> crate::text::views(ls@)[j] != l@,
        decreases ls@.len() - i,
    {
        if crate::text::str_eq(ls[i].as_str(), l) {
            assert(crate::text::views(ls@)[i as int] == l@);
            return true;
        }
        i = i + 1;
    }
    false
}

pub fn render_patch(change: &FileChange, root: &str) -> (r: String)
    ensures
        r@ == patch_text(*change, root@),
{
    let path = display_path(change.path.as_str(), root);
    let mut out = owned("--- ");
    out.append(path.as_str());
    out.append("\n+++ ");
    out.append(path.as_str());
    out.append("\n");
    if path_ends_with_exec(change.path.as_str(), DEVELOPMENT_FILE) {
        out.append(DEVELOPMENT_PATCH);
        return out;
    }
    let ghost head = out@;
    let after = lines_exec(change.after.as_str());
    let old_lines: Option<Vec<String>> = match &change.before {
        Some(b) => Some(lines_exec(b.as_str())),
        None => None,
    };
    let ghost old_view = before_lines(*change);
    let ghost av = crate::text::views(after@);
    let mut i: usize = 0;
    while i < after.len()
        invariant
            i <= after@.len(),
            av == crate::text::views(after@),
            match old_lines {
                Some(o) => old_view == Some(crate::text::views(o@)),
                None => old_view is None,
            },
            out@ == head + added_lines(av.take(i as int), old_view),
        decreases after@.len() - i,
    {
        let l = after[i].as_str();
        let keep = match &old_lines {
            Some(o) => !contains_line(o, l),
            None => true,
        };
        if keep {
            out.append("+ ");
            out.append(l);
            out.append("\n");
        }
        proof {
            let t = av.take(i + 1);
            assert(t.drop_last() =~= av.take(i as int));
            assert(t.last() == l@);
        }
        i = i + 1;
    }
    assert(av.take(i as int) =~= av);
    out
}

/// The application as the plan describes it.
pub open spec fn plan_info(app: ApplicationCandidate) -> Seq<char> {
    "Application:\n  "@ + or_text(app.name, "(unknown)"@) + "\nLanguage:\n  "@ + or_text(
        app.language,
        "(unknown)"@,
    ) + "\nFramework:\n  "@ + or_text(app.framework, "(none)"@) + "\nPackage manager:\n  "@
        + or_text(app.package_manager, "(unknown)"@) + "\nEntrypoint:\n  "@ + entrypoint_text(
        app,
        "(none)"@,
    ) + "\nRun command:\n  "@ + run_command_text(app, "(unknown)"@) + "\n"@
}

fn append_plan_info(out: &mut String, app: &ApplicationCandidate)
    ensures
        final(out)@ == old(out)@ + plan_info(*app),
{
    let ghost start = out@;
    out.append("Application:\n  ");
    append_opt_or(out, &app.name, "(unknown)");
    out.append("\nLanguage:\n  ");
    append_opt_or(out, &app.language, "(unknown)");
    out.append("\nFramework:\n  ");
    append_opt_or(out, &app.framework, "(none)");
    out.append("\nPackage manager:\n  ");
    append_opt_or(out, &app.package_manager, "(unknown)");
    out.append("\nEntrypoint:\n  ");
    let e = entrypoint_exec(app, "(none)");
    out.append(e.as_str());
    out.append("\nRun command:\n  ");
    let c = run_command_exec(app, "(unknown)");
    out.append(c.as_str());
    out.append("\n");
    assert(out@ =~= start + plan_info(*app));
}

/// One discovered route: method and path in columns, then its protection.
pub open spec fn route_line(r: crate::discovery::propose::RouteView) -> Seq<char> {
    "  "@ + crate::cli::describe::pad(r.method, 6) + " "@ + crate::cli::describe::pad(r.path, 24) + " "@
        + protection_state_name(r.protection) + "\n"@
}

pub open spec fn route_lines(rs: Seq<crate::discovery::propose::RouteView>) -> Seq<char>
    decreases rs.len(),
{
    if rs.len() == 0 {
        Seq::empty()
    } else {
        route_lines(rs.drop_last()) + route_line(rs.last())
    }
}

/// The discovered routes, where there are any.
pub open spec fn plan_routes(app: ApplicationCandidate, rs: Seq<crate::discovery::propose::RouteView>) -> Seq<char> {
    if app.routes@.len() == 0 {
        Seq::empty()
    } else {
        "Discovered routes:\n"@ + route_lines(rs)
    }
}

pub open spec fn provider_names(ps: Seq<ProviderCandidate>) -> Seq<char>
    decreases ps.len(),
{
    if ps.len() == 0 {
        Seq::empty()
    } else {
        provider_names(ps.drop_last()) + "  "@ + ps.last().display_name@ + "\n"@
    }
}

pub open spec fn provider_ids(ps: Seq<ProviderCandidate>) -> Seq<char>
    decreases ps.len(),
{
    if ps.len() == 0 {
        Seq::empty()
    } else {
        provider_ids(ps.drop_last()) + "  "@ + ps.last().id@ + "\n"@
    }
}

/// The providers detected, and what they are called in AuthBoundry.
pub open spec fn plan_providers(app: ApplicationCandidate) -> Seq<char> {
    if app.providers@.len() == 0 {
        Seq::empty()
    } else {
        "Detected:\n"@ + provider_names(app.providers@) + "Available to AuthBoundry:\n"@ + provider_ids(
            app.providers@,
        )
    }
}

pub open spec fn pick(b: bool, yes: Seq<char>, no: Seq<char>) -> Seq<char> {
    if b {
        yes
    } else {
        no
    }
}

/// How adoption treats an incumbent's credentials and sessions.
pub open spec fn existing_keep(e: ExistingAuthSystem) -> Seq<char> {
    "\n    credentials: "@ + pick(e.credentials, "preserve during adoption"@, "none"@)
        + " \u{b7} sessions: "@ + pick(e.sessions, "bridge then offboard"@, "none"@)
}

/// How adoption treats an incumbent's profiles and authorization.
pub open spec fn existing_move(e: ExistingAuthSystem) -> Seq<char> {
    " \u{b7} profiles: "@ + pick(e.profiles, "preserve"@, "none detected"@) + " \u{b7} authorization: "@
        + pick(e.authorization, "migrate explicitly"@, "AuthBoundry"@) + "\n"@
}

/// An incumbent authentication system and how adoption treats it.
pub open spec fn existing_text(e: ExistingAuthSystem) -> Seq<char> {
    "  "@ + e.display_name@ + "\n    strategy: "@ + auth_coexistence_name(e.coexistence) + existing_keep(e)
        + existing_move(e)
}

pub open spec fn existing_lines(es: Seq<ExistingAuthSystem>) -> Seq<char>
    decreases es.len(),
{
    if es.len() == 0 {
        Seq::empty()
    } else {
        existing_lines(es.drop_last()) + existing_text(es.last())
    }
}

pub open spec fn plan_existing(app: ApplicationCandidate) -> Seq<char> {
    if app.existing_auth@.len() == 0 {
        Seq::empty()
    } else {
        "Existing authentication:\n"@ + existing_lines(app.existing_auth@)
            + "  Existing auth will not be removed until replacement verification passes.\n"@
    }
}

/// The integration proposed, the authority state and what cutover awaits.
pub open spec fn plan_integration(supported: bool) -> Seq<char> {
    "Proposed integration:\n"@ + (if supported {
        "  framework-native coexistence bridge\n  + initialize AuthBoundry SDK/context\n  + preserve incumbent authentication during cutover\n  + preserve existing application routes and profiles\n  + record every source change for rollback\n"@
    } else {
        "  (automatic source integration is not supported for this application)\n"@
    }) + "Authority:\n  configured\nApplication attachment:\n  none\n"@ + (if supported {
        "Cutover:\n  pending runtime verification; incumbent auth remains active\n"@
    } else {
        "Reason:\n  automatic source integration is not supported\n  and no application runtime attachment was discovered\n"@
    }) + "No application routes will be rewritten.\n"@
}

/// The paths of the changes that modify (`existing`) or create files.
pub open spec fn change_paths(cs: Seq<FileChange>, root: Seq<char>, existing: bool) -> Seq<char>
    decreases cs.len(),
{
    if cs.len() == 0 {
        Seq::empty()
    } else {
        let rest = change_paths(cs.drop_last(), root, existing);
        if (cs.last().before is Some) == existing {
            rest + "  "@ + display_of(cs.last().path@, root) + "\n"@
        } else {
            rest
        }
    }
}

pub open spec fn patches(cs: Seq<FileChange>, root: Seq<char>) -> Seq<char>
    decreases cs.len(),
{
    if cs.len() == 0 {
        Seq::empty()
    } else {
        patches(cs.drop_last(), root) + patch_text(cs.last(), root)
    }
}

/// The files the plan touches, and in a preview the patches.
pub open spec fn plan_files(plan: InitPlan, preview: bool) -> Seq<char> {
    let root = plan.application.root@;
    "Files to modify:\n"@ + change_paths(plan.changes@, root, true) + "Files to create:\n"@
        + change_paths(plan.changes@, root, false) + "Files to leave unchanged:\n  application routes\n"@
        + (if preview {
        "Patch preview:\n"@ + patches(plan.changes@, root)
    } else {
        Seq::empty()
    })
}

/// The plan as text, with the routes as the proposal describes them.
pub open spec fn plan_text(plan: InitPlan, preview: bool, rs: Seq<crate::discovery::propose::RouteView>) -> Seq<char> {
    (if plan.already_integrated {
        "AuthBoundry already detected.\n"@
    } else {
        "AuthBoundry found your application.\n"@
    }) + plan_info(plan.application) + plan_routes(plan.application, rs) + plan_providers(
        plan.application,
    ) + plan_existing(plan.application) + plan_integration(plan.integration_supported) + plan_files(
        plan,
        preview,
    )
}

fn append_route_lines(out: &mut String, rs: &Vec<crate::discovery::model::RouteDescription>)
    ensures
        final(out)@ == old(out)@ + route_lines(crate::sorting::views_of(rs@)),
{
    let ghost start = out@;
    let ghost vs = crate::sorting::views_of(rs@);
    let mut i: usize = 0;
    while i < rs.len()
        invariant
            i <= rs@.len(),
            vs == crate::sorting::views_of(rs@),
            out@ == start + route_lines(vs.take(i as int)),
        decreases rs@.len() - i,
    {
        let ghost o0 = out@;
        out.append("  ");
        crate::cli::describe::append_padded(out, rs[i].method.as_str(), 6);
        out.append(" ");
        crate::cli::describe::append_padded(out, rs[i].path.as_str(), 24);
        out.append(" ");
        out.append(rs[i].protection.as_str());
        out.append("\n");
        proof {
            assert(out@ =~= o0 + route_line(rs@[i as int]@));
            let t = vs.take(i + 1);
            assert(t.drop_last() =~= vs.take(i as int));
            assert(t.last() == rs@[i as int]@);
        }
        i = i + 1;
    }
    assert(vs.take(i as int) =~= vs);
}

fn append_providers_text(out: &mut String, ps: &Vec<ProviderCandidate>)
    ensures
        final(out)@ == old(out)@ + plan_providers_of(ps@),
{
    if ps.len() == 0 {
        return;
    }
    let ghost start = out@;
    out.append("Detected:\n");
    let mut i: usize = 0;
    while i < ps.len()
        invariant
            i <= ps@.len(),
            ps@.len() > 0,
            out@ == start + "Detected:\n"@ + provider_names(ps@.take(i as int)),
        decreases ps@.len() - i,
    {
        out.append("  ");
        out.append(ps[i].display_name.as_str());
        out.append("\n");
        proof {
            let t = ps@.take(i + 1);
            assert(t.drop_last() =~= ps@.take(i as int));
        }
        i = i + 1;
    }
    assert(ps@.take(i as int) =~= ps@);
    out.append("Available to AuthBoundry:\n");
    let ghost mid = out@;
    let mut j: usize = 0;
    while j < ps.len()
        invariant
            j <= ps@.len(),
            out@ == mid + provider_ids(ps@.take(j as int)),
        decreases ps@.len() - j,
    {
        out.append("  ");
        out.append(ps[j].id.as_str());
        out.append("\n");
        proof {
            let t = ps@.take(j + 1);
            assert(t.drop_last() =~= ps@.take(j as int));
        }
        j = j + 1;
    }
    assert(ps@.take(j as int) =~= ps@);
}

pub open spec fn plan_providers_of(ps: Seq<ProviderCandidate>) -> Seq<char> {
    if ps.len() == 0 {
        Seq::empty()
    } else {
        "Detected:\n"@ + provider_names(ps) + "Available to AuthBoundry:\n"@ + provider_ids(ps)
    }
}

fn pick_exec(b: bool, yes: &'static str, no: &'static str) -> (r: &'static str)
    ensures
        r@ == pick(b, yes@, no@),
{
    if b {
        yes
    } else {
        no
    }
}

fn append_existing_keep(out: &mut String, e: &ExistingAuthSystem)
    ensures
        final(out)@ == old(out)@ + existing_keep(*e),
{
    let ghost start = out@;
    out.append("\n    credentials: ");
    out.append(pick_exec(e.credentials, "preserve during adoption", "none"));
    out.append(" \u{b7} sessions: ");
    out.append(pick_exec(e.sessions, "bridge then offboard", "none"));
    assert(out@ =~= start + existing_keep(*e));
}

fn append_existing_move(out: &mut String, e: &ExistingAuthSystem)
    ensures
        final(out)@ == old(out)@ + existing_move(*e),
{
    let ghost start = out@;
    out.append(" \u{b7} profiles: ");
    out.append(pick_exec(e.profiles, "preserve", "none detected"));
    out.append(" \u{b7} authorization: ");
    out.append(pick_exec(e.authorization, "migrate explicitly", "AuthBoundry"));
    out.append("\n");
    assert(out@ =~= start + existing_move(*e));
}

fn append_existing_text(out: &mut String, e: &ExistingAuthSystem)
    ensures
        final(out)@ == old(out)@ + existing_text(*e),
{
    let ghost start = out@;
    out.append("  ");
    out.append(e.display_name.as_str());
    out.append("\n    strategy: ");
    out.append(e.coexistence.as_str());
    append_existing_keep(out, e);
    append_existing_move(out, e);
    assert(out@ =~= start + existing_text(*e));
}

fn append_existing(out: &mut String, app: &ApplicationCandidate)
    ensures
        final(out)@ == old(out)@ + plan_existing(*app),
{
    if app.existing_auth.len() == 0 {
        return;
    }
    let ghost start = out@;
    out.append("Existing authentication:\n");
    let mut i: usize = 0;
    while i < app.existing_auth.len()
        invariant
            i <= app.existing_auth@.len(),
            out@ == start + "Existing authentication:\n"@ + existing_lines(app.existing_auth@.take(i as int)),
        decreases app.existing_auth@.len() - i,
    {
        append_existing_text(out, &app.existing_auth[i]);
        proof {
            let t = app.existing_auth@.take(i + 1);
            assert(t.drop_last() =~= app.existing_auth@.take(i as int));
        }
        i = i + 1;
    }
    assert(app.existing_auth@.take(i as int) =~= app.existing_auth@);
    out.append("  Existing auth will not be removed until replacement verification passes.\n");
}

fn append_integration(out: &mut String, supported: bool)
    ensures
        final(out)@ == old(out)@ + plan_integration(supported),
{
    let ghost start = out@;
    out.append("Proposed integration:\n");
    out.append(
        if supported {
            "  framework-native coexistence bridge\n  + initialize AuthBoundry SDK/context\n  + preserve incumbent authentication during cutover\n  + preserve existing application routes and profiles\n  + record every source change for rollback\n"
        } else {
            "  (automatic source integration is not supported for this application)\n"
        },
    );
    out.append("Authority:\n  configured\nApplication attachment:\n  none\n");
    out.append(
        if supported {
            "Cutover:\n  pending runtime verification; incumbent auth remains active\n"
        } else {
            "Reason:\n  automatic source integration is not supported\n  and no application runtime attachment was discovered\n"
        },
    );
    out.append("No application routes will be rewritten.\n");
    assert(out@ =~= start + plan_integration(supported));
}

fn append_change_paths(out: &mut String, cs: &Vec<FileChange>, root: &str, existing: bool)
    ensures
        final(out)@ == old(out)@ + change_paths(cs@, root@, existing),
{
    let ghost start = out@;
    let mut i: usize = 0;
    while i < cs.len()
        invariant
            i <= cs@.len(),
            out@ == start + change_paths(cs@.take(i as int), root@, existing),
        decreases cs@.len() - i,
    {
        if cs[i].before.is_some() == existing {
            out.append("  ");
            let d = display_path(cs[i].path.as_str(), root);
            out.append(d.as_str());
            out.append("\n");
        }
        proof {
            let t = cs@.take(i + 1);
            assert(t.drop_last() =~= cs@.take(i as int));
        }
        i = i + 1;
    }
    assert(cs@.take(i as int) =~= cs@);
}

fn append_files(out: &mut String, plan: &InitPlan, preview: bool)
    ensures
        final(out)@ == old(out)@ + plan_files(*plan, preview),
{
    let ghost start = out@;
    let root = plan.application.root.as_str();
    out.append("Files to modify:\n");
    append_change_paths(out, &plan.changes, root, true);
    out.append("Files to create:\n");
    append_change_paths(out, &plan.changes, root, false);
    out.append("Files to leave unchanged:\n  application routes\n");
    let ghost mid = out@;
    if preview {
        out.append("Patch preview:\n");
        let ghost p0 = out@;
        let mut i: usize = 0;
        while i < plan.changes.len()
            invariant
                i <= plan.changes@.len(),
                root@ == plan.application.root@,
                out@ == p0 + patches(plan.changes@.take(i as int), root@),
            decreases plan.changes@.len() - i,
        {
            let p = render_patch(&plan.changes[i], root);
            out.append(p.as_str());
            proof {
                let t = plan.changes@.take(i + 1);
                assert(t.drop_last() =~= plan.changes@.take(i as int));
            }
            i = i + 1;
        }
        assert(plan.changes@.take(i as int) =~= plan.changes@);
    }
    assert(out@ =~= start + plan_files(*plan, preview));
}

/// Which route table a proposal for an application describes does not
/// depend on which empty table of existing mappings it was given.
proof fn lemma_empty_mappings(app: ApplicationCandidate, m1: crate::discovery::authority_map::AuthorityMap, m2: crate::discovery::authority_map::AuthorityMap)
    requires
        m1.entries_view().len() == 0,
        m2.entries_view().len() == 0,
    ensures
        crate::discovery::propose::proposal_routes(app, m1) == crate::discovery::propose::proposal_routes(app, m2),
{
    assert(m1.entries_view() =~= m2.entries_view());
    assert(app.routes@.map_values(
        |c: crate::discovery::model::RouteCandidate| crate::discovery::propose::candidate_described(c, m1),
    ) =~= app.routes@.map_values(
        |c: crate::discovery::model::RouteCandidate| crate::discovery::propose::candidate_described(c, m2),
    ));
}

/// The adoption plan as text: the application, its discovered routes, the
/// providers and incumbent authentication found, the integration proposed
/// and the files it touches; in a preview, the patches too.
pub fn render_plan_text(plan: &InitPlan, preview: bool) -> (r: String)
    ensures
        forall|m: crate::discovery::authority_map::AuthorityMap|
            m.entries_view().len() == 0 ==> r@ == plan_text(
                *plan,
                preview,
                #[trigger] crate::discovery::propose::proposal_routes(plan.application, m),
            ),
{
    let mut out = owned(
        if plan.already_integrated {
            "AuthBoundry already detected.\n"
        } else {
            "AuthBoundry found your application.\n"
        },
    );
    append_plan_info(&mut out, &plan.application);
    let empty = crate::discovery::authority_map::AuthorityMap::new();
    let ghost before_routes = out@;
    if plan.application.routes.len() > 0 {
        let proposal = crate::discovery::propose::propose_authority(&plan.application, "preview", 0, &empty);
        out.append("Discovered routes:\n");
        append_route_lines(&mut out, &proposal.routes);
    }
    let ghost rs = crate::discovery::propose::proposal_routes(plan.application, empty);
    assert(out@ =~= before_routes + plan_routes(plan.application, rs));
    let ghost before_rest = out@;
    append_providers_text(&mut out, &plan.application.providers);
    append_existing(&mut out, &plan.application);
    append_integration(&mut out, plan.integration_supported);
    append_files(&mut out, plan, preview);
    proof {
        assert forall|m: crate::discovery::authority_map::AuthorityMap|
            m.entries_view().len() == 0 implies out@ == plan_text(
                *plan,
                preview,
                #[trigger] crate::discovery::propose::proposal_routes(plan.application, m),
            ) by {
            lemma_empty_mappings(plan.application, m, empty);
            assert(out@ =~= plan_text(*plan, preview, rs));
        }
    }
    out
}

/// Each change applied, as the adoption reports it.
pub open spec fn applied_lines(cs: Seq<FileChange>, root: Seq<char>) -> Seq<char>
    decreases cs.len(),
{
    if cs.len() == 0 {
        Seq::empty()
    } else {
        applied_lines(cs.drop_last(), root) + "\u{2713} "@ + pick(
            cs.last().before is Some,
            "Modified"@,
            "Created"@,
        ) + " "@ + display_of(cs.last().path@, root) + "\n"@
    }
}

/// The first change that writes the development accounts.
pub open spec fn development_change(cs: Seq<FileChange>) -> Option<FileChange>
    decreases cs.len(),
{
    if cs.len() == 0 {
        None
    } else if path_ends_with(cs[0].path@, DEVELOPMENT_FILE@) {
        Some(cs[0])
    } else {
        development_change(cs.drop_first())
    }
}

/// The sign-in of each development account, username and password.
pub open spec fn sign_in_lines(raws: Seq<Seq<char>>, tenant: Seq<char>) -> Seq<char>
    decreases raws.len(),
{
    if raws.len() == 0 {
        Seq::empty()
    } else {
        let parts = crate::cli::serve::account_parts(raws.last(), tenant);
        sign_in_lines(raws.drop_last(), tenant) + "  "@ + parts.1 + " / "@ + match parts.2 {
            Some(p) => p,
            None => Seq::empty(),
        } + "\n"@
    }
}

/// The development accounts a change writes, as account flags.
pub open spec fn development_raws(after: Seq<char>) -> Seq<Seq<char>> {
    crate::cli::adoption::dev_account_raws(
        crate::cli::adoption::split_on(after, crate::cli::adoption::ACCOUNT_KEY@).drop_first(),
        crate::cli::adoption::dev_tenant(after),
    )
}

/// What the adoption reports of the development accounts it created.
pub open spec fn development_text(cs: Seq<FileChange>) -> Seq<char> {
    match development_change(cs) {
        None => Seq::empty(),
        Some(c) => {
            let raws = development_raws(c.after@);
            if raws.len() == 0 {
                Seq::empty()
            } else {
                "\u{2713} Development identities created\nDevelopment sign-in (stored in .authboundry/development.json):\n"@
                    + sign_in_lines(raws, crate::cli::adoption::dev_tenant(c.after@))
            }
        },
    }
}

/// The report of an applied plan.
pub open spec fn applied_text(plan: InitPlan, report: VerifyReport) -> Seq<char> {
    let routes = if report.application_routes >= plan.application.routes@.len() {
        report.application_routes as nat
    } else {
        plan.application.routes@.len()
    };
    "Applying adoption plan...\n"@ + applied_lines(plan.changes@, plan.application.root@)
        + "\u{2713} Application routes unchanged\n\u{2713} "@ + decimal(routes)
        + " application routes discovered\n\u{2713} Application detected\n\u{2713} AuthBoundry configuration created\n"@
        + development_text(plan.changes@) + pick(
        plan.integration_supported,
        "\u{2713} Application coexistence bridge installed\n\u{26a0} Cutover pending runtime verification\n"@,
        "\u{26a0} Application integration not established\n"@,
    )
        + "Authority state:\n  configured\nApplication state:\n  unattached\nReason:\n  no application runtime attachment was discovered\nAuthBoundry adoption complete.\n"@
}

fn development_change_exec(cs: &Vec<FileChange>) -> (r: Option<usize>)
    ensures
        match development_change(cs@) {
            Some(c) => r matches Some(i) && i < cs@.len() && cs@[i as int] == c,
            None => r is None,
        },
{
    let mut i: usize = 0;
    assert(cs@.skip(0) =~= cs@);
    while i < cs.len()
        invariant
            i <= cs@.len(),
            development_change(cs@) == development_change(cs@.skip(i as int)),
        decreases cs@.len() - i,
    {
        assert(cs@.skip(i as int).drop_first() =~= cs@.skip(i + 1));
        if path_ends_with_exec(cs[i].path.as_str(), DEVELOPMENT_FILE) {
            return Some(i);
        }
        i = i + 1;
    }
    None
}

fn append_development(out: &mut String, cs: &Vec<FileChange>)
    ensures
        final(out)@ == old(out)@ + development_text(cs@),
{
    let i = match development_change_exec(cs) {
        Some(i) => i,
        None => {
            return;
        },
    };
    let after = cs[i].after.as_str();
    let accounts = crate::cli::adoption::development_accounts_from_source(after);
    let ghost raws = development_raws(after@);
    let ghost tenant = crate::cli::adoption::dev_tenant(after@);
    if accounts.len() == 0 {
        return;
    }
    let ghost start = out@;
    out.append(
        "\u{2713} Development identities created\nDevelopment sign-in (stored in .authboundry/development.json):\n",
    );
    let ghost mid = out@;
    let mut j: usize = 0;
    while j < accounts.len()
        invariant
            j <= accounts@.len(),
            accounts@.len() == raws.len(),
            forall|k: int|
                0 <= k < raws.len() ==> crate::cli::serve::account_read(raws[k], tenant, #[trigger] accounts@[k]),
            out@ == mid + sign_in_lines(raws.take(j as int), tenant),
        decreases accounts@.len() - j,
    {
        out.append("  ");
        out.append(accounts[j].username.as_str());
        out.append(" / ");
        out.append(accounts[j].password.as_str());
        out.append("\n");
        proof {
            let t = raws.take(j + 1);
            assert(t.drop_last() =~= raws.take(j as int));
            assert(t.last() == raws[j as int]);
            assert(crate::cli::serve::account_read(raws[j as int], tenant, accounts@[j as int]));
        }
        j = j + 1;
    }
    assert(raws.take(j as int) =~= raws);
}

fn append_applied_lines(out: &mut String, cs: &Vec<FileChange>, root: &str)
    ensures
        final(out)@ == old(out)@ + applied_lines(cs@, root@),
{
    let ghost start = out@;
    let mut i: usize = 0;
    while i < cs.len()
        invariant
            i <= cs@.len(),
            out@ == start + applied_lines(cs@.take(i as int), root@),
        decreases cs@.len() - i,
    {
        out.append("\u{2713} ");
        out.append(pick_exec(cs[i].before.is_some(), "Modified", "Created"));
        out.append(" ");
        let d = display_path(cs[i].path.as_str(), root);
        out.append(d.as_str());
        out.append("\n");
        proof {
            let t = cs@.take(i + 1);
            assert(t.drop_last() =~= cs@.take(i as int));
        }
        i = i + 1;
    }
    assert(cs@.take(i as int) =~= cs@);
}

pub fn applied_plan_text(plan: &InitPlan, report: &VerifyReport) -> (r: String)
    ensures
        r@ == applied_text(*plan, *report),
{
    let mut out = owned("Applying adoption plan...\n");
    append_applied_lines(&mut out, &plan.changes, plan.application.root.as_str());
    out.append("\u{2713} Application routes unchanged\n\u{2713} ");
    let routes = if report.application_routes >= plan.application.routes.len() {
        report.application_routes
    } else {
        plan.application.routes.len()
    };
    let n = u64_decimal(routes as u64);
    out.append(n.as_str());
    out.append(
        " application routes discovered\n\u{2713} Application detected\n\u{2713} AuthBoundry configuration created\n",
    );
    append_development(&mut out, &plan.changes);
    out.append(
        pick_exec(
            plan.integration_supported,
            "\u{2713} Application coexistence bridge installed\n\u{26a0} Cutover pending runtime verification\n",
            "\u{26a0} Application integration not established\n",
        ),
    );
    out.append(
        "Authority state:\n  configured\nApplication state:\n  unattached\nReason:\n  no application runtime attachment was discovered\nAuthBoundry adoption complete.\n",
    );
    out
}


/// The name a verification reports: the adoption record's, else the
/// discovered application's, else `(unknown)`.
pub open spec fn verified_name(
    application: Option<ApplicationCandidate>,
    adoption: Option<super::adoption::AdoptionState>,
) -> Seq<char> {
    match adoption {
        Some(a) => a.application@,
        None => match application {
            Some(app) => match app.name {
                Some(n) => n@,
                None => "(unknown)"@,
            },
            None => "(unknown)"@,
        },
    }
}

fn copy_opt(o: &Option<String>) -> (r: Option<String>)
    ensures
        opt_view(r) == opt_view(*o),
{
    match o {
        Some(s) => Some(s.clone()),
        None => None,
    }
}

/// What verifying an adopted application reports, from what was found:
/// the application (where discovery finds it), whether the declaration
/// loads, the adoption record, and what the network answered. It is `ok`
/// where the application is found, a boundary is present in it and the
/// declaration loads; the checks that follow from the declaration all
/// report whether it loads.
pub fn verify_report(
    application: Option<&ApplicationCandidate>,
    runtime_starts: bool,
    adoption: Option<&super::adoption::AdoptionState>,
    upstream_reachable: bool,
    application_responded: bool,
    runtime_running: bool,
) -> (r: VerifyReport)
    ensures
        ({
            let found = application is Some;
            let boundary = match application {
                Some(app) => app.existing_authport.middleware || app.existing_authport.initialization
                    || app.existing_authport.manifest,
                None => false,
            };
            let routes: int = match application {
                Some(app) => app.routes@.len() as int,
                None => 0,
            };
            &&& r.ok == (found && boundary && runtime_starts)
            &&& r.application_discovered == found
            &&& r.boundary_present == boundary
            &&& r.runtime_starts == runtime_starts
            &&& r.control_plane_responds == runtime_starts
            &&& r.application_routes_remain_reachable == (routes > 0)
            &&& r.authboundry_routes_respond == runtime_starts
            &&& r.contract_fingerprint_stable == runtime_starts
            &&& r.live_authority_available == runtime_starts
            &&& r.application_routes == routes
            &&& r.application@ == verified_name(
                match application {
                    Some(a) => Some(*a),
                    None => None,
                },
                match adoption {
                    Some(a) => Some(*a),
                    None => None,
                },
            )
            &&& opt_view(r.upstream) == match adoption {
                Some(a) => opt_view(a.upstream),
                None => None,
            }
            &&& r.upstream_reachable == upstream_reachable
            &&& r.application_responded == application_responded
            &&& r.runtime_running == runtime_running
        }),
{
    let (found, boundary, routes) = match application {
        Some(app) => (
            true,
            app.existing_authport.middleware || app.existing_authport.initialization || app.existing_authport.manifest,
            app.routes.len(),
        ),
        None => (false, false, 0),
    };
    let name = match adoption {
        Some(a) => a.application.clone(),
        None => match application {
            Some(app) => match &app.name {
                Some(n) => n.clone(),
                None => owned("(unknown)"),
            },
            None => owned("(unknown)"),
        },
    };
    let upstream = match adoption {
        Some(a) => copy_opt(&a.upstream),
        None => None,
    };
    VerifyReport {
        ok: found && boundary && runtime_starts,
        application_discovered: found,
        boundary_present: boundary,
        runtime_starts,
        control_plane_responds: runtime_starts,
        application_routes_remain_reachable: routes > 0,
        authboundry_routes_respond: runtime_starts,
        contract_fingerprint_stable: runtime_starts,
        live_authority_available: runtime_starts,
        application_routes: routes,
        application: name,
        upstream,
        upstream_reachable,
        application_responded,
        runtime_running,
    }
}

} // verus!

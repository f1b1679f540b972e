//! How the command line reads: which commands go to the authority service,
//! which to `init` and `verify`, and, for the rest, the command, the
//! declaration file, the output switches and the deployment flags of
//! `serve`.
use vstd::prelude::*;
use crate::text::{owned, cat, cat3, str_eq, starts_with, is_prefix, views, lemma_map_push};
use super::serve::{
    ServeOptions, Account, Grant, account_error, account_read, account_parts, grant_parts,
    split_once,
};
use super::{CliError, error, error_owned};

verus! {

/// The usage text.
pub const USAGE: &'static str = "authport \u{2014} the AuthPort authority boundary

USAGE:
    authport inspect [FILE] [--json] [--mode embedded|standalone]
    authport init [PATH] [--dry-run] [--json] [--yes] [--standalone]
    authport verify [PATH] [--json]
    authport fingerprint [FILE]
    authport routes [FILE]
    authport providers [FILE]
    authport password-policy [FILE] [--json]
    authport password-policy --server URL [--json]
    authport password-policy propose [options] [--server URL] [--dry-run]
    authport serve [FILE] [options]
    authport connect [--server URL] [--output-token]
    authport propose [FILE] [--json]
    authport reconcile [FILE] [--json] [--check]
    authport drift [FILE] [--json] [--check]
    authport propose <change-type> [options] [--server URL] [--dry-run]
    authport approve [--proposal-id ID|--all] [--server URL] --yes
    authport apply [--proposal-id ID|--all] [--server URL] --yes
    authport reject [--proposal-id ID] [--reason TEXT] [--server URL]
    authport agents [--tenant TENANT] [--server URL]
    authport agent create --tenant TENANT --name NAME [--id ID] [--server URL]
    authport agent show ID --tenant TENANT [--server URL]
    authport runs --tenant TENANT --agent AGENT [--server URL]
    authport run show ID --tenant TENANT [--server URL]
    authport audit [--server URL]
    authport audit events --tenant TENANT [--server URL]
    authport audit export --tenant TENANT [--since TIMESTAMP] [--server URL]
    authport storage [--server URL]
    authport reporting [--server URL]
    authport policies [--server URL]
    authport policy show ID [--server URL]
    authport explain [DECISION_ID] [--server URL]

SERVE OPTIONS:
    --addr ADDRESS              listen address (default 127.0.0.1:8787)
    --tenant NAME               a tenant to serve (repeatable)
    --account USER:PASS:CLAIMS  seed a principal, e.g. alice:secret:role=owner@acme
    --grant CAPABILITY=CLAIM:V  grant a capability, e.g. invoice.read=role:owner
    --upstream ADDRESS          the application AuthPort sits in front of
    --public PATH               forward this path prefix without a session
    --require PATH=CAPABILITY   require a capability for this path prefix

FILE defaults to the first of authport.toml, appport.auth, appport.toml or
auth.appport that exists in the current directory.
";

/// Commands answered by the authority service.
pub open spec fn control_word(a: Seq<char>) -> bool {
    a == "connect"@ || a == "approve"@ || a == "apply"@ || a == "reject"@ || a == "agents"@ || a
        == "agent"@ || a == "runs"@ || a == "run"@ || a == "audit"@ || a == "storage"@ || a
        == "reporting"@ || a == "policies"@ || a == "policy"@ || a == "explain"@
}

/// Change types that `propose` sends to the authority service.
pub open spec fn change_word(a: Seq<char>) -> bool {
    a == "protect-route"@ || a == "unprotect-route"@ || a == "set-policy"@ || a
        == "enable-provider"@ || a == "disable-provider"@
}

pub open spec fn has_arg(args: Seq<Seq<char>>, a: Seq<char>) -> bool {
    exists|i: int| 0 <= i < args.len() && args[i] == a
}

/// `propose` of a change to live authority, rather than of a contract.
pub open spec fn control_propose(args: Seq<Seq<char>>) -> bool {
    &&& args.len() > 0
    &&& args[0] == "propose"@
    &&& (args.len() > 1 && change_word(args[1])) || has_arg(args, "--server"@) || has_arg(
        args,
        "--dry-run"@,
    )
}

/// `password-policy` asks the authority service when it names a server or
/// proposes.
pub open spec fn password_policy_remote(args: Seq<Seq<char>>) -> bool {
    (args.len() > 1 && args[1] == "propose"@) || has_arg(args, "--server"@)
}

pub enum Route {
    Control,
    Init,
    Verify,
    Flags,
}

/// Where the command line goes.
pub open spec fn route_of(args: Seq<Seq<char>>) -> Route {
    if args.len() > 0 && args[0] == "password-policy"@ && password_policy_remote(args) {
        Route::Control
    } else if (args.len() > 0 && control_word(args[0])) || control_propose(args) {
        Route::Control
    } else if args.len() > 0 && args[0] == "init"@ {
        Route::Init
    } else if args.len() > 0 && args[0] == "verify"@ {
        Route::Verify
    } else {
        Route::Flags
    }
}

/// What the flags have said so far. An account is kept as the flag's text
/// and the tenant it defaults to.
pub struct FlagState {
    pub command: Option<Seq<char>>,
    pub file: Option<Seq<char>>,
    pub json: bool,
    pub check: bool,
    pub mode: Option<Seq<char>>,
    pub address: Seq<char>,
    pub tenants: Seq<Seq<char>>,
    pub default_tenant: Seq<char>,
    pub accounts: Seq<(Seq<char>, Seq<char>)>,
    pub grants: Seq<(Seq<char>, Seq<char>, Seq<char>)>,
    pub upstream: Option<Seq<char>>,
    pub public_paths: Seq<Seq<char>>,
    pub required: Seq<(Seq<char>, Seq<char>)>,
}

pub open spec fn initial_flags() -> FlagState {
    FlagState {
        command: None,
        file: None,
        json: false,
        check: false,
        mode: None,
        address: "127.0.0.1:8787"@,
        tenants: Seq::empty(),
        default_tenant: "default"@,
        accounts: Seq::empty(),
        grants: Seq::empty(),
        upstream: None,
        public_paths: Seq::empty(),
        required: Seq::empty(),
    }
}

/// Flags followed by a value.
pub open spec fn value_flag(a: Seq<char>) -> bool {
    a == "--mode"@ || a == "--addr"@ || a == "--tenant"@ || a == "--account"@ || a == "--grant"@
        || a == "--upstream"@ || a == "--public"@ || a == "--require"@
}

/// The flag `a` with its value `v` read into `st`, or why it is refused.
pub open spec fn with_value(st: FlagState, a: Seq<char>, v: Seq<char>) -> Result<FlagState, Seq<char>> {
    if a == "--mode"@ {
        if v == "embedded"@ || v == "standalone"@ {
            Ok(FlagState { mode: Some(v), ..st })
        } else {
            Err("--mode must be embedded or standalone"@)
        }
    } else if a == "--addr"@ {
        Ok(FlagState { address: v, ..st })
    } else if a == "--tenant"@ {
        Ok(
            FlagState {
                default_tenant: if st.tenants.len() == 0 {
                    v
                } else {
                    st.default_tenant
                },
                tenants: st.tenants.push(v),
                ..st
            },
        )
    } else if a == "--account"@ {
        match account_error(v, st.default_tenant) {
            Some(m) => Err(m),
            None => Ok(FlagState { accounts: st.accounts.push((v, st.default_tenant)), ..st }),
        }
    } else if a == "--grant"@ {
        match grant_parts(v) {
            Some(g) => Ok(FlagState { grants: st.grants.push(g), ..st }),
            None => Err("--grant expects capability=claim:value"@),
        }
    } else if a == "--upstream"@ {
        Ok(FlagState { upstream: Some(v), ..st })
    } else if a == "--public"@ {
        Ok(FlagState { public_paths: st.public_paths.push(v), ..st })
    } else {
        match split_once(v, '=') {
            Some(p) => Ok(FlagState { required: st.required.push(p), ..st }),
            None => Err("--require expects PATH=CAPABILITY"@),
        }
    }
}

/// The flags from position `i` on read into `st`: `Ok(None)` asks for help,
/// `Err` says why the command line is refused.
pub open spec fn read_flags(args: Seq<Seq<char>>, i: int, st: FlagState) -> Result<
    Option<FlagState>,
    Seq<char>,
>
    decreases args.len() - i,
{
    if i < 0 || i >= args.len() {
        Ok(Some(st))
    } else {
        let a = args[i];
        if a == "--json"@ {
            read_flags(args, i + 1, FlagState { json: true, ..st })
        } else if a == "--check"@ {
            read_flags(args, i + 1, FlagState { check: true, ..st })
        } else if a == "-h"@ || a == "--help"@ || a == "help"@ {
            Ok(None)
        } else if value_flag(a) {
            if i + 1 >= args.len() {
                Err(a + " needs a value"@)
            } else {
                match with_value(st, a, args[i + 1]) {
                    Ok(next) => read_flags(args, i + 2, next),
                    Err(m) => Err(m),
                }
            }
        } else if is_prefix("-"@, a) {
            Err("unknown flag `"@ + a + "`"@)
        } else if st.command is None {
            read_flags(args, i + 1, FlagState { command: Some(a), ..st })
        } else if st.file is None {
            read_flags(args, i + 1, FlagState { file: Some(a), ..st })
        } else {
            Err("unexpected argument `"@ + a + "`"@)
        }
    }
}

/// The tenants with each account's tenant added where it is missing, in
/// account order.
pub open spec fn with_account_tenants(tenants: Seq<Seq<char>>, accounts: Seq<(Seq<char>, Seq<char>)>) -> Seq<Seq<char>>
    decreases accounts.len(),
{
    if accounts.len() == 0 {
        tenants
    } else {
        let before = with_account_tenants(tenants, accounts.drop_last());
        let t = account_parts(accounts.last().0, accounts.last().1).0;
        if before.contains(t) {
            before
        } else {
            before.push(t)
        }
    }
}

/// A command other than those the service, `init` and `verify` take.
#[derive(Debug, Clone, PartialEq, Eq)]
pub struct CommandLine {
    pub command: String,
    pub file: Option<String>,
    pub json: bool,
    pub check: bool,
    pub mode: Option<String>,
    pub serve: ServeOptions,
}

#[derive(Debug, Clone, PartialEq, Eq)]
pub enum Invocation {
    /// Handled by the authority service client.
    Control,
    /// `init`, with the arguments after it.
    Init,
    /// `verify`, with the arguments after it.
    Verify,
    /// Help was asked for.
    Help,
    Command(CommandLine),
}

pub open spec fn opt_view(o: Option<String>) -> Option<Seq<char>> {
    match o {
        Some(s) => Some(s@),
        None => None,
    }
}

pub open spec fn grant_view(g: Grant) -> (Seq<char>, Seq<char>, Seq<char>) {
    (g.capability@, g.claim@, g.value@)
}

pub open spec fn pair_view(p: (String, String)) -> (Seq<char>, Seq<char>) {
    (p.0@, p.1@)
}

/// The deployment flags read as `st` says, before account tenants are added.
pub open spec fn serve_matches(o: ServeOptions, st: FlagState, tenants: Seq<Seq<char>>) -> bool {
    &&& o.address@ == st.address
    &&& views(o.tenants@) == tenants
    &&& o.accounts@.len() == st.accounts.len()
    &&& forall|j: int|
        0 <= j < st.accounts.len() ==> account_read(
            st.accounts[j].0,
            st.accounts[j].1,
            #[trigger] o.accounts@[j],
        )
    &&& o.grants@.map_values(|g: Grant| grant_view(g)) == st.grants
    &&& opt_view(o.upstream) == st.upstream
    &&& views(o.public_paths@) == st.public_paths
    &&& o.required@.map_values(|p: (String, String)| pair_view(p)) == st.required
    &&& o.proxy_secret@ == "authport-development-secret"@
}

/// The command line read as `st` says: `inspect` where no command is named,
/// and every account's tenant served.
pub open spec fn command_matches(c: CommandLine, st: FlagState) -> bool {
    &&& c.command@ == match st.command {
        Some(x) => x,
        None => "inspect"@,
    }
    &&& opt_view(c.file) == st.file
    &&& c.json == st.json
    &&& c.check == st.check
    &&& opt_view(c.mode) == st.mode
    &&& serve_matches(c.serve, st, with_account_tenants(st.tenants, st.accounts))
}

/// The flags read so far, as exec values.
struct Reading {
    command: Option<String>,
    file: Option<String>,
    json: bool,
    check: bool,
    mode: Option<String>,
    serve: ServeOptions,
    default_tenant: String,
}

impl Reading {
    spec fn matches(&self, st: FlagState) -> bool {
        &&& opt_view(self.command) == st.command
        &&& opt_view(self.file) == st.file
        &&& self.json == st.json
        &&& self.check == st.check
        &&& opt_view(self.mode) == st.mode
        &&& self.default_tenant@ == st.default_tenant
        &&& serve_matches(self.serve, st, st.tenants)
    }

    fn new() -> (r: Self)
        ensures
            r.matches(initial_flags()),
    {
        let serve = ServeOptions::default();
        let r = Reading {
            command: None,
            file: None,
            json: false,
            check: false,
            mode: None,
            serve,
            default_tenant: owned("default"),
        };
        assert(views(r.serve.tenants@) =~= Seq::<Seq<char>>::empty());
        assert(r.serve.grants@.map_values(|g: Grant| grant_view(g)) =~= Seq::<
            (Seq<char>, Seq<char>, Seq<char>),
        >::empty());
        assert(views(r.serve.public_paths@) =~= Seq::<Seq<char>>::empty());
        assert(r.serve.required@.map_values(|p: (String, String)| pair_view(p)) =~= Seq::<
            (Seq<char>, Seq<char>),
        >::empty());
        r
    }

    /// Reads the value flag `a` with its value `v`.
    #[verifier::rlimit(30)]
    fn take_value(&mut self, a: &str, v: &str, Ghost(st): Ghost<FlagState>) -> (r: Result<(), CliError>)
        requires
            old(self).matches(st),
            value_flag(a@),
        ensures
            match with_value(st, a@, v@) {
                Ok(next) => r is Ok && final(self).matches(next),
                Err(m) => r matches Err(e) && e.message@ == m,
            },
    {
        if str_eq(a, "--mode") {
            if str_eq(v, "embedded") || str_eq(v, "standalone") {
                self.mode = Some(owned(v));
                Ok(())
            } else {
                Err(error("--mode must be embedded or standalone"))
            }
        } else if str_eq(a, "--addr") {
            self.serve.address = owned(v);
            Ok(())
        } else if str_eq(a, "--tenant") {
            if self.serve.tenants.len() == 0 {
                self.default_tenant = owned(v);
            }
            let t = owned(v);
            proof {
                lemma_map_push(self.serve.tenants@, t, |s: String| s@);
            }
            self.serve.tenants.push(t);
            Ok(())
        } else if str_eq(a, "--account") {
            match Account::parse(v, self.default_tenant.as_str()) {
                Ok(account) => {
                    let ghost before = self.serve.accounts@;
                    self.serve.accounts.push(account);
                    proof {
                        assert forall|j: int|
                            0 <= j < st.accounts.len() + 1 implies account_read(
                            st.accounts.push((v@, st.default_tenant))[j].0,
                            st.accounts.push((v@, st.default_tenant))[j].1,
                            #[trigger] self.serve.accounts@[j],
                        ) by {
                            if j < st.accounts.len() {
                                assert(self.serve.accounts@[j] == before[j]);
                            }
                        }
                    }
                    Ok(())
                },
                Err(e) => Err(e),
            }
        } else if str_eq(a, "--grant") {
            match Grant::parse(v) {
                Ok(g) => {
                    proof {
                        lemma_map_push(self.serve.grants@, g, |g: Grant| grant_view(g));
                    }
                    self.serve.grants.push(g);
                    Ok(())
                },
                Err(e) => Err(e),
            }
        } else if str_eq(a, "--upstream") {
            self.serve.upstream = Some(owned(v));
            Ok(())
        } else if str_eq(a, "--public") {
            let p = owned(v);
            proof {
                lemma_map_push(self.serve.public_paths@, p, |s: String| s@);
            }
            self.serve.public_paths.push(p);
            Ok(())
        } else {
            match split_at_equals(v) {
                Some(pair) => {
                    proof {
                        lemma_map_push(
                            self.serve.required@,
                            pair,
                            |p: (String, String)| pair_view(p),
                        );
                    }
                    self.serve.required.push(pair);
                    Ok(())
                },
                None => Err(error("--require expects PATH=CAPABILITY")),
            }
        }
    }
}

fn split_at_equals(v: &str) -> (r: Option<(String, String)>)
    ensures
        match split_once(v@, '=') {
            Some(p) => r matches Some(x) && x.0@ == p.0 && x.1@ == p.1,
            None => r is None,
        },
{
    super::serve::split_once_exec(v, '=')
}

fn value_flag_exec(a: &str) -> (r: bool)
    ensures
        r == value_flag(a@),
{
    str_eq(a, "--mode") || str_eq(a, "--addr") || str_eq(a, "--tenant") || str_eq(a, "--account")
        || str_eq(a, "--grant") || str_eq(a, "--upstream") || str_eq(a, "--public") || str_eq(
        a,
        "--require",
    )
}

fn has_arg_exec(args: &[String], a: &str) -> (r: bool)
    ensures
        r == has_arg(views(args@), a@),
{
    let mut i: usize = 0;
    while i < args.len()
        invariant
            i <= args@.len(),
            forall|j: int| 0 <= j < i ==> views(args@)[j] != a@,
        decreases args@.len() - i,
    {
        if str_eq(args[i].as_str(), a) {
            assert(views(args@)[i as int] == a@);
            return true;
        }
        i = i + 1;
    }
    false
}

fn control_word_exec(a: &str) -> (r: bool)
    ensures
        r == control_word(a@),
{
    str_eq(a, "connect") || str_eq(a, "approve") || str_eq(a, "apply") || str_eq(a, "reject")
        || str_eq(a, "agents") || str_eq(a, "agent") || str_eq(a, "runs") || str_eq(a, "run")
        || str_eq(a, "audit") || str_eq(a, "storage") || str_eq(a, "reporting") || str_eq(
        a,
        "policies",
    ) || str_eq(a, "policy") || str_eq(a, "explain")
}

/// Whether `propose` here proposes a change to live authority.
pub fn is_control_propose(args: &[String]) -> (r: bool)
    ensures
        r == control_propose(views(args@)),
{
    if args.len() == 0 || !str_eq(args[0].as_str(), "propose") {
        return false;
    }
    if args.len() > 1 {
        let b = args[1].as_str();
        if str_eq(b, "protect-route") || str_eq(b, "unprotect-route") || str_eq(b, "set-policy")
            || str_eq(b, "enable-provider") || str_eq(b, "disable-provider") {
            return true;
        }
    }
    has_arg_exec(args, "--server") || has_arg_exec(args, "--dry-run")
}

/// Whether `password-policy` goes to the authority service.
pub fn is_password_policy_remote(args: &[String]) -> (r: bool)
    ensures
        r == password_policy_remote(views(args@)),
{
    (args.len() > 1 && str_eq(args[1].as_str(), "propose")) || has_arg_exec(args, "--server")
}

fn first_is(args: &[String], word: &str) -> (r: bool)
    ensures
        r == (views(args@).len() > 0 && views(args@)[0] == word@),
{
    args.len() > 0 && str_eq(args[0].as_str(), word)
}

fn contains_string(v: &Vec<String>, s: &str) -> (r: bool)
    ensures
        r == views(v@).contains(s@),
{
    let mut i: usize = 0;
    while i < v.len()
        invariant
            i <= v@.len(),
            forall|j: int| 0 <= j < i ==> views(v@)[j] != s@,
        decreases v@.len() - i,
    {
        if str_eq(v[i].as_str(), s) {
            assert(views(v@)[i as int] == s@);
            return true;
        }
        i = i + 1;
    }
    false
}

/// Reads the command line: where it goes, and for the commands this program
/// runs itself, what its flags say.
pub fn parse_invocation(args: &[String]) -> (r: Result<Invocation, CliError>)
    ensures
        match route_of(views(args@)) {
            Route::Control => r == Ok::<Invocation, CliError>(Invocation::Control),
            Route::Init => r == Ok::<Invocation, CliError>(Invocation::Init),
            Route::Verify => r == Ok::<Invocation, CliError>(Invocation::Verify),
            Route::Flags => match read_flags(views(args@), 0, initial_flags()) {
                Err(m) => r matches Err(e) && e.message@ == m,
                Ok(None) => r == Ok::<Invocation, CliError>(Invocation::Help),
                Ok(Some(st)) => r matches Ok(Invocation::Command(c)) && command_matches(c, st),
            },
        },
{
    let ghost av = views(args@);
    if first_is(args, "password-policy") && is_password_policy_remote(args) {
        return Ok(Invocation::Control);
    }
    if (args.len() > 0 && control_word_exec(args[0].as_str())) || is_control_propose(args) {
        return Ok(Invocation::Control);
    }
    if first_is(args, "init") {
        return Ok(Invocation::Init);
    }
    if first_is(args, "verify") {
        return Ok(Invocation::Verify);
    }
    let mut rd = Reading::new();
    let ghost mut st = initial_flags();
    let mut i: usize = 0;
    while i < args.len()
        invariant
            i <= args@.len(),
            av == views(args@),
            route_of(av) is Flags,
            rd.matches(st),
            read_flags(av, 0, initial_flags()) == read_flags(av, i as int, st),
        decreases args@.len() - i,
    {
        let a = args[i].as_str();
        assert(av[i as int] == a@);
        if str_eq(a, "--json") {
            rd.json = true;
            proof {
                st = FlagState { json: true, ..st };
            }
            i = i + 1;
        } else if str_eq(a, "--check") {
            rd.check = true;
            proof {
                st = FlagState { check: true, ..st };
            }
            i = i + 1;
        } else if str_eq(a, "-h") || str_eq(a, "--help") || str_eq(a, "help") {
            return Ok(Invocation::Help);
        } else if value_flag_exec(a) {
            if i + 1 >= args.len() {
                return Err(error_owned(cat(a, " needs a value")));
            }
            let v = args[i + 1].as_str();
            assert(av[i + 1] == v@);
            match rd.take_value(a, v, Ghost(st)) {
                Ok(()) => {},
                Err(e) => {
                    return Err(e);
                },
            }
            proof {
                st = with_value(st, a@, v@)->Ok_0;
            }
            i = i + 2;
        } else if starts_with(a, "-") {
            return Err(error_owned(cat3("unknown flag `", a, "`")));
        } else if rd.command.is_none() {
            rd.command = Some(owned(a));
            proof {
                st = FlagState { command: Some(a@), ..st };
            }
            i = i + 1;
        } else if rd.file.is_none() {
            rd.file = Some(owned(a));
            proof {
                st = FlagState { file: Some(a@), ..st };
            }
            i = i + 1;
        } else {
            return Err(error_owned(cat3("unexpected argument `", a, "`")));
        }
    }
    assert(read_flags(av, i as int, st) == Ok::<Option<FlagState>, Seq<char>>(Some(st)));
    let Reading { command, file, json, check, mode, mut serve, default_tenant: _ } = rd;
    // Accounts may name a tenant the flags introduced later.
    let mut j: usize = 0;
    while j < serve.accounts.len()
        invariant
            j <= serve.accounts@.len(),
            serve.accounts@.len() == st.accounts.len(),
            forall|k: int|
                0 <= k < st.accounts.len() ==> account_read(
                    st.accounts[k].0,
                    st.accounts[k].1,
                    #[trigger] serve.accounts@[k],
                ),
            views(serve.tenants@) == with_account_tenants(st.tenants, st.accounts.take(j as int)),
            route_of(av) is Flags,
            read_flags(av, 0, initial_flags()) == Ok::<Option<FlagState>, Seq<char>>(Some(st)),
            serve_matches(serve, st, views(serve.tenants@)),
            opt_view(command) == st.command,
            opt_view(file) == st.file,
            json == st.json,
            check == st.check,
            opt_view(mode) == st.mode,
        decreases serve.accounts@.len() - j,
    {
        proof {
            let t = st.accounts.take(j + 1);
            assert(t.drop_last() =~= st.accounts.take(j as int));
            assert(t.last() == st.accounts[j as int]);
            assert(account_read(st.accounts[j as int].0, st.accounts[j as int].1, serve.accounts@[j as int]));
        }
        let present = contains_string(&serve.tenants, serve.accounts[j].tenant.as_str());
        if !present {
            let t = serve.accounts[j].tenant.clone();
            proof {
                lemma_map_push(serve.tenants@, t, |s: String| s@);
            }
            serve.tenants.push(t);
        }
        j = j + 1;
    }
    assert(st.accounts.take(j as int) =~= st.accounts);
    let command = match command {
        Some(c) => c,
        None => owned("inspect"),
    };
    Ok(Invocation::Command(CommandLine { command, file, json, check, mode, serve }))
}

/// The commands that work on a declaration.
pub open spec fn declaration_command(c: Seq<char>) -> bool {
    c == "inspect"@ || c == "propose"@ || c == "reconcile"@ || c == "drift"@ || c == "fingerprint"@
        || c == "routes"@ || c == "providers"@ || c == "password-policy"@ || c == "serve"@
}

/// Refuses a command that is none of those that work on a declaration,
/// with the usage text.
pub fn known_command(command: &str) -> (r: Result<(), CliError>)
    ensures
        declaration_command(command@) ==> r is Ok,
        !declaration_command(command@) ==> (r matches Err(e) && e.message@ == "unknown command `"@ + command@
            + "`\n\n"@ + USAGE@),
{
    if str_eq(command, "inspect") || str_eq(command, "propose") || str_eq(command, "reconcile") || str_eq(
        command,
        "drift",
    ) || str_eq(command, "fingerprint") || str_eq(command, "routes") || str_eq(command, "providers")
        || str_eq(command, "password-policy") || str_eq(command, "serve") {
        Ok(())
    } else {
        let mut m = cat3("unknown command `", command, "`\n\n");
        m.append(USAGE);
        Err(error_owned(m))
    }
}

} // verus!

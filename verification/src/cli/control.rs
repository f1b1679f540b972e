//! The control commands: what each asks the authority service, read from
//! its flags before anything touches the network.
use vstd::prelude::*;
use crate::text::{
    owned, cat, cat3, str_eq, views, join_with, join, chars_of, string_from_chars, slice_chars,
    is_prefix, starts_with, push_char, first_index_of, find_char, lemma_first_index_of, find_from,
    find_seq, lemma_find_from, lead_ws, lead_ws_exec, lemma_lead_ws_bound, trim_start_seq,
    u64_decimal, decimal, is_ws, is_whitespace, lower_seq, to_lower, trim, trim_seq,
};
use crate::discovery::render::{esc, escape};
use crate::dsl::parser::parse_unsigned_exec;
use crate::dsl::parser::parse_unsigned;
use super::{CliError, error, error_owned};
use super::serve::{last_index_of, split_once};

verus! {

pub const DEFAULT_SERVER: &'static str = "http://localhost:8080";

/// What a control command asks of the server, once the server is known.
#[derive(Debug, Clone, PartialEq, Eq)]
pub enum ControlCommand {
    Connect { output_token: bool },
    Propose { dry_run: bool, body: String },
    Approve { all: bool, proposal_id: Option<String> },
    Apply { all: bool, proposal_id: Option<String> },
    Reject { proposal_id: Option<String>, reason: String },
    Agents { tenant: String },
    AgentCreate { body: String },
    AgentShow { id: String, tenant: String },
    Policies,
    PolicyShow { id: String },
    Explain { path: String },
}

/// A command with the server it names (`--server`), if it names one.
#[derive(Debug, Clone, PartialEq, Eq)]
pub struct ControlPlan {
    pub server: Option<String>,
    pub command: ControlCommand,
}

/// The value after the first occurrence of flag `name`.
pub open spec fn option_value_of(args: Seq<Seq<char>>, name: Seq<char>) -> Option<Seq<char>>
    decreases args.len(),
{
    if args.len() < 2 {
        None
    } else if args[0] == name {
        Some(args[1])
    } else {
        option_value_of(args.drop_first(), name)
    }
}

pub fn option_value(args: &[String], name: &str) -> (r: Option<String>)
    ensures
        match option_value_of(views(args@), name@) {
            Some(v) => r matches Some(x) && x@ == v,
            None => r is None,
        },
{
    let ghost a = views(args@);
    let mut i: usize = 0;
    assert(a.skip(0) =~= a);
    while i < args.len() && i + 1 < args.len()
        invariant
            i <= args@.len(),
            a == views(args@),
            option_value_of(a, name@) == option_value_of(a.skip(i as int), name@),
        decreases args@.len() - i,
    {
        proof {
            assert(a.skip(i as int)[0] == args@[i as int]@);
            assert(a.skip(i as int)[1] == args@[i + 1]@);
            assert(a.skip(i as int).drop_first() =~= a.skip(i + 1));
        }
        if str_eq(args[i].as_str(), name) {
            return Some(args[i + 1].clone());
        }
        i = i + 1;
    }
    proof {
        assert(a.skip(i as int).len() < 2);
    }
    None
}

/// The arguments without the common flags (`--server` and its value,
/// `--output-token`, `--dry-run`).
pub open spec fn stripped(args: Seq<Seq<char>>) -> Seq<Seq<char>>
    decreases args.len(),
{
    if args.len() == 0 {
        args
    } else if args[0] == "--server"@ {
        if args.len() < 2 {
            Seq::empty()
        } else {
            stripped(args.skip(2))
        }
    } else if args[0] == "--output-token"@ || args[0] == "--dry-run"@ {
        stripped(args.drop_first())
    } else {
        seq![args[0]] + stripped(args.drop_first())
    }
}

pub fn strip_common_options(args: &[String]) -> (r: Vec<String>)
    ensures
        views(r@) == stripped(views(args@)),
{
    let ghost a = views(args@);
    let mut out: Vec<String> = Vec::new();
    let mut i: usize = 0;
    assert(a.skip(0) =~= a);
    while i < args.len()
        invariant
            i <= args@.len(),
            a == views(args@),
            stripped(a) == views(out@) + stripped(a.skip(i as int)),
        decreases args@.len() - i,
    {
        let ghost rest = a.skip(i as int);
        assert(rest[0] == args@[i as int]@);
        if str_eq(args[i].as_str(), "--server") {
            if i + 1 >= args.len() {
                assert(stripped(rest) =~= Seq::<Seq<char>>::empty());
                assert(a.skip(args@.len() as int) =~= Seq::<Seq<char>>::empty());
                i = args.len();
            } else {
                assert(rest.skip(2) =~= a.skip(i + 2));
                i = i + 2;
            }
        } else if str_eq(args[i].as_str(), "--output-token") || str_eq(args[i].as_str(), "--dry-run") {
            assert(rest.drop_first() =~= a.skip(i + 1));
            i = i + 1;
        } else {
            let ghost before = views(out@);
            out.push(args[i].clone());
            proof {
                assert(rest.drop_first() =~= a.skip(i + 1));
                assert(views(out@) =~= before.push(args@[i as int]@));
                assert(before + (seq![rest[0]] + stripped(rest.drop_first())) =~= views(out@) + stripped(
                    a.skip(i + 1),
                ));
            }
            i = i + 1;
        }
    }
    assert(a.skip(i as int) =~= Seq::<Seq<char>>::empty());
    assert(views(out@) + Seq::<Seq<char>>::empty() =~= views(out@));
    out
}

/// The common flags read left to right: the last `--server` value, whether
/// `--output-token` and `--dry-run` occur; a `--server` without a value is
/// an error.
pub open spec fn common_scan(args: Seq<Seq<char>>, server: Option<Seq<char>>, token: bool, dry: bool) -> Result<
    (Option<Seq<char>>, bool, bool),
    Seq<char>,
>
    decreases args.len(),
{
    if args.len() == 0 {
        Ok((server, token, dry))
    } else if args[0] == "--server"@ {
        if args.len() < 2 {
            Err("--server needs a value"@)
        } else {
            common_scan(args.skip(2), Some(args[1]), token, dry)
        }
    } else if args[0] == "--output-token"@ {
        common_scan(args.drop_first(), server, true, dry)
    } else if args[0] == "--dry-run"@ {
        common_scan(args.drop_first(), server, token, true)
    } else {
        common_scan(args.drop_first(), server, token, dry)
    }
}

pub open spec fn common_of(args: Seq<Seq<char>>) -> Result<(Option<Seq<char>>, bool, bool), Seq<char>> {
    common_scan(args, None, false, false)
}

pub open spec fn opt_view(o: Option<String>) -> Option<Seq<char>> {
    match o {
        Some(s) => Some(s@),
        None => None,
    }
}

/// The common flags: the `--server` named, if any, `--output-token` and
/// `--dry-run`.
pub fn common_options(args: &[String]) -> (r: Result<(Option<String>, bool, bool), CliError>)
    ensures
        match common_of(views(args@)) {
            Ok(c) => r matches Ok(x) && opt_view(x.0) == c.0 && x.1 == c.1 && x.2 == c.2,
            Err(m) => r matches Err(e) && e.message@ == m,
        },
{
    let ghost a = views(args@);
    let mut server: Option<String> = None;
    let mut token = false;
    let mut dry = false;
    let mut i: usize = 0;
    assert(a.skip(0) =~= a);
    while i < args.len()
        invariant
            i <= args@.len(),
            a == views(args@),
            common_of(a) == common_scan(a.skip(i as int), opt_view(server), token, dry),
        decreases args@.len() - i,
    {
        let ghost rest = a.skip(i as int);
        assert(rest[0] == args@[i as int]@);
        if str_eq(args[i].as_str(), "--server") {
            if i + 1 >= args.len() {
                return Err(error("--server needs a value"));
            }
            assert(rest[1] == args@[i + 1]@);
            assert(rest.skip(2) =~= a.skip(i + 2));
            server = Some(args[i + 1].clone());
            i = i + 2;
        } else {
            if str_eq(args[i].as_str(), "--output-token") {
                token = true;
            } else if str_eq(args[i].as_str(), "--dry-run") {
                dry = true;
            }
            assert(rest.drop_first() =~= a.skip(i + 1));
            i = i + 1;
        }
    }
    assert(a.skip(i as int) =~= Seq::<Seq<char>>::empty());
    Ok((server, token, dry))
}

pub open spec fn quote(s: Seq<char>) -> Seq<char> {
    "\""@ + esc(s) + "\""@
}

/// The error for a flag given no value.
pub open spec fn missing(name: Seq<char>) -> Seq<char> {
    name + " needs a value"@
}

/// The JSON body a `propose` change type sends, or the flag it lacks.
pub open spec fn proposal_body_of(change_type: Seq<char>, args: Seq<Seq<char>>) -> Result<Seq<char>, Seq<char>> {
    let m = option_value_of(args, "--method"@);
    let p = option_value_of(args, "--path"@);
    let c = option_value_of(args, "--capability"@);
    let pol = option_value_of(args, "--policy"@);
    let prov = option_value_of(args, "--provider"@);
    if change_type == "protect-route"@ {
        match (m, p, c) {
            (None, _, _) => Err(missing("--method"@)),
            (Some(_), None, _) => Err(missing("--path"@)),
            (Some(_), Some(_), None) => Err(missing("--capability"@)),
            (Some(m), Some(p), Some(c)) => Ok(
                "{\"type\": \"protect_route\", \"method\": "@ + quote(m) + ", \"path\": "@ + quote(p)
                    + ", \"capability\": "@ + quote(c) + "}"@,
            ),
        }
    } else if change_type == "unprotect-route"@ {
        match (m, p) {
            (None, _) => Err(missing("--method"@)),
            (Some(_), None) => Err(missing("--path"@)),
            (Some(m), Some(p)) => Ok(
                "{\"type\": \"unprotect_route\", \"method\": "@ + quote(m) + ", \"path\": "@ + quote(p) + "}"@,
            ),
        }
    } else if change_type == "set-policy"@ {
        match (c, pol) {
            (None, _) => Err(missing("--capability"@)),
            (Some(_), None) => Err(missing("--policy"@)),
            (Some(c), Some(pol)) => Ok(
                "{\"type\": \"set_policy\", \"capability\": "@ + quote(c) + ", \"policy\": "@ + quote(pol) + "}"@,
            ),
        }
    } else if change_type == "enable-provider"@ {
        match prov {
            None => Err(missing("--provider"@)),
            Some(v) => Ok("{\"type\": \"enable_provider\", \"provider\": "@ + quote(v) + ", \"enabled\": true}"@),
        }
    } else if change_type == "disable-provider"@ {
        match prov {
            None => Err(missing("--provider"@)),
            Some(v) => Ok("{\"type\": \"disable_provider\", \"provider\": "@ + quote(v) + ", \"enabled\": false}"@),
        }
    } else {
        Err("unknown proposal change type `"@ + change_type + "`"@)
    }
}

fn required(args: &[String], name: &str) -> (r: Result<String, CliError>)
    ensures
        match option_value_of(views(args@), name@) {
            Some(v) => r matches Ok(x) && x@ == v,
            None => r matches Err(e) && e.message@ == name@ + " needs a value"@,
        },
{
    match option_value(args, name) {
        Some(v) => Ok(v),
        None => Err(error_owned(cat(name, " needs a value"))),
    }
}

fn append_quote(out: &mut String, s: &str)
    ensures
        final(out)@ == old(out)@ + quote(s@),
{
    let ghost start = out@;
    out.append("\"");
    let e = escape(s);
    out.append(e.as_str());
    out.append("\"");
    assert(out@ =~= start + quote(s@));
}

/// The body `propose` sends for `change_type`.
pub fn proposal_body(change_type: &str, args: &[String]) -> (r: Result<String, CliError>)
    ensures
        match proposal_body_of(change_type@, views(args@)) {
            Ok(b) => r matches Ok(x) && x@ == b,
            Err(m) => r matches Err(e) && e.message@ == m,
        },
{
    if str_eq(change_type, "protect-route") {
        let m = match required(args, "--method") {
            Ok(v) => v,
            Err(e) => {
                return Err(e);
            },
        };
        let p = match required(args, "--path") {
            Ok(v) => v,
            Err(e) => {
                return Err(e);
            },
        };
        let c = match required(args, "--capability") {
            Ok(v) => v,
            Err(e) => {
                return Err(e);
            },
        };
        let mut out = owned("{\"type\": \"protect_route\", \"method\": ");
        append_quote(&mut out, m.as_str());
        out.append(", \"path\": ");
        append_quote(&mut out, p.as_str());
        out.append(", \"capability\": ");
        append_quote(&mut out, c.as_str());
        out.append("}");
        Ok(out)
    } else if str_eq(change_type, "unprotect-route") {
        let m = match required(args, "--method") {
            Ok(v) => v,
            Err(e) => {
                return Err(e);
            },
        };
        let p = match required(args, "--path") {
            Ok(v) => v,
            Err(e) => {
                return Err(e);
            },
        };
        let mut out = owned("{\"type\": \"unprotect_route\", \"method\": ");
        append_quote(&mut out, m.as_str());
        out.append(", \"path\": ");
        append_quote(&mut out, p.as_str());
        out.append("}");
        Ok(out)
    } else if str_eq(change_type, "set-policy") {
        let c = match required(args, "--capability") {
            Ok(v) => v,
            Err(e) => {
                return Err(e);
            },
        };
        let pol = match required(args, "--policy") {
            Ok(v) => v,
            Err(e) => {
                return Err(e);
            },
        };
        let mut out = owned("{\"type\": \"set_policy\", \"capability\": ");
        append_quote(&mut out, c.as_str());
        out.append(", \"policy\": ");
        append_quote(&mut out, pol.as_str());
        out.append("}");
        Ok(out)
    } else if str_eq(change_type, "enable-provider") {
        let v = match required(args, "--provider") {
            Ok(v) => v,
            Err(e) => {
                return Err(e);
            },
        };
        let mut out = owned("{\"type\": \"enable_provider\", \"provider\": ");
        append_quote(&mut out, v.as_str());
        out.append(", \"enabled\": true}");
        Ok(out)
    } else if str_eq(change_type, "disable-provider") {
        let v = match required(args, "--provider") {
            Ok(v) => v,
            Err(e) => {
                return Err(e);
            },
        };
        let mut out = owned("{\"type\": \"disable_provider\", \"provider\": ");
        append_quote(&mut out, v.as_str());
        out.append(", \"enabled\": false}");
        Ok(out)
    } else {
        Err(error_owned(cat3("unknown proposal change type `", change_type, "`")))
    }
}

/// The explanation endpoint: of a given decision, or of the latest one.
pub fn explain_path(args: &[String]) -> (r: String)
    ensures
        r@ == if args@.len() > 0 {
            "/_authport/authorization/decisions/"@ + args@[0]@ + "/explain"@
        } else {
            "/_authport/authorization/explain"@
        },
{
    if args.len() > 0 {
        cat3("/_authport/authorization/decisions/", args[0].as_str(), "/explain")
    } else {
        owned("/_authport/authorization/explain")
    }
}

/// `s` with every space written `%20`.
pub open spec fn path_escaped(s: Seq<char>) -> Seq<char>
    decreases s.len(),
{
    if s.len() == 0 {
        s
    } else {
        path_escaped(s.drop_last()) + if s.last() == ' ' {
            "%20"@
        } else {
            seq![s.last()]
        }
    }
}

pub fn escape_path(value: &str) -> (r: String)
    ensures
        r@ == path_escaped(value@),
{
    let v = chars_of(value);
    let mut out = String::new();
    let mut i: usize = 0;
    while i < v.len()
        invariant
            i <= v@.len(),
            v@ == value@,
            out@ == path_escaped(v@.take(i as int)),
        decreases v@.len() - i,
    {
        let ghost before = out@;
        if v[i] == ' ' {
            out.append("%20");
        } else {
            push_char(&mut out, v[i]);
        }
        proof {
            let t = v@.take(i + 1);
            assert(t.drop_last() =~= v@.take(i as int));
            reveal_strlit("%20");
            assert(out@ =~= path_escaped(t));
        }
        i = i + 1;
    }
    assert(v@.take(i as int) =~= v@);
    out
}

/// A control command as plain values.
pub enum CommandView {
    Connect(bool),
    Propose(bool, Seq<char>),
    Approve(bool, Option<Seq<char>>),
    Apply(bool, Option<Seq<char>>),
    Reject(Option<Seq<char>>, Seq<char>),
    Agents(Seq<char>),
    AgentCreate(Seq<char>),
    AgentShow(Seq<char>, Seq<char>),
    Policies,
    PolicyShow(Seq<char>),
    Explain(Seq<char>),
}

impl View for ControlCommand {
    type V = CommandView;

    open spec fn view(&self) -> CommandView {
        match self {
            ControlCommand::Connect { output_token } => CommandView::Connect(*output_token),
            ControlCommand::Propose { dry_run, body } => CommandView::Propose(*dry_run, body@),
            ControlCommand::Approve { all, proposal_id } => CommandView::Approve(*all, opt_view(*proposal_id)),
            ControlCommand::Apply { all, proposal_id } => CommandView::Apply(*all, opt_view(*proposal_id)),
            ControlCommand::Reject { proposal_id, reason } => CommandView::Reject(opt_view(*proposal_id), reason@),
            ControlCommand::Agents { tenant } => CommandView::Agents(tenant@),
            ControlCommand::AgentCreate { body } => CommandView::AgentCreate(body@),
            ControlCommand::AgentShow { id, tenant } => CommandView::AgentShow(id@, tenant@),
            ControlCommand::Policies => CommandView::Policies,
            ControlCommand::PolicyShow { id } => CommandView::PolicyShow(id@),
            ControlCommand::Explain { path } => CommandView::Explain(path@),
        }
    }
}

/// An outcome as plain values: the command, or the error's message.
pub open spec fn outcome_is(r: Result<ControlCommand, CliError>, o: Result<CommandView, Seq<char>>) -> bool {
    match o {
        Ok(v) => r matches Ok(c) && c@ == v,
        Err(m) => r matches Err(e) && e.message@ == m,
    }
}

/// The body that creates an agent.
pub open spec fn agent_body(tenant: Seq<char>, name: Seq<char>, id: Option<Seq<char>>) -> Seq<char> {
    "{\"tenant\": "@ + quote(tenant) + ", \"name\": "@ + quote(name) + match id {
        Some(i) => ", \"id\": "@ + quote(i),
        None => Seq::empty(),
    } + "}"@
}

pub open spec fn agent_of(args: Seq<Seq<char>>) -> Result<CommandView, Seq<char>> {
    let f = stripped(args);
    match common_of(args) {
        Err(m) => Err(m),
        Ok(_) => if f.len() > 0 && f[0] == "create"@ {
            match option_value_of(f, "--tenant"@) {
                None => Err("agent create needs --tenant TENANT"@),
                Some(t) => match option_value_of(f, "--name"@) {
                    None => Err("agent create needs --name NAME"@),
                    Some(n) => Ok(CommandView::AgentCreate(agent_body(t, n, option_value_of(f, "--id"@)))),
                },
            }
        } else if f.len() > 0 && f[0] == "show"@ {
            if f.len() < 2 {
                Err("agent show needs an id"@)
            } else {
                match option_value_of(f, "--tenant"@) {
                    None => Err("agent show needs --tenant TENANT"@),
                    Some(t) => Ok(CommandView::AgentShow(f[1], t)),
                }
            }
        } else {
            Err("agent command supports `create` and `show ID`"@)
        },
    }
}

/// `agent create` or `agent show ID`, checked before any network call.
pub fn agent(args: &[String]) -> (r: Result<ControlCommand, CliError>)
    ensures
        outcome_is(r, agent_of(views(args@))),
{
    match common_options(args) {
        Ok(_) => {},
        Err(e) => {
            return Err(e);
        },
    }
    let f = strip_common_options(args);
    let ghost fv = views(f@);
    if f.len() > 0 && str_eq(f[0].as_str(), "create") {
        assert(fv[0] == f@[0]@);
        let tenant = match option_value(f.as_slice(), "--tenant") {
            Some(t) => t,
            None => {
                return Err(error("agent create needs --tenant TENANT"));
            },
        };
        let name = match option_value(f.as_slice(), "--name") {
            Some(n) => n,
            None => {
                return Err(error("agent create needs --name NAME"));
            },
        };
        let id = option_value(f.as_slice(), "--id");
        let mut body = owned("{\"tenant\": ");
        append_quote(&mut body, tenant.as_str());
        body.append(", \"name\": ");
        append_quote(&mut body, name.as_str());
        let ghost mid = body@;
        match &id {
            Some(i) => {
                body.append(", \"id\": ");
                append_quote(&mut body, i.as_str());
            },
            None => {},
        }
        body.append("}");
        proof {
            let tail = match option_value_of(fv, "--id"@) {
                Some(i) => ", \"id\": "@ + quote(i),
                None => Seq::<char>::empty(),
            };
            assert(body@ =~= mid + tail + "}"@);
            assert(body@ =~= agent_body(tenant@, name@, option_value_of(fv, "--id"@)));
        }
        Ok(ControlCommand::AgentCreate { body })
    } else if f.len() > 0 && str_eq(f[0].as_str(), "show") {
        assert(fv[0] == f@[0]@);
        if f.len() < 2 {
            return Err(error("agent show needs an id"));
        }
        let tenant = match option_value(f.as_slice(), "--tenant") {
            Some(t) => t,
            None => {
                return Err(error("agent show needs --tenant TENANT"));
            },
        };
        assert(fv[1] == f@[1]@);
        Ok(ControlCommand::AgentShow { id: f[1].clone(), tenant })
    } else {
        proof {
            if fv.len() > 0 {
                assert(fv[0] == f@[0]@);
            }
        }
        Err(error("agent command supports `create` and `show ID`"))
    }
}

/// The flags of `approve` and `apply` read left to right: the last
/// `--proposal-id` (none where it ends the arguments), `--all`, `--yes`.
pub open spec fn confirm_scan(args: Seq<Seq<char>>, id: Option<Seq<char>>, all: bool, yes: bool) -> (Option<Seq<char>>, bool, bool)
    decreases args.len(),
{
    if args.len() == 0 {
        (id, all, yes)
    } else if args[0] == "--proposal-id"@ {
        if args.len() < 2 {
            (None, all, yes)
        } else {
            confirm_scan(args.skip(2), Some(args[1]), all, yes)
        }
    } else if args[0] == "--server"@ {
        if args.len() < 2 {
            (id, all, yes)
        } else {
            confirm_scan(args.skip(2), id, all, yes)
        }
    } else if args[0] == "--all"@ {
        confirm_scan(args.drop_first(), id, true, yes)
    } else if args[0] == "--yes"@ {
        confirm_scan(args.drop_first(), id, all, true)
    } else {
        confirm_scan(args.drop_first(), id, all, yes)
    }
}

fn confirm_flags(args: &[String]) -> (r: (Option<String>, bool, bool))
    ensures
        (opt_view(r.0), r.1, r.2) == confirm_scan(views(args@), None, false, false),
{
    let ghost a = views(args@);
    let mut id: Option<String> = None;
    let mut all = false;
    let mut yes = false;
    let mut i: usize = 0;
    assert(a.skip(0) =~= a);
    while i < args.len()
        invariant
            i <= args@.len(),
            a == views(args@),
            confirm_scan(a, None, false, false) == confirm_scan(a.skip(i as int), opt_view(id), all, yes),
        decreases args@.len() - i,
    {
        let ghost rest = a.skip(i as int);
        assert(rest[0] == args@[i as int]@);
        if str_eq(args[i].as_str(), "--proposal-id") {
            if i + 1 >= args.len() {
                return (None, all, yes);
            }
            assert(rest[1] == args@[i + 1]@);
            assert(rest.skip(2) =~= a.skip(i + 2));
            id = Some(args[i + 1].clone());
            i = i + 2;
        } else if str_eq(args[i].as_str(), "--server") {
            if i + 1 >= args.len() {
                return (id, all, yes);
            }
            assert(rest.skip(2) =~= a.skip(i + 2));
            i = i + 2;
        } else {
            if str_eq(args[i].as_str(), "--all") {
                all = true;
            } else if str_eq(args[i].as_str(), "--yes") {
                yes = true;
            }
            assert(rest.drop_first() =~= a.skip(i + 1));
            i = i + 1;
        }
    }
    assert(a.skip(i as int) =~= Seq::<Seq<char>>::empty());
    (id, all, yes)
}

pub open spec fn confirmed_of(args: Seq<Seq<char>>, verb: Seq<char>, apply: bool) -> Result<CommandView, Seq<char>> {
    match common_of(args) {
        Err(m) => Err(m),
        Ok(_) => {
            let (id, all, yes) = confirm_scan(args, None, false, false);
            if !yes {
                if apply {
                    Err("apply needs --yes to confirm in non-interactive mode"@)
                } else {
                    Err("approve needs --yes to confirm in non-interactive mode"@)
                }
            } else if apply {
                Ok(CommandView::Apply(all, id))
            } else {
                Ok(CommandView::Approve(all, id))
            }
        },
    }
}

/// `approve`: needs `--yes`; a proposal id, or `--all` inferred proposals.
pub fn approve(args: &[String]) -> (r: Result<ControlCommand, CliError>)
    ensures
        outcome_is(r, confirmed_of(views(args@), "approve"@, false)),
{
    match common_options(args) {
        Ok(_) => {},
        Err(e) => {
            return Err(e);
        },
    }
    let (proposal_id, all, yes) = confirm_flags(args);
    if !yes {
        return Err(error("approve needs --yes to confirm in non-interactive mode"));
    }
    Ok(ControlCommand::Approve { all, proposal_id })
}

/// `apply`: needs `--yes`; a proposal id, or `--all` inferred proposals.
pub fn apply(args: &[String]) -> (r: Result<ControlCommand, CliError>)
    ensures
        outcome_is(r, confirmed_of(views(args@), "apply"@, true)),
{
    match common_options(args) {
        Ok(_) => {},
        Err(e) => {
            return Err(e);
        },
    }
    let (proposal_id, all, yes) = confirm_flags(args);
    if !yes {
        return Err(error("apply needs --yes to confirm in non-interactive mode"));
    }
    Ok(ControlCommand::Apply { all, proposal_id })
}

/// The flags of `reject` read left to right: the last `--proposal-id` and
/// `--reason` (which needs a value; `rejected` by default).
pub open spec fn reject_scan(args: Seq<Seq<char>>, id: Option<Seq<char>>, reason: Seq<char>) -> Result<(Option<Seq<char>>, Seq<char>), Seq<char>>
    decreases args.len(),
{
    if args.len() == 0 {
        Ok((id, reason))
    } else if args[0] == "--proposal-id"@ {
        if args.len() < 2 {
            Ok((None, reason))
        } else {
            reject_scan(args.skip(2), Some(args[1]), reason)
        }
    } else if args[0] == "--reason"@ {
        if args.len() < 2 {
            Err("--reason needs a value"@)
        } else {
            reject_scan(args.skip(2), id, args[1])
        }
    } else if args[0] == "--server"@ {
        if args.len() < 2 {
            Ok((id, reason))
        } else {
            reject_scan(args.skip(2), id, reason)
        }
    } else {
        reject_scan(args.drop_first(), id, reason)
    }
}

pub open spec fn reject_of(args: Seq<Seq<char>>) -> Result<CommandView, Seq<char>> {
    match common_of(args) {
        Err(m) => Err(m),
        Ok(_) => match reject_scan(args, None, "rejected"@) {
            Err(m) => Err(m),
            Ok(p) => Ok(CommandView::Reject(p.0, p.1)),
        },
    }
}

pub fn reject(args: &[String]) -> (r: Result<ControlCommand, CliError>)
    ensures
        outcome_is(r, reject_of(views(args@))),
{
    match common_options(args) {
        Ok(_) => {},
        Err(e) => {
            return Err(e);
        },
    }
    let ghost a = views(args@);
    let mut id: Option<String> = None;
    let mut reason = owned("rejected");
    let mut i: usize = 0;
    assert(a.skip(0) =~= a);
    while i < args.len()
        invariant
            i <= args@.len(),
            a == views(args@),
            common_of(a) is Ok,
            reject_scan(a, None, "rejected"@) == reject_scan(a.skip(i as int), opt_view(id), reason@),
        decreases args@.len() - i,
    {
        let ghost rest = a.skip(i as int);
        assert(rest[0] == args@[i as int]@);
        if str_eq(args[i].as_str(), "--proposal-id") {
            if i + 1 >= args.len() {
                return Ok(ControlCommand::Reject { proposal_id: None, reason });
            }
            assert(rest[1] == args@[i + 1]@);
            assert(rest.skip(2) =~= a.skip(i + 2));
            id = Some(args[i + 1].clone());
            i = i + 2;
        } else if str_eq(args[i].as_str(), "--reason") {
            if i + 1 >= args.len() {
                return Err(error("--reason needs a value"));
            }
            assert(rest[1] == args@[i + 1]@);
            assert(rest.skip(2) =~= a.skip(i + 2));
            reason = args[i + 1].clone();
            i = i + 2;
        } else if str_eq(args[i].as_str(), "--server") {
            if i + 1 >= args.len() {
                return Ok(ControlCommand::Reject { proposal_id: id, reason });
            }
            assert(rest.skip(2) =~= a.skip(i + 2));
            i = i + 2;
        } else {
            assert(rest.drop_first() =~= a.skip(i + 1));
            i = i + 1;
        }
    }
    assert(a.skip(i as int) =~= Seq::<Seq<char>>::empty());
    Ok(ControlCommand::Reject { proposal_id: id, reason })
}

pub open spec fn simple_of(verb: Seq<char>, args: Seq<Seq<char>>) -> Result<CommandView, Seq<char>> {
    let f = stripped(args);
    match common_of(args) {
        Err(m) => Err(m),
        Ok(c) => if verb == "connect"@ {
            Ok(CommandView::Connect(c.1))
        } else if verb == "propose"@ {
            if f.len() == 0 {
                Err("propose needs a change type"@)
            } else {
                match proposal_body_of(f[0], f.drop_first()) {
                    Err(m) => Err(m),
                    Ok(b) => Ok(CommandView::Propose(c.2, b)),
                }
            }
        } else if verb == "agents"@ {
            match option_value_of(args, "--tenant"@) {
                None => Err("agents needs --tenant TENANT"@),
                Some(t) => Ok(CommandView::Agents(t)),
            }
        } else if verb == "policies"@ {
            Ok(CommandView::Policies)
        } else if verb == "policy"@ {
            if !(f.len() > 0 && f[0] == "show"@) {
                Err("policy command supports `show ID`"@)
            } else if f.len() < 2 {
                Err("policy show needs an id"@)
            } else {
                Ok(CommandView::PolicyShow(f[1]))
            }
        } else if verb == "explain"@ {
            Ok(CommandView::Explain(
                if f.len() > 0 {
                    "/_authport/authorization/decisions/"@ + f[0] + "/explain"@
                } else {
                    "/_authport/authorization/explain"@
                },
            ))
        } else if verb == "agent"@ {
            agent_of(args)
        } else if verb == "approve"@ {
            confirmed_of(args, "approve"@, false)
        } else if verb == "apply"@ {
            confirmed_of(args, "apply"@, true)
        } else if verb == "reject"@ {
            reject_of(args)
        } else {
            Err("unknown control command"@)
        },
    }
}

/// What `run` decides for the command line `args`: the command and the
/// server it names; an unknown command is refused first.
pub open spec fn plan_of(args: Seq<Seq<char>>) -> Result<(Option<Seq<char>>, CommandView), Seq<char>> {
    let known = args.len() > 0 && (args[0] == "connect"@ || args[0] == "propose"@ || args[0] == "approve"@
        || args[0] == "apply"@ || args[0] == "reject"@ || args[0] == "agents"@ || args[0] == "agent"@
        || args[0] == "policies"@ || args[0] == "policy"@ || args[0] == "explain"@);
    if !known {
        Err("unknown control command"@)
    } else {
        let rest = args.drop_first();
        match simple_of(args[0], rest) {
            Err(m) => Err(m),
            Ok(c) => Ok((common_of(rest)->Ok_0.0, c)),
        }
    }
}

/// Reads a control command line into what it asks of the server.
pub fn run(args: &[String]) -> (r: Result<ControlPlan, CliError>)
    ensures
        match plan_of(views(args@)) {
            Ok(p) => r matches Ok(x) && opt_view(x.server) == p.0 && x.command@ == p.1,
            Err(m) => r matches Err(e) && e.message@ == m,
        },
{
    let ghost a = views(args@);
    if args.len() == 0 {
        return Err(error("unknown control command"));
    }
    let verb = args[0].as_str();
    assert(a[0] == verb@);
    let known = str_eq(verb, "connect") || str_eq(verb, "propose") || str_eq(verb, "approve")
        || str_eq(verb, "apply") || str_eq(verb, "reject") || str_eq(verb, "agents") || str_eq(verb, "agent")
        || str_eq(verb, "policies") || str_eq(verb, "policy") || str_eq(verb, "explain");
    if !known {
        return Err(error("unknown control command"));
    }
    let rest = slice_strings(args, 1);
    assert(views(rest@) =~= a.drop_first());
    let (server, token, dry) = match common_options(rest.as_slice()) {
        Ok(c) => c,
        Err(e) => {
            return Err(e);
        },
    };
    let f = strip_common_options(rest.as_slice());
    let ghost fv = views(f@);
    let command = if str_eq(verb, "connect") {
        ControlCommand::Connect { output_token: token }
    } else if str_eq(verb, "propose") {
        if f.len() == 0 {
            return Err(error("propose needs a change type"));
        }
        let tail = slice_strings(f.as_slice(), 1);
        assert(views(tail@) =~= fv.drop_first());
        assert(fv[0] == f@[0]@);
        let body = match proposal_body(f[0].as_str(), tail.as_slice()) {
            Ok(b) => b,
            Err(e) => {
                return Err(e);
            },
        };
        ControlCommand::Propose { dry_run: dry, body }
    } else if str_eq(verb, "agents") {
        match option_value(rest.as_slice(), "--tenant") {
            Some(t) => ControlCommand::Agents { tenant: t },
            None => {
                return Err(error("agents needs --tenant TENANT"));
            },
        }
    } else if str_eq(verb, "policies") {
        ControlCommand::Policies
    } else if str_eq(verb, "policy") {
        if !(f.len() > 0 && str_eq(f[0].as_str(), "show")) {
            proof {
                if fv.len() > 0 {
                    assert(fv[0] == f@[0]@);
                }
            }
            return Err(error("policy command supports `show ID`"));
        }
        assert(fv[0] == f@[0]@);
        if f.len() < 2 {
            return Err(error("policy show needs an id"));
        }
        assert(fv[1] == f@[1]@);
        ControlCommand::PolicyShow { id: f[1].clone() }
    } else if str_eq(verb, "explain") {
        proof {
            if fv.len() > 0 {
                assert(fv[0] == f@[0]@);
            }
        }
        ControlCommand::Explain { path: explain_path(f.as_slice()) }
    } else if str_eq(verb, "agent") {
        match agent(rest.as_slice()) {
            Ok(c) => c,
            Err(e) => {
                return Err(e);
            },
        }
    } else if str_eq(verb, "approve") {
        match approve(rest.as_slice()) {
            Ok(c) => c,
            Err(e) => {
                return Err(e);
            },
        }
    } else if str_eq(verb, "apply") {
        match apply(rest.as_slice()) {
            Ok(c) => c,
            Err(e) => {
                return Err(e);
            },
        }
    } else {
        match reject(rest.as_slice()) {
            Ok(c) => c,
            Err(e) => {
                return Err(e);
            },
        }
    };
    Ok(ControlPlan { server, command })
}

fn slice_strings(v: &[String], from: usize) -> (r: Vec<String>)
    requires
        from <= v@.len(),
    ensures
        views(r@) == views(v@).skip(from as int),
{
    let mut out: Vec<String> = Vec::new();
    let mut i: usize = from;
    while i < v.len()
        invariant
            from <= i <= v@.len(),
            views(out@) == views(v@).subrange(from as int, i as int),
        decreases v@.len() - i,
    {
        let ghost before = views(out@);
        let c = v[i].clone();
        out.push(c);
        assert(views(out@) =~= before.push(c@));
        assert(views(out@) =~= views(v@).subrange(from as int, i + 1));
        i = i + 1;
    }
    assert(views(v@).subrange(from as int, i as int) =~= views(v@).skip(from as int));
    out
}


// ---------------------------------------------------------------------------
// What the requests carry and what is reported.
// ---------------------------------------------------------------------------

/// The host and port of an `http://` server URL; port 80 when none is given.
pub open spec fn http_url_of(server: Seq<char>) -> Result<(Seq<char>, u16), Seq<char>> {
    if !is_prefix("http://"@, server) {
        Err("--server must be an http:// URL"@)
    } else {
        let rest = server.skip(7);
        let hp = match first_index_of(rest, '/') {
            Some(i) => rest.take(i),
            None => rest,
        };
        let parsed: Result<(Seq<char>, u16), Seq<char>> = match last_index_of(hp, ':') {
            Some(i) => match parse_unsigned(hp.skip(i + 1)) {
                Some(n) => if n <= 65535 {
                    Ok((hp.take(i), n as u16))
                } else {
                    Err("--server has an invalid port"@)
                },
                None => Err("--server has an invalid port"@),
            },
            None => Ok((hp, 80u16)),
        };
        match parsed {
            Err(m) => Err(m),
            Ok(p) => if p.0.len() == 0 {
                Err("--server needs a host"@)
            } else {
                Ok(p)
            },
        }
    }
}

fn last_char_index(v: &Vec<char>, c: char) -> (r: Option<usize>)
    ensures
        match r {
            Some(i) => last_index_of(v@, c) == Some(i as int) && i < v@.len(),
            None => last_index_of(v@, c) is None,
        },
{
    let mut i: usize = v.len();
    assert(v@.take(i as int) =~= v@);
    while i > 0
        invariant
            i <= v@.len(),
            last_index_of(v@, c) == last_index_of(v@.take(i as int), c),
        decreases i,
    {
        assert(v@.take(i as int).drop_last() =~= v@.take(i - 1));
        if v[i - 1] == c {
            return Some(i - 1);
        }
        i = i - 1;
    }
    None
}

/// The host and port the control client connects to.
pub fn parse_http_url(server: &str) -> (r: Result<(String, u16), CliError>)
    ensures
        match http_url_of(server@) {
            Ok(p) => r matches Ok(x) && x.0@ == p.0 && x.1 == p.1,
            Err(m) => r matches Err(e) && e.message@ == m,
        },
{
    if !starts_with(server, "http://") {
        return Err(error("--server must be an http:// URL"));
    }
    let v = chars_of(server);
    proof {
        reveal_strlit("http://");
    }
    let rest = slice_chars(v.as_slice(), 7, v.len());
    assert(rest@ =~= server@.skip(7));
    proof {
        lemma_first_index_of(rest@, '/');
    }
    let hp = match find_char(rest.as_slice(), '/') {
        Some(i) => slice_chars(rest.as_slice(), 0, i),
        None => slice_chars(rest.as_slice(), 0, rest.len()),
    };
    assert(hp@ =~= match first_index_of(rest@, '/') {
        Some(i) => rest@.take(i),
        None => rest@,
    });
    let (host, port): (Vec<char>, u16) = match last_char_index(&hp, ':') {
        Some(i) => {
            let digits = slice_chars(hp.as_slice(), i + 1, hp.len());
            assert(digits@ =~= hp@.skip(i + 1));
            let ds = string_from_chars(digits.as_slice());
            match parse_unsigned_exec(ds.as_str(), 65535) {
                Some(n) => (slice_chars(hp.as_slice(), 0, i), n as u16),
                None => {
                    return Err(error("--server has an invalid port"));
                },
            }
        },
        None => (slice_chars(hp.as_slice(), 0, hp.len()), 80u16),
    };
    proof {
        assert(hp@.take(hp@.len() as int) =~= hp@);
    }
    if host.len() == 0 {
        return Err(error("--server needs a host"));
    }
    Ok((string_from_chars(host.as_slice()), port))
}

/// The first string value of `"field":` in `json`.
pub open spec fn quoted_field_of(json: Seq<char>, field: Seq<char>) -> Option<Seq<char>> {
    let pat = "\""@ + field + "\":"@;
    match find_from(json, pat, 0) {
        None => None,
        Some(i) => {
            let rest = trim_start_seq(json.skip(i + pat.len()));
            if rest.len() > 0 && rest[0] == '"' {
                let v = rest.skip(1);
                match first_index_of(v, '"') {
                    Some(e) => Some(v.take(e)),
                    None => None,
                }
            } else {
                None
            }
        },
    }
}

fn pattern_for(field: &str) -> (r: Vec<char>)
    ensures
        r@ == "\""@ + field@ + "\":"@,
        r@.len() > 0,
{
    let mut p = owned("\"");
    p.append(field);
    p.append("\":");
    proof {
        reveal_strlit("\":");
    }
    chars_of(p.as_str())
}

/// The value after the string key `"field":`, if it is a string.
pub fn extract_quoted_field(json: &str, field: &str) -> (r: Option<String>)
    ensures
        opt_view(r) == quoted_field_of(json@, field@),
{
    let v = chars_of(json);
    let pat = pattern_for(field);
    proof {
        lemma_find_from(v@, pat@, 0);
    }
    match find_seq(v.as_slice(), pat.as_slice(), 0) {
        None => None,
        Some(i) => {
            assert(i + pat@.len() <= v@.len());
            let vl = v.len();
            let pl = pat.len();
            assert(i + pl <= vl);
            let after = slice_chars(v.as_slice(), i + pat.len(), v.len());
            assert(after@ =~= json@.skip(i + pat@.len()));
            let k = lead_ws_exec(after.as_slice());
            proof {
                lemma_lead_ws_bound(after@);
            }
            let rest = slice_chars(after.as_slice(), k, after.len());
            assert(rest@ =~= trim_start_seq(after@));
            if rest.len() > 0 && rest[0] == '"' {
                let value = slice_chars(rest.as_slice(), 1, rest.len());
                assert(value@ =~= rest@.skip(1));
                proof {
                    lemma_first_index_of(value@, '"');
                }
                match find_char(value.as_slice(), '"') {
                    Some(e) => {
                        let out = slice_chars(value.as_slice(), 0, e);
                        assert(out@ =~= value@.take(e as int));
                        Some(string_from_chars(out.as_slice()))
                    },
                    None => None,
                }
            } else {
                None
            }
        },
    }
}

/// Every string value of `"field":` in `json`, in order: the search goes on
/// after each value, and past an occurrence whose value is not a string; it
/// stops at a value that is never closed.
pub open spec fn quoted_fields_from(rest: Seq<char>, pat: Seq<char>) -> Seq<Seq<char>>
    decreases rest.len(),
{
    if pat.len() == 0 {
        Seq::empty()
    } else {
        match find_from(rest, pat, 0) {
            None => Seq::empty(),
            Some(start) => {
                proof {
                    lemma_find_from(rest, pat, 0);
                }
                let after = rest.skip(start + pat.len());
                proof {
                    lemma_lead_ws_bound(after);
                }
                let t = trim_start_seq(after);
                if t.len() > 0 && t[0] == '"' {
                    let v = t.skip(1);
                    match first_index_of(v, '"') {
                        Some(e) => {
                            proof {
                                lemma_first_index_of(v, '"');
                            }
                            seq![v.take(e)] + quoted_fields_from(v.skip(e + 1), pat)
                        },
                        None => Seq::empty(),
                    }
                } else {
                    quoted_fields_from(after, pat)
                }
            },
        }
    }
}

pub open spec fn quoted_fields_of(json: Seq<char>, field: Seq<char>) -> Seq<Seq<char>> {
    quoted_fields_from(json, "\""@ + field + "\":"@)
}

/// The string values of every `"field":` in `json`.
pub fn extract_all_quoted_fields(json: &str, field: &str) -> (r: Vec<String>)
    ensures
        views(r@) == quoted_fields_of(json@, field@),
{
    let pat = pattern_for(field);
    let mut rest = chars_of(json);
    let mut values: Vec<String> = Vec::new();
    loop
        invariant
            pat@.len() > 0,
            pat@ == "\""@ + field@ + "\":"@,
            views(values@) + quoted_fields_from(rest@, pat@) == quoted_fields_of(json@, field@),
        decreases rest@.len(),
    {
        proof {
            lemma_find_from(rest@, pat@, 0);
        }
        let start = match find_seq(rest.as_slice(), pat.as_slice(), 0) {
            Some(i) => i,
            None => {
                assert(views(values@) + Seq::<Seq<char>>::empty() =~= views(values@));
                return values;
            },
        };
        let rl = rest.len();
        let pl = pat.len();
        assert(start + pl <= rl);
        let after = slice_chars(rest.as_slice(), start + pat.len(), rest.len());
        assert(after@ =~= rest@.skip(start + pat@.len()));
        let k = lead_ws_exec(after.as_slice());
        proof {
            lemma_lead_ws_bound(after@);
        }
        let t = slice_chars(after.as_slice(), k, after.len());
        assert(t@ =~= trim_start_seq(after@));
        if t.len() > 0 && t[0] == '"' {
            let v = slice_chars(t.as_slice(), 1, t.len());
            assert(v@ =~= t@.skip(1));
            proof {
                lemma_first_index_of(v@, '"');
            }
            match find_char(v.as_slice(), '"') {
                Some(e) => {
                    let value = slice_chars(v.as_slice(), 0, e);
                    assert(value@ =~= v@.take(e as int));
                    let s = string_from_chars(value.as_slice());
                    let ghost before = values@;
                    values.push(s);
                    let next = slice_chars(v.as_slice(), e + 1, v.len());
                    assert(next@ =~= v@.skip(e + 1));
                    proof {
                        assert(views(values@) =~= views(before).push(s@));
                        assert(views(values@) + quoted_fields_from(next@, pat@) =~= views(before)
                            + (seq![v@.take(e as int)] + quoted_fields_from(next@, pat@)));
                    }
                    rest = next;
                },
                None => {
                    assert(views(values@) + Seq::<Seq<char>>::empty() =~= views(values@));
                    return values;
                },
            }
        } else {
            rest = after;
        }
    }
}

/// The length of the first word of `s`: up to its first whitespace.
pub open spec fn word_end(s: Seq<char>) -> nat
    decreases s.len(),
{
    if s.len() == 0 || is_ws(s[0]) {
        0
    } else {
        1 + word_end(s.drop_first())
    }
}

proof fn lemma_word_end(s: Seq<char>)
    ensures
        word_end(s) <= s.len(),
        forall|i: int| 0 <= i < word_end(s) ==> !is_ws(#[trigger] s[i]),
        word_end(s) < s.len() ==> is_ws(s[word_end(s) as int]),
    decreases s.len(),
{
    if s.len() > 0 && !is_ws(s[0]) {
        lemma_word_end(s.drop_first());
        assert forall|i: int| 0 <= i < word_end(s) implies !is_ws(#[trigger] s[i]) by {
            if i > 0 {
                assert(s[i] == s.drop_first()[i - 1]);
            }
        }
    }
}

fn word_end_exec(v: &[char]) -> (n: usize)
    ensures
        n == word_end(v@),
{
    let mut i: usize = 0;
    assert(v@.skip(0) =~= v@);
    while i < v.len() && !is_whitespace(v[i])
        invariant
            i <= v@.len(),
            word_end(v@) == i + word_end(v@.skip(i as int)),
        decreases v@.len() - i,
    {
        assert(v@.skip(i as int).drop_first() =~= v@.skip(i + 1));
        i = i + 1;
    }
    i
}

/// The second whitespace-separated word of `s`.
pub open spec fn second_word(s: Seq<char>) -> Option<Seq<char>> {
    let a = trim_start_seq(s);
    if a.len() == 0 {
        None
    } else {
        let r = trim_start_seq(a.skip(word_end(a) as int));
        if r.len() == 0 {
            None
        } else {
            Some(r.take(word_end(r) as int))
        }
    }
}

/// The status code of an HTTP status line: its second word, read as a `u16`.
pub open spec fn status_of(line: Seq<char>) -> Option<u16> {
    match second_word(line) {
        Some(w) => match parse_unsigned(w) {
            Some(n) => if n <= 65535 {
                Some(n as u16)
            } else {
                None
            },
            None => None,
        },
        None => None,
    }
}

fn trim_start_chars(v: &[char]) -> (r: Vec<char>)
    ensures
        r@ == trim_start_seq(v@),
{
    let k = lead_ws_exec(v);
    proof {
        lemma_lead_ws_bound(v@);
    }
    let r = slice_chars(v, k, v.len());
    assert(r@ =~= trim_start_seq(v@));
    r
}

/// The status code of a response's status line.
pub fn response_status(line: &str) -> (r: Option<u16>)
    ensures
        r == status_of(line@),
{
    let v = chars_of(line);
    let a = trim_start_chars(v.as_slice());
    if a.len() == 0 {
        return None;
    }
    let e = word_end_exec(a.as_slice());
    proof {
        lemma_word_end(a@);
    }
    let tail = slice_chars(a.as_slice(), e, a.len());
    assert(tail@ =~= a@.skip(e as int));
    let r = trim_start_chars(tail.as_slice());
    if r.len() == 0 {
        return None;
    }
    let f = word_end_exec(r.as_slice());
    proof {
        lemma_word_end(r@);
    }
    let w = slice_chars(r.as_slice(), 0, f);
    assert(w@ =~= r@.take(f as int));
    let ws = string_from_chars(w.as_slice());
    match parse_unsigned_exec(ws.as_str(), 65535) {
        Some(n) => Some(n as u16),
        None => None,
    }
}

/// The number of line-break characters (`\r`, `\n`) at the end of `s`.
pub open spec fn trailing_breaks(s: Seq<char>) -> nat
    decreases s.len(),
{
    if s.len() > 0 && (s.last() == '\r' || s.last() == '\n') {
        1 + trailing_breaks(s.drop_last())
    } else {
        0
    }
}

/// A header line without its line break.
pub open spec fn header_text(line: Seq<char>) -> Seq<char> {
    line.take(line.len() - trailing_breaks(line))
}

proof fn lemma_trailing_breaks(s: Seq<char>)
    ensures
        trailing_breaks(s) <= s.len(),
    decreases s.len(),
{
    if s.len() > 0 && (s.last() == '\r' || s.last() == '\n') {
        lemma_trailing_breaks(s.drop_last());
    }
}

fn header_chars(line: &str) -> (r: Vec<char>)
    ensures
        r@ == header_text(line@),
{
    let v = chars_of(line);
    let mut n: usize = v.len();
    assert(v@.take(n as int) =~= v@);
    while n > 0 && (v[n - 1] == '\r' || v[n - 1] == '\n')
        invariant
            n <= v@.len(),
            trailing_breaks(v@) == (v@.len() - n) + trailing_breaks(v@.take(n as int)),
        decreases n,
    {
        assert(v@.take(n as int).drop_last() =~= v@.take(n - 1));
        n = n - 1;
    }
    proof {
        lemma_trailing_breaks(v@);
    }
    slice_chars(v.as_slice(), 0, n)
}

/// Whether a response line ends the headers: nothing but its line break.
pub fn ends_headers(line: &str) -> (r: bool)
    ensures
        r == (header_text(line@).len() == 0),
{
    header_chars(line).len() == 0
}

/// What a header line says of the body's length: `None` when it is not
/// `content-length` (in any letter case), else the length it gives, if that
/// reads as a number.
pub open spec fn content_length_of(line: Seq<char>) -> Option<Option<usize>> {
    match split_once(header_text(line), ':') {
        Some(p) => if lower_seq(p.0) == "content-length"@ {
            Some(
                match parse_unsigned(trim_seq(p.1)) {
                    Some(n) => if n <= usize::MAX {
                        Some(n as usize)
                    } else {
                        None
                    },
                    None => None,
                },
            )
        } else {
            None
        },
        None => None,
    }
}

pub fn content_length_header(line: &str) -> (r: Option<Option<usize>>)
    ensures
        r == content_length_of(line@),
{
    let h = header_chars(line);
    let hs = string_from_chars(h.as_slice());
    match super::serve::split_once_exec(hs.as_str(), ':') {
        Some((name, value)) => {
            let lower = to_lower(name.as_str());
            if str_eq(lower.as_str(), "content-length") {
                let t = trim(value.as_str());
                match parse_unsigned_exec(t.as_str(), usize::MAX as u64) {
                    Some(n) => Some(Some(n as usize)),
                    None => Some(None),
                }
            } else {
                None
            }
        },
        None => None,
    }
}

/// A response body, or the error a status outside `200..300` makes of it.
pub fn response_body(status: u16, body: String) -> (r: Result<String, CliError>)
    ensures
        200 <= status < 300 ==> r == Ok::<String, CliError>(body),
        !(200 <= status < 300) ==> (r matches Err(e) && e.message@ == "AuthPort returned "@ + decimal(
            status as nat,
        ) + ": "@ + body@),
{
    if 200 <= status && status < 300 {
        Ok(body)
    } else {
        let mut m = owned("AuthPort returned ");
        let d = u64_decimal(status as u64);
        m.append(d.as_str());
        m.append(": ");
        m.append(body.as_str());
        Err(error_owned(m))
    }
}

/// The ids of the inferred proposals a listing names; refused when there
/// are none.
pub fn inferred_proposal_ids(proposals: &str) -> (r: Result<Vec<String>, CliError>)
    ensures
        quoted_fields_of(proposals@, "id"@).len() == 0 ==> (r matches Err(e) && e.message@
            == "no inferred proposals to approve or apply"@),
        quoted_fields_of(proposals@, "id"@).len() > 0 ==> (r matches Ok(v) && views(v@)
            == quoted_fields_of(proposals@, "id"@)),
{
    let ids = extract_all_quoted_fields(proposals, "id");
    if ids.len() == 0 {
        return Err(error("no inferred proposals to approve or apply"));
    }
    Ok(ids)
}

/// What the token cache holds for `token`.
pub fn token_file_text(token: &str) -> (r: String)
    ensures
        r@ == "{\"token\": "@ + quote(token@) + "}\n"@,
{
    let mut out = owned("{\"token\": \"");
    let e = escape(token);
    out.append(e.as_str());
    out.append("\"}\n");
    proof {
        reveal_strlit("{\"token\": \"");
        reveal_strlit("{\"token\": ");
        reveal_strlit("\"}\n");
        reveal_strlit("}\n");
        reveal_strlit("\"");
    }
    assert(out@ =~= "{\"token\": "@ + quote(token@) + "}\n"@);
    out
}

/// What the proposal cache holds for a response from `server`.
pub fn cached_proposal_text(server: &str, response: &str) -> (r: String)
    ensures
        r@ == "{\"server_url\": "@ + quote(server@) + ", \"response\": "@ + response@ + "}"@,
{
    let mut out = owned("{\"server_url\": \"");
    let e = escape(server);
    out.append(e.as_str());
    out.append("\", \"response\": ");
    out.append(response);
    out.append("}");
    proof {
        reveal_strlit("{\"server_url\": \"");
        reveal_strlit("{\"server_url\": ");
        reveal_strlit("\", \"response\": ");
        reveal_strlit(", \"response\": ");
        reveal_strlit("\"");
    }
    assert(out@ =~= "{\"server_url\": "@ + quote(server@) + ", \"response\": "@ + response@ + "}"@);
    out
}

/// The body that names proposals to approve or apply in one request.
pub open spec fn proposal_ids_body_of(ids: Seq<Seq<char>>) -> Seq<char> {
    "{\"proposal_ids\": "@ + quote(join_with(ids, ","@)) + "}"@
}

pub fn proposal_ids_body(ids: &Vec<String>) -> (r: String)
    ensures
        r@ == proposal_ids_body_of(views(ids@)),
{
    let joined = join(ids, ",");
    let mut out = owned("{\"proposal_ids\": ");
    append_quote(&mut out, joined.as_str());
    out.append("}");
    out
}

/// The body naming one proposal, with its approval token where the cache
/// holds one.
pub open spec fn apply_body_of(proposal_id: Seq<char>, token: Seq<char>) -> Seq<char> {
    if token.len() == 0 {
        "{\"proposal_id\": "@ + quote(proposal_id) + "}"@
    } else {
        "{\"proposal_id\": "@ + quote(proposal_id) + ", \"approval_token\": "@ + quote(token) + "}"@
    }
}

pub fn apply_body(proposal_id: &str, approval_token: &str) -> (r: String)
    ensures
        r@ == apply_body_of(proposal_id@, approval_token@),
{
    let mut out = owned("{\"proposal_id\": ");
    append_quote(&mut out, proposal_id);
    if approval_token.unicode_len() > 0 {
        out.append(", \"approval_token\": ");
        append_quote(&mut out, approval_token);
    }
    out.append("}");
    out
}

/// The body rejecting a proposal.
pub fn reject_body(proposal_id: &str, reason: &str) -> (r: String)
    ensures
        r@ == "{\"proposal_id\": "@ + quote(proposal_id@) + ", \"reason\": "@ + quote(reason@) + "}"@,
{
    let mut out = owned("{\"proposal_id\": ");
    append_quote(&mut out, proposal_id);
    out.append(", \"reason\": ");
    append_quote(&mut out, reason);
    out.append("}");
    out
}

/// What a command reports: its label, the server, and the response.
pub fn report(label: &str, server: &str, response: &str) -> (r: String)
    ensures
        r@ == label@ + " "@ + server@ + "\n"@ + response@ + "\n"@,
{
    let mut out = cat3(label, " ", server);
    out.append("\n");
    out.append(response);
    out.append("\n");
    out
}

/// The HTTP/1.1 request text the control client sends.
pub fn http_request_text(method: &str, path: &str, host: &str, body: &str) -> (r: String)
    ensures
        r@ == method@ + " "@ + path@ + " HTTP/1.1\r\nhost: "@ + host@
            + "\r\ncontent-type: application/json\r\ncontent-length: "@ + decimal(crate::text::utf8(body@).len())
            + "\r\nconnection: close\r\n\r\n"@ + body@,
{
    let mut bytes: Vec<u8> = Vec::new();
    crate::text::push_utf8(&mut bytes, body);
    let n = u64_decimal(bytes.len() as u64);
    let mut out = cat3(method, " ", path);
    out.append(" HTTP/1.1\r\nhost: ");
    out.append(host);
    out.append("\r\ncontent-type: application/json\r\ncontent-length: ");
    out.append(n.as_str());
    out.append("\r\nconnection: close\r\n\r\n");
    out.append(body);
    out
}

} // verus!

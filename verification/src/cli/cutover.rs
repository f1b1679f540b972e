//! Cutover: the checks that must pass, in order, before AuthBoundry becomes
//! the verified authority of an adopted application. Each step decides on
//! the answer to the request before it; sending the requests is left to the
//! program around the library.
use vstd::prelude::*;
use crate::text::{owned, cat, cat3, contains_seq, contains_str, u64_decimal, decimal};
use crate::discovery::model::RouteCandidate;
use crate::discovery::render::{esc, append_escaped};
use super::adoption::{public_entry, is_public_entry_path};
use super::declaration::{replace_first, replace_first_exec};
use super::serve::Account;
use super::{CliError, error, error_owned};

verus! {

pub const PLANNED_STATUS: &'static str = "\"status\": \"planned\"";

pub const VERIFIED_STATUS: &'static str = "\"status\": \"verified\"";

/// What a request of the cutover got: a response, or the reason none came.
#[derive(Debug, Clone, PartialEq, Eq)]
pub enum Reply {
    Answered { status: u16, session: Option<String> },
    Failed(String),
}

/// Why cutover cannot begin, where it cannot: no integration record, one
/// not awaiting cutover, no rollback journal, an application that is no
/// longer found, or no bridge in its entrypoints.
pub open spec fn cutover_refusal(record: Option<Seq<char>>, journal: bool, discovered: bool, bridged: bool) -> Option<
    Seq<char>,
> {
    match record {
        None => Some("no AuthBoundry integration plan exists; run `authboundry init` first"@),
        Some(r) => if !contains_seq(r, PLANNED_STATUS@) {
            Some("integration is not awaiting cutover"@)
        } else if !journal {
            Some("cutover refused: reversible rollback journal is missing"@)
        } else if !discovered {
            Some("application is no longer discoverable"@)
        } else if !bridged {
            Some("cutover refused: native framework bridge is missing"@)
        } else {
            None
        },
    }
}

pub fn cutover_ready(record: &Option<String>, journal: bool, discovered: bool, bridged: bool) -> (r: Result<
    (),
    CliError,
>)
    ensures
        match cutover_refusal(super::control::opt_view(*record), journal, discovered, bridged) {
            Some(m) => r matches Err(e) && e.message@ == m,
            None => r is Ok,
        },
{
    match record {
        None => Err(error("no AuthBoundry integration plan exists; run `authboundry init` first")),
        Some(r) => {
            if !contains_str(r.as_str(), PLANNED_STATUS) {
                Err(error("integration is not awaiting cutover"))
            } else if !journal {
                Err(error("cutover refused: reversible rollback journal is missing"))
            } else if !discovered {
                Err(error("application is no longer discoverable"))
            } else if !bridged {
                Err(error("cutover refused: native framework bridge is missing"))
            } else {
                Ok(())
            }
        },
    }
}

/// The first discovered route that is not a public entry.
pub open spec fn protected_path(routes: Seq<RouteCandidate>) -> Option<Seq<char>>
    decreases routes.len(),
{
    if routes.len() == 0 {
        None
    } else if !public_entry(routes[0].path@) {
        Some(routes[0].path@)
    } else {
        protected_path(routes.drop_first())
    }
}

fn status_text(status: u16) -> (r: String)
    ensures
        r@ == decimal(status as nat),
{
    u64_decimal(status as u64)
}

/// After the public route was asked for: the protected route to try next,
/// or why cutover is refused.
pub open spec fn public_checked(routes: Seq<RouteCandidate>, reply: Reply) -> Result<Seq<char>, Seq<char>> {
    match reply {
        Reply::Failed(m) => Err("public-route verification failed: "@ + m@),
        Reply::Answered { status, .. } => if status >= 400 {
            Err("cutover refused: public route returned "@ + decimal(status as nat))
        } else {
            match protected_path(routes) {
                Some(p) => Ok(p),
                None => Err("cutover refused: no protected application route was discovered"@),
            }
        },
    }
}

pub fn after_public(routes: &Vec<RouteCandidate>, reply: &Reply) -> (r: Result<String, CliError>)
    ensures
        match public_checked(routes@, *reply) {
            Ok(p) => r matches Ok(x) && x@ == p,
            Err(m) => r matches Err(e) && e.message@ == m,
        },
{
    match reply {
        Reply::Failed(m) => Err(error_owned(cat("public-route verification failed: ", m.as_str()))),
        Reply::Answered { status, .. } => {
            if *status >= 400 {
                let s = status_text(*status);
                return Err(error_owned(cat("cutover refused: public route returned ", s.as_str())));
            }
            let mut i: usize = 0;
            assert(routes@.skip(0) =~= routes@);
            while i < routes.len()
                invariant
                    i <= routes@.len(),
                    *reply matches Reply::Answered { status, .. } && status < 400,
                    protected_path(routes@) == protected_path(routes@.skip(i as int)),
                decreases routes@.len() - i,
            {
                let ghost rest = routes@.skip(i as int);
                assert(rest[0] == routes@[i as int]);
                if !is_public_entry_path(routes[i].path.as_str()) {
                    return Ok(routes[i].path.clone());
                }
                assert(rest.drop_first() =~= routes@.skip(i + 1));
                i = i + 1;
            }
            assert(routes@.skip(i as int) =~= Seq::<RouteCandidate>::empty());
            Err(error("cutover refused: no protected application route was discovered"))
        },
    }
}

pub open spec fn denied(status: u16) -> bool {
    status == 401 || status == 403
}

/// The sign-in body of the development administrator.
pub open spec fn sign_in_body(admin: Account) -> Seq<char> {
    "{\"tenant\":\""@ + esc(admin.tenant@) + "\",\"connector\":\"local\",\"username\":\""@ + esc(admin.username@)
        + "\",\"password\":\""@ + esc(admin.password@) + "\"}"@
}

/// After the protected route was asked for anonymously: the administrator's
/// sign-in body, or why cutover is refused.
pub open spec fn anonymous_checked(protected: Seq<char>, reply: Reply, admin: Option<Account>) -> Result<
    Seq<char>,
    Seq<char>,
> {
    match reply {
        Reply::Failed(m) => Err("anonymous-denial verification failed: "@ + m@),
        Reply::Answered { status, .. } => if !denied(status) {
            Err("cutover refused: anonymous request to `"@ + protected + "` returned "@ + decimal(status as nat)
                + ", expected denial"@)
        } else {
            match admin {
                Some(a) => Ok(sign_in_body(a)),
                None => Err("cutover refused: development admin account is missing"@),
            }
        },
    }
}

pub fn after_anonymous(protected: &str, reply: &Reply, admin: Option<&Account>) -> (r: Result<String, CliError>)
    ensures
        match anonymous_checked(
            protected@,
            *reply,
            match admin {
                Some(a) => Some(*a),
                None => None,
            },
        ) {
            Ok(b) => r matches Ok(x) && x@ == b,
            Err(m) => r matches Err(e) && e.message@ == m,
        },
{
    match reply {
        Reply::Failed(m) => Err(error_owned(cat("anonymous-denial verification failed: ", m.as_str()))),
        Reply::Answered { status, .. } => {
            if !(*status == 401 || *status == 403) {
                let mut m = cat3("cutover refused: anonymous request to `", protected, "` returned ");
                let s = status_text(*status);
                m.append(s.as_str());
                m.append(", expected denial");
                return Err(error_owned(m));
            }
            match admin {
                None => Err(error("cutover refused: development admin account is missing")),
                Some(a) => {
                    let mut body = owned("{\"tenant\":\"");
                    append_escaped(&mut body, a.tenant.as_str());
                    body.append("\",\"connector\":\"local\",\"username\":\"");
                    append_escaped(&mut body, a.username.as_str());
                    body.append("\",\"password\":\"");
                    append_escaped(&mut body, a.password.as_str());
                    body.append("\"}");
                    Ok(body)
                },
            }
        },
    }
}

/// After the administrator signed in: the session to forward with, or why
/// cutover is refused.
pub open spec fn sign_in_checked(reply: Reply) -> Result<Seq<char>, Seq<char>> {
    match reply {
        Reply::Failed(m) => Err("admin sign-in verification failed: "@ + m@),
        Reply::Answered { status, session } => if status != 200 {
            Err("cutover refused: admin sign-in returned "@ + decimal(status as nat))
        } else {
            match session {
                Some(s) => Ok(s@),
                None => Err("cutover refused: admin sign-in issued no session"@),
            }
        },
    }
}

pub fn after_sign_in(reply: &Reply) -> (r: Result<String, CliError>)
    ensures
        match sign_in_checked(*reply) {
            Ok(s) => r matches Ok(x) && x@ == s,
            Err(m) => r matches Err(e) && e.message@ == m,
        },
{
    match reply {
        Reply::Failed(m) => Err(error_owned(cat("admin sign-in verification failed: ", m.as_str()))),
        Reply::Answered { status, session } => {
            if *status != 200 {
                let s = status_text(*status);
                return Err(error_owned(cat("cutover refused: admin sign-in returned ", s.as_str())));
            }
            match session {
                Some(s) => Ok(s.clone()),
                None => Err(error("cutover refused: admin sign-in issued no session")),
            }
        },
    }
}

/// After the protected route was asked for with the session.
pub open spec fn authenticated_checked(protected: Seq<char>, reply: Reply) -> Option<Seq<char>> {
    match reply {
        Reply::Failed(m) => Some("authenticated forwarding verification failed: "@ + m@),
        Reply::Answered { status, .. } => if status >= 400 {
            Some("cutover refused: authenticated route `"@ + protected + "` returned "@ + decimal(status as nat))
        } else {
            None
        },
    }
}

pub fn after_authenticated(protected: &str, reply: &Reply) -> (r: Result<(), CliError>)
    ensures
        match authenticated_checked(protected@, *reply) {
            Some(m) => r matches Err(e) && e.message@ == m,
            None => r is Ok,
        },
{
    match reply {
        Reply::Failed(m) => Err(error_owned(cat("authenticated forwarding verification failed: ", m.as_str()))),
        Reply::Answered { status, .. } => {
            if *status >= 400 {
                let mut m = cat3("cutover refused: authenticated route `", protected, "` returned ");
                let s = status_text(*status);
                m.append(s.as_str());
                Err(error_owned(m))
            } else {
                Ok(())
            }
        },
    }
}

/// After the protected route was asked for directly at the application,
/// bypassing the boundary: it must be denied.
pub open spec fn direct_checked(protected: Seq<char>, reply: Reply) -> Option<Seq<char>> {
    match reply {
        Reply::Failed(m) => Some("direct-access verification failed: "@ + m@),
        Reply::Answered { status, .. } => if !denied(status) {
            Some("cutover refused: direct application access to `"@ + protected + "` returned "@ + decimal(
                status as nat,
            ) + "; protection remains bypassable"@)
        } else {
            None
        },
    }
}

pub fn after_direct(protected: &str, reply: &Reply) -> (r: Result<(), CliError>)
    ensures
        match direct_checked(protected@, *reply) {
            Some(m) => r matches Err(e) && e.message@ == m,
            None => r is Ok,
        },
{
    match reply {
        Reply::Failed(m) => Err(error_owned(cat("direct-access verification failed: ", m.as_str()))),
        Reply::Answered { status, .. } => {
            if !(*status == 401 || *status == 403) {
                let mut m = cat3("cutover refused: direct application access to `", protected, "` returned ");
                let s = status_text(*status);
                m.append(s.as_str());
                m.append("; protection remains bypassable");
                Err(error_owned(m))
            } else {
                Ok(())
            }
        },
    }
}

/// The integration record once cutover is verified.
pub fn verified_record(record: &str) -> (r: String)
    ensures
        r@ == replace_first(record@, PLANNED_STATUS@, VERIFIED_STATUS@),
{
    replace_first_exec(record, PLANNED_STATUS, VERIFIED_STATUS)
}

/// What a verified cutover reports.
pub const CUTOVER_REPORT: &'static str = "AuthBoundry cutover verified.\n\u{2713} public route accessible\n\u{2713} protected route denied anonymously\n\u{2713} admin sign-in established a session\n\u{2713} protected route forwarded with verified authority\n\u{2713} direct application bypass denied or not externally exposed\n\u{2713} rollback remains available\nIncumbent authentication may now be offboarded with `authboundry offboard-auth --yes`.\n";

} // verus!

//! The client-side projection: a read-only description of what the server
//! already decided. Editing it in a browser changes nothing.
use vstd::prelude::*;
use crate::text::{owned, views, join_with, bool_text, bool_str, signed_decimal, i64_decimal};
use crate::discovery::render::{esc, quoted, quoted_list, append_escaped, append_quoted, append_quoted_list};

verus! {

#[derive(Debug, Clone, PartialEq, Eq)]
pub struct ClientDelegation {
    pub id: String,
    pub delegated_by: String,
    pub capabilities: Vec<String>,
}

#[derive(Debug, Clone, PartialEq, Eq)]
pub struct ClientAuthContext {
    pub authenticated: bool,
    pub principal_id: String,
    pub principal_kind: String,
    pub tenant_id: String,
    pub claims: Vec<(String, String)>,
    pub capabilities: Vec<String>,
    pub session_expires_at: i64,
    pub delegation: Option<ClientDelegation>,
}

pub open spec fn claim_json(c: (String, String)) -> Seq<char> {
    quoted(c.0@) + ": "@ + quoted(c.1@)
}

pub open spec fn delegation_json(d: Option<ClientDelegation>) -> Seq<char> {
    match d {
        Some(d) => "{\"id\": "@ + quoted(d.id@) + ", \"delegated_by\": "@ + quoted(d.delegated_by@)
            + ", \"capabilities\": ["@ + quoted_list(views(d.capabilities@)) + "]}"@,
        None => "null"@,
    }
}

/// The shape `useAuth()` receives.
pub open spec fn context_json(c: ClientAuthContext) -> Seq<char> {
    "{\"authenticated\": "@ + bool_text(c.authenticated) + ", \"principal\": {\"id\": "@ + quoted(c.principal_id@)
        + ", \"kind\": "@ + quoted(c.principal_kind@) + "}, \"tenant\": {\"id\": "@ + quoted(c.tenant_id@)
        + "}, \"claims\": {"@ + join_with(c.claims@.map_values(|p: (String, String)| claim_json(p)), ", "@)
        + "}, \"capabilities\": ["@ + quoted_list(views(c.capabilities@)) + "], \"session\": {\"expires_at\": "@
        + signed_decimal(c.session_expires_at as int) + "}, \"delegation\": "@ + delegation_json(c.delegation) + "}"@
}

fn append_claims(out: &mut String, claims: &Vec<(String, String)>)
    ensures
        final(out)@ == old(out)@ + join_with(claims@.map_values(|p: (String, String)| claim_json(p)), ", "@),
{
    let ghost start = out@;
    let ghost q = claims@.map_values(|p: (String, String)| claim_json(p));
    let mut i: usize = 0;
    while i < claims.len()
        invariant
            i <= claims@.len(),
            q == claims@.map_values(|p: (String, String)| claim_json(p)),
            out@ == start + join_with(q.take(i as int), ", "@),
        decreases claims@.len() - i,
    {
        if i > 0 {
            out.append(", ");
        }
        let ghost o0 = out@;
        append_quoted(out, claims[i].0.as_str());
        out.append(": ");
        append_quoted(out, claims[i].1.as_str());
        proof {
            assert(out@ =~= o0 + claim_json(claims@[i as int]));
            let t = q.take(i + 1);
            assert(t.drop_last() =~= q.take(i as int));
            assert(t.last() == claim_json(claims@[i as int]));
            assert(out@ =~= start + join_with(t, ", "@));
        }
        i = i + 1;
    }
    assert(q.take(i as int) =~= q);
}

impl ClientAuthContext {
    #[verifier::rlimit(40)]
    pub fn to_json(&self) -> (r: String)
        ensures
            r@ == context_json(*self),
    {
        let mut out = owned("{\"authenticated\": ");
        out.append(bool_str(self.authenticated));
        out.append(", \"principal\": {\"id\": ");
        append_quoted(&mut out, self.principal_id.as_str());
        out.append(", \"kind\": ");
        append_quoted(&mut out, self.principal_kind.as_str());
        out.append("}, \"tenant\": {\"id\": ");
        append_quoted(&mut out, self.tenant_id.as_str());
        out.append("}, \"claims\": {");
        append_claims(&mut out, &self.claims);
        out.append("}, \"capabilities\": [");
        append_quoted_list(&mut out, &self.capabilities);
        out.append("], \"session\": {\"expires_at\": ");
        let e = i64_decimal(self.session_expires_at);
        out.append(e.as_str());
        out.append("}, \"delegation\": ");
        let ghost before_delegation = out@;
        match &self.delegation {
            Some(d) => {
                out.append("{\"id\": ");
                append_quoted(&mut out, d.id.as_str());
                out.append(", \"delegated_by\": ");
                append_quoted(&mut out, d.delegated_by.as_str());
                out.append(", \"capabilities\": [");
                append_quoted_list(&mut out, &d.capabilities);
                out.append("]}");
            },
            None => out.append("null"),
        }
        assert(out@ =~= before_delegation + delegation_json(self.delegation));
        out.append("}");
        assert(out@ =~= context_json(*self));
        out
    }

    /// What an unauthenticated browser sees: no authority at all.
    pub fn anonymous_json() -> (r: String)
        ensures
            r@ == "{\"authenticated\": false, \"principal\": null, \"tenant\": null, \"claims\": {}, \"capabilities\": [], \"session\": null, \"delegation\": null}"@,
    {
        owned(
            "{\"authenticated\": false, \"principal\": null, \"tenant\": null, \"claims\": {}, \"capabilities\": [], \"session\": null, \"delegation\": null}",
        )
    }
}

} // verus!

//! The deployment flags of `serve`: accounts, grants and the rest of what a
//! contract does not own.
use vstd::prelude::*;
use crate::text::{
    owned, cat3, chars_of, string_from_chars, slice_chars, trim, trim_seq, blank_seq, is_blank,
    first_index_of, find_char, lemma_first_index_of, views,
};
use crate::assoc::{lookup, set_entry};
use crate::discovery::paths::{nonempty_parts, split_nonempty};
use super::{CliError, error, error_owned};
use crate::text::cat;
use crate::authz::policy::{Condition, Effect, Policy, Rule};
use crate::contract::claims::ClaimValue;
use crate::contract::ids::{PolicyId, StorageRootId, TenantId};
use crate::contract::tenant::TenantContext;

verus! {

#[derive(Debug, Clone, PartialEq, Eq)]
pub struct ServeOptions {
    pub address: String,
    pub tenants: Vec<String>,
    pub accounts: Vec<Account>,
    pub grants: Vec<Grant>,
    pub upstream: Option<String>,
    pub public_paths: Vec<String>,
    pub required: Vec<(String, String)>,
    pub proxy_secret: String,
}

impl Default for ServeOptions {
    fn default() -> (r: Self)
        ensures
            r.address@ == "127.0.0.1:8787"@,
            r.tenants@.len() == 0,
            r.accounts@.len() == 0,
            r.grants@.len() == 0,
            r.upstream is None,
            r.public_paths@.len() == 0,
            r.required@.len() == 0,
            r.proxy_secret@ == "authport-development-secret"@,
    {
        ServeOptions {
            address: owned("127.0.0.1:8787"),
            tenants: Vec::new(),
            accounts: Vec::new(),
            grants: Vec::new(),
            upstream: None,
            public_paths: Vec::new(),
            required: Vec::new(),
            proxy_secret: owned("authport-development-secret"),
        }
    }
}

/// The index of the last `c` in `s`.
pub open spec fn last_index_of(s: Seq<char>, c: char) -> Option<int>
    decreases s.len(),
{
    if s.len() == 0 {
        None
    } else if s.last() == c {
        Some(s.len() - 1)
    } else {
        last_index_of(s.drop_last(), c)
    }
}

fn find_last(v: &Vec<char>, c: char) -> (r: Option<usize>)
    ensures
        match r {
            Some(i) => last_index_of(v@, c) == Some(i as int) && i < v@.len(),
            None => last_index_of(v@, c) is None,
        },
{
    let mut i: usize = v.len();
    assert(v@.take(i as int) =~= v@);
    while i > 0
        invariant
            i <= v@.len(),
            last_index_of(v@, c) == last_index_of(v@.take(i as int), c),
        decreases i,
    {
        proof {
            let t = v@.take(i as int);
            assert(t.drop_last() =~= v@.take(i - 1));
        }
        if v[i - 1] == c {
            return Some(i - 1);
        }
        i = i - 1;
    }
    None
}

/// `s` split at its first `c`: the text before and after it.
pub open spec fn split_once(s: Seq<char>, c: char) -> Option<(Seq<char>, Seq<char>)> {
    match first_index_of(s, c) {
        Some(i) => Some((s.take(i), s.skip(i + 1))),
        None => None,
    }
}

pub(crate) fn split_once_exec(s: &str, c: char) -> (r: Option<(String, String)>)
    ensures
        match split_once(s@, c) {
            Some(p) => r matches Some(x) && x.0@ == p.0 && x.1@ == p.1,
            None => r is None,
        },
{
    let v = chars_of(s);
    proof {
        lemma_first_index_of(v@, c);
    }
    match find_char(v.as_slice(), c) {
        Some(i) => {
            assert(i < v@.len());
            let a = slice_chars(v.as_slice(), 0, i);
            let b = slice_chars(v.as_slice(), i + 1, v.len());
            assert(a@ =~= v@.take(i as int));
            assert(b@ =~= v@.skip(i + 1));
            Some((string_from_chars(a.as_slice()), string_from_chars(b.as_slice())))
        },
        None => None,
    }
}

/// The claims of `name=value,...`: blank items and items without `=` are
/// skipped, names and values trimmed, a later value for a name replacing an
/// earlier one.
pub open spec fn claim_items(items: Seq<Seq<char>>) -> Seq<(Seq<char>, Seq<char>)>
    decreases items.len(),
{
    if items.len() == 0 {
        Seq::empty()
    } else {
        let rest = claim_items(items.drop_last());
        let item = items.last();
        if blank_seq(item) {
            rest
        } else {
            match split_once(item, '=') {
                Some(p) => rest.push((trim_seq(p.0), trim_seq(p.1))),
                None => rest,
            }
        }
    }
}

/// The value of the last pair named `k`.
pub open spec fn last_pair_value(pairs: Seq<(Seq<char>, Seq<char>)>, k: Seq<char>) -> Option<Seq<char>>
    decreases pairs.len(),
{
    if pairs.len() == 0 {
        None
    } else if pairs.last().0 == k {
        Some(pairs.last().1)
    } else {
        last_pair_value(pairs.drop_last(), k)
    }
}

pub open spec fn value_of(o: Option<String>) -> Option<Seq<char>> {
    match o {
        Some(v) => Some(v@),
        None => None,
    }
}

/// `--account alice:secret:role=owner,plan=pro@acme`
#[derive(Debug, Clone, PartialEq, Eq)]
pub struct Account {
    pub tenant: String,
    pub username: String,
    pub password: String,
    pub claims: Vec<(String, String)>,
}

/// The account flag `raw` read: the tenant after the last `@` (else the
/// default), then up to three `:`-separated parts.
pub open spec fn account_parts(raw: Seq<char>, default_tenant: Seq<char>) -> (Seq<char>, Seq<char>, Option<Seq<char>>, Option<Seq<char>>) {
    let (spec, tenant) = match last_index_of(raw, '@') {
        Some(i) => (raw.take(i), raw.skip(i + 1)),
        None => (raw, default_tenant),
    };
    match split_once(spec, ':') {
        None => (tenant, spec, None, None),
        Some(a) => match split_once(a.1, ':') {
            None => (tenant, a.0, Some(a.1), None),
            Some(b) => (tenant, a.0, Some(b.0), Some(b.1)),
        },
    }
}

fn claims_from(text: &str) -> (r: Vec<(String, String)>)
    ensures
        forall|k: Seq<char>| value_of(#[trigger] lookup(r@, k)) == last_pair_value(
            claim_items(nonempty_parts(text@, ',')),
            k,
        ),
{
    let items = split_nonempty(text, ',');
    let ghost iv = views(items@);
    let mut out: Vec<(String, String)> = Vec::new();
    let mut i: usize = 0;
    while i < items.len()
        invariant
            i <= items@.len(),
            iv == views(items@),
            iv == nonempty_parts(text@, ','),
            forall|k: Seq<char>| value_of(#[trigger] lookup(out@, k)) == last_pair_value(
                claim_items(iv.take(i as int)),
                k,
            ),
        decreases items@.len() - i,
    {
        proof {
            let t = iv.take(i + 1);
            assert(t.drop_last() =~= iv.take(i as int));
            assert(t.last() == items@[i as int]@);
        }
        if !is_blank(items[i].as_str()) {
            match split_once_exec(items[i].as_str(), '=') {
                Some((name, value)) => {
                    let n = trim(name.as_str());
                    let v = trim(value.as_str());
                    let ghost nv = n@;
                    let ghost vv = v@;
                    let ghost before = out@;
                    set_entry(&mut out, n, v);
                    proof {
                        let t = iv.take(i + 1);
                        let ci = claim_items(t);
                        assert(ci == claim_items(iv.take(i as int)).push((nv, vv)));
                        assert(ci.drop_last() =~= claim_items(iv.take(i as int)));
                        assert forall|k: Seq<char>| value_of(#[trigger] lookup(out@, k)) == last_pair_value(ci, k) by {
                            if k == nv {
                                assert(last_pair_value(ci, k) == Some(vv));
                            } else {
                                assert(lookup(out@, k) == lookup(before, k));
                                assert(last_pair_value(ci, k) == last_pair_value(ci.drop_last(), k));
                            }
                        }
                    }
                },
                None => {},
            }
        }
        i = i + 1;
    }
    assert(iv.take(i as int) =~= iv);
    out
}

/// Why the account flag `raw` is refused, if it is: a username and a
/// password are required.
pub open spec fn account_error(raw: Seq<char>, default_tenant: Seq<char>) -> Option<Seq<char>> {
    let (tenant, username, password, claims) = account_parts(raw, default_tenant);
    if username.len() == 0 {
        Some("--account needs a username"@)
    } else if !(password matches Some(p) && p.len() > 0) {
        Some("--account "@ + username + " needs a password"@)
    } else {
        None
    }
}

/// `a` is the account the flag `raw` reads as.
pub open spec fn account_read(raw: Seq<char>, default_tenant: Seq<char>, a: Account) -> bool {
    let (tenant, username, password, claims) = account_parts(raw, default_tenant);
    &&& a.tenant@ == tenant
    &&& a.username@ == username
    &&& Some(a.password@) == password
    &&& forall|k: Seq<char>| value_of(#[trigger] lookup(a.claims@, k)) == match claims {
        Some(c) => last_pair_value(claim_items(nonempty_parts(c, ',')), k),
        None => None,
    }
}

impl Account {
    /// Reads `--account USER:PASS[:CLAIMS][@TENANT]`; a username and a
    /// password are required.
    pub fn parse(raw: &str, default_tenant: &str) -> (r: Result<Self, CliError>)
        ensures
            match account_error(raw@, default_tenant@) {
                Some(m) => r matches Err(e) && e.message@ == m,
                None => r matches Ok(a) && account_read(raw@, default_tenant@, a),
            },
    {
        let v = chars_of(raw);
        let (spec, tenant) = match find_last(&v, '@') {
            Some(i) => {
                assert(i < v@.len());
                assert(v@.len() == v.len());
                let a = slice_chars(v.as_slice(), 0, i);
                let b = slice_chars(v.as_slice(), i + 1, v.len());
                assert(a@ =~= raw@.take(i as int));
                assert(b@ =~= raw@.skip(i + 1));
                (string_from_chars(a.as_slice()), string_from_chars(b.as_slice()))
            },
            None => (owned(raw), owned(default_tenant)),
        };
        let (username, password, claims): (String, Option<String>, Option<String>) = match split_once_exec(
            spec.as_str(),
            ':',
        ) {
            None => (spec, None, None),
            Some((u, rest)) => match split_once_exec(rest.as_str(), ':') {
                None => (u, Some(rest), None),
                Some((p, c)) => (u, Some(p), Some(c)),
            },
        };
        if username.as_str().unicode_len() == 0 {
            return Err(error("--account needs a username"));
        }
        let password = match password {
            Some(p) => {
                if p.as_str().unicode_len() == 0 {
                    return Err(error_owned(cat3("--account ", username.as_str(), " needs a password")));
                }
                p
            },
            None => {
                return Err(error_owned(cat3("--account ", username.as_str(), " needs a password")));
            },
        };
        let claims = match claims {
            Some(c) => claims_from(c.as_str()),
            None => Vec::new(),
        };
        Ok(Account { tenant, username, password, claims })
    }
}

/// `--grant invoice.read=role:owner`
#[derive(Debug, Clone, PartialEq, Eq)]
pub struct Grant {
    pub capability: String,
    pub claim: String,
    pub value: String,
}

/// The capability, claim and value of the grant flag `raw`, each trimmed.
pub open spec fn grant_parts(raw: Seq<char>) -> Option<(Seq<char>, Seq<char>, Seq<char>)> {
    match split_once(raw, '=') {
        Some(a) => match split_once(a.1, ':') {
            Some(b) => Some((trim_seq(a.0), trim_seq(b.0), trim_seq(b.1))),
            None => None,
        },
        None => None,
    }
}

impl Grant {
    /// Reads `--grant CAPABILITY=CLAIM:VALUE`, each part trimmed.
    pub fn parse(raw: &str) -> (r: Result<Self, CliError>)
        ensures
            match grant_parts(raw@) {
                Some(g) => r matches Ok(x) && x.capability@ == g.0 && x.claim@ == g.1 && x.value@ == g.2,
                None => r matches Err(e) && e.message@ == "--grant expects capability=claim:value"@,
            },
    {
        let (capability, condition) = match split_once_exec(raw, '=') {
            Some(p) => p,
            None => {
                return Err(error("--grant expects capability=claim:value"));
            },
        };
        let (claim, value) = match split_once_exec(condition.as_str(), ':') {
            Some(p) => p,
            None => {
                return Err(error("--grant expects capability=claim:value"));
            },
        };
        Ok(Grant {
            capability: trim(capability.as_str()),
            claim: trim(claim.as_str()),
            value: trim(value.as_str()),
        })
    }
}

/// The tenant a served deployment runs: named by `tenant`, with a policy
/// and a storage root of its own name.
pub fn tenant_context(tenant: &str) -> (r: TenantContext)
    ensures
        r.tenant_id.0@ == tenant@,
        r.namespace@ == tenant@,
        r.policy_id.0@ == tenant@ + "-policy"@,
        r.storage_root_id.0@ == tenant@ + "-root"@,
{
    TenantContext {
        tenant_id: TenantId(owned(tenant)),
        namespace: owned(tenant),
        policy_id: PolicyId(cat(tenant, "-policy")),
        storage_root_id: StorageRootId(cat(tenant, "-root")),
    }
}

/// The tenant's policy: one rule per grant, allowing its capability to
/// principals whose claim has the granted value.
pub fn policy(tenant: &TenantContext, grants: &[Grant]) -> (r: Policy)
    ensures
        r.id.0@ == tenant.policy_id.0@,
        r.rules@.len() == grants@.len(),
        forall|i: int| 0 <= i < grants@.len() ==> {
            let rule = #[trigger] r.rules@[i];
            &&& rule.capability.0@ == grants@[i].capability@
            &&& rule.condition == (Condition::ClaimEquals {
                key: grants@[i].claim,
                value: ClaimValue::Enum(grants@[i].value),
            })
            &&& rule.resource is None
            &&& rule.action is None
            &&& rule.effect == Effect::Allow
        },
{
    let mut rules: Vec<Rule> = Vec::new();
    let mut i: usize = 0;
    while i < grants.len()
        invariant
            i <= grants@.len(),
            rules@.len() == i,
            forall|j: int| 0 <= j < i ==> {
                let rule = #[trigger] rules@[j];
                &&& rule.capability.0@ == grants@[j].capability@
                &&& rule.condition == (Condition::ClaimEquals {
                    key: grants@[j].claim,
                    value: ClaimValue::Enum(grants@[j].value),
                })
                &&& rule.resource is None
                &&& rule.action is None
                &&& rule.effect == Effect::Allow
            },
        decreases grants@.len() - i,
    {
        let g = &grants[i];
        let condition = Condition::ClaimEquals {
            key: g.claim.clone(),
            value: ClaimValue::Enum(g.value.clone()),
        };
        rules.push(Rule::allow(g.capability.as_str(), condition));
        i = i + 1;
    }
    Policy { id: PolicyId(tenant.policy_id.0.clone()), rules }
}

} // verus!

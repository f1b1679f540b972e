//! The single policy engine for every principal kind. A human's authority
//! comes from their claims; an agent's from its own claims and from live
//! delegations. Every path that cannot establish authority denies.
use vstd::prelude::*;
use crate::assoc::{lookup, get_entry};
use crate::text::{owned, cat, cat3, join, join_with, views, i64_decimal, u64_decimal, signed_decimal, decimal, lemma_map_push, lemma_map_take_step};
use crate::contract::claims::{ClaimValue, claim_value_eq, claim_value_in, claim_value_in_exec, opt_claim_is};
use crate::contract::delegation::{Delegation, DelegationStatus, ResourceScope, delegation_status};
use crate::contract::ids::{Capability, DelegationId, PolicyId, PrincipalId, TenantId};
use crate::contract::principal::{AgentState, Principal, PrincipalKind};
use crate::contract::tenant::TenantContext;
use super::policy::{
    Action, AuthorityBasis, AuthorizationDecision, AuthorizationRequest, CapabilityEnvelope,
    Condition, ConditionEvidence, ConditionResult, DenialReason, Effect, GrantedCapability, Policy,
    PrincipalAttribute, ResourceAttributes, ResourceRef, Rule, delegation_id_views, evidence_view,
    evidence_views, selector_matches,
};

verus! {

#[derive(Debug, Clone, PartialEq, Eq)]
pub struct PolicyEvaluationError {
    pub message: String,
}

/// Evidence as plain values: condition text, passed, fact.
pub type EvidenceView = (Seq<char>, bool, Option<Seq<char>>);

/// Seconds since the Unix epoch by the system clock (`SystemTime::now`),
/// `None` where the clock reads before the epoch. Nothing is promised of the
/// value: it is whatever the clock says.
#[verifier::external_body]
pub(crate) fn system_time_secs() -> (r: Option<i64>) {
    match std::time::SystemTime::now().duration_since(std::time::UNIX_EPOCH) {
        Ok(v) => Some(v.as_secs() as i64),
        Err(_) => None,
    }
}

// ---------------------------------------------------------------------------
// Texts that evidence is written in.
// ---------------------------------------------------------------------------

pub open spec fn bool_text(b: bool) -> Seq<char> {
    if b {
        "true"@
    } else {
        "false"@
    }
}

/// A claim value as evidence shows it: strings bare, integers in decimal.
pub open spec fn claim_value_text(v: ClaimValue) -> Seq<char> {
    match v {
        ClaimValue::Enum(s) => s@,
        ClaimValue::String(s) => s@,
        ClaimValue::Integer(i) => signed_decimal(i as int),
        ClaimValue::Boolean(b) => bool_text(b),
    }
}

pub open spec fn values_text(vs: Seq<ClaimValue>) -> Seq<char> {
    join_with(vs.map_values(|v: ClaimValue| claim_value_text(v)), ", "@)
}

pub open spec fn claim_fact(key: Seq<char>, present: bool) -> Seq<char> {
    if present {
        "claim."@ + key + " present"@
    } else {
        "claim."@ + key + " missing"@
    }
}

pub open spec fn resource_fact(key: Seq<char>, present: bool) -> Seq<char> {
    if present {
        "resource."@ + key + " present"@
    } else {
        "resource."@ + key + " missing"@
    }
}

pub open spec fn principal_attribute_name(a: PrincipalAttribute) -> Seq<char> {
    match a {
        PrincipalAttribute::Id => "id"@,
        PrincipalAttribute::Tenant => "tenant"@,
        PrincipalAttribute::Claim(k) => "claim."@ + k@,
    }
}

/// The value a principal attribute takes for `p`.
pub open spec fn principal_attribute_value(p: Principal, a: PrincipalAttribute) -> Option<ClaimValue> {
    match a {
        PrincipalAttribute::Id => Some(ClaimValue::String(p.id.0)),
        PrincipalAttribute::Tenant => Some(ClaimValue::String(p.tenant_id.0)),
        PrincipalAttribute::Claim(k) => lookup(p.claims.values@, k@),
    }
}

pub open spec fn deref_opt<T>(o: Option<&T>) -> Option<T> {
    match o {
        Some(x) => Some(*x),
        None => None,
    }
}

/// The value a resource attribute has, where the resource was resolved.
pub open spec fn resource_value(res: Option<ResourceAttributes>, key: Seq<char>) -> Option<ClaimValue> {
    match res {
        Some(r) => lookup(r.values@, key),
        None => None,
    }
}

pub open spec fn tenant_current_fact(rt: Option<TenantId>, m: bool) -> Seq<char> {
    match rt {
        Some(_) => if m {
            "resource tenant matched current tenant"@
        } else {
            "resource tenant did not match current tenant"@
        },
        None => "resource tenant unavailable"@,
    }
}

// ---------------------------------------------------------------------------
// What a condition decides, and the evidence it leaves.
// ---------------------------------------------------------------------------

/// Whether `c` holds for `p` against the resolved resource `res` with the
/// clock reading `clock`, and the evidence recorded, one entry per leaf
/// condition, in order.
pub open spec fn cond_eval(
    c: Condition,
    p: Principal,
    res: Option<ResourceAttributes>,
    clock: Option<i64>,
) -> (bool, Seq<EvidenceView>)
    decreases c, 0int,
{
    match c {
        Condition::Always => (true, seq![("always"@, true, None)]),
        Condition::All(cs) => {
            proof {
                assert(decreases_to!(c => c->All_0));
                assert(decreases_to!(cs => cs@));
            }
            conds_eval(cs@, p, res, clock)
        },
        Condition::ClaimEquals { key, value } => {
            let present = lookup(p.claims.values@, key@);
            let m = opt_claim_is(present, value);
            (
                m,
                seq![
                    (
                        "claim."@ + key@ + " == "@ + claim_value_text(value),
                        m,
                        Some(claim_fact(key@, present is Some)),
                    ),
                ],
            )
        },
        Condition::ClaimIn { key, values } => {
            let present = lookup(p.claims.values@, key@);
            let m = match present {
                Some(v) => claim_value_in(v, values@),
                None => false,
            };
            (
                m,
                seq![
                    (
                        "claim."@ + key@ + " in ["@ + values_text(values@) + "]"@,
                        m,
                        Some(claim_fact(key@, present is Some)),
                    ),
                ],
            )
        },
        Condition::TimeBound { start, end } => {
            let text = "time between "@ + signed_decimal(start as int) + " and "@ + signed_decimal(
                end as int,
            );
            match clock {
                None => (false, seq![(text, false, Some("time unavailable"@))]),
                Some(now) => {
                    let m = now >= start && now <= end;
                    (m, seq![(text, m, Some("system time evaluated"@))])
                },
            }
        },
        Condition::TenantCurrent => {
            let rt = match res {
                Some(r) => r.tenant_id,
                None => None,
            };
            let m = match rt {
                Some(t) => t.0@ == p.tenant_id.0@,
                None => false,
            };
            (m, seq![("tenant=current"@, m, Some(tenant_current_fact(rt, m)))])
        },
        Condition::ResourceAttributeEquals { key, value } => {
            let actual = resource_value(res, key@);
            let m = opt_claim_is(actual, value);
            (
                m,
                seq![
                    (
                        "resource."@ + key@ + " == "@ + claim_value_text(value),
                        m,
                        Some(resource_fact(key@, actual is Some)),
                    ),
                ],
            )
        },
        Condition::ResourceAttributeIn { key, values } => {
            let actual = resource_value(res, key@);
            let m = match actual {
                Some(v) => claim_value_in(v, values@),
                None => false,
            };
            (
                m,
                seq![
                    (
                        "resource."@ + key@ + " in ["@ + values_text(values@) + "]"@,
                        m,
                        Some(resource_fact(key@, actual is Some)),
                    ),
                ],
            )
        },
        Condition::RelationshipEquals { resource_attribute, principal } => {
            let text = "resource."@ + resource_attribute@ + " == principal."@
                + principal_attribute_name(principal);
            match resource_value(res, resource_attribute@) {
                None => (false, seq![(text, false, Some(resource_fact(resource_attribute@, false)))]),
                Some(left) => {
                    let m = match principal_attribute_value(p, principal) {
                        Some(right) => claim_value_eq(left, right),
                        None => false,
                    };
                    (
                        m,
                        seq![
                            (
                                text,
                                m,
                                Some(
                                    if m {
                                        "relationship matched"@
                                    } else {
                                        "relationship did not match"@
                                    },
                                ),
                            ),
                        ],
                    )
                },
            }
        },
    }
}

/// All of `cs` hold (true when `cs` is empty), with their evidence in order.
pub open spec fn conds_eval(
    cs: Seq<Condition>,
    p: Principal,
    res: Option<ResourceAttributes>,
    clock: Option<i64>,
) -> (bool, Seq<EvidenceView>)
    decreases cs, 1int,
{
    if cs.len() == 0 {
        (true, Seq::empty())
    } else {
        let a = conds_eval(cs.subrange(0, cs.len() - 1), p, res, clock);
        let b = cond_eval(cs[cs.len() - 1], p, res, clock);
        (a.0 && b.0, a.1 + b.1)
    }
}

/// The claim names (or facts) a condition's grant rests on.
pub open spec fn claim_basis_of(c: Condition) -> Seq<Seq<char>>
    decreases c, 0int,
{
    match c {
        Condition::Always => seq!["always"@],
        Condition::All(cs) => {
            proof {
                assert(decreases_to!(c => c->All_0));
                assert(decreases_to!(cs => cs@));
            }
            bases_of(cs@)
        },
        Condition::ClaimEquals { key, .. } => seq![key@],
        Condition::ClaimIn { key, .. } => seq![key@],
        Condition::TimeBound { .. } => seq!["time"@],
        Condition::TenantCurrent => seq!["tenant=current"@],
        Condition::ResourceAttributeEquals { key, .. } => seq!["resource."@ + key@],
        Condition::ResourceAttributeIn { key, .. } => seq!["resource."@ + key@],
        Condition::RelationshipEquals { resource_attribute, .. } => seq![
            "resource."@ + resource_attribute@,
        ],
    }
}

pub open spec fn bases_of(cs: Seq<Condition>) -> Seq<Seq<char>>
    decreases cs, 1int,
{
    if cs.len() == 0 {
        Seq::empty()
    } else {
        bases_of(cs.subrange(0, cs.len() - 1)) + claim_basis_of(cs[cs.len() - 1])
    }
}

fn bool_text_exec(b: bool) -> (r: String)
    ensures
        r@ == bool_text(b),
{
    if b {
        owned("true")
    } else {
        owned("false")
    }
}

pub(crate) fn claim_value_text_exec(v: &ClaimValue) -> (r: String)
    ensures
        r@ == claim_value_text(*v),
{
    match v {
        ClaimValue::Enum(s) => s.clone(),
        ClaimValue::String(s) => s.clone(),
        ClaimValue::Integer(i) => i64_decimal(*i),
        ClaimValue::Boolean(b) => bool_text_exec(*b),
    }
}

fn values_text_exec(vs: &Vec<ClaimValue>) -> (r: String)
    ensures
        r@ == values_text(vs@),
{
    let mut parts: Vec<String> = Vec::new();
    let mut i: usize = 0;
    while i < vs.len()
        invariant
            i <= vs@.len(),
            views(parts@) == vs@.take(i as int).map_values(|v: ClaimValue| claim_value_text(v)),
        decreases vs@.len() - i,
    {
        let t = claim_value_text_exec(&vs[i]);
        let ghost before = parts@;
        parts.push(t);
        proof {
            lemma_map_push(before, t, |s: String| s@);
            lemma_map_take_step(vs@, i as int, |v: ClaimValue| claim_value_text(v));
        }
        i = i + 1;
    }
    assert(vs@.take(i as int) =~= vs@);
    join(&parts, ", ")
}

fn claim_fact_exec(key: &str, present: bool) -> (r: String)
    ensures
        r@ == claim_fact(key@, present),
{
    if present {
        cat3("claim.", key, " present")
    } else {
        cat3("claim.", key, " missing")
    }
}

fn resource_fact_exec(key: &str, present: bool) -> (r: String)
    ensures
        r@ == resource_fact(key@, present),
{
    if present {
        cat3("resource.", key, " present")
    } else {
        cat3("resource.", key, " missing")
    }
}

fn principal_attribute_name_exec(a: &PrincipalAttribute) -> (r: String)
    ensures
        r@ == principal_attribute_name(*a),
{
    match a {
        PrincipalAttribute::Id => owned("id"),
        PrincipalAttribute::Tenant => owned("tenant"),
        PrincipalAttribute::Claim(k) => cat("claim.", k.as_str()),
    }
}

fn principal_attribute_value_exec(p: &Principal, a: &PrincipalAttribute) -> (r: Option<ClaimValue>)
    ensures
        r == principal_attribute_value(*p, *a),
{
    match a {
        PrincipalAttribute::Id => Some(ClaimValue::String(p.id.0.clone())),
        PrincipalAttribute::Tenant => Some(ClaimValue::String(p.tenant_id.0.clone())),
        PrincipalAttribute::Claim(k) => match get_entry(&p.claims.values, k.as_str()) {
            Some(v) => Some(v.duplicate()),
            None => None,
        },
    }
}

fn resource_value_exec<'a>(res: Option<&'a ResourceAttributes>, key: &str) -> (r: Option<&'a ClaimValue>)
    ensures
        deref_opt(r) == resource_value(deref_opt(res), key@),
{
    match res {
        Some(a) => get_entry(&a.values, key),
        None => None,
    }
}

fn evidence(condition: String, passed: bool, fact: Option<String>) -> (r: ConditionEvidence)
    ensures
        evidence_view(r) == (condition@, passed, match fact {
            Some(f) => Some(f@),
            None => None,
        }),
{
    ConditionEvidence {
        condition,
        result: if passed {
            ConditionResult::Pass
        } else {
            ConditionResult::Fail
        },
        fact,
    }
}

fn single(e: ConditionEvidence) -> (r: Vec<ConditionEvidence>)
    ensures
        evidence_views(r@) == seq![evidence_view(e)],
{
    let mut v: Vec<ConditionEvidence> = Vec::new();
    v.push(e);
    assert(evidence_views(v@) =~= seq![evidence_view(e)]);
    v
}

/// Evaluates a condition for `principal` against the resolved resource, with
/// `clock` as the current time in seconds (`None`: the clock is unavailable,
/// and every time bound fails).
pub fn evaluate_condition(
    condition: &Condition,
    principal: &Principal,
    resource: Option<&ResourceAttributes>,
    clock: Option<i64>,
) -> (r: (bool, Vec<ConditionEvidence>))
    ensures
        r.0 == cond_eval(*condition, *principal, deref_opt(resource), clock).0,
        evidence_views(r.1@) == cond_eval(*condition, *principal, deref_opt(resource), clock).1,
    decreases condition,
{
    let ghost res = deref_opt(resource);
    match condition {
        Condition::Always => {
            let e = evidence(owned("always"), true, None);
            proof {
                reveal_strlit("always");
            }
            (true, single(e))
        },
        Condition::All(cs) => {
            let mut all_match = true;
            let mut ev: Vec<ConditionEvidence> = Vec::new();
            let mut i: usize = 0;
            while i < cs.len()
                invariant
                    i <= cs@.len(),
                    *condition is All,
                    (*condition)->All_0 == *cs,
                    res == deref_opt(resource),
                    (all_match, evidence_views(ev@)) == conds_eval(
                        cs@.subrange(0, i as int),
                        *principal,
                        res,
                        clock,
                    ),
                decreases cs@.len() - i,
            {
                proof {
                    assert(decreases_to!(*condition => (*condition)->All_0));
                    assert(decreases_to!(*cs => cs@));
                    assert(decreases_to!(cs@ => cs@[i as int]));
                }
                let (m, mut more) = evaluate_condition(&cs[i], principal, resource, clock);
                let ghost before = ev@;
                let ghost added = more@;
                ev.append(&mut more);
                all_match = all_match && m;
                proof {
                    let s = cs@.subrange(0, i + 1);
                    assert(s.subrange(0, s.len() - 1) =~= cs@.subrange(0, i as int));
                    assert(s[s.len() - 1] == cs@[i as int]);
                    assert(evidence_views(before + added) =~= evidence_views(before)
                        + evidence_views(added));
                }
                i = i + 1;
            }
            assert(cs@.subrange(0, cs@.len() as int) =~= cs@);
            (all_match, ev)
        },
        Condition::ClaimEquals { key, value } => {
            let present = get_entry(&principal.claims.values, key.as_str());
            let m = match present {
                Some(v) => v.equals(value),
                None => false,
            };
            let vt = claim_value_text_exec(value);
            let head = cat3("claim.", key.as_str(), " == ");
            let text = cat(head.as_str(), vt.as_str());
            let fact = claim_fact_exec(key.as_str(), present.is_some());
            let e = evidence(text, m, Some(fact));
            (m, single(e))
        },
        Condition::ClaimIn { key, values } => {
            let present = get_entry(&principal.claims.values, key.as_str());
            let m = match present {
                Some(v) => claim_value_in_exec(v, values),
                None => false,
            };
            let vt = values_text_exec(values);
            let head = cat3("claim.", key.as_str(), " in [");
            let text = cat3(head.as_str(), vt.as_str(), "]");
            let fact = claim_fact_exec(key.as_str(), present.is_some());
            let e = evidence(text, m, Some(fact));
            (m, single(e))
        },
        Condition::TimeBound { start, end } => {
            let s = i64_decimal(*start);
            let t = i64_decimal(*end);
            let head = cat3("time between ", s.as_str(), " and ");
            let text = cat(head.as_str(), t.as_str());
            match clock {
                None => {
                    let e = evidence(text, false, Some(owned("time unavailable")));
                    (false, single(e))
                },
                Some(now) => {
                    let m = now >= *start && now <= *end;
                    let e = evidence(text, m, Some(owned("system time evaluated")));
                    (m, single(e))
                },
            }
        },
        Condition::TenantCurrent => {
            let rt: Option<&TenantId> = match resource {
                Some(r) => match &r.tenant_id {
                    Some(t) => Some(t),
                    None => None,
                },
                None => None,
            };
            let m = match rt {
                Some(t) => t.0 == principal.tenant_id.0,
                None => false,
            };
            let fact = match rt {
                Some(_) => if m {
                    owned("resource tenant matched current tenant")
                } else {
                    owned("resource tenant did not match current tenant")
                },
                None => owned("resource tenant unavailable"),
            };
            let e = evidence(owned("tenant=current"), m, Some(fact));
            (m, single(e))
        },
        Condition::ResourceAttributeEquals { key, value } => {
            let actual = resource_value_exec(resource, key.as_str());
            let m = match actual {
                Some(v) => v.equals(value),
                None => false,
            };
            let vt = claim_value_text_exec(value);
            let head = cat3("resource.", key.as_str(), " == ");
            let text = cat(head.as_str(), vt.as_str());
            let fact = resource_fact_exec(key.as_str(), actual.is_some());
            let e = evidence(text, m, Some(fact));
            (m, single(e))
        },
        Condition::ResourceAttributeIn { key, values } => {
            let actual = resource_value_exec(resource, key.as_str());
            let m = match actual {
                Some(v) => claim_value_in_exec(v, values),
                None => false,
            };
            let vt = values_text_exec(values);
            let head = cat3("resource.", key.as_str(), " in [");
            let text = cat3(head.as_str(), vt.as_str(), "]");
            let fact = resource_fact_exec(key.as_str(), actual.is_some());
            let e = evidence(text, m, Some(fact));
            (m, single(e))
        },
        Condition::RelationshipEquals { resource_attribute, principal: attribute } => {
            let name = principal_attribute_name_exec(attribute);
            let head = cat3("resource.", resource_attribute.as_str(), " == principal.");
            let text = cat(head.as_str(), name.as_str());
            match resource_value_exec(resource, resource_attribute.as_str()) {
                None => {
                    let fact = resource_fact_exec(resource_attribute.as_str(), false);
                    let e = evidence(text, false, Some(fact));
                    (false, single(e))
                },
                Some(left) => {
                    let m = match principal_attribute_value_exec(principal, attribute) {
                        Some(right) => left.equals(&right),
                        None => false,
                    };
                    let fact = if m {
                        owned("relationship matched")
                    } else {
                        owned("relationship did not match")
                    };
                    let e = evidence(text, m, Some(fact));
                    (m, single(e))
                },
            }
        },
    }
}

/// The basis a grant under `condition` records.
pub fn claim_basis(condition: &Condition) -> (r: Vec<String>)
    ensures
        views(r@) == claim_basis_of(*condition),
    decreases condition,
{
    let mut out: Vec<String> = Vec::new();
    match condition {
        Condition::Always => {
            out.push(owned("always"));
        },
        Condition::All(cs) => {
            let mut i: usize = 0;
            while i < cs.len()
                invariant
                    i <= cs@.len(),
                    *condition is All,
                    (*condition)->All_0 == *cs,
                    views(out@) == bases_of(cs@.subrange(0, i as int)),
                decreases cs@.len() - i,
            {
                proof {
                    assert(decreases_to!(*condition => (*condition)->All_0));
                    assert(decreases_to!(*cs => cs@));
                    assert(decreases_to!(cs@ => cs@[i as int]));
                }
                let mut more = claim_basis(&cs[i]);
                let ghost before = out@;
                let ghost added = more@;
                out.append(&mut more);
                proof {
                    let s = cs@.subrange(0, i + 1);
                    assert(s.subrange(0, s.len() - 1) =~= cs@.subrange(0, i as int));
                    assert(s[s.len() - 1] == cs@[i as int]);
                    assert(views(before + added) =~= views(before) + views(added));
                }
                i = i + 1;
            }
            assert(cs@.subrange(0, cs@.len() as int) =~= cs@);
            return out;
        },
        Condition::ClaimEquals { key, .. } => {
            out.push(key.clone());
        },
        Condition::ClaimIn { key, .. } => {
            out.push(key.clone());
        },
        Condition::TimeBound { .. } => {
            out.push(owned("time"));
        },
        Condition::TenantCurrent => {
            out.push(owned("tenant=current"));
        },
        Condition::ResourceAttributeEquals { key, .. } => {
            out.push(cat("resource.", key.as_str()));
        },
        Condition::ResourceAttributeIn { key, .. } => {
            out.push(cat("resource.", key.as_str()));
        },
        Condition::RelationshipEquals { resource_attribute, .. } => {
            out.push(cat("resource.", resource_attribute.as_str()));
        },
    }
    assert(views(out@) =~= claim_basis_of(*condition));
    out
}

// ---------------------------------------------------------------------------
// Grants and the envelope.
// ---------------------------------------------------------------------------

/// The fields every grant for `p` under `policy` in `t` carries.
pub open spec fn grant_common(g: GrantedCapability, policy: Policy, p: Principal, t: TenantContext) -> bool {
    &&& g.policy_id.0@ == policy.id.0@
    &&& g.tenant_id.0@ == t.tenant_id.0@
    &&& g.principal_id.0@ == p.id.0@
    &&& g.principal_kind == p.kind
}

/// `g` grants `cap` on the principal's own claims, resting on `condition`.
pub open spec fn claim_grant(
    g: GrantedCapability,
    cap: Seq<char>,
    condition: Condition,
    policy: Policy,
    p: Principal,
    t: TenantContext,
) -> bool {
    &&& g.capability.0@ == cap
    &&& grant_common(g, policy, p, t)
    &&& g.authority == AuthorityBasis::Claim
    &&& views(g.claim_basis@) == claim_basis_of(condition)
    &&& g.delegation_id is None
    &&& g.delegation_chain@.len() == 0
    &&& g.delegated_by is None
}

/// `g` grants `cap` on the authority `d` delegates, keeping the delegator and
/// the chain that led to it.
pub open spec fn delegated_grant_of(
    g: GrantedCapability,
    d: Delegation,
    cap: Seq<char>,
    policy: Policy,
    p: Principal,
    t: TenantContext,
) -> bool {
    &&& g.capability.0@ == cap
    &&& grant_common(g, policy, p, t)
    &&& g.authority == AuthorityBasis::Delegated
    &&& views(g.claim_basis@) == seq!["delegation:"@ + d.delegator.0@]
    &&& g.delegation_id matches Some(id) && id.0@ == d.id.0@
    &&& delegation_id_views(g.delegation_chain@) == delegation_id_views(d.chain@).push(d.id.0@)
    &&& g.delegated_by matches Some(b) && b.0@ == d.delegator.0@
}

fn copy_ids(v: &Vec<DelegationId>) -> (r: Vec<DelegationId>)
    ensures
        r@ == v@,
{
    let mut out: Vec<DelegationId> = Vec::new();
    let mut i: usize = 0;
    while i < v.len()
        invariant
            i <= v@.len(),
            out@ == v@.take(i as int),
        decreases v@.len() - i,
    {
        out.push(DelegationId(v[i].0.clone()));
        assert(out@ =~= v@.take(i + 1));
        i = i + 1;
    }
    assert(v@.take(i as int) =~= v@);
    out
}

fn claim_grant_exec(
    capability: &Capability,
    condition: &Condition,
    policy: &Policy,
    principal: &Principal,
    tenant: &TenantContext,
) -> (g: GrantedCapability)
    ensures
        claim_grant(g, capability.0@, *condition, *policy, *principal, *tenant),
{
    GrantedCapability {
        capability: Capability(capability.0.clone()),
        policy_id: PolicyId(policy.id.0.clone()),
        tenant_id: TenantId(tenant.tenant_id.0.clone()),
        principal_id: PrincipalId(principal.id.0.clone()),
        principal_kind: principal.kind,
        authority: AuthorityBasis::Claim,
        claim_basis: claim_basis(condition),
        delegation_id: None,
        delegation_chain: Vec::new(),
        delegated_by: None,
    }
}

fn delegated_grant(
    policy: &Policy,
    principal: &Principal,
    tenant: &TenantContext,
    delegation: &Delegation,
    capability: &Capability,
) -> (g: GrantedCapability)
    ensures
        delegated_grant_of(g, *delegation, capability.0@, *policy, *principal, *tenant),
{
    let mut basis: Vec<String> = Vec::new();
    basis.push(cat("delegation:", delegation.delegator.0.as_str()));
    assert(views(basis@) =~= seq!["delegation:"@ + delegation.delegator.0@]);
    let mut chain = copy_ids(&delegation.chain);
    let ghost before = chain@;
    let id = DelegationId(delegation.id.0.clone());
    chain.push(id);
    proof {
        lemma_map_push(before, id, |d: DelegationId| d.0@);
    }
    GrantedCapability {
        capability: Capability(capability.0.clone()),
        policy_id: PolicyId(policy.id.0.clone()),
        tenant_id: TenantId(tenant.tenant_id.0.clone()),
        principal_id: PrincipalId(principal.id.0.clone()),
        principal_kind: principal.kind,
        authority: AuthorityBasis::Delegated,
        claim_basis: basis,
        delegation_id: Some(DelegationId(delegation.id.0.clone())),
        delegation_chain: chain,
        delegated_by: Some(PrincipalId(delegation.delegator.0.clone())),
    }
}

/// The capabilities a list of grants names, in order.
pub open spec fn grant_caps(g: Seq<GrantedCapability>) -> Seq<Seq<char>> {
    g.map_values(|x: GrantedCapability| x.capability.0@)
}

/// Indices, in order, of the rules among the first `n` whose condition `p`
/// meets on its claims alone.
pub open spec fn claim_hits(rules: Seq<Rule>, p: Principal, clock: Option<i64>, n: int) -> Seq<int>
    decreases n,
{
    if n <= 0 {
        Seq::empty()
    } else {
        let prev = claim_hits(rules, p, clock, n - 1);
        if cond_eval(rules[n - 1].condition, p, None, clock).0 {
            prev.push(n - 1)
        } else {
            prev
        }
    }
}

/// A delegation that lends authority to `p` in `t` at `now`.
pub open spec fn delegation_applies(d: Delegation, p: Principal, t: TenantContext, now: i64) -> bool {
    &&& d.tenant_id.0@ == t.tenant_id.0@
    &&& d.delegate.0@ == p.id.0@
    &&& delegation_status(d, now) == DelegationStatus::Active
}

/// Adds the first `n` capabilities of delegation number `di` to the granted
/// capabilities `caps`, skipping those already granted; `pairs` records
/// (delegation, capability) for each grant added.
pub open spec fn add_delegated_caps(
    caps: Seq<Seq<char>>,
    pairs: Seq<(int, int)>,
    di: int,
    dcaps: Seq<Capability>,
    n: int,
) -> (Seq<Seq<char>>, Seq<(int, int)>)
    decreases n,
{
    if n <= 0 {
        (caps, pairs)
    } else {
        let prev = add_delegated_caps(caps, pairs, di, dcaps, n - 1);
        let cap = dcaps[n - 1].0@;
        if prev.0.contains(cap) {
            prev
        } else {
            (prev.0.push(cap), prev.1.push((di, n - 1)))
        }
    }
}

/// The delegated grants the first `n` delegations add.
pub open spec fn fold_delegations(
    caps: Seq<Seq<char>>,
    pairs: Seq<(int, int)>,
    ds: Seq<Delegation>,
    p: Principal,
    t: TenantContext,
    now: i64,
    n: int,
) -> (Seq<Seq<char>>, Seq<(int, int)>)
    decreases n,
{
    if n <= 0 {
        (caps, pairs)
    } else {
        let prev = fold_delegations(caps, pairs, ds, p, t, now, n - 1);
        let d = ds[n - 1];
        if delegation_applies(d, p, t, now) {
            add_delegated_caps(prev.0, prev.1, n - 1, d.capabilities@, d.capabilities@.len() as int)
        } else {
            prev
        }
    }
}

/// The envelope `policy` and `ds` give `p` in `t` at `now`: first a claim
/// grant for each rule whose condition holds, in rule order; then, for each
/// applicable delegation in order, a delegated grant for each of its
/// capabilities not granted already.
pub open spec fn envelope_of(
    env: Seq<GrantedCapability>,
    policy: Policy,
    p: Principal,
    t: TenantContext,
    ds: Seq<Delegation>,
    now: i64,
    clock: Option<i64>,
) -> bool {
    let rules = policy.rules@;
    let hits = claim_hits(rules, p, clock, rules.len() as int);
    let caps0 = hits.map_values(|i: int| rules[i].capability.0@);
    let folded = fold_delegations(caps0, Seq::empty(), ds, p, t, now, ds.len() as int);
    let pairs = folded.1;
    &&& env.len() == hits.len() + pairs.len()
    &&& forall|k: int|
        0 <= k < hits.len() ==> claim_grant(
            #[trigger] env[k],
            rules[hits[k]].capability.0@,
            rules[hits[k]].condition,
            policy,
            p,
            t,
        )
    &&& forall|k: int|
        0 <= k < pairs.len() ==> delegated_grant_of(
            #[trigger] env[hits.len() + k],
            ds[pairs[k].0],
            ds[pairs[k].0].capabilities@[pairs[k].1].0@,
            policy,
            p,
            t,
        )
}

/// An agent that is not active carries no authority of its own.
pub open spec fn inactive_agent(p: Principal) -> bool {
    p.kind == PrincipalKind::Agent && p.agent_state != Some(AgentState::Active)
}

/// What `evaluate_with_delegations` returns, for the clock reading `clock`.
pub open spec fn evaluation_outcome(
    r: Result<CapabilityEnvelope, PolicyEvaluationError>,
    policy: Policy,
    p: Principal,
    t: TenantContext,
    ds: Seq<Delegation>,
    now: i64,
    clock: Option<i64>,
) -> bool {
    if p.tenant_id.0@ != t.tenant_id.0@ {
        r matches Err(e) && e.message@ == "principal tenant does not match tenant context"@
    } else if policy.id.0@ != t.policy_id.0@ {
        r matches Err(e) && e.message@ == "policy does not match tenant context"@
    } else if inactive_agent(p) {
        r matches Ok(env) && env.granted_capabilities@.len() == 0
    } else {
        r matches Ok(env) && envelope_of(env.granted_capabilities@, policy, p, t, ds, now, clock)
    }
}

fn has_capability(granted: &Vec<GrantedCapability>, capability: &Capability) -> (r: bool)
    ensures
        r == grant_caps(granted@).contains(capability.0@),
{
    let mut i: usize = 0;
    while i < granted.len()
        invariant
            i <= granted@.len(),
            forall|j: int| 0 <= j < i ==> granted@[j].capability.0@ != capability.0@,
        decreases granted@.len() - i,
    {
        if granted[i].capability.0 == capability.0 {
            assert(grant_caps(granted@)[i as int] == capability.0@);
            return true;
        }
        i = i + 1;
    }
    assert forall|j: int| 0 <= j < grant_caps(granted@).len() implies grant_caps(granted@)[j]
        != capability.0@ by {
        assert(grant_caps(granted@)[j] == granted@[j].capability.0@);
    }
    false
}

/// `evaluate_with_delegations` with the clock reading `clock` (seconds since
/// the epoch, `None` where unavailable) that time-bound conditions are held
/// against.
pub fn evaluate_with_delegations_at(
    policy: &Policy,
    principal: &Principal,
    tenant: &TenantContext,
    delegations: &[Delegation],
    now: i64,
    clock: Option<i64>,
) -> (r: Result<CapabilityEnvelope, PolicyEvaluationError>)
    ensures
        evaluation_outcome(r, *policy, *principal, *tenant, delegations@, now, clock),
{
    if principal.tenant_id.0 != tenant.tenant_id.0 {
        return Err(PolicyEvaluationError { message: owned("principal tenant does not match tenant context") });
    }
    if policy.id.0 != tenant.policy_id.0 {
        return Err(PolicyEvaluationError { message: owned("policy does not match tenant context") });
    }
    if principal.kind == PrincipalKind::Agent && principal.agent_state != Some(AgentState::Active) {
        return Ok(CapabilityEnvelope::empty());
    }
    let ghost rules = policy.rules@;
    let mut granted: Vec<GrantedCapability> = Vec::new();
    let mut i: usize = 0;
    while i < policy.rules.len()
        invariant
            i <= rules.len(),
            rules == policy.rules@,
            granted@.len() == claim_hits(rules, *principal, clock, i as int).len(),
            forall|k: int|
                0 <= k < granted@.len() ==> claim_grant(
                    #[trigger] granted@[k],
                    rules[claim_hits(rules, *principal, clock, i as int)[k]].capability.0@,
                    rules[claim_hits(rules, *principal, clock, i as int)[k]].condition,
                    *policy,
                    *principal,
                    *tenant,
                ),
        decreases rules.len() - i,
    {
        let rule = &policy.rules[i];
        let (m, _) = evaluate_condition(&rule.condition, principal, None, clock);
        if m {
            let g = claim_grant_exec(&rule.capability, &rule.condition, policy, principal, tenant);
            granted.push(g);
        }
        i = i + 1;
    }
    let ghost hits = claim_hits(rules, *principal, clock, rules.len() as int);
    let ghost caps0 = hits.map_values(|k: int| rules[k].capability.0@);
    let ghost claimed = granted@;
    assert(grant_caps(granted@) =~= caps0);
    let ghost mut pairs: Seq<(int, int)> = Seq::empty();
    let ghost ds = delegations@;
    let mut di: usize = 0;
    while di < delegations.len()
        invariant
            di <= ds.len(),
            ds == delegations@,
            rules == policy.rules@,
            hits == claim_hits(rules, *principal, clock, rules.len() as int),
            caps0 == hits.map_values(|k: int| rules[k].capability.0@),
            claimed.len() == hits.len(),
            (grant_caps(granted@), pairs) == fold_delegations(
                caps0,
                Seq::empty(),
                ds,
                *principal,
                *tenant,
                now,
                di as int,
            ),
            granted@.len() == hits.len() + pairs.len(),
            forall|k: int| 0 <= k < hits.len() ==> #[trigger] granted@[k] == claimed[k],
            forall|k: int|
                0 <= k < claimed.len() ==> claim_grant(
                    #[trigger] claimed[k],
                    rules[hits[k]].capability.0@,
                    rules[hits[k]].condition,
                    *policy,
                    *principal,
                    *tenant,
                ),
            forall|k: int|
                0 <= k < pairs.len() ==> delegated_grant_of(
                    #[trigger] granted@[hits.len() + k],
                    ds[pairs[k].0],
                    ds[pairs[k].0].capabilities@[pairs[k].1].0@,
                    *policy,
                    *principal,
                    *tenant,
                ),
        decreases ds.len() - di,
    {
        let d = &delegations[di];
        let applies = d.tenant_id.0 == tenant.tenant_id.0 && d.delegate.0 == principal.id.0
            && d.is_valid_at(now);
        if applies {
            let ghost caps_start = grant_caps(granted@);
            let ghost pairs_start = pairs;
            let mut j: usize = 0;
            while j < d.capabilities.len()
                invariant
                    j <= d.capabilities@.len(),
                    ds == delegations@,
                    *d == ds[di as int],
                    di < ds.len(),
                    (grant_caps(granted@), pairs) == add_delegated_caps(
                        caps_start,
                        pairs_start,
                        di as int,
                        d.capabilities@,
                        j as int,
                    ),
                    granted@.len() == hits.len() + pairs.len(),
                    forall|k: int| 0 <= k < hits.len() ==> #[trigger] granted@[k] == claimed[k],
                    forall|k: int|
                        0 <= k < pairs.len() ==> delegated_grant_of(
                            #[trigger] granted@[hits.len() + k],
                            ds[pairs[k].0],
                            ds[pairs[k].0].capabilities@[pairs[k].1].0@,
                            *policy,
                            *principal,
                            *tenant,
                        ),
                decreases d.capabilities@.len() - j,
            {
                let cap = &d.capabilities[j];
                if !has_capability(&granted, cap) {
                    let g = delegated_grant(policy, principal, tenant, d, cap);
                    let ghost before = granted@;
                    granted.push(g);
                    proof {
                        pairs = pairs.push((di as int, j as int));
                        lemma_map_push(before, g, |x: GrantedCapability| x.capability.0@);
                        assert forall|k: int| 0 <= k < pairs.len() implies delegated_grant_of(
                            #[trigger] granted@[hits.len() + k],
                            ds[pairs[k].0],
                            ds[pairs[k].0].capabilities@[pairs[k].1].0@,
                            *policy,
                            *principal,
                            *tenant,
                        ) by {
                            if k < pairs.len() - 1 {
                                assert(granted@[hits.len() + k] == before[hits.len() + k]);
                            }
                        }
                    }
                }
                j = j + 1;
            }
        }
        di = di + 1;
    }
    Ok(CapabilityEnvelope { granted_capabilities: granted })
}

/// The single policy engine: claim grants from `policy`, then delegated
/// grants from the delegations live at `now`, for any principal kind. Time
/// bounds in conditions are held against the system clock.
pub fn evaluate_with_delegations(
    policy: &Policy,
    principal: &Principal,
    tenant: &TenantContext,
    delegations: &[Delegation],
    now: i64,
) -> (r: Result<CapabilityEnvelope, PolicyEvaluationError>)
    ensures
        exists|clock: Option<i64>|
            evaluation_outcome(r, *policy, *principal, *tenant, delegations@, now, clock),
{
    let clock = system_time_secs();
    evaluate_with_delegations_at(policy, principal, tenant, delegations, now, clock)
}

/// Claim grants only: `evaluate_with_delegations` with no delegations.
pub fn evaluate(policy: &Policy, principal: &Principal, tenant: &TenantContext) -> (r: Result<
    CapabilityEnvelope,
    PolicyEvaluationError,
>)
    ensures
        exists|clock: Option<i64>|
            evaluation_outcome(r, *policy, *principal, *tenant, Seq::empty(), i64::MIN, clock),
{
    let none: Vec<Delegation> = Vec::new();
    let r = evaluate_with_delegations(policy, principal, tenant, none.as_slice(), i64::MIN);
    assert(none@ =~= Seq::<Delegation>::empty());
    r
}

// ---------------------------------------------------------------------------
// Single decisions.
// ---------------------------------------------------------------------------

/// How a single authorization question is settled, before the decision is
/// built: refused for a reason; refused by a matching deny rule; refused
/// because the conditions of an applicable rule failed; allowed by a rule;
/// allowed on delegated authority.
#[derive(Debug, Clone, Copy, PartialEq, Eq, Structural)]
pub enum Verdict {
    Deny(DenialReason),
    DenyByRule(usize),
    DenyConditions(usize),
    AllowByRule(usize),
    AllowByDelegation,
}

/// Where an agent's lifecycle state stops it before any rule is read.
pub open spec fn agent_block(p: Principal) -> Option<DenialReason> {
    if p.kind == PrincipalKind::Agent {
        match p.agent_state {
            Some(AgentState::Active) => None,
            Some(AgentState::Revoked) => Some(DenialReason::AgentRevoked),
            Some(AgentState::Retired) => Some(DenialReason::AgentRevoked),
            Some(AgentState::Suspended) => Some(DenialReason::AgentSuspended),
            _ => Some(DenialReason::UnknownPrincipal),
        }
    } else {
        None
    }
}

fn agent_block_exec(p: &Principal) -> (r: Option<DenialReason>)
    ensures
        r == agent_block(*p),
{
    if p.kind == PrincipalKind::Agent {
        match p.agent_state {
            Some(AgentState::Active) => None,
            Some(AgentState::Revoked) => Some(DenialReason::AgentRevoked),
            Some(AgentState::Retired) => Some(DenialReason::AgentRevoked),
            Some(AgentState::Suspended) => Some(DenialReason::AgentSuspended),
            _ => Some(DenialReason::UnknownPrincipal),
        }
    } else {
        None
    }
}

/// First of the first `n` rules that grants `cap` on `p`'s claims.
pub open spec fn first_capability_rule(rules: Seq<Rule>, cap: Seq<char>, p: Principal, clock: Option<i64>, n: int) -> Option<int>
    decreases n,
{
    if n <= 0 {
        None
    } else {
        match first_capability_rule(rules, cap, p, clock, n - 1) {
            Some(i) => Some(i),
            None => if rules[n - 1].capability.0@ == cap && cond_eval(rules[n - 1].condition, p, None, clock).0 {
                Some(n - 1)
            } else {
                None
            },
        }
    }
}

proof fn lemma_first_capability_rule_stable(
    rules: Seq<Rule>,
    cap: Seq<char>,
    p: Principal,
    clock: Option<i64>,
    n: int,
    m: int,
)
    requires
        0 <= n <= m,
        first_capability_rule(rules, cap, p, clock, n) is Some,
    ensures
        first_capability_rule(rules, cap, p, clock, m) == first_capability_rule(rules, cap, p, clock, n),
        0 <= first_capability_rule(rules, cap, p, clock, n)->0 < n,
    decreases m,
{
    if m > n {
        lemma_first_capability_rule_stable(rules, cap, p, clock, n, m - 1);
    } else if n > 0 {
        if first_capability_rule(rules, cap, p, clock, n - 1) is Some {
            lemma_first_capability_rule_stable(rules, cap, p, clock, n - 1, n - 1);
        }
    }
}

/// Whether a delegation's capability list names `cap`.
pub open spec fn delegation_names(d: Delegation, cap: Seq<char>) -> bool {
    exists|i: int| 0 <= i < d.capabilities@.len() && #[trigger] d.capabilities@[i].0@ == cap
}

/// The delegation checks an agent without a claim grant must pass, in order.
pub open spec fn delegation_verdict(d: Option<Delegation>, p: Principal, t: TenantContext, cap: Seq<char>, now: i64) -> Option<DenialReason> {
    match d {
        None => Some(DenialReason::DelegationMissing),
        Some(d) => if d.tenant_id.0@ != t.tenant_id.0@ || d.delegate.0@ != p.id.0@ {
            Some(DenialReason::InvalidDelegation)
        } else if d.revoked_at is Some {
            Some(DenialReason::RevokedDelegation)
        } else if delegation_status(d, now) != DelegationStatus::Active {
            Some(DenialReason::ExpiredDelegation)
        } else if !delegation_names(d, cap) {
            Some(DenialReason::DelegationMissing)
        } else {
            None
        },
    }
}

/// How `evaluate_capability` settles the question "may `p` use `cap`?".
pub open spec fn capability_verdict(
    policy: Option<Policy>,
    principal: Option<Principal>,
    tenant: Option<TenantContext>,
    delegation: Option<Delegation>,
    cap: Seq<char>,
    now: i64,
    clock: Option<i64>,
) -> Verdict {
    match (policy, principal, tenant) {
        (None, _, _) => Verdict::Deny(DenialReason::PolicyNotFound),
        (Some(_), None, _) => Verdict::Deny(DenialReason::UnknownPrincipal),
        (Some(_), Some(_), None) => Verdict::Deny(DenialReason::UnknownTenant),
        (Some(policy), Some(p), Some(t)) => if p.tenant_id.0@ != t.tenant_id.0@ || policy.id.0@
            != t.policy_id.0@ {
            Verdict::Deny(DenialReason::TenantMismatch)
        } else if agent_block(p) is Some {
            Verdict::Deny(agent_block(p)->0)
        } else {
            match first_capability_rule(policy.rules@, cap, p, clock, policy.rules@.len() as int) {
                Some(i) => Verdict::AllowByRule(i as usize),
                None => if p.kind == PrincipalKind::Agent {
                    match delegation_verdict(delegation, p, t, cap, now) {
                        Some(reason) => Verdict::Deny(reason),
                        None => Verdict::AllowByDelegation,
                    }
                } else {
                    Verdict::Deny(DenialReason::CapabilityNotGranted)
                },
            }
        },
    }
}

/// A denial that names nothing but its reason.
pub open spec fn bare_denial(r: AuthorizationDecision, reason: DenialReason) -> bool {
    r matches AuthorizationDecision::Deny {
        reason: why,
        capability,
        resource,
        action,
        policy_id,
        matched_rules,
        conditions,
        audit_event_id,
    } && why == reason && capability is None && resource is None && action is None && policy_id is None
        && matched_rules@.len() == 0 && conditions@.len() == 0 && audit_event_id is None
}

/// What `evaluate_capability` returns, for the clock reading `clock`.
pub open spec fn capability_outcome(
    r: AuthorizationDecision,
    policy: Option<Policy>,
    principal: Option<Principal>,
    tenant: Option<TenantContext>,
    delegation: Option<Delegation>,
    cap: Seq<char>,
    now: i64,
    clock: Option<i64>,
) -> bool {
    match capability_verdict(policy, principal, tenant, delegation, cap, now, clock) {
        Verdict::Deny(reason) => bare_denial(r, reason),
        Verdict::AllowByRule(i) => {
            let rule = policy->0.rules@[i as int];
            r matches AuthorizationDecision::Allow {
                grant,
                resource,
                action,
                matched_rules,
                conditions,
                audit_event_id,
            } && claim_grant(grant, cap, rule.condition, policy->0, principal->0, tenant->0)
                && resource is None && action is None && views(matched_rules@) == claim_basis_of(
                rule.condition,
            ) && evidence_views(conditions@) == cond_eval(rule.condition, principal->0, None, clock).1
                && audit_event_id is None
        },
        Verdict::AllowByDelegation => r matches AuthorizationDecision::Allow {
            grant,
            resource,
            action,
            matched_rules,
            conditions,
            audit_event_id,
        } && delegated_grant_of(grant, delegation->0, cap, policy->0, principal->0, tenant->0)
            && resource is None && action is None && views(matched_rules@) == seq!["delegation"@]
            && conditions@.len() == 0 && audit_event_id is None,
        _ => false,
    }
}

fn deny(reason: DenialReason) -> (r: AuthorizationDecision)
    ensures
        bare_denial(r, reason),
{
    AuthorizationDecision::Deny {
        reason,
        capability: None,
        resource: None,
        action: None,
        policy_id: None,
        matched_rules: Vec::new(),
        conditions: Vec::new(),
        audit_event_id: None,
    }
}

fn delegation_names_exec(d: &Delegation, cap: &Capability) -> (r: bool)
    ensures
        r == delegation_names(*d, cap.0@),
{
    let mut i: usize = 0;
    while i < d.capabilities.len()
        invariant
            i <= d.capabilities@.len(),
            forall|j: int| 0 <= j < i ==> d.capabilities@[j].0@ != cap.0@,
        decreases d.capabilities@.len() - i,
    {
        if d.capabilities[i].0 == cap.0 {
            return true;
        }
        i = i + 1;
    }
    false
}

fn delegation_verdict_exec(
    d: Option<&Delegation>,
    p: &Principal,
    t: &TenantContext,
    cap: &Capability,
    now: i64,
) -> (r: Option<DenialReason>)
    ensures
        r == delegation_verdict(deref_opt(d), *p, *t, cap.0@, now),
{
    match d {
        None => Some(DenialReason::DelegationMissing),
        Some(d) => if d.tenant_id.0 != t.tenant_id.0 || d.delegate.0 != p.id.0 {
            Some(DenialReason::InvalidDelegation)
        } else if d.revoked_at.is_some() {
            Some(DenialReason::RevokedDelegation)
        } else if !d.is_valid_at(now) {
            Some(DenialReason::ExpiredDelegation)
        } else if !delegation_names_exec(d, cap) {
            Some(DenialReason::DelegationMissing)
        } else {
            None
        },
    }
}

fn strings_of(items: &[&str]) -> (r: Vec<String>)
    ensures
        r@.len() == items@.len(),
        forall|i: int| 0 <= i < items@.len() ==> r@[i]@ == items@[i]@,
{
    let mut out: Vec<String> = Vec::new();
    let mut i: usize = 0;
    while i < items.len()
        invariant
            i <= items@.len(),
            out@.len() == i,
            forall|j: int| 0 <= j < i ==> out@[j]@ == items@[j]@,
        decreases items@.len() - i,
    {
        out.push(owned(items[i]));
        i = i + 1;
    }
    out
}

/// `evaluate_capability` with the clock reading `clock` that time-bound
/// conditions are held against.
pub fn evaluate_capability_at(
    policy: Option<&Policy>,
    principal: Option<&Principal>,
    tenant: Option<&TenantContext>,
    delegation: Option<&Delegation>,
    capability: &Capability,
    now: i64,
    clock: Option<i64>,
) -> (r: AuthorizationDecision)
    ensures
        capability_outcome(
            r,
            deref_opt(policy),
            deref_opt(principal),
            deref_opt(tenant),
            deref_opt(delegation),
            capability.0@,
            now,
            clock,
        ),
{
    let pol = match policy {
        Some(p) => p,
        None => return deny(DenialReason::PolicyNotFound),
    };
    let pr = match principal {
        Some(p) => p,
        None => return deny(DenialReason::UnknownPrincipal),
    };
    let tn = match tenant {
        Some(t) => t,
        None => return deny(DenialReason::UnknownTenant),
    };
    if pr.tenant_id.0 != tn.tenant_id.0 || pol.id.0 != tn.policy_id.0 {
        return deny(DenialReason::TenantMismatch);
    }
    match agent_block_exec(pr) {
        Some(reason) => return deny(reason),
        None => {},
    }
    let ghost rules = pol.rules@;
    let mut i: usize = 0;
    while i < pol.rules.len()
        invariant
            i <= rules.len(),
            rules == pol.rules@,
            deref_opt(policy) == Some(*pol),
            deref_opt(principal) == Some(*pr),
            deref_opt(tenant) == Some(*tn),
            pr.tenant_id.0@ == tn.tenant_id.0@,
            pol.id.0@ == tn.policy_id.0@,
            agent_block(*pr) is None,
            first_capability_rule(rules, capability.0@, *pr, clock, i as int) is None,
        decreases rules.len() - i,
    {
        let rule = &pol.rules[i];
        if rule.capability.0 == capability.0 {
            let (m, conditions) = evaluate_condition(&rule.condition, pr, None, clock);
            if m {
                proof {
                    lemma_first_capability_rule_stable(rules, capability.0@, *pr, clock, i + 1, rules.len() as int);
                }
                let g = claim_grant_exec(capability, &rule.condition, pol, pr, tn);
                return AuthorizationDecision::Allow {
                    grant: g,
                    resource: None,
                    action: None,
                    matched_rules: claim_basis(&rule.condition),
                    conditions,
                    audit_event_id: None,
                };
            }
        }
        i = i + 1;
    }
    if pr.kind == PrincipalKind::Agent {
        match delegation_verdict_exec(delegation, pr, tn, capability, now) {
            Some(reason) => return deny(reason),
            None => {},
        }
        let d = match delegation {
            Some(d) => d,
            None => return deny(DenialReason::DelegationMissing),
        };
        let matched = strings_of(&["delegation"]);
        assert(views(matched@) =~= seq!["delegation"@]);
        return AuthorizationDecision::Allow {
            grant: delegated_grant(pol, pr, tn, d, capability),
            resource: None,
            action: None,
            matched_rules: matched,
            conditions: Vec::new(),
            audit_event_id: None,
        };
    }
    deny(DenialReason::CapabilityNotGranted)
}

/// May `principal` use `capability`? Claims first, then (for an agent) the
/// delegation; any missing input or failed check denies. Time bounds in
/// conditions are held against the system clock.
pub fn evaluate_capability(
    policy: Option<&Policy>,
    principal: Option<&Principal>,
    tenant: Option<&TenantContext>,
    delegation: Option<&Delegation>,
    capability: &Capability,
    now: i64,
) -> (r: AuthorizationDecision)
    ensures
        exists|clock: Option<i64>|
            capability_outcome(
                r,
                deref_opt(policy),
                deref_opt(principal),
                deref_opt(tenant),
                deref_opt(delegation),
                capability.0@,
                now,
                clock,
            ),
{
    let clock = system_time_secs();
    evaluate_capability_at(policy, principal, tenant, delegation, capability, now, clock)
}

// ---------------------------------------------------------------------------
// Requests about a resource.
// ---------------------------------------------------------------------------

/// A rule speaks to a request: same capability, an action that agrees where
/// the rule names one, and a resource its selector matches where it has one.
pub open spec fn rule_applies(rule: Rule, req: AuthorizationRequest) -> bool {
    &&& rule.capability.0@ == req.capability.0@
    &&& match rule.action {
        Some(a) => a.0@ == req.action.0@,
        None => true,
    }
    &&& match rule.resource {
        Some(sel) => match req.resource {
            Some(res) => selector_matches(sel, res),
            None => false,
        },
        None => true,
    }
}

/// First of the first `n` rules that applies to `req` and whose conditions hold.
pub open spec fn first_request_rule(
    rules: Seq<Rule>,
    req: AuthorizationRequest,
    p: Principal,
    attrs: Option<ResourceAttributes>,
    clock: Option<i64>,
    n: int,
) -> Option<int>
    decreases n,
{
    if n <= 0 {
        None
    } else {
        match first_request_rule(rules, req, p, attrs, clock, n - 1) {
            Some(i) => Some(i),
            None => if rule_applies(rules[n - 1], req) && cond_eval(rules[n - 1].condition, p, attrs, clock).0 {
                Some(n - 1)
            } else {
                None
            },
        }
    }
}

/// Last of the first `n` rules that applies to `req`.
pub open spec fn last_applicable_rule(rules: Seq<Rule>, req: AuthorizationRequest, n: int) -> Option<int>
    decreases n,
{
    if n <= 0 {
        None
    } else if rule_applies(rules[n - 1], req) {
        Some(n - 1)
    } else {
        last_applicable_rule(rules, req, n - 1)
    }
}

/// The tenant a requested resource belongs to agrees with the context: the
/// resolved tenant where the resolver gave one, else the reference's.
pub open spec fn resource_tenant_ok(req: AuthorizationRequest, attrs: Option<ResourceAttributes>, t: TenantContext) -> bool {
    match req.resource {
        None => true,
        Some(res) => {
            let resolved = match attrs {
                Some(a) => match a.tenant_id {
                    Some(tid) => tid.0@,
                    None => res.tenant_id.0@,
                },
                None => res.tenant_id.0@,
            };
            resolved == t.tenant_id.0@
        },
    }
}

/// A claim value names tenant `t`.
pub open spec fn names_tenant(v: ClaimValue, t: Seq<char>) -> bool {
    match v {
        ClaimValue::Enum(s) => s@ == t,
        ClaimValue::String(s) => s@ == t,
        _ => false,
    }
}

/// One attribute constraint of a delegation scope holds for the resource:
/// `tenant`/`tenant_id` against the resource's tenant, any other against the
/// resolved attributes.
pub open spec fn scope_attribute_holds(
    key: Seq<char>,
    expected: ClaimValue,
    res: ResourceRef,
    attrs: Option<ResourceAttributes>,
) -> bool {
    if key == "tenant"@ || key == "tenant_id"@ {
        names_tenant(expected, res.tenant_id.0@)
    } else {
        opt_claim_is(resource_value(attrs, key), expected)
    }
}

/// A delegation's resource scope admits the requested resource.
pub open spec fn scope_admits(scope: ResourceScope, req: AuthorizationRequest, attrs: Option<ResourceAttributes>) -> bool {
    if scope.resource_type is None && scope.resource_id is None && scope.attributes@.len() == 0 {
        true
    } else {
        match req.resource {
            None => false,
            Some(res) => {
                &&& match scope.resource_type {
                    Some(ty) => ty@ == res.resource_type@,
                    None => true,
                }
                &&& match scope.resource_id {
                    Some(id) => id@ == "*"@ || id@ == res.resource_id@,
                    None => true,
                }
                &&& forall|i: int|
                    0 <= i < scope.attributes@.len() ==> scope_attribute_holds(
                        #[trigger] scope.attributes@[i].0@,
                        scope.attributes@[i].1,
                        res,
                        attrs,
                    )
            },
        }
    }
}

/// How `evaluate_authorization_request` settles a request.
pub open spec fn request_verdict(
    policy: Option<Policy>,
    principal: Option<Principal>,
    tenant: Option<TenantContext>,
    delegation: Option<Delegation>,
    req: AuthorizationRequest,
    attrs: Option<ResourceAttributes>,
    now: i64,
    clock: Option<i64>,
) -> Verdict {
    match (policy, principal, tenant) {
        (None, _, _) => Verdict::Deny(DenialReason::PolicyNotFound),
        (Some(_), None, _) => Verdict::Deny(DenialReason::UnknownPrincipal),
        (Some(_), Some(_), None) => Verdict::Deny(DenialReason::UnknownTenant),
        (Some(policy), Some(p), Some(t)) => if p.id.0@ != req.principal.0@ || p.tenant_id.0@
            != t.tenant_id.0@ || t.tenant_id.0@ != req.tenant.0@ || policy.id.0@ != t.policy_id.0@
            || !resource_tenant_ok(req, attrs, t) {
            Verdict::Deny(DenialReason::TenantMismatch)
        } else if agent_block(p) is Some {
            Verdict::Deny(agent_block(p)->0)
        } else {
            let rules = policy.rules@;
            match first_request_rule(rules, req, p, attrs, clock, rules.len() as int) {
                Some(i) => if rules[i].effect == Effect::Deny {
                    Verdict::DenyByRule(i as usize)
                } else {
                    Verdict::AllowByRule(i as usize)
                },
                None => if p.kind == PrincipalKind::Agent {
                    match delegation_verdict(delegation, p, t, req.capability.0@, now) {
                        Some(reason) => Verdict::Deny(reason),
                        None => if !scope_admits(delegation->0.resource_scope, req, attrs) {
                            Verdict::Deny(DenialReason::DelegationScopeDenied)
                        } else {
                            Verdict::AllowByDelegation
                        },
                    }
                } else {
                    match last_applicable_rule(rules, req, rules.len() as int) {
                        Some(j) => Verdict::DenyConditions(j as usize),
                        None => Verdict::Deny(DenialReason::CapabilityNotGranted),
                    }
                },
            }
        },
    }
}

/// A denial of `req` that repeats the request's capability, resource and
/// action.
pub open spec fn request_denial(
    r: AuthorizationDecision,
    req: AuthorizationRequest,
    reason: DenialReason,
    policy_id: Option<PolicyId>,
    matched: Seq<Seq<char>>,
    evidence: Seq<EvidenceView>,
) -> bool {
    r matches AuthorizationDecision::Deny {
        reason: why,
        capability,
        resource,
        action,
        policy_id: pid,
        matched_rules,
        conditions,
        audit_event_id,
    } && why == reason && capability == Some(req.capability) && resource == req.resource && action
        == Some(req.action) && pid == policy_id && views(matched_rules@) == matched && evidence_views(
        conditions@,
    ) == evidence && audit_event_id is None
}

pub open spec fn rule_label(i: int) -> Seq<char> {
    "rule:"@ + decimal(i as nat)
}

/// What `evaluate_authorization_request` returns, for the clock reading `clock`.
pub open spec fn request_outcome(
    r: AuthorizationDecision,
    policy: Option<Policy>,
    principal: Option<Principal>,
    tenant: Option<TenantContext>,
    delegation: Option<Delegation>,
    req: AuthorizationRequest,
    attrs: Option<ResourceAttributes>,
    now: i64,
    clock: Option<i64>,
) -> bool {
    match request_verdict(policy, principal, tenant, delegation, req, attrs, now, clock) {
        Verdict::Deny(reason) => request_denial(
            r,
            req,
            reason,
            if reason == DenialReason::PolicyNotFound {
                None
            } else {
                Some(policy->0.id)
            },
            Seq::empty(),
            Seq::empty(),
        ),
        Verdict::DenyByRule(i) => request_denial(
            r,
            req,
            DenialReason::PolicyDenied,
            Some(policy->0.id),
            seq![rule_label(i as int)],
            cond_eval(policy->0.rules@[i as int].condition, principal->0, attrs, clock).1,
        ),
        Verdict::DenyConditions(j) => request_denial(
            r,
            req,
            DenialReason::ConditionFailed,
            Some(policy->0.id),
            Seq::empty(),
            cond_eval(policy->0.rules@[j as int].condition, principal->0, attrs, clock).1,
        ),
        Verdict::AllowByRule(i) => {
            let rule = policy->0.rules@[i as int];
            r matches AuthorizationDecision::Allow {
                grant,
                resource,
                action,
                matched_rules,
                conditions,
                audit_event_id,
            } && claim_grant(grant, req.capability.0@, rule.condition, policy->0, principal->0, tenant->0)
                && resource == req.resource && action == Some(req.action) && views(matched_rules@)
                == seq![rule_label(i as int)] && evidence_views(conditions@) == cond_eval(
                rule.condition,
                principal->0,
                attrs,
                clock,
            ).1 && audit_event_id is None
        },
        Verdict::AllowByDelegation => r matches AuthorizationDecision::Allow {
            grant,
            resource,
            action,
            matched_rules,
            conditions,
            audit_event_id,
        } && delegated_grant_of(grant, delegation->0, req.capability.0@, policy->0, principal->0, tenant->0)
            && resource == req.resource && action == Some(req.action) && views(matched_rules@)
            == seq!["delegation"@] && conditions@.len() == 0 && audit_event_id is None,
    }
}

fn copy_resource(r: &ResourceRef) -> (c: ResourceRef)
    ensures
        c == *r,
{
    ResourceRef {
        resource_type: r.resource_type.clone(),
        resource_id: r.resource_id.clone(),
        tenant_id: TenantId(r.tenant_id.0.clone()),
    }
}

fn copy_opt_resource(r: &Option<ResourceRef>) -> (c: Option<ResourceRef>)
    ensures
        c == *r,
{
    match r {
        Some(x) => Some(copy_resource(x)),
        None => None,
    }
}

fn deny_for(
    request: &AuthorizationRequest,
    reason: DenialReason,
    policy: Option<&Policy>,
    conditions: Vec<ConditionEvidence>,
    matched_rules: Vec<String>,
) -> (r: AuthorizationDecision)
    ensures
        request_denial(
            r,
            *request,
            reason,
            match policy {
                Some(p) => Some(p.id),
                None => None,
            },
            views(matched_rules@),
            evidence_views(conditions@),
        ),
        matched_rules@.len() == 0 ==> views(matched_rules@) == Seq::<Seq<char>>::empty(),
        conditions@.len() == 0 ==> evidence_views(conditions@) == Seq::<EvidenceView>::empty(),
{
    assert(matched_rules@.len() == 0 ==> views(matched_rules@) =~= Seq::<Seq<char>>::empty());
    assert(conditions@.len() == 0 ==> evidence_views(conditions@) =~= Seq::<EvidenceView>::empty());
    AuthorizationDecision::Deny {
        reason,
        capability: Some(Capability(request.capability.0.clone())),
        resource: copy_opt_resource(&request.resource),
        action: Some(Action(request.action.0.clone())),
        policy_id: match policy {
            Some(p) => Some(PolicyId(p.id.0.clone())),
            None => None,
        },
        matched_rules,
        conditions,
        audit_event_id: None,
    }
}

fn rule_applies_exec(rule: &Rule, req: &AuthorizationRequest) -> (r: bool)
    ensures
        r == rule_applies(*rule, *req),
{
    if rule.capability.0 != req.capability.0 {
        return false;
    }
    match &rule.action {
        Some(a) => {
            if a.0 != req.action.0 {
                return false;
            }
        },
        None => {},
    }
    match &rule.resource {
        Some(sel) => match &req.resource {
            Some(res) => sel.matches(res),
            None => false,
        },
        None => true,
    }
}

fn resource_tenant_ok_exec(req: &AuthorizationRequest, attrs: Option<&ResourceAttributes>, t: &TenantContext) -> (r: bool)
    ensures
        r == resource_tenant_ok(*req, deref_opt(attrs), *t),
{
    match &req.resource {
        None => true,
        Some(res) => {
            let resolved: &String = match attrs {
                Some(a) => match &a.tenant_id {
                    Some(tid) => &tid.0,
                    None => &res.tenant_id.0,
                },
                None => &res.tenant_id.0,
            };
            *resolved == t.tenant_id.0
        },
    }
}

fn names_tenant_exec(v: &ClaimValue, t: &String) -> (r: bool)
    ensures
        r == names_tenant(*v, t@),
{
    match v {
        ClaimValue::Enum(s) => *s == *t,
        ClaimValue::String(s) => *s == *t,
        _ => false,
    }
}

fn scope_admits_exec(scope: &ResourceScope, req: &AuthorizationRequest, attrs: Option<&ResourceAttributes>) -> (r: bool)
    ensures
        r == scope_admits(*scope, *req, deref_opt(attrs)),
{
    if scope.is_unconstrained() {
        return true;
    }
    let res = match &req.resource {
        Some(res) => res,
        None => return false,
    };
    match &scope.resource_type {
        Some(ty) => {
            if *ty != res.resource_type {
                return false;
            }
        },
        None => {},
    }
    match &scope.resource_id {
        Some(id) => {
            let star = owned("*");
            proof {
                reveal_strlit("*");
            }
            if *id != star && *id != res.resource_id {
                return false;
            }
        },
        None => {},
    }
    let tenant_key = owned("tenant");
    let tenant_id_key = owned("tenant_id");
    proof {
        reveal_strlit("tenant");
        reveal_strlit("tenant_id");
    }
    let mut i: usize = 0;
    while i < scope.attributes.len()
        invariant
            i <= scope.attributes@.len(),
            req.resource == Some(*res),
            tenant_key@ == "tenant"@,
            tenant_id_key@ == "tenant_id"@,
            forall|j: int|
                0 <= j < i ==> scope_attribute_holds(
                    #[trigger] scope.attributes@[j].0@,
                    scope.attributes@[j].1,
                    *res,
                    deref_opt(attrs),
                ),
        decreases scope.attributes@.len() - i,
    {
        let key = &scope.attributes[i].0;
        let expected = &scope.attributes[i].1;
        let ok = if *key == tenant_key || *key == tenant_id_key {
            names_tenant_exec(expected, &res.tenant_id.0)
        } else {
            match resource_value_exec(attrs, key.as_str()) {
                Some(v) => v.equals(expected),
                None => false,
            }
        };
        if !ok {
            return false;
        }
        i = i + 1;
    }
    true
}

proof fn lemma_first_request_rule_stable(
    rules: Seq<Rule>,
    req: AuthorizationRequest,
    p: Principal,
    attrs: Option<ResourceAttributes>,
    clock: Option<i64>,
    n: int,
    m: int,
)
    requires
        0 <= n <= m,
        first_request_rule(rules, req, p, attrs, clock, n) is Some,
    ensures
        first_request_rule(rules, req, p, attrs, clock, m) == first_request_rule(rules, req, p, attrs, clock, n),
    decreases m,
{
    if m > n {
        lemma_first_request_rule_stable(rules, req, p, attrs, clock, n, m - 1);
    }
}

proof fn lemma_last_applicable_rule_range(rules: Seq<Rule>, req: AuthorizationRequest, n: int)
    ensures
        last_applicable_rule(rules, req, n) matches Some(j) ==> 0 <= j < n,
    decreases n,
{
    if n > 0 {
        lemma_last_applicable_rule_range(rules, req, n - 1);
    }
}

fn rule_label_exec(i: usize) -> (r: String)
    ensures
        r@ == rule_label(i as int),
{
    let d = u64_decimal(i as u64);
    cat("rule:", d.as_str())
}

/// `evaluate_authorization_request` with the clock reading `clock` that
/// time-bound conditions are held against.
pub fn evaluate_authorization_request_at(
    policy: Option<&Policy>,
    principal: Option<&Principal>,
    tenant: Option<&TenantContext>,
    delegation: Option<&Delegation>,
    request: &AuthorizationRequest,
    resource_attributes: Option<&ResourceAttributes>,
    now: i64,
    clock: Option<i64>,
) -> (r: AuthorizationDecision)
    ensures
        request_outcome(
            r,
            deref_opt(policy),
            deref_opt(principal),
            deref_opt(tenant),
            deref_opt(delegation),
            *request,
            deref_opt(resource_attributes),
            now,
            clock,
        ),
{
    let ghost attrs = deref_opt(resource_attributes);
    let pol = match policy {
        Some(p) => p,
        None => return deny_for(request, DenialReason::PolicyNotFound, None, Vec::new(), Vec::new()),
    };
    let pr = match principal {
        Some(p) => p,
        None => return deny_for(request, DenialReason::UnknownPrincipal, Some(pol), Vec::new(), Vec::new()),
    };
    let tn = match tenant {
        Some(t) => t,
        None => return deny_for(request, DenialReason::UnknownTenant, Some(pol), Vec::new(), Vec::new()),
    };
    if pr.id.0 != request.principal.0 || pr.tenant_id.0 != tn.tenant_id.0 || tn.tenant_id.0
        != request.tenant.0 || pol.id.0 != tn.policy_id.0 || !resource_tenant_ok_exec(
        request,
        resource_attributes,
        tn,
    ) {
        return deny_for(request, DenialReason::TenantMismatch, Some(pol), Vec::new(), Vec::new());
    }
    match agent_block_exec(pr) {
        Some(reason) => return deny_for(request, reason, Some(pol), Vec::new(), Vec::new()),
        None => {},
    }
    let ghost rules = pol.rules@;
    let mut failed: Option<Vec<ConditionEvidence>> = None;
    let mut i: usize = 0;
    while i < pol.rules.len()
        invariant
            i <= rules.len(),
            rules == pol.rules@,
            attrs == deref_opt(resource_attributes),
            deref_opt(policy) == Some(*pol),
            deref_opt(principal) == Some(*pr),
            deref_opt(tenant) == Some(*tn),
            pr.id.0@ == request.principal.0@,
            pr.tenant_id.0@ == tn.tenant_id.0@,
            tn.tenant_id.0@ == request.tenant.0@,
            pol.id.0@ == tn.policy_id.0@,
            resource_tenant_ok(*request, attrs, *tn),
            agent_block(*pr) is None,
            first_request_rule(rules, *request, *pr, attrs, clock, i as int) is None,
            match last_applicable_rule(rules, *request, i as int) {
                Some(j) => failed matches Some(f) && evidence_views(f@) == cond_eval(
                    rules[j].condition,
                    *pr,
                    attrs,
                    clock,
                ).1,
                None => failed is None,
            },
        decreases rules.len() - i,
    {
        let rule = &pol.rules[i];
        if rule_applies_exec(rule, request) {
            let (m, conditions) = evaluate_condition(&rule.condition, pr, resource_attributes, clock);
            if !m {
                failed = Some(conditions);
            } else {
                proof {
                    lemma_first_request_rule_stable(rules, *request, *pr, attrs, clock, i + 1, rules.len() as int);
                }
                let label = rule_label_exec(i);
                let mut matched: Vec<String> = Vec::new();
                matched.push(label);
                assert(views(matched@) =~= seq![rule_label(i as int)]);
                if rule.effect == Effect::Deny {
                    return deny_for(request, DenialReason::PolicyDenied, Some(pol), conditions, matched);
                }
                let g = claim_grant_exec(&request.capability, &rule.condition, pol, pr, tn);
                return AuthorizationDecision::Allow {
                    grant: g,
                    resource: copy_opt_resource(&request.resource),
                    action: Some(Action(request.action.0.clone())),
                    matched_rules: matched,
                    conditions,
                    audit_event_id: None,
                };
            }
        }
        i = i + 1;
    }
    if pr.kind == PrincipalKind::Agent {
        match delegation_verdict_exec(delegation, pr, tn, &request.capability, now) {
            Some(reason) => return deny_for(request, reason, Some(pol), Vec::new(), Vec::new()),
            None => {},
        }
        let d = match delegation {
            Some(d) => d,
            None => return deny_for(request, DenialReason::DelegationMissing, Some(pol), Vec::new(), Vec::new()),
        };
        if !scope_admits_exec(&d.resource_scope, request, resource_attributes) {
            return deny_for(request, DenialReason::DelegationScopeDenied, Some(pol), Vec::new(), Vec::new());
        }
        let matched = strings_of(&["delegation"]);
        assert(views(matched@) =~= seq!["delegation"@]);
        return AuthorizationDecision::Allow {
            grant: delegated_grant(pol, pr, tn, d, &request.capability),
            resource: copy_opt_resource(&request.resource),
            action: Some(Action(request.action.0.clone())),
            matched_rules: matched,
            conditions: Vec::new(),
            audit_event_id: None,
        };
    }
    proof {
        lemma_last_applicable_rule_range(rules, *request, rules.len() as int);
    }
    match failed {
        Some(conditions) => deny_for(request, DenialReason::ConditionFailed, Some(pol), conditions, Vec::new()),
        None => deny_for(request, DenialReason::CapabilityNotGranted, Some(pol), Vec::new(), Vec::new()),
    }
}

/// Decides one request about one action on one (optional) resource: tenant
/// and principal agreement, agent state, the first applicable rule whose
/// conditions hold, then (for an agent) the delegation and its resource
/// scope. Time bounds in conditions are held against the system clock.
pub fn evaluate_authorization_request(
    policy: Option<&Policy>,
    principal: Option<&Principal>,
    tenant: Option<&TenantContext>,
    delegation: Option<&Delegation>,
    request: &AuthorizationRequest,
    resource_attributes: Option<&ResourceAttributes>,
    now: i64,
) -> (r: AuthorizationDecision)
    ensures
        exists|clock: Option<i64>|
            request_outcome(
                r,
                deref_opt(policy),
                deref_opt(principal),
                deref_opt(tenant),
                deref_opt(delegation),
                *request,
                deref_opt(resource_attributes),
                now,
                clock,
            ),
{
    let clock = system_time_secs();
    evaluate_authorization_request_at(policy, principal, tenant, delegation, request, resource_attributes, now, clock)
}

// ---------------------------------------------------------------------------
// What every decision keeps.
// ---------------------------------------------------------------------------

/// Fail closed on a missing input: without a policy, a principal or a tenant
/// context no question is ever allowed.
pub proof fn lemma_missing_input_denies(
    policy: Option<Policy>,
    principal: Option<Principal>,
    tenant: Option<TenantContext>,
    delegation: Option<Delegation>,
    cap: Seq<char>,
    req: AuthorizationRequest,
    attrs: Option<ResourceAttributes>,
    now: i64,
    clock: Option<i64>,
)
    requires
        policy is None || principal is None || tenant is None,
    ensures
        capability_verdict(policy, principal, tenant, delegation, cap, now, clock) is Deny,
        request_verdict(policy, principal, tenant, delegation, req, attrs, now, clock) is Deny,
{
}

/// An agent that is not active is never allowed, whatever its delegator
/// still holds, and its envelope is empty.
pub proof fn lemma_inactive_agent_never_allowed(
    policy: Option<Policy>,
    p: Principal,
    tenant: Option<TenantContext>,
    delegation: Option<Delegation>,
    cap: Seq<char>,
    req: AuthorizationRequest,
    attrs: Option<ResourceAttributes>,
    now: i64,
    clock: Option<i64>,
)
    requires
        p.kind == PrincipalKind::Agent,
        p.agent_state != Some(AgentState::Active),
    ensures
        capability_verdict(policy, Some(p), tenant, delegation, cap, now, clock) is Deny,
        request_verdict(policy, Some(p), tenant, delegation, req, attrs, now, clock) is Deny,
        inactive_agent(p),
{
}

/// Tenant isolation: an allowed request has the principal, the tenant
/// context, the request and the requested resource all in one tenant, and a
/// policy that belongs to that tenant.
pub proof fn lemma_allow_within_one_tenant(
    policy: Option<Policy>,
    principal: Option<Principal>,
    tenant: Option<TenantContext>,
    delegation: Option<Delegation>,
    req: AuthorizationRequest,
    attrs: Option<ResourceAttributes>,
    now: i64,
    clock: Option<i64>,
)
    requires
        request_verdict(policy, principal, tenant, delegation, req, attrs, now, clock) is AllowByRule
            || request_verdict(policy, principal, tenant, delegation, req, attrs, now, clock) is AllowByDelegation,
    ensures
        policy is Some && principal is Some && tenant is Some,
        principal->0.tenant_id.0@ == tenant->0.tenant_id.0@,
        tenant->0.tenant_id.0@ == req.tenant.0@,
        principal->0.id.0@ == req.principal.0@,
        policy->0.id.0@ == tenant->0.policy_id.0@,
        resource_tenant_ok(req, attrs, tenant->0),
{
}

/// Delegated authority never exceeds the delegation: allowing on delegation
/// takes an agent, a delegation to it in its tenant that is live and
/// unrevoked at `now`, names the capability, and (for a request) admits the
/// resource.
pub proof fn lemma_delegated_allow_within_delegation(
    policy: Option<Policy>,
    principal: Option<Principal>,
    tenant: Option<TenantContext>,
    delegation: Option<Delegation>,
    cap: Seq<char>,
    req: AuthorizationRequest,
    attrs: Option<ResourceAttributes>,
    now: i64,
    clock: Option<i64>,
)
    ensures
        capability_verdict(policy, principal, tenant, delegation, cap, now, clock) == Verdict::AllowByDelegation
            ==> {
            &&& principal matches Some(p) && p.kind == PrincipalKind::Agent
            &&& delegation matches Some(d) && d.revoked_at is None && delegation_status(d, now)
                == DelegationStatus::Active && d.delegate.0@ == principal->0.id.0@
                && d.tenant_id.0@ == tenant->0.tenant_id.0@ && delegation_names(d, cap)
        },
        request_verdict(policy, principal, tenant, delegation, req, attrs, now, clock) == Verdict::AllowByDelegation
            ==> {
            &&& principal matches Some(p) && p.kind == PrincipalKind::Agent
            &&& delegation matches Some(d) && d.revoked_at is None && delegation_status(d, now)
                == DelegationStatus::Active && d.delegate.0@ == principal->0.id.0@
                && d.tenant_id.0@ == tenant->0.tenant_id.0@ && delegation_names(d, req.capability.0@)
                && scope_admits(d.resource_scope, req, attrs)
        },
{
}

/// A rule allows only the capability it names, for an action and resource it
/// accepts, once its conditions hold; and an explicit deny rule that matches
/// first is never overridden.
pub proof fn lemma_rule_allow_is_first_match(
    policy: Option<Policy>,
    principal: Option<Principal>,
    tenant: Option<TenantContext>,
    delegation: Option<Delegation>,
    req: AuthorizationRequest,
    attrs: Option<ResourceAttributes>,
    now: i64,
    clock: Option<i64>,
)
    ensures
        request_verdict(policy, principal, tenant, delegation, req, attrs, now, clock) matches Verdict::AllowByRule(i)
            ==> {
            let rules = policy->0.rules@;
            &&& first_request_rule(rules, req, principal->0, attrs, clock, rules.len() as int) == Some(i as int)
            &&& rule_applies(rules[i as int], req)
            &&& cond_eval(rules[i as int].condition, principal->0, attrs, clock).0
            &&& rules[i as int].effect == Effect::Allow
        },
{
    match request_verdict(policy, principal, tenant, delegation, req, attrs, now, clock) {
        Verdict::AllowByRule(i) => {
            let rules = policy->0.rules@;
            assert(rules.len() == policy->0.rules.len());
            lemma_first_request_rule_spec(rules, req, principal->0, attrs, clock, rules.len() as int);
        },
        _ => {},
    }
}

proof fn lemma_first_request_rule_spec(
    rules: Seq<Rule>,
    req: AuthorizationRequest,
    p: Principal,
    attrs: Option<ResourceAttributes>,
    clock: Option<i64>,
    n: int,
)
    ensures
        first_request_rule(rules, req, p, attrs, clock, n) matches Some(i) ==> 0 <= i < n && rule_applies(
            rules[i],
            req,
        ) && cond_eval(rules[i].condition, p, attrs, clock).0,
    decreases n,
{
    if n > 0 {
        lemma_first_request_rule_spec(rules, req, p, attrs, clock, n - 1);
    }
}

/// A rule that names an action speaks only to requests for that action: when
/// a request is allowed on rule `i`, the decision is an allow that names rule
/// `i`, the rule grants the requested capability, and where the rule names an
/// action it is the one requested.
pub proof fn lemma_rule_allow_respects_action(
    r: AuthorizationDecision,
    policy: Option<Policy>,
    principal: Option<Principal>,
    tenant: Option<TenantContext>,
    delegation: Option<Delegation>,
    req: AuthorizationRequest,
    attrs: Option<ResourceAttributes>,
    now: i64,
    clock: Option<i64>,
)
    requires
        request_outcome(r, policy, principal, tenant, delegation, req, attrs, now, clock),
    ensures
        request_verdict(policy, principal, tenant, delegation, req, attrs, now, clock) matches Verdict::AllowByRule(i)
            ==> {
            let rule = policy->0.rules@[i as int];
            &&& 0 <= i < policy->0.rules@.len()
            &&& r matches AuthorizationDecision::Allow { matched_rules, .. } && views(matched_rules@)
                == seq![rule_label(i as int)]
            &&& rule.capability.0@ == req.capability.0@
            &&& (rule.action matches Some(a) ==> a.0@ == req.action.0@)
        },
{
    match request_verdict(policy, principal, tenant, delegation, req, attrs, now, clock) {
        Verdict::AllowByRule(i) => {
            let rules = policy->0.rules@;
            assert(rules.len() == policy->0.rules.len());
            lemma_first_request_rule_spec(rules, req, principal->0, attrs, clock, rules.len() as int);
        },
        _ => {},
    }
}

/// The first of the first `n` claim rules that grants `cap` grants it, and
/// its condition holds.
proof fn lemma_first_capability_rule_spec(rules: Seq<Rule>, cap: Seq<char>, p: Principal, clock: Option<i64>, n: int)
    ensures
        first_capability_rule(rules, cap, p, clock, n) matches Some(i) ==> 0 <= i < n
            && rules[i].capability.0@ == cap && cond_eval(rules[i].condition, p, None, clock).0,
    decreases n,
{
    if n > 0 {
        lemma_first_capability_rule_spec(rules, cap, p, clock, n - 1);
    }
}

/// A time window holds exactly while the clock reads a moment inside it,
/// both ends included; with no clock reading it never holds.
pub proof fn lemma_time_bound_window(
    start: i64,
    end: i64,
    p: Principal,
    res: Option<ResourceAttributes>,
    clock: Option<i64>,
)
    ensures
        cond_eval(Condition::TimeBound { start, end }, p, res, clock).0 <==> (clock matches Some(now)
            && start <= now && now <= end),
{
}

/// A rule whose condition is a time window grants nothing outside that
/// window: neither a capability question nor a request is allowed on it
/// unless the clock reads a moment between its start and its end.
pub proof fn lemma_time_bound_rule_grants_within_window(
    policy: Option<Policy>,
    principal: Option<Principal>,
    tenant: Option<TenantContext>,
    delegation: Option<Delegation>,
    cap: Seq<char>,
    req: AuthorizationRequest,
    attrs: Option<ResourceAttributes>,
    now: i64,
    clock: Option<i64>,
)
    ensures
        capability_verdict(policy, principal, tenant, delegation, cap, now, clock) matches Verdict::AllowByRule(i)
            ==> (policy->0.rules@[i as int].condition matches Condition::TimeBound { start, end } ==> (
            clock matches Some(t) && start <= t && t <= end)),
        request_verdict(policy, principal, tenant, delegation, req, attrs, now, clock) matches Verdict::AllowByRule(i)
            ==> (policy->0.rules@[i as int].condition matches Condition::TimeBound { start, end } ==> (
            clock matches Some(t) && start <= t && t <= end)),
{
    match capability_verdict(policy, principal, tenant, delegation, cap, now, clock) {
        Verdict::AllowByRule(i) => {
            let rules = policy->0.rules@;
            assert(rules.len() == policy->0.rules.len());
            lemma_first_capability_rule_spec(rules, cap, principal->0, clock, rules.len() as int);
            match rules[i as int].condition {
                Condition::TimeBound { start, end } => {
                    lemma_time_bound_window(start, end, principal->0, None, clock);
                },
                _ => {},
            }
        },
        _ => {},
    }
    match request_verdict(policy, principal, tenant, delegation, req, attrs, now, clock) {
        Verdict::AllowByRule(i) => {
            let rules = policy->0.rules@;
            assert(rules.len() == policy->0.rules.len());
            lemma_first_request_rule_spec(rules, req, principal->0, attrs, clock, rules.len() as int);
            match rules[i as int].condition {
                Condition::TimeBound { start, end } => {
                    lemma_time_bound_window(start, end, principal->0, attrs, clock);
                },
                _ => {},
            }
        },
        _ => {},
    }
}

/// What `add_delegated_caps` adds: the pairs already there stay, and each
/// new pair names delegation `di` and one of its first `n` capabilities.
proof fn lemma_add_delegated_caps_pairs(
    caps: Seq<Seq<char>>,
    pairs: Seq<(int, int)>,
    di: int,
    dcaps: Seq<Capability>,
    n: int,
)
    ensures
        ({
            let out = add_delegated_caps(caps, pairs, di, dcaps, n).1;
            &&& pairs.len() <= out.len()
            &&& forall|m: int| 0 <= m < pairs.len() ==> #[trigger] out[m] == pairs[m]
            &&& forall|m: int| pairs.len() <= m < out.len() ==> (#[trigger] out[m]).0 == di && 0 <= out[m].1 < n
        }),
    decreases n,
{
    if n > 0 {
        lemma_add_delegated_caps_pairs(caps, pairs, di, dcaps, n - 1);
    }
}

/// What `fold_delegations` adds: the pairs already there stay, and each new
/// pair names one of the first `n` delegations, one that lends authority to
/// `p` in `t` at `now`, and one of that delegation's capabilities.
proof fn lemma_fold_delegations_pairs(
    caps: Seq<Seq<char>>,
    pairs: Seq<(int, int)>,
    ds: Seq<Delegation>,
    p: Principal,
    t: TenantContext,
    now: i64,
    n: int,
)
    requires
        n <= ds.len(),
    ensures
        ({
            let out = fold_delegations(caps, pairs, ds, p, t, now, n).1;
            &&& pairs.len() <= out.len()
            &&& forall|m: int| 0 <= m < pairs.len() ==> #[trigger] out[m] == pairs[m]
            &&& forall|m: int|
                pairs.len() <= m < out.len() ==> 0 <= (#[trigger] out[m]).0 < n && delegation_applies(
                    ds[out[m].0],
                    p,
                    t,
                    now,
                ) && 0 <= out[m].1 < ds[out[m].0].capabilities@.len()
        }),
    decreases n,
{
    if n > 0 {
        lemma_fold_delegations_pairs(caps, pairs, ds, p, t, now, n - 1);
        let prev = fold_delegations(caps, pairs, ds, p, t, now, n - 1);
        let d = ds[n - 1];
        if delegation_applies(d, p, t, now) {
            lemma_add_delegated_caps_pairs(prev.0, prev.1, n - 1, d.capabilities@, d.capabilities@.len() as int);
        }
    }
}

/// `g` rests on delegation `d`: it names `d` and its delegator, and a
/// capability `d` lists.
pub open spec fn rests_on(g: GrantedCapability, d: Delegation) -> bool {
    &&& g.delegation_id matches Some(id) && id.0@ == d.id.0@
    &&& g.delegated_by matches Some(b) && b.0@ == d.delegator.0@
    &&& delegation_names(d, g.capability.0@)
}

/// Delegated authority reaches only its delegate: every delegated grant in
/// an envelope comes from one of the given delegations that is made to the
/// evaluated principal, in its tenant, and live at `now`; the grant names that
/// delegation and its delegator, and a capability the delegation lists.
pub proof fn lemma_delegated_grants_come_from_own_delegations(
    r: Result<CapabilityEnvelope, PolicyEvaluationError>,
    policy: Policy,
    p: Principal,
    t: TenantContext,
    ds: Seq<Delegation>,
    now: i64,
    clock: Option<i64>,
)
    requires
        evaluation_outcome(r, policy, p, t, ds, now, clock),
    ensures
        r matches Ok(env) ==> forall|k: int|
            0 <= k < env.granted_capabilities@.len() && (#[trigger] env.granted_capabilities@[k]).authority
                == AuthorityBasis::Delegated ==> exists|j: int|
                0 <= j < ds.len() && (#[trigger] ds[j]).delegate.0@ == p.id.0@ && ds[j].tenant_id.0@
                    == t.tenant_id.0@ && delegation_status(ds[j], now) == DelegationStatus::Active
                    && rests_on(env.granted_capabilities@[k], ds[j]),
{
    if p.tenant_id.0@ == t.tenant_id.0@ && policy.id.0@ == t.policy_id.0@ && !inactive_agent(p) {
        let env = r->Ok_0.granted_capabilities@;
        let rules = policy.rules@;
        let hits = claim_hits(rules, p, clock, rules.len() as int);
        let caps0 = hits.map_values(|i: int| rules[i].capability.0@);
        let pairs = fold_delegations(caps0, Seq::empty(), ds, p, t, now, ds.len() as int).1;
        lemma_fold_delegations_pairs(caps0, Seq::empty(), ds, p, t, now, ds.len() as int);
        assert forall|k: int|
            0 <= k < env.len() && (#[trigger] env[k]).authority == AuthorityBasis::Delegated implies exists|j: int|
                0 <= j < ds.len() && (#[trigger] ds[j]).delegate.0@ == p.id.0@ && ds[j].tenant_id.0@
                    == t.tenant_id.0@ && delegation_status(ds[j], now) == DelegationStatus::Active
                    && rests_on(env[k], ds[j]) by {
            if k < hits.len() {
                assert(claim_grant(env[k], rules[hits[k]].capability.0@, rules[hits[k]].condition, policy, p, t));
            } else {
                let m = k - hits.len();
                assert(env[hits.len() + m] == env[k]);
                let j = pairs[m].0;
                let c = pairs[m].1;
                assert(delegated_grant_of(env[k], ds[j], ds[j].capabilities@[c].0@, policy, p, t));
                assert(ds[j].capabilities@[c].0@ == env[k].capability.0@);
                assert(delegation_names(ds[j], env[k].capability.0@));
            }
        }
    }
}

} // verus!

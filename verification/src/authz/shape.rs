//! The shape of a policy as plain values: the views that say when two
//! policies are the same policy, exact copies, and the canonical text a
//! policy is fingerprinted by.
use vstd::prelude::*;
use crate::contract::claims::ClaimValue;
use crate::contract::ids::{Capability, PolicyId};
use crate::text::{owned, i64_decimal};
use super::policy::{Action, Condition, Effect, Policy, PrincipalAttribute, ResourceSelector, Rule};
use super::evaluator::{claim_value_text, claim_value_text_exec};

verus! {

/// A condition as a plain value.
pub enum ConditionView {
    Always,
    All(Seq<ConditionView>),
    ClaimEquals(Seq<char>, ClaimValue),
    ClaimIn(Seq<char>, Seq<ClaimValue>),
    TimeBound(i64, i64),
    TenantCurrent,
    ResourceAttributeEquals(Seq<char>, ClaimValue),
    ResourceAttributeIn(Seq<char>, Seq<ClaimValue>),
    RelationshipEquals(Seq<char>, PrincipalAttribute),
}

pub open spec fn condition_view(c: Condition) -> ConditionView
    decreases c, 0int,
{
    match c {
        Condition::Always => ConditionView::Always,
        Condition::All(cs) => {
            proof {
                assert(decreases_to!(c => c->All_0));
                assert(decreases_to!(cs => cs@));
            }
            ConditionView::All(conditions_view(cs@))
        },
        Condition::ClaimEquals { key, value } => ConditionView::ClaimEquals(key@, value),
        Condition::ClaimIn { key, values } => ConditionView::ClaimIn(key@, values@),
        Condition::TimeBound { start, end } => ConditionView::TimeBound(start, end),
        Condition::TenantCurrent => ConditionView::TenantCurrent,
        Condition::ResourceAttributeEquals { key, value } => ConditionView::ResourceAttributeEquals(
            key@,
            value,
        ),
        Condition::ResourceAttributeIn { key, values } => ConditionView::ResourceAttributeIn(
            key@,
            values@,
        ),
        Condition::RelationshipEquals { resource_attribute, principal } =>
            ConditionView::RelationshipEquals(resource_attribute@, principal),
    }
}

pub open spec fn conditions_view(cs: Seq<Condition>) -> Seq<ConditionView>
    decreases cs, 1int,
{
    if cs.len() == 0 {
        Seq::empty()
    } else {
        conditions_view(cs.subrange(0, cs.len() - 1)).push(condition_view(cs[cs.len() - 1]))
    }
}

impl View for Condition {
    type V = ConditionView;

    open spec fn view(&self) -> ConditionView {
        condition_view(*self)
    }
}

/// A rule as a plain value.
pub struct RuleView {
    pub capability: Seq<char>,
    pub condition: ConditionView,
    pub resource: Option<ResourceSelector>,
    pub action: Option<Seq<char>>,
    pub effect: Effect,
}

impl View for Rule {
    type V = RuleView;

    open spec fn view(&self) -> RuleView {
        RuleView {
            capability: self.capability.0@,
            condition: self.condition@,
            resource: self.resource,
            action: match self.action {
                Some(a) => Some(a.0@),
                None => None,
            },
            effect: self.effect,
        }
    }
}

/// A policy as a plain value: two policies with the same view grant the same.
pub struct PolicyView {
    pub id: Seq<char>,
    pub rules: Seq<RuleView>,
}

impl View for Policy {
    type V = PolicyView;

    open spec fn view(&self) -> PolicyView {
        PolicyView { id: self.id.0@, rules: self.rules@.map_values(|r: Rule| r@) }
    }
}

proof fn lemma_conditions_view_step(cs: Seq<Condition>, i: int)
    requires
        0 <= i < cs.len(),
    ensures
        conditions_view(cs.take(i + 1)) == conditions_view(cs.take(i)).push(condition_view(cs[i])),
{
    assert(cs.take(i + 1).subrange(0, i) =~= cs.take(i));
}

proof fn lemma_conditions_view_push(v: Seq<Condition>, x: Condition)
    ensures
        conditions_view(v.push(x)) == conditions_view(v).push(condition_view(x)),
{
    assert(v.push(x).subrange(0, v.len() as int) =~= v);
}

fn copy_values(vs: &Vec<ClaimValue>) -> (r: Vec<ClaimValue>)
    ensures
        r@ == vs@,
{
    let mut out: Vec<ClaimValue> = Vec::new();
    let mut i: usize = 0;
    while i < vs.len()
        invariant
            i <= vs@.len(),
            out@ == vs@.take(i as int),
        decreases vs@.len() - i,
    {
        out.push(vs[i].duplicate());
        assert(vs@.take(i + 1) =~= vs@.take(i as int).push(vs@[i as int]));
        i = i + 1;
    }
    assert(vs@.take(i as int) =~= vs@);
    out
}

fn copy_principal_attribute(a: &PrincipalAttribute) -> (r: PrincipalAttribute)
    ensures
        r == *a,
{
    match a {
        PrincipalAttribute::Id => PrincipalAttribute::Id,
        PrincipalAttribute::Tenant => PrincipalAttribute::Tenant,
        PrincipalAttribute::Claim(k) => PrincipalAttribute::Claim(k.clone()),
    }
}

impl Clone for Condition {
    fn clone(&self) -> (r: Self)
        ensures
            r@ == self@,
        decreases self,
    {
        match self {
            Condition::Always => Condition::Always,
            Condition::All(cs) => {
                let mut v: Vec<Condition> = Vec::new();
                let mut i: usize = 0;
                while i < cs.len()
                    invariant
                        i <= cs@.len(),
                        *self is All,
                        (*self)->All_0 == *cs,
                        conditions_view(v@) == conditions_view(cs@.take(i as int)),
                    decreases cs@.len() - i,
                {
                    proof {
                        assert(decreases_to!(*self => (*self)->All_0));
                        assert(decreases_to!(*cs => cs@));
                        assert(decreases_to!(cs@ => cs@[i as int]));
                    }
                    let c = cs[i].clone();
                    proof {
                        lemma_conditions_view_push(v@, c);
                        lemma_conditions_view_step(cs@, i as int);
                    }
                    v.push(c);
                    i = i + 1;
                }
                assert(cs@.take(i as int) =~= cs@);
                Condition::All(v)
            },
            Condition::ClaimEquals { key, value } => Condition::ClaimEquals {
                key: key.clone(),
                value: value.duplicate(),
            },
            Condition::ClaimIn { key, values } => Condition::ClaimIn {
                key: key.clone(),
                values: copy_values(values),
            },
            Condition::TimeBound { start, end } => Condition::TimeBound { start: *start, end: *end },
            Condition::TenantCurrent => Condition::TenantCurrent,
            Condition::ResourceAttributeEquals { key, value } => Condition::ResourceAttributeEquals {
                key: key.clone(),
                value: value.duplicate(),
            },
            Condition::ResourceAttributeIn { key, values } => Condition::ResourceAttributeIn {
                key: key.clone(),
                values: copy_values(values),
            },
            Condition::RelationshipEquals { resource_attribute, principal } => Condition::RelationshipEquals {
                resource_attribute: resource_attribute.clone(),
                principal: copy_principal_attribute(principal),
            },
        }
    }
}

impl Clone for Rule {
    fn clone(&self) -> (r: Self)
        ensures
            r@ == self@,
    {
        Rule {
            capability: Capability(self.capability.0.clone()),
            condition: self.condition.clone(),
            resource: match &self.resource {
                Some(s) => Some(
                    ResourceSelector {
                        resource_type: s.resource_type.clone(),
                        resource_id: match &s.resource_id {
                            Some(id) => Some(id.clone()),
                            None => None,
                        },
                    },
                ),
                None => None,
            },
            action: match &self.action {
                Some(a) => Some(Action(a.0.clone())),
                None => None,
            },
            effect: self.effect,
        }
    }
}

impl Clone for Policy {
    fn clone(&self) -> (r: Self)
        ensures
            r@ == self@,
    {
        let mut rules: Vec<Rule> = Vec::new();
        let mut i: usize = 0;
        while i < self.rules.len()
            invariant
                i <= self.rules@.len(),
                rules@.map_values(|r: Rule| r@) == self.rules@.take(i as int).map_values(
                    |r: Rule| r@,
                ),
            decreases self.rules@.len() - i,
        {
            let r = self.rules[i].clone();
            proof {
                assert(rules@.push(r).map_values(|r: Rule| r@) =~= rules@.map_values(|r: Rule| r@).push(
                    r@,
                ));
                assert(self.rules@.take(i + 1).map_values(|r: Rule| r@) =~= self.rules@.take(
                    i as int,
                ).map_values(|r: Rule| r@).push(self.rules@[i as int]@));
            }
            rules.push(r);
            i = i + 1;
        }
        assert(self.rules@.take(i as int) =~= self.rules@);
        Policy { id: PolicyId(self.id.0.clone()), rules }
    }
}

// ---------------------------------------------------------------------------
// Canonical text.
// ---------------------------------------------------------------------------

/// A claim value with its kind, so that values of different kinds read apart.
pub open spec fn typed_value_text(v: ClaimValue) -> Seq<char> {
    match v {
        ClaimValue::Enum(_) => "enum:"@ + claim_value_text(v),
        ClaimValue::String(_) => "string:"@ + claim_value_text(v),
        ClaimValue::Integer(_) => "integer:"@ + claim_value_text(v),
        ClaimValue::Boolean(_) => "boolean:"@ + claim_value_text(v),
    }
}

/// Each value followed by a comma.
pub open spec fn typed_values_text(vs: Seq<ClaimValue>) -> Seq<char>
    decreases vs.len(),
{
    if vs.len() == 0 {
        Seq::empty()
    } else {
        typed_values_text(vs.drop_last()) + typed_value_text(vs.last()) + ","@
    }
}

pub open spec fn attribute_text(a: PrincipalAttribute) -> Seq<char> {
    match a {
        PrincipalAttribute::Id => "id"@,
        PrincipalAttribute::Tenant => "tenant"@,
        PrincipalAttribute::Claim(k) => "claim:"@ + k@,
    }
}

pub open spec fn condition_text(c: ConditionView) -> Seq<char>
    decreases c, 0int,
{
    match c {
        ConditionView::Always => "always"@,
        ConditionView::All(cs) => "all("@ + conditions_text(cs) + ")"@,
        ConditionView::ClaimEquals(k, v) => "claim_equals("@ + k + "="@ + typed_value_text(v) + ")"@,
        ConditionView::ClaimIn(k, vs) => "claim_in("@ + k + "="@ + typed_values_text(vs) + ")"@,
        ConditionView::TimeBound(s, e) => "time_bound("@ + crate::text::signed_decimal(s as int)
            + ","@ + crate::text::signed_decimal(e as int) + ")"@,
        ConditionView::TenantCurrent => "tenant_current"@,
        ConditionView::ResourceAttributeEquals(k, v) => "resource_equals("@ + k + "="@
            + typed_value_text(v) + ")"@,
        ConditionView::ResourceAttributeIn(k, vs) => "resource_in("@ + k + "="@ + typed_values_text(
            vs,
        ) + ")"@,
        ConditionView::RelationshipEquals(k, a) => "relationship("@ + k + "="@ + attribute_text(a)
            + ")"@,
    }
}

/// Each condition's text followed by a comma.
pub open spec fn conditions_text(cs: Seq<ConditionView>) -> Seq<char>
    decreases cs, 1int,
{
    if cs.len() == 0 {
        Seq::empty()
    } else {
        conditions_text(cs.subrange(0, cs.len() - 1)) + condition_text(cs[cs.len() - 1]) + ","@
    }
}

pub open spec fn opt_text(o: Option<Seq<char>>) -> Seq<char> {
    match o {
        Some(s) => "some:"@ + s,
        None => "none"@,
    }
}

pub open spec fn selector_text(s: Option<ResourceSelector>) -> Seq<char> {
    match s {
        Some(sel) => "some:"@ + sel.resource_type@ + "/"@ + opt_text(
            match sel.resource_id {
                Some(id) => Some(id@),
                None => None,
            },
        ),
        None => "none"@,
    }
}

pub open spec fn effect_text(e: Effect) -> Seq<char> {
    match e {
        Effect::Allow => "allow"@,
        Effect::Deny => "deny"@,
    }
}

pub open spec fn rule_text(r: RuleView) -> Seq<char> {
    "rule("@ + r.capability + "|"@ + condition_text(r.condition) + "|"@ + selector_text(r.resource)
        + "|"@ + opt_text(r.action) + "|"@ + effect_text(r.effect) + ")"@
}

pub open spec fn rules_text(rs: Seq<RuleView>) -> Seq<char>
    decreases rs.len(),
{
    if rs.len() == 0 {
        Seq::empty()
    } else {
        rules_text(rs.drop_last()) + rule_text(rs.last()) + ";"@
    }
}

/// The canonical text of a policy: its id and every rule, in order.
pub open spec fn policy_text(p: PolicyView) -> Seq<char> {
    "policy("@ + p.id + ")["@ + rules_text(p.rules) + "]"@
}

fn typed_value_text_exec(v: &ClaimValue) -> (r: String)
    ensures
        r@ == typed_value_text(*v),
{
    let mut out = match v {
        ClaimValue::Enum(_) => owned("enum:"),
        ClaimValue::String(_) => owned("string:"),
        ClaimValue::Integer(_) => owned("integer:"),
        ClaimValue::Boolean(_) => owned("boolean:"),
    };
    let t = claim_value_text_exec(v);
    out.append(t.as_str());
    out
}

fn append_values(out: &mut String, vs: &Vec<ClaimValue>)
    ensures
        final(out)@ == old(out)@ + typed_values_text(vs@),
{
    let ghost start = out@;
    let mut i: usize = 0;
    while i < vs.len()
        invariant
            i <= vs@.len(),
            out@ == start + typed_values_text(vs@.take(i as int)),
        decreases vs@.len() - i,
    {
        let t = typed_value_text_exec(&vs[i]);
        out.append(t.as_str());
        out.append(",");
        proof {
            assert(vs@.take(i + 1).drop_last() =~= vs@.take(i as int));
        }
        i = i + 1;
    }
    assert(vs@.take(i as int) =~= vs@);
}

fn append_attribute(out: &mut String, a: &PrincipalAttribute)
    ensures
        final(out)@ == old(out)@ + attribute_text(*a),
{
    match a {
        PrincipalAttribute::Id => out.append("id"),
        PrincipalAttribute::Tenant => out.append("tenant"),
        PrincipalAttribute::Claim(k) => {
            out.append("claim:");
            out.append(k.as_str());
        },
    }
}

fn append_condition(out: &mut String, c: &Condition)
    ensures
        final(out)@ == old(out)@ + condition_text(c@),
    decreases c,
{
    let ghost start = out@;
    match c {
        Condition::Always => out.append("always"),
        Condition::All(cs) => {
            out.append("all(");
            let ghost open_at = out@;
            let mut i: usize = 0;
            while i < cs.len()
                invariant
                    i <= cs@.len(),
                    *c is All,
                    (*c)->All_0 == *cs,
                    out@ == open_at + conditions_text(conditions_view(cs@.take(i as int))),
                decreases cs@.len() - i,
            {
                proof {
                    assert(decreases_to!(*c => (*c)->All_0));
                    assert(decreases_to!(*cs => cs@));
                    assert(decreases_to!(cs@ => cs@[i as int]));
                }
                append_condition(out, &cs[i]);
                out.append(",");
                proof {
                    lemma_conditions_view_step(cs@, i as int);
                    let s = conditions_view(cs@.take(i + 1));
                    assert(s.subrange(0, s.len() - 1) =~= conditions_view(cs@.take(i as int)));
                }
                i = i + 1;
            }
            assert(cs@.take(i as int) =~= cs@);
            out.append(")");
        },
        Condition::ClaimEquals { key, value } => {
            out.append("claim_equals(");
            out.append(key.as_str());
            out.append("=");
            let t = typed_value_text_exec(value);
            out.append(t.as_str());
            out.append(")");
        },
        Condition::ClaimIn { key, values } => {
            out.append("claim_in(");
            out.append(key.as_str());
            out.append("=");
            append_values(out, values);
            out.append(")");
        },
        Condition::TimeBound { start: s, end: e } => {
            out.append("time_bound(");
            let a = i64_decimal(*s);
            out.append(a.as_str());
            out.append(",");
            let b = i64_decimal(*e);
            out.append(b.as_str());
            out.append(")");
        },
        Condition::TenantCurrent => out.append("tenant_current"),
        Condition::ResourceAttributeEquals { key, value } => {
            out.append("resource_equals(");
            out.append(key.as_str());
            out.append("=");
            let t = typed_value_text_exec(value);
            out.append(t.as_str());
            out.append(")");
        },
        Condition::ResourceAttributeIn { key, values } => {
            out.append("resource_in(");
            out.append(key.as_str());
            out.append("=");
            append_values(out, values);
            out.append(")");
        },
        Condition::RelationshipEquals { resource_attribute, principal } => {
            out.append("relationship(");
            out.append(resource_attribute.as_str());
            out.append("=");
            append_attribute(out, principal);
            out.append(")");
        },
    }
}

fn append_opt(out: &mut String, o: &Option<String>)
    ensures
        final(out)@ == old(out)@ + opt_text(
            match *o {
                Some(s) => Some(s@),
                None => None,
            },
        ),
{
    match o {
        Some(s) => {
            out.append("some:");
            out.append(s.as_str());
        },
        None => out.append("none"),
    }
}

fn append_selector(out: &mut String, s: &Option<ResourceSelector>)
    ensures
        final(out)@ == old(out)@ + selector_text(*s),
{
    match s {
        Some(sel) => {
            out.append("some:");
            out.append(sel.resource_type.as_str());
            out.append("/");
            append_opt(out, &sel.resource_id);
        },
        None => out.append("none"),
    }
}

fn append_action(out: &mut String, a: &Option<Action>)
    ensures
        final(out)@ == old(out)@ + opt_text(
            match *a {
                Some(x) => Some(x.0@),
                None => None,
            },
        ),
{
    match a {
        Some(x) => {
            out.append("some:");
            out.append(x.0.as_str());
        },
        None => out.append("none"),
    }
}

fn append_rule(out: &mut String, r: &Rule)
    ensures
        final(out)@ == old(out)@ + rule_text(r@),
{
    let ghost start = out@;
    out.append("rule(");
    out.append(r.capability.0.as_str());
    out.append("|");
    let ghost a = out@;
    append_condition(out, &r.condition);
    out.append("|");
    let ghost b = out@;
    append_selector(out, &r.resource);
    out.append("|");
    let ghost c = out@;
    append_action(out, &r.action);
    out.append("|");
    let e = match r.effect {
        Effect::Allow => "allow",
        Effect::Deny => "deny",
    };
    proof {
        reveal_strlit("allow");
        reveal_strlit("deny");
    }
    out.append(e);
    out.append(")");
    assert(out@ =~= start + rule_text(r@));
}

impl Policy {
    /// The canonical text of the policy, which its fingerprints are taken of.
    pub fn canonical_text(&self) -> (r: String)
        ensures
            r@ == policy_text(self@),
    {
        let mut out = owned("policy(");
        out.append(self.id.0.as_str());
        out.append(")[");
        let ghost open_at = out@;
        let mut i: usize = 0;
        while i < self.rules.len()
            invariant
                i <= self.rules@.len(),
                out@ == open_at + rules_text(self.rules@.take(i as int).map_values(|r: Rule| r@)),
            decreases self.rules@.len() - i,
        {
            append_rule(&mut out, &self.rules[i]);
            out.append(";");
            proof {
                let s = self.rules@.take(i + 1).map_values(|r: Rule| r@);
                assert(s.drop_last() =~= self.rules@.take(i as int).map_values(|r: Rule| r@));
            }
            i = i + 1;
        }
        assert(self.rules@.take(i as int) =~= self.rules@);
        out.append("]");
        out
    }
}

} // verus!

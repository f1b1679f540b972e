//! Delegated authority: a principal hands a subset of its capabilities, over a
//! resource scope, to another principal for a bounded time.
use vstd::prelude::*;
use crate::assoc::{lookup, key_index, unique_keys, lemma_key_index, set_entry};
use crate::text::{owned, str_eq};
use super::claims::{ClaimValue, claim_value_eq, opt_claim_is};
use super::ids::{Capability, DelegationId, PrincipalId, TenantId};

verus! {

/// The resources an authority covers: an optional type, an optional exact id,
/// and attribute constraints. An absent part constrains nothing.
#[derive(Debug, Clone, PartialEq, Eq)]
pub struct ResourceScope {
    pub resource_type: Option<String>,
    pub resource_id: Option<String>,
    pub attributes: Vec<(String, ClaimValue)>,
}

/// An optional string that a constraint demands: absent demands nothing,
/// present demands the same characters.
pub open spec fn opt_str_meets(have: Option<String>, demand: Option<String>) -> bool {
    match demand {
        Some(d) => match have {
            Some(h) => h@ == d@,
            None => false,
        },
        None => true,
    }
}

/// `child` lies inside `parent`: every part `parent` fixes, `child` fixes to
/// the same value.
pub open spec fn scope_within(child: ResourceScope, parent: ResourceScope) -> bool {
    &&& opt_str_meets(child.resource_type, parent.resource_type)
    &&& opt_str_meets(child.resource_id, parent.resource_id)
    &&& forall|i: int|
        0 <= i < parent.attributes@.len() ==> opt_claim_is(
            lookup(child.attributes@, #[trigger] parent.attributes@[i].0@),
            parent.attributes@[i].1,
        )
}

/// A scope whose attribute table names each key once.
pub open spec fn scope_wf(s: ResourceScope) -> bool {
    unique_keys(s.attributes@)
}

fn opt_str_meets_exec(have: &Option<String>, demand: &Option<String>) -> (r: bool)
    ensures
        r == opt_str_meets(*have, *demand),
{
    match demand {
        Some(d) => match have {
            Some(h) => str_eq(h.as_str(), d.as_str()),
            None => false,
        },
        None => true,
    }
}

impl ResourceScope {
    pub fn any() -> (r: Self)
        ensures
            r.resource_type is None,
            r.resource_id is None,
            r.attributes@.len() == 0,
    {
        ResourceScope { resource_type: None, resource_id: None, attributes: Vec::new() }
    }

    pub fn resource(resource_type: &str) -> (r: Self)
        ensures
            r.resource_type matches Some(t) && t@ == resource_type@,
            r.resource_id is None,
            r.attributes@.len() == 0,
    {
        ResourceScope {
            resource_type: Some(owned(resource_type)),
            resource_id: None,
            attributes: Vec::new(),
        }
    }

    pub fn exact(resource_type: &str, resource_id: &str) -> (r: Self)
        ensures
            r.resource_type matches Some(t) && t@ == resource_type@,
            r.resource_id matches Some(i) && i@ == resource_id@,
            r.attributes@.len() == 0,
    {
        ResourceScope {
            resource_type: Some(owned(resource_type)),
            resource_id: Some(owned(resource_id)),
            attributes: Vec::new(),
        }
    }

    /// Adds (or replaces) the attribute constraint `key = value`.
    pub fn with_attribute(self, key: &str, value: ClaimValue) -> (r: Self)
        ensures
            r.resource_type == self.resource_type,
            r.resource_id == self.resource_id,
            lookup(r.attributes@, key@) == Some(value),
            forall|k: Seq<char>| k != key@ ==> lookup(r.attributes@, k) == lookup(
                self.attributes@,
                k,
            ),
            scope_wf(self) ==> scope_wf(r),
    {
        let mut s = self;
        set_entry(&mut s.attributes, owned(key), value);
        s
    }

    pub fn is_unconstrained(&self) -> (r: bool)
        ensures
            r == (self.resource_type is None && self.resource_id is None
                && self.attributes@.len() == 0),
    {
        self.resource_type.is_none() && self.resource_id.is_none() && self.attributes.len() == 0
    }

    pub fn is_subset_of(&self, parent: &ResourceScope) -> (r: bool)
        ensures
            r == scope_within(*self, *parent),
    {
        if !opt_str_meets_exec(&self.resource_type, &parent.resource_type) {
            return false;
        }
        if !opt_str_meets_exec(&self.resource_id, &parent.resource_id) {
            return false;
        }
        let mut i: usize = 0;
        while i < parent.attributes.len()
            invariant
                i <= parent.attributes@.len(),
                forall|j: int|
                    0 <= j < i ==> opt_claim_is(
                        lookup(self.attributes@, #[trigger] parent.attributes@[j].0@),
                        parent.attributes@[j].1,
                    ),
            decreases parent.attributes@.len() - i,
        {
            let (key, value) = (&parent.attributes[i].0, &parent.attributes[i].1);
            let ok = match crate::assoc::get_entry(&self.attributes, key.as_str()) {
                Some(v) => v.equals(value),
                None => false,
            };
            if !ok {
                return false;
            }
            i = i + 1;
        }
        true
    }
}

/// Every scope lies within itself (given an attribute table without repeated keys).
pub proof fn lemma_scope_within_reflexive(s: ResourceScope)
    requires
        scope_wf(s),
    ensures
        scope_within(s, s),
{
    assert forall|i: int| 0 <= i < s.attributes@.len() implies opt_claim_is(
        lookup(s.attributes@, #[trigger] s.attributes@[i].0@),
        s.attributes@[i].1,
    ) by {
        let k = s.attributes@[i].0@;
        lemma_key_index(s.attributes@, k);
        match key_index(s.attributes@, k) {
            Some(j) => {
                assert(j == i);
                crate::contract::claims::lemma_claim_value_eq_refl(s.attributes@[i].1);
            },
            None => {},
        }
    }
}

/// Every scope lies within the unconstrained scope, and the unconstrained
/// scope lies within exactly the unconstrained scopes.
pub proof fn lemma_scope_any(s: ResourceScope, any: ResourceScope)
    requires
        any.resource_type is None,
        any.resource_id is None,
        any.attributes@.len() == 0,
    ensures
        scope_within(s, any),
        scope_within(any, s) <==> (s.resource_type is None && s.resource_id is None && s.attributes@.len() == 0),
{
    if s.attributes@.len() > 0 {
        assert(lookup(any.attributes@, s.attributes@[0].0@) is None);
        assert(!opt_claim_is(lookup(any.attributes@, s.attributes@[0].0@), s.attributes@[0].1));
    }
}

/// Scope containment is transitive.
pub proof fn lemma_scope_within_transitive(a: ResourceScope, b: ResourceScope, c: ResourceScope)
    requires
        scope_within(a, b),
        scope_within(b, c),
    ensures
        scope_within(a, c),
{
    assert forall|i: int| 0 <= i < c.attributes@.len() implies opt_claim_is(
        lookup(a.attributes@, #[trigger] c.attributes@[i].0@),
        c.attributes@[i].1,
    ) by {
        let k = c.attributes@[i].0@;
        lemma_key_index(b.attributes@, k);
        let j = key_index(b.attributes@, k)->0;
        assert(opt_claim_is(lookup(b.attributes@, k), c.attributes@[i].1));
        assert(b.attributes@[j].0@ == k);
        assert(opt_claim_is(lookup(a.attributes@, b.attributes@[j].0@), b.attributes@[j].1));
        crate::contract::claims::lemma_claim_value_eq_trans(
            lookup(a.attributes@, k)->0,
            b.attributes@[j].1,
            c.attributes@[i].1,
        );
    }
}

/// Every scope lies within the unconstrained scope.
pub proof fn lemma_scope_within_any(s: ResourceScope, top: ResourceScope)
    requires
        top.resource_type is None,
        top.resource_id is None,
        top.attributes@.len() == 0,
    ensures
        scope_within(s, top),
{
}

#[derive(Debug, Clone, Copy, PartialEq, Eq, Structural)]
pub enum DelegationStatus {
    Active,
    Pending,
    Expired,
    Revoked,
}

#[derive(Debug, Clone, PartialEq, Eq)]
pub struct Delegation {
    pub id: DelegationId,
    pub delegator: PrincipalId,
    pub delegate: PrincipalId,
    pub tenant_id: TenantId,
    pub capabilities: Vec<Capability>,
    pub resource_scope: ResourceScope,
    pub issued_at: i64,
    pub expires_at: Option<i64>,
    pub revoked_at: Option<i64>,
    pub chain: Vec<DelegationId>,
}

/// The status of a delegation at `now`: a revocation overrides everything,
/// then a delegation not yet issued is pending, then one whose expiry has
/// been reached is expired.
pub open spec fn delegation_status(d: Delegation, now: i64) -> DelegationStatus {
    if d.revoked_at is Some {
        DelegationStatus::Revoked
    } else if d.issued_at > now {
        DelegationStatus::Pending
    } else if d.expires_at matches Some(e) && now >= e {
        DelegationStatus::Expired
    } else {
        DelegationStatus::Active
    }
}

impl Delegation {
    pub fn is_valid_at(&self, now: i64) -> (r: bool)
        ensures
            r == (delegation_status(*self, now) == DelegationStatus::Active),
    {
        self.status_at(now) == DelegationStatus::Active
    }

    pub fn status_at(&self, now: i64) -> (r: DelegationStatus)
        ensures
            r == delegation_status(*self, now),
    {
        if self.revoked_at.is_some() {
            DelegationStatus::Revoked
        } else if self.issued_at > now {
            DelegationStatus::Pending
        } else if match self.expires_at {
            Some(e) => now >= e,
            None => false,
        } {
            DelegationStatus::Expired
        } else {
            DelegationStatus::Active
        }
    }
}

/// A delegation is valid exactly inside its window: issued by `now`, not yet
/// expired, never revoked. A revoked delegation is valid at no time.
pub proof fn lemma_delegation_valid_window(d: Delegation, now: i64)
    ensures
        (delegation_status(d, now) == DelegationStatus::Active) <==> (d.revoked_at is None
            && d.issued_at <= now && match d.expires_at {
            Some(e) => now < e,
            None => true,
        }),
        d.revoked_at is Some ==> delegation_status(d, now) == DelegationStatus::Revoked,
{
}

} // verus!

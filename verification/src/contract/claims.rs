//! Claim values and the claim table a principal carries.
use vstd::prelude::*;
use crate::assoc::{lookup, get_entry};
use crate::text::str_eq;

verus! {

#[derive(Debug, Clone, PartialEq, Eq)]
pub enum ClaimValue {
    Enum(String),
    String(String),
    Integer(i64),
    Boolean(bool),
}

/// Two claim values agree: same variant, same content.
pub open spec fn claim_value_eq(a: ClaimValue, b: ClaimValue) -> bool {
    match (a, b) {
        (ClaimValue::Enum(x), ClaimValue::Enum(y)) => x@ == y@,
        (ClaimValue::String(x), ClaimValue::String(y)) => x@ == y@,
        (ClaimValue::Integer(x), ClaimValue::Integer(y)) => x == y,
        (ClaimValue::Boolean(x), ClaimValue::Boolean(y)) => x == y,
        _ => false,
    }
}

/// An optional claim value agrees with an expected one.
pub open spec fn opt_claim_is(a: Option<ClaimValue>, b: ClaimValue) -> bool {
    match a {
        Some(x) => claim_value_eq(x, b),
        None => false,
    }
}

pub proof fn lemma_claim_value_eq_refl(a: ClaimValue)
    ensures
        claim_value_eq(a, a),
{
}

pub proof fn lemma_claim_value_eq_trans(a: ClaimValue, b: ClaimValue, c: ClaimValue)
    requires
        claim_value_eq(a, b),
        claim_value_eq(b, c),
    ensures
        claim_value_eq(a, c),
{
}

impl ClaimValue {
    pub fn equals(&self, other: &ClaimValue) -> (r: bool)
        ensures
            r == claim_value_eq(*self, *other),
    {
        match (self, other) {
            (ClaimValue::Enum(x), ClaimValue::Enum(y)) => str_eq(x.as_str(), y.as_str()),
            (ClaimValue::String(x), ClaimValue::String(y)) => str_eq(x.as_str(), y.as_str()),
            (ClaimValue::Integer(x), ClaimValue::Integer(y)) => *x == *y,
            (ClaimValue::Boolean(x), ClaimValue::Boolean(y)) => *x == *y,
            _ => false,
        }
    }

    /// An independent copy of the value.
    pub fn duplicate(&self) -> (r: ClaimValue)
        ensures
            claim_value_eq(r, *self),
            r == *self,
    {
        match self {
            ClaimValue::Enum(x) => ClaimValue::Enum(x.clone()),
            ClaimValue::String(x) => ClaimValue::String(x.clone()),
            ClaimValue::Integer(x) => ClaimValue::Integer(*x),
            ClaimValue::Boolean(x) => ClaimValue::Boolean(*x),
        }
    }
}

/// Whether `v` agrees with one of `values`.
pub open spec fn claim_value_in(v: ClaimValue, values: Seq<ClaimValue>) -> bool {
    exists|i: int| 0 <= i < values.len() && claim_value_eq(v, #[trigger] values[i])
}

pub fn claim_value_in_exec(v: &ClaimValue, values: &Vec<ClaimValue>) -> (r: bool)
    ensures
        r == claim_value_in(*v, values@),
{
    let mut i: usize = 0;
    while i < values.len()
        invariant
            i <= values@.len(),
            forall|j: int| 0 <= j < i ==> !claim_value_eq(*v, #[trigger] values@[j]),
        decreases values@.len() - i,
    {
        if v.equals(&values[i]) {
            return true;
        }
        i = i + 1;
    }
    false
}

/// The claims a principal or identity carries, keyed by claim name.
#[derive(Debug, Clone, PartialEq, Eq)]
pub struct Claims {
    pub values: Vec<(String, ClaimValue)>,
}

impl Claims {
    pub open spec fn spec_get(&self, key: Seq<char>) -> Option<ClaimValue> {
        lookup(self.values@, key)
    }

    pub fn get(&self, key: &str) -> (r: Option<&ClaimValue>)
        ensures
            match r {
                Some(v) => self.spec_get(key@) == Some(*v),
                None => self.spec_get(key@) is None,
            },
    {
        get_entry(&self.values, key)
    }

    pub fn contains_key(&self, key: &str) -> (r: bool)
        ensures
            r == self.spec_get(key@) is Some,
    {
        self.get(key).is_some()
    }
}

} // verus!

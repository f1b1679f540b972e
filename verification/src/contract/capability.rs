//! Single-use recovery and verification capabilities (password reset, email
//! verification). A capability is consumed once and never moves between
//! identities.
use vstd::prelude::*;
use crate::text::owned;
use super::ids::{IdentityId, TenantId};

verus! {

#[derive(Debug, Clone, PartialEq, Eq)]
pub struct RecoveryCapability {
    pub id: CapabilityId,
    pub tenant_id: TenantId,
    pub identity_id: IdentityId,
    pub kind: CapabilityKind,
    pub created_at: i64,
    pub expires_at: i64,
    pub consumed_at: Option<i64>,
    pub metadata: Vec<(String, String)>,
}

#[derive(Debug, Clone, PartialEq, Eq, PartialOrd, Ord)]
pub struct CapabilityId(pub String);

impl CapabilityId {
    pub fn new(id: &str) -> (r: Self)
        ensures
            r.0@ == id@,
    {
        CapabilityId(owned(id))
    }
}

#[derive(Debug, Clone, Copy, PartialEq, Eq, Structural)]
pub enum CapabilityKind {
    PasswordReset,
    EmailVerification,
}

pub open spec fn capability_kind_name(k: CapabilityKind) -> Seq<char> {
    match k {
        CapabilityKind::PasswordReset => "password_reset"@,
        CapabilityKind::EmailVerification => "email_verification"@,
    }
}

impl CapabilityKind {
    pub fn as_str(&self) -> (r: &'static str)
        ensures
            r@ == capability_kind_name(*self),
    {
        match self {
            CapabilityKind::PasswordReset => "password_reset",
            CapabilityKind::EmailVerification => "email_verification",
        }
    }
}

/// A capability can still be used at `now`: never consumed and not past its
/// expiry.
pub open spec fn capability_usable(c: RecoveryCapability, now: i64) -> bool {
    c.consumed_at is None && now <= c.expires_at
}

impl RecoveryCapability {
    pub fn is_consumed(&self) -> (r: bool)
        ensures
            r == self.consumed_at is Some,
    {
        self.consumed_at.is_some()
    }

    pub fn is_expired(&self, now: i64) -> (r: bool)
        ensures
            r == (now > self.expires_at),
    {
        now > self.expires_at
    }

    pub fn is_valid(&self, now: i64) -> (r: bool)
        ensures
            r == capability_usable(*self, now),
    {
        !self.is_consumed() && !self.is_expired(now)
    }
}

/// A consumed capability is valid at no time, and an unconsumed one stays
/// valid up to and including its expiry instant and never after.
pub proof fn lemma_capability_single_use(c: RecoveryCapability, now: i64, later: i64)
    ensures
        c.consumed_at is Some ==> !capability_usable(c, now),
        now <= later && capability_usable(c, later) ==> capability_usable(c, now),
{
}

} // verus!

//! Deployment settings the runtime is built with: where the boundary sits,
//! whether callers may register themselves, and the password policy in force.
use vstd::prelude::*;
use crate::text::owned;
use crate::dsl::model::PasswordPolicy;

verus! {

/// Where the boundary is bound: to the application's own server, or as the
/// server in front of it.
#[derive(Debug, Clone, Copy, PartialEq, Eq, Structural)]
pub enum BindingMode {
    Embedded,
    Standalone,
}

impl BindingMode {
    pub fn as_str(&self) -> (r: &'static str)
        ensures
            r@ == match *self {
                BindingMode::Embedded => "embedded"@,
                BindingMode::Standalone => "standalone"@,
            },
    {
        match self {
            BindingMode::Embedded => "embedded",
            BindingMode::Standalone => "standalone",
        }
    }
}

/// Whether callers may register themselves. The claims of a self-registered
/// principal are fixed by the deployment, never by the request.
#[derive(Debug, Clone, PartialEq, Eq)]
pub enum RegistrationPolicy {
    Closed,
    SelfService { claims: Vec<(String, String)> },
}

impl Default for RegistrationPolicy {
    fn default() -> (r: Self)
        ensures
            r is Closed,
    {
        RegistrationPolicy::Closed
    }
}

/// The value of the last pair named `k`.
pub open spec fn last_value(pairs: Seq<(&str, &str)>, k: Seq<char>) -> Option<Seq<char>>
    decreases pairs.len(),
{
    if pairs.len() == 0 {
        None
    } else if pairs.last().0@ == k {
        Some(pairs.last().1@)
    } else {
        last_value(pairs.drop_last(), k)
    }
}

pub open spec fn value_view(o: Option<String>) -> Option<Seq<char>> {
    match o {
        Some(v) => Some(v@),
        None => None,
    }
}

impl RegistrationPolicy {
    /// Self-service registration granting exactly `claims`, a later pair for
    /// the same name replacing an earlier one.
    pub fn self_service(claims: &[(&str, &str)]) -> (r: Self)
        ensures
            r matches RegistrationPolicy::SelfService { claims: c } && forall|k: Seq<char>|
                value_view(#[trigger] crate::assoc::lookup(c@, k)) == last_value(claims@, k),
    {
        let mut out: Vec<(String, String)> = Vec::new();
        let mut i: usize = 0;
        while i < claims.len()
            invariant
                i <= claims@.len(),
                forall|k: Seq<char>|
                    value_view(#[trigger] crate::assoc::lookup(out@, k)) == last_value(claims@.take(i as int), k),
            decreases claims@.len() - i,
        {
            let (name, value) = claims[i];
            crate::assoc::set_entry(&mut out, owned(name), owned(value));
            proof {
                let t = claims@.take(i + 1);
                assert(t.drop_last() =~= claims@.take(i as int));
                assert(t.last() == (name, value));
                assert forall|k: Seq<char>| value_view(#[trigger] crate::assoc::lookup(out@, k)) == last_value(t, k) by {
                }
            }
            i = i + 1;
        }
        assert(claims@.take(i as int) =~= claims@);
        RegistrationPolicy::SelfService { claims: out }
    }
}

/// The password policy in force, with the revisions it was read at.
#[derive(Debug, Clone, PartialEq, Eq)]
pub struct EffectivePasswordPolicy {
    pub policy: PasswordPolicy,
    pub authority_revision: u64,
    pub contract_fingerprint: String,
    pub policy_revision: u64,
}

} // verus!

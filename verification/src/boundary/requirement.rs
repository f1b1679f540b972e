//! What a route demands of a caller.
use vstd::prelude::*;
use crate::text::owned;

verus! {

#[derive(Debug, Clone, PartialEq, Eq)]
pub enum Requirement {
    /// No authority needed; a credential, if present, decides nothing.
    Public,
    /// A live session, whoever it belongs to.
    Authenticated,
    /// A live session that holds this capability.
    Capability(String),
}

impl Requirement {
    pub fn capability(name: &str) -> (r: Self)
        ensures
            r matches Requirement::Capability(c) && c@ == name@,
    {
        Requirement::Capability(owned(name))
    }

    pub fn is_public(&self) -> (r: bool)
        ensures
            r == (*self is Public),
    {
        match self {
            Requirement::Public => true,
            _ => false,
        }
    }

    /// `public`, `authenticated`, or the capability's name.
    pub fn describe(&self) -> (r: String)
        ensures
            r@ == match *self {
                Requirement::Public => "public"@,
                Requirement::Authenticated => "authenticated"@,
                Requirement::Capability(c) => c@,
            },
    {
        match self {
            Requirement::Public => owned("public"),
            Requirement::Authenticated => owned("authenticated"),
            Requirement::Capability(c) => c.clone(),
        }
    }
}

} // verus!

//! Opaque authority identifiers. Each is a string newtype; two identifiers of a
//! kind name the same thing exactly when their characters agree.
use vstd::prelude::*;
use crate::text::{owned, str_eq};

verus! {

#[derive(Debug, Clone, PartialEq, Eq, Hash, PartialOrd, Ord)]
pub struct TenantId(pub String);

impl TenantId {
    pub fn new(value: &str) -> (r: Self)
        ensures
            r.0@ == value@,
    {
        TenantId(owned(value))
    }

    pub fn as_str(&self) -> (r: &str)
        ensures
            r@ == self.0@,
    {
        self.0.as_str()
    }

    /// Same identifier, character for character.
    pub fn same(&self, other: &TenantId) -> (r: bool)
        ensures
            r == (self.0@ == other.0@),
    {
        str_eq(self.0.as_str(), other.0.as_str())
    }

    /// An independent copy with the same characters.
    pub fn duplicate(&self) -> (r: Self)
        ensures
            r.0@ == self.0@,
    {
        TenantId(self.0.clone())
    }
}

#[derive(Debug, Clone, PartialEq, Eq, Hash, PartialOrd, Ord)]
pub struct PrincipalId(pub String);

impl PrincipalId {
    pub fn new(value: &str) -> (r: Self)
        ensures
            r.0@ == value@,
    {
        PrincipalId(owned(value))
    }

    pub fn as_str(&self) -> (r: &str)
        ensures
            r@ == self.0@,
    {
        self.0.as_str()
    }

    /// Same identifier, character for character.
    pub fn same(&self, other: &PrincipalId) -> (r: bool)
        ensures
            r == (self.0@ == other.0@),
    {
        str_eq(self.0.as_str(), other.0.as_str())
    }

    /// An independent copy with the same characters.
    pub fn duplicate(&self) -> (r: Self)
        ensures
            r.0@ == self.0@,
    {
        PrincipalId(self.0.clone())
    }
}

#[derive(Debug, Clone, PartialEq, Eq, Hash, PartialOrd, Ord)]
pub struct AgentId(pub String);

impl AgentId {
    pub fn new(value: &str) -> (r: Self)
        ensures
            r.0@ == value@,
    {
        AgentId(owned(value))
    }

    pub fn as_str(&self) -> (r: &str)
        ensures
            r@ == self.0@,
    {
        self.0.as_str()
    }

    /// Same identifier, character for character.
    pub fn same(&self, other: &AgentId) -> (r: bool)
        ensures
            r == (self.0@ == other.0@),
    {
        str_eq(self.0.as_str(), other.0.as_str())
    }

    /// An independent copy with the same characters.
    pub fn duplicate(&self) -> (r: Self)
        ensures
            r.0@ == self.0@,
    {
        AgentId(self.0.clone())
    }
}

#[derive(Debug, Clone, PartialEq, Eq, Hash, PartialOrd, Ord)]
pub struct AgentCredentialId(pub String);

impl AgentCredentialId {
    pub fn new(value: &str) -> (r: Self)
        ensures
            r.0@ == value@,
    {
        AgentCredentialId(owned(value))
    }

    pub fn as_str(&self) -> (r: &str)
        ensures
            r@ == self.0@,
    {
        self.0.as_str()
    }

    /// Same identifier, character for character.
    pub fn same(&self, other: &AgentCredentialId) -> (r: bool)
        ensures
            r == (self.0@ == other.0@),
    {
        str_eq(self.0.as_str(), other.0.as_str())
    }

    /// An independent copy with the same characters.
    pub fn duplicate(&self) -> (r: Self)
        ensures
            r.0@ == self.0@,
    {
        AgentCredentialId(self.0.clone())
    }
}

#[derive(Debug, Clone, PartialEq, Eq, Hash, PartialOrd, Ord)]
pub struct IdentityId(pub String);

impl IdentityId {
    pub fn new(value: &str) -> (r: Self)
        ensures
            r.0@ == value@,
    {
        IdentityId(owned(value))
    }

    pub fn as_str(&self) -> (r: &str)
        ensures
            r@ == self.0@,
    {
        self.0.as_str()
    }

    /// Same identifier, character for character.
    pub fn same(&self, other: &IdentityId) -> (r: bool)
        ensures
            r == (self.0@ == other.0@),
    {
        str_eq(self.0.as_str(), other.0.as_str())
    }

    /// An independent copy with the same characters.
    pub fn duplicate(&self) -> (r: Self)
        ensures
            r.0@ == self.0@,
    {
        IdentityId(self.0.clone())
    }
}

#[derive(Debug, Clone, PartialEq, Eq, Hash, PartialOrd, Ord)]
pub struct SessionId(pub String);

impl SessionId {
    pub fn new(value: &str) -> (r: Self)
        ensures
            r.0@ == value@,
    {
        SessionId(owned(value))
    }

    pub fn as_str(&self) -> (r: &str)
        ensures
            r@ == self.0@,
    {
        self.0.as_str()
    }

    /// Same identifier, character for character.
    pub fn same(&self, other: &SessionId) -> (r: bool)
        ensures
            r == (self.0@ == other.0@),
    {
        str_eq(self.0.as_str(), other.0.as_str())
    }

    /// An independent copy with the same characters.
    pub fn duplicate(&self) -> (r: Self)
        ensures
            r.0@ == self.0@,
    {
        SessionId(self.0.clone())
    }
}

#[derive(Debug, Clone, PartialEq, Eq, Hash, PartialOrd, Ord)]
pub struct PolicyId(pub String);

impl PolicyId {
    pub fn new(value: &str) -> (r: Self)
        ensures
            r.0@ == value@,
    {
        PolicyId(owned(value))
    }

    pub fn as_str(&self) -> (r: &str)
        ensures
            r@ == self.0@,
    {
        self.0.as_str()
    }

    /// Same identifier, character for character.
    pub fn same(&self, other: &PolicyId) -> (r: bool)
        ensures
            r == (self.0@ == other.0@),
    {
        str_eq(self.0.as_str(), other.0.as_str())
    }

    /// An independent copy with the same characters.
    pub fn duplicate(&self) -> (r: Self)
        ensures
            r.0@ == self.0@,
    {
        PolicyId(self.0.clone())
    }
}

#[derive(Debug, Clone, PartialEq, Eq, Hash, PartialOrd, Ord)]
pub struct StorageRootId(pub String);

impl StorageRootId {
    pub fn new(value: &str) -> (r: Self)
        ensures
            r.0@ == value@,
    {
        StorageRootId(owned(value))
    }

    pub fn as_str(&self) -> (r: &str)
        ensures
            r@ == self.0@,
    {
        self.0.as_str()
    }

    /// Same identifier, character for character.
    pub fn same(&self, other: &StorageRootId) -> (r: bool)
        ensures
            r == (self.0@ == other.0@),
    {
        str_eq(self.0.as_str(), other.0.as_str())
    }

    /// An independent copy with the same characters.
    pub fn duplicate(&self) -> (r: Self)
        ensures
            r.0@ == self.0@,
    {
        StorageRootId(self.0.clone())
    }
}

#[derive(Debug, Clone, PartialEq, Eq, Hash, PartialOrd, Ord)]
pub struct ProviderName(pub String);

impl ProviderName {
    pub fn new(value: &str) -> (r: Self)
        ensures
            r.0@ == value@,
    {
        ProviderName(owned(value))
    }

    pub fn as_str(&self) -> (r: &str)
        ensures
            r@ == self.0@,
    {
        self.0.as_str()
    }

    /// Same identifier, character for character.
    pub fn same(&self, other: &ProviderName) -> (r: bool)
        ensures
            r == (self.0@ == other.0@),
    {
        str_eq(self.0.as_str(), other.0.as_str())
    }

    /// An independent copy with the same characters.
    pub fn duplicate(&self) -> (r: Self)
        ensures
            r.0@ == self.0@,
    {
        ProviderName(self.0.clone())
    }
}

#[derive(Debug, Clone, PartialEq, Eq, Hash, PartialOrd, Ord)]
pub struct ProviderSubject(pub String);

impl ProviderSubject {
    pub fn new(value: &str) -> (r: Self)
        ensures
            r.0@ == value@,
    {
        ProviderSubject(owned(value))
    }

    pub fn as_str(&self) -> (r: &str)
        ensures
            r@ == self.0@,
    {
        self.0.as_str()
    }

    /// Same identifier, character for character.
    pub fn same(&self, other: &ProviderSubject) -> (r: bool)
        ensures
            r == (self.0@ == other.0@),
    {
        str_eq(self.0.as_str(), other.0.as_str())
    }

    /// An independent copy with the same characters.
    pub fn duplicate(&self) -> (r: Self)
        ensures
            r.0@ == self.0@,
    {
        ProviderSubject(self.0.clone())
    }
}

#[derive(Debug, Clone, PartialEq, Eq, Hash, PartialOrd, Ord)]
pub struct Capability(pub String);

impl Capability {
    pub fn new(value: &str) -> (r: Self)
        ensures
            r.0@ == value@,
    {
        Capability(owned(value))
    }

    pub fn as_str(&self) -> (r: &str)
        ensures
            r@ == self.0@,
    {
        self.0.as_str()
    }

    /// Same identifier, character for character.
    pub fn same(&self, other: &Capability) -> (r: bool)
        ensures
            r == (self.0@ == other.0@),
    {
        str_eq(self.0.as_str(), other.0.as_str())
    }

    /// An independent copy with the same characters.
    pub fn duplicate(&self) -> (r: Self)
        ensures
            r.0@ == self.0@,
    {
        Capability(self.0.clone())
    }
}

#[derive(Debug, Clone, PartialEq, Eq, Hash, PartialOrd, Ord)]
pub struct DelegationId(pub String);

impl DelegationId {
    pub fn new(value: &str) -> (r: Self)
        ensures
            r.0@ == value@,
    {
        DelegationId(owned(value))
    }

    pub fn as_str(&self) -> (r: &str)
        ensures
            r@ == self.0@,
    {
        self.0.as_str()
    }

    /// Same identifier, character for character.
    pub fn same(&self, other: &DelegationId) -> (r: bool)
        ensures
            r == (self.0@ == other.0@),
    {
        str_eq(self.0.as_str(), other.0.as_str())
    }

    /// An independent copy with the same characters.
    pub fn duplicate(&self) -> (r: Self)
        ensures
            r.0@ == self.0@,
    {
        DelegationId(self.0.clone())
    }
}

#[derive(Debug, Clone, PartialEq, Eq, Hash, PartialOrd, Ord)]
pub struct AuditEventId(pub String);

impl AuditEventId {
    pub fn new(value: &str) -> (r: Self)
        ensures
            r.0@ == value@,
    {
        AuditEventId(owned(value))
    }

    pub fn as_str(&self) -> (r: &str)
        ensures
            r@ == self.0@,
    {
        self.0.as_str()
    }

    /// Same identifier, character for character.
    pub fn same(&self, other: &AuditEventId) -> (r: bool)
        ensures
            r == (self.0@ == other.0@),
    {
        str_eq(self.0.as_str(), other.0.as_str())
    }

    /// An independent copy with the same characters.
    pub fn duplicate(&self) -> (r: Self)
        ensures
            r.0@ == self.0@,
    {
        AuditEventId(self.0.clone())
    }
}

#[derive(Debug, Clone, PartialEq, Eq, Hash, PartialOrd, Ord)]
pub struct RunId(pub String);

impl RunId {
    pub fn new(value: &str) -> (r: Self)
        ensures
            r.0@ == value@,
    {
        RunId(owned(value))
    }

    pub fn as_str(&self) -> (r: &str)
        ensures
            r@ == self.0@,
    {
        self.0.as_str()
    }

    /// Same identifier, character for character.
    pub fn same(&self, other: &RunId) -> (r: bool)
        ensures
            r == (self.0@ == other.0@),
    {
        str_eq(self.0.as_str(), other.0.as_str())
    }

    /// An independent copy with the same characters.
    pub fn duplicate(&self) -> (r: Self)
        ensures
            r.0@ == self.0@,
    {
        RunId(self.0.clone())
    }
}

#[derive(Debug, Clone, PartialEq, Eq, Hash, PartialOrd, Ord)]
pub struct TaskId(pub String);

impl TaskId {
    pub fn new(value: &str) -> (r: Self)
        ensures
            r.0@ == value@,
    {
        TaskId(owned(value))
    }

    pub fn as_str(&self) -> (r: &str)
        ensures
            r@ == self.0@,
    {
        self.0.as_str()
    }

    /// Same identifier, character for character.
    pub fn same(&self, other: &TaskId) -> (r: bool)
        ensures
            r == (self.0@ == other.0@),
    {
        str_eq(self.0.as_str(), other.0.as_str())
    }

    /// An independent copy with the same characters.
    pub fn duplicate(&self) -> (r: Self)
        ensures
            r.0@ == self.0@,
    {
        TaskId(self.0.clone())
    }
}

#[derive(Debug, Clone, PartialEq, Eq, Hash, PartialOrd, Ord)]
pub struct ExecutionCredentialId(pub String);

impl ExecutionCredentialId {
    pub fn new(value: &str) -> (r: Self)
        ensures
            r.0@ == value@,
    {
        ExecutionCredentialId(owned(value))
    }

    pub fn as_str(&self) -> (r: &str)
        ensures
            r@ == self.0@,
    {
        self.0.as_str()
    }

    /// Same identifier, character for character.
    pub fn same(&self, other: &ExecutionCredentialId) -> (r: bool)
        ensures
            r == (self.0@ == other.0@),
    {
        str_eq(self.0.as_str(), other.0.as_str())
    }

    /// An independent copy with the same characters.
    pub fn duplicate(&self) -> (r: Self)
        ensures
            r.0@ == self.0@,
    {
        ExecutionCredentialId(self.0.clone())
    }
}

} // verus!

//! Authentication: methods, assurance levels, ceremonies and devices. A
//! ceremony moves through an explicit lifecycle; its terminal states admit no
//! further transition.
use vstd::prelude::*;
use crate::text::{cat, cat3, owned};
use super::ids::{PrincipalId, SessionId, TenantId};
use AuthenticationCeremonyState::{
    AwaitingUser, Cancelled, Challenged, Completed, Created, Expired, Failed, Verified,
};

verus! {

#[derive(Debug, Clone, Copy, PartialEq, Eq, Structural)]
pub enum AuthenticationMethod {
    Password,
    ExternalIdentity,
    Passkey,
    Mfa,
    DeviceApproval,
    Qr,
    Recovery,
}

pub open spec fn authentication_method_name(m: AuthenticationMethod) -> Seq<char> {
    match m {
        AuthenticationMethod::Password => "password"@,
        AuthenticationMethod::ExternalIdentity => "external_identity"@,
        AuthenticationMethod::Passkey => "passkey"@,
        AuthenticationMethod::Mfa => "mfa"@,
        AuthenticationMethod::DeviceApproval => "device_approval"@,
        AuthenticationMethod::Qr => "qr"@,
        AuthenticationMethod::Recovery => "recovery"@,
    }
}

impl AuthenticationMethod {
    pub fn as_str(&self) -> (r: &'static str)
        ensures
            r@ == authentication_method_name(*self),
    {
        match self {
            AuthenticationMethod::Password => "password",
            AuthenticationMethod::ExternalIdentity => "external_identity",
            AuthenticationMethod::Passkey => "passkey",
            AuthenticationMethod::Mfa => "mfa",
            AuthenticationMethod::DeviceApproval => "device_approval",
            AuthenticationMethod::Qr => "qr",
            AuthenticationMethod::Recovery => "recovery",
        }
    }
}

#[derive(Debug, Clone, Copy, PartialEq, Eq, PartialOrd, Ord, Structural)]
pub enum AuthenticationAssurance {
    Anonymous,
    Basic,
    Strong,
    PhishingResistant,
}

pub open spec fn assurance_name(a: AuthenticationAssurance) -> Seq<char> {
    match a {
        AuthenticationAssurance::Anonymous => "anonymous"@,
        AuthenticationAssurance::Basic => "basic"@,
        AuthenticationAssurance::Strong => "strong"@,
        AuthenticationAssurance::PhishingResistant => "phishing_resistant"@,
    }
}

impl AuthenticationAssurance {
    pub fn as_str(&self) -> (r: &'static str)
        ensures
            r@ == assurance_name(*self),
    {
        match self {
            AuthenticationAssurance::Anonymous => "anonymous",
            AuthenticationAssurance::Basic => "basic",
            AuthenticationAssurance::Strong => "strong",
            AuthenticationAssurance::PhishingResistant => "phishing_resistant",
        }
    }
}

#[derive(Debug, Clone, PartialEq, Eq)]
pub struct AuthenticationResult {
    pub principal: PrincipalId,
    pub tenant: TenantId,
    pub session: Option<SessionId>,
    pub method: AuthenticationMethod,
    pub provider: Option<String>,
    pub device: Option<DeviceId>,
    pub ceremony: Option<AuthenticationCeremonyId>,
    pub assurance: AuthenticationAssurance,
}

#[derive(Debug, Clone, PartialEq, Eq)]
pub struct AuthenticationCeremonyId(pub String);

impl AuthenticationCeremonyId {
    pub fn as_str(&self) -> (r: &str)
        ensures
            r@ == self.0@,
    {
        self.0.as_str()
    }
}

#[derive(Debug, Clone, PartialEq, Eq)]
pub struct AuthenticationCeremony {
    pub id: AuthenticationCeremonyId,
    pub method: AuthenticationMethod,
    pub principal_hint: Option<String>,
    pub state: AuthenticationCeremonyState,
    pub created_at: i64,
    pub expires_at: i64,
}

/// The message a refused ceremony transition is answered with.
pub open spec fn transition_error(from: AuthenticationCeremonyState, to: AuthenticationCeremonyState) -> Seq<char> {
    "cannot transition authentication ceremony from "@ + ceremony_state_name(from) + " to "@
        + ceremony_state_name(to)
}

impl AuthenticationCeremony {
    pub fn new(
        id: &str,
        method: AuthenticationMethod,
        principal_hint: Option<String>,
        created_at: i64,
        expires_at: i64,
    ) -> (r: Self)
        ensures
            r.id.0@ == id@,
            r.method == method,
            r.principal_hint == principal_hint,
            r.state == AuthenticationCeremonyState::Created,
            r.created_at == created_at,
            r.expires_at == expires_at,
    {
        AuthenticationCeremony {
            id: AuthenticationCeremonyId(owned(id)),
            method,
            principal_hint,
            state: AuthenticationCeremonyState::Created,
            created_at,
            expires_at,
        }
    }

    /// Moves the ceremony to `next` where the lifecycle allows it; otherwise
    /// leaves it unchanged and says why.
    pub fn transition(&mut self, next: AuthenticationCeremonyState) -> (r: Result<(), String>)
        ensures
            r is Ok <==> ceremony_step(old(self).state, next),
            r is Ok ==> *final(self) == (AuthenticationCeremony { state: next, ..*old(self) }),
            r matches Err(msg) ==> *final(self) == *old(self) && msg@ == transition_error(
                old(self).state,
                next,
            ),
    {
        if self.state.can_transition_to(&next) {
            self.state = next;
            Ok(())
        } else {
            let head = cat3(
                "cannot transition authentication ceremony from ",
                self.state.as_str(),
                " to ",
            );
            Err(cat(head.as_str(), next.as_str()))
        }
    }
}

#[derive(Debug, Clone, Copy, PartialEq, Eq, Structural)]
pub enum AuthenticationCeremonyState {
    Created,
    Challenged,
    AwaitingUser,
    Verified,
    Completed,
    Failed,
    Expired,
    Cancelled,
}

pub open spec fn ceremony_state_name(s: AuthenticationCeremonyState) -> Seq<char> {
    match s {
        AuthenticationCeremonyState::Created => "created"@,
        AuthenticationCeremonyState::Challenged => "challenged"@,
        AuthenticationCeremonyState::AwaitingUser => "awaiting_user"@,
        AuthenticationCeremonyState::Verified => "verified"@,
        AuthenticationCeremonyState::Completed => "completed"@,
        AuthenticationCeremonyState::Failed => "failed"@,
        AuthenticationCeremonyState::Expired => "expired"@,
        AuthenticationCeremonyState::Cancelled => "cancelled"@,
    }
}

/// The end states of a ceremony.
pub open spec fn ceremony_terminal(s: AuthenticationCeremonyState) -> bool {
    match s {
        AuthenticationCeremonyState::Completed | AuthenticationCeremonyState::Failed
        | AuthenticationCeremonyState::Expired | AuthenticationCeremonyState::Cancelled => true,
        _ => false,
    }
}

/// The lifecycle: created -> challenged -> awaiting user -> verified ->
/// completed, where challenge and user interaction may be skipped forward,
/// and any live state may fail, expire or be cancelled.
pub open spec fn ceremony_step(from: AuthenticationCeremonyState, to: AuthenticationCeremonyState) -> bool {
    match from {
        Created => to == Challenged || to == AwaitingUser || to == Failed || to == Expired || to
            == Cancelled,
        Challenged => to == AwaitingUser || to == Verified || to == Failed || to == Expired || to
            == Cancelled,
        AwaitingUser => to == Verified || to == Failed || to == Expired || to == Cancelled,
        Verified => to == Completed || to == Failed || to == Expired || to == Cancelled,
        _ => false,
    }
}

impl AuthenticationCeremonyState {
    pub fn as_str(&self) -> (r: &'static str)
        ensures
            r@ == ceremony_state_name(*self),
    {
        match self {
            AuthenticationCeremonyState::Created => "created",
            AuthenticationCeremonyState::Challenged => "challenged",
            AuthenticationCeremonyState::AwaitingUser => "awaiting_user",
            AuthenticationCeremonyState::Verified => "verified",
            AuthenticationCeremonyState::Completed => "completed",
            AuthenticationCeremonyState::Failed => "failed",
            AuthenticationCeremonyState::Expired => "expired",
            AuthenticationCeremonyState::Cancelled => "cancelled",
        }
    }

    pub fn can_transition_to(&self, next: &Self) -> (r: bool)
        ensures
            r == ceremony_step(*self, *next),
    {
            match self {
            Created => *next == Challenged || *next == AwaitingUser || *next == Failed || *next
                == Expired || *next == Cancelled,
            Challenged => *next == AwaitingUser || *next == Verified || *next == Failed || *next
                == Expired || *next == Cancelled,
            AwaitingUser => *next == Verified || *next == Failed || *next == Expired || *next
                == Cancelled,
            Verified => *next == Completed || *next == Failed || *next == Expired || *next
                == Cancelled,
            _ => false,
        }
    }
}

/// Terminal ceremony states are absorbing: no transition leaves them, and no
/// state steps to itself.
pub proof fn lemma_ceremony_terminal_absorbing(
    from: AuthenticationCeremonyState,
    to: AuthenticationCeremonyState,
)
    ensures
        ceremony_terminal(from) ==> !ceremony_step(from, to),
        !ceremony_step(from, from),
{
}

/// A ceremony can only reach `Completed` from `Verified`.
pub proof fn lemma_ceremony_completion_needs_verification(
    from: AuthenticationCeremonyState,
)
    ensures
        ceremony_step(from, AuthenticationCeremonyState::Completed) <==> from
            == AuthenticationCeremonyState::Verified,
{
}

#[derive(Debug, Clone, PartialEq, Eq)]
pub struct DeviceId(pub String);

impl DeviceId {
    pub fn as_str(&self) -> (r: &str)
        ensures
            r@ == self.0@,
    {
        self.0.as_str()
    }
}

#[derive(Debug, Clone, PartialEq, Eq)]
pub struct Device {
    pub id: DeviceId,
    pub principal: PrincipalId,
    pub device_type: DeviceType,
    pub name: String,
    pub created_at: i64,
    pub last_seen_at: Option<i64>,
    pub status: DeviceStatus,
}

#[derive(Debug, Clone, PartialEq, Eq)]
pub enum DeviceType {
    Browser,
    Mobile,
    Desktop,
    Cli,
    HardwareAuthenticator,
    Other(String),
}

#[derive(Debug, Clone, Copy, PartialEq, Eq, Structural)]
pub enum DeviceStatus {
    Active,
    Revoked,
    Pending,
}

#[derive(Debug, Clone, PartialEq, Eq)]
pub struct AuthPortIdentityProfile {
    pub principal: PrincipalId,
    pub display_name: Option<String>,
    pub email: Option<String>,
    pub verified_identities: Vec<String>,
    pub avatar_url: Option<String>,
    pub application_profile_ref: Option<String>,
}

#[derive(Debug, Clone, Copy, PartialEq, Eq, Structural)]
pub enum RecoveryMethod {
    Email,
    Passkey,
    TrustedDevice,
    Administrator,
    Enterprise,
}

#[derive(Debug, Clone, PartialEq, Eq)]
pub struct RecoveryCeremony {
    pub ceremony: AuthenticationCeremony,
    pub method: RecoveryMethod,
}

#[derive(Debug, Clone, PartialEq, Eq)]
pub struct AuthExtension {
    pub id: String,
    pub extension_type: String,
    pub capabilities: Vec<String>,
}

} // verus!

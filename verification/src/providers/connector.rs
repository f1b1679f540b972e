//! The connector contract: requests, challenges, responses and the external
//! identities connectors prove, and the errors they fail with.
use vstd::prelude::*;
use crate::text::{owned, cat, cat3, trim, trim_seq, push_utf8, utf8, hex16, hex_n};
use crate::assoc::{lookup, get_entry, set_entry};
use crate::dsl::model::{fnv1a, stable_hash, PasswordPolicy};

verus! {

/// The trimmed, non-empty value stored under `key`.
pub open spec fn param_value(entries: Seq<(String, String)>, key: Seq<char>) -> Option<Seq<char>> {
    match lookup(entries, key) {
        Some(v) => if trim_seq(v@).len() > 0 {
            Some(trim_seq(v@))
        } else {
            None
        },
        None => None,
    }
}

fn param_exec(entries: &Vec<(String, String)>, key: &str) -> (r: Option<String>)
    ensures
        match r {
            Some(v) => param_value(entries@, key@) == Some(v@),
            None => param_value(entries@, key@) is None,
        },
{
    match get_entry(entries, key) {
        Some(v) => {
            let t = trim(v.as_str());
            if t.as_str().unicode_len() > 0 {
                Some(t)
            } else {
                None
            }
        },
        None => None,
    }
}

/// An authentication attempt addressed to a connector.
#[derive(Debug, Clone, PartialEq, Eq, Default)]
pub struct AuthRequest {
    pub connector: String,
    pub tenant: Option<String>,
    pub parameters: Vec<(String, String)>,
    pub redirect_uri: Option<String>,
}

impl AuthRequest {
    pub fn new(connector: &str) -> (r: Self)
        ensures
            r.connector@ == connector@,
            r.tenant is None,
            r.parameters@.len() == 0,
            r.redirect_uri is None,
    {
        AuthRequest { connector: owned(connector), tenant: None, parameters: Vec::new(), redirect_uri: None }
    }

    pub fn for_tenant(self, tenant: &str) -> (r: Self)
        ensures
            r.connector == self.connector,
            r.tenant matches Some(t) && t@ == tenant@,
            r.parameters == self.parameters,
            r.redirect_uri == self.redirect_uri,
    {
        AuthRequest { tenant: Some(owned(tenant)), ..self }
    }

    /// The request with `key` set to `value`, replacing an earlier value.
    pub fn with_parameter(self, key: &str, value: &str) -> (r: Self)
        ensures
            r.connector == self.connector,
            r.tenant == self.tenant,
            r.redirect_uri == self.redirect_uri,
            lookup(r.parameters@, key@) matches Some(v) && v@ == value@,
            forall|k: Seq<char>| k != key@ ==> lookup(r.parameters@, k) == lookup(self.parameters@, k),
    {
        let mut s = self;
        set_entry(&mut s.parameters, owned(key), owned(value));
        s
    }

    /// The parameter's value, trimmed; a blank value counts as absent.
    pub fn parameter(&self, key: &str) -> (r: Option<String>)
        ensures
            match r {
                Some(v) => param_value(self.parameters@, key@) == Some(v@),
                None => param_value(self.parameters@, key@) is None,
            },
    {
        param_exec(&self.parameters, key)
    }
}

#[derive(Debug, Clone, PartialEq, Eq)]
pub enum ChallengeKind {
    /// The caller submits credentials directly.
    Credentials,
    /// The caller is sent to an external authorization endpoint.
    Redirect { url: String },
    /// The caller proves control of an out-of-band channel (email, SMS).
    OutOfBand { channel: String },
}

#[derive(Debug, Clone, PartialEq, Eq)]
pub struct AuthChallenge {
    pub connector: String,
    pub kind: ChallengeKind,
    /// Binds a `begin` to its `authenticate`.
    pub state: String,
    pub parameters: Vec<(String, String)>,
}

#[derive(Debug, Clone, PartialEq, Eq, Default)]
pub struct AuthResponse {
    pub connector: String,
    pub tenant: Option<String>,
    pub state: String,
    pub parameters: Vec<(String, String)>,
}

impl AuthResponse {
    /// A response answering `challenge`: same connector and state, nothing
    /// else yet.
    pub fn to_challenge(challenge: &AuthChallenge) -> (r: Self)
        ensures
            r.connector@ == challenge.connector@,
            r.tenant is None,
            r.state@ == challenge.state@,
            r.parameters@.len() == 0,
    {
        AuthResponse {
            connector: challenge.connector.clone(),
            tenant: None,
            state: challenge.state.clone(),
            parameters: Vec::new(),
        }
    }

    pub fn for_tenant(self, tenant: &str) -> (r: Self)
        ensures
            r.connector == self.connector,
            r.tenant matches Some(t) && t@ == tenant@,
            r.state == self.state,
            r.parameters == self.parameters,
    {
        AuthResponse { tenant: Some(owned(tenant)), ..self }
    }

    pub fn with_parameter(self, key: &str, value: &str) -> (r: Self)
        ensures
            r.connector == self.connector,
            r.tenant == self.tenant,
            r.state == self.state,
            lookup(r.parameters@, key@) matches Some(v) && v@ == value@,
            forall|k: Seq<char>| k != key@ ==> lookup(r.parameters@, k) == lookup(self.parameters@, k),
    {
        let mut s = self;
        set_entry(&mut s.parameters, owned(key), owned(value));
        s
    }

    pub fn parameter(&self, key: &str) -> (r: Option<String>)
        ensures
            match r {
                Some(v) => param_value(self.parameters@, key@) == Some(v@),
                None => param_value(self.parameters@, key@) is None,
            },
    {
        param_exec(&self.parameters, key)
    }
}

/// Proof that an external system recognises a subject; deliberately not a
/// principal.
#[derive(Debug, Clone, PartialEq, Eq)]
pub struct ExternalIdentity {
    pub connector: String,
    pub subject: String,
    pub attributes: Vec<(String, String)>,
}

impl ExternalIdentity {
    pub fn new(connector: &str, subject: &str) -> (r: Self)
        ensures
            r.connector@ == connector@,
            r.subject@ == subject@,
            r.attributes@.len() == 0,
    {
        ExternalIdentity { connector: owned(connector), subject: owned(subject), attributes: Vec::new() }
    }

    pub fn with_attribute(self, key: &str, value: &str) -> (r: Self)
        ensures
            r.connector == self.connector,
            r.subject == self.subject,
            lookup(r.attributes@, key@) matches Some(v) && v@ == value@,
            forall|k: Seq<char>| k != key@ ==> lookup(r.attributes@, k) == lookup(self.attributes@, k),
    {
        let mut s = self;
        set_entry(&mut s.attributes, owned(key), owned(value));
        s
    }
}

#[derive(Debug, Clone, Copy, PartialEq, Eq, PartialOrd, Ord, Structural)]
pub enum ConnectorKind {
    Local,
    Password,
    Oauth,
    Email,
    MagicLink,
    EnterpriseSso,
    Token,
}

pub open spec fn connector_kind_name(k: ConnectorKind) -> Seq<char> {
    match k {
        ConnectorKind::Local => "local"@,
        ConnectorKind::Password => "password"@,
        ConnectorKind::Oauth => "oauth"@,
        ConnectorKind::Email => "email"@,
        ConnectorKind::MagicLink => "magic_link"@,
        ConnectorKind::EnterpriseSso => "enterprise_sso"@,
        ConnectorKind::Token => "token"@,
    }
}

impl ConnectorKind {
    pub fn as_str(&self) -> (r: &'static str)
        ensures
            r@ == connector_kind_name(*self),
    {
        match self {
            ConnectorKind::Local => "local",
            ConnectorKind::Password => "password",
            ConnectorKind::Oauth => "oauth",
            ConnectorKind::Email => "email",
            ConnectorKind::MagicLink => "magic_link",
            ConnectorKind::EnterpriseSso => "enterprise_sso",
            ConnectorKind::Token => "token",
        }
    }
}

/// How much of a connector exists: `Declared` ones are advertised but fail
/// closed until implemented.
#[derive(Debug, Clone, Copy, PartialEq, Eq, PartialOrd, Ord, Structural)]
pub enum ConnectorStatus {
    Supported,
    Declared,
    Unknown,
}

pub open spec fn connector_status_name(s: ConnectorStatus) -> Seq<char> {
    match s {
        ConnectorStatus::Supported => "supported"@,
        ConnectorStatus::Declared => "declared"@,
        ConnectorStatus::Unknown => "unknown"@,
    }
}

impl ConnectorStatus {
    pub fn as_str(&self) -> (r: &'static str)
        ensures
            r@ == connector_status_name(*self),
    {
        match self {
            ConnectorStatus::Supported => "supported",
            ConnectorStatus::Declared => "declared",
            ConnectorStatus::Unknown => "unknown",
        }
    }

    pub fn is_supported(&self) -> (r: bool)
        ensures
            r == (*self == ConnectorStatus::Supported),
    {
        match self {
            ConnectorStatus::Supported => true,
            _ => false,
        }
    }
}

#[derive(Debug, Clone, PartialEq, Eq)]
pub struct ConnectorMetadata {
    pub id: String,
    pub display_name: String,
    pub kind: ConnectorKind,
    pub status: ConnectorStatus,
}

pub struct MetadataView {
    pub id: Seq<char>,
    pub display_name: Seq<char>,
    pub kind: ConnectorKind,
    pub status: ConnectorStatus,
}

impl View for ConnectorMetadata {
    type V = MetadataView;

    open spec fn view(&self) -> MetadataView {
        MetadataView { id: self.id@, display_name: self.display_name@, kind: self.kind, status: self.status }
    }
}

pub fn copy_metadata(m: &ConnectorMetadata) -> (r: ConnectorMetadata)
    ensures
        r@ == m@,
{
    ConnectorMetadata { id: m.id.clone(), display_name: m.display_name.clone(), kind: m.kind, status: m.status }
}

#[derive(Debug, Clone, PartialEq, Eq)]
pub enum ConnectorError {
    /// The connector is not in the registry at all.
    UnknownConnector { connector: String },
    /// The connector is declared by the contract but has no implementation.
    Unsupported { connector: String },
    NotDeclared { connector: String },
    DuplicateConnector { connector: String },
    InvalidRequest { connector: String, message: String },
    InvalidCredentials { connector: String },
    ChallengeMismatch { connector: String },
    PasswordReused { connector: String },
    PasswordHashingFailed { connector: String },
}

/// A connector error as plain values.
pub enum ConnectorErrorView {
    UnknownConnector(Seq<char>),
    Unsupported(Seq<char>),
    NotDeclared(Seq<char>),
    DuplicateConnector(Seq<char>),
    InvalidRequest(Seq<char>, Seq<char>),
    InvalidCredentials(Seq<char>),
    ChallengeMismatch(Seq<char>),
    PasswordReused(Seq<char>),
    PasswordHashingFailed(Seq<char>),
}

impl View for ConnectorError {
    type V = ConnectorErrorView;

    open spec fn view(&self) -> ConnectorErrorView {
        match self {
            ConnectorError::UnknownConnector { connector } => ConnectorErrorView::UnknownConnector(connector@),
            ConnectorError::Unsupported { connector } => ConnectorErrorView::Unsupported(connector@),
            ConnectorError::NotDeclared { connector } => ConnectorErrorView::NotDeclared(connector@),
            ConnectorError::DuplicateConnector { connector } => ConnectorErrorView::DuplicateConnector(connector@),
            ConnectorError::InvalidRequest { connector, message } => ConnectorErrorView::InvalidRequest(
                connector@,
                message@,
            ),
            ConnectorError::InvalidCredentials { connector } => ConnectorErrorView::InvalidCredentials(connector@),
            ConnectorError::ChallengeMismatch { connector } => ConnectorErrorView::ChallengeMismatch(connector@),
            ConnectorError::PasswordReused { connector } => ConnectorErrorView::PasswordReused(connector@),
            ConnectorError::PasswordHashingFailed { connector } => ConnectorErrorView::PasswordHashingFailed(
                connector@,
            ),
        }
    }
}

pub open spec fn error_connector(e: ConnectorErrorView) -> Seq<char> {
    match e {
        ConnectorErrorView::UnknownConnector(c) => c,
        ConnectorErrorView::Unsupported(c) => c,
        ConnectorErrorView::NotDeclared(c) => c,
        ConnectorErrorView::DuplicateConnector(c) => c,
        ConnectorErrorView::InvalidRequest(c, _) => c,
        ConnectorErrorView::InvalidCredentials(c) => c,
        ConnectorErrorView::ChallengeMismatch(c) => c,
        ConnectorErrorView::PasswordReused(c) => c,
        ConnectorErrorView::PasswordHashingFailed(c) => c,
    }
}

/// The human-readable text of an error.
pub open spec fn error_text(e: ConnectorErrorView) -> Seq<char> {
    match e {
        ConnectorErrorView::UnknownConnector(c) => "unknown connector `"@ + c + "`"@,
        ConnectorErrorView::Unsupported(c) => "connector `"@ + c + "` is declared but not implemented"@,
        ConnectorErrorView::NotDeclared(c) => "connector `"@ + c + "` is not declared by `use auth`"@,
        ConnectorErrorView::DuplicateConnector(c) => "duplicate connector `"@ + c + "`"@,
        ConnectorErrorView::InvalidRequest(c, m) => "connector `"@ + c + "`: "@ + m,
        ConnectorErrorView::InvalidCredentials(c) => "connector `"@ + c + "`: invalid credentials"@,
        ConnectorErrorView::ChallengeMismatch(c) => "connector `"@ + c + "`: challenge does not match response"@,
        ConnectorErrorView::PasswordReused(c) => "connector `"@ + c + "`: PASSWORD_REUSED"@,
        ConnectorErrorView::PasswordHashingFailed(c) => "connector `"@ + c + "`: password hashing failed"@,
    }
}

impl ConnectorError {
    /// The connector the error is about.
    pub fn connector(&self) -> (r: &str)
        ensures
            r@ == error_connector(self@),
    {
        match self {
            ConnectorError::UnknownConnector { connector } => connector.as_str(),
            ConnectorError::Unsupported { connector } => connector.as_str(),
            ConnectorError::NotDeclared { connector } => connector.as_str(),
            ConnectorError::DuplicateConnector { connector } => connector.as_str(),
            ConnectorError::InvalidRequest { connector, .. } => connector.as_str(),
            ConnectorError::InvalidCredentials { connector } => connector.as_str(),
            ConnectorError::ChallengeMismatch { connector } => connector.as_str(),
            ConnectorError::PasswordReused { connector } => connector.as_str(),
            ConnectorError::PasswordHashingFailed { connector } => connector.as_str(),
        }
    }

    /// The error as text.
    pub fn message(&self) -> (r: String)
        ensures
            r@ == error_text(self@),
    {
        match self {
            ConnectorError::UnknownConnector { connector } => cat3("unknown connector `", connector.as_str(), "`"),
            ConnectorError::Unsupported { connector } => cat3(
                "connector `",
                connector.as_str(),
                "` is declared but not implemented",
            ),
            ConnectorError::NotDeclared { connector } => cat3(
                "connector `",
                connector.as_str(),
                "` is not declared by `use auth`",
            ),
            ConnectorError::DuplicateConnector { connector } => cat3(
                "duplicate connector `",
                connector.as_str(),
                "`",
            ),
            ConnectorError::InvalidRequest { connector, message } => {
                let mut s = cat3("connector `", connector.as_str(), "`: ");
                s.append(message.as_str());
                s
            },
            ConnectorError::InvalidCredentials { connector } => cat3(
                "connector `",
                connector.as_str(),
                "`: invalid credentials",
            ),
            ConnectorError::ChallengeMismatch { connector } => cat3(
                "connector `",
                connector.as_str(),
                "`: challenge does not match response",
            ),
            ConnectorError::PasswordReused { connector } => cat3(
                "connector `",
                connector.as_str(),
                "`: PASSWORD_REUSED",
            ),
            ConnectorError::PasswordHashingFailed { connector } => cat3(
                "connector `",
                connector.as_str(),
                "`: password hashing failed",
            ),
        }
    }
}

/// The state binding a `begin` to its `authenticate`: a stable, non-secret
/// digest of connector, tenant and subject.
pub open spec fn challenge_state_of(connector: Seq<char>, tenant: Option<Seq<char>>, subject: Seq<char>) -> Seq<char> {
    let material = connector + "|"@ + match tenant {
        Some(t) => t,
        None => Seq::empty(),
    } + "|"@ + subject;
    "chal_"@ + hex_n(fnv1a(utf8(material)) as nat, 16)
}

pub fn challenge_state(connector: &str, tenant: Option<&str>, subject: &str) -> (r: String)
    ensures
        r@ == challenge_state_of(
            connector@,
            match tenant {
                Some(t) => Some(t@),
                None => None,
            },
            subject@,
        ),
{
    let mut material = cat(connector, "|");
    match tenant {
        Some(t) => material.append(t),
        None => {},
    }
    material.append("|");
    material.append(subject);
    let mut bytes: Vec<u8> = Vec::new();
    push_utf8(&mut bytes, material.as_str());
    let h = stable_hash(bytes.as_slice());
    let hex = hex16(h);
    cat("chal_", hex.as_str())
}

/// The connector contract. A connector proves an external identity; it
/// never creates a principal.
pub trait AuthConnector {
    fn id(&self) -> &str;

    fn metadata(&self) -> ConnectorMetadata;

    /// Starts an attempt and says what the caller must do next.
    fn begin(&self, request: &AuthRequest) -> Result<AuthChallenge, ConnectorError>;

    /// Completes an attempt, yielding proof of an external identity.
    fn authenticate(&self, response: &AuthResponse) -> Result<ExternalIdentity, ConnectorError>;

    fn supports_password_management(&self) -> bool;

    fn change_password(
        &mut self,
        tenant_id: &str,
        username: &str,
        current_password: &str,
        new_password: &str,
        policy: &PasswordPolicy,
        now: i64,
    ) -> Result<(), ConnectorError>;

    fn reset_password(
        &mut self,
        tenant_id: &str,
        username: &str,
        new_password: &str,
        policy: &PasswordPolicy,
        now: i64,
    ) -> Result<(), ConnectorError>;
}

} // verus!

//! What discovery reports: applications, routes, inferences, proposals and
//! reconciliation results. Discovery is read-only: nothing here changes
//! authority.
use vstd::prelude::*;

verus! {

#[derive(Debug, Clone, PartialEq, Eq)]
/// An application found under a root directory (`root` is the directory's
/// path as text).
pub struct ApplicationCandidate {
    pub root: String,
    pub name: Option<String>,
    pub language: Option<String>,
    pub framework: Option<String>,
    pub package_manager: Option<String>,
    pub entrypoints: Vec<EntrypointCandidate>,
    pub servers: Vec<ServerCandidate>,
    pub routes: Vec<RouteCandidate>,
    pub providers: Vec<ProviderCandidate>,
    pub existing_auth: Vec<ExistingAuthSystem>,
    pub existing_authport: ExistingAuthPort,
    pub confidence: DiscoveryConfidence,
}

#[derive(Debug, Clone, PartialEq, Eq)]
pub struct EntrypointCandidate {
    pub path: String,
    pub kind: EntrypointKind,
    pub confidence: DiscoveryConfidence,
}

#[derive(Debug, Clone, Copy, PartialEq, Eq, Structural)]
pub enum EntrypointKind {
    NodeScript,
    PythonScript,
    RustBinary,
    Unknown,
}

#[derive(Debug, Clone, PartialEq, Eq)]
pub struct ServerCandidate {
    pub command: String,
    pub source: String,
    pub confidence: DiscoveryConfidence,
}

#[derive(Debug, Clone, PartialEq, Eq, PartialOrd, Ord)]
pub struct RouteCandidate {
    pub method: String,
    pub path: String,
    pub source: RouteSource,
    pub capability: Option<String>,
}

#[derive(Debug, Clone, PartialEq, Eq)]
pub struct Inference {
    pub kind: InferenceKind,
    pub capability: String,
    pub resource: Option<ResourceInference>,
    pub confidence: Confidence,
    pub reasons: Vec<String>,
}

#[derive(Debug, Clone, PartialEq, Eq)]
pub struct ResourceInference {
    pub resource_type: String,
    pub resource_id: String,
    pub action: String,
}

#[derive(Debug, Clone, PartialEq, Eq)]
pub struct RouteDescription {
    pub id: String,
    pub method: String,
    pub path: String,
    pub source: RouteSource,
    pub capability: Option<String>,
    pub inference: Option<Inference>,
    pub protection: ProtectionState,
    pub protection_reason: String,
}

#[derive(Debug, Clone, PartialEq, Eq)]
pub struct AuthorityRecommendation {
    pub id: Option<String>,
    pub method: String,
    pub path: String,
    pub action: RecommendationAction,
    pub capability: Option<String>,
    pub status: ProposalReviewStatus,
    pub current_authority_state: String,
    pub proposed_authority_state: String,
    pub source: ProposalOrigin,
    pub discovery_revision: u64,
    pub authority_revision: u64,
    pub contract_fingerprint: String,
    pub confidence: Confidence,
    pub reasons: Vec<String>,
    pub reason: String,
}

#[derive(Debug, Clone, PartialEq, Eq)]
pub struct AuthorityProposal {
    pub application: String,
    pub contract_fingerprint: String,
    pub discovery_revision: u64,
    pub live_revision: u64,
    pub routes: Vec<RouteDescription>,
    pub inferences: Vec<Inference>,
    pub recommendations: Vec<AuthorityRecommendation>,
    pub warnings: Vec<String>,
}

#[derive(Debug, Clone, PartialEq, Eq)]
pub struct OrphanedAuthority {
    pub method: String,
    pub path: String,
    pub capability: String,
    pub reason: String,
}

#[derive(Debug, Clone, PartialEq, Eq)]
pub struct ChangedRoute {
    pub previous: RouteDescription,
    pub current: RouteDescription,
    pub reason: String,
}

#[derive(Debug, Clone, PartialEq, Eq)]
pub struct ProposalHistoryItem {
    pub id: String,
    pub method: String,
    pub path: String,
    pub capability: String,
    pub status: String,
    pub discovery_revision: u64,
    pub authority_revision: u64,
}

#[derive(Debug, Clone, PartialEq, Eq)]
pub struct AuthorityDriftItem {
    pub kind: AuthorityDrift,
    pub route: String,
    pub previous_state: String,
    pub current_state: String,
    pub authority_state: String,
    pub recommended_action: String,
    pub discovery_revision: u64,
    pub authority_revision: u64,
}

#[derive(Debug, Clone, PartialEq, Eq)]
pub struct ReconciliationResult {
    pub application: String,
    pub contract_fingerprint: String,
    pub discovery_revision: u64,
    pub authority_revision: u64,
    pub reconciliation_revision: u64,
    pub new_routes: Vec<RouteDescription>,
    pub removed_routes: Vec<RouteDescription>,
    pub changed_routes: Vec<ChangedRoute>,
    pub unchanged_routes: Vec<RouteDescription>,
    pub equivalent_routes: Vec<ChangedRoute>,
    pub orphaned_authority: Vec<OrphanedAuthority>,
    pub new_authority_proposals: Vec<AuthorityRecommendation>,
    pub stale_proposals: Vec<ProposalHistoryItem>,
    pub warnings: Vec<String>,
    pub drift: Vec<AuthorityDriftItem>,
}

#[derive(Debug, Clone, PartialEq, Eq)]
pub struct ProviderCandidate {
    pub id: String,
    pub display_name: String,
}

#[derive(Debug, Clone, PartialEq, Eq)]
pub struct ExistingAuthSystem {
    pub id: String,
    pub display_name: String,
    pub credentials: bool,
    pub sessions: bool,
    pub profiles: bool,
    pub authorization: bool,
    pub coexistence: AuthCoexistence,
    pub evidence: Vec<String>,
}

/// A previously installed integration, by the evidence found for it.
#[derive(Debug, Clone, Copy, Default, PartialEq, Eq, Structural)]
pub struct ExistingAuthPort {
    pub dependency: bool,
    pub initialization: bool,
    pub middleware: bool,
    pub configuration: bool,
    pub manifest: bool,
}

/// The public name for a previously installed integration.
pub type ExistingAuthBoundry = ExistingAuthPort;

impl ExistingAuthPort {
    pub fn detected(&self) -> (r: bool)
        ensures
            r == (self.dependency || self.initialization || self.middleware || self.configuration
                || self.manifest),
    {
        self.dependency || self.initialization || self.middleware || self.configuration
            || self.manifest
    }
}

#[derive(Debug, Clone, Copy, PartialEq, Eq, PartialOrd, Ord, Structural)]
pub enum RouteSource {
    Express,
    Embedded,
    Standalone,
    Rust,
    Client,
    Python,
    Unknown,
}

pub open spec fn route_source_name(v: RouteSource) -> Seq<char> {
    match v {
        RouteSource::Express => "express"@,
        RouteSource::Embedded => "embedded"@,
        RouteSource::Standalone => "standalone"@,
        RouteSource::Rust => "rust"@,
        RouteSource::Client => "client"@,
        RouteSource::Python => "python"@,
        RouteSource::Unknown => "unknown"@,
    }
}

impl RouteSource {
    pub fn as_str(&self) -> (r: &'static str)
        ensures
            r@ == route_source_name(*self),
    {
        match self {
            RouteSource::Express => "express",
            RouteSource::Embedded => "embedded",
            RouteSource::Standalone => "standalone",
            RouteSource::Rust => "rust",
            RouteSource::Client => "client",
            RouteSource::Python => "python",
            RouteSource::Unknown => "unknown",
        }
    }
}

#[derive(Debug, Clone, Copy, PartialEq, Eq, PartialOrd, Ord, Structural)]
pub enum Confidence {
    High,
    Medium,
    Low,
    Unknown,
}

pub open spec fn confidence_name(v: Confidence) -> Seq<char> {
    match v {
        Confidence::High => "high"@,
        Confidence::Medium => "medium"@,
        Confidence::Low => "low"@,
        Confidence::Unknown => "unknown"@,
    }
}

impl Confidence {
    pub fn as_str(&self) -> (r: &'static str)
        ensures
            r@ == confidence_name(*self),
    {
        match self {
            Confidence::High => "high",
            Confidence::Medium => "medium",
            Confidence::Low => "low",
            Confidence::Unknown => "unknown",
        }
    }
}

#[derive(Debug, Clone, Copy, PartialEq, Eq, Structural)]
pub enum InferenceKind {
    Capability,
}

pub open spec fn inference_kind_name(v: InferenceKind) -> Seq<char> {
    match v {
        InferenceKind::Capability => "capability"@,
    }
}

impl InferenceKind {
    pub fn as_str(&self) -> (r: &'static str)
        ensures
            r@ == inference_kind_name(*self),
    {
        match self {
            InferenceKind::Capability => "capability",
        }
    }
}

#[derive(Debug, Clone, Copy, PartialEq, Eq, Structural)]
pub enum ProtectionState {
    Public,
    Protected,
    Unprotected,
}

pub open spec fn protection_state_name(v: ProtectionState) -> Seq<char> {
    match v {
        ProtectionState::Public => "public"@,
        ProtectionState::Protected => "protected"@,
        ProtectionState::Unprotected => "unprotected"@,
    }
}

impl ProtectionState {
    pub fn as_str(&self) -> (r: &'static str)
        ensures
            r@ == protection_state_name(*self),
    {
        match self {
            ProtectionState::Public => "public",
            ProtectionState::Protected => "protected",
            ProtectionState::Unprotected => "unprotected",
        }
    }
}

#[derive(Debug, Clone, Copy, PartialEq, Eq, Structural)]
pub enum ProposalReviewStatus {
    Recommended,
    Approved,
    Rejected,
    AlreadyProtected,
    AlreadyPublic,
    Stale,
}

pub open spec fn proposal_review_status_name(v: ProposalReviewStatus) -> Seq<char> {
    match v {
        ProposalReviewStatus::Recommended => "recommended"@,
        ProposalReviewStatus::Approved => "approved"@,
        ProposalReviewStatus::Rejected => "rejected"@,
        ProposalReviewStatus::AlreadyProtected => "already_protected"@,
        ProposalReviewStatus::AlreadyPublic => "already_public"@,
        ProposalReviewStatus::Stale => "stale"@,
    }
}

impl ProposalReviewStatus {
    pub fn as_str(&self) -> (r: &'static str)
        ensures
            r@ == proposal_review_status_name(*self),
    {
        match self {
            ProposalReviewStatus::Recommended => "recommended",
            ProposalReviewStatus::Approved => "approved",
            ProposalReviewStatus::Rejected => "rejected",
            ProposalReviewStatus::AlreadyProtected => "already_protected",
            ProposalReviewStatus::AlreadyPublic => "already_public",
            ProposalReviewStatus::Stale => "stale",
        }
    }
}

#[derive(Debug, Clone, Copy, PartialEq, Eq, Structural)]
pub enum ProposalOrigin {
    Explicit,
    Inferred,
    Imported,
}

pub open spec fn proposal_origin_name(v: ProposalOrigin) -> Seq<char> {
    match v {
        ProposalOrigin::Explicit => "explicit"@,
        ProposalOrigin::Inferred => "inferred"@,
        ProposalOrigin::Imported => "imported"@,
    }
}

impl ProposalOrigin {
    pub fn as_str(&self) -> (r: &'static str)
        ensures
            r@ == proposal_origin_name(*self),
    {
        match self {
            ProposalOrigin::Explicit => "explicit",
            ProposalOrigin::Inferred => "inferred",
            ProposalOrigin::Imported => "imported",
        }
    }
}

#[derive(Debug, Clone, Copy, PartialEq, Eq, Structural)]
pub enum RecommendationAction {
    NoChange,
    ProtectRoute,
}

pub open spec fn recommendation_action_name(v: RecommendationAction) -> Seq<char> {
    match v {
        RecommendationAction::NoChange => "no_change"@,
        RecommendationAction::ProtectRoute => "protect_route"@,
    }
}

impl RecommendationAction {
    pub fn as_str(&self) -> (r: &'static str)
        ensures
            r@ == recommendation_action_name(*self),
    {
        match self {
            RecommendationAction::NoChange => "no_change",
            RecommendationAction::ProtectRoute => "protect_route",
        }
    }
}

#[derive(Debug, Clone, Copy, PartialEq, Eq, Structural)]
pub enum AuthorityDrift {
    NewRoute,
    RemovedRoute,
    RouteChanged,
    CapabilityConflict,
    OrphanedAuthority,
    StaleProposal,
}

pub open spec fn authority_drift_name(v: AuthorityDrift) -> Seq<char> {
    match v {
        AuthorityDrift::NewRoute => "new_route"@,
        AuthorityDrift::RemovedRoute => "removed_route"@,
        AuthorityDrift::RouteChanged => "route_changed"@,
        AuthorityDrift::CapabilityConflict => "capability_conflict"@,
        AuthorityDrift::OrphanedAuthority => "orphaned_authority"@,
        AuthorityDrift::StaleProposal => "stale_proposal"@,
    }
}

impl AuthorityDrift {
    pub fn as_str(&self) -> (r: &'static str)
        ensures
            r@ == authority_drift_name(*self),
    {
        match self {
            AuthorityDrift::NewRoute => "new_route",
            AuthorityDrift::RemovedRoute => "removed_route",
            AuthorityDrift::RouteChanged => "route_changed",
            AuthorityDrift::CapabilityConflict => "capability_conflict",
            AuthorityDrift::OrphanedAuthority => "orphaned_authority",
            AuthorityDrift::StaleProposal => "stale_proposal",
        }
    }
}

#[derive(Debug, Clone, Copy, PartialEq, Eq, Structural)]
pub enum AuthCoexistence {
    Bridge,
    Migrate,
}

pub open spec fn auth_coexistence_name(v: AuthCoexistence) -> Seq<char> {
    match v {
        AuthCoexistence::Bridge => "bridge"@,
        AuthCoexistence::Migrate => "migrate"@,
    }
}

impl AuthCoexistence {
    pub fn as_str(&self) -> (r: &'static str)
        ensures
            r@ == auth_coexistence_name(*self),
    {
        match self {
            AuthCoexistence::Bridge => "bridge",
            AuthCoexistence::Migrate => "migrate",
        }
    }
}

#[derive(Debug, Clone, Copy, PartialEq, Eq, Structural)]
pub enum DiscoveryConfidence {
    Low,
    Medium,
    High,
}

pub open spec fn discovery_confidence_name(v: DiscoveryConfidence) -> Seq<char> {
    match v {
        DiscoveryConfidence::Low => "low"@,
        DiscoveryConfidence::Medium => "medium"@,
        DiscoveryConfidence::High => "high"@,
    }
}

impl DiscoveryConfidence {
    pub fn as_str(&self) -> (r: &'static str)
        ensures
            r@ == discovery_confidence_name(*self),
    {
        match self {
            DiscoveryConfidence::Low => "low",
            DiscoveryConfidence::Medium => "medium",
            DiscoveryConfidence::High => "high",
        }
    }
}
} // verus!

//! Authority proposals: every discovered route described, with its likely
//! capability and a recommendation that is never applied by itself.
use vstd::prelude::*;
use crate::text::{
    owned, cat, cat3, views, join, join_with, str_eq, lemma_map_push, lemma_map_take_step, push_utf8,
    utf8, u64_decimal, decimal, seq_le, str_le, list_text, append_list,
};
use crate::dsl::model::{fnv1a, stable_hash};
use crate::sorting::{Ordered, insertion_sort, isort_by, le_of, views_of};
use super::model::{
    ApplicationCandidate, AuthorityProposal, AuthorityRecommendation, Confidence, Inference,
    ProposalOrigin, ProposalReviewStatus, ProtectionState, RecommendationAction, ResourceInference,
    RouteCandidate, RouteDescription, RouteSource, confidence_name, protection_state_name,
    route_source_name,
};
use super::paths::{
    InferenceView, classify_protection, infer_capability, inferred, normalize_path, normalized,
    protection_of,
};
use super::authority_map::AuthorityMap;

verus! {

/// A route description as plain values.
pub struct RouteView {
    pub id: Seq<char>,
    pub method: Seq<char>,
    pub path: Seq<char>,
    pub source: RouteSource,
    pub capability: Option<Seq<char>>,
    pub inference: Option<InferenceView>,
    pub protection: ProtectionState,
    pub protection_reason: Seq<char>,
}

pub open spec fn opt_str(o: Option<String>) -> Option<Seq<char>> {
    match o {
        Some(s) => Some(s@),
        None => None,
    }
}

impl View for RouteDescription {
    type V = RouteView;

    open spec fn view(&self) -> RouteView {
        RouteView {
            id: self.id@,
            method: self.method@,
            path: self.path@,
            source: self.source,
            capability: opt_str(self.capability),
            inference: match self.inference {
                Some(i) => Some(i@),
                None => None,
            },
            protection: self.protection,
            protection_reason: self.protection_reason@,
        }
    }
}

/// A recommendation as plain values.
pub struct RecommendationView {
    pub id: Option<Seq<char>>,
    pub method: Seq<char>,
    pub path: Seq<char>,
    pub action: RecommendationAction,
    pub capability: Option<Seq<char>>,
    pub status: ProposalReviewStatus,
    pub current_authority_state: Seq<char>,
    pub proposed_authority_state: Seq<char>,
    pub source: ProposalOrigin,
    pub discovery_revision: u64,
    pub authority_revision: u64,
    pub contract_fingerprint: Seq<char>,
    pub confidence: Confidence,
    pub reasons: Seq<Seq<char>>,
    pub reason: Seq<char>,
}

impl View for AuthorityRecommendation {
    type V = RecommendationView;

    open spec fn view(&self) -> RecommendationView {
        RecommendationView {
            id: opt_str(self.id),
            method: self.method@,
            path: self.path@,
            action: self.action,
            capability: opt_str(self.capability),
            status: self.status,
            current_authority_state: self.current_authority_state@,
            proposed_authority_state: self.proposed_authority_state@,
            source: self.source,
            discovery_revision: self.discovery_revision,
            authority_revision: self.authority_revision,
            contract_fingerprint: self.contract_fingerprint@,
            confidence: self.confidence,
            reasons: views(self.reasons@),
            reason: self.reason@,
        }
    }
}

pub open spec fn source_rank(s: RouteSource) -> int {
    match s {
        RouteSource::Express => 0,
        RouteSource::Embedded => 1,
        RouteSource::Standalone => 2,
        RouteSource::Rust => 3,
        RouteSource::Client => 4,
        RouteSource::Python => 5,
        RouteSource::Unknown => 6,
    }
}

fn source_rank_exec(s: RouteSource) -> (r: u8)
    ensures
        r as int == source_rank(s),
{
    match s {
        RouteSource::Express => 0,
        RouteSource::Embedded => 1,
        RouteSource::Standalone => 2,
        RouteSource::Rust => 3,
        RouteSource::Client => 4,
        RouteSource::Python => 5,
        RouteSource::Unknown => 6,
    }
}

impl Ordered for RouteDescription {
    /// Proposal order: by path, then method, then source.
    open spec fn spec_le(a: RouteView, b: RouteView) -> bool {
        if a.path != b.path {
            seq_le(a.path, b.path)
        } else if a.method != b.method {
            seq_le(a.method, b.method)
        } else {
            source_rank(a.source) <= source_rank(b.source)
        }
    }

    fn le(&self, other: &Self) -> (r: bool) {
        if self.path != other.path {
            str_le(self.path.as_str(), other.path.as_str())
        } else if self.method != other.method {
            str_le(self.method.as_str(), other.method.as_str())
        } else {
            source_rank_exec(self.source) <= source_rank_exec(other.source)
        }
    }
}

/// What a discovered route is described as, given the approved mappings.
pub open spec fn described(method: Seq<char>, path: Seq<char>, source: RouteSource, explicit: Option<Seq<char>>, existing: AuthorityMap) -> RouteView {
    let npath = normalized(path);
    let capability = match explicit {
        Some(c) => Some(c),
        None => existing.spec_get((method, npath)),
    };
    let inference = if capability is Some {
        None
    } else {
        inferred(method, path)
    };
    let prot = protection_of(method, path, capability is Some);
    RouteView {
        id: method + " "@ + npath,
        method,
        path: npath,
        source,
        capability,
        inference,
        protection: prot.0,
        protection_reason: prot.1,
    }
}

pub open spec fn candidate_described(r: RouteCandidate, existing: AuthorityMap) -> RouteView {
    described(r.method@, r.path@, r.source, opt_str(r.capability), existing)
}

pub fn describe_route(route: &RouteCandidate, existing: &AuthorityMap) -> (r: RouteDescription)
    ensures
        r@ == candidate_described(*route, *existing),
{
    let npath = normalize_path(route.path.as_str());
    let capability: Option<String> = match &route.capability {
        Some(c) => Some(c.clone()),
        None => match existing.get(&route.method, &npath) {
            Some(c) => Some(c.clone()),
            None => None,
        },
    };
    let inference = if capability.is_some() {
        None
    } else {
        infer_capability(route.method.as_str(), route.path.as_str())
    };
    let (protection, protection_reason) = classify_protection(
        route.method.as_str(),
        route.path.as_str(),
        capability.is_some(),
    );
    let r = RouteDescription {
        id: cat3(route.method.as_str(), " ", npath.as_str()),
        method: route.method.clone(),
        path: npath,
        source: route.source,
        capability,
        inference,
        protection,
        protection_reason,
    };
    assert(r@.inference == candidate_described(*route, *existing).inference);
    r
}

// ---------------------------------------------------------------------------
// Discovery revision.
// ---------------------------------------------------------------------------

pub open spec fn opt_text(o: Option<Seq<char>>) -> Seq<char> {
    match o {
        Some(s) => "some:"@ + s,
        None => "none"@,
    }
}

pub open spec fn inference_rev_text(i: Option<InferenceView>) -> Seq<char> {
    match i {
        None => "none"@,
        Some(x) => "some:"@ + x.capability + "|"@ + match x.resource {
            Some(r) => r.0 + "|"@ + r.1 + "|"@ + r.2,
            None => "none"@,
        } + "|"@ + confidence_name(x.confidence) + "|"@ + list_text(x.reasons),
    }
}

/// The text one route contributes to the discovery revision.
pub open spec fn route_rev_text(r: RouteView) -> Seq<char> {
    r.method + "\n"@ + r.path + "\n"@ + route_source_name(r.source) + "\n"@ + opt_text(r.capability)
        + "\n"@ + inference_rev_text(r.inference) + "\n"@
}

pub open spec fn routes_rev_text(rs: Seq<RouteView>) -> Seq<char>
    decreases rs.len(),
{
    if rs.len() == 0 {
        Seq::empty()
    } else {
        routes_rev_text(rs.drop_last()) + route_rev_text(rs.last())
    }
}

/// The discovery revision: a stable hash of everything discovered about the
/// routes, so equal discoveries have equal revisions in every process.
pub open spec fn discovery_revision_of(rs: Seq<RouteView>) -> u64 {
    fnv1a(utf8(routes_rev_text(rs)))
}

fn append_opt(out: &mut String, o: &Option<String>)
    ensures
        final(out)@ == old(out)@ + opt_text(opt_str(*o)),
{
    match o {
        Some(s) => {
            out.append("some:");
            out.append(s.as_str());
        },
        None => out.append("none"),
    }
}

fn append_inference_rev(out: &mut String, i: &Option<Inference>)
    ensures
        final(out)@ == old(out)@ + inference_rev_text(match *i {
            Some(x) => Some(x@),
            None => None,
        }),
{
    let ghost start = out@;
    match i {
        None => out.append("none"),
        Some(x) => {
            out.append("some:");
            out.append(x.capability.as_str());
            out.append("|");
            match &x.resource {
                Some(r) => {
                    out.append(r.resource_type.as_str());
                    out.append("|");
                    out.append(r.resource_id.as_str());
                    out.append("|");
                    out.append(r.action.as_str());
                },
                None => out.append("none"),
            }
            out.append("|");
            out.append(x.confidence.as_str());
            out.append("|");
            append_list(out, &x.reasons);
            assert(out@ =~= start + inference_rev_text(Some(x@)));
        },
    }
}

fn append_route_rev(out: &mut String, r: &RouteDescription)
    ensures
        final(out)@ == old(out)@ + route_rev_text(r@),
{
    let ghost start = out@;
    out.append(r.method.as_str());
    out.append("\n");
    out.append(r.path.as_str());
    out.append("\n");
    out.append(r.source.as_str());
    out.append("\n");
    append_opt(out, &r.capability);
    out.append("\n");
    append_inference_rev(out, &r.inference);
    out.append("\n");
    assert(out@ =~= start + route_rev_text(r@));
}

pub fn discovery_revision(routes: &Vec<RouteDescription>) -> (r: u64)
    ensures
        r == discovery_revision_of(views_of(routes@)),
{
    let mut text = String::new();
    let mut i: usize = 0;
    while i < routes.len()
        invariant
            i <= routes@.len(),
            text@ == routes_rev_text(views_of(routes@).take(i as int)),
        decreases routes@.len() - i,
    {
        append_route_rev(&mut text, &routes[i]);
        proof {
            let t = views_of(routes@).take(i + 1);
            assert(t.drop_last() =~= views_of(routes@).take(i as int));
        }
        i = i + 1;
    }
    assert(views_of(routes@).take(i as int) =~= views_of(routes@));
    let mut bytes: Vec<u8> = Vec::new();
    push_utf8(&mut bytes, text.as_str());
    assert(bytes@ =~= utf8(text@));
    stable_hash(bytes.as_slice())
}

// ---------------------------------------------------------------------------
// Recommendations and the proposal.
// ---------------------------------------------------------------------------

/// A mutating, unprotected route with no mapping and a definite inference is
/// recommended for protection; every other route is left as it is.
pub open spec fn recommended_action(r: RouteView) -> RecommendationAction {
    if r.protection == ProtectionState::Unprotected && r.capability is None && (r.inference matches Some(i)
        && i.confidence != Confidence::Unknown) && r.method != "GET"@ {
        RecommendationAction::ProtectRoute
    } else {
        RecommendationAction::NoChange
    }
}

pub open spec fn recommendation_for(r: RouteView, discovery_revision: u64, live_revision: u64, fingerprint: Seq<char>) -> RecommendationView {
    let action = recommended_action(r);
    RecommendationView {
        id: None,
        method: r.method,
        path: r.path,
        action,
        capability: match r.capability {
            Some(c) => Some(c),
            None => match r.inference {
                Some(i) => Some(i.capability),
                None => None,
            },
        },
        status: match r.protection {
            ProtectionState::Public => ProposalReviewStatus::AlreadyPublic,
            ProtectionState::Protected => ProposalReviewStatus::AlreadyProtected,
            ProtectionState::Unprotected => ProposalReviewStatus::Recommended,
        },
        current_authority_state: protection_state_name(r.protection),
        proposed_authority_state: if action == RecommendationAction::ProtectRoute {
            "protected"@
        } else {
            protection_state_name(r.protection)
        },
        source: if r.capability is Some {
            ProposalOrigin::Explicit
        } else {
            ProposalOrigin::Inferred
        },
        discovery_revision,
        authority_revision: live_revision,
        contract_fingerprint: fingerprint,
        confidence: match r.inference {
            Some(i) => i.confidence,
            None => Confidence::Unknown,
        },
        reasons: match r.inference {
            Some(i) => i.reasons,
            None => seq![r.protection_reason],
        },
        reason: if action == RecommendationAction::NoChange {
            "nothing is applied without approval"@
        } else {
            "mutating route has a deterministic capability inference"@
        },
    }
}

/// The inferences of the routes that carry one, in order.
pub open spec fn inferences_of(rs: Seq<RouteView>) -> Seq<InferenceView>
    decreases rs.len(),
{
    if rs.len() == 0 {
        Seq::empty()
    } else {
        match rs.last().inference {
            Some(i) => inferences_of(rs.drop_last()).push(i),
            None => inferences_of(rs.drop_last()),
        }
    }
}

/// The routes of a proposal: each discovered route described, sorted by
/// path, method and source.
pub open spec fn proposal_routes(app: ApplicationCandidate, existing: AuthorityMap) -> Seq<RouteView> {
    isort_by(
        app.routes@.map_values(|c: RouteCandidate| candidate_described(c, existing)),
        le_of::<RouteDescription>(),
    )
}

pub open spec fn application_name(app: ApplicationCandidate) -> Seq<char> {
    match app.name {
        Some(n) => n@,
        None => "application"@,
    }
}

pub(crate) fn copy_strings(v: &Vec<String>) -> (r: Vec<String>)
    ensures
        r@ == v@,
{
    let mut out: Vec<String> = Vec::new();
    let mut i: usize = 0;
    while i < v.len()
        invariant
            i <= v@.len(),
            out@ == v@.take(i as int),
        decreases v@.len() - i,
    {
        out.push(v[i].clone());
        assert(out@ =~= v@.take(i + 1));
        i = i + 1;
    }
    assert(v@.take(i as int) =~= v@);
    out
}

pub fn copy_inference(i: &Inference) -> (r: Inference)
    ensures
        r@ == i@,
{
    Inference {
        kind: i.kind,
        capability: i.capability.clone(),
        resource: match &i.resource {
            Some(x) => Some(ResourceInference {
                resource_type: x.resource_type.clone(),
                resource_id: x.resource_id.clone(),
                action: x.action.clone(),
            }),
            None => None,
        },
        confidence: i.confidence,
        reasons: copy_strings(&i.reasons),
    }
}

fn recommend(r: &RouteDescription, discovery_revision: u64, live_revision: u64, fingerprint: &str) -> (rec: AuthorityRecommendation)
    ensures
        rec@ == recommendation_for(r@, discovery_revision, live_revision, fingerprint@),
{
    let confident = match &r.inference {
        Some(i) => i.confidence != Confidence::Unknown,
        None => false,
    };
    let action = if r.protection == ProtectionState::Unprotected && r.capability.is_none() && confident
        && !str_eq(r.method.as_str(), "GET") {
        RecommendationAction::ProtectRoute
    } else {
        RecommendationAction::NoChange
    };
    let capability = match &r.capability {
        Some(c) => Some(c.clone()),
        None => match &r.inference {
            Some(i) => Some(i.capability.clone()),
            None => None,
        },
    };
    let reasons = match &r.inference {
        Some(i) => copy_strings(&i.reasons),
        None => {
            let mut v: Vec<String> = Vec::new();
            v.push(r.protection_reason.clone());
            assert(views(v@) =~= seq![r.protection_reason@]);
            v
        },
    };
    AuthorityRecommendation {
        id: None,
        method: r.method.clone(),
        path: r.path.clone(),
        action,
        capability,
        status: match r.protection {
            ProtectionState::Public => ProposalReviewStatus::AlreadyPublic,
            ProtectionState::Protected => ProposalReviewStatus::AlreadyProtected,
            ProtectionState::Unprotected => ProposalReviewStatus::Recommended,
        },
        current_authority_state: owned(r.protection.as_str()),
        proposed_authority_state: match action {
            RecommendationAction::ProtectRoute => owned("protected"),
            RecommendationAction::NoChange => owned(r.protection.as_str()),
        },
        source: if r.capability.is_some() {
            ProposalOrigin::Explicit
        } else {
            ProposalOrigin::Inferred
        },
        discovery_revision,
        authority_revision: live_revision,
        contract_fingerprint: owned(fingerprint),
        confidence: match &r.inference {
            Some(i) => i.confidence,
            None => Confidence::Unknown,
        },
        reasons,
        reason: match action {
            RecommendationAction::NoChange => owned("nothing is applied without approval"),
            RecommendationAction::ProtectRoute => owned("mutating route has a deterministic capability inference"),
        },
    }
}

/// What `propose_authority` returns.
pub open spec fn proposal_of(
    p: AuthorityProposal,
    app: ApplicationCandidate,
    fingerprint: Seq<char>,
    live_revision: u64,
    existing: AuthorityMap,
) -> bool {
    let routes = proposal_routes(app, existing);
    let rev = discovery_revision_of(routes);
    &&& p.application@ == application_name(app)
    &&& p.contract_fingerprint@ == fingerprint
    &&& p.discovery_revision == rev
    &&& p.live_revision == live_revision
    &&& views_of(p.routes@) == routes
    &&& views_of(p.inferences@) == inferences_of(routes)
    &&& views_of(p.recommendations@) == routes.map_values(
        |r: RouteView| recommendation_for(r, rev, live_revision, fingerprint),
    )
    &&& p.warnings@.len() == 0
}

/// Describes every discovered route and recommends protection where it is
/// safe to; nothing is applied.
pub fn propose_authority(
    application: &ApplicationCandidate,
    contract_fingerprint: &str,
    live_revision: u64,
    existing_mappings: &AuthorityMap,
) -> (r: AuthorityProposal)
    ensures
        proposal_of(r, *application, contract_fingerprint@, live_revision, *existing_mappings),
{
    let ghost described_all = application.routes@.map_values(
        |c: RouteCandidate| candidate_described(c, *existing_mappings),
    );
    let mut described: Vec<RouteDescription> = Vec::new();
    let mut i: usize = 0;
    while i < application.routes.len()
        invariant
            i <= application.routes@.len(),
            described_all == application.routes@.map_values(
                |c: RouteCandidate| candidate_described(c, *existing_mappings),
            ),
            views_of(described@) == described_all.take(i as int),
        decreases application.routes@.len() - i,
    {
        let d = describe_route(&application.routes[i], existing_mappings);
        let ghost before = described@;
        described.push(d);
        proof {
            lemma_map_push(before, d, |x: RouteDescription| x@);
            assert(described_all.take(i + 1) =~= described_all.take(i as int).push(described_all[i as int]));
        }
        i = i + 1;
    }
    assert(described_all.take(i as int) =~= described_all);
    let routes = insertion_sort(described);
    let ghost rs = views_of(routes@);
    let revision = discovery_revision(&routes);
    let mut inferences: Vec<Inference> = Vec::new();
    let mut recommendations: Vec<AuthorityRecommendation> = Vec::new();
    let mut k: usize = 0;
    while k < routes.len()
        invariant
            k <= routes@.len(),
            rs == views_of(routes@),
            views_of(inferences@) == inferences_of(rs.take(k as int)),
            views_of(recommendations@) == rs.take(k as int).map_values(
                |r: RouteView| recommendation_for(r, revision, live_revision, contract_fingerprint@),
            ),
        decreases routes@.len() - k,
    {
        let route = &routes[k];
        proof {
            assert(rs.take(k + 1).drop_last() =~= rs.take(k as int));
            assert(rs[k as int] == route@);
        }
        match &route.inference {
            Some(inf) => {
                let c = copy_inference(inf);
                let ghost before = inferences@;
                inferences.push(c);
                proof {
                    lemma_map_push(before, c, |x: Inference| x@);
                }
            },
            None => {},
        }
        let rec = recommend(route, revision, live_revision, contract_fingerprint);
        let ghost before = recommendations@;
        recommendations.push(rec);
        proof {
            lemma_map_push(before, rec, |x: AuthorityRecommendation| x@);
            lemma_map_take_step(rs, k as int, |r: RouteView| recommendation_for(r, revision, live_revision, contract_fingerprint@));
        }
        k = k + 1;
    }
    assert(rs.take(k as int) =~= rs);
    AuthorityProposal {
        application: match &application.name {
            Some(n) => n.clone(),
            None => owned("application"),
        },
        contract_fingerprint: owned(contract_fingerprint),
        discovery_revision: revision,
        live_revision,
        routes,
        inferences,
        recommendations,
        warnings: Vec::new(),
    }
}

} // verus!

//! Human and machine renderings of proposals and reconciliations. Rendering
//! only formats what was computed; JSON strings escape backslashes and quotes.
use vstd::prelude::*;
use crate::text::{owned, cat, chars_of, push_char, views, join_with, u64_decimal, decimal, to_upper, upper_seq};
use crate::sorting::views_of;
use super::model::{
    AuthorityDrift, AuthorityDriftItem, AuthorityProposal, AuthorityRecommendation, ChangedRoute,
    Confidence, Inference, OrphanedAuthority, RecommendationAction, ProposalHistoryItem, ReconciliationResult, RouteDescription,
    authority_drift_name, confidence_name, inference_kind_name, proposal_origin_name,
    proposal_review_status_name, protection_state_name, recommendation_action_name,
    route_source_name,
};
use super::paths::InferenceView;
use super::propose::{RouteView, RecommendationView, opt_str};
use super::reconcile::{ChangeView, HistoryView, DriftView, change_view};

verus! {

pub open spec fn esc_char(c: char) -> Seq<char> {
    if c == '\\' {
        seq!['\\', '\\']
    } else if c == '"' {
        seq!['\\', '"']
    } else {
        seq![c]
    }
}

/// `s` with each backslash and each double quote preceded by a backslash.
pub open spec fn esc(s: Seq<char>) -> Seq<char>
    decreases s.len(),
{
    if s.len() == 0 {
        Seq::empty()
    } else {
        esc(s.drop_last()) + esc_char(s.last())
    }
}

pub fn escape(value: &str) -> (r: String)
    ensures
        r@ == esc(value@),
{
    let v = chars_of(value);
    let mut out = String::new();
    let mut i: usize = 0;
    while i < v.len()
        invariant
            i <= v@.len(),
            v@ == value@,
            out@ == esc(v@.take(i as int)),
        decreases v@.len() - i,
    {
        let c = v[i];
        if c == '\\' {
            push_char(&mut out, '\\');
            push_char(&mut out, '\\');
        } else if c == '"' {
            push_char(&mut out, '\\');
            push_char(&mut out, '"');
        } else {
            push_char(&mut out, c);
        }
        proof {
            let t = v@.take(i + 1);
            assert(t.drop_last() =~= v@.take(i as int));
            assert(out@ =~= esc(t));
        }
        i = i + 1;
    }
    assert(v@.take(i as int) =~= v@);
    out
}

/// A JSON string holding `s`.
pub open spec fn quoted(s: Seq<char>) -> Seq<char> {
    "\""@ + esc(s) + "\""@
}

pub open spec fn opt_json(o: Option<Seq<char>>) -> Seq<char> {
    match o {
        Some(s) => quoted(s),
        None => "null"@,
    }
}

pub(crate) fn append_escaped(out: &mut String, s: &str)
    ensures
        final(out)@ == old(out)@ + esc(s@),
{
    let e = escape(s);
    out.append(e.as_str());
}

pub(crate) fn append_quoted(out: &mut String, s: &str)
    ensures
        final(out)@ == old(out)@ + quoted(s@),
{
    let ghost start = out@;
    out.append("\"");
    append_escaped(out, s);
    out.append("\"");
    assert(out@ =~= start + quoted(s@));
}

fn append_opt_json(out: &mut String, o: &Option<String>)
    ensures
        final(out)@ == old(out)@ + opt_json(opt_str(*o)),
{
    match o {
        Some(s) => append_quoted(out, s.as_str()),
        None => out.append("null"),
    }
}

fn append_u64(out: &mut String, n: u64)
    ensures
        final(out)@ == old(out)@ + decimal(n as nat),
{
    let d = u64_decimal(n);
    out.append(d.as_str());
}

/// Strings as a comma separated list of JSON strings.
pub open spec fn quoted_list(items: Seq<Seq<char>>) -> Seq<char> {
    join_with(items.map_values(|s: Seq<char>| quoted(s)), ", "@)
}

pub(crate) fn append_quoted_list(out: &mut String, items: &Vec<String>)
    ensures
        final(out)@ == old(out)@ + quoted_list(views(items@)),
{
    let ghost start = out@;
    let ghost q = views(items@).map_values(|s: Seq<char>| quoted(s));
    let mut i: usize = 0;
    while i < items.len()
        invariant
            i <= items@.len(),
            q == views(items@).map_values(|s: Seq<char>| quoted(s)),
            out@ == start + join_with(q.take(i as int), ", "@),
        decreases items@.len() - i,
    {
        if i > 0 {
            out.append(", ");
        }
        append_quoted(out, items[i].as_str());
        proof {
            let t = q.take(i + 1);
            assert(t.drop_last() =~= q.take(i as int));
            assert(t.last() == quoted(items@[i as int]@));
            if i == 0 {
                assert(out@ =~= start + join_with(t, ", "@));
            } else {
                assert(out@ =~= start + join_with(t, ", "@));
            }
        }
        i = i + 1;
    }
    assert(q.take(i as int) =~= q);
}

/// Values with a JSON rendering.
pub trait JsonText: View + Sized {
    spec fn json_spec(v: Self::V) -> Seq<char>;

    fn append_json(&self, out: &mut String)
        ensures
            final(out)@ == old(out)@ + Self::json_spec(self@);
}

/// The JSON renderings of `items`, comma separated.
pub open spec fn json_list<T: JsonText>(items: Seq<T::V>) -> Seq<char> {
    join_with(items.map_values(|v: T::V| T::json_spec(v)), ", "@)
}

fn append_json_list<T: JsonText>(out: &mut String, items: &Vec<T>)
    ensures
        final(out)@ == old(out)@ + json_list::<T>(views_of(items@)),
{
    let ghost start = out@;
    let ghost q = views_of(items@).map_values(|v: T::V| T::json_spec(v));
    let mut i: usize = 0;
    while i < items.len()
        invariant
            i <= items@.len(),
            q == views_of(items@).map_values(|v: T::V| T::json_spec(v)),
            out@ == start + join_with(q.take(i as int), ", "@),
        decreases items@.len() - i,
    {
        if i > 0 {
            out.append(", ");
        }
        items[i].append_json(out);
        proof {
            let t = q.take(i + 1);
            assert(t.drop_last() =~= q.take(i as int));
            assert(t.last() == T::json_spec(items@[i as int]@));
            assert(out@ =~= start + join_with(t, ", "@));
        }
        i = i + 1;
    }
    assert(q.take(i as int) =~= q);
}

pub open spec fn resource_json_text(r: (Seq<char>, Seq<char>, Seq<char>)) -> Seq<char> {
    "{\"type\": "@ + quoted(r.0) + ", \"id\": "@ + quoted(r.1) + ", \"action\": "@ + quoted(r.2) + "}"@
}

pub open spec fn inference_json_text(i: InferenceView) -> Seq<char> {
    "{\"kind\": \""@ + inference_kind_name(i.kind) + "\", \"capability\": "@ + quoted(i.capability)
        + ", \"resource\": "@ + match i.resource {
        Some(r) => resource_json_text(r),
        None => "null"@,
    } + ", \"confidence\": \""@ + confidence_name(i.confidence) + "\", \"reasons\": ["@
        + quoted_list(i.reasons) + "]}"@
}

impl JsonText for Inference {
    open spec fn json_spec(v: InferenceView) -> Seq<char> {
        inference_json_text(v)
    }

    #[verifier::rlimit(40)]
    fn append_json(&self, out: &mut String) {
        let ghost start = out@;
        out.append("{\"kind\": \"");
        out.append(self.kind.as_str());
        out.append("\", \"capability\": ");
        append_quoted(out, self.capability.as_str());
        out.append(", \"resource\": ");
        match &self.resource {
            Some(r) => {
                let ghost before = out@;
                out.append("{\"type\": ");
                append_quoted(out, r.resource_type.as_str());
                out.append(", \"id\": ");
                append_quoted(out, r.resource_id.as_str());
                out.append(", \"action\": ");
                append_quoted(out, r.action.as_str());
                out.append("}");
                assert(out@ =~= before + resource_json_text((r.resource_type@, r.resource_id@, r.action@)));
            },
            None => out.append("null"),
        }
        out.append(", \"confidence\": \"");
        out.append(self.confidence.as_str());
        out.append("\", \"reasons\": [");
        append_quoted_list(out, &self.reasons);
        out.append("]}");
        assert(out@ =~= start + inference_json_text(self@));
    }
}

pub open spec fn route_json_text(r: RouteView) -> Seq<char> {
    "{\"id\": "@ + quoted(r.id) + ", \"method\": "@ + quoted(r.method) + ", \"path\": "@ + quoted(r.path)
        + ", \"source\": \""@ + route_source_name(r.source) + "\", \"capability\": "@ + opt_json(r.capability)
        + ", \"inference\": "@ + match r.inference {
        Some(i) => inference_json_text(i),
        None => "null"@,
    } + ", \"protection\": \""@ + protection_state_name(r.protection) + "\", \"protection_reason\": "@
        + quoted(r.protection_reason) + "}"@
}

impl JsonText for RouteDescription {
    open spec fn json_spec(v: RouteView) -> Seq<char> {
        route_json_text(v)
    }

    #[verifier::rlimit(40)]
    fn append_json(&self, out: &mut String) {
        let ghost start = out@;
        out.append("{\"id\": ");
        append_quoted(out, self.id.as_str());
        out.append(", \"method\": ");
        append_quoted(out, self.method.as_str());
        out.append(", \"path\": ");
        append_quoted(out, self.path.as_str());
        out.append(", \"source\": \"");
        out.append(self.source.as_str());
        out.append("\", \"capability\": ");
        append_opt_json(out, &self.capability);
        out.append(", \"inference\": ");
        match &self.inference {
            Some(i) => i.append_json(out),
            None => out.append("null"),
        }
        out.append(", \"protection\": \"");
        out.append(self.protection.as_str());
        out.append("\", \"protection_reason\": ");
        append_quoted(out, self.protection_reason.as_str());
        out.append("}");
        assert(out@ =~= start + route_json_text(self@));
    }
}

pub open spec fn recommendation_json_head(r: RecommendationView) -> Seq<char> {
    "{\"id\": "@ + opt_json(r.id) + ", \"method\": "@ + quoted(r.method) + ", \"path\": "@ + quoted(r.path)
        + ", \"action\": \""@ + recommendation_action_name(r.action) + "\", \"capability\": "@
        + opt_json(r.capability)
}

pub open spec fn recommendation_json_middle(r: RecommendationView) -> Seq<char> {
    ", \"status\": \""@ + proposal_review_status_name(r.status)
        + "\", \"current_authority_state\": "@ + quoted(r.current_authority_state)
        + ", \"proposed_authority_state\": "@ + quoted(r.proposed_authority_state) + ", \"source\": \""@
        + proposal_origin_name(r.source) + "\", \"discovery_revision\": "@ + decimal(r.discovery_revision as nat)
}

pub open spec fn recommendation_json_tail(r: RecommendationView) -> Seq<char> {
    ", \"authority_revision\": "@ + decimal(r.authority_revision as nat) + ", \"contract_fingerprint\": "@
        + quoted(r.contract_fingerprint) + ", \"confidence\": \""@ + confidence_name(r.confidence)
        + "\", \"reasons\": ["@ + quoted_list(r.reasons) + "], \"reason\": "@ + quoted(r.reason) + "}"@
}

pub open spec fn recommendation_json_text(r: RecommendationView) -> Seq<char> {
    recommendation_json_head(r) + recommendation_json_middle(r) + recommendation_json_tail(r)
}

fn append_recommendation_head(r: &AuthorityRecommendation, out: &mut String)
    ensures
        final(out)@ == old(out)@ + recommendation_json_head(r@),
{
    let ghost start = out@;
    out.append("{\"id\": ");
    append_opt_json(out, &r.id);
    out.append(", \"method\": ");
    append_quoted(out, r.method.as_str());
    out.append(", \"path\": ");
    append_quoted(out, r.path.as_str());
    out.append(", \"action\": \"");
    out.append(r.action.as_str());
    out.append("\", \"capability\": ");
    append_opt_json(out, &r.capability);
    assert(out@ =~= start + recommendation_json_head(r@));
}

fn append_recommendation_middle(r: &AuthorityRecommendation, out: &mut String)
    ensures
        final(out)@ == old(out)@ + recommendation_json_middle(r@),
{
    let ghost start = out@;
    out.append(", \"status\": \"");
    out.append(r.status.as_str());
    out.append("\", \"current_authority_state\": ");
    append_quoted(out, r.current_authority_state.as_str());
    out.append(", \"proposed_authority_state\": ");
    append_quoted(out, r.proposed_authority_state.as_str());
    out.append(", \"source\": \"");
    out.append(r.source.as_str());
    out.append("\", \"discovery_revision\": ");
    append_u64(out, r.discovery_revision);
    assert(out@ =~= start + recommendation_json_middle(r@));
}

fn append_recommendation_tail(r: &AuthorityRecommendation, out: &mut String)
    ensures
        final(out)@ == old(out)@ + recommendation_json_tail(r@),
{
    let ghost start = out@;
    out.append(", \"authority_revision\": ");
    append_u64(out, r.authority_revision);
    out.append(", \"contract_fingerprint\": ");
    append_quoted(out, r.contract_fingerprint.as_str());
    out.append(", \"confidence\": \"");
    out.append(r.confidence.as_str());
    out.append("\", \"reasons\": [");
    append_quoted_list(out, &r.reasons);
    out.append("], \"reason\": ");
    append_quoted(out, r.reason.as_str());
    out.append("}");
    assert(out@ =~= start + recommendation_json_tail(r@));
}

impl JsonText for AuthorityRecommendation {
    open spec fn json_spec(v: RecommendationView) -> Seq<char> {
        recommendation_json_text(v)
    }

    fn append_json(&self, out: &mut String) {
        let ghost start = out@;
        append_recommendation_head(self, out);
        append_recommendation_middle(self, out);
        append_recommendation_tail(self, out);
        assert(out@ =~= start + recommendation_json_text(self@));
    }
}

pub open spec fn changed_json_text(c: ChangeView) -> Seq<char> {
    "{\"previous\": "@ + route_json_text(c.0) + ", \"current\": "@ + route_json_text(c.1) + ", \"reason\": "@
        + quoted(c.2) + "}"@
}

impl JsonText for ChangedRoute {
    open spec fn json_spec(v: ChangeView) -> Seq<char> {
        changed_json_text(v)
    }

    fn append_json(&self, out: &mut String) {
        let ghost start = out@;
        out.append("{\"previous\": ");
        self.previous.append_json(out);
        out.append(", \"current\": ");
        self.current.append_json(out);
        out.append(", \"reason\": ");
        append_quoted(out, self.reason.as_str());
        out.append("}");
        assert(out@ =~= start + changed_json_text(self@));
    }
}

pub open spec fn orphan_json_text(o: (Seq<char>, Seq<char>, Seq<char>, Seq<char>)) -> Seq<char> {
    "{\"method\": "@ + quoted(o.0) + ", \"path\": "@ + quoted(o.1) + ", \"capability\": "@ + quoted(o.2)
        + ", \"reason\": "@ + quoted(o.3) + "}"@
}

impl JsonText for OrphanedAuthority {
    open spec fn json_spec(v: (Seq<char>, Seq<char>, Seq<char>, Seq<char>)) -> Seq<char> {
        orphan_json_text(v)
    }

    fn append_json(&self, out: &mut String) {
        let ghost start = out@;
        out.append("{\"method\": ");
        append_quoted(out, self.method.as_str());
        out.append(", \"path\": ");
        append_quoted(out, self.path.as_str());
        out.append(", \"capability\": ");
        append_quoted(out, self.capability.as_str());
        out.append(", \"reason\": ");
        append_quoted(out, self.reason.as_str());
        out.append("}");
        assert(out@ =~= start + orphan_json_text(self@));
    }
}

pub open spec fn history_json_text(h: HistoryView) -> Seq<char> {
    "{\"id\": "@ + quoted(h.id) + ", \"method\": "@ + quoted(h.method) + ", \"path\": "@ + quoted(h.path)
        + ", \"capability\": "@ + quoted(h.capability) + ", \"status\": "@ + quoted(h.status)
        + ", \"discovery_revision\": "@ + decimal(h.discovery_revision as nat) + ", \"authority_revision\": "@
        + decimal(h.authority_revision as nat) + "}"@
}

impl JsonText for ProposalHistoryItem {
    open spec fn json_spec(v: HistoryView) -> Seq<char> {
        history_json_text(v)
    }

    #[verifier::rlimit(40)]
    fn append_json(&self, out: &mut String) {
        let ghost start = out@;
        out.append("{\"id\": ");
        append_quoted(out, self.id.as_str());
        out.append(", \"method\": ");
        append_quoted(out, self.method.as_str());
        out.append(", \"path\": ");
        append_quoted(out, self.path.as_str());
        out.append(", \"capability\": ");
        append_quoted(out, self.capability.as_str());
        out.append(", \"status\": ");
        append_quoted(out, self.status.as_str());
        out.append(", \"discovery_revision\": ");
        append_u64(out, self.discovery_revision);
        out.append(", \"authority_revision\": ");
        append_u64(out, self.authority_revision);
        out.append("}");
        assert(out@ =~= start + history_json_text(self@));
    }
}

pub open spec fn drift_json_text(d: DriftView) -> Seq<char> {
    "{\"type\": \""@ + authority_drift_name(d.kind) + "\", \"route\": "@ + quoted(d.route)
        + ", \"previous_state\": "@ + quoted(d.previous_state) + ", \"current_state\": "@
        + quoted(d.current_state) + ", \"authority_state\": "@ + quoted(d.authority_state)
        + ", \"recommended_action\": "@ + quoted(d.recommended_action) + ", \"discovery_revision\": "@
        + decimal(d.discovery_revision as nat) + ", \"authority_revision\": "@
        + decimal(d.authority_revision as nat) + "}"@
}

impl JsonText for AuthorityDriftItem {
    open spec fn json_spec(v: DriftView) -> Seq<char> {
        drift_json_text(v)
    }

    #[verifier::rlimit(40)]
    fn append_json(&self, out: &mut String) {
        let ghost start = out@;
        out.append("{\"type\": \"");
        out.append(self.kind.as_str());
        out.append("\", \"route\": ");
        append_quoted(out, self.route.as_str());
        out.append(", \"previous_state\": ");
        append_quoted(out, self.previous_state.as_str());
        out.append(", \"current_state\": ");
        append_quoted(out, self.current_state.as_str());
        out.append(", \"authority_state\": ");
        append_quoted(out, self.authority_state.as_str());
        out.append(", \"recommended_action\": ");
        append_quoted(out, self.recommended_action.as_str());
        out.append(", \"discovery_revision\": ");
        append_u64(out, self.discovery_revision);
        out.append(", \"authority_revision\": ");
        append_u64(out, self.authority_revision);
        out.append("}");
        assert(out@ =~= start + drift_json_text(self@));
    }
}

/// The JSON rendering of a proposal.
pub open spec fn proposal_json_text(p: AuthorityProposal) -> Seq<char> {
    "{\n  \"application\": "@ + quoted(p.application@) + ",\n  \"contract_fingerprint\": "@
        + quoted(p.contract_fingerprint@) + ",\n  \"discovery_revision\": "@ + decimal(p.discovery_revision as nat)
        + ",\n  \"live_revision\": "@ + decimal(p.live_revision as nat) + ",\n  \"routes\": ["@
        + json_list::<RouteDescription>(views_of(p.routes@)) + "],\n  \"inferences\": ["@
        + json_list::<Inference>(views_of(p.inferences@)) + "],\n  \"recommendations\": ["@
        + json_list::<AuthorityRecommendation>(views_of(p.recommendations@)) + "],\n  \"warnings\": ["@
        + quoted_list(views(p.warnings@)) + "]\n}\n"@
}

#[verifier::rlimit(40)]
pub fn render_proposal_json(proposal: &AuthorityProposal) -> (r: String)
    ensures
        r@ == proposal_json_text(*proposal),
{
    let mut out = owned("{\n  \"application\": ");
    append_quoted(&mut out, proposal.application.as_str());
    out.append(",\n  \"contract_fingerprint\": ");
    append_quoted(&mut out, proposal.contract_fingerprint.as_str());
    out.append(",\n  \"discovery_revision\": ");
    append_u64(&mut out, proposal.discovery_revision);
    out.append(",\n  \"live_revision\": ");
    append_u64(&mut out, proposal.live_revision);
    out.append(",\n  \"routes\": [");
    append_json_list(&mut out, &proposal.routes);
    out.append("],\n  \"inferences\": [");
    append_json_list(&mut out, &proposal.inferences);
    out.append("],\n  \"recommendations\": [");
    append_json_list(&mut out, &proposal.recommendations);
    out.append("],\n  \"warnings\": [");
    append_quoted_list(&mut out, &proposal.warnings);
    out.append("]\n}\n");
    assert(out@ =~= proposal_json_text(*proposal));
    out
}

/// How many drift items are capability conflicts.
pub open spec fn conflict_count(ds: Seq<DriftView>) -> nat
    decreases ds.len(),
{
    if ds.len() == 0 {
        0
    } else {
        conflict_count(ds.drop_last()) + if ds.last().kind == AuthorityDrift::CapabilityConflict {
            1nat
        } else {
            0nat
        }
    }
}

fn count_conflicts(ds: &Vec<AuthorityDriftItem>) -> (n: u64)
    ensures
        n == conflict_count(views_of(ds@)),
{
    let mut n: u64 = 0;
    let mut i: usize = 0;
    while i < ds.len()
        invariant
            i <= ds@.len(),
            n == conflict_count(views_of(ds@).take(i as int)),
            n <= i,
            i <= usize::MAX,
        decreases ds@.len() - i,
    {
        proof {
            let t = views_of(ds@).take(i + 1);
            assert(t.drop_last() =~= views_of(ds@).take(i as int));
            assert(t.last() == ds@[i as int]@);
        }
        if ds[i].kind == AuthorityDrift::CapabilityConflict {
            assert(n < u64::MAX) by {
                assert(i < ds@.len());
            }
            n = n + 1;
        }
        i = i + 1;
    }
    assert(views_of(ds@).take(i as int) =~= views_of(ds@));
    n
}

pub open spec fn reconciliation_json_head(r: ReconciliationResult) -> Seq<char> {
    "{\n  \"application\": "@ + quoted(r.application@) + ",\n  \"contract_fingerprint\": "@
        + quoted(r.contract_fingerprint@) + ",\n  \"discovery_revision\": "@ + decimal(r.discovery_revision as nat)
        + ",\n  \"authority_revision\": "@ + decimal(r.authority_revision as nat)
        + ",\n  \"reconciliation_revision\": "@ + decimal(r.reconciliation_revision as nat)
}

pub open spec fn reconciliation_json_summary(r: ReconciliationResult) -> Seq<char> {
    ",\n  \"summary\": {\"new_routes\": "@ + decimal(r.new_routes@.len()) + ", \"removed_routes\": "@
        + decimal(r.removed_routes@.len()) + ", \"changed_routes\": "@ + decimal(r.changed_routes@.len())
        + ", \"unchanged_routes\": "@ + decimal(r.unchanged_routes@.len()) + ", \"orphaned_authority\": "@
        + decimal(r.orphaned_authority@.len()) + ", \"capability_conflicts\": "@
        + decimal(conflict_count(views_of(r.drift@))) + ", \"stale_proposals\": "@
        + decimal(r.stale_proposals@.len()) + ", \"unsafe_automatic_changes\": 0}"@
}

pub open spec fn reconciliation_json_routes(r: ReconciliationResult) -> Seq<char> {
    ",\n  \"new_routes\": ["@ + json_list::<RouteDescription>(views_of(r.new_routes@))
        + "],\n  \"removed_routes\": ["@ + json_list::<RouteDescription>(views_of(r.removed_routes@))
        + "],\n  \"changed_routes\": ["@ + json_list::<ChangedRoute>(views_of(r.changed_routes@))
        + "],\n  \"unchanged_routes\": ["@ + json_list::<RouteDescription>(views_of(r.unchanged_routes@))
        + "],\n  \"equivalent_routes\": ["@ + json_list::<ChangedRoute>(views_of(r.equivalent_routes@))
}

pub open spec fn reconciliation_json_tail(r: ReconciliationResult) -> Seq<char> {
    "],\n  \"orphaned_authority\": ["@ + json_list::<OrphanedAuthority>(views_of(r.orphaned_authority@))
        + "],\n  \"new_authority_proposals\": ["@
        + json_list::<AuthorityRecommendation>(views_of(r.new_authority_proposals@))
        + "],\n  \"stale_proposals\": ["@ + json_list::<ProposalHistoryItem>(views_of(r.stale_proposals@))
        + "],\n  \"warnings\": ["@ + quoted_list(views(r.warnings@)) + "],\n  \"drift\": ["@
        + json_list::<AuthorityDriftItem>(views_of(r.drift@)) + "]\n}\n"@
}

/// The JSON rendering of a reconciliation.
pub open spec fn reconciliation_json_text(r: ReconciliationResult) -> Seq<char> {
    reconciliation_json_head(r) + reconciliation_json_summary(r) + reconciliation_json_routes(r)
        + reconciliation_json_tail(r)
}

fn append_len(out: &mut String, n: usize)
    ensures
        final(out)@ == old(out)@ + decimal(n as nat),
{
    append_u64(out, n as u64);
}

fn append_reconciliation_head(r: &ReconciliationResult, out: &mut String)
    ensures
        final(out)@ == old(out)@ + reconciliation_json_head(*r),
{
    let ghost start = out@;
    out.append("{\n  \"application\": ");
    append_quoted(out, r.application.as_str());
    out.append(",\n  \"contract_fingerprint\": ");
    append_quoted(out, r.contract_fingerprint.as_str());
    out.append(",\n  \"discovery_revision\": ");
    append_u64(out, r.discovery_revision);
    out.append(",\n  \"authority_revision\": ");
    append_u64(out, r.authority_revision);
    out.append(",\n  \"reconciliation_revision\": ");
    append_u64(out, r.reconciliation_revision);
    assert(out@ =~= start + reconciliation_json_head(*r));
}

#[verifier::rlimit(40)]
fn append_reconciliation_summary(r: &ReconciliationResult, out: &mut String)
    ensures
        final(out)@ == old(out)@ + reconciliation_json_summary(*r),
{
    let ghost start = out@;
    out.append(",\n  \"summary\": {\"new_routes\": ");
    append_len(out, r.new_routes.len());
    out.append(", \"removed_routes\": ");
    append_len(out, r.removed_routes.len());
    out.append(", \"changed_routes\": ");
    append_len(out, r.changed_routes.len());
    out.append(", \"unchanged_routes\": ");
    append_len(out, r.unchanged_routes.len());
    out.append(", \"orphaned_authority\": ");
    append_len(out, r.orphaned_authority.len());
    out.append(", \"capability_conflicts\": ");
    let c = count_conflicts(&r.drift);
    append_u64(out, c);
    out.append(", \"stale_proposals\": ");
    append_len(out, r.stale_proposals.len());
    out.append(", \"unsafe_automatic_changes\": 0}");
    assert(out@ =~= start + reconciliation_json_summary(*r));
}

fn append_labeled_list<T: JsonText>(out: &mut String, label: &str, items: &Vec<T>)
    ensures
        final(out)@ == old(out)@ + label@ + json_list::<T>(views_of(items@)),
{
    let ghost start = out@;
    out.append(label);
    append_json_list(out, items);
    assert(out@ =~= start + label@ + json_list::<T>(views_of(items@)));
}

#[verifier::spinoff_prover]
#[verifier::rlimit(40)]
fn append_reconciliation_routes(r: &ReconciliationResult, out: &mut String)
    ensures
        final(out)@ == old(out)@ + reconciliation_json_routes(*r),
{
    append_labeled_list(out, ",\n  \"new_routes\": [", &r.new_routes);
    append_labeled_list(out, "],\n  \"removed_routes\": [", &r.removed_routes);
    append_labeled_list(out, "],\n  \"changed_routes\": [", &r.changed_routes);
    append_labeled_list(out, "],\n  \"unchanged_routes\": [", &r.unchanged_routes);
    append_labeled_list(out, "],\n  \"equivalent_routes\": [", &r.equivalent_routes);
}

#[verifier::spinoff_prover]
#[verifier::rlimit(40)]
fn append_reconciliation_tail(r: &ReconciliationResult, out: &mut String)
    ensures
        final(out)@ == old(out)@ + reconciliation_json_tail(*r),
{
    append_labeled_list(out, "],\n  \"orphaned_authority\": [", &r.orphaned_authority);
    append_labeled_list(out, "],\n  \"new_authority_proposals\": [", &r.new_authority_proposals);
    append_labeled_list(out, "],\n  \"stale_proposals\": [", &r.stale_proposals);
    out.append("],\n  \"warnings\": [");
    append_quoted_list(out, &r.warnings);
    append_labeled_list(out, "],\n  \"drift\": [", &r.drift);
    out.append("]\n}\n");
}

pub fn render_reconciliation_json(result: &ReconciliationResult) -> (r: String)
    ensures
        r@ == reconciliation_json_text(*result),
{
    let mut out = String::new();
    append_reconciliation_head(result, &mut out);
    append_reconciliation_summary(result, &mut out);
    append_reconciliation_routes(result, &mut out);
    append_reconciliation_tail(result, &mut out);
    assert(out@ =~= reconciliation_json_text(*result));
    out
}

/// The JSON rendering of a reconciliation's drift alone.
pub open spec fn drift_json_document(r: ReconciliationResult) -> Seq<char> {
    "{\n  \"contract_fingerprint\": "@ + quoted(r.contract_fingerprint@) + ",\n  \"discovery_revision\": "@
        + decimal(r.discovery_revision as nat) + ",\n  \"authority_revision\": "@
        + decimal(r.authority_revision as nat) + ",\n  \"reconciliation_revision\": "@
        + decimal(r.reconciliation_revision as nat) + ",\n  \"drift\": ["@
        + json_list::<AuthorityDriftItem>(views_of(r.drift@)) + "]\n}\n"@
}

pub fn render_drift_json(result: &ReconciliationResult) -> (r: String)
    ensures
        r@ == drift_json_document(*result),
{
    let mut out = owned("{\n  \"contract_fingerprint\": ");
    append_quoted(&mut out, result.contract_fingerprint.as_str());
    out.append(",\n  \"discovery_revision\": ");
    append_u64(&mut out, result.discovery_revision);
    out.append(",\n  \"authority_revision\": ");
    append_u64(&mut out, result.authority_revision);
    out.append(",\n  \"reconciliation_revision\": ");
    append_u64(&mut out, result.reconciliation_revision);
    out.append(",\n  \"drift\": [");
    append_json_list(&mut out, &result.drift);
    out.append("]\n}\n");
    assert(out@ =~= drift_json_document(*result));
    out
}

// ---------------------------------------------------------------------------
// Text renderings.
// ---------------------------------------------------------------------------

/// `s` padded with spaces on the right to at least `w` characters.
pub open spec fn pad(s: Seq<char>, w: nat) -> Seq<char> {
    if s.len() >= w {
        s
    } else {
        s + Seq::new((w - s.len()) as nat, |i: int| ' ')
    }
}

fn append_padded(out: &mut String, s: &str, w: usize)
    ensures
        final(out)@ == old(out)@ + pad(s@, w as nat),
{
    let ghost start = out@;
    let v = chars_of(s);
    out.append(s);
    let mut k: usize = v.len();
    while k < w
        invariant
            v@ == s@,
            v@.len() <= k <= w || (k == v@.len() && k >= w),
            k >= v@.len(),
            out@ == start + s@ + Seq::new((k - v@.len()) as nat, |i: int| ' '),
        decreases w - k,
    {
        push_char(out, ' ');
        proof {
            assert(Seq::new((k - v@.len()) as nat, |i: int| ' ').push(' ') =~= Seq::new((k + 1 - v@.len()) as nat, |i: int| ' '));
        }
        k = k + 1;
    }
    proof {
        if s@.len() >= w {
            assert(Seq::new((k - v@.len()) as nat, |i: int| ' ') =~= Seq::<char>::empty());
            assert(out@ =~= start + s@);
        } else {
            assert(k == w);
        }
    }
}

pub open spec fn reason_lines(rs: Seq<Seq<char>>) -> Seq<char>
    decreases rs.len(),
{
    if rs.len() == 0 {
        Seq::empty()
    } else {
        reason_lines(rs.drop_last()) + "    "@ + rs.last() + "\n"@
    }
}

/// The routes of `rs` inferred with confidence `c`.
pub open spec fn with_confidence(rs: Seq<RouteView>, c: Confidence) -> Seq<RouteView>
    decreases rs.len(),
{
    if rs.len() == 0 {
        rs
    } else if rs.last().inference matches Some(i) && i.confidence == c {
        with_confidence(rs.drop_last(), c).push(rs.last())
    } else {
        with_confidence(rs.drop_last(), c)
    }
}

pub open spec fn inferred_route_text(r: RouteView) -> Seq<char> {
    let i = r.inference->0;
    r.method + " "@ + r.path + "\n  → "@ + i.capability + "\n"@ + "  Reasons:\n"@ + reason_lines(i.reasons)
}

pub open spec fn inferred_lines(rs: Seq<RouteView>) -> Seq<char>
    decreases rs.len(),
{
    if rs.len() == 0 {
        Seq::empty()
    } else {
        inferred_lines(rs.drop_last()) + inferred_route_text(rs.last())
    }
}

pub open spec fn confidence_section(rs: Seq<RouteView>, c: Confidence) -> Seq<char> {
    let m = with_confidence(rs, c);
    if m.len() == 0 {
        Seq::empty()
    } else {
        upper_seq(confidence_name(c)) + " CONFIDENCE\n"@ + inferred_lines(m)
    }
}

fn append_reasons(out: &mut String, reasons: &Vec<String>)
    ensures
        final(out)@ == old(out)@ + reason_lines(views(reasons@)),
{
    let ghost start = out@;
    let mut i: usize = 0;
    while i < reasons.len()
        invariant
            i <= reasons@.len(),
            out@ == start + reason_lines(views(reasons@).take(i as int)),
        decreases reasons@.len() - i,
    {
        out.append("    ");
        out.append(reasons[i].as_str());
        out.append("\n");
        proof {
            let t = views(reasons@).take(i + 1);
            assert(t.drop_last() =~= views(reasons@).take(i as int));
            assert(t.last() == reasons@[i as int]@);
            assert(out@ =~= start + reason_lines(t));
        }
        i = i + 1;
    }
    assert(views(reasons@).take(i as int) =~= views(reasons@));
}

fn append_confidence_section(out: &mut String, routes: &Vec<RouteDescription>, c: Confidence)
    ensures
        final(out)@ == old(out)@ + confidence_section(views_of(routes@), c),
{
    let ghost start = out@;
    let ghost rs = views_of(routes@);
    let mut body = String::new();
    let mut count: usize = 0;
    let mut i: usize = 0;
    while i < routes.len()
        invariant
            i <= routes@.len(),
            rs == views_of(routes@),
            body@ == inferred_lines(with_confidence(rs.take(i as int), c)),
            count == with_confidence(rs.take(i as int), c).len(),
            count <= i,
        decreases routes@.len() - i,
    {
        let r = &routes[i];
        proof {
            let t = rs.take(i + 1);
            assert(t.drop_last() =~= rs.take(i as int));
            assert(t.last() == r@);
        }
        match &r.inference {
            Some(inf) => {
                if inf.confidence == c {
                    let ghost b0 = body@;
                    body.append(r.method.as_str());
                    body.append(" ");
                    body.append(r.path.as_str());
                    body.append("\n  → ");
                    body.append(inf.capability.as_str());
                    body.append("\n");
                    body.append("  Reasons:\n");
                    append_reasons(&mut body, &inf.reasons);
                    assert(body@ =~= b0 + inferred_route_text(r@));
                    proof {
                        let t = rs.take(i + 1);
                        let w = with_confidence(t, c);
                        assert(w == with_confidence(rs.take(i as int), c).push(r@));
                        assert(w.drop_last() =~= with_confidence(rs.take(i as int), c));
                        assert(w.last() == r@);
                    }
                    count = count + 1;
                }
            },
            None => {},
        }
        i = i + 1;
    }
    assert(rs.take(i as int) =~= rs);
    if count > 0 {
        let name = to_upper(c.as_str());
        out.append(name.as_str());
        out.append(" CONFIDENCE\n");
        out.append(body.as_str());
        assert(out@ =~= start + confidence_section(rs, c));
    } else {
        assert(out@ =~= start + confidence_section(rs, c));
    }
}

pub open spec fn route_capability_or(r: RouteView, fallback: Seq<char>) -> Seq<char> {
    match r.capability {
        Some(c) => c,
        None => match r.inference {
            Some(i) => i.capability,
            None => fallback,
        },
    }
}

pub open spec fn safe_default_text(r: RouteView) -> Seq<char> {
    pad(r.method, 6) + " "@ + pad(r.path, 24) + " "@ + pad(protection_state_name(r.protection), 11) + " "@
        + route_capability_or(r, "(none)"@) + "\n"@ + "  reason: "@ + r.protection_reason + "\n"@
}

pub open spec fn safe_defaults(rs: Seq<RouteView>) -> Seq<char>
    decreases rs.len(),
{
    if rs.len() == 0 {
        Seq::empty()
    } else {
        safe_defaults(rs.drop_last()) + safe_default_text(rs.last())
    }
}

fn capability_or<'a>(r: &'a RouteDescription, fallback: &'a str) -> (c: &'a str)
    ensures
        c@ == route_capability_or(r@, fallback@),
{
    match &r.capability {
        Some(c) => c.as_str(),
        None => match &r.inference {
            Some(i) => i.capability.as_str(),
            None => fallback,
        },
    }
}

fn append_safe_defaults(out: &mut String, routes: &Vec<RouteDescription>)
    ensures
        final(out)@ == old(out)@ + safe_defaults(views_of(routes@)),
{
    let ghost start = out@;
    let ghost rs = views_of(routes@);
    let mut i: usize = 0;
    while i < routes.len()
        invariant
            i <= routes@.len(),
            rs == views_of(routes@),
            out@ == start + safe_defaults(rs.take(i as int)),
        decreases routes@.len() - i,
    {
        let r = &routes[i];
        let ghost o0 = out@;
        append_padded(out, r.method.as_str(), 6);
        out.append(" ");
        append_padded(out, r.path.as_str(), 24);
        out.append(" ");
        append_padded(out, r.protection.as_str(), 11);
        out.append(" ");
        out.append(capability_or(r, "(none)"));
        out.append("\n");
        out.append("  reason: ");
        out.append(r.protection_reason.as_str());
        out.append("\n");
        proof {
            let t = rs.take(i + 1);
            assert(t.drop_last() =~= rs.take(i as int));
            assert(t.last() == r@);
            assert(out@ =~= o0 + safe_default_text(r@));
            assert(out@ =~= start + safe_defaults(t));
        }
        i = i + 1;
    }
    assert(rs.take(i as int) =~= rs);
}

pub open spec fn recommendation_lines(rs: Seq<RecommendationView>, action: RecommendationAction) -> Seq<char>
    decreases rs.len(),
{
    if rs.len() == 0 {
        Seq::empty()
    } else {
        let r = rs.last();
        recommendation_lines(rs.drop_last(), action) + if r.action == action {
            r.method + " "@ + r.path + if action == RecommendationAction::ProtectRoute {
                " -> "@ + match r.capability {
                    Some(c) => c,
                    None => "(review)"@,
                } + "\n"@
            } else {
                "\n"@
            }
        } else {
            Seq::empty()
        }
    }
}

fn append_recommendation_lines(out: &mut String, recs: &Vec<AuthorityRecommendation>, action: RecommendationAction)
    ensures
        final(out)@ == old(out)@ + recommendation_lines(views_of(recs@), action),
{
    let ghost start = out@;
    let ghost rs = views_of(recs@);
    let mut i: usize = 0;
    while i < recs.len()
        invariant
            i <= recs@.len(),
            rs == views_of(recs@),
            out@ == start + recommendation_lines(rs.take(i as int), action),
        decreases recs@.len() - i,
    {
        let r = &recs[i];
        let ghost o0 = out@;
        proof {
            let t = rs.take(i + 1);
            assert(t.drop_last() =~= rs.take(i as int));
            assert(t.last() == r@);
        }
        if r.action == action {
            out.append(r.method.as_str());
            out.append(" ");
            out.append(r.path.as_str());
            if action == RecommendationAction::ProtectRoute {
                out.append(" -> ");
                match &r.capability {
                    Some(c) => out.append(c.as_str()),
                    None => out.append("(review)"),
                }
            }
            out.append("\n");
        }
        proof {
            let t = rs.take(i + 1);
            assert(out@ =~= start + recommendation_lines(t, action));
        }
        i = i + 1;
    }
    assert(rs.take(i as int) =~= rs);
}

/// The human-readable rendering of a proposal.
pub open spec fn proposal_text(p: AuthorityProposal) -> Seq<char> {
    let rs = views_of(p.routes@);
    let recs = views_of(p.recommendations@);
    "AUTHORITY PROPOSAL\n"@ + "Application: "@ + p.application@ + "\n"@ + "Observed routes: "@
        + decimal(p.routes@.len()) + "\n"@ + "Inferred capabilities: "@ + decimal(p.inferences@.len()) + "\n"@
        + "Authority revision: "@ + decimal(p.live_revision as nat) + "\nContract fingerprint: "@
        + p.contract_fingerprint@ + "\n"@ + confidence_section(rs, Confidence::High)
        + confidence_section(rs, Confidence::Medium) + confidence_section(rs, Confidence::Low)
        + "SAFE DEFAULTS\n"@ + safe_defaults(rs) + "RECOMMENDED PROTECTION\n"@
        + recommendation_lines(recs, RecommendationAction::ProtectRoute) + "NO CHANGE\n"@
        + recommendation_lines(recs, RecommendationAction::NoChange) + "Nothing has been changed.\n"@
}

#[verifier::spinoff_prover]
#[verifier::rlimit(60)]
pub fn render_proposal_text(proposal: &AuthorityProposal) -> (r: String)
    ensures
        r@ == proposal_text(*proposal),
{
    let ghost rs = views_of(proposal.routes@);
    let ghost recs = views_of(proposal.recommendations@);
    let mut out = owned("AUTHORITY PROPOSAL\n");
    out.append("Application: ");
    out.append(proposal.application.as_str());
    out.append("\n");
    out.append("Observed routes: ");
    append_len(&mut out, proposal.routes.len());
    out.append("\n");
    out.append("Inferred capabilities: ");
    append_len(&mut out, proposal.inferences.len());
    out.append("\n");
    out.append("Authority revision: ");
    append_u64(&mut out, proposal.live_revision);
    out.append("\nContract fingerprint: ");
    out.append(proposal.contract_fingerprint.as_str());
    out.append("\n");
    let ghost head = out@;
    append_confidence_section(&mut out, &proposal.routes, Confidence::High);
    append_confidence_section(&mut out, &proposal.routes, Confidence::Medium);
    append_confidence_section(&mut out, &proposal.routes, Confidence::Low);
    let ghost sections = out@;
    out.append("SAFE DEFAULTS\n");
    append_safe_defaults(&mut out, &proposal.routes);
    out.append("RECOMMENDED PROTECTION\n");
    append_recommendation_lines(&mut out, &proposal.recommendations, RecommendationAction::ProtectRoute);
    out.append("NO CHANGE\n");
    append_recommendation_lines(&mut out, &proposal.recommendations, RecommendationAction::NoChange);
    out.append("Nothing has been changed.\n");
    assert(sections == head + confidence_section(rs, Confidence::High) + confidence_section(rs, Confidence::Medium)
        + confidence_section(rs, Confidence::Low));
    assert(out@ =~= proposal_text(*proposal));
    out
}

pub open spec fn new_route_text(r: RouteView) -> Seq<char> {
    let capability = match r.inference {
        Some(i) => i.capability,
        None => match r.capability {
            Some(c) => c,
            None => "(review)"@,
        },
    };
    let confidence = match r.inference {
        Some(i) => confidence_name(i.confidence),
        None => "unknown"@,
    };
    "  "@ + r.method + " "@ + r.path + "\n  → "@ + capability + "\n  → "@ + upper_seq(confidence)
        + " confidence\n  → review required\n"@
}

pub open spec fn new_route_lines(rs: Seq<RouteView>) -> Seq<char>
    decreases rs.len(),
{
    if rs.len() == 0 {
        Seq::empty()
    } else {
        new_route_lines(rs.drop_last()) + new_route_text(rs.last())
    }
}

pub open spec fn orphan_text(o: (Seq<char>, Seq<char>, Seq<char>, Seq<char>)) -> Seq<char> {
    "  "@ + o.0 + " "@ + o.1 + "\n  → "@ + o.2 + "\n  → orphaned authority\n"@
}

pub open spec fn orphan_lines(os: Seq<(Seq<char>, Seq<char>, Seq<char>, Seq<char>)>) -> Seq<char>
    decreases os.len(),
{
    if os.len() == 0 {
        Seq::empty()
    } else {
        orphan_lines(os.drop_last()) + orphan_text(os.last())
    }
}

pub open spec fn changed_text(c: ChangeView) -> Seq<char> {
    "  "@ + c.1.method + " "@ + c.1.path + " (was "@ + c.0.method + " "@ + c.0.path + ")\n  → "@
        + route_capability_or(c.1, "(review)"@) + "\n  → existing authority preserved\n"@
}

pub open spec fn changed_lines(cs: Seq<ChangeView>) -> Seq<char>
    decreases cs.len(),
{
    if cs.len() == 0 {
        Seq::empty()
    } else {
        changed_lines(cs.drop_last()) + changed_text(cs.last())
    }
}

/// The human-readable rendering of a reconciliation.
pub open spec fn reconciliation_text(r: ReconciliationResult) -> Seq<char> {
    "AuthBoundry Authority Reconciliation\n"@ + "Contract: "@ + r.contract_fingerprint@ + "\nDiscovery: "@
        + decimal(r.discovery_revision as nat) + "\nAuthority: "@ + decimal(r.authority_revision as nat)
        + "\nReconciliation: "@ + decimal(r.reconciliation_revision as nat) + "\n"@
        + (if r.new_routes@.len() > 0 {
        "NEW\n"@ + new_route_lines(views_of(r.new_routes@))
    } else {
        Seq::empty()
    }) + (if r.orphaned_authority@.len() > 0 {
        "REMOVED\n"@ + orphan_lines(views_of(r.orphaned_authority@))
    } else {
        Seq::empty()
    }) + (if r.changed_routes@.len() > 0 {
        "CHANGED\n"@ + changed_lines(views_of(r.changed_routes@))
    } else {
        Seq::empty()
    }) + "UNCHANGED\n  "@ + decimal(r.unchanged_routes@.len()) + " routes\n"@ + "No authority was changed.\n"@
}

fn append_new_routes(out: &mut String, routes: &Vec<RouteDescription>)
    ensures
        final(out)@ == old(out)@ + new_route_lines(views_of(routes@)),
{
    let ghost start = out@;
    let ghost rs = views_of(routes@);
    let mut i: usize = 0;
    while i < routes.len()
        invariant
            i <= routes@.len(),
            rs == views_of(routes@),
            out@ == start + new_route_lines(rs.take(i as int)),
        decreases routes@.len() - i,
    {
        let r = &routes[i];
        let ghost o0 = out@;
        let capability: &str = match &r.inference {
            Some(inf) => inf.capability.as_str(),
            None => match &r.capability {
                Some(c) => c.as_str(),
                None => "(review)",
            },
        };
        let confidence: &str = match &r.inference {
            Some(inf) => inf.confidence.as_str(),
            None => "unknown",
        };
        out.append("  ");
        out.append(r.method.as_str());
        out.append(" ");
        out.append(r.path.as_str());
        out.append("\n  → ");
        out.append(capability);
        out.append("\n  → ");
        let up = to_upper(confidence);
        out.append(up.as_str());
        out.append(" confidence\n  → review required\n");
        proof {
            let t = rs.take(i + 1);
            assert(t.drop_last() =~= rs.take(i as int));
            assert(t.last() == r@);
            assert(out@ =~= o0 + new_route_text(r@));
            assert(out@ =~= start + new_route_lines(t));
        }
        i = i + 1;
    }
    assert(rs.take(i as int) =~= rs);
}

fn append_orphans(out: &mut String, items: &Vec<OrphanedAuthority>)
    ensures
        final(out)@ == old(out)@ + orphan_lines(views_of(items@)),
{
    let ghost start = out@;
    let ghost os = views_of(items@);
    let mut i: usize = 0;
    while i < items.len()
        invariant
            i <= items@.len(),
            os == views_of(items@),
            out@ == start + orphan_lines(os.take(i as int)),
        decreases items@.len() - i,
    {
        let o = &items[i];
        let ghost o0 = out@;
        out.append("  ");
        out.append(o.method.as_str());
        out.append(" ");
        out.append(o.path.as_str());
        out.append("\n  → ");
        out.append(o.capability.as_str());
        out.append("\n  → orphaned authority\n");
        proof {
            let t = os.take(i + 1);
            assert(t.drop_last() =~= os.take(i as int));
            assert(t.last() == o@);
            assert(out@ =~= o0 + orphan_text(o@));
            assert(out@ =~= start + orphan_lines(t));
        }
        i = i + 1;
    }
    assert(os.take(i as int) =~= os);
}

fn append_changed(out: &mut String, items: &Vec<ChangedRoute>)
    ensures
        final(out)@ == old(out)@ + changed_lines(views_of(items@)),
{
    let ghost start = out@;
    let ghost cs = views_of(items@);
    let mut i: usize = 0;
    while i < items.len()
        invariant
            i <= items@.len(),
            cs == views_of(items@),
            out@ == start + changed_lines(cs.take(i as int)),
        decreases items@.len() - i,
    {
        let c = &items[i];
        let ghost o0 = out@;
        out.append("  ");
        out.append(c.current.method.as_str());
        out.append(" ");
        out.append(c.current.path.as_str());
        out.append(" (was ");
        out.append(c.previous.method.as_str());
        out.append(" ");
        out.append(c.previous.path.as_str());
        out.append(")\n  → ");
        out.append(capability_or(&c.current, "(review)"));
        out.append("\n  → existing authority preserved\n");
        proof {
            let t = cs.take(i + 1);
            assert(t.drop_last() =~= cs.take(i as int));
            assert(t.last() == c@);
            assert(out@ =~= o0 + changed_text(c@));
            assert(out@ =~= start + changed_lines(t));
        }
        i = i + 1;
    }
    assert(cs.take(i as int) =~= cs);
}

#[verifier::spinoff_prover]
#[verifier::rlimit(60)]
pub fn render_reconciliation_text(result: &ReconciliationResult) -> (r: String)
    ensures
        r@ == reconciliation_text(*result),
{
    let mut out = owned("AuthBoundry Authority Reconciliation\n");
    out.append("Contract: ");
    out.append(result.contract_fingerprint.as_str());
    out.append("\nDiscovery: ");
    append_u64(&mut out, result.discovery_revision);
    out.append("\nAuthority: ");
    append_u64(&mut out, result.authority_revision);
    out.append("\nReconciliation: ");
    append_u64(&mut out, result.reconciliation_revision);
    out.append("\n");
    let ghost head = out@;
    if result.new_routes.len() > 0 {
        out.append("NEW\n");
        append_new_routes(&mut out, &result.new_routes);
    }
    let ghost s1 = out@;
    if result.orphaned_authority.len() > 0 {
        out.append("REMOVED\n");
        append_orphans(&mut out, &result.orphaned_authority);
    }
    let ghost s2 = out@;
    if result.changed_routes.len() > 0 {
        out.append("CHANGED\n");
        append_changed(&mut out, &result.changed_routes);
    }
    let ghost s3 = out@;
    out.append("UNCHANGED\n  ");
    append_len(&mut out, result.unchanged_routes.len());
    out.append(" routes\n");
    out.append("No authority was changed.\n");
    proof {
        let n = if result.new_routes@.len() > 0 {
            "NEW\n"@ + new_route_lines(views_of(result.new_routes@))
        } else {
            Seq::empty()
        };
        let o = if result.orphaned_authority@.len() > 0 {
            "REMOVED\n"@ + orphan_lines(views_of(result.orphaned_authority@))
        } else {
            Seq::empty()
        };
        let c = if result.changed_routes@.len() > 0 {
            "CHANGED\n"@ + changed_lines(views_of(result.changed_routes@))
        } else {
            Seq::empty()
        };
        assert(s1 =~= head + n);
        assert(s2 =~= s1 + o);
        assert(s3 =~= s2 + c);
    }
    assert(out@ =~= reconciliation_text(*result));
    out
}

/// One drift item as the drift report shows it: its kind in capitals, the
/// route, and the states and action it records.
pub open spec fn drift_entry_text(d: DriftView) -> Seq<char> {
    upper_seq(authority_drift_name(d.kind)) + "\n  "@ + d.route + "\n  previous: "@ + d.previous_state
        + "\n  current: "@ + d.current_state + "\n  authority: "@ + d.authority_state
        + "\n  action: "@ + d.recommended_action + "\n"@
}

pub open spec fn drift_entries_text(items: Seq<DriftView>) -> Seq<char>
    decreases items.len(),
{
    if items.len() == 0 {
        Seq::empty()
    } else {
        drift_entries_text(items.drop_last()) + drift_entry_text(items.last())
    }
}

/// The drift report: each item in order, or that there is none; it always
/// says that nothing was changed when there is something to review.
pub open spec fn drift_text_document(r: ReconciliationResult) -> Seq<char> {
    if r.drift@.len() == 0 {
        "AuthPort Authority Drift\n"@ + "No authority drift detected.\n"@
    } else {
        "AuthPort Authority Drift\n"@ + drift_entries_text(views_of(r.drift@))
            + "No authority was changed.\n"@
    }
}

fn append_drift_entry(out: &mut String, item: &AuthorityDriftItem)
    ensures
        final(out)@ == old(out)@ + drift_entry_text(item@),
{
    let kind = to_upper(item.kind.as_str());
    out.append(kind.as_str());
    out.append("\n  ");
    out.append(item.route.as_str());
    out.append("\n  previous: ");
    out.append(item.previous_state.as_str());
    out.append("\n  current: ");
    out.append(item.current_state.as_str());
    out.append("\n  authority: ");
    out.append(item.authority_state.as_str());
    out.append("\n  action: ");
    out.append(item.recommended_action.as_str());
    out.append("\n");
}

pub fn render_drift_text(result: &ReconciliationResult) -> (r: String)
    ensures
        r@ == drift_text_document(*result),
{
    let mut out = owned("AuthPort Authority Drift\n");
    if result.drift.len() == 0 {
        out.append("No authority drift detected.\n");
        return out;
    }
    let ghost start = out@;
    let mut i: usize = 0;
    while i < result.drift.len()
        invariant
            i <= result.drift@.len(),
            out@ == start + drift_entries_text(views_of(result.drift@).take(i as int)),
        decreases result.drift@.len() - i,
    {
        append_drift_entry(&mut out, &result.drift[i]);
        proof {
            let t = views_of(result.drift@).take(i + 1);
            assert(t.drop_last() =~= views_of(result.drift@).take(i as int));
            assert(t.last() == result.drift@[i as int]@);
        }
        i = i + 1;
    }
    assert(views_of(result.drift@).take(i as int) =~= views_of(result.drift@));
    out.append("No authority was changed.\n");
    out
}

} // verus!

//! Reconciliation: how the discovered routes have drifted from what was
//! discovered and approved before. It only reports: it never changes
//! authority, and it deletes no history.
use vstd::prelude::*;
use crate::text::{
    owned, cat, cat3, views, str_eq, lemma_map_push, lemma_map_take_step, push_utf8, utf8, seq_le,
    str_le, list_text, decimal, u64_decimal,
};
use crate::dsl::model::{fnv1a, stable_hash};
use crate::sorting::{Ordered, insertion_sort, isort_by, le_of, views_of};
use super::model::{
    ApplicationCandidate, AuthorityDrift, AuthorityDriftItem, AuthorityProposal,
    AuthorityRecommendation, ChangedRoute, OrphanedAuthority, ProposalHistoryItem, ProtectionState,
    RecommendationAction, ReconciliationResult, RouteDescription, RouteSource, authority_drift_name,
    protection_state_name,
};
use super::paths::{normalize_path, normalized, segments, path_segments, infer_capability, inferred};
use super::authority_map::{AuthorityMap, key_lt, seq_lt, entries_sorted, entry_view};
use super::propose::{
    RouteView, RecommendationView, propose_authority, proposal_of, proposal_routes, opt_str,
    copy_inference, application_name, discovery_revision_of, recommendation_for,
};

verus! {

/// The key a route is reconciled by: its method and normalized path.
pub open spec fn rkey(r: RouteView) -> (Seq<char>, Seq<char>) {
    (r.method, normalized(r.path))
}

/// `r` put into the key-ordered list `m`: over an entry with its key, else
/// before the first greater key.
pub open spec fn key_insert(m: Seq<RouteView>, r: RouteView) -> Seq<RouteView>
    decreases m.len(),
{
    if m.len() == 0 {
        seq![r]
    } else if rkey(m.last()) == rkey(r) {
        m.drop_last().push(r)
    } else if key_lt(rkey(m.last()), rkey(r)) {
        m.push(r)
    } else {
        key_insert(m.drop_last(), r).push(m.last())
    }
}

/// The routes by key, one per key (the last one listed wins), in key order.
pub open spec fn keyed(s: Seq<RouteView>) -> Seq<RouteView>
    decreases s.len(),
{
    if s.len() == 0 {
        s
    } else {
        key_insert(keyed(s.drop_last()), s.last())
    }
}

/// `m` has a route with key `k`.
pub open spec fn has_key(m: Seq<RouteView>, k: (Seq<char>, Seq<char>)) -> bool {
    exists|i: int| 0 <= i < m.len() && rkey(#[trigger] m[i]) == k
}

/// The first route with key `k` in `m`.
pub open spec fn route_at_key(m: Seq<RouteView>, k: (Seq<char>, Seq<char>)) -> RouteView {
    m[choose|i: int| 0 <= i < m.len() && rkey(#[trigger] m[i]) == k]
}

pub fn copy_route(r: &RouteDescription) -> (c: RouteDescription)
    ensures
        c@ == r@,
{
    RouteDescription {
        id: r.id.clone(),
        method: r.method.clone(),
        path: r.path.clone(),
        source: r.source,
        capability: match &r.capability {
            Some(x) => Some(x.clone()),
            None => None,
        },
        inference: match &r.inference {
            Some(i) => Some(copy_inference(i)),
            None => None,
        },
        protection: r.protection,
        protection_reason: r.protection_reason.clone(),
    }
}

fn route_key_exec(r: &RouteDescription) -> (k: (String, String))
    ensures
        (k.0@, k.1@) == rkey(r@),
{
    (r.method.clone(), normalize_path(r.path.as_str()))
}

fn key_lt_pair(a: &(String, String), b: &(String, String)) -> (r: bool)
    ensures
        r == key_lt((a.0@, a.1@), (b.0@, b.1@)),
{
    if a.0 != b.0 {
        str_le(a.0.as_str(), b.0.as_str())
    } else {
        a.1 != b.1 && str_le(a.1.as_str(), b.1.as_str())
    }
}

proof fn lemma_key_total(a: (Seq<char>, Seq<char>), b: (Seq<char>, Seq<char>))
    ensures
        a == b || key_lt(a, b) || key_lt(b, a),
{
    crate::text::lemma_seq_le_total(a.0, b.0);
    crate::text::lemma_seq_le_total(a.1, b.1);
}

proof fn lemma_key_insert_at(m: Seq<RouteView>, r: RouteView, j: int, replace: bool)
    requires
        0 <= j <= m.len(),
        forall|k: int| j <= k < m.len() ==> rkey(#[trigger] m[k]) != rkey(r) && !key_lt(rkey(m[k]), rkey(r)),
        replace ==> j > 0 && rkey(m[j - 1]) == rkey(r),
        !replace ==> j == 0 || key_lt(rkey(m[j - 1]), rkey(r)),
    ensures
        key_insert(m, r) == (if replace {
            m.update(j - 1, r)
        } else {
            m.insert(j, r)
        }),
    decreases m.len(),
{
    if m.len() == 0 {
        assert(m.insert(j, r) =~= seq![r]);
    } else if j == m.len() {
        if replace {
            assert(m.drop_last().push(r) =~= m.update(j - 1, r));
        } else {
            assert(m.push(r) =~= m.insert(j, r));
            if rkey(m.last()) == rkey(r) {
                crate::text::lemma_seq_le_total(rkey(r).0, rkey(r).0);
                crate::text::lemma_seq_le_total(rkey(r).1, rkey(r).1);
            }
        }
    } else {
        let d = m.drop_last();
        assert forall|k: int| j <= k < d.len() implies rkey(#[trigger] d[k]) != rkey(r) && !key_lt(rkey(d[k]), rkey(r)) by {
            assert(d[k] == m[k]);
        }
        if j > 0 {
            assert(d[j - 1] == m[j - 1]);
        }
        lemma_key_insert_at(d, r, j, replace);
        if replace {
            assert(d.update(j - 1, r).push(m.last()) =~= m.update(j - 1, r));
        } else {
            assert(d.insert(j, r).push(m.last()) =~= m.insert(j, r));
        }
    }
}

fn key_insert_exec(m: &mut Vec<RouteDescription>, r: RouteDescription)
    ensures
        views_of(final(m)@) == key_insert(views_of(old(m)@), r@),
{
    let ghost mv = views_of(m@);
    let rk = route_key_exec(&r);
    let mut j: usize = m.len();
    let mut replace = false;
    let mut done = false;
    while j > 0 && !done
        invariant
            j <= m@.len(),
            mv == views_of(m@),
            (rk.0@, rk.1@) == rkey(r@),
            forall|k: int| j <= k < mv.len() ==> rkey(#[trigger] mv[k]) != rkey(r@) && !key_lt(rkey(mv[k]), rkey(r@)),
            done ==> j > 0,
            done && replace ==> rkey(mv[j - 1]) == rkey(r@),
            done && !replace ==> key_lt(rkey(mv[j - 1]), rkey(r@)),
            !done ==> !replace,
        decreases j + (if done { 0int } else { 1int }),
    {
        let mk = route_key_exec(&m[j - 1]);
        assert(mv[j - 1] == m@[j - 1]@);
        if mk.0 == rk.0 && mk.1 == rk.1 {
            replace = true;
            done = true;
        } else if key_lt_pair(&mk, &rk) {
            done = true;
        } else {
            j = j - 1;
        }
    }
    proof {
        lemma_key_insert_at(mv, r@, j as int, replace);
    }
    let ghost rv = r@;
    if replace {
        m.set(j - 1, r);
        assert(views_of(m@) =~= mv.update(j - 1, rv));
    } else {
        m.insert(j, r);
        assert(views_of(m@) =~= mv.insert(j as int, rv));
    }
}

fn build_keyed(list: &Vec<RouteDescription>) -> (r: Vec<RouteDescription>)
    ensures
        views_of(r@) == keyed(views_of(list@)),
{
    let mut out: Vec<RouteDescription> = Vec::new();
    let mut i: usize = 0;
    assert(views_of(out@) =~= keyed(views_of(list@).take(0)));
    while i < list.len()
        invariant
            i <= list@.len(),
            views_of(out@) == keyed(views_of(list@).take(i as int)),
        decreases list@.len() - i,
    {
        let c = copy_route(&list[i]);
        key_insert_exec(&mut out, c);
        proof {
            let t = views_of(list@).take(i + 1);
            assert(t.drop_last() =~= views_of(list@).take(i as int));
        }
        i = i + 1;
    }
    assert(views_of(list@).take(i as int) =~= views_of(list@));
    out
}

fn find_key(m: &Vec<RouteDescription>, k: &(String, String)) -> (r: Option<usize>)
    ensures
        match r {
            Some(i) => i < m@.len() && rkey(views_of(m@)[i as int]) == (k.0@, k.1@) && forall|j: int| 0 <= j < i ==> rkey(#[trigger] views_of(m@)[j]) != (k.0@, k.1@),
            None => !has_key(views_of(m@), (k.0@, k.1@)),
        },
{
    let mut i: usize = 0;
    while i < m.len()
        invariant
            i <= m@.len(),
            forall|j: int| 0 <= j < i ==> rkey(#[trigger] views_of(m@)[j]) != (k.0@, k.1@),
        decreases m@.len() - i,
    {
        let mk = route_key_exec(&m[i]);
        assert(views_of(m@)[i as int] == m@[i as int]@);
        if mk.0 == k.0 && mk.1 == k.1 {
            return Some(i);
        }
        i = i + 1;
    }
    None
}


// ---------------------------------------------------------------------------
// What reconciliation reports, as plain values.
// ---------------------------------------------------------------------------

pub open spec fn key_index(m: Seq<RouteView>, k: (Seq<char>, Seq<char>)) -> Option<int>
    decreases m.len(),
{
    if m.len() == 0 {
        None
    } else {
        match key_index(m.drop_last(), k) {
            Some(i) => Some(i),
            None => if rkey(m.last()) == k {
                Some(m.len() - 1)
            } else {
                None
            },
        }
    }
}

proof fn lemma_key_index(m: Seq<RouteView>, k: (Seq<char>, Seq<char>), i: int)
    requires
        0 <= i < m.len(),
        rkey(m[i]) == k,
        forall|j: int| 0 <= j < i ==> rkey(#[trigger] m[j]) != k,
    ensures
        key_index(m, k) == Some(i),
    decreases m.len(),
{
    if m.len() - 1 > i {
        assert forall|j: int| 0 <= j < i implies rkey(#[trigger] m.drop_last()[j]) != k by {
            assert(m.drop_last()[j] == m[j]);
        }
        assert(m.drop_last()[i] == m[i]);
        lemma_key_index(m.drop_last(), k, i);
    } else {
        lemma_key_index_none(m.drop_last(), k);
    }
}

proof fn lemma_key_index_none(m: Seq<RouteView>, k: (Seq<char>, Seq<char>))
    requires
        forall|j: int| 0 <= j < m.len() ==> rkey(#[trigger] m[j]) != k,
    ensures
        key_index(m, k) is None,
    decreases m.len(),
{
    if m.len() > 0 {
        assert forall|j: int| 0 <= j < m.len() - 1 implies rkey(#[trigger] m.drop_last()[j]) != k by {
            assert(m.drop_last()[j] == m[j]);
        }
        lemma_key_index_none(m.drop_last(), k);
    }
}

/// The first non-parameter segment of a route's normalized path (empty if
/// none): routes in one family may have moved.
pub open spec fn route_family(r: RouteView) -> Seq<char> {
    first_non_param(segments(normalized(r.path)))
}

pub open spec fn first_non_param(segs: Seq<Seq<char>>) -> Seq<char>
    decreases segs.len(),
{
    if segs.len() == 0 {
        Seq::empty()
    } else if segs[0] != ":param"@ {
        segs[0]
    } else {
        first_non_param(segs.drop_first())
    }
}

/// The raw path of the last earlier route with key `k`.
pub open spec fn last_raw_path(ps: Seq<crate::discovery::model::RouteCandidate>, k: (Seq<char>, Seq<char>)) -> Option<Seq<char>>
    decreases ps.len(),
{
    if ps.len() == 0 {
        None
    } else if (ps.last().method@, normalized(ps.last().path@)) == k {
        Some(ps.last().path@)
    } else {
        last_raw_path(ps.drop_last(), k)
    }
}

/// A key under which a route was rewritten to an equivalent spelling: the
/// last earlier route with the key had another raw path than a current one.
pub open spec fn equivalent_key(previous: Option<ApplicationCandidate>, current: ApplicationCandidate, k: (Seq<char>, Seq<char>)) -> bool {
    match previous {
        None => false,
        Some(prev) => exists|i: int|
            0 <= i < current.routes@.len() && (#[trigger] current.routes@[i].method@, normalized(current.routes@[i].path@)) == k
                && (last_raw_path(prev.routes@, k) matches Some(p) && p != current.routes@[i].path@),
    }
}

/// The routes of `m` whose key `other` has (`want`) or lacks (`!want`).
pub open spec fn filter_by_key(m: Seq<RouteView>, other: Seq<RouteView>, want: bool) -> Seq<RouteView>
    decreases m.len(),
{
    if m.len() == 0 {
        m
    } else if (key_index(other, rkey(m.last())) is Some) == want {
        filter_by_key(m.drop_last(), other, want).push(m.last())
    } else {
        filter_by_key(m.drop_last(), other, want)
    }
}

pub type ChangeView = (RouteView, RouteView, Seq<char>);

pub open spec fn change_view(c: ChangedRoute) -> ChangeView {
    (c.previous@, c.current@, c.reason@)
}

impl View for ChangedRoute {
    type V = ChangeView;

    open spec fn view(&self) -> ChangeView {
        change_view(*self)
    }
}

/// The current routes whose key both sides have and that were respelled.
pub open spec fn equivalents(
    cur: Seq<RouteView>,
    prev: Seq<RouteView>,
    previous: Option<ApplicationCandidate>,
    current: ApplicationCandidate,
) -> Seq<ChangeView>
    decreases cur.len(),
{
    if cur.len() == 0 {
        Seq::empty()
    } else {
        let rest = equivalents(cur.drop_last(), prev, previous, current);
        let c = cur.last();
        match key_index(prev, rkey(c)) {
            Some(i) => if equivalent_key(previous, current, rkey(c)) {
                rest.push((prev[i], c, "route parameter syntax normalized to the same authority route"@))
            } else {
                rest
            },
            None => rest,
        }
    }
}

/// The first new route from `j` on, not yet paired, in family `fam`.
pub open spec fn find_partner(news: Seq<RouteView>, paired: Seq<int>, fam: Seq<char>, j: int) -> Option<int>
    decreases news.len() - j,
{
    if j < 0 || j >= news.len() {
        None
    } else if !paired.contains(j) && route_family(news[j]) == fam {
        Some(j)
    } else {
        find_partner(news, paired, fam, j + 1)
    }
}

/// Removed routes paired, in order, with new routes of their family: the
/// paired removed indices, the paired new indices, and the pairs.
pub open spec fn pair_up(removed: Seq<RouteView>, news: Seq<RouteView>, n: int) -> (Seq<int>, Seq<int>, Seq<(int, int)>)
    decreases n,
{
    if n <= 0 {
        (Seq::empty(), Seq::empty(), Seq::empty())
    } else {
        let prev = pair_up(removed, news, n - 1);
        match find_partner(news, prev.1, route_family(removed[n - 1]), 0) {
            Some(ni) => (prev.0.push(n - 1), prev.1.push(ni), prev.2.push((n - 1, ni))),
            None => prev,
        }
    }
}

pub open spec fn change_reason(previous: RouteView, current: RouteView) -> Seq<char> {
    if previous.method != current.method {
        "HTTP method changed"@
    } else {
        "route shape changed"@
    }
}

/// The elements of `s` whose index `paired` does not hold.
pub open spec fn unpaired(s: Seq<RouteView>, paired: Seq<int>, n: int) -> Seq<RouteView>
    decreases n,
{
    if n <= 0 {
        Seq::empty()
    } else if paired.contains(n - 1) {
        unpaired(s, paired, n - 1)
    } else {
        unpaired(s, paired, n - 1).push(s[n - 1])
    }
}

impl View for OrphanedAuthority {
    type V = (Seq<char>, Seq<char>, Seq<char>, Seq<char>);

    open spec fn view(&self) -> (Seq<char>, Seq<char>, Seq<char>, Seq<char>) {
        (self.method@, self.path@, self.capability@, self.reason@)
    }
}

impl Ordered for OrphanedAuthority {
    /// By path, then method.
    open spec fn spec_le(a: (Seq<char>, Seq<char>, Seq<char>, Seq<char>), b: (Seq<char>, Seq<char>, Seq<char>, Seq<char>)) -> bool {
        if a.1 != b.1 {
            seq_le(a.1, b.1)
        } else {
            seq_le(a.0, b.0)
        }
    }

    fn le(&self, other: &Self) -> (r: bool) {
        if self.path != other.path {
            str_le(self.path.as_str(), other.path.as_str())
        } else {
            str_le(self.method.as_str(), other.method.as_str())
        }
    }
}

impl Ordered for AuthorityRecommendation {
    /// By path, then method.
    open spec fn spec_le(a: RecommendationView, b: RecommendationView) -> bool {
        if a.path != b.path {
            seq_le(a.path, b.path)
        } else {
            seq_le(a.method, b.method)
        }
    }

    fn le(&self, other: &Self) -> (r: bool) {
        if self.path != other.path {
            str_le(self.path.as_str(), other.path.as_str())
        } else {
            str_le(self.method.as_str(), other.method.as_str())
        }
    }
}

pub struct HistoryView {
    pub id: Seq<char>,
    pub method: Seq<char>,
    pub path: Seq<char>,
    pub capability: Seq<char>,
    pub status: Seq<char>,
    pub discovery_revision: u64,
    pub authority_revision: u64,
}

impl View for ProposalHistoryItem {
    type V = HistoryView;

    open spec fn view(&self) -> HistoryView {
        HistoryView {
            id: self.id@,
            method: self.method@,
            path: self.path@,
            capability: self.capability@,
            status: self.status@,
            discovery_revision: self.discovery_revision,
            authority_revision: self.authority_revision,
        }
    }
}

impl Ordered for ProposalHistoryItem {
    /// By id.
    open spec fn spec_le(a: HistoryView, b: HistoryView) -> bool {
        seq_le(a.id, b.id)
    }

    fn le(&self, other: &Self) -> (r: bool) {
        str_le(self.id.as_str(), other.id.as_str())
    }
}

pub struct DriftView {
    pub kind: AuthorityDrift,
    pub route: Seq<char>,
    pub previous_state: Seq<char>,
    pub current_state: Seq<char>,
    pub authority_state: Seq<char>,
    pub recommended_action: Seq<char>,
    pub discovery_revision: u64,
    pub authority_revision: u64,
}

impl View for AuthorityDriftItem {
    type V = DriftView;

    open spec fn view(&self) -> DriftView {
        DriftView {
            kind: self.kind,
            route: self.route@,
            previous_state: self.previous_state@,
            current_state: self.current_state@,
            authority_state: self.authority_state@,
            recommended_action: self.recommended_action@,
            discovery_revision: self.discovery_revision,
            authority_revision: self.authority_revision,
        }
    }
}

impl Ordered for AuthorityDriftItem {
    /// By route, then by the kind's name.
    open spec fn spec_le(a: DriftView, b: DriftView) -> bool {
        if a.route != b.route {
            seq_le(a.route, b.route)
        } else {
            seq_le(authority_drift_name(a.kind), authority_drift_name(b.kind))
        }
    }

    fn le(&self, other: &Self) -> (r: bool) {
        if self.route != other.route {
            str_le(self.route.as_str(), other.route.as_str())
        } else {
            str_le(self.kind.as_str(), other.kind.as_str())
        }
    }
}

/// A route description ordered by path, then method (its source aside).
pub struct PathMethodOrder(pub RouteDescription);

impl View for PathMethodOrder {
    type V = RouteView;

    open spec fn view(&self) -> RouteView {
        self.0@
    }
}

impl Ordered for PathMethodOrder {
    open spec fn spec_le(a: RouteView, b: RouteView) -> bool {
        if a.path != b.path {
            seq_le(a.path, b.path)
        } else {
            seq_le(a.method, b.method)
        }
    }

    fn le(&self, other: &Self) -> (r: bool) {
        if self.0.path != other.0.path {
            str_le(self.0.path.as_str(), other.0.path.as_str())
        } else {
            str_le(self.0.method.as_str(), other.0.method.as_str())
        }
    }
}

/// The live mappings whose route is no longer discovered, in map order.
pub open spec fn orphans(live: Seq<((Seq<char>, Seq<char>), Seq<char>)>, cur: Seq<RouteView>) -> Seq<(Seq<char>, Seq<char>, Seq<char>, Seq<char>)>
    decreases live.len(),
{
    if live.len() == 0 {
        Seq::empty()
    } else {
        let rest = orphans(live.drop_last(), cur);
        let e = live.last();
        let k = (e.0.0, normalized(e.0.1));
        if key_index(cur, k) is None {
            rest.push((e.0.0, normalized(e.0.1), e.1, "route no longer discovered; historical authority retained"@))
        } else {
            rest
        }
    }
}

pub open spec fn protect_recommendations(rs: Seq<RecommendationView>) -> Seq<RecommendationView>
    decreases rs.len(),
{
    if rs.len() == 0 {
        rs
    } else if rs.last().action == RecommendationAction::ProtectRoute {
        protect_recommendations(rs.drop_last()).push(rs.last())
    } else {
        protect_recommendations(rs.drop_last())
    }
}

/// Proposals not applied whose route is no longer discovered.
pub open spec fn stale_history(h: Seq<HistoryView>, cur: Seq<RouteView>) -> Seq<HistoryView>
    decreases h.len(),
{
    if h.len() == 0 {
        h
    } else {
        let x = h.last();
        if x.status != "applied"@ && key_index(cur, (x.method, normalized(x.path))) is None {
            stale_history(h.drop_last(), cur).push(x)
        } else {
            stale_history(h.drop_last(), cur)
        }
    }
}

pub open spec fn route_text(method: Seq<char>, path: Seq<char>) -> Seq<char> {
    method + " "@ + path
}

pub open spec fn drift_of(kind: AuthorityDrift, route: Seq<char>, prev: Seq<char>, cur: Seq<char>, auth: Seq<char>, action: Seq<char>, drev: u64, arev: u64) -> DriftView {
    DriftView {
        kind,
        route,
        previous_state: prev,
        current_state: cur,
        authority_state: auth,
        recommended_action: action,
        discovery_revision: drev,
        authority_revision: arev,
    }
}

/// The conflicts among the current routes: an approved mapping that differs
/// from what would be inferred now; as (warning, drift) pairs.
pub open spec fn conflicts(cur: Seq<RouteView>, live: AuthorityMap, drev: u64, arev: u64) -> Seq<(Seq<char>, DriftView)>
    decreases cur.len(),
{
    if cur.len() == 0 {
        Seq::empty()
    } else {
        let rest = conflicts(cur.drop_last(), live, drev, arev);
        let r = cur.last();
        match inferred(r.method, r.path) {
            Some(inf) => match live.spec_get((r.method, normalized(r.path))) {
                Some(existing) => if existing != inf.capability {
                    rest.push((
                        "authority conflict for "@ + r.method + " "@ + r.path
                            + ": existing explicit authority "@ + existing + " differs from inferred "@
                            + inf.capability,
                        drift_of(
                            AuthorityDrift::CapabilityConflict,
                            route_text(r.method, r.path),
                            existing,
                            inf.capability,
                            "explicit authority preserved"@,
                            "review"@,
                            drev,
                            arev,
                        ),
                    ))
                } else {
                    rest
                },
                None => rest,
            },
            None => rest,
        }
    }
}

/// The drift every kind of change contributes, before sorting.
pub open spec fn drift_items(
    news: Seq<RouteView>,
    removed: Seq<RouteView>,
    changed: Seq<ChangeView>,
    orphaned: Seq<(Seq<char>, Seq<char>, Seq<char>, Seq<char>)>,
    stale: Seq<HistoryView>,
    conf: Seq<(Seq<char>, DriftView)>,
    drev: u64,
    arev: u64,
) -> Seq<DriftView> {
    news.map_values(|r: RouteView| route_drift(AuthorityDrift::NewRoute, r, "absent"@, "discovered"@, drev, arev))
        + removed.map_values(|r: RouteView| route_drift(AuthorityDrift::RemovedRoute, r, "discovered"@, "absent"@, drev, arev))
        + changed.map_values(|c: ChangeView| change_drift(c, drev, arev))
        + orphaned.map_values(|o: (Seq<char>, Seq<char>, Seq<char>, Seq<char>)| orphan_drift(o, drev, arev))
        + stale.map_values(|h: HistoryView| stale_drift(h, drev, arev))
        + conf.map_values(|c: (Seq<char>, DriftView)| c.1)
}

pub open spec fn drift_rev_text(ds: Seq<DriftView>) -> Seq<char>
    decreases ds.len(),
{
    if ds.len() == 0 {
        Seq::empty()
    } else {
        let d = ds.last();
        drift_rev_text(ds.drop_last()) + authority_drift_name(d.kind) + "\n"@ + d.route + "\n"@
            + d.previous_state + "\n"@ + d.current_state + "\n"@ + d.authority_state + "\n"@
            + d.recommended_action + "\n"@
    }
}

/// The reconciliation revision: a stable hash of the contract, both
/// revisions and the drift, equal for equal reconciliations in every process.
pub open spec fn reconciliation_revision_of(fingerprint: Seq<char>, drev: u64, arev: u64, drift: Seq<DriftView>) -> u64 {
    fnv1a(utf8(fingerprint + "\n"@ + decimal(drev as nat) + "\n"@ + decimal(arev as nat) + "\n"@ + drift_rev_text(drift)))
}

// ---------------------------------------------------------------------------
// Building the lists.
// ---------------------------------------------------------------------------

fn sort_path_method(v: Vec<RouteDescription>) -> (r: Vec<RouteDescription>)
    ensures
        views_of(r@) == isort_by(views_of(v@), le_of::<PathMethodOrder>()),
{
    let ghost vv = views_of(v@);
    let mut wrapped: Vec<PathMethodOrder> = Vec::new();
    let mut src = v;
    let mut rev: Vec<RouteDescription> = Vec::new();
    let ghost total = src@;
    while src.len() > 0
        invariant
            views_of(rev@) + views_of(src@).reverse() == views_of(total).reverse(),
        decreases src@.len(),
    {
        let ghost before_src = src@;
        let ghost before_rev = rev@;
        let x = src.pop().unwrap();
        proof {
            assert(before_src == src@.push(x));
            assert(views_of(before_src) =~= views_of(src@).push(x@));
            assert(views_of(src@).push(x@).reverse() =~= seq![x@] + views_of(src@).reverse());
            assert(views_of(before_rev.push(x)) =~= views_of(before_rev).push(x@));
            assert(views_of(before_rev).push(x@) + views_of(src@).reverse() =~= views_of(before_rev) + (seq![x@] + views_of(src@).reverse()));
        }
        rev.push(x);
    }
    assert(views_of(src@).reverse() =~= Seq::<RouteView>::empty());
    assert(views_of(rev@) =~= views_of(total).reverse());
    assert(total.len() == views_of(total).len());
    while rev.len() > 0
        invariant
            views_of(wrapped@) + views_of(rev@).reverse() == views_of(total),
        decreases rev@.len(),
    {
        let ghost before_rev = rev@;
        let ghost before_w = wrapped@;
        let x = rev.pop().unwrap();
        proof {
            assert(before_rev == rev@.push(x));
            assert(views_of(before_rev) =~= views_of(rev@).push(x@));
            assert(views_of(rev@).push(x@).reverse() =~= seq![x@] + views_of(rev@).reverse());
        }
        let w = PathMethodOrder(x);
        wrapped.push(w);
        proof {
            assert(views_of(wrapped@) =~= views_of(before_w).push(x@));
            assert(views_of(before_w).push(x@) + views_of(rev@).reverse() =~= views_of(before_w) + (seq![x@] + views_of(rev@).reverse()));
        }
    }
    assert(views_of(rev@).reverse() =~= Seq::<RouteView>::empty());
    assert(views_of(wrapped@) =~= vv);
    let sorted = insertion_sort(wrapped);
    let mut out: Vec<RouteDescription> = Vec::new();
    let mut srt = sorted;
    let ghost sv = views_of(srt@);
    let mut back: Vec<RouteDescription> = Vec::new();
    while srt.len() > 0
        invariant
            views_of(back@) + views_of(srt@).reverse() == sv.reverse(),
        decreases srt@.len(),
    {
        let ghost before_s = srt@;
        let ghost before_b = back@;
        let x = srt.pop().unwrap();
        proof {
            assert(before_s == srt@.push(x));
            assert(views_of(before_s) =~= views_of(srt@).push(x@));
            assert(views_of(srt@).push(x@).reverse() =~= seq![x@] + views_of(srt@).reverse());
            assert(views_of(before_b.push(x.0)) =~= views_of(before_b).push(x@));
            assert(views_of(before_b).push(x@) + views_of(srt@).reverse() =~= views_of(before_b) + (seq![x@] + views_of(srt@).reverse()));
        }
        back.push(x.0);
    }
    assert(views_of(srt@).reverse() =~= Seq::<RouteView>::empty());
    assert(views_of(back@) =~= sv.reverse());
    while back.len() > 0
        invariant
            views_of(out@) + views_of(back@).reverse() == sv,
        decreases back@.len(),
    {
        let ghost before_b = back@;
        let ghost before_o = out@;
        let x = back.pop().unwrap();
        proof {
            assert(before_b == back@.push(x));
            assert(views_of(before_b) =~= views_of(back@).push(x@));
            assert(views_of(back@).push(x@).reverse() =~= seq![x@] + views_of(back@).reverse());
        }
        out.push(x);
        proof {
            assert(views_of(out@) =~= views_of(before_o).push(x@));
            assert(views_of(before_o).push(x@) + views_of(back@).reverse() =~= views_of(before_o) + (seq![x@] + views_of(back@).reverse()));
        }
    }
    assert(views_of(back@).reverse() =~= Seq::<RouteView>::empty());
    assert(views_of(out@) =~= sv);
    out
}

fn has_key_exec(m: &Vec<RouteDescription>, r: &RouteDescription) -> (found: Option<usize>)
    ensures
        match found {
            Some(i) => key_index(views_of(m@), rkey(r@)) == Some(i as int) && i < m@.len(),
            None => key_index(views_of(m@), rkey(r@)) is None,
        },
{
    let k = route_key_exec(r);
    match find_key(m, &k) {
        Some(i) => {
            proof {
                lemma_key_index(views_of(m@), rkey(r@), i as int);
            }
            Some(i)
        },
        None => {
            proof {
                assert forall|j: int| 0 <= j < views_of(m@).len() implies rkey(#[trigger] views_of(m@)[j]) != rkey(r@) by {}
                lemma_key_index_none(views_of(m@), rkey(r@));
            }
            None
        },
    }
}

fn split_by_key(m: &Vec<RouteDescription>, other: &Vec<RouteDescription>, want: bool) -> (r: Vec<RouteDescription>)
    ensures
        views_of(r@) == filter_by_key(views_of(m@), views_of(other@), want),
{
    let mut out: Vec<RouteDescription> = Vec::new();
    let mut i: usize = 0;
    while i < m.len()
        invariant
            i <= m@.len(),
            views_of(out@) == filter_by_key(views_of(m@).take(i as int), views_of(other@), want),
        decreases m@.len() - i,
    {
        proof {
            let t = views_of(m@).take(i + 1);
            assert(t.drop_last() =~= views_of(m@).take(i as int));
            assert(t.last() == m@[i as int]@);
        }
        let present = has_key_exec(other, &m[i]).is_some();
        if present == want {
            let c = copy_route(&m[i]);
            let ghost before = out@;
            out.push(c);
            proof {
                lemma_map_push(before, c, |x: RouteDescription| x@);
            }
        }
        i = i + 1;
    }
    assert(views_of(m@).take(i as int) =~= views_of(m@));
    out
}

fn last_raw_path_exec(routes: &Vec<crate::discovery::model::RouteCandidate>, k: &(String, String)) -> (r: Option<String>)
    ensures
        opt_str(r) == last_raw_path(routes@, (k.0@, k.1@)),
{
    let mut i: usize = routes.len();
    assert(routes@.take(i as int) =~= routes@);
    while i > 0
        invariant
            i <= routes@.len(),
            last_raw_path(routes@, (k.0@, k.1@)) == last_raw_path(routes@.take(i as int), (k.0@, k.1@)),
        decreases i,
    {
        let t = &routes[i - 1];
        let np = normalize_path(t.path.as_str());
        proof {
            let s = routes@.take(i as int);
            assert(s.drop_last() =~= routes@.take(i - 1));
            assert(s.last() == routes@[i - 1]);
        }
        if t.method == k.0 && np == k.1 {
            return Some(t.path.clone());
        }
        i = i - 1;
    }
    None
}

fn is_equivalent_exec(previous: Option<&ApplicationCandidate>, current: &ApplicationCandidate, k: &(String, String)) -> (r: bool)
    ensures
        r == equivalent_key(crate::authz::evaluator::deref_opt(previous), *current, (k.0@, k.1@)),
{
    let prev = match previous {
        Some(p) => p,
        None => return false,
    };
    let raw = match last_raw_path_exec(&prev.routes, k) {
        Some(p) => p,
        None => {
            return false;
        },
    };
    let mut i: usize = 0;
    while i < current.routes.len()
        invariant
            i <= current.routes@.len(),
            opt_str(Some(raw)) == last_raw_path(prev.routes@, (k.0@, k.1@)),
            crate::authz::evaluator::deref_opt(previous) == Some(*prev),
            forall|j: int| 0 <= j < i ==> !((#[trigger] current.routes@[j].method@, normalized(current.routes@[j].path@)) == (k.0@, k.1@) && raw@ != current.routes@[j].path@),
        decreases current.routes@.len() - i,
    {
        let c = &current.routes[i];
        let np = normalize_path(c.path.as_str());
        if c.method == k.0 && np == k.1 && raw != c.path {
            assert((current.routes@[i as int].method@, normalized(current.routes@[i as int].path@)) == (k.0@, k.1@));
            return true;
        }
        i = i + 1;
    }
    false
}

fn equivalents_exec(
    ck: &Vec<RouteDescription>,
    pk: &Vec<RouteDescription>,
    previous: Option<&ApplicationCandidate>,
    current: &ApplicationCandidate,
) -> (r: Vec<ChangedRoute>)
    ensures
        r@.map_values(|c: ChangedRoute| change_view(c)) == equivalents(
            views_of(ck@),
            views_of(pk@),
            crate::authz::evaluator::deref_opt(previous),
            *current,
        ),
{
    let ghost prev = crate::authz::evaluator::deref_opt(previous);
    let mut out: Vec<ChangedRoute> = Vec::new();
    let mut i: usize = 0;
    while i < ck.len()
        invariant
            i <= ck@.len(),
            prev == crate::authz::evaluator::deref_opt(previous),
            out@.map_values(|c: ChangedRoute| change_view(c)) == equivalents(views_of(ck@).take(i as int), views_of(pk@), prev, *current),
        decreases ck@.len() - i,
    {
        proof {
            let t = views_of(ck@).take(i + 1);
            assert(t.drop_last() =~= views_of(ck@).take(i as int));
            assert(t.last() == ck@[i as int]@);
        }
        match has_key_exec(pk, &ck[i]) {
            Some(j) => {
                let k = route_key_exec(&ck[i]);
                if is_equivalent_exec(previous, current, &k) {
                    let c = ChangedRoute {
                        previous: copy_route(&pk[j]),
                        current: copy_route(&ck[i]),
                        reason: owned("route parameter syntax normalized to the same authority route"),
                    };
                    let ghost before = out@;
                    out.push(c);
                    proof {
                        lemma_map_push(before, c, |x: ChangedRoute| change_view(x));
                        assert(views_of(pk@)[j as int] == pk@[j as int]@);
                    }
                }
            },
            None => {},
        }
        i = i + 1;
    }
    assert(views_of(ck@).take(i as int) =~= views_of(ck@));
    out
}


/// The indices of `s` as integers.
pub open spec fn ints(s: Seq<usize>) -> Seq<int> {
    s.map_values(|x: usize| x as int)
}

fn route_family_exec(r: &RouteDescription) -> (f: String)
    ensures
        f@ == route_family(r@),
{
    let n = normalize_path(r.path.as_str());
    let segs = path_segments(n.as_str());
    let ghost sv = views(segs@);
    let mut i: usize = 0;
    assert(sv.skip(0) =~= sv);
    while i < segs.len()
        invariant
            i <= segs@.len(),
            sv == views(segs@),
            sv == segments(normalized(r@.path)),
            first_non_param(sv) == first_non_param(sv.skip(i as int)),
        decreases segs@.len() - i,
    {
        assert(sv.skip(i as int)[0] == segs@[i as int]@);
        if !str_eq(segs[i].as_str(), ":param") {
            return segs[i].clone();
        }
        assert(sv.skip(i as int).drop_first() =~= sv.skip(i + 1));
        i = i + 1;
    }
    assert(sv.skip(i as int).len() == 0);
    String::new()
}

fn contains_index(v: &Vec<usize>, x: usize) -> (r: bool)
    ensures
        r == ints(v@).contains(x as int),
{
    let mut i: usize = 0;
    while i < v.len()
        invariant
            i <= v@.len(),
            forall|j: int| 0 <= j < i ==> v@[j] != x,
        decreases v@.len() - i,
    {
        if v[i] == x {
            assert(ints(v@)[i as int] == x as int);
            return true;
        }
        i = i + 1;
    }
    proof {
        if ints(v@).contains(x as int) {
            let j = choose|j: int| 0 <= j < ints(v@).len() && ints(v@)[j] == x as int;
            assert(v@[j] == x);
        }
    }
    false
}

fn find_partner_exec(news: &Vec<RouteDescription>, families: &Vec<String>, paired: &Vec<usize>, fam: &String) -> (r: Option<usize>)
    requires
        families@.len() == news@.len(),
        forall|j: int| 0 <= j < news@.len() ==> #[trigger] families@[j]@ == route_family(news@[j]@),
    ensures
        match r {
            Some(j) => j < news@.len() && find_partner(views_of(news@), ints(paired@), fam@, 0) == Some(j as int),
            None => find_partner(views_of(news@), ints(paired@), fam@, 0) is None,
        },
{
    let mut j: usize = 0;
    while j < news.len()
        invariant
            j <= news@.len(),
            families@.len() == news@.len(),
            forall|k: int| 0 <= k < news@.len() ==> #[trigger] families@[k]@ == route_family(news@[k]@),
            find_partner(views_of(news@), ints(paired@), fam@, 0) == find_partner(views_of(news@), ints(paired@), fam@, j as int),
        decreases news@.len() - j,
    {
        assert(views_of(news@)[j as int] == news@[j as int]@);
        let taken = contains_index(paired, j);
        if !taken && families[j] == *fam {
            return Some(j);
        }
        j = j + 1;
    }
    None
}

/// The reason a removed route and a new route of its family are reported as
/// one change.
pub open spec fn changes_of(removed: Seq<RouteView>, news: Seq<RouteView>, pairs: Seq<(int, int)>) -> Seq<ChangeView> {
    pairs.map_values(|p: (int, int)| (removed[p.0], news[p.1], change_reason(removed[p.0], news[p.1])))
}

fn families_of(v: &Vec<RouteDescription>) -> (r: Vec<String>)
    ensures
        r@.len() == v@.len(),
        forall|j: int| 0 <= j < v@.len() ==> #[trigger] r@[j]@ == route_family(v@[j]@),
{
    let mut out: Vec<String> = Vec::new();
    let mut i: usize = 0;
    while i < v.len()
        invariant
            i <= v@.len(),
            out@.len() == i,
            forall|j: int| 0 <= j < i ==> #[trigger] out@[j]@ == route_family(v@[j]@),
        decreases v@.len() - i,
    {
        out.push(route_family_exec(&v[i]));
        i = i + 1;
    }
    out
}

/// Pairs removed routes with new routes of their family and reports each
/// pair as a change; returns the paired removed and new indices too.
fn pair_up_exec(removed: &Vec<RouteDescription>, news: &Vec<RouteDescription>) -> (r: (Vec<usize>, Vec<usize>, Vec<ChangedRoute>))
    ensures
        ints(r.0@) == pair_up(views_of(removed@), views_of(news@), removed@.len() as int).0,
        ints(r.1@) == pair_up(views_of(removed@), views_of(news@), removed@.len() as int).1,
        r.2@.map_values(|c: ChangedRoute| change_view(c)) == changes_of(
            views_of(removed@),
            views_of(news@),
            pair_up(views_of(removed@), views_of(news@), removed@.len() as int).2,
        ),
{
    let ghost rv = views_of(removed@);
    let ghost nv = views_of(news@);
    let fams = families_of(news);
    let mut pr: Vec<usize> = Vec::new();
    let mut pn: Vec<usize> = Vec::new();
    let mut changed: Vec<ChangedRoute> = Vec::new();
    let ghost mut pairs: Seq<(int, int)> = Seq::empty();
    let mut i: usize = 0;
    while i < removed.len()
        invariant
            i <= removed@.len(),
            rv == views_of(removed@),
            nv == views_of(news@),
            fams@.len() == news@.len(),
            forall|k: int| 0 <= k < news@.len() ==> #[trigger] fams@[k]@ == route_family(news@[k]@),
            (ints(pr@), ints(pn@), pairs) == pair_up(rv, nv, i as int),
            forall|k: int| 0 <= k < pairs.len() ==> 0 <= #[trigger] pairs[k].0 < rv.len() && 0 <= pairs[k].1 < nv.len(),
            changed@.map_values(|c: ChangedRoute| change_view(c)) == changes_of(rv, nv, pairs),
        decreases removed@.len() - i,
    {
        let fam = route_family_exec(&removed[i]);
        assert(rv[i as int] == removed@[i as int]@);
        match find_partner_exec(news, &fams, &pn, &fam) {
            Some(j) => {
                let ghost before_r = pr@;
                let ghost before_n = pn@;
                let ghost before_c = changed@;
                let ghost before_p = pairs;
                pr.push(i);
                pn.push(j);
                assert(nv[j as int] == news@[j as int]@);
                let reason = if removed[i].method != news[j].method {
                    owned("HTTP method changed")
                } else {
                    owned("route shape changed")
                };
                let c = ChangedRoute { previous: copy_route(&removed[i]), current: copy_route(&news[j]), reason };
                changed.push(c);
                proof {
                    pairs = pairs.push((i as int, j as int));
                    assert(ints(pr@) =~= ints(before_r).push(i as int));
                    assert(ints(pn@) =~= ints(before_n).push(j as int));
                    lemma_map_push(before_c, c, |x: ChangedRoute| change_view(x));
                    assert(changes_of(rv, nv, pairs) =~= changes_of(rv, nv, before_p).push(change_view(c)));
                }
            },
            None => {},
        }
        i = i + 1;
    }
    (pr, pn, changed)
}

fn unpaired_exec(s: &Vec<RouteDescription>, paired: &Vec<usize>) -> (r: Vec<RouteDescription>)
    ensures
        views_of(r@) == unpaired(views_of(s@), ints(paired@), s@.len() as int),
{
    let mut out: Vec<RouteDescription> = Vec::new();
    let mut i: usize = 0;
    while i < s.len()
        invariant
            i <= s@.len(),
            views_of(out@) == unpaired(views_of(s@), ints(paired@), i as int),
        decreases s@.len() - i,
    {
        if !contains_index(paired, i) {
            let c = copy_route(&s[i]);
            let ghost before = out@;
            out.push(c);
            proof {
                lemma_map_push(before, c, |x: RouteDescription| x@);
                assert(views_of(s@)[i as int] == s@[i as int]@);
            }
        }
        i = i + 1;
    }
    out
}


fn key_present(m: &Vec<RouteDescription>, k: &(String, String)) -> (r: bool)
    ensures
        r == (key_index(views_of(m@), (k.0@, k.1@)) is Some),
{
    match find_key(m, k) {
        Some(i) => {
            proof {
                lemma_key_index(views_of(m@), (k.0@, k.1@), i as int);
            }
            true
        },
        None => {
            proof {
                assert forall|j: int| 0 <= j < views_of(m@).len() implies rkey(#[trigger] views_of(m@)[j]) != (k.0@, k.1@) by {
                    if rkey(views_of(m@)[j]) == (k.0@, k.1@) {
                        assert(has_key(views_of(m@), (k.0@, k.1@)));
                    }
                }
                lemma_key_index_none(views_of(m@), (k.0@, k.1@));
            }
            false
        },
    }
}

fn orphans_exec(live: &AuthorityMap, cur: &Vec<RouteDescription>) -> (r: Vec<OrphanedAuthority>)
    ensures
        views_of(r@) == orphans(live.entries_view(), views_of(cur@)),
{
    let es = live.entries();
    let ghost ev = live.entries_view();
    let mut out: Vec<OrphanedAuthority> = Vec::new();
    let mut i: usize = 0;
    while i < es.len()
        invariant
            i <= es@.len(),
            es@.map_values(|e: ((String, String), String)| entry_view(e)) == ev,
            ev == live.entries_view(),
            views_of(out@) == orphans(ev.take(i as int), views_of(cur@)),
        decreases es@.len() - i,
    {
        let e = &es[i];
        proof {
            let t = ev.take(i + 1);
            assert(t.drop_last() =~= ev.take(i as int));
            assert(t.last() == entry_view(es@[i as int]));
        }
        let np = normalize_path(e.0.1.as_str());
        let k = (e.0.0.clone(), np);
        if !key_present(cur, &k) {
            let o = OrphanedAuthority {
                method: e.0.0.clone(),
                path: k.1.clone(),
                capability: e.1.clone(),
                reason: owned("route no longer discovered; historical authority retained"),
            };
            let ghost before = out@;
            out.push(o);
            proof {
                lemma_map_push(before, o, |x: OrphanedAuthority| x@);
            }
        }
        i = i + 1;
    }
    assert(ev.take(i as int) =~= ev);
    out
}

fn copy_recommendation(r: &AuthorityRecommendation) -> (c: AuthorityRecommendation)
    ensures
        c@ == r@,
{
    AuthorityRecommendation {
        id: match &r.id {
            Some(x) => Some(x.clone()),
            None => None,
        },
        method: r.method.clone(),
        path: r.path.clone(),
        action: r.action,
        capability: match &r.capability {
            Some(x) => Some(x.clone()),
            None => None,
        },
        status: r.status,
        current_authority_state: r.current_authority_state.clone(),
        proposed_authority_state: r.proposed_authority_state.clone(),
        source: r.source,
        discovery_revision: r.discovery_revision,
        authority_revision: r.authority_revision,
        contract_fingerprint: r.contract_fingerprint.clone(),
        confidence: r.confidence,
        reasons: super::propose::copy_strings(&r.reasons),
        reason: r.reason.clone(),
    }
}

fn protect_exec(recs: &Vec<AuthorityRecommendation>) -> (r: Vec<AuthorityRecommendation>)
    ensures
        views_of(r@) == protect_recommendations(views_of(recs@)),
{
    let mut out: Vec<AuthorityRecommendation> = Vec::new();
    let mut i: usize = 0;
    while i < recs.len()
        invariant
            i <= recs@.len(),
            views_of(out@) == protect_recommendations(views_of(recs@).take(i as int)),
        decreases recs@.len() - i,
    {
        proof {
            let t = views_of(recs@).take(i + 1);
            assert(t.drop_last() =~= views_of(recs@).take(i as int));
            assert(t.last() == recs@[i as int]@);
        }
        if recs[i].action == RecommendationAction::ProtectRoute {
            let c = copy_recommendation(&recs[i]);
            let ghost before = out@;
            out.push(c);
            proof {
                lemma_map_push(before, c, |x: AuthorityRecommendation| x@);
            }
        }
        i = i + 1;
    }
    assert(views_of(recs@).take(i as int) =~= views_of(recs@));
    out
}

fn copy_history(h: &ProposalHistoryItem) -> (c: ProposalHistoryItem)
    ensures
        c@ == h@,
{
    ProposalHistoryItem {
        id: h.id.clone(),
        method: h.method.clone(),
        path: h.path.clone(),
        capability: h.capability.clone(),
        status: h.status.clone(),
        discovery_revision: h.discovery_revision,
        authority_revision: h.authority_revision,
    }
}

fn stale_exec(history: &[ProposalHistoryItem], cur: &Vec<RouteDescription>) -> (r: Vec<ProposalHistoryItem>)
    ensures
        views_of(r@) == stale_history(views_of(history@), views_of(cur@)),
{
    let mut out: Vec<ProposalHistoryItem> = Vec::new();
    let mut i: usize = 0;
    while i < history.len()
        invariant
            i <= history@.len(),
            views_of(out@) == stale_history(views_of(history@).take(i as int), views_of(cur@)),
        decreases history@.len() - i,
    {
        proof {
            let t = views_of(history@).take(i + 1);
            assert(t.drop_last() =~= views_of(history@).take(i as int));
            assert(t.last() == history@[i as int]@);
        }
        let h = &history[i];
        let k = (h.method.clone(), normalize_path(h.path.as_str()));
        if !str_eq(h.status.as_str(), "applied") && !key_present(cur, &k) {
            let c = copy_history(h);
            let ghost before = out@;
            out.push(c);
            proof {
                lemma_map_push(before, c, |x: ProposalHistoryItem| x@);
            }
        }
        i = i + 1;
    }
    assert(views_of(history@).take(i as int) =~= views_of(history@));
    out
}

fn drift_item(
    kind: AuthorityDrift,
    route: String,
    previous_state: String,
    current_state: String,
    authority_state: String,
    recommended_action: &str,
    discovery_revision: u64,
    authority_revision: u64,
) -> (d: AuthorityDriftItem)
    ensures
        d@ == drift_of(kind, route@, previous_state@, current_state@, authority_state@, recommended_action@, discovery_revision, authority_revision),
{
    AuthorityDriftItem {
        kind,
        route,
        previous_state,
        current_state,
        authority_state,
        recommended_action: owned(recommended_action),
        discovery_revision,
        authority_revision,
    }
}

fn route_text_exec(method: &String, path: &String) -> (r: String)
    ensures
        r@ == route_text(method@, path@),
{
    cat3(method.as_str(), " ", path.as_str())
}

fn conflicts_exec(cur: &Vec<RouteDescription>, live: &AuthorityMap, drev: u64, arev: u64) -> (r: (Vec<String>, Vec<AuthorityDriftItem>))
    ensures
        views(r.0@) == conflicts(views_of(cur@), *live, drev, arev).map_values(|c: (Seq<char>, DriftView)| c.0),
        views_of(r.1@) == conflicts(views_of(cur@), *live, drev, arev).map_values(|c: (Seq<char>, DriftView)| c.1),
{
    let mut warnings: Vec<String> = Vec::new();
    let mut drift: Vec<AuthorityDriftItem> = Vec::new();
    let mut i: usize = 0;
    while i < cur.len()
        invariant
            i <= cur@.len(),
            views(warnings@) == conflicts(views_of(cur@).take(i as int), *live, drev, arev).map_values(|c: (Seq<char>, DriftView)| c.0),
            views_of(drift@) == conflicts(views_of(cur@).take(i as int), *live, drev, arev).map_values(|c: (Seq<char>, DriftView)| c.1),
        decreases cur@.len() - i,
    {
        let ghost cs = conflicts(views_of(cur@).take(i as int), *live, drev, arev);
        proof {
            let t = views_of(cur@).take(i + 1);
            assert(t.drop_last() =~= views_of(cur@).take(i as int));
            assert(t.last() == cur@[i as int]@);
        }
        let r = &cur[i];
        match infer_capability(r.method.as_str(), r.path.as_str()) {
            Some(inf) => {
                let np = normalize_path(r.path.as_str());
                match live.get(&r.method, &np) {
                    Some(existing) => {
                        if *existing != inf.capability {
                            let mut w = cat3("authority conflict for ", r.method.as_str(), " ");
                            w.append(r.path.as_str());
                            w.append(": existing explicit authority ");
                            w.append(existing.as_str());
                            w.append(" differs from inferred ");
                            w.append(inf.capability.as_str());
                            let d = drift_item(
                                AuthorityDrift::CapabilityConflict,
                                route_text_exec(&r.method, &r.path),
                                existing.clone(),
                                inf.capability.clone(),
                                owned("explicit authority preserved"),
                                "review",
                                drev,
                                arev,
                            );
                            let ghost bw = warnings@;
                            let ghost bd = drift@;
                            let ghost wv = w@;
                            warnings.push(w);
                            drift.push(d);
                            proof {
                                let ncs = conflicts(views_of(cur@).take(i + 1), *live, drev, arev);
                                assert(ncs == cs.push((wv, d@)));
                                assert(views(warnings@) =~= views(bw).push(wv));
                                lemma_map_push(bd, d, |x: AuthorityDriftItem| x@);
                                assert(ncs.map_values(|c: (Seq<char>, DriftView)| c.0) =~= cs.map_values(|c: (Seq<char>, DriftView)| c.0).push(wv));
                                assert(ncs.map_values(|c: (Seq<char>, DriftView)| c.1) =~= cs.map_values(|c: (Seq<char>, DriftView)| c.1).push(d@));
                            }
                        }
                    },
                    None => {},
                }
            },
            None => {},
        }
        i = i + 1;
    }
    assert(views_of(cur@).take(i as int) =~= views_of(cur@));
    (warnings, drift)
}


/// A new or a removed route as drift.
pub open spec fn route_drift(kind: AuthorityDrift, r: RouteView, prev: Seq<char>, cur: Seq<char>, drev: u64, arev: u64) -> DriftView {
    drift_of(kind, route_text(r.method, r.path), prev, cur, protection_state_name(r.protection), "review"@, drev, arev)
}

fn route_drift_exec(routes: &Vec<RouteDescription>, kind: AuthorityDrift, prev: &str, cur: &str, drev: u64, arev: u64) -> (r: Vec<AuthorityDriftItem>)
    ensures
        views_of(r@) == views_of(routes@).map_values(|x: RouteView| route_drift(kind, x, prev@, cur@, drev, arev)),
{
    let mut out: Vec<AuthorityDriftItem> = Vec::new();
    let mut i: usize = 0;
    while i < routes.len()
        invariant
            i <= routes@.len(),
            views_of(out@) == views_of(routes@).take(i as int).map_values(|x: RouteView| route_drift(kind, x, prev@, cur@, drev, arev)),
        decreases routes@.len() - i,
    {
        let r = &routes[i];
        let d = drift_item(
            kind,
            route_text_exec(&r.method, &r.path),
            owned(prev),
            owned(cur),
            owned(r.protection.as_str()),
            "review",
            drev,
            arev,
        );
        let ghost before = out@;
        out.push(d);
        proof {
            lemma_map_push(before, d, |x: AuthorityDriftItem| x@);
            assert(views_of(routes@)[i as int] == r@);
            lemma_map_take_step(views_of(routes@), i as int, |x: RouteView| route_drift(kind, x, prev@, cur@, drev, arev));
        }
        i = i + 1;
    }
    assert(views_of(routes@).take(i as int) =~= views_of(routes@));
    out
}

pub open spec fn change_drift(c: ChangeView, drev: u64, arev: u64) -> DriftView {
    drift_of(AuthorityDrift::RouteChanged, route_text(c.1.method, c.1.path), route_text(c.0.method, c.0.path), route_text(c.1.method, c.1.path), protection_state_name(c.1.protection), "review"@, drev, arev)
}

fn change_drift_exec(changes: &Vec<ChangedRoute>, drev: u64, arev: u64) -> (r: Vec<AuthorityDriftItem>)
    ensures
        views_of(r@) == changes@.map_values(|c: ChangedRoute| change_view(c)).map_values(|c: ChangeView| change_drift(c, drev, arev)),
{
    let ghost cv = changes@.map_values(|c: ChangedRoute| change_view(c));
    let mut out: Vec<AuthorityDriftItem> = Vec::new();
    let mut i: usize = 0;
    while i < changes.len()
        invariant
            i <= changes@.len(),
            cv == changes@.map_values(|c: ChangedRoute| change_view(c)),
            views_of(out@) == cv.take(i as int).map_values(|c: ChangeView| change_drift(c, drev, arev)),
        decreases changes@.len() - i,
    {
        let c = &changes[i];
        let d = drift_item(
            AuthorityDrift::RouteChanged,
            route_text_exec(&c.current.method, &c.current.path),
            route_text_exec(&c.previous.method, &c.previous.path),
            route_text_exec(&c.current.method, &c.current.path),
            owned(c.current.protection.as_str()),
            "review",
            drev,
            arev,
        );
        let ghost before = out@;
        out.push(d);
        proof {
            lemma_map_push(before, d, |x: AuthorityDriftItem| x@);
            assert(cv[i as int] == change_view(*c));
            lemma_map_take_step(cv, i as int, |c: ChangeView| change_drift(c, drev, arev));
        }
        i = i + 1;
    }
    assert(cv.take(i as int) =~= cv);
    out
}

pub open spec fn orphan_drift(o: (Seq<char>, Seq<char>, Seq<char>, Seq<char>), drev: u64, arev: u64) -> DriftView {
    drift_of(AuthorityDrift::OrphanedAuthority, route_text(o.0, o.1), "protected"@, "route_absent"@, "retained:"@ + o.2, "review"@, drev, arev)
}

fn orphan_drift_exec(items: &Vec<OrphanedAuthority>, drev: u64, arev: u64) -> (r: Vec<AuthorityDriftItem>)
    ensures
        views_of(r@) == views_of(items@).map_values(|o: (Seq<char>, Seq<char>, Seq<char>, Seq<char>)| orphan_drift(o, drev, arev)),
{
    let mut out: Vec<AuthorityDriftItem> = Vec::new();
    let mut i: usize = 0;
    while i < items.len()
        invariant
            i <= items@.len(),
            views_of(out@) == views_of(items@).take(i as int).map_values(|o: (Seq<char>, Seq<char>, Seq<char>, Seq<char>)| orphan_drift(o, drev, arev)),
        decreases items@.len() - i,
    {
        let o = &items[i];
        let d = drift_item(
            AuthorityDrift::OrphanedAuthority,
            route_text_exec(&o.method, &o.path),
            owned("protected"),
            owned("route_absent"),
            cat("retained:", o.capability.as_str()),
            "review",
            drev,
            arev,
        );
        let ghost before = out@;
        out.push(d);
        proof {
            lemma_map_push(before, d, |x: AuthorityDriftItem| x@);
            assert(views_of(items@)[i as int] == o@);
            lemma_map_take_step(views_of(items@), i as int, |o: (Seq<char>, Seq<char>, Seq<char>, Seq<char>)| orphan_drift(o, drev, arev));
        }
        i = i + 1;
    }
    assert(views_of(items@).take(i as int) =~= views_of(items@));
    out
}

pub open spec fn stale_drift(h: HistoryView, drev: u64, arev: u64) -> DriftView {
    drift_of(AuthorityDrift::StaleProposal, route_text(h.method, normalized(h.path)), h.status, "route_absent"@, "proposal:"@ + h.id, "reject_or_supersede"@, drev, arev)
}

fn stale_drift_exec(items: &Vec<ProposalHistoryItem>, drev: u64, arev: u64) -> (r: Vec<AuthorityDriftItem>)
    ensures
        views_of(r@) == views_of(items@).map_values(|h: HistoryView| stale_drift(h, drev, arev)),
{
    let mut out: Vec<AuthorityDriftItem> = Vec::new();
    let mut i: usize = 0;
    while i < items.len()
        invariant
            i <= items@.len(),
            views_of(out@) == views_of(items@).take(i as int).map_values(|h: HistoryView| stale_drift(h, drev, arev)),
        decreases items@.len() - i,
    {
        let h = &items[i];
        let np = normalize_path(h.path.as_str());
        let d = drift_item(
            AuthorityDrift::StaleProposal,
            route_text_exec(&h.method, &np),
            h.status.clone(),
            owned("route_absent"),
            cat("proposal:", h.id.as_str()),
            "reject_or_supersede",
            drev,
            arev,
        );
        let ghost before = out@;
        out.push(d);
        proof {
            lemma_map_push(before, d, |x: AuthorityDriftItem| x@);
            assert(views_of(items@)[i as int] == h@);
            lemma_map_take_step(views_of(items@), i as int, |h: HistoryView| stale_drift(h, drev, arev));
        }
        i = i + 1;
    }
    assert(views_of(items@).take(i as int) =~= views_of(items@));
    out
}

proof fn lemma_views_append<T: View>(a: Seq<T>, b: Seq<T>)
    ensures
        views_of(a + b) == views_of(a) + views_of(b),
{
    assert(views_of(a + b) =~= views_of(a) + views_of(b));
}

fn append_all(out: &mut Vec<AuthorityDriftItem>, more: Vec<AuthorityDriftItem>)
    ensures
        views_of(final(out)@) == views_of(old(out)@) + views_of(more@),
{
    let mut m = more;
    let ghost a = out@;
    let ghost b = m@;
    out.append(&mut m);
    proof {
        lemma_views_append(a, b);
    }
}

fn drift_rev_exec(ds: &Vec<AuthorityDriftItem>) -> (r: String)
    ensures
        r@ == drift_rev_text(views_of(ds@)),
{
    let mut text = String::new();
    let mut i: usize = 0;
    while i < ds.len()
        invariant
            i <= ds@.len(),
            text@ == drift_rev_text(views_of(ds@).take(i as int)),
        decreases ds@.len() - i,
    {
        let d = &ds[i];
        let ghost start = text@;
        text.append(d.kind.as_str());
        text.append("\n");
        text.append(d.route.as_str());
        text.append("\n");
        text.append(d.previous_state.as_str());
        text.append("\n");
        text.append(d.current_state.as_str());
        text.append("\n");
        text.append(d.authority_state.as_str());
        text.append("\n");
        text.append(d.recommended_action.as_str());
        text.append("\n");
        proof {
            let t = views_of(ds@).take(i + 1);
            assert(t.drop_last() =~= views_of(ds@).take(i as int));
            assert(t.last() == d@);
            assert(text@ =~= drift_rev_text(t));
        }
        i = i + 1;
    }
    assert(views_of(ds@).take(i as int) =~= views_of(ds@));
    text
}

fn reconciliation_revision(fingerprint: &str, drev: u64, arev: u64, drift: &Vec<AuthorityDriftItem>) -> (r: u64)
    ensures
        r == reconciliation_revision_of(fingerprint@, drev, arev, views_of(drift@)),
{
    let mut text = owned(fingerprint);
    text.append("\n");
    let d = u64_decimal(drev);
    text.append(d.as_str());
    text.append("\n");
    let a = u64_decimal(arev);
    text.append(a.as_str());
    text.append("\n");
    let rest = drift_rev_exec(drift);
    text.append(rest.as_str());
    let mut bytes: Vec<u8> = Vec::new();
    push_utf8(&mut bytes, text.as_str());
    assert(bytes@ =~= utf8(fingerprint@ + "\n"@ + decimal(drev as nat) + "\n"@ + decimal(arev as nat) + "\n"@ + drift_rev_text(views_of(drift@))));
    stable_hash(bytes.as_slice())
}


/// A live mapping as the route it was approved for, when no earlier
/// discovery is at hand.
pub open spec fn live_route(e: ((Seq<char>, Seq<char>), Seq<char>)) -> RouteView {
    RouteView {
        id: e.0.0 + " "@ + normalized(e.0.1),
        method: e.0.0,
        path: normalized(e.0.1),
        source: RouteSource::Unknown,
        capability: Some(e.1),
        inference: None,
        protection: ProtectionState::Protected,
        protection_reason: "previously approved authority mapping"@,
    }
}

/// The routes reconciliation compares against: the earlier discovery
/// described against the live authority, or else the live mappings.
pub open spec fn previous_routes(previous: Option<ApplicationCandidate>, live: AuthorityMap) -> Seq<RouteView> {
    match previous {
        Some(app) => proposal_routes(app, live),
        None => live.entries_view().map_values(|e: ((Seq<char>, Seq<char>), Seq<char>)| live_route(e)),
    }
}

fn live_routes_exec(live: &AuthorityMap) -> (r: Vec<RouteDescription>)
    ensures
        views_of(r@) == live.entries_view().map_values(|e: ((Seq<char>, Seq<char>), Seq<char>)| live_route(e)),
{
    let es = live.entries();
    let ghost ev = live.entries_view();
    let mut out: Vec<RouteDescription> = Vec::new();
    let mut i: usize = 0;
    while i < es.len()
        invariant
            i <= es@.len(),
            es@.map_values(|e: ((String, String), String)| entry_view(e)) == ev,
            ev == live.entries_view(),
            views_of(out@) == ev.take(i as int).map_values(|e: ((Seq<char>, Seq<char>), Seq<char>)| live_route(e)),
        decreases es@.len() - i,
    {
        let e = &es[i];
        let np = normalize_path(e.0.1.as_str());
        let d = RouteDescription {
            id: cat3(e.0.0.as_str(), " ", np.as_str()),
            method: e.0.0.clone(),
            path: np,
            source: RouteSource::Unknown,
            capability: Some(e.1.clone()),
            inference: None,
            protection: ProtectionState::Protected,
            protection_reason: owned("previously approved authority mapping"),
        };
        let ghost before = out@;
        out.push(d);
        proof {
            lemma_map_push(before, d, |x: RouteDescription| x@);
            assert(ev[i as int] == entry_view(es@[i as int]));
            lemma_map_take_step(ev, i as int, |e: ((Seq<char>, Seq<char>), Seq<char>)| live_route(e));
        }
        i = i + 1;
    }
    assert(ev.take(i as int) =~= ev);
    out
}

/// What `AuthorityReconciler::reconcile` reports for the earlier discovery
/// `previous`, the current one, the contract fingerprint, the live authority
/// revision and mappings, and the proposal history.
pub open spec fn reconciliation_of(
    r: ReconciliationResult,
    previous: Option<ApplicationCandidate>,
    current: ApplicationCandidate,
    fingerprint: Seq<char>,
    arev: u64,
    live: AuthorityMap,
    history: Seq<HistoryView>,
) -> bool {
    let cur_routes = proposal_routes(current, live);
    let drev = discovery_revision_of(cur_routes);
    let pk = keyed(isort_by(previous_routes(previous, live), le_of::<PathMethodOrder>()));
    let cur_sorted = isort_by(cur_routes, le_of::<PathMethodOrder>());
    let ck = keyed(cur_sorted);
    let removed0 = filter_by_key(pk, ck, false);
    let news0 = filter_by_key(ck, pk, false);
    let pairing = pair_up(removed0, news0, removed0.len() as int);
    let news = unpaired(news0, pairing.1, news0.len() as int);
    let removed = unpaired(removed0, pairing.0, removed0.len() as int);
    let changed = changes_of(removed0, news0, pairing.2);
    let orphaned = isort_by(orphans(live.entries_view(), ck), le_of::<OrphanedAuthority>());
    let recs = cur_routes.map_values(|x: RouteView| recommendation_for(x, drev, arev, fingerprint));
    let proposals = isort_by(protect_recommendations(recs), le_of::<AuthorityRecommendation>());
    let stale = isort_by(stale_history(history, ck), le_of::<ProposalHistoryItem>());
    let conf = conflicts(cur_sorted, live, drev, arev);
    let drift = isort_by(
        drift_items(news, removed, changed, orphaned, stale, conf, drev, arev),
        le_of::<AuthorityDriftItem>(),
    );
    &&& r.application@ == application_name(current)
    &&& r.contract_fingerprint@ == fingerprint
    &&& r.discovery_revision == drev
    &&& r.authority_revision == arev
    &&& r.reconciliation_revision == reconciliation_revision_of(fingerprint, drev, arev, drift)
    &&& views_of(r.new_routes@) == news
    &&& views_of(r.removed_routes@) == removed
    &&& r.changed_routes@.map_values(|c: ChangedRoute| change_view(c)) == changed
    &&& views_of(r.unchanged_routes@) == filter_by_key(ck, pk, true)
    &&& r.equivalent_routes@.map_values(|c: ChangedRoute| change_view(c)) == equivalents(ck, pk, previous, current)
    &&& views_of(r.orphaned_authority@) == orphaned
    &&& views_of(r.new_authority_proposals@) == proposals
    &&& views_of(r.stale_proposals@) == stale
    &&& views(r.warnings@) == conf.map_values(|c: (Seq<char>, DriftView)| c.0)
    &&& views_of(r.drift@) == drift
}

/// Two reconciliation results that report the same: equal names,
/// revisions, routes, authority, proposals, warnings and drift.
pub open spec fn same_reconciliation(a: ReconciliationResult, b: ReconciliationResult) -> bool {
    &&& a.application@ == b.application@
    &&& a.contract_fingerprint@ == b.contract_fingerprint@
    &&& a.discovery_revision == b.discovery_revision
    &&& a.authority_revision == b.authority_revision
    &&& a.reconciliation_revision == b.reconciliation_revision
    &&& views_of(a.new_routes@) == views_of(b.new_routes@)
    &&& views_of(a.removed_routes@) == views_of(b.removed_routes@)
    &&& a.changed_routes@.map_values(|c: ChangedRoute| change_view(c)) == b.changed_routes@.map_values(
        |c: ChangedRoute| change_view(c),
    )
    &&& views_of(a.unchanged_routes@) == views_of(b.unchanged_routes@)
    &&& a.equivalent_routes@.map_values(|c: ChangedRoute| change_view(c)) == b.equivalent_routes@.map_values(
        |c: ChangedRoute| change_view(c),
    )
    &&& views_of(a.orphaned_authority@) == views_of(b.orphaned_authority@)
    &&& views_of(a.new_authority_proposals@) == views_of(b.new_authority_proposals@)
    &&& views_of(a.stale_proposals@) == views_of(b.stale_proposals@)
    &&& views(a.warnings@) == views(b.warnings@)
    &&& views_of(a.drift@) == views_of(b.drift@)
}

/// Reconciling the same inputs twice reports the same: the reconciliation
/// depends on nothing but its inputs.
pub proof fn lemma_reconcile_deterministic(
    a: ReconciliationResult,
    b: ReconciliationResult,
    previous: Option<ApplicationCandidate>,
    current: ApplicationCandidate,
    fingerprint: Seq<char>,
    arev: u64,
    live: AuthorityMap,
    history: Seq<HistoryView>,
)
    requires
        reconciliation_of(a, previous, current, fingerprint, arev, live, history),
        reconciliation_of(b, previous, current, fingerprint, arev, live, history),
    ensures
        same_reconciliation(a, b),
{
}

/// Compares a discovery with the one before it (or with the live authority
/// when there is none) and reports the drift; it reads and never applies.
pub struct AuthorityReconciler;

impl AuthorityReconciler {
    pub fn reconcile(
        previous: Option<&ApplicationCandidate>,
        current: &ApplicationCandidate,
        contract_fingerprint: &str,
        authority_revision: u64,
        live_authority: &AuthorityMap,
        proposal_history: &[ProposalHistoryItem],
    ) -> (r: ReconciliationResult)
        ensures
            reconciliation_of(
                r,
                crate::authz::evaluator::deref_opt(previous),
                *current,
                contract_fingerprint@,
                authority_revision,
                *live_authority,
                views_of(proposal_history@),
            ),
    {
        let arev = authority_revision;
        let proposal = propose_authority(current, contract_fingerprint, arev, live_authority);
        let prev_routes = match previous {
            Some(app) => propose_authority(app, contract_fingerprint, arev, live_authority).routes,
            None => live_routes_exec(live_authority),
        };
        let drev = proposal.discovery_revision;
        let prev_sorted = sort_path_method(prev_routes);
        let cur_sorted = sort_path_method(copy_routes(&proposal.routes));
        let pk = build_keyed(&prev_sorted);
        let ck = build_keyed(&cur_sorted);
        let removed0 = split_by_key(&pk, &ck, false);
        let news0 = split_by_key(&ck, &pk, false);
        let unchanged = split_by_key(&ck, &pk, true);
        let equivalent = equivalents_exec(&ck, &pk, previous, current);
        let (paired_removed, paired_new, changed) = pair_up_exec(&removed0, &news0);
        let news = unpaired_exec(&news0, &paired_new);
        let removed = unpaired_exec(&removed0, &paired_removed);
        let orphaned = insertion_sort(orphans_exec(live_authority, &ck));
        let proposals = insertion_sort(protect_exec(&proposal.recommendations));
        let stale = insertion_sort(stale_exec(proposal_history, &ck));
        let (warnings, conflict_drift) = conflicts_exec(&cur_sorted, live_authority, drev, arev);
        let mut drift = route_drift_exec(&news, AuthorityDrift::NewRoute, "absent", "discovered", drev, arev);
        append_all(&mut drift, route_drift_exec(&removed, AuthorityDrift::RemovedRoute, "discovered", "absent", drev, arev));
        append_all(&mut drift, change_drift_exec(&changed, drev, arev));
        append_all(&mut drift, orphan_drift_exec(&orphaned, drev, arev));
        append_all(&mut drift, stale_drift_exec(&stale, drev, arev));
        append_all(&mut drift, conflict_drift);
        let drift = insertion_sort(drift);
        let revision = reconciliation_revision(contract_fingerprint, drev, arev, &drift);
        ReconciliationResult {
            application: proposal.application,
            contract_fingerprint: owned(contract_fingerprint),
            discovery_revision: drev,
            authority_revision: arev,
            reconciliation_revision: revision,
            new_routes: news,
            removed_routes: removed,
            changed_routes: changed,
            unchanged_routes: unchanged,
            equivalent_routes: equivalent,
            orphaned_authority: orphaned,
            new_authority_proposals: proposals,
            stale_proposals: stale,
            warnings,
            drift,
        }
    }
}

fn copy_routes(v: &Vec<RouteDescription>) -> (r: Vec<RouteDescription>)
    ensures
        views_of(r@) == views_of(v@),
{
    let mut out: Vec<RouteDescription> = Vec::new();
    let mut i: usize = 0;
    while i < v.len()
        invariant
            i <= v@.len(),
            views_of(out@) == views_of(v@).take(i as int),
        decreases v@.len() - i,
    {
        let c = copy_route(&v[i]);
        let ghost before = out@;
        out.push(c);
        proof {
            lemma_map_push(before, c, |x: RouteDescription| x@);
            assert(views_of(v@).take(i + 1) =~= views_of(v@).take(i as int).push(v@[i as int]@));
        }
        i = i + 1;
    }
    assert(views_of(v@).take(i as int) =~= views_of(v@));
    out
}

} // verus!

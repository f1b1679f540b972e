//! Live authority: what is currently permitted, laid over the immutable
//! contract. The contract says what exists; this state says which routes are
//! protected by which capability, which policy each capability answers to,
//! and which providers are enabled. Every change is a new state with the
//! revision advanced by one.
use vstd::prelude::*;
use crate::assoc::{lookup, set_entry, lemma_lookup_views};
use crate::authz::policy::Policy;
use crate::authz::shape::{PolicyView, policy_text};
use crate::boundary::request::{Method, method_name};
use crate::dsl::model::{fnv1a, stable_hash};
use crate::boundary::proposal_store::ChangeRecord;
use crate::text::{owned, cat, str_eq, u64_decimal, decimal, utf8, push_utf8, bool_str, bool_text};

verus! {

/// Route identifier: a method and a path.
#[derive(Debug, Clone, PartialEq, Eq, PartialOrd, Ord, Hash)]
pub struct RouteId {
    pub method: Method,
    pub path: String,
}

impl RouteId {
    pub fn new(method: Method, path: String) -> (r: Self)
        ensures
            r.method == method,
            r.path == path,
    {
        RouteId { method, path }
    }
}

/// What a route currently requires.
#[derive(Debug, Clone, PartialEq, Eq)]
pub struct RouteProtection {
    pub capability: Option<String>,
}

impl View for RouteProtection {
    type V = Option<Seq<char>>;

    open spec fn view(&self) -> Option<Seq<char>> {
        match self.capability {
            Some(c) => Some(c@),
            None => None,
        }
    }
}

/// Whether a provider is currently enabled.
#[derive(Debug, Clone, Copy, PartialEq, Eq, Structural)]
pub struct ProviderState {
    pub enabled: bool,
}

/// The entry for a route, the first one that names it.
pub open spec fn route_lookup(
    entries: Seq<(RouteId, RouteProtection)>,
    m: Method,
    p: Seq<char>,
) -> Option<RouteProtection>
    decreases entries.len(),
{
    if entries.len() == 0 {
        None
    } else if entries[0].0.method == m && entries[0].0.path@ == p {
        Some(entries[0].1)
    } else {
        route_lookup(entries.drop_first(), m, p)
    }
}

/// Which routes are protected, and by which capability.
pub open spec fn routes_map(entries: Seq<(RouteId, RouteProtection)>) -> Map<
    (Method, Seq<char>),
    Option<Seq<char>>,
> {
    Map::new(
        |k: (Method, Seq<char>)| route_lookup(entries, k.0, k.1) is Some,
        |k: (Method, Seq<char>)| route_lookup(entries, k.0, k.1).unwrap()@,
    )
}

/// The policy each capability answers to.
pub open spec fn policies_map(entries: Seq<(String, Policy)>) -> Map<Seq<char>, PolicyView> {
    Map::new(|k: Seq<char>| lookup(entries, k) is Some, |k: Seq<char>| lookup(entries, k).unwrap()@)
}

/// Whether each known provider is enabled.
pub open spec fn providers_map(entries: Seq<(String, ProviderState)>) -> Map<Seq<char>, bool> {
    Map::new(
        |k: Seq<char>| lookup(entries, k) is Some,
        |k: Seq<char>| lookup(entries, k).unwrap().enabled,
    )
}

/// The three tables of live authority as plain values.
pub struct TablesView {
    pub routes: Map<(Method, Seq<char>), Option<Seq<char>>>,
    pub policies: Map<Seq<char>, PolicyView>,
    pub providers: Map<Seq<char>, bool>,
}

/// Live authority as plain values.
pub struct AuthorityView {
    pub tables: TablesView,
    pub revision: u64,
}

/// Live authority state: overlays the immutable contract.
#[derive(Debug)]
pub struct LiveAuthorityState {
    /// Which routes require which capabilities.
    pub route_protection: Vec<(RouteId, RouteProtection)>,
    /// Current policy for each capability.
    pub capability_policies: Vec<(String, Policy)>,
    /// Current enabled/disabled state for each provider.
    pub provider_state: Vec<(String, ProviderState)>,
    /// Monotonic revision number; increments on each change.
    pub revision: u64,
}

pub open spec fn tables_of(
    routes: Seq<(RouteId, RouteProtection)>,
    policies: Seq<(String, Policy)>,
    providers: Seq<(String, ProviderState)>,
) -> TablesView {
    TablesView {
        routes: routes_map(routes),
        policies: policies_map(policies),
        providers: providers_map(providers),
    }
}

impl View for LiveAuthorityState {
    type V = AuthorityView;

    open spec fn view(&self) -> AuthorityView {
        AuthorityView {
            tables: tables_of(
                self.route_protection@,
                self.capability_policies@,
                self.provider_state@,
            ),
            revision: self.revision,
        }
    }
}

proof fn lemma_route_lookup_push(
    s: Seq<(RouteId, RouteProtection)>,
    x: (RouteId, RouteProtection),
    m: Method,
    p: Seq<char>,
)
    ensures
        route_lookup(s.push(x), m, p) == match route_lookup(s, m, p) {
            Some(v) => Some(v),
            None => if x.0.method == m && x.0.path@ == p {
                Some(x.1)
            } else {
                None
            },
        },
    decreases s.len(),
{
    if s.len() == 0 {
        assert(s.push(x).drop_first() =~= Seq::<(RouteId, RouteProtection)>::empty());
        assert(s.push(x)[0] == x);
        assert(route_lookup(s.push(x).drop_first(), m, p) is None);
    } else {
        assert(s.push(x).drop_first() =~= s.drop_first().push(x));
        assert(s.push(x)[0] == s[0]);
        lemma_route_lookup_push(s.drop_first(), x, m, p);
        assert(route_lookup(s.push(x).drop_first(), m, p) == route_lookup(s.drop_first().push(x), m, p));
    }
}

fn copy_string_opt(o: &Option<String>) -> (r: Option<String>)
    ensures
        r == *o,
{
    match o {
        Some(s) => Some(s.clone()),
        None => None,
    }
}

fn copy_route(e: &(RouteId, RouteProtection)) -> (r: (RouteId, RouteProtection))
    ensures
        r == *e,
{
    (
        RouteId { method: e.0.method, path: e.0.path.clone() },
        RouteProtection { capability: copy_string_opt(&e.1.capability) },
    )
}

/// The routes with `(m, path)` protected by `capability`, every other route
/// as it was.
fn routes_with(entries: &Vec<(RouteId, RouteProtection)>, m: Method, path: &str, capability: &str) -> (r:
    Vec<(RouteId, RouteProtection)>)
    ensures
        routes_map(r@) =~= routes_map(entries@).insert((m, path@), Some(capability@)),
{
    let mut out: Vec<(RouteId, RouteProtection)> = Vec::new();
    let mut found = false;
    let mut i: usize = 0;
    while i < entries.len()
        invariant
            i <= entries@.len(),
            forall|m2: Method, p2: Seq<char>|
                !(m2 == m && p2 == path@) ==> #[trigger] route_lookup(out@, m2, p2) == route_lookup(
                    entries@.take(i as int),
                    m2,
                    p2,
                ),
            found == (route_lookup(entries@.take(i as int), m, path@) is Some),
            found ==> (route_lookup(out@, m, path@) matches Some(v) && v@ == Some(capability@)),
            !found ==> route_lookup(out@, m, path@) is None,
        decreases entries@.len() - i,
    {
        let ghost before = out@;
        let ghost e = entries@[i as int];
        let hit = entries[i].0.method == m && str_eq(entries[i].0.path.as_str(), path);
        let item = if hit {
            (
                RouteId { method: m, path: owned(path) },
                RouteProtection { capability: Some(owned(capability)) },
            )
        } else {
            copy_route(&entries[i])
        };
        out.push(item);
        proof {
            assert(entries@.take(i + 1) =~= entries@.take(i as int).push(e));
            assert forall|m2: Method, p2: Seq<char>|
                !(m2 == m && p2 == path@) implies #[trigger] route_lookup(out@, m2, p2)
                == route_lookup(entries@.take(i + 1), m2, p2) by {
                lemma_route_lookup_push(before, item, m2, p2);
                lemma_route_lookup_push(entries@.take(i as int), e, m2, p2);
            }
            lemma_route_lookup_push(before, item, m, path@);
            lemma_route_lookup_push(entries@.take(i as int), e, m, path@);
        }
        if hit {
            found = true;
        }
        i = i + 1;
    }
    assert(entries@.take(i as int) =~= entries@);
    if !found {
        let ghost before = out@;
        let item = (
            RouteId { method: m, path: owned(path) },
            RouteProtection { capability: Some(owned(capability)) },
        );
        out.push(item);
        proof {
            assert forall|m2: Method, p2: Seq<char>|
                !(m2 == m && p2 == path@) implies #[trigger] route_lookup(out@, m2, p2)
                == route_lookup(entries@, m2, p2) by {
                lemma_route_lookup_push(before, item, m2, p2);
            }
            lemma_route_lookup_push(before, item, m, path@);
        }
    }
    proof {
        assert forall|k: (Method, Seq<char>)|
            #[trigger] routes_map(out@).dom().contains(k) == routes_map(entries@).insert(
                (m, path@),
                Some(capability@),
            ).dom().contains(k) by {
            assert(route_lookup(out@, k.0, k.1) == route_lookup(out@, k.0, k.1));
        }
    }
    out
}

/// The routes with every entry for `(m, path)` removed, every other route as
/// it was.
fn routes_without(entries: &Vec<(RouteId, RouteProtection)>, m: Method, path: &str) -> (r: Vec<
    (RouteId, RouteProtection),
>)
    ensures
        routes_map(r@) =~= routes_map(entries@).remove((m, path@)),
{
    let mut out: Vec<(RouteId, RouteProtection)> = Vec::new();
    let mut i: usize = 0;
    while i < entries.len()
        invariant
            i <= entries@.len(),
            forall|m2: Method, p2: Seq<char>|
                !(m2 == m && p2 == path@) ==> #[trigger] route_lookup(out@, m2, p2) == route_lookup(
                    entries@.take(i as int),
                    m2,
                    p2,
                ),
            route_lookup(out@, m, path@) is None,
        decreases entries@.len() - i,
    {
        let ghost before = out@;
        let ghost e = entries@[i as int];
        let hit = entries[i].0.method == m && str_eq(entries[i].0.path.as_str(), path);
        proof {
            assert(entries@.take(i + 1) =~= entries@.take(i as int).push(e));
        }
        if !hit {
            let item = copy_route(&entries[i]);
            out.push(item);
            proof {
                assert forall|m2: Method, p2: Seq<char>|
                    !(m2 == m && p2 == path@) implies #[trigger] route_lookup(out@, m2, p2)
                    == route_lookup(entries@.take(i + 1), m2, p2) by {
                    lemma_route_lookup_push(before, item, m2, p2);
                    lemma_route_lookup_push(entries@.take(i as int), e, m2, p2);
                }
                lemma_route_lookup_push(before, item, m, path@);
            }
        } else {
            proof {
                assert forall|m2: Method, p2: Seq<char>|
                    !(m2 == m && p2 == path@) implies #[trigger] route_lookup(out@, m2, p2)
                    == route_lookup(entries@.take(i + 1), m2, p2) by {
                    lemma_route_lookup_push(entries@.take(i as int), e, m2, p2);
                }
            }
        }
        i = i + 1;
    }
    assert(entries@.take(i as int) =~= entries@);
    proof {
        assert forall|k: (Method, Seq<char>)|
            #[trigger] routes_map(out@).dom().contains(k) == routes_map(entries@).remove(
                (m, path@),
            ).dom().contains(k) by {
            assert(route_lookup(out@, k.0, k.1) == route_lookup(out@, k.0, k.1));
        }
    }
    out
}

fn copy_routes(entries: &Vec<(RouteId, RouteProtection)>) -> (r: Vec<(RouteId, RouteProtection)>)
    ensures
        r@ == entries@,
{
    let mut out: Vec<(RouteId, RouteProtection)> = Vec::new();
    let mut i: usize = 0;
    while i < entries.len()
        invariant
            i <= entries@.len(),
            out@ == entries@.take(i as int),
        decreases entries@.len() - i,
    {
        out.push(copy_route(&entries[i]));
        assert(entries@.take(i + 1) =~= entries@.take(i as int).push(entries@[i as int]));
        i = i + 1;
    }
    assert(entries@.take(i as int) =~= entries@);
    out
}

fn copy_policies(entries: &Vec<(String, Policy)>) -> (r: Vec<(String, Policy)>)
    ensures
        policies_map(r@) =~= policies_map(entries@),
{
    let mut out: Vec<(String, Policy)> = Vec::new();
    let mut i: usize = 0;
    while i < entries.len()
        invariant
            i <= entries@.len(),
            out@.len() == i,
            forall|j: int| 0 <= j < i ==> #[trigger] out@[j].0@ == entries@[j].0@ && out@[j].1@
                == entries@[j].1@,
        decreases entries@.len() - i,
    {
        out.push((entries[i].0.clone(), entries[i].1.clone()));
        i = i + 1;
    }
    proof {
        lemma_lookup_views(out@, entries@);
        assert forall|k: Seq<char>| #[trigger] policies_map(out@).dom().contains(k)
            == policies_map(entries@).dom().contains(k) by {
            assert(lookup(out@, k) is Some == lookup(entries@, k) is Some);
        }
    }
    out
}

fn copy_providers(entries: &Vec<(String, ProviderState)>) -> (r: Vec<(String, ProviderState)>)
    ensures
        r@ == entries@,
{
    let mut out: Vec<(String, ProviderState)> = Vec::new();
    let mut i: usize = 0;
    while i < entries.len()
        invariant
            i <= entries@.len(),
            out@ == entries@.take(i as int),
        decreases entries@.len() - i,
    {
        out.push((entries[i].0.clone(), entries[i].1));
        assert(entries@.take(i + 1) =~= entries@.take(i as int).push(entries@[i as int]));
        i = i + 1;
    }
    assert(entries@.take(i as int) =~= entries@);
    out
}

impl LiveAuthorityState {
    /// Nothing protected, no policies overridden, no provider toggled,
    /// revision 0.
    pub fn new() -> (r: Self)
        ensures
            r@.tables.routes == Map::<(Method, Seq<char>), Option<Seq<char>>>::empty(),
            r@.tables.policies == Map::<Seq<char>, PolicyView>::empty(),
            r@.tables.providers == Map::<Seq<char>, bool>::empty(),
            r@.revision == 0,
            r.route_protection@.len() == 0,
            r.capability_policies@.len() == 0,
            r.provider_state@.len() == 0,
    {
        let r = LiveAuthorityState {
            route_protection: Vec::new(),
            capability_policies: Vec::new(),
            provider_state: Vec::new(),
            revision: 0,
        };
        assert(r@.tables.routes =~= Map::<(Method, Seq<char>), Option<Seq<char>>>::empty());
        assert(r@.tables.policies =~= Map::<Seq<char>, PolicyView>::empty());
        assert(r@.tables.providers =~= Map::<Seq<char>, bool>::empty());
        r
    }

    /// The revision the next state carries.
    fn next_revision(&self) -> (r: u64)
        requires
            self.revision < u64::MAX,
        ensures
            r == self.revision + 1,
    {
        self.revision + 1
    }

    /// An independent copy with the same tables and revision.
    pub fn duplicate(&self) -> (r: Self)
        ensures
            r@ == self@,
    {
        let r = LiveAuthorityState {
            route_protection: copy_routes(&self.route_protection),
            capability_policies: copy_policies(&self.capability_policies),
            provider_state: copy_providers(&self.provider_state),
            revision: self.revision,
        };
        assert(r@.tables.routes =~= self@.tables.routes);
        assert(r@.tables.providers =~= self@.tables.providers);
        r
    }
}

impl Default for LiveAuthorityState {
    fn default() -> (r: Self)
        ensures
            r@.tables.routes == Map::<(Method, Seq<char>), Option<Seq<char>>>::empty(),
            r@.tables.policies == Map::<Seq<char>, PolicyView>::empty(),
            r@.tables.providers == Map::<Seq<char>, bool>::empty(),
            r@.revision == 0,
    {
        Self::new()
    }
}

/// Mutations to live authority state.
#[derive(Debug, PartialEq, Eq)]
pub enum AuthorityChange {
    /// Add or update route protection.
    ProtectRoute { method: Method, path: String, capability: String },
    /// Remove route protection.
    UnprotectRoute { method: Method, path: String },
    /// Set policy for a capability.
    SetCapabilityPolicy { capability: String, policy: Policy },
    /// Enable or disable a provider.
    SetProviderEnabled { provider: String, enabled: bool },
    /// Revert a previously applied change.
    Revert { change_id: String },
}

/// A change as plain values.
pub enum ChangeView {
    ProtectRoute(Method, Seq<char>, Seq<char>),
    UnprotectRoute(Method, Seq<char>),
    SetCapabilityPolicy(Seq<char>, PolicyView),
    SetProviderEnabled(Seq<char>, bool),
    Revert(Seq<char>),
}

impl View for AuthorityChange {
    type V = ChangeView;

    open spec fn view(&self) -> ChangeView {
        match *self {
            AuthorityChange::ProtectRoute { method, path, capability } => ChangeView::ProtectRoute(
                method,
                path@,
                capability@,
            ),
            AuthorityChange::UnprotectRoute { method, path } => ChangeView::UnprotectRoute(
                method,
                path@,
            ),
            AuthorityChange::SetCapabilityPolicy { capability, policy } =>
                ChangeView::SetCapabilityPolicy(capability@, policy@),
            AuthorityChange::SetProviderEnabled { provider, enabled } =>
                ChangeView::SetProviderEnabled(provider@, enabled),
            AuthorityChange::Revert { change_id } => ChangeView::Revert(change_id@),
        }
    }
}

impl Clone for AuthorityChange {
    fn clone(&self) -> (r: Self)
        ensures
            r@ == self@,
    {
        match self {
            AuthorityChange::ProtectRoute { method, path, capability } => AuthorityChange::ProtectRoute {
                method: *method,
                path: path.clone(),
                capability: capability.clone(),
            },
            AuthorityChange::UnprotectRoute { method, path } => AuthorityChange::UnprotectRoute {
                method: *method,
                path: path.clone(),
            },
            AuthorityChange::SetCapabilityPolicy { capability, policy } =>
                AuthorityChange::SetCapabilityPolicy {
                capability: capability.clone(),
                policy: policy.clone(),
            },
            AuthorityChange::SetProviderEnabled { provider, enabled } =>
                AuthorityChange::SetProviderEnabled { provider: provider.clone(), enabled: *enabled },
            AuthorityChange::Revert { change_id } => AuthorityChange::Revert {
                change_id: change_id.clone(),
            },
        }
    }
}

pub open spec fn change_type_name(c: ChangeView) -> Seq<char> {
    match c {
        ChangeView::ProtectRoute(..) => "protect_route"@,
        ChangeView::UnprotectRoute(..) => "unprotect_route"@,
        ChangeView::SetCapabilityPolicy(..) => "set_capability_policy"@,
        ChangeView::SetProviderEnabled(..) => "set_provider_enabled"@,
        ChangeView::Revert(..) => "revert"@,
    }
}

impl AuthorityChange {
    pub fn change_type(&self) -> (r: &'static str)
        ensures
            r@ == change_type_name(self@),
    {
        match self {
            AuthorityChange::ProtectRoute { .. } => "protect_route",
            AuthorityChange::UnprotectRoute { .. } => "unprotect_route",
            AuthorityChange::SetCapabilityPolicy { .. } => "set_capability_policy",
            AuthorityChange::SetProviderEnabled { .. } => "set_provider_enabled",
            AuthorityChange::Revert { .. } => "revert",
        }
    }
}

/// The tables after a change: the one entry it names is set or removed, and
/// every other entry stays. A revert names no entry of its own.
pub open spec fn changed_tables(t: TablesView, c: ChangeView) -> TablesView {
    match c {
        ChangeView::ProtectRoute(m, p, cap) => TablesView {
            routes: t.routes.insert((m, p), Some(cap)),
            ..t
        },
        ChangeView::UnprotectRoute(m, p) => TablesView { routes: t.routes.remove((m, p)), ..t },
        ChangeView::SetCapabilityPolicy(cap, pol) => TablesView {
            policies: t.policies.insert(cap, pol),
            ..t
        },
        ChangeView::SetProviderEnabled(name, enabled) => TablesView {
            providers: t.providers.insert(name, enabled),
            ..t
        },
        ChangeView::Revert(_) => t,
    }
}

/// Snapshot of the authority tables for display.
#[derive(Debug)]
pub struct PreviewState {
    pub route_protection: Vec<(RouteId, RouteProtection)>,
    pub capability_policies: Vec<(String, Policy)>,
    pub provider_state: Vec<(String, ProviderState)>,
}

impl View for PreviewState {
    type V = TablesView;

    open spec fn view(&self) -> TablesView {
        tables_of(self.route_protection@, self.capability_policies@, self.provider_state@)
    }
}

impl PreviewState {
    /// The tables of `state`, without its revision.
    pub fn from(state: &LiveAuthorityState) -> (r: Self)
        ensures
            r@ == state@.tables,
    {
        let r = PreviewState {
            route_protection: copy_routes(&state.route_protection),
            capability_policies: copy_policies(&state.capability_policies),
            provider_state: copy_providers(&state.provider_state),
        };
        assert(r@.routes =~= state@.tables.routes);
        assert(r@.providers =~= state@.tables.providers);
        r
    }

    /// An independent copy with the same tables.
    pub fn duplicate(&self) -> (r: Self)
        ensures
            r@ == self@,
    {
        let r = PreviewState {
            route_protection: copy_routes(&self.route_protection),
            capability_policies: copy_policies(&self.capability_policies),
            provider_state: copy_providers(&self.provider_state),
        };
        assert(r@.routes =~= self@.routes);
        assert(r@.providers =~= self@.providers);
        r
    }
}

/// Preview of what would change.
#[derive(Debug)]
pub struct Preview {
    pub before: PreviewState,
    pub after: PreviewState,
}

impl Preview {
    /// An independent copy of both snapshots.
    pub fn duplicate(&self) -> (r: Self)
        ensures
            r.before@ == self.before@,
            r.after@ == self.after@,
    {
        Preview { before: self.before.duplicate(), after: self.after.duplicate() }
    }
}

/// Proposed change with its preview.
#[derive(Debug)]
pub struct ChangeProposal {
    pub id: String,
    pub change: AuthorityChange,
    pub preview: Preview,
    pub revision: u64,
}

/// Result of applying a change: `applied_at` in seconds since the Unix epoch.
#[derive(Debug, Clone, PartialEq, Eq)]
pub struct ApplyOutcome {
    pub change_id: String,
    pub applied_at: i64,
    pub new_revision: u64,
}

/// The canonical text of a change, which approval tokens are derived from:
/// the variant's name and each field, one per line.
pub open spec fn change_text(c: ChangeView) -> Seq<char> {
    match c {
        ChangeView::ProtectRoute(m, p, cap) => "ProtectRoute\n"@ + method_name(m) + "\n"@ + p
            + "\n"@ + cap,
        ChangeView::UnprotectRoute(m, p) => "UnprotectRoute\n"@ + method_name(m) + "\n"@ + p,
        ChangeView::SetCapabilityPolicy(cap, pol) => "SetCapabilityPolicy\n"@ + cap + "\n"@
            + policy_text(pol),
        ChangeView::SetProviderEnabled(name, enabled) => "SetProviderEnabled\n"@ + name + "\n"@
            + bool_text(enabled),
        ChangeView::Revert(id) => "Revert\n"@ + id,
    }
}

/// The approval token of a change: a stable fingerprint of its canonical
/// text. The same change always gets the same token.
pub open spec fn approval_token(c: ChangeView) -> Seq<char> {
    "dev-approval-"@ + decimal(fnv1a(utf8(change_text(c))) as nat)
}

fn change_text_exec(c: &AuthorityChange) -> (r: String)
    ensures
        r@ == change_text(c@),
{
    match c {
        AuthorityChange::ProtectRoute { method, path, capability } => {
            let mut out = owned("ProtectRoute\n");
            out.append(method.as_str());
            out.append("\n");
            out.append(path.as_str());
            out.append("\n");
            out.append(capability.as_str());
            out
        },
        AuthorityChange::UnprotectRoute { method, path } => {
            let mut out = owned("UnprotectRoute\n");
            out.append(method.as_str());
            out.append("\n");
            out.append(path.as_str());
            out
        },
        AuthorityChange::SetCapabilityPolicy { capability, policy } => {
            let mut out = owned("SetCapabilityPolicy\n");
            out.append(capability.as_str());
            out.append("\n");
            let t = policy.canonical_text();
            out.append(t.as_str());
            out
        },
        AuthorityChange::SetProviderEnabled { provider, enabled } => {
            let mut out = owned("SetProviderEnabled\n");
            out.append(provider.as_str());
            out.append("\n");
            out.append(bool_str(*enabled));
            out
        },
        AuthorityChange::Revert { change_id } => cat("Revert\n", change_id.as_str()),
    }
}

/// Explicit approval for a change: a development token, not a signature.
#[derive(Debug, Clone, PartialEq, Eq)]
pub struct Approval {
    pub token: String,
}

impl Approval {
    /// The approval token for the proposal's change.
    pub fn for_proposal(proposal: &ChangeProposal) -> (r: Self)
        ensures
            r.token@ == approval_token(proposal.change@),
    {
        let text = change_text_exec(&proposal.change);
        let mut bytes: Vec<u8> = Vec::new();
        push_utf8(&mut bytes, text.as_str());
        let h = stable_hash(bytes.as_slice());
        let digits = u64_decimal(h);
        Approval { token: cat("dev-approval-", digits.as_str()) }
    }

    /// Whether this approval was made for the proposal's change.
    pub fn verify(&self, proposal: &ChangeProposal) -> (r: bool)
        ensures
            r == (self.token@ == approval_token(proposal.change@)),
    {
        let expected = Approval::for_proposal(proposal);
        str_eq(self.token.as_str(), expected.token.as_str())
    }
}

/// Apply a change to authority state: a new state, the given one untouched.
/// A revert cannot be applied here: it needs the record of the change it
/// undoes.
pub fn apply_change(current: &LiveAuthorityState, change: &AuthorityChange) -> (r: Result<
    LiveAuthorityState,
    String,
>)
    requires
        current.revision < u64::MAX,
    ensures
        r is Err <==> change@ is Revert,
        r matches Err(e) ==> e@ == "revert requires an applied change record"@,
        r matches Ok(next) ==> next@ == applied(current@, change@),
{
    let revision = current.next_revision();
    match change {
        AuthorityChange::ProtectRoute { method, path, capability } => {
            let next = LiveAuthorityState {
                route_protection: routes_with(
                    &current.route_protection,
                    *method,
                    path.as_str(),
                    capability.as_str(),
                ),
                capability_policies: copy_policies(&current.capability_policies),
                provider_state: copy_providers(&current.provider_state),
                revision,
            };
            assert(next@.tables.providers =~= current@.tables.providers);
            Ok(next)
        },
        AuthorityChange::UnprotectRoute { method, path } => {
            let next = LiveAuthorityState {
                route_protection: routes_without(&current.route_protection, *method, path.as_str()),
                capability_policies: copy_policies(&current.capability_policies),
                provider_state: copy_providers(&current.provider_state),
                revision,
            };
            assert(next@.tables.providers =~= current@.tables.providers);
            Ok(next)
        },
        AuthorityChange::SetCapabilityPolicy { capability, policy } => {
            let mut policies = copy_policies(&current.capability_policies);
            let ghost before = policies@;
            let p = policy.clone();
            set_entry(&mut policies, capability.clone(), p);
            let next = LiveAuthorityState {
                route_protection: copy_routes(&current.route_protection),
                capability_policies: policies,
                provider_state: copy_providers(&current.provider_state),
                revision,
            };
            proof {
                assert forall|k: Seq<char>| #[trigger] policies_map(next.capability_policies@).dom().contains(
                    k,
                ) == policies_map(before).insert(capability@, policy@).dom().contains(k) by {
                    assert(lookup(next.capability_policies@, k) == lookup(
                        next.capability_policies@,
                        k,
                    ));
                }
                assert(policies_map(next.capability_policies@) =~= policies_map(before).insert(
                    capability@,
                    policy@,
                ));
            }
            assert(next@.tables.routes =~= current@.tables.routes);
            assert(next@.tables.providers =~= current@.tables.providers);
            Ok(next)
        },
        AuthorityChange::SetProviderEnabled { provider, enabled } => {
            let mut providers = copy_providers(&current.provider_state);
            set_entry(&mut providers, provider.clone(), ProviderState { enabled: *enabled });
            let next = LiveAuthorityState {
                route_protection: copy_routes(&current.route_protection),
                capability_policies: copy_policies(&current.capability_policies),
                provider_state: providers,
                revision,
            };
            proof {
                assert forall|k: Seq<char>| #[trigger] providers_map(next.provider_state@).dom().contains(k)
                    == current@.tables.providers.insert(provider@, *enabled).dom().contains(k) by {
                    assert(lookup(next.provider_state@, k) == lookup(next.provider_state@, k));
                }
                assert(providers_map(next.provider_state@) =~= current@.tables.providers.insert(
                    provider@,
                    *enabled,
                ));
            }
            assert(next@.tables.routes =~= current@.tables.routes);
            Ok(next)
        },
        AuthorityChange::Revert { .. } => Err(owned("revert requires an applied change record")),
    }
}

/// The state a revert yields: the tables as they were before the recorded
/// change, at the revision after the current one.
pub open spec fn reverted(current_revision: u64, previous: AuthorityView) -> AuthorityView {
    AuthorityView { tables: previous.tables, revision: (current_revision + 1) as u64 }
}

/// The state applying a change yields: its entry set or removed, at the next
/// revision.
pub open spec fn applied(current: AuthorityView, c: ChangeView) -> AuthorityView {
    AuthorityView { tables: changed_tables(current.tables, c), revision: (current.revision + 1) as u64 }
}

/// Protecting a route and then unprotecting it leaves every other route,
/// every policy and every provider as they were, and the route unprotected.
pub proof fn lemma_protect_then_unprotect(t: TablesView, m: Method, p: Seq<char>, cap: Seq<char>)
    ensures
        changed_tables(
            changed_tables(t, ChangeView::ProtectRoute(m, p, cap)),
            ChangeView::UnprotectRoute(m, p),
        ) == (TablesView { routes: t.routes.remove((m, p)), ..t }),
{
    assert(t.routes.insert((m, p), Some(cap)).remove((m, p)) =~= t.routes.remove((m, p)));
}

/// Applying a change and then reverting its record, made from the state the
/// change was applied to, restores that state's tables, two revisions on.
pub proof fn lemma_apply_then_revert(s: AuthorityView, c: ChangeView)
    requires
        s.revision + 2 <= u64::MAX,
    ensures
        reverted(applied(s, c).revision, s).tables == s.tables,
        reverted(applied(s, c).revision, s).revision == s.revision + 2,
{
}

/// Setting a capability's policy, or a provider's state, twice keeps only
/// the second; the route table is untouched by either.
pub proof fn lemma_last_setting_wins(t: TablesView, c1: ChangeView, c2: ChangeView)
    requires
        (c1 matches ChangeView::SetCapabilityPolicy(k1, _) && c2 matches ChangeView::SetCapabilityPolicy(k2, _) && k1 == k2)
        || (c1 matches ChangeView::SetProviderEnabled(k1, _) && c2 matches ChangeView::SetProviderEnabled(k2, _) && k1 == k2),
    ensures
        changed_tables(changed_tables(t, c1), c2) == changed_tables(t, c2),
{
    match (c1, c2) {
        (ChangeView::SetCapabilityPolicy(k, p1), ChangeView::SetCapabilityPolicy(_, p2)) => {
            assert(t.policies.insert(k, p1).insert(k, p2) =~= t.policies.insert(k, p2));
        },
        (ChangeView::SetProviderEnabled(k, e1), ChangeView::SetProviderEnabled(_, e2)) => {
            assert(t.providers.insert(k, e1).insert(k, e2) =~= t.providers.insert(k, e2));
        },
        _ => {},
    }
}

/// Revert to the state a change record was made from: its tables, with the
/// revision advanced past the current one. Refused when the record is not the
/// one named, or when the current state is older than the state the change
/// produced.
pub fn apply_revert_change(current: &LiveAuthorityState, change_id: &str, record: &ChangeRecord) -> (r:
    Result<LiveAuthorityState, String>)
    requires
        record.change_id@ == change_id@ && current.revision >= record.resulting_state.revision
            ==> current.revision < u64::MAX,
    ensures
        record.change_id@ != change_id@ ==> (r matches Err(e) && e@
            == "revert change id does not match the stored record"@),
        record.change_id@ == change_id@ && current.revision < record.resulting_state.revision
            ==> (r matches Err(e) && e@ == "cannot revert against an older authority state"@),
        record.change_id@ == change_id@ && current.revision >= record.resulting_state.revision
            ==> (r matches Ok(next) && next@ == reverted(current.revision, record.previous_state@)),
{
    if !str_eq(record.change_id.as_str(), change_id) {
        return Err(owned("revert change id does not match the stored record"));
    }
    if current.revision < record.resulting_state.revision {
        return Err(owned("cannot revert against an older authority state"));
    }
    let mut next = record.previous_state.duplicate();
    next.revision = current.next_revision();
    Ok(next)
}

} // verus!

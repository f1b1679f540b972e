//! The connector registry: the connectors `providers = [...]` names,
//! resolved to instances. Authentication goes through the registry, never
//! through a fixed list of providers.
use vstd::prelude::*;
use crate::text::{owned, str_eq, str_le, seq_le, views};
use crate::sorting::{Ordered, insertion_sort, isort_by, le_of, views_of};
use crate::dsl::model::{AuthConfig, PasswordPolicy};
use super::catalog::{catalog_lookup, describe, described, lookup};
use super::connector::{
    AuthChallenge, AuthConnector, AuthRequest, AuthResponse, ConnectorError, ConnectorErrorView,
    ConnectorMetadata, ConnectorStatus, ExternalIdentity, MetadataView,
};
use super::declared::DeclaredConnector;
use super::local::{AccountView, LocalConnector, authenticate_outcome, begin_outcome, password_operation};

verus! {

/// A connector instance: the local directory, or one that is declared but
/// not implemented.
pub enum Connector {
    Local(LocalConnector),
    Declared(DeclaredConnector),
}

pub enum ConnectorView {
    Local(Seq<AccountView>),
    Declared(MetadataView),
}

impl View for Connector {
    type V = ConnectorView;

    open spec fn view(&self) -> ConnectorView {
        match self {
            Connector::Local(c) => ConnectorView::Local(c@),
            Connector::Declared(c) => ConnectorView::Declared(c@),
        }
    }
}

pub open spec fn connector_id(c: ConnectorView) -> Seq<char> {
    match c {
        ConnectorView::Local(_) => "local"@,
        ConnectorView::Declared(m) => m.id,
    }
}

pub open spec fn connector_metadata(c: ConnectorView) -> MetadataView {
    match c {
        ConnectorView::Local(_) => described("local"@),
        ConnectorView::Declared(m) => m,
    }
}

impl AuthConnector for Connector {
    fn id(&self) -> (r: &str)
        ensures
            r@ == connector_id(self@),
    {
        match self {
            Connector::Local(c) => c.id(),
            Connector::Declared(c) => c.id(),
        }
    }

    fn metadata(&self) -> (r: ConnectorMetadata)
        ensures
            r@ == connector_metadata(self@),
    {
        match self {
            Connector::Local(c) => c.metadata(),
            Connector::Declared(c) => c.metadata(),
        }
    }

    fn begin(&self, request: &AuthRequest) -> (r: Result<AuthChallenge, ConnectorError>)
        ensures
            match self@ {
                ConnectorView::Local(_) => begin_outcome(r, *request),
                ConnectorView::Declared(m) => r matches Err(e) && e@ == ConnectorErrorView::Unsupported(m.id),
            },
    {
        match self {
            Connector::Local(c) => c.begin(request),
            Connector::Declared(c) => c.begin(request),
        }
    }

    fn authenticate(&self, response: &AuthResponse) -> (r: Result<ExternalIdentity, ConnectorError>)
        ensures
            match self@ {
                ConnectorView::Local(a) => authenticate_outcome(r, a, *response),
                ConnectorView::Declared(m) => r matches Err(e) && e@ == ConnectorErrorView::Unsupported(m.id),
            },
    {
        match self {
            Connector::Local(c) => c.authenticate(response),
            Connector::Declared(c) => c.authenticate(response),
        }
    }

    fn supports_password_management(&self) -> (r: bool)
        ensures
            r == (self@ is Local),
    {
        match self {
            Connector::Local(c) => c.supports_password_management(),
            Connector::Declared(c) => c.supports_password_management(),
        }
    }

    fn change_password(
        &mut self,
        tenant_id: &str,
        username: &str,
        current_password: &str,
        new_password: &str,
        policy: &PasswordPolicy,
        now: i64,
    ) -> (r: Result<(), ConnectorError>)
        ensures
            match old(self)@ {
                ConnectorView::Local(before) => final(self)@ matches ConnectorView::Local(after) && password_operation(
                    before,
                    after,
                    r,
                    username@,
                    Some(current_password@),
                    new_password@,
                    policy.password_history_count as nat,
                    now,
                    false,
                ),
                ConnectorView::Declared(m) => (r matches Err(e) && e@ == ConnectorErrorView::Unsupported(m.id))
                    && final(self)@ == old(self)@,
            },
    {
        match self {
            Connector::Local(c) => c.change_password(tenant_id, username, current_password, new_password, policy, now),
            Connector::Declared(c) => c.change_password(tenant_id, username, current_password, new_password, policy, now),
        }
    }

    fn reset_password(
        &mut self,
        tenant_id: &str,
        username: &str,
        new_password: &str,
        policy: &PasswordPolicy,
        now: i64,
    ) -> (r: Result<(), ConnectorError>)
        ensures
            match old(self)@ {
                ConnectorView::Local(before) => final(self)@ matches ConnectorView::Local(after) && password_operation(
                    before,
                    after,
                    r,
                    username@,
                    None,
                    new_password@,
                    policy.password_history_count as nat,
                    now,
                    false,
                ),
                ConnectorView::Declared(m) => (r matches Err(e) && e@ == ConnectorErrorView::Unsupported(m.id))
                    && final(self)@ == old(self)@,
            },
    {
        match self {
            Connector::Local(c) => c.reset_password(tenant_id, username, new_password, policy, now),
            Connector::Declared(c) => c.reset_password(tenant_id, username, new_password, policy, now),
        }
    }
}

impl Ordered for ConnectorMetadata {
    /// By identifier.
    open spec fn spec_le(a: MetadataView, b: MetadataView) -> bool {
        seq_le(a.id, b.id)
    }

    fn le(&self, other: &Self) -> (r: bool) {
        str_le(self.id.as_str(), other.id.as_str())
    }
}

pub open spec fn ids_of(s: Seq<ConnectorView>) -> Seq<Seq<char>> {
    s.map_values(|c: ConnectorView| connector_id(c))
}

/// No identifier occurs twice.
pub open spec fn distinct_ids(s: Seq<Seq<char>>) -> bool {
    forall|i: int, j: int| 0 <= i < j < s.len() ==> s[i] != s[j]
}

/// The connector in `s` with identifier `id` (meaningful when there is one).
pub open spec fn connector_with(s: Seq<ConnectorView>, id: Seq<char>) -> ConnectorView {
    s[choose|i: int| 0 <= i < s.len() && connector_id(#[trigger] s[i]) == id]
}

/// Connectors by identifier, each at most once.
pub struct ConnectorRegistry {
    connectors: Vec<Connector>,
}

impl View for ConnectorRegistry {
    type V = Seq<ConnectorView>;

    closed spec fn view(&self) -> Seq<ConnectorView> {
        views_of(self.connectors@)
    }
}

fn find_id(v: &Vec<Connector>, id: &str) -> (r: Option<usize>)
    ensures
        match r {
            Some(i) => i < v@.len() && connector_id(v@[i as int]@) == id@ && forall|j: int|
                0 <= j < i ==> connector_id(#[trigger] v@[j]@) != id@,
            None => !ids_of(views_of(v@)).contains(id@),
        },
{
    let mut i: usize = 0;
    while i < v.len()
        invariant
            i <= v@.len(),
            forall|j: int| 0 <= j < i ==> connector_id(#[trigger] v@[j]@) != id@,
        decreases v@.len() - i,
    {
        if str_eq(v[i].id(), id) {
            return Some(i);
        }
        i = i + 1;
    }
    proof {
        if ids_of(views_of(v@)).contains(id@) {
            let k = choose|k: int| 0 <= k < ids_of(views_of(v@)).len() && ids_of(views_of(v@))[k] == id@;
            assert(connector_id(v@[k]@) != id@);
        }
    }
    None
}

proof fn lemma_first_is_chosen(s: Seq<ConnectorView>, id: Seq<char>, i: int)
    requires
        distinct_ids(ids_of(s)),
        0 <= i < s.len(),
        connector_id(s[i]) == id,
    ensures
        connector_with(s, id) == s[i],
        (choose|k: int| 0 <= k < s.len() && connector_id(#[trigger] s[k]) == id) == i,
{
    let k = choose|k: int| 0 <= k < s.len() && connector_id(#[trigger] s[k]) == id;
    assert(0 <= k < s.len() && connector_id(s[k]) == id);
    if k != i {
        if k < i {
            assert(ids_of(s)[k] != ids_of(s)[i]);
        } else {
            assert(ids_of(s)[i] != ids_of(s)[k]);
        }
    }
}

impl ConnectorRegistry {
    #[verifier::type_invariant]
    spec fn wf(&self) -> bool {
        distinct_ids(ids_of(views_of(self.connectors@)))
    }

    pub fn new() -> (r: Self)
        ensures
            r@.len() == 0,
    {
        let r = ConnectorRegistry { connectors: Vec::new() };
        assert(ids_of(views_of(r.connectors@)) =~= Seq::<Seq<char>>::empty());
        r
    }

    /// Adds a connector; one whose identifier is taken is refused.
    pub fn register(&mut self, connector: Connector) -> (r: Result<(), ConnectorError>)
        ensures
            ids_of(old(self)@).contains(connector_id(connector@)) ==> (r matches Err(e) && e@
                == ConnectorErrorView::DuplicateConnector(connector_id(connector@))) && final(self)@ == old(self)@,
            !ids_of(old(self)@).contains(connector_id(connector@)) ==> r is Ok && final(self)@ == old(self)@.push(
                connector@,
            ),
    {
        proof {
            use_type_invariant(&*self);
        }
        let id = owned(connector.id());
        match find_id(&self.connectors, id.as_str()) {
            Some(i) => {
                assert(ids_of(self@)[i as int] == id@);
                Err(ConnectorError::DuplicateConnector { connector: id })
            },
            None => {
                let ghost before = self@;
                let ghost cv = connector@;
                let mut cs: Vec<Connector> = Vec::new();
                std::mem::swap(&mut cs, &mut self.connectors);
                cs.push(connector);
                proof {
                    assert(views_of(cs@) =~= before.push(cv));
                    assert(ids_of(before.push(cv)) =~= ids_of(before).push(connector_id(cv)));
                    assert forall|p: int, q: int| 0 <= p < q < ids_of(views_of(cs@)).len() implies ids_of(
                        views_of(cs@),
                    )[p] != ids_of(views_of(cs@))[q] by {
                        if q == before.len() {
                            assert(ids_of(before)[p] != connector_id(cv)) by {
                                if ids_of(before)[p] == connector_id(cv) {
                                    assert(ids_of(before).contains(connector_id(cv)));
                                }
                            }
                        } else {
                            assert(ids_of(before)[p] != ids_of(before)[q]);
                        }
                    }
                }
                self.connectors = cs;
                Ok(())
            },
        }
    }

    /// The registry the contract asks for, with the built-in connector for
    /// every declared provider.
    pub fn from_config(config: &AuthConfig) -> (r: Result<Self, ConnectorError>)
        ensures
            registry_built(r, config@.providers, Seq::empty()),
    {
        let none: Vec<Connector> = Vec::new();
        assert(views_of(none@) =~= Seq::<ConnectorView>::empty());
        Self::from_config_with(config, none)
    }

    /// The same, with instances the application supplies (such as a local
    /// directory with accounts); an instance for a connector the contract
    /// does not declare is refused.
    pub fn from_config_with(config: &AuthConfig, overrides: Vec<Connector>) -> (r: Result<Self, ConnectorError>)
        ensures
            registry_built(r, config@.providers, views_of(overrides@)),
    {
        let ghost ov = views_of(overrides@);
        let ghost declared = config@.providers;
        let mut i: usize = 0;
        while i < overrides.len()
            invariant
                i <= overrides@.len(),
                ov == views_of(overrides@),
                declared == config@.providers,
                override_error(declared, ids_of(ov).take(i as int)) is None,
                distinct_ids(ids_of(ov).take(i as int)),
            decreases overrides@.len() - i,
        {
            let id = overrides[i].id();
            proof {
                let t = ids_of(ov).take(i + 1);
                assert(t.drop_last() =~= ids_of(ov).take(i as int));
                assert(t.last() == id@);
            }
            if !config.declares_provider(id) {
                proof {
                    let t = ids_of(ov).take(i + 1);
                    assert(t.drop_last() =~= ids_of(ov).take(i as int));
                    lemma_override_prefix(declared, ids_of(ov), i + 1);
                }
                return Err(ConnectorError::NotDeclared { connector: owned(id) });
            }
            let mut j: usize = 0;
            while j < i
                invariant
                    j <= i,
                    i < overrides@.len(),
                    ov == views_of(overrides@),
                    declared == config@.providers,
                    override_error(declared, ids_of(ov).take(i as int)) is None,
                    declared.contains(id@),
                    ids_of(ov)[i as int] == id@,
                    forall|k: int| 0 <= k < j ==> ids_of(ov)[k] != id@,
                decreases i - j,
            {
                if str_eq(overrides[j].id(), id) {
                    proof {
                        assert(ids_of(ov).take(i as int)[j as int] == id@);
                        let t = ids_of(ov).take(i + 1);
                        assert(t.drop_last() =~= ids_of(ov).take(i as int));
                        assert(t.last() == id@);
                        assert(t.drop_last().contains(id@));
                        lemma_override_prefix(declared, ids_of(ov), i + 1);
                    }
                    return Err(ConnectorError::DuplicateConnector { connector: owned(id) });
                }
                j = j + 1;
            }
            proof {
                assert(!ids_of(ov).take(i as int).contains(id@)) by {
                    if ids_of(ov).take(i as int).contains(id@) {
                        let k = choose|k: int| 0 <= k < i && ids_of(ov).take(i as int)[k] == id@;
                        assert(ids_of(ov)[k] == id@);
                    }
                }
                let t = ids_of(ov).take(i + 1);
                assert forall|p: int, q: int| 0 <= p < q < t.len() implies t[p] != t[q] by {
                    if q == i {
                        assert(ids_of(ov)[p] != id@);
                    } else {
                        assert(ids_of(ov).take(i as int)[p] != ids_of(ov).take(i as int)[q]);
                    }
                }
            }
            i = i + 1;
        }
        assert(ids_of(ov).take(i as int) =~= ids_of(ov));
        let mut supplied = overrides;
        let mut registry = ConnectorRegistry::new();
        assert(registry@ =~= Seq::<ConnectorView>::empty());
        let mut n: usize = 0;
        while n < config.providers.len()
            invariant
                n <= config.providers@.len(),
                declared == config@.providers,
                declared.len() == config.providers@.len(),
                forall|k: int| 0 <= k < declared.len() ==> #[trigger] declared[k] == config.providers@[k]@,
                override_error(declared, ids_of(ov)) is None,
                ov == views_of(overrides@),
                assemble(declared, ov, n as int) == Ok::<(Seq<ConnectorView>, Seq<ConnectorView>), ConnectorErrorView>((registry@, views_of(supplied@))),
                distinct_ids(ids_of(views_of(supplied@))),
            decreases config.providers@.len() - n,
        {
            let provider = &config.providers[n];
            let ghost sv = views_of(supplied@);
            let ghost reg = registry@;
            let ghost p = provider@;
            assert(declared[n as int] == p);
            let chosen: Connector = match find_id(&supplied, provider.as_str()) {
                Some(k) => {
                    proof {
                        lemma_first_is_chosen(sv, p, k as int);
                        assert(ids_of(sv)[k as int] == p);
                        assert(ids_of(sv).contains(p));
                    }
                    let c = supplied.remove(k);
                    proof {
                        assert(views_of(supplied@) =~= sv.remove(k as int));
                        assert(ids_of(sv.remove(k as int)) =~= ids_of(sv).remove(k as int));
                        let t = ids_of(sv).remove(k as int);
                        assert forall|x: int, y: int| 0 <= x < y < t.len() implies t[x] != t[y] by {
                            if y < k {
                                assert(ids_of(sv)[x] != ids_of(sv)[y]);
                            } else if x < k {
                                assert(ids_of(sv)[x] != ids_of(sv)[y + 1]);
                            } else {
                                assert(ids_of(sv)[x + 1] != ids_of(sv)[y + 1]);
                            }
                        }
                        assert(c@ == sv[k as int]);
                        assert(pick(sv, p) == Ok::<(ConnectorView, Seq<ConnectorView>), ConnectorErrorView>((c@, views_of(supplied@))));
                    }
                    c
                },
                None => {
                    match lookup(provider.as_str()) {
                        None => {
                            proof {
                                assert(pick(sv, p) == Err::<(ConnectorView, Seq<ConnectorView>), ConnectorErrorView>(ConnectorErrorView::UnknownConnector(p)));
                                assert(assemble(declared, ov, n + 1) == step(reg, sv, p));
                                assert(assemble(declared, ov, n + 1) == Err::<(Seq<ConnectorView>, Seq<ConnectorView>), ConnectorErrorView>(ConnectorErrorView::UnknownConnector(p)));
                                lemma_assemble_err(declared, ov, n + 1, declared.len() as int);
                            }
                            let e = ConnectorError::UnknownConnector { connector: provider.clone() };
                            assert(e@ == ConnectorErrorView::UnknownConnector(p));
                            return Err(e);
                        },
                        Some(m) => {
                            assert(!ids_of(sv).contains(p));
                            if m.status == ConnectorStatus::Supported && str_eq(m.id.as_str(), "local") {
                                let l = LocalConnector::new();
                                assert(l@ =~= Seq::<AccountView>::empty());
                                let c = Connector::Local(l);
                                assert(pick(sv, p) == Ok::<(ConnectorView, Seq<ConnectorView>), ConnectorErrorView>((c@, views_of(supplied@))));
                                c
                            } else {
                                let c = Connector::Declared(DeclaredConnector::new(provider.as_str()));
                                assert(pick(sv, p) == Ok::<(ConnectorView, Seq<ConnectorView>), ConnectorErrorView>((c@, views_of(supplied@))));
                                c
                            }
                        },
                    }
                },
            };
            let ghost cv = chosen@;
            assert(pick(sv, p) == Ok::<(ConnectorView, Seq<ConnectorView>), ConnectorErrorView>((cv, views_of(supplied@))));
            assert(assemble(declared, ov, n + 1) == step(reg, sv, p));
            match registry.register(chosen) {
                Ok(()) => {},
                Err(e) => {
                    proof {
                        assert(ids_of(reg).contains(connector_id(cv)));
                        assert(assemble(declared, ov, n + 1) == Err::<(Seq<ConnectorView>, Seq<ConnectorView>), ConnectorErrorView>(ConnectorErrorView::DuplicateConnector(connector_id(cv))));
                        lemma_assemble_err(declared, ov, n + 1, declared.len() as int);
                    }
                    return Err(e);
                },
            }
            n = n + 1;
        }
        Ok(registry)
    }

    /// The connector named `id`.
    pub fn get(&self, id: &str) -> (r: Result<&Connector, ConnectorError>)
        ensures
            ids_of(self@).contains(id@) ==> (r matches Ok(c) && c@ == connector_with(self@, id@)),
            !ids_of(self@).contains(id@) ==> (r matches Err(e) && e@ == ConnectorErrorView::UnknownConnector(id@)),
    {
        proof {
            use_type_invariant(self);
        }
        match find_id(&self.connectors, id) {
            Some(i) => {
                proof {
                    lemma_first_is_chosen(self@, id@, i as int);
                    assert(ids_of(self@)[i as int] == id@);
                }
                Ok(&self.connectors[i])
            },
            None => Err(ConnectorError::UnknownConnector { connector: owned(id) }),
        }
    }

    pub fn contains(&self, id: &str) -> (r: bool)
        ensures
            r == ids_of(self@).contains(id@),
    {
        match find_id(&self.connectors, id) {
            Some(i) => {
                assert(ids_of(self@)[i as int] == id@);
                true
            },
            None => false,
        }
    }

    /// The identifiers, in order.
    pub fn ids(&self) -> (r: Vec<String>)
        ensures
            views(r@) == isort_by(ids_of(self@), le_of::<String>()),
    {
        let mut out: Vec<String> = Vec::new();
        let mut i: usize = 0;
        while i < self.connectors.len()
            invariant
                i <= self.connectors@.len(),
                views(out@) == ids_of(self@).take(i as int),
            decreases self.connectors@.len() - i,
        {
            let ghost before = out@;
            let id = owned(self.connectors[i].id());
            out.push(id);
            proof {
                assert(views(out@) =~= views(before).push(id@));
                assert(ids_of(self@).take(i + 1) =~= ids_of(self@).take(i as int).push(id@));
            }
            i = i + 1;
        }
        assert(ids_of(self@).take(i as int) =~= ids_of(self@));
        let sorted = insertion_sort(out);
        assert(views_of(sorted@) =~= views(sorted@));
        sorted
    }

    /// Every connector's metadata, ordered by identifier.
    pub fn metadata(&self) -> (r: Vec<ConnectorMetadata>)
        ensures
            views_of(r@) == isort_by(
                self@.map_values(|c: ConnectorView| connector_metadata(c)),
                le_of::<ConnectorMetadata>(),
            ),
    {
        let ghost ms = self@.map_values(|c: ConnectorView| connector_metadata(c));
        let mut out: Vec<ConnectorMetadata> = Vec::new();
        let mut i: usize = 0;
        while i < self.connectors.len()
            invariant
                i <= self.connectors@.len(),
                ms == self@.map_values(|c: ConnectorView| connector_metadata(c)),
                views_of(out@) == ms.take(i as int),
            decreases self.connectors@.len() - i,
        {
            let ghost before = out@;
            let m = self.connectors[i].metadata();
            out.push(m);
            proof {
                assert(views_of(out@) =~= views_of(before).push(m@));
                assert(ms.take(i + 1) =~= ms.take(i as int).push(m@));
            }
            i = i + 1;
        }
        assert(ms.take(i as int) =~= ms);
        insertion_sort(out)
    }

    pub fn len(&self) -> (r: usize)
        ensures
            r == self@.len(),
    {
        self.connectors.len()
    }

    pub fn is_empty(&self) -> (r: bool)
        ensures
            r == (self@.len() == 0),
    {
        self.connectors.len() == 0
    }
}

/// The first supplied instance that is undeclared or repeats an earlier
/// one, as the error it raises.
pub open spec fn override_error(declared: Seq<Seq<char>>, ids: Seq<Seq<char>>) -> Option<ConnectorErrorView>
    decreases ids.len(),
{
    if ids.len() == 0 {
        None
    } else {
        match override_error(declared, ids.drop_last()) {
            Some(e) => Some(e),
            None => if !declared.contains(ids.last()) {
                Some(ConnectorErrorView::NotDeclared(ids.last()))
            } else if ids.drop_last().contains(ids.last()) {
                Some(ConnectorErrorView::DuplicateConnector(ids.last()))
            } else {
                None
            },
        }
    }
}

/// The built-in connector for a catalogued provider: the local directory
/// where the catalog supports it, otherwise a declared connector that fails
/// closed.
pub open spec fn builtin(provider: Seq<char>, m: MetadataView) -> ConnectorView {
    if m.status == ConnectorStatus::Supported && m.id == "local"@ {
        ConnectorView::Local(Seq::empty())
    } else {
        ConnectorView::Declared(described(provider))
    }
}

/// The connector for provider `p`: the supplied instance with its
/// identifier (taken out of `sup`), or the catalog's built-in; a provider the
/// catalog does not know is an error.
pub open spec fn pick(sup: Seq<ConnectorView>, p: Seq<char>) -> Result<(ConnectorView, Seq<ConnectorView>), ConnectorErrorView> {
    if ids_of(sup).contains(p) {
        let i = choose|i: int| 0 <= i < sup.len() && connector_id(#[trigger] sup[i]) == p;
        Ok((sup[i], sup.remove(i)))
    } else {
        match catalog_lookup(p) {
            None => Err(ConnectorErrorView::UnknownConnector(p)),
            Some(m) => Ok((builtin(p, m), sup)),
        }
    }
}

/// One provider's registration: its connector is added unless the
/// identifier is taken.
pub open spec fn step(reg: Seq<ConnectorView>, sup: Seq<ConnectorView>, p: Seq<char>) -> Result<(Seq<ConnectorView>, Seq<ConnectorView>), ConnectorErrorView> {
    match pick(sup, p) {
        Err(e) => Err(e),
        Ok(c) => if ids_of(reg).contains(connector_id(c.0)) {
            Err(ConnectorErrorView::DuplicateConnector(connector_id(c.0)))
        } else {
            Ok((reg.push(c.0), c.1))
        },
    }
}

/// The registry after the first `n` providers, with the supplied instances
/// not yet used.
pub open spec fn assemble(providers: Seq<Seq<char>>, supplied: Seq<ConnectorView>, n: int) -> Result<
    (Seq<ConnectorView>, Seq<ConnectorView>),
    ConnectorErrorView,
>
    decreases n,
{
    if n <= 0 {
        Ok((Seq::empty(), supplied))
    } else {
        match assemble(providers, supplied, n - 1) {
            Err(e) => Err(e),
            Ok(state) => step(state.0, state.1, providers[n - 1]),
        }
    }
}

/// What building a registry for `providers` with the supplied instances
/// gives: the supplied instances are checked first, then each provider in
/// turn gets its supplied instance or its built-in connector.
pub open spec fn registry_built(
    r: Result<ConnectorRegistry, ConnectorError>,
    providers: Seq<Seq<char>>,
    supplied: Seq<ConnectorView>,
) -> bool {
    match override_error(providers, ids_of(supplied)) {
        Some(e) => r matches Err(x) && x@ == e,
        None => match assemble(providers, supplied, providers.len() as int) {
            Err(e) => r matches Err(x) && x@ == e,
            Ok(state) => r matches Ok(g) && g@ == state.0,
        },
    }
}

proof fn lemma_override_prefix(declared: Seq<Seq<char>>, ids: Seq<Seq<char>>, k: int)
    requires
        0 <= k <= ids.len(),
        override_error(declared, ids.take(k)) is Some,
    ensures
        override_error(declared, ids) == override_error(declared, ids.take(k)),
    decreases ids.len(),
{
    if ids.len() == k {
        assert(ids.take(k) =~= ids);
    } else {
        assert(ids.drop_last().take(k) =~= ids.take(k));
        lemma_override_prefix(declared, ids.drop_last(), k);
    }
}

proof fn lemma_assemble_err(providers: Seq<Seq<char>>, supplied: Seq<ConnectorView>, k: int, n: int)
    requires
        0 <= k <= n,
        assemble(providers, supplied, k) is Err,
    ensures
        assemble(providers, supplied, n) == assemble(providers, supplied, k),
    decreases n,
{
    if n > k {
        lemma_assemble_err(providers, supplied, k, n - 1);
    }
}

} // verus!

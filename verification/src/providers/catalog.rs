//! The one list of connector identities and how far each is implemented;
//! the registry, the generated surface and the default UI all read it.
use vstd::prelude::*;
use crate::text::{owned, str_eq, lemma_map_push, lemma_map_take_step};
use super::connector::{ConnectorKind, ConnectorMetadata, ConnectorStatus, MetadataView};

verus! {

/// The catalog: id, display name, kind and status of every known connector.
pub open spec fn catalog() -> Seq<(Seq<char>, Seq<char>, ConnectorKind, ConnectorStatus)> {
    seq![
        ("local"@, "Local Directory"@, ConnectorKind::Local, ConnectorStatus::Supported),
        ("password"@, "Password"@, ConnectorKind::Password, ConnectorStatus::Declared),
        ("google"@, "Google"@, ConnectorKind::Oauth, ConnectorStatus::Declared),
        ("github"@, "GitHub"@, ConnectorKind::Oauth, ConnectorStatus::Declared),
        ("microsoft"@, "Microsoft"@, ConnectorKind::Oauth, ConnectorStatus::Declared),
        ("apple"@, "Apple"@, ConnectorKind::Oauth, ConnectorStatus::Declared),
        ("email"@, "Email"@, ConnectorKind::Email, ConnectorStatus::Declared),
        ("magic_link"@, "Magic Link"@, ConnectorKind::MagicLink, ConnectorStatus::Declared),
        ("sso"@, "Enterprise SSO"@, ConnectorKind::EnterpriseSso, ConnectorStatus::Declared),
        ("jwt"@, "JWT"@, ConnectorKind::Token, ConnectorStatus::Declared),
    ]
}

pub open spec fn entry_metadata(e: (Seq<char>, Seq<char>, ConnectorKind, ConnectorStatus)) -> MetadataView {
    MetadataView { id: e.0, display_name: e.1, kind: e.2, status: e.3 }
}

/// The first catalog entry from `i` on with identifier `id`.
pub open spec fn catalog_find(id: Seq<char>, i: int) -> Option<MetadataView>
    decreases catalog().len() - i,
{
    if i < 0 || i >= catalog().len() {
        None
    } else if catalog()[i].0 == id {
        Some(entry_metadata(catalog()[i]))
    } else {
        catalog_find(id, i + 1)
    }
}

/// The catalog's metadata for `id`.
pub open spec fn catalog_lookup(id: Seq<char>) -> Option<MetadataView> {
    catalog_find(id, 0)
}

/// Metadata for any declared connector: the catalog's, or, for an id the
/// catalog does not know, an `Unknown` token connector named by its id.
pub open spec fn described(id: Seq<char>) -> MetadataView {
    match catalog_lookup(id) {
        Some(m) => m,
        None => MetadataView {
            id,
            display_name: id,
            kind: ConnectorKind::Token,
            status: ConnectorStatus::Unknown,
        },
    }
}

fn catalog_entries() -> (r: Vec<(&'static str, &'static str, ConnectorKind, ConnectorStatus)>)
    ensures
        r@.map_values(|e: (&'static str, &'static str, ConnectorKind, ConnectorStatus)| (e.0@, e.1@, e.2, e.3))
            == catalog(),
{
    let r = vec![
        ("local", "Local Directory", ConnectorKind::Local, ConnectorStatus::Supported),
        ("password", "Password", ConnectorKind::Password, ConnectorStatus::Declared),
        ("google", "Google", ConnectorKind::Oauth, ConnectorStatus::Declared),
        ("github", "GitHub", ConnectorKind::Oauth, ConnectorStatus::Declared),
        ("microsoft", "Microsoft", ConnectorKind::Oauth, ConnectorStatus::Declared),
        ("apple", "Apple", ConnectorKind::Oauth, ConnectorStatus::Declared),
        ("email", "Email", ConnectorKind::Email, ConnectorStatus::Declared),
        ("magic_link", "Magic Link", ConnectorKind::MagicLink, ConnectorStatus::Declared),
        ("sso", "Enterprise SSO", ConnectorKind::EnterpriseSso, ConnectorStatus::Declared),
        ("jwt", "JWT", ConnectorKind::Token, ConnectorStatus::Declared),
    ];
    assert(r@.map_values(|e: (&'static str, &'static str, ConnectorKind, ConnectorStatus)| (e.0@, e.1@, e.2, e.3))
        =~= catalog());
    r
}

/// The catalog's metadata for `id`, if it knows the id.
pub fn lookup(id: &str) -> (r: Option<ConnectorMetadata>)
    ensures
        match r {
            Some(m) => catalog_lookup(id@) == Some(m@),
            None => catalog_lookup(id@) is None,
        },
{
    let entries = catalog_entries();
    let ghost cat = catalog();
    let mut i: usize = 0;
    while i < entries.len()
        invariant
            i <= entries@.len(),
            cat == catalog(),
            entries@.map_values(|e: (&'static str, &'static str, ConnectorKind, ConnectorStatus)| (e.0@, e.1@, e.2, e.3))
                == cat,
            catalog_lookup(id@) == catalog_find(id@, i as int),
        decreases entries@.len() - i,
    {
        let e = entries[i];
        assert(cat[i as int] == (e.0@, e.1@, e.2, e.3));
        if str_eq(e.0, id) {
            return Some(ConnectorMetadata { id: owned(e.0), display_name: owned(e.1), kind: e.2, status: e.3 });
        }
        i = i + 1;
    }
    None
}

/// Metadata for a declared connector, including one the catalog does not
/// know: that one is reported as `Unknown` rather than guessed at.
pub fn describe(id: &str) -> (r: ConnectorMetadata)
    ensures
        r@ == described(id@),
{
    match lookup(id) {
        Some(m) => m,
        None => ConnectorMetadata {
            id: owned(id),
            display_name: owned(id),
            kind: ConnectorKind::Token,
            status: ConnectorStatus::Unknown,
        },
    }
}

/// Every catalog entry's metadata, in catalog order.
pub fn all() -> (r: Vec<ConnectorMetadata>)
    ensures
        r@.map_values(|m: ConnectorMetadata| m@) == catalog().map_values(
            |e: (Seq<char>, Seq<char>, ConnectorKind, ConnectorStatus)| described(e.0),
        ),
{
    let entries = catalog_entries();
    let ghost cat = catalog();
    let mut out: Vec<ConnectorMetadata> = Vec::new();
    let mut i: usize = 0;
    while i < entries.len()
        invariant
            i <= entries@.len(),
            cat == catalog(),
            entries@.map_values(|e: (&'static str, &'static str, ConnectorKind, ConnectorStatus)| (e.0@, e.1@, e.2, e.3))
                == cat,
            out@.map_values(|m: ConnectorMetadata| m@) == cat.take(i as int).map_values(
                |e: (Seq<char>, Seq<char>, ConnectorKind, ConnectorStatus)| described(e.0),
            ),
        decreases entries@.len() - i,
    {
        let e = entries[i];
        assert(cat[i as int] == (e.0@, e.1@, e.2, e.3));
        let m = describe(e.0);
        let ghost before = out@;
        out.push(m);
        proof {
            lemma_map_push(before, m, |m: ConnectorMetadata| m@);
            lemma_map_take_step(cat, i as int, |e: (Seq<char>, Seq<char>, ConnectorKind, ConnectorStatus)| described(e.0));
        }
        i = i + 1;
    }
    assert(cat.take(i as int) =~= cat);
    out
}

} // verus!

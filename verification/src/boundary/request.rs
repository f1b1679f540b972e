//! A request as the authority model sees it: framework-neutral, and carrying
//! nothing that is trusted on its own. Everything in it is a hint.
use vstd::prelude::*;
use crate::text::{
    owned, cat, to_upper, upper_seq, to_lower, lower_seq, trim, trim_seq, starts_with, is_prefix,
    str_eq, chars_of, string_from_chars, first_index_of, find_char, is_ws, lead_ws, trail_ws,
    lemma_first_index_of_char,
};
use crate::assoc::{lookup, get_entry, set_entry};
use crate::contract::ids::SessionId;

verus! {

/// Headers a client is never allowed to speak: a standalone deployment
/// injects the resolved context under this prefix.
pub const RESERVED_HEADER_PREFIX: &'static str = "x-authboundry-";

#[derive(Debug, Clone, Copy, PartialEq, Eq, PartialOrd, Ord, Hash, Structural)]
pub enum Method {
    Get,
    Post,
    Put,
    Patch,
    Delete,
    Head,
    Options,
}

pub open spec fn method_name(m: Method) -> Seq<char> {
    match m {
        Method::Get => "GET"@,
        Method::Post => "POST"@,
        Method::Put => "PUT"@,
        Method::Patch => "PATCH"@,
        Method::Delete => "DELETE"@,
        Method::Head => "HEAD"@,
        Method::Options => "OPTIONS"@,
    }
}

/// The method named by `s`, in any letter case.
pub open spec fn method_named(s: Seq<char>) -> Option<Method> {
    let u = upper_seq(s);
    if u == "GET"@ {
        Some(Method::Get)
    } else if u == "POST"@ {
        Some(Method::Post)
    } else if u == "PUT"@ {
        Some(Method::Put)
    } else if u == "PATCH"@ {
        Some(Method::Patch)
    } else if u == "DELETE"@ {
        Some(Method::Delete)
    } else if u == "HEAD"@ {
        Some(Method::Head)
    } else if u == "OPTIONS"@ {
        Some(Method::Options)
    } else {
        None
    }
}

impl Method {
    pub fn as_str(&self) -> (r: &'static str)
        ensures
            r@ == method_name(*self),
    {
        match self {
            Method::Get => "GET",
            Method::Post => "POST",
            Method::Put => "PUT",
            Method::Patch => "PATCH",
            Method::Delete => "DELETE",
            Method::Head => "HEAD",
            Method::Options => "OPTIONS",
        }
    }

    pub fn parse(value: &str) -> (r: Option<Self>)
        ensures
            r == method_named(value@),
    {
        let u = to_upper(value);
        let s = u.as_str();
        if str_eq(s, "GET") {
            Some(Method::Get)
        } else if str_eq(s, "POST") {
            Some(Method::Post)
        } else if str_eq(s, "PUT") {
            Some(Method::Put)
        } else if str_eq(s, "PATCH") {
            Some(Method::Patch)
        } else if str_eq(s, "DELETE") {
            Some(Method::Delete)
        } else if str_eq(s, "HEAD") {
            Some(Method::Head)
        } else if str_eq(s, "OPTIONS") {
            Some(Method::Options)
        } else {
            None
        }
    }
}

/// The trimmed, non-empty value under `key`.
pub open spec fn present(entries: Seq<(String, String)>, key: Seq<char>) -> Option<Seq<char>> {
    match lookup(entries, key) {
        Some(v) => if trim_seq(v@).len() > 0 {
            Some(trim_seq(v@))
        } else {
            None
        },
        None => None,
    }
}

fn present_exec(entries: &Vec<(String, String)>, key: &str) -> (r: Option<String>)
    ensures
        match r {
            Some(v) => present(entries@, key@) == Some(v@),
            None => present(entries@, key@) is None,
        },
{
    match get_entry(entries, key) {
        Some(v) => {
            let t = trim(v.as_str());
            if t.as_str().unicode_len() > 0 {
                Some(t)
            } else {
                None
            }
        },
        None => None,
    }
}

/// The headers whose names do not start with the reserved prefix.
pub open spec fn unreserved(hs: Seq<(String, String)>) -> Seq<(String, String)>
    decreases hs.len(),
{
    if hs.len() == 0 {
        hs
    } else if is_prefix(RESERVED_HEADER_PREFIX@, hs.last().0@) {
        unreserved(hs.drop_last())
    } else {
        unreserved(hs.drop_last()).push(hs.last())
    }
}

/// A request's headers (by lower-case name), cookies, query and body fields.
#[derive(Debug, Clone, PartialEq, Eq)]
pub struct BoundaryRequest {
    pub method: Method,
    pub path: String,
    pub headers: Vec<(String, String)>,
    pub cookies: Vec<(String, String)>,
    pub query: Vec<(String, String)>,
    pub body: Vec<(String, String)>,
}

impl Default for BoundaryRequest {
    fn default() -> (r: Self)
        ensures
            r.method == Method::Get,
            r.path@ == "/"@,
            r.headers@.len() == 0,
            r.cookies@.len() == 0,
            r.query@.len() == 0,
            r.body@.len() == 0,
    {
        BoundaryRequest::new(Method::Get, "/")
    }
}

/// The field `name`: the body's entry if the body has one, else the query's;
/// trimmed, and absent when blank.
pub open spec fn field_value(r: BoundaryRequest, name: Seq<char>) -> Option<Seq<char>> {
    if lookup(r.body@, name) is Some {
        present(r.body@, name)
    } else {
        present(r.query@, name)
    }
}

impl BoundaryRequest {
    pub fn new(method: Method, path: &str) -> (r: Self)
        ensures
            r.method == method,
            r.path@ == path@,
            r.headers@.len() == 0,
            r.cookies@.len() == 0,
            r.query@.len() == 0,
            r.body@.len() == 0,
    {
        BoundaryRequest {
            method,
            path: owned(path),
            headers: Vec::new(),
            cookies: Vec::new(),
            query: Vec::new(),
            body: Vec::new(),
        }
    }

    pub fn get(path: &str) -> (r: Self)
        ensures
            r.method == Method::Get,
            r.path@ == path@,
            r.headers@.len() == 0,
            r.cookies@.len() == 0,
            r.query@.len() == 0,
            r.body@.len() == 0,
    {
        Self::new(Method::Get, path)
    }

    pub fn post(path: &str) -> (r: Self)
        ensures
            r.method == Method::Post,
            r.path@ == path@,
            r.headers@.len() == 0,
            r.cookies@.len() == 0,
            r.query@.len() == 0,
            r.body@.len() == 0,
    {
        Self::new(Method::Post, path)
    }

    /// The request with header `name` (lower-cased) set to `value`.
    pub fn with_header(self, name: &str, value: &str) -> (r: Self)
        ensures
            r.method == self.method && r.path == self.path && r.cookies == self.cookies && r.query
                == self.query && r.body == self.body,
            lookup(r.headers@, lower_seq(name@)) matches Some(v) && v@ == value@,
            forall|k: Seq<char>| k != lower_seq(name@) ==> lookup(r.headers@, k) == lookup(self.headers@, k),
    {
        let mut s = self;
        set_entry(&mut s.headers, to_lower(name), owned(value));
        s
    }

    pub fn with_cookie(self, name: &str, value: &str) -> (r: Self)
        ensures
            r.method == self.method && r.path == self.path && r.headers == self.headers && r.query
                == self.query && r.body == self.body,
            lookup(r.cookies@, name@) matches Some(v) && v@ == value@,
            forall|k: Seq<char>| k != name@ ==> lookup(r.cookies@, k) == lookup(self.cookies@, k),
    {
        let mut s = self;
        set_entry(&mut s.cookies, owned(name), owned(value));
        s
    }

    pub fn with_field(self, name: &str, value: &str) -> (r: Self)
        ensures
            r.method == self.method && r.path == self.path && r.headers == self.headers && r.cookies
                == self.cookies && r.query == self.query,
            lookup(r.body@, name@) matches Some(v) && v@ == value@,
            forall|k: Seq<char>| k != name@ ==> lookup(r.body@, k) == lookup(self.body@, k),
    {
        let mut s = self;
        set_entry(&mut s.body, owned(name), owned(value));
        s
    }

    /// The request without any header in the boundary's own vocabulary: the
    /// headers that remain are exactly those whose name does not start with
    /// the reserved prefix, in their order.
    pub fn sanitized(self) -> (r: Self)
        ensures
            r.method == self.method && r.path == self.path && r.cookies == self.cookies && r.query
                == self.query && r.body == self.body,
            r.headers@ == unreserved(self.headers@),
    {
        let mut s = self;
        let mut kept: Vec<(String, String)> = Vec::new();
        let ghost hs = s.headers@;
        let mut i: usize = 0;
        while i < s.headers.len()
            invariant
                i <= s.headers@.len(),
                hs == s.headers@,
                kept@ == unreserved(hs.take(i as int)),
            decreases s.headers@.len() - i,
        {
            proof {
                assert(hs.take(i + 1).drop_last() =~= hs.take(i as int));
                assert(hs.take(i + 1).last() == hs[i as int]);
            }
            if !starts_with(s.headers[i].0.as_str(), RESERVED_HEADER_PREFIX) {
                let ghost before = kept@;
                kept.push((s.headers[i].0.clone(), s.headers[i].1.clone()));
                assert(kept@ =~= before.push(hs[i as int]));
            }
            i = i + 1;
        }
        assert(hs.take(i as int) =~= hs);
        s.headers = kept;
        s
    }

    /// Header `name` (matched in lower case), trimmed; blank counts as absent.
    pub fn header(&self, name: &str) -> (r: Option<String>)
        ensures
            match r {
                Some(v) => present(self.headers@, lower_seq(name@)) == Some(v@),
                None => present(self.headers@, lower_seq(name@)) is None,
            },
    {
        let key = to_lower(name);
        present_exec(&self.headers, key.as_str())
    }

    /// Field `name` from the body, else from the query.
    pub fn field(&self, name: &str) -> (r: Option<String>)
        ensures
            match r {
                Some(v) => field_value(*self, name@) == Some(v@),
                None => field_value(*self, name@) is None,
            },
    {
        match get_entry(&self.body, name) {
            Some(_) => present_exec(&self.body, name),
            None => present_exec(&self.query, name),
        }
    }

    /// A tenant the caller claims to address: only ever checked against the
    /// tenant the session belongs to.
    pub fn tenant_hint(&self) -> (r: Option<String>)
        ensures
            match present(self.headers@, "x-tenant-id"@) {
                Some(h) => r matches Some(v) && v@ == h,
                None => match field_value(*self, "tenant"@) {
                    Some(f) => r matches Some(v) && v@ == f,
                    None => r is None,
                },
            },
    {
        proof {
            reveal_strlit("x-tenant-id");
            assert(lower_seq("x-tenant-id"@) =~= "x-tenant-id"@);
        }
        match self.header("x-tenant-id") {
            Some(h) => Some(h),
            None => self.field("tenant"),
        }
    }
}

/// The opaque handle issued at sign-in: `apt_`, the tenant, a dot, the
/// session id.
#[derive(Debug, Clone, PartialEq, Eq)]
pub struct SessionCredential {
    pub tenant_id: String,
    pub session_id: SessionId,
}

pub open spec fn encoded(tenant: Seq<char>, session: Seq<char>) -> Seq<char> {
    "apt_"@ + tenant + "."@ + session
}

/// What `parse` reads from `raw`: after trimming and the prefix, the text up
/// to the first dot is the tenant and the rest the session; both non-empty.
pub open spec fn parsed(raw: Seq<char>) -> Option<(Seq<char>, Seq<char>)> {
    let t = trim_seq(raw);
    if !is_prefix("apt_"@, t) {
        None
    } else {
        let body = t.skip(4);
        match first_index_of(body, '.') {
            None => None,
            Some(i) => if i == 0 || i + 1 == body.len() {
                None
            } else {
                Some((body.take(i), body.skip(i + 1)))
            },
        }
    }
}

impl SessionCredential {
    pub fn new(tenant_id: &str, session_id: SessionId) -> (r: Self)
        ensures
            r.tenant_id@ == tenant_id@,
            r.session_id == session_id,
    {
        SessionCredential { tenant_id: owned(tenant_id), session_id }
    }

    pub fn encode(&self) -> (r: String)
        ensures
            r@ == encoded(self.tenant_id@, self.session_id.0@),
    {
        let mut s = cat("apt_", self.tenant_id.as_str());
        s.append(".");
        s.append(self.session_id.0.as_str());
        s
    }

    pub fn parse(raw: &str) -> (r: Option<Self>)
        ensures
            match parsed(raw@) {
                Some(p) => r matches Some(c) && c.tenant_id@ == p.0 && c.session_id.0@ == p.1,
                None => r is None,
            },
    {
        let t = trim(raw);
        if !starts_with(t.as_str(), "apt_") {
            return None;
        }
        let v = chars_of(t.as_str());
        proof {
            reveal_strlit("apt_");
        }
        let body_chars = crate::text::slice_chars(v.as_slice(), 4, v.len());
        assert(body_chars@ =~= t@.skip(4));
        proof {
            crate::text::lemma_first_index_of(body_chars@, '.');
        }
        match find_char(body_chars.as_slice(), '.') {
            None => None,
            Some(i) => {
                if i == 0 || i + 1 == body_chars.len() {
                    None
                } else {
                    let tenant = crate::text::slice_chars(body_chars.as_slice(), 0, i);
                    let session = crate::text::slice_chars(body_chars.as_slice(), i + 1, body_chars.len());
                    assert(tenant@ =~= body_chars@.take(i as int));
                    assert(session@ =~= body_chars@.skip(i + 1));
                    Some(SessionCredential {
                        tenant_id: string_from_chars(tenant.as_slice()),
                        session_id: SessionId(string_from_chars(session.as_slice())),
                    })
                }
            },
        }
    }
}

/// A credential encoded from a tenant without dots and a non-empty session
/// that does not end in whitespace reads back as the same tenant and session.
pub proof fn lemma_credential_round_trip(tenant: Seq<char>, session: Seq<char>)
    requires
        tenant.len() > 0,
        !tenant.contains('.'),
        session.len() > 0,
        !is_ws(session.last()),
    ensures
        parsed(encoded(tenant, session)) == Some((tenant, session)),
{
    reveal_strlit("apt_");
    reveal_strlit(".");
    let e = encoded(tenant, session);
    assert(e[0] == 'a');
    assert(lead_ws(e) == 0);
    assert(e.skip(0) =~= e);
    assert(e.last() == session.last());
    assert(trail_ws(e) == 0);
    assert(e.take(e.len() as int) =~= e);
    assert(trim_seq(e) == e);
    assert(e.take(4) =~= "apt_"@);
    let body = e.skip(4);
    assert(body =~= tenant + "."@ + session);
    assert forall|j: int| 0 <= j < tenant.len() implies body[j] != '.' by {
        assert(body[j] == tenant[j]);
        if body[j] == '.' {
            assert(tenant.contains('.'));
        }
    }
    assert(body[tenant.len() as int] == '.');
    lemma_first_index_of_char(body, '.', tenant.len() as int);
    assert(body.take(tenant.len() as int) =~= tenant);
    assert(body.skip(tenant.len() as int + 1) =~= session);
}

/// The name of the cookie the boundary issues sessions in.
pub const SESSION_COOKIE: &'static str = "authboundry_session";

/// The raw credential a request carries: the session cookie, else a bearer
/// token in the `authorization` header.
pub open spec fn raw_credential(r: BoundaryRequest) -> Option<Seq<char>> {
    match lookup(r.cookies@, SESSION_COOKIE@) {
        Some(v) => Some(v@),
        None => match present(r.headers@, "authorization"@) {
            Some(h) => if is_prefix("Bearer "@, h) {
                Some(h.skip(7))
            } else {
                None
            },
            None => None,
        },
    }
}

impl BoundaryRequest {
    /// The request carrying `credential` in the session cookie.
    pub fn with_credential(self, credential: &SessionCredential) -> (r: Self)
        ensures
            r.method == self.method && r.path == self.path && r.headers == self.headers && r.query
                == self.query && r.body == self.body,
            lookup(r.cookies@, SESSION_COOKIE@) matches Some(v) && v@ == encoded(
                credential.tenant_id@,
                credential.session_id.0@,
            ),
            forall|k: Seq<char>|
                k != SESSION_COOKIE@ ==> lookup(r.cookies@, k) == lookup(self.cookies@, k),
    {
        let encoded = credential.encode();
        self.with_cookie(SESSION_COOKIE, encoded.as_str())
    }

    /// The session credential, from the cookie the boundary issued or from a
    /// bearer token carrying the same value.
    pub fn credential(&self) -> (r: Option<SessionCredential>)
        ensures
            match raw_credential(*self) {
                Some(raw) => match parsed(raw) {
                    Some(p) => r matches Some(c) && c.tenant_id@ == p.0 && c.session_id.0@ == p.1,
                    None => r is None,
                },
                None => r is None,
            },
    {
        let raw = match get_entry(&self.cookies, SESSION_COOKIE) {
            Some(v) => v.clone(),
            None => {
                proof {
                    reveal_strlit("authorization");
                    reveal_strlit("Bearer ");
                    assert(lower_seq("authorization"@) =~= "authorization"@);
                }
                let header = match self.header("authorization") {
                    Some(h) => h,
                    None => {
                        return None;
                    },
                };
                if !starts_with(header.as_str(), "Bearer ") {
                    return None;
                }
                let v = chars_of(header.as_str());
                let rest = crate::text::slice_chars(v.as_slice(), 7, v.len());
                assert(rest@ =~= header@.skip(7));
                string_from_chars(rest.as_slice())
            },
        };
        SessionCredential::parse(raw.as_str())
    }
}

} // verus!

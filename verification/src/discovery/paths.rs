//! Route paths: normalization to one authority route per shape, and the
//! deterministic capability inference from a method and a path.
use vstd::prelude::*;
use crate::text::{
    chars_of, string_from_chars, slice_chars, owned, cat, cat3, views, join, join_with, trim, trim_seq,
    lower_seq, to_lower, upper_seq, to_upper, str_eq, is_prefix, is_suffix, starts_with, ends_with,
    lemma_map_push, lemma_map_take_step,
};
use super::model::{
    Confidence, Inference, InferenceKind, ProtectionState, ResourceInference,
};

verus! {

/// The non-empty parts of `s` between separators `c`, with the part still
/// open at the end: the state of a left-to-right split.
pub open spec fn split_state(s: Seq<char>, c: char) -> (Seq<Seq<char>>, Seq<char>)
    decreases s.len(),
{
    if s.len() == 0 {
        (Seq::empty(), Seq::empty())
    } else {
        let prev = split_state(s.drop_last(), c);
        if s.last() == c {
            if prev.1.len() > 0 {
                (prev.0.push(prev.1), Seq::empty())
            } else {
                (prev.0, Seq::empty())
            }
        } else {
            (prev.0, prev.1.push(s.last()))
        }
    }
}

/// The non-empty parts of `s` between separators `c`.
pub open spec fn nonempty_parts(s: Seq<char>, c: char) -> Seq<Seq<char>> {
    let st = split_state(s, c);
    if st.1.len() > 0 {
        st.0.push(st.1)
    } else {
        st.0
    }
}

/// The non-empty `/`-separated segments of a path.
pub open spec fn segments(s: Seq<char>) -> Seq<Seq<char>> {
    nonempty_parts(s, '/')
}

/// The non-empty parts of `s` between separators `c`, in order.
pub fn split_nonempty(s: &str, c: char) -> (r: Vec<String>)
    ensures
        views(r@) == nonempty_parts(s@, c),
{
    let v = chars_of(s);
    let mut parts: Vec<String> = Vec::new();
    let mut cur: Vec<char> = Vec::new();
    let mut i: usize = 0;
    while i < v.len()
        invariant
            i <= v@.len(),
            v@ == s@,
            (views(parts@), cur@) == split_state(v@.take(i as int), c),
        decreases v@.len() - i,
    {
        proof {
            assert(v@.take(i + 1).drop_last() =~= v@.take(i as int));
        }
        if v[i] == c {
            if cur.len() > 0 {
                let part = string_from_chars(cur.as_slice());
                let ghost before = parts@;
                parts.push(part);
                proof {
                    lemma_map_push(before, part, |t: String| t@);
                }
                cur = Vec::new();
            } else {
                cur = Vec::new();
            }
            assert(cur@ =~= Seq::<char>::empty());
        } else {
            cur.push(v[i]);
        }
        i = i + 1;
    }
    assert(v@.take(i as int) =~= v@);
    if cur.len() > 0 {
        let part = string_from_chars(cur.as_slice());
        let ghost before = parts@;
        parts.push(part);
        proof {
            lemma_map_push(before, part, |t: String| t@);
        }
    }
    parts
}

pub fn path_segments(path: &str) -> (r: Vec<String>)
    ensures
        views(r@) == segments(path@),
{
    split_nonempty(path, '/')
}

/// A segment that names a parameter: `:id`, `{id}` or `[id]`.
pub open spec fn parameter_like(p: Seq<char>) -> bool {
    ||| (p.len() > 0 && p[0] == ':')
    ||| (p.len() > 0 && p[0] == '{' && p[p.len() - 1] == '}')
    ||| (p.len() > 0 && p[0] == '[' && p[p.len() - 1] == ']')
}

/// A segment as its normalized route writes it.
pub open spec fn normalize_segment(p: Seq<char>) -> Seq<char> {
    if parameter_like(p) {
        ":param"@
    } else {
        lower_seq(p)
    }
}

/// The normalized route of a path: trimmed, parameters written `:param`,
/// other segments lower case, one `/` between segments.
pub open spec fn normalized(path: Seq<char>) -> Seq<char> {
    let t = trim_seq(path);
    if t == "/"@ {
        "/"@
    } else {
        "/"@ + join_with(segments(t).map_values(|p: Seq<char>| normalize_segment(p)), "/"@)
    }
}

fn parameter_like_exec(p: &String) -> (r: bool)
    ensures
        r == parameter_like(p@),
{
    let v = chars_of(p.as_str());
    let n = v.len();
    n > 0 && (v[0] == ':' || (v[0] == '{' && v[n - 1] == '}') || (v[0] == '[' && v[n - 1] == ']'))
}

pub fn normalize_path(path: &str) -> (r: String)
    ensures
        r@ == normalized(path@),
{
    let trimmed = trim(path);
    if str_eq(trimmed.as_str(), "/") {
        return owned("/");
    }
    let segs = path_segments(trimmed.as_str());
    let mut parts: Vec<String> = Vec::new();
    let mut i: usize = 0;
    while i < segs.len()
        invariant
            i <= segs@.len(),
            views(parts@) == views(segs@).take(i as int).map_values(|p: Seq<char>| normalize_segment(p)),
        decreases segs@.len() - i,
    {
        let part = if parameter_like_exec(&segs[i]) {
            owned(":param")
        } else {
            to_lower(segs[i].as_str())
        };
        let ghost before = parts@;
        parts.push(part);
        proof {
            lemma_map_push(before, part, |t: String| t@);
            lemma_map_take_step(views(segs@), i as int, |p: Seq<char>| normalize_segment(p));
        }
        i = i + 1;
    }
    assert(views(segs@).take(i as int) =~= views(segs@));
    let joined = join(&parts, "/");
    cat("/", joined.as_str())
}

/// The parameter a segment names: after a leading `:`, or inside `{...}`.
pub open spec fn parameter_name(s: Seq<char>) -> Option<Seq<char>> {
    if s.len() > 0 && s[0] == ':' {
        Some(s.drop_first())
    } else if s.len() > 0 && s[0] == '{' && s.len() >= 2 && s[s.len() - 1] == '}' {
        Some(s.subrange(1, s.len() - 1))
    } else {
        None
    }
}

fn parameter_name_exec(s: &String) -> (r: Option<String>)
    ensures
        match r {
            Some(x) => parameter_name(s@) == Some(x@),
            None => parameter_name(s@) is None,
        },
{
    let v = chars_of(s.as_str());
    let n = v.len();
    if n > 0 && v[0] == ':' {
        let t = slice_chars(v.as_slice(), 1, n);
        assert(t@ =~= v@.drop_first());
        Some(string_from_chars(t.as_slice()))
    } else if n > 0 && v[0] == '{' && n >= 2 && v[n - 1] == '}' {
        let t = slice_chars(v.as_slice(), 1, n - 1);
        Some(string_from_chars(t.as_slice()))
    } else {
        None
    }
}

/// A plural resource name: ends in a single `s`, and is longer than `s`.
pub open spec fn plural(r: Seq<char>) -> bool {
    is_suffix("s"@, r) && !is_suffix("ss"@, r) && r.len() > 1
}

/// The singular of a resource name: `-ies` becomes `-y`, a single trailing
/// `s` goes.
pub open spec fn singular(r: Seq<char>) -> Seq<char> {
    if is_suffix("ies"@, r) {
        r.take(r.len() - 3) + "y"@
    } else if is_suffix("s"@, r) && !is_suffix("ss"@, r) {
        r.drop_last()
    } else {
        r
    }
}

pub fn is_plural(resource: &str) -> (r: bool)
    ensures
        r == plural(resource@),
{
    let v = chars_of(resource);
    ends_with(resource, "s") && !ends_with(resource, "ss") && v.len() > 1
}

pub fn singular_resource(resource: &str) -> (r: String)
    ensures
        r@ == singular(resource@),
{
    let v = chars_of(resource);
    if ends_with(resource, "ies") {
        proof {
            reveal_strlit("ies");
        }
        let stem = slice_chars(v.as_slice(), 0, v.len() - 3);
        let s = string_from_chars(stem.as_slice());
        proof {
            assert(stem@ =~= resource@.take(resource@.len() - 3));
        }
        cat(s.as_str(), "y")
    } else if ends_with(resource, "s") && !ends_with(resource, "ss") {
        proof {
            reveal_strlit("s");
        }
        let stem = slice_chars(v.as_slice(), 0, v.len() - 1);
        assert(stem@ =~= resource@.drop_last());
        string_from_chars(stem.as_slice())
    } else {
        owned(resource)
    }
}

/// An inference as plain values.
pub struct InferenceView {
    pub kind: InferenceKind,
    pub capability: Seq<char>,
    pub resource: Option<(Seq<char>, Seq<char>, Seq<char>)>,
    pub confidence: Confidence,
    pub reasons: Seq<Seq<char>>,
}

impl View for Inference {
    type V = InferenceView;

    open spec fn view(&self) -> InferenceView {
        InferenceView {
            kind: self.kind,
            capability: self.capability@,
            resource: match self.resource {
                Some(r) => Some((r.resource_type@, r.resource_id@, r.action@)),
                None => None,
            },
            confidence: self.confidence,
            reasons: views(self.reasons@),
        }
    }
}

/// First segments that belong to infrastructure or to the auth boundary
/// itself, for which nothing is inferred.
pub open spec fn uninferred_root(s: Seq<char>) -> bool {
    s == "auth"@ || s == "health"@ || s == "healthz"@ || s == "ready"@ || s == "readyz"@ || s
        == "metrics"@
}

pub open spec fn collection_action(m: Seq<char>) -> Option<Seq<char>> {
    if m == "GET"@ {
        Some("read"@)
    } else if m == "POST"@ {
        Some("create"@)
    } else {
        None
    }
}

pub open spec fn member_action(m: Seq<char>) -> Option<Seq<char>> {
    if m == "GET"@ {
        Some("read"@)
    } else if m == "PUT"@ || m == "PATCH"@ {
        Some("update"@)
    } else if m == "DELETE"@ {
        Some("delete"@)
    } else {
        None
    }
}

pub open spec fn braced(n: Seq<char>) -> Seq<char> {
    "{"@ + n + "}"@
}

/// The id a member route's resource is written with: the raw path's
/// parameter name, else the normalized one, braced; `*` where neither names one.
pub open spec fn member_id(raw: Seq<Seq<char>>, segs: Seq<Seq<char>>) -> Seq<char> {
    match (if raw.len() > 1 {
        parameter_name(raw[1])
    } else {
        None
    }) {
        Some(n) => braced(n),
        None => match parameter_name(segs[1]) {
            Some(n) => braced(n),
            None => "*"@,
        },
    }
}

/// The capability a route likely needs, from its method and path alone:
/// `resource.read`/`.create` on a collection, `.read`/`.update`/`.delete` on
/// a member, `resource.action` on an action route, and a low-confidence
/// `.review` for any other shape.
pub open spec fn inferred(method: Seq<char>, path: Seq<char>) -> Option<InferenceView> {
    let m = upper_seq(method);
    let segs = segments(normalized(path));
    let raw = segments(path);
    if segs.len() == 0 || uninferred_root(segs[0]) {
        None
    } else if segs.len() == 1 {
        let res = segs[0];
        let sg = singular(res);
        match collection_action(m) {
            None => None,
            Some(a) => Some(InferenceView {
                kind: InferenceKind::Capability,
                capability: sg + "."@ + a,
                resource: Some((sg, "*"@, a)),
                confidence: if plural(res) {
                    Confidence::High
                } else {
                    Confidence::Low
                },
                reasons: seq![
                    "method is "@ + m,
                    "resource is "@ + res,
                    "route is not parameterized"@,
                    "no explicit capability mapping exists"@,
                ],
            }),
        }
    } else if segs.len() == 2 && segs[1] == ":param"@ {
        let res = segs[0];
        let sg = singular(res);
        match member_action(m) {
            None => None,
            Some(a) => Some(InferenceView {
                kind: InferenceKind::Capability,
                capability: sg + "."@ + a,
                resource: Some((sg, member_id(raw, segs), a)),
                confidence: if plural(res) {
                    Confidence::High
                } else {
                    Confidence::Low
                },
                reasons: seq![
                    "method is "@ + m,
                    "resource is "@ + res,
                    "route is parameterized"@,
                    "no explicit capability mapping exists"@,
                ],
            }),
        }
    } else if segs.len() == 2 && segs[0] != ":param"@ && segs[1] != ":param"@ {
        let sg = singular(segs[0]);
        Some(InferenceView {
            kind: InferenceKind::Capability,
            capability: sg + "."@ + segs[1],
            resource: Some((sg, "*"@, segs[1])),
            confidence: if m == "POST"@ {
                Confidence::High
            } else {
                Confidence::Medium
            },
            reasons: seq![
                "method is "@ + m,
                "resource is "@ + segs[0],
                "action segment is "@ + segs[1],
                "no explicit capability mapping exists"@,
            ],
        })
    } else {
        let sg = singular(segs[0]);
        Some(InferenceView {
            kind: InferenceKind::Capability,
            capability: sg + ".review"@,
            resource: Some((sg, "*"@, "review"@)),
            confidence: Confidence::Low,
            reasons: seq!["route shape is ambiguous; review manually"@],
        })
    }
}

fn four_reasons(a: String, b: String, c: &str, d: &str) -> (r: Vec<String>)
    ensures
        views(r@) == seq![a@, b@, c@, d@],
{
    let mut v: Vec<String> = Vec::new();
    v.push(a);
    v.push(b);
    v.push(owned(c));
    v.push(owned(d));
    assert(views(v@) =~= seq![a@, b@, c@, d@]);
    v
}

fn collection_action_exec(m: &String) -> (r: Option<&'static str>)
    ensures
        match r {
            Some(a) => collection_action(m@) == Some(a@),
            None => collection_action(m@) is None,
        },
{
    if str_eq(m.as_str(), "GET") {
        Some("read")
    } else if str_eq(m.as_str(), "POST") {
        Some("create")
    } else {
        None
    }
}

fn member_action_exec(m: &String) -> (r: Option<&'static str>)
    ensures
        match r {
            Some(a) => member_action(m@) == Some(a@),
            None => member_action(m@) is None,
        },
{
    if str_eq(m.as_str(), "GET") {
        Some("read")
    } else if str_eq(m.as_str(), "PUT") || str_eq(m.as_str(), "PATCH") {
        Some("update")
    } else if str_eq(m.as_str(), "DELETE") {
        Some("delete")
    } else {
        None
    }
}

fn member_id_exec(raw: &Vec<String>, segs: &Vec<String>) -> (r: String)
    requires
        segs@.len() > 1,
    ensures
        r@ == member_id(views(raw@), views(segs@)),
{
    let from_raw = if raw.len() > 1 {
        parameter_name_exec(&raw[1])
    } else {
        None
    };
    match from_raw {
        Some(n) => cat3("{", n.as_str(), "}"),
        None => match parameter_name_exec(&segs[1]) {
            Some(n) => cat3("{", n.as_str(), "}"),
            None => owned("*"),
        },
    }
}

fn uninferred_root_exec(s: &String) -> (r: bool)
    ensures
        r == uninferred_root(s@),
{
    str_eq(s.as_str(), "auth") || str_eq(s.as_str(), "health") || str_eq(s.as_str(), "healthz")
        || str_eq(s.as_str(), "ready") || str_eq(s.as_str(), "readyz") || str_eq(s.as_str(), "metrics")
}

pub fn infer_capability(method: &str, path: &str) -> (r: Option<Inference>)
    ensures
        match inferred(method@, path@) {
            Some(i) => r matches Some(x) && x@ == i,
            None => r is None,
        },
{
    let m = to_upper(method);
    let norm = normalize_path(path);
    let segs = path_segments(norm.as_str());
    let raw = path_segments(path);
    if segs.len() == 0 || uninferred_root_exec(&segs[0]) {
        return None;
    }
    if segs.len() == 1 {
        let res = &segs[0];
        let sg = singular_resource(res.as_str());
        let a = match collection_action_exec(&m) {
            Some(a) => a,
            None => return None,
        };
        let reasons = four_reasons(
            cat("method is ", m.as_str()),
            cat("resource is ", res.as_str()),
            "route is not parameterized",
            "no explicit capability mapping exists",
        );
        return Some(Inference {
            kind: InferenceKind::Capability,
            capability: cat3(sg.as_str(), ".", a),
            resource: Some(ResourceInference { resource_type: sg.clone(), resource_id: owned("*"), action: owned(a) }),
            confidence: if is_plural(res.as_str()) {
                Confidence::High
            } else {
                Confidence::Low
            },
            reasons,
        });
    }
    if segs.len() == 2 && str_eq(segs[1].as_str(), ":param") {
        let res = &segs[0];
        let sg = singular_resource(res.as_str());
        let a = match member_action_exec(&m) {
            Some(a) => a,
            None => return None,
        };
        let reasons = four_reasons(
            cat("method is ", m.as_str()),
            cat("resource is ", res.as_str()),
            "route is parameterized",
            "no explicit capability mapping exists",
        );
        return Some(Inference {
            kind: InferenceKind::Capability,
            capability: cat3(sg.as_str(), ".", a),
            resource: Some(ResourceInference {
                resource_type: sg.clone(),
                resource_id: member_id_exec(&raw, &segs),
                action: owned(a),
            }),
            confidence: if is_plural(res.as_str()) {
                Confidence::High
            } else {
                Confidence::Low
            },
            reasons,
        });
    }
    if segs.len() == 2 && !str_eq(segs[0].as_str(), ":param") && !str_eq(segs[1].as_str(), ":param") {
        let sg = singular_resource(segs[0].as_str());
        let reasons = four_reasons(
            cat("method is ", m.as_str()),
            cat("resource is ", segs[0].as_str()),
            cat("action segment is ", segs[1].as_str()).as_str(),
            "no explicit capability mapping exists",
        );
        return Some(Inference {
            kind: InferenceKind::Capability,
            capability: cat3(sg.as_str(), ".", segs[1].as_str()),
            resource: Some(ResourceInference { resource_type: sg.clone(), resource_id: owned("*"), action: segs[1].clone() }),
            confidence: if str_eq(m.as_str(), "POST") {
                Confidence::High
            } else {
                Confidence::Medium
            },
            reasons,
        });
    }
    let sg = singular_resource(segs[0].as_str());
    let mut reasons: Vec<String> = Vec::new();
    reasons.push(owned("route shape is ambiguous; review manually"));
    assert(views(reasons@) =~= seq!["route shape is ambiguous; review manually"@]);
    Some(Inference {
        kind: InferenceKind::Capability,
        capability: cat(sg.as_str(), ".review"),
        resource: Some(ResourceInference { resource_type: sg.clone(), resource_id: owned("*"), action: owned("review") }),
        confidence: Confidence::Low,
        reasons,
    })
}

/// How a route stands before any authority is applied, and why.
pub open spec fn protection_of(method: Seq<char>, path: Seq<char>, has_capability: bool) -> (ProtectionState, Seq<char>) {
    let n = normalized(path);
    if has_capability {
        (ProtectionState::Protected, "explicit or existing authority mapping"@)
    } else if n == "/"@ || n == "/health"@ || n == "/healthz"@ || n == "/ready"@ || n == "/readyz"@ {
        (ProtectionState::Public, "recognized safe infrastructure endpoint"@)
    } else if n == "/metrics"@ {
        (ProtectionState::Public, "recognized metrics endpoint"@)
    } else if n == "/auth"@ || is_prefix("/auth/"@, n) {
        (ProtectionState::Public, "AuthBoundry-owned authority endpoint"@)
    } else if upper_seq(method) == "GET"@ {
        (ProtectionState::Unprotected, "application route remains behaviorally compatible until approved"@)
    } else {
        (ProtectionState::Unprotected, "mutating application endpoint; protection is recommended, not applied"@)
    }
}

pub fn classify_protection(method: &str, path: &str, has_capability: bool) -> (r: (ProtectionState, String))
    ensures
        (r.0, r.1@) == protection_of(method@, path@, has_capability),
{
    if has_capability {
        return (ProtectionState::Protected, owned("explicit or existing authority mapping"));
    }
    let n = normalize_path(path);
    let ns = n.as_str();
    if str_eq(ns, "/") || str_eq(ns, "/health") || str_eq(ns, "/healthz") || str_eq(ns, "/ready")
        || str_eq(ns, "/readyz") {
        return (ProtectionState::Public, owned("recognized safe infrastructure endpoint"));
    }
    if str_eq(ns, "/metrics") {
        return (ProtectionState::Public, owned("recognized metrics endpoint"));
    }
    if str_eq(ns, "/auth") || starts_with(ns, "/auth/") {
        return (ProtectionState::Public, owned("AuthBoundry-owned authority endpoint"));
    }
    let m = to_upper(method);
    if str_eq(m.as_str(), "GET") {
        (ProtectionState::Unprotected, owned("application route remains behaviorally compatible until approved"))
    } else {
        (ProtectionState::Unprotected, owned("mutating application endpoint; protection is recommended, not applied"))
    }
}

/// On a route to one member of a collection, `DELETE` (in any letter case)
/// asks for the resource's `delete` capability and writes the resource with
/// the action `delete`, while `PUT` and `PATCH` ask for its `update`
/// capability; so deleting never needs only what updating needs.
pub proof fn lemma_member_delete_infers_delete(method: Seq<char>, other: Seq<char>, path: Seq<char>)
    requires
        upper_seq(method) == "DELETE"@,
        upper_seq(other) == "PUT"@ || upper_seq(other) == "PATCH"@,
        segments(normalized(path)).len() == 2,
        segments(normalized(path))[1] == ":param"@,
        !uninferred_root(segments(normalized(path))[0]),
    ensures
        ({
            let sg = singular(segments(normalized(path))[0]);
            let id = member_id(segments(path), segments(normalized(path)));
            &&& inferred(method, path) is Some
            &&& inferred(method, path)->0.capability == sg + ".delete"@
            &&& inferred(method, path)->0.resource == Some((sg, id, "delete"@))
            &&& inferred(other, path) is Some
            &&& inferred(other, path)->0.capability == sg + ".update"@
            &&& inferred(other, path)->0.resource == Some((sg, id, "update"@))
            &&& inferred(method, path)->0.capability != inferred(other, path)->0.capability
        }),
{
    reveal_strlit("DELETE");
    reveal_strlit("GET");
    reveal_strlit("PUT");
    reveal_strlit("PATCH");
    reveal_strlit("delete");
    reveal_strlit("update");
    reveal_strlit(".delete");
    reveal_strlit(".update");
    assert("DELETE"@.len() == 6 && "GET"@.len() == 3 && "PUT"@.len() == 3 && "PATCH"@.len() == 5);
    assert("PUT"@ != "GET"@) by {
        assert("PUT"@[0] != "GET"@[0]);
    }
    assert("PATCH"@ != "GET"@);
    assert(member_action("DELETE"@) == Some("delete"@));
    assert(member_action(upper_seq(other)) == Some("update"@));
    let sg = singular(segments(normalized(path))[0]);
    assert(".delete"@ =~= "."@ + "delete"@) by {
        reveal_strlit(".");
    }
    assert(".update"@ =~= "."@ + "update"@) by {
        reveal_strlit(".");
    }
    assert(sg + "."@ + "delete"@ =~= sg + ".delete"@);
    assert(sg + "."@ + "update"@ =~= sg + ".update"@);
    assert((sg + ".delete"@)[sg.len() as int + 1] == 'd');
    assert((sg + ".update"@)[sg.len() as int + 1] == 'u');
}

} // verus!

//! Reading routes out of source text: the route declarations of Express and
//! client routers, of Python frameworks, of Rust frameworks, and of
//! decorator-style controllers. Each reader looks for a call or attribute
//! that opens a quoted path and takes the text up to the closing quote.
use vstd::prelude::*;
use crate::text::{
    owned, chars_of, slice_chars, string_from_chars, find_from, find_seq, lemma_find_from,
    first_index_of, find_char, lemma_first_index_of,
};
use super::model::{RouteCandidate, RouteSource};

verus! {

/// The quoted texts that follow each occurrence of `needle` in `s`, left to
/// right: the text up to the next `quote`, with what follows that quote,
/// from which the search goes on. The search stops at an occurrence whose
/// quote is never closed.
pub open spec fn quoted(s: Seq<char>, needle: Seq<char>, quote: char) -> Seq<(Seq<char>, Seq<char>)>
    decreases s.len(),
{
    if needle.len() == 0 {
        Seq::empty()
    } else {
        match find_from(s, needle, 0) {
            None => Seq::empty(),
            Some(i) => {
                proof {
                    lemma_find_from(s, needle, 0);
                }
                let after = s.skip(i + needle.len());
                match first_index_of(after, quote) {
                    None => Seq::empty(),
                    Some(e) => {
                        proof {
                            lemma_first_index_of(after, quote);
                        }
                        let rest = after.skip(e + 1);
                        seq![(after.take(e), rest)] + quoted(rest, needle, quote)
                    },
                }
            },
        }
    }
}

pub open spec fn pairs_view(v: Seq<(Vec<char>, Vec<char>)>) -> Seq<(Seq<char>, Seq<char>)> {
    v.map_values(|p: (Vec<char>, Vec<char>)| (p.0@, p.1@))
}

fn quoted_exec(s: &Vec<char>, needle: &str, quote: char) -> (r: Vec<(Vec<char>, Vec<char>)>)
    ensures
        pairs_view(r@) == quoted(s@, needle@, quote),
{
    let pat = chars_of(needle);
    let mut out: Vec<(Vec<char>, Vec<char>)> = Vec::new();
    if pat.len() == 0 {
        assert(pairs_view(out@) =~= Seq::empty());
        return out;
    }
    let mut cur = slice_chars(s.as_slice(), 0, s.len());
    assert(cur@ =~= s@);
    assert(pairs_view(out@) + quoted(cur@, needle@, quote) =~= quoted(s@, needle@, quote));
    loop
        invariant
            pat@ == needle@,
            pat@.len() > 0,
            pairs_view(out@) + quoted(cur@, needle@, quote) == quoted(s@, needle@, quote),
        decreases cur@.len(),
    {
        proof {
            lemma_find_from(cur@, pat@, 0);
        }
        let i = match find_seq(cur.as_slice(), pat.as_slice(), 0) {
            None => {
                assert(pairs_view(out@) + Seq::empty() =~= pairs_view(out@));
                return out;
            },
            Some(i) => i,
        };
        let n = cur.len();
        let after = slice_chars(cur.as_slice(), i + pat.len(), n);
        assert(after@ =~= cur@.skip(i + pat@.len()));
        proof {
            lemma_first_index_of(after@, quote);
        }
        let e = match find_char(after.as_slice(), quote) {
            None => {
                assert(pairs_view(out@) + Seq::empty() =~= pairs_view(out@));
                return out;
            },
            Some(e) => e,
        };
        let m = after.len();
        let text = slice_chars(after.as_slice(), 0, e);
        let rest = slice_chars(after.as_slice(), e + 1, m);
        assert(text@ =~= after@.take(e as int));
        assert(rest@ =~= after@.skip(e + 1));
        let ghost before = out@;
        let ghost item = (text@, rest@);
        let ghost later = quoted(rest@, needle@, quote);
        out.push((text, rest.clone()));
        proof {
            assert(pairs_view(out@) =~= pairs_view(before).push(item));
            assert(quoted(cur@, needle@, quote) == seq![item] + later);
            assert(pairs_view(before) + (seq![item] + later) =~= pairs_view(out@) + later);
        }
        cur = rest;
    }
}

/// A discovered route as plain values: method, path, where it was found,
/// and the capability its declaration names.
pub open spec fn candidate_tuple(c: RouteCandidate) -> (Seq<char>, Seq<char>, RouteSource, Option<Seq<char>>) {
    (
        c.method@,
        c.path@,
        c.source,
        match c.capability {
            Some(s) => Some(s@),
            None => None,
        },
    )
}

pub open spec fn candidates_view(v: Seq<RouteCandidate>) -> Seq<(Seq<char>, Seq<char>, RouteSource, Option<Seq<char>>)> {
    v.map_values(|c: RouteCandidate| candidate_tuple(c))
}

pub open spec fn rooted(p: Seq<char>) -> bool {
    p.len() > 0 && p[0] == '/'
}

/// The quoted texts that are absolute paths, as routes of `method`.
pub open spec fn rooted_routes(q: Seq<(Seq<char>, Seq<char>)>, method: Seq<char>, source: RouteSource) -> Seq<
    (Seq<char>, Seq<char>, RouteSource, Option<Seq<char>>),
>
    decreases q.len(),
{
    if q.len() == 0 {
        Seq::empty()
    } else {
        let rest = rooted_routes(q.drop_last(), method, source);
        if rooted(q.last().0) {
            rest.push((method, q.last().0, source, None))
        } else {
            rest
        }
    }
}

fn push_route(out: &mut Vec<RouteCandidate>, method: &str, path: &Vec<char>, source: RouteSource, capability: Option<String>)
    ensures
        candidates_view(final(out)@) == candidates_view(old(out)@).push(
            (
                method@,
                path@,
                source,
                match capability {
                    Some(s) => Some(s@),
                    None => None,
                },
            ),
        ),
{
    let ghost before = out@;
    let c = RouteCandidate { method: owned(method), path: string_from_chars(path.as_slice()), source, capability };
    let ghost cv = candidate_tuple(c);
    out.push(c);
    assert(candidates_view(out@) =~= candidates_view(before).push(cv));
}

fn push_rooted(out: &mut Vec<RouteCandidate>, q: &Vec<(Vec<char>, Vec<char>)>, method: &str, source: RouteSource)
    ensures
        candidates_view(final(out)@) == candidates_view(old(out)@) + rooted_routes(pairs_view(q@), method@, source),
{
    let ghost start = candidates_view(out@);
    let mut i: usize = 0;
    assert(pairs_view(q@).take(0) =~= Seq::<(Seq<char>, Seq<char>)>::empty());
    assert(start + rooted_routes(Seq::empty(), method@, source) =~= start);
    while i < q.len()
        invariant
            i <= q@.len(),
            candidates_view(out@) == start + rooted_routes(pairs_view(q@).take(i as int), method@, source),
        decreases q@.len() - i,
    {
        let ghost t = pairs_view(q@).take(i + 1);
        assert(t.drop_last() =~= pairs_view(q@).take(i as int));
        assert(t.last() == (q@[i as int].0@, q@[i as int].1@));
        let p = &q[i].0;
        if p.len() > 0 && p[0] == '/' {
            push_route(out, method, p, source, None);
            assert(candidates_view(out@) =~= start + rooted_routes(t, method@, source));
        }
        i = i + 1;
    }
    assert(pairs_view(q@).take(i as int) =~= pairs_view(q@));
}

/// The routes of Rust frameworks: the method attributes of Rocket and Actix,
/// and the `route` and `at` builders (taken as `GET`), with absolute paths.
pub open spec fn rust_routes(s: Seq<char>) -> Seq<(Seq<char>, Seq<char>, RouteSource, Option<Seq<char>>)> {
    let q = |n: Seq<char>| quoted(s, n, '"');
    rooted_routes(q("#[get(\""@), "GET"@, RouteSource::Rust) + rooted_routes(q("#[post(\""@), "POST"@, RouteSource::Rust)
        + rooted_routes(q("#[put(\""@), "PUT"@, RouteSource::Rust) + rooted_routes(q("#[patch(\""@), "PATCH"@, RouteSource::Rust)
        + rooted_routes(q("#[delete(\""@), "DELETE"@, RouteSource::Rust) + rooted_routes(q(".route(\""@), "GET"@, RouteSource::Rust)
        + rooted_routes(q(".at(\""@), "GET"@, RouteSource::Rust)
}

pub fn discover_rust_routes(source: &str) -> (r: Vec<RouteCandidate>)
    ensures
        candidates_view(r@) == rust_routes(source@),
{
    let s = chars_of(source);
    let mut out: Vec<RouteCandidate> = Vec::new();
    assert(candidates_view(out@) =~= Seq::empty());
    push_rooted(&mut out, &quoted_exec(&s, "#[get(\"", '"'), "GET", RouteSource::Rust);
    push_rooted(&mut out, &quoted_exec(&s, "#[post(\"", '"'), "POST", RouteSource::Rust);
    push_rooted(&mut out, &quoted_exec(&s, "#[put(\"", '"'), "PUT", RouteSource::Rust);
    push_rooted(&mut out, &quoted_exec(&s, "#[patch(\"", '"'), "PATCH", RouteSource::Rust);
    push_rooted(&mut out, &quoted_exec(&s, "#[delete(\"", '"'), "DELETE", RouteSource::Rust);
    push_rooted(&mut out, &quoted_exec(&s, ".route(\"", '"'), "GET", RouteSource::Rust);
    push_rooted(&mut out, &quoted_exec(&s, ".at(\"", '"'), "GET", RouteSource::Rust);
    assert(candidates_view(out@) =~= rust_routes(source@));
    out
}

/// Where a statement's text ends: at its first line break or `;`.
pub open spec fn stop_at(s: Seq<char>) -> int
    decreases s.len(),
{
    if s.len() == 0 || s[0] == '\n' || s[0] == ';' {
        0
    } else {
        1 + stop_at(s.drop_first())
    }
}

proof fn lemma_stop_at(s: Seq<char>)
    ensures
        0 <= stop_at(s) <= s.len(),
        forall|j: int| 0 <= j < stop_at(s) ==> s[j] != '\n' && s[j] != ';',
        stop_at(s) < s.len() ==> (s[stop_at(s)] == '\n' || s[stop_at(s)] == ';'),
    decreases s.len(),
{
    if s.len() > 0 && s[0] != '\n' && s[0] != ';' {
        lemma_stop_at(s.drop_first());
        assert forall|j: int| 0 <= j < stop_at(s) implies s[j] != '\n' && s[j] != ';' by {
            if j > 0 {
                assert(s[j] == s.drop_first()[j - 1]);
            }
        }
    }
}

fn stop_at_exec(s: &Vec<char>) -> (r: usize)
    ensures
        r as int == stop_at(s@),
{
    proof {
        lemma_stop_at(s@);
    }
    let mut i: usize = 0;
    assert(s@.skip(0) =~= s@);
    while i < s.len() && s[i] != '\n' && s[i] != ';'
        invariant
            i <= s@.len(),
            stop_at(s@) == i + stop_at(s@.skip(i as int)),
        decreases s@.len() - i,
    {
        assert(s@.skip(i as int).drop_first() =~= s@.skip(i + 1));
        assert(s@.skip(i as int)[0] == s@[i as int]);
        i = i + 1;
    }
    if i < s.len() {
        assert(s@.skip(i as int)[0] == s@[i as int]);
    }
    i
}

/// The text up to the first closing `quote` after the first `needle` in `t`.
pub open spec fn named_in(t: Seq<char>, needle: Seq<char>, quote: char) -> Option<Seq<char>> {
    match find_from(t, needle, 0) {
        None => None,
        Some(i) => {
            let rest = t.skip(i + needle.len());
            match first_index_of(rest, quote) {
                Some(e) => Some(rest.take(e)),
                None => None,
            }
        },
    }
}

/// The capability a route declaration names in the rest of its statement:
/// the first of `require(..)` and `capability(..)`, in either quotes, that
/// closes.
pub open spec fn explicit_capability(t: Seq<char>) -> Option<Seq<char>> {
    match named_in(t, "require('"@, '\'') {
        Some(c) => Some(c),
        None => match named_in(t, "require(\""@, '"') {
            Some(c) => Some(c),
            None => match named_in(t, "capability('"@, '\'') {
                Some(c) => Some(c),
                None => named_in(t, "capability(\""@, '"'),
            },
        },
    }
}

fn named_in_exec(t: &Vec<char>, needle: &str, quote: char) -> (r: Option<String>)
    ensures
        match r {
            Some(x) => named_in(t@, needle@, quote) == Some(x@),
            None => named_in(t@, needle@, quote) is None,
        },
{
    let pat = chars_of(needle);
    proof {
        lemma_find_from(t@, pat@, 0);
    }
    match find_seq(t.as_slice(), pat.as_slice(), 0) {
        None => None,
        Some(i) => {
            let n = t.len();
            let rest = slice_chars(t.as_slice(), i + pat.len(), n);
            assert(rest@ =~= t@.skip(i + needle@.len()));
            proof {
                lemma_first_index_of(rest@, quote);
            }
            match find_char(rest.as_slice(), quote) {
                Some(e) => {
                    let c = slice_chars(rest.as_slice(), 0, e);
                    assert(c@ =~= rest@.take(e as int));
                    Some(string_from_chars(c.as_slice()))
                },
                None => None,
            }
        },
    }
}

fn explicit_capability_exec(t: &Vec<char>) -> (r: Option<String>)
    ensures
        match r {
            Some(x) => explicit_capability(t@) == Some(x@),
            None => explicit_capability(t@) is None,
        },
{
    match named_in_exec(t, "require('", '\'') {
        Some(c) => return Some(c),
        None => {},
    }
    match named_in_exec(t, "require(\"", '"') {
        Some(c) => return Some(c),
        None => {},
    }
    match named_in_exec(t, "capability('", '\'') {
        Some(c) => return Some(c),
        None => {},
    }
    named_in_exec(t, "capability(\"", '"')
}

/// Express routes of `method`: absolute quoted paths, with the capability
/// the rest of their statement names.
pub open spec fn express_routes(q: Seq<(Seq<char>, Seq<char>)>, method: Seq<char>) -> Seq<
    (Seq<char>, Seq<char>, RouteSource, Option<Seq<char>>),
>
    decreases q.len(),
{
    if q.len() == 0 {
        Seq::empty()
    } else {
        let rest = express_routes(q.drop_last(), method);
        let (p, after) = q.last();
        if rooted(p) {
            rest.push((method, p, RouteSource::Express, explicit_capability(after.take(stop_at(after)))))
        } else {
            rest
        }
    }
}

/// Client-side links and route paths: absolute, not protocol-relative.
pub open spec fn client_routes(q: Seq<(Seq<char>, Seq<char>)>) -> Seq<
    (Seq<char>, Seq<char>, RouteSource, Option<Seq<char>>),
>
    decreases q.len(),
{
    if q.len() == 0 {
        Seq::empty()
    } else {
        let rest = client_routes(q.drop_last());
        let p = q.last().0;
        if rooted(p) && !(p.len() >= 2 && p[1] == '/') {
            rest.push(("GET"@, p, RouteSource::Client, None))
        } else {
            rest
        }
    }
}

fn push_express(out: &mut Vec<RouteCandidate>, q: &Vec<(Vec<char>, Vec<char>)>, method: &str)
    ensures
        candidates_view(final(out)@) == candidates_view(old(out)@) + express_routes(pairs_view(q@), method@),
{
    let ghost start = candidates_view(out@);
    let mut i: usize = 0;
    assert(start + express_routes(pairs_view(q@).take(0), method@) =~= start);
    while i < q.len()
        invariant
            i <= q@.len(),
            candidates_view(out@) == start + express_routes(pairs_view(q@).take(i as int), method@),
        decreases q@.len() - i,
    {
        let ghost t = pairs_view(q@).take(i + 1);
        assert(t.drop_last() =~= pairs_view(q@).take(i as int));
        assert(t.last() == (q@[i as int].0@, q@[i as int].1@));
        let p = &q[i].0;
        if p.len() > 0 && p[0] == '/' {
            let after = &q[i].1;
            let k = stop_at_exec(after);
            proof {
                lemma_stop_at(after@);
            }
            let tail = slice_chars(after.as_slice(), 0, k);
            assert(tail@ =~= after@.take(k as int));
            let cap = explicit_capability_exec(&tail);
            push_route(out, method, p, RouteSource::Express, cap);
            assert(candidates_view(out@) =~= start + express_routes(t, method@));
        }
        i = i + 1;
    }
    assert(pairs_view(q@).take(i as int) =~= pairs_view(q@));
}

fn push_client(out: &mut Vec<RouteCandidate>, q: &Vec<(Vec<char>, Vec<char>)>)
    ensures
        candidates_view(final(out)@) == candidates_view(old(out)@) + client_routes(pairs_view(q@)),
{
    let ghost start = candidates_view(out@);
    let mut i: usize = 0;
    assert(start + client_routes(pairs_view(q@).take(0)) =~= start);
    while i < q.len()
        invariant
            i <= q@.len(),
            candidates_view(out@) == start + client_routes(pairs_view(q@).take(i as int)),
        decreases q@.len() - i,
    {
        let ghost t = pairs_view(q@).take(i + 1);
        assert(t.drop_last() =~= pairs_view(q@).take(i as int));
        assert(t.last() == (q@[i as int].0@, q@[i as int].1@));
        let p = &q[i].0;
        if p.len() > 0 && p[0] == '/' && !(p.len() >= 2 && p[1] == '/') {
            push_route(out, "GET", p, RouteSource::Client, None);
            assert(candidates_view(out@) =~= start + client_routes(t));
        }
        i = i + 1;
    }
    assert(pairs_view(q@).take(i as int) =~= pairs_view(q@));
}

/// The routes of a JavaScript source: Express-style method calls with
/// absolute paths (in single, then double quotes, method by method), then
/// client router paths and links.
pub open spec fn js_routes(s: Seq<char>) -> Seq<(Seq<char>, Seq<char>, RouteSource, Option<Seq<char>>)> {
    let e = |n: Seq<char>, quote: char, m: Seq<char>| express_routes(quoted(s, n, quote), m);
    let c = |n: Seq<char>, quote: char| client_routes(quoted(s, n, quote));
    e(".get('"@, '\'', "GET"@) + e(".get(\""@, '"', "GET"@) + e(".post('"@, '\'', "POST"@) + e(".post(\""@, '"', "POST"@)
        + e(".put('"@, '\'', "PUT"@) + e(".put(\""@, '"', "PUT"@) + e(".patch('"@, '\'', "PATCH"@) + e(
        ".patch(\""@,
        '"',
        "PATCH"@,
    ) + e(".delete('"@, '\'', "DELETE"@) + e(".delete(\""@, '"', "DELETE"@) + c("path=\""@, '"') + c(
        "path='"@,
        '\'',
    ) + c("path: \""@, '"') + c("path: '"@, '\'') + c("href=\""@, '"') + c("href='"@, '\'')
}

pub fn discover_js_routes(source: &str) -> (r: Vec<RouteCandidate>)
    ensures
        candidates_view(r@) == js_routes(source@),
{
    let s = chars_of(source);
    let mut out: Vec<RouteCandidate> = Vec::new();
    assert(candidates_view(out@) =~= Seq::empty());
    push_express(&mut out, &quoted_exec(&s, ".get('", '\''), "GET");
    push_express(&mut out, &quoted_exec(&s, ".get(\"", '"'), "GET");
    push_express(&mut out, &quoted_exec(&s, ".post('", '\''), "POST");
    push_express(&mut out, &quoted_exec(&s, ".post(\"", '"'), "POST");
    push_express(&mut out, &quoted_exec(&s, ".put('", '\''), "PUT");
    push_express(&mut out, &quoted_exec(&s, ".put(\"", '"'), "PUT");
    push_express(&mut out, &quoted_exec(&s, ".patch('", '\''), "PATCH");
    push_express(&mut out, &quoted_exec(&s, ".patch(\"", '"'), "PATCH");
    push_express(&mut out, &quoted_exec(&s, ".delete('", '\''), "DELETE");
    push_express(&mut out, &quoted_exec(&s, ".delete(\"", '"'), "DELETE");
    push_client(&mut out, &quoted_exec(&s, "path=\"", '"'));
    push_client(&mut out, &quoted_exec(&s, "path='", '\''));
    push_client(&mut out, &quoted_exec(&s, "path: \"", '"'));
    push_client(&mut out, &quoted_exec(&s, "path: '", '\''));
    push_client(&mut out, &quoted_exec(&s, "href=\"", '"'));
    push_client(&mut out, &quoted_exec(&s, "href='", '\''));
    assert(candidates_view(out@) =~= js_routes(source@));
    out
}

/// `str::replace`: every occurrence of `pat`, left to right and without
/// overlap, replaced by `with`.
pub open spec fn replace_all(s: Seq<char>, pat: Seq<char>, with: Seq<char>) -> Seq<char>
    decreases s.len(),
{
    if pat.len() == 0 {
        s
    } else {
        match find_from(s, pat, 0) {
            None => s,
            Some(i) => {
                proof {
                    lemma_find_from(s, pat, 0);
                }
                s.take(i) + with + replace_all(s.skip(i + pat.len()), pat, with)
            },
        }
    }
}

fn replace_all_exec(s: &Vec<char>, pat: &str, with: &str) -> (r: Vec<char>)
    requires
        pat@.len() > 0,
    ensures
        r@ == replace_all(s@, pat@, with@),
{
    let p = chars_of(pat);
    let w = chars_of(with);
    let mut out: Vec<char> = Vec::new();
    let mut cur = slice_chars(s.as_slice(), 0, s.len());
    assert(cur@ =~= s@);
    loop
        invariant
            p@ == pat@,
            w@ == with@,
            p@.len() > 0,
            out@ + replace_all(cur@, pat@, with@) == replace_all(s@, pat@, with@),
        decreases cur@.len(),
    {
        proof {
            lemma_find_from(cur@, p@, 0);
        }
        match find_seq(cur.as_slice(), p.as_slice(), 0) {
            None => {
                let ghost o = out@;
                let mut k: usize = 0;
                while k < cur.len()
                    invariant
                        k <= cur@.len(),
                        out@ == o + cur@.take(k as int),
                    decreases cur@.len() - k,
                {
                    out.push(cur[k]);
                    assert(cur@.take(k + 1) =~= cur@.take(k as int).push(cur@[k as int]));
                    k = k + 1;
                }
                assert(cur@.take(k as int) =~= cur@);
                return out;
            },
            Some(i) => {
                let ghost o = out@;
                let mut k: usize = 0;
                while k < i
                    invariant
                        k <= i,
                        i <= cur@.len(),
                        out@ == o + cur@.take(k as int),
                    decreases i - k,
                {
                    out.push(cur[k]);
                    assert(cur@.take(k + 1) =~= cur@.take(k as int).push(cur@[k as int]));
                    k = k + 1;
                }
                let ghost o2 = out@;
                let mut j: usize = 0;
                while j < w.len()
                    invariant
                        j <= w@.len(),
                        out@ == o2 + w@.take(j as int),
                    decreases w@.len() - j,
                {
                    out.push(w[j]);
                    assert(w@.take(j + 1) =~= w@.take(j as int).push(w@[j as int]));
                    j = j + 1;
                }
                assert(w@.take(j as int) =~= w@);
                let n = cur.len();
                let rest = slice_chars(cur.as_slice(), i + p.len(), n);
                assert(rest@ =~= cur@.skip(i + pat@.len()));
                proof {
                    assert(replace_all(cur@, pat@, with@) == cur@.take(i as int) + with@ + replace_all(
                        rest@,
                        pat@,
                        with@,
                    ));
                    assert(o + (cur@.take(i as int) + with@ + replace_all(rest@, pat@, with@)) =~= out@ + replace_all(
                        rest@,
                        pat@,
                        with@,
                    ));
                }
                cur = rest;
            },
        }
    }
}

/// `s` without the characters `c`.
pub open spec fn without(s: Seq<char>, c: char) -> Seq<char>
    decreases s.len(),
{
    if s.len() == 0 {
        s
    } else if s.last() == c {
        without(s.drop_last(), c)
    } else {
        without(s.drop_last(), c).push(s.last())
    }
}

/// `s` with each `a` turned into `b`.
pub open spec fn swapped(s: Seq<char>, a: char, b: char) -> Seq<char> {
    s.map_values(|x: char| if x == a { b } else { x })
}

/// `s` without leading `/`.
pub open spec fn lead_slashes_off(s: Seq<char>) -> Seq<char>
    decreases s.len(),
{
    if s.len() > 0 && s[0] == '/' {
        lead_slashes_off(s.drop_first())
    } else {
        s
    }
}

/// `s` without trailing `/`.
pub open spec fn trail_slashes_off(s: Seq<char>) -> Seq<char>
    decreases s.len(),
{
    if s.len() > 0 && s.last() == '/' {
        trail_slashes_off(s.drop_last())
    } else {
        s
    }
}

/// A file-system or module route as a URL path: `/index` dropped, `[param]`
/// written `:param`, dots read as separators, slashes at the ends trimmed,
/// and one leading `/`.
pub open spec fn filesystem_route_path(v: Seq<char>) -> Seq<char> {
    let a = without(swapped(replace_all(v, "/index"@, Seq::empty()), '[', ':'), ']');
    let b = if a.contains('.') {
        swapped(a, '.', '/')
    } else {
        a
    };
    let t = trail_slashes_off(lead_slashes_off(b));
    if t.len() == 0 {
        "/"@
    } else {
        "/"@ + t
    }
}

fn swapped_exec(s: &Vec<char>, a: char, b: char) -> (r: Vec<char>)
    ensures
        r@ == swapped(s@, a, b),
{
    let mut out: Vec<char> = Vec::new();
    let mut i: usize = 0;
    while i < s.len()
        invariant
            i <= s@.len(),
            out@ == swapped(s@.take(i as int), a, b),
        decreases s@.len() - i,
    {
        out.push(if s[i] == a { b } else { s[i] });
        assert(swapped(s@.take(i + 1), a, b) =~= swapped(s@.take(i as int), a, b).push(
            if s@[i as int] == a { b } else { s@[i as int] },
        ));
        i = i + 1;
    }
    assert(s@.take(i as int) =~= s@);
    out
}

fn without_exec(s: &Vec<char>, c: char) -> (r: Vec<char>)
    ensures
        r@ == without(s@, c),
{
    let mut out: Vec<char> = Vec::new();
    let mut i: usize = 0;
    assert(s@.take(0) =~= Seq::<char>::empty());
    while i < s.len()
        invariant
            i <= s@.len(),
            out@ == without(s@.take(i as int), c),
        decreases s@.len() - i,
    {
        let ghost t = s@.take(i + 1);
        assert(t.drop_last() =~= s@.take(i as int));
        if s[i] != c {
            out.push(s[i]);
        }
        i = i + 1;
    }
    assert(s@.take(i as int) =~= s@);
    out
}

fn trim_slashes_exec(s: &Vec<char>) -> (r: Vec<char>)
    ensures
        r@ == trail_slashes_off(lead_slashes_off(s@)),
{
    let mut lo: usize = 0;
    assert(s@.skip(0) =~= s@);
    while lo < s.len() && s[lo] == '/'
        invariant
            lo <= s@.len(),
            lead_slashes_off(s@) == lead_slashes_off(s@.skip(lo as int)),
        decreases s@.len() - lo,
    {
        assert(s@.skip(lo as int).drop_first() =~= s@.skip(lo + 1));
        assert(s@.skip(lo as int)[0] == s@[lo as int]);
        lo = lo + 1;
    }
    if lo < s.len() {
        assert(s@.skip(lo as int)[0] == s@[lo as int]);
    }
    let n = s.len();
    let mid = slice_chars(s.as_slice(), lo, n);
    assert(mid@ =~= s@.skip(lo as int));
    let mut hi: usize = mid.len();
    assert(mid@.take(hi as int) =~= mid@);
    while hi > 0 && mid[hi - 1] == '/'
        invariant
            hi <= mid@.len(),
            trail_slashes_off(mid@) == trail_slashes_off(mid@.take(hi as int)),
        decreases hi,
    {
        assert(mid@.take(hi as int).drop_last() =~= mid@.take(hi - 1));
        assert(mid@.take(hi as int).last() == mid@[hi - 1]);
        hi = hi - 1;
    }
    if hi > 0 {
        assert(mid@.take(hi as int).last() == mid@[hi - 1]);
    }
    let r = slice_chars(mid.as_slice(), 0, hi);
    assert(r@ =~= mid@.take(hi as int));
    r
}

pub fn filesystem_route_path_exec(v: &Vec<char>) -> (r: String)
    ensures
        r@ == filesystem_route_path(v@),
{
    proof {
        reveal_strlit("/index");
    }
    let a0 = replace_all_exec(v, "/index", "");
    proof {
        reveal_strlit("");
        assert(""@ =~= Seq::<char>::empty());
    }
    let a1 = swapped_exec(&a0, '[', ':');
    let a = without_exec(&a1, ']');
    let has_dot = crate::text::has_char(a.as_slice(), '.');
    proof {
        if a@.contains('.') {
            let k = choose|k: int| 0 <= k < a@.len() && a@[k] == '.';
            assert(crate::text::contains_char(a@, '.'));
        }
        if crate::text::contains_char(a@, '.') {
            let k = choose|k: int| 0 <= k < a@.len() && a@[k] == '.';
            assert(a@.contains('.'));
        }
    }
    let b = if has_dot {
        swapped_exec(&a, '.', '/')
    } else {
        a
    };
    let t = trim_slashes_exec(&b);
    if t.len() == 0 {
        owned("/")
    } else {
        let mut out = owned("/");
        let ts = string_from_chars(t.as_slice());
        out.append(ts.as_str());
        proof {
            reveal_strlit("/");
        }
        out
    }
}

/// Python routes of `method`: absolute quoted paths as they are; for the
/// module-path helpers (`modules`), relative ones read as module routes;
/// others skipped.
pub open spec fn python_routes(q: Seq<(Seq<char>, Seq<char>)>, method: Seq<char>, modules: bool) -> Seq<
    (Seq<char>, Seq<char>, RouteSource, Option<Seq<char>>),
>
    decreases q.len(),
{
    if q.len() == 0 {
        Seq::empty()
    } else {
        let rest = python_routes(q.drop_last(), method, modules);
        let raw = q.last().0;
        if rooted(raw) {
            rest.push((method, raw, RouteSource::Python, None))
        } else if modules {
            rest.push((method, filesystem_route_path(raw), RouteSource::Python, None))
        } else {
            rest
        }
    }
}

/// Decorator routes: every quoted path, read as a module route.
pub open spec fn decorator_routes(q: Seq<(Seq<char>, Seq<char>)>, method: Seq<char>) -> Seq<
    (Seq<char>, Seq<char>, RouteSource, Option<Seq<char>>),
>
    decreases q.len(),
{
    if q.len() == 0 {
        Seq::empty()
    } else {
        decorator_routes(q.drop_last(), method).push((method, filesystem_route_path(q.last().0), RouteSource::Client, None))
    }
}

fn push_python(out: &mut Vec<RouteCandidate>, q: &Vec<(Vec<char>, Vec<char>)>, method: &str, modules: bool)
    ensures
        candidates_view(final(out)@) == candidates_view(old(out)@) + python_routes(pairs_view(q@), method@, modules),
{
    let ghost start = candidates_view(out@);
    let mut i: usize = 0;
    assert(start + python_routes(pairs_view(q@).take(0), method@, modules) =~= start);
    while i < q.len()
        invariant
            i <= q@.len(),
            candidates_view(out@) == start + python_routes(pairs_view(q@).take(i as int), method@, modules),
        decreases q@.len() - i,
    {
        let ghost t = pairs_view(q@).take(i + 1);
        assert(t.drop_last() =~= pairs_view(q@).take(i as int));
        assert(t.last() == (q@[i as int].0@, q@[i as int].1@));
        let p = &q[i].0;
        if p.len() > 0 && p[0] == '/' {
            push_route(out, method, p, RouteSource::Python, None);
            assert(candidates_view(out@) =~= start + python_routes(t, method@, modules));
        } else if modules {
            let path = filesystem_route_path_exec(p);
            let pv = chars_of(path.as_str());
            push_route(out, method, &pv, RouteSource::Python, None);
            assert(candidates_view(out@) =~= start + python_routes(t, method@, modules));
        }
        i = i + 1;
    }
    assert(pairs_view(q@).take(i as int) =~= pairs_view(q@));
}

fn push_decorator(out: &mut Vec<RouteCandidate>, q: &Vec<(Vec<char>, Vec<char>)>, method: &str)
    ensures
        candidates_view(final(out)@) == candidates_view(old(out)@) + decorator_routes(pairs_view(q@), method@),
{
    let ghost start = candidates_view(out@);
    let mut i: usize = 0;
    assert(start + decorator_routes(pairs_view(q@).take(0), method@) =~= start);
    while i < q.len()
        invariant
            i <= q@.len(),
            candidates_view(out@) == start + decorator_routes(pairs_view(q@).take(i as int), method@),
        decreases q@.len() - i,
    {
        let ghost t = pairs_view(q@).take(i + 1);
        assert(t.drop_last() =~= pairs_view(q@).take(i as int));
        assert(t.last() == (q@[i as int].0@, q@[i as int].1@));
        let path = filesystem_route_path_exec(&q[i].0);
        let pv = chars_of(path.as_str());
        push_route(out, method, &pv, RouteSource::Client, None);
        assert(candidates_view(out@) =~= start + decorator_routes(t, method@));
        i = i + 1;
    }
    assert(pairs_view(q@).take(i as int) =~= pairs_view(q@));
}

/// The routes of a Python source: the method calls of Flask and FastAPI
/// style routers with absolute paths, and the `Route`, `path`, `re_path` and
/// `add_route` helpers (taken as `GET`), where `path` also reads module
/// routes; each in double, then single quotes.
pub open spec fn python_source_routes(s: Seq<char>) -> Seq<(Seq<char>, Seq<char>, RouteSource, Option<Seq<char>>)> {
    let p = |n: Seq<char>, quote: char, m: Seq<char>, modules: bool| python_routes(quoted(s, n, quote), m, modules);
    p(".get(\""@, '"', "GET"@, false) + p(".get('"@, '\'', "GET"@, false) + p(".post(\""@, '"', "POST"@, false) + p(
        ".post('"@,
        '\'',
        "POST"@,
        false,
    ) + p(".put(\""@, '"', "PUT"@, false) + p(".put('"@, '\'', "PUT"@, false) + p(".patch(\""@, '"', "PATCH"@, false)
        + p(".patch('"@, '\'', "PATCH"@, false) + p(".delete(\""@, '"', "DELETE"@, false) + p(
        ".delete('"@,
        '\'',
        "DELETE"@,
        false,
    ) + p("Route(\""@, '"', "GET"@, false) + p("Route('"@, '\'', "GET"@, false) + p("path(\""@, '"', "GET"@, true)
        + p("path('"@, '\'', "GET"@, true) + p("re_path(\""@, '"', "GET"@, false) + p("re_path('"@, '\'', "GET"@, false)
        + p("add_route(\""@, '"', "GET"@, false) + p("add_route('"@, '\'', "GET"@, false)
}

pub fn discover_python_routes(source: &str) -> (r: Vec<RouteCandidate>)
    ensures
        candidates_view(r@) == python_source_routes(source@),
{
    let s = chars_of(source);
    let mut out: Vec<RouteCandidate> = Vec::new();
    assert(candidates_view(out@) =~= Seq::empty());
    push_python(&mut out, &quoted_exec(&s, ".get(\"", '"'), "GET", false);
    push_python(&mut out, &quoted_exec(&s, ".get('", '\''), "GET", false);
    push_python(&mut out, &quoted_exec(&s, ".post(\"", '"'), "POST", false);
    push_python(&mut out, &quoted_exec(&s, ".post('", '\''), "POST", false);
    push_python(&mut out, &quoted_exec(&s, ".put(\"", '"'), "PUT", false);
    push_python(&mut out, &quoted_exec(&s, ".put('", '\''), "PUT", false);
    push_python(&mut out, &quoted_exec(&s, ".patch(\"", '"'), "PATCH", false);
    push_python(&mut out, &quoted_exec(&s, ".patch('", '\''), "PATCH", false);
    push_python(&mut out, &quoted_exec(&s, ".delete(\"", '"'), "DELETE", false);
    push_python(&mut out, &quoted_exec(&s, ".delete('", '\''), "DELETE", false);
    push_python(&mut out, &quoted_exec(&s, "Route(\"", '"'), "GET", false);
    push_python(&mut out, &quoted_exec(&s, "Route('", '\''), "GET", false);
    push_python(&mut out, &quoted_exec(&s, "path(\"", '"'), "GET", true);
    push_python(&mut out, &quoted_exec(&s, "path('", '\''), "GET", true);
    push_python(&mut out, &quoted_exec(&s, "re_path(\"", '"'), "GET", false);
    push_python(&mut out, &quoted_exec(&s, "re_path('", '\''), "GET", false);
    push_python(&mut out, &quoted_exec(&s, "add_route(\"", '"'), "GET", false);
    push_python(&mut out, &quoted_exec(&s, "add_route('", '\''), "GET", false);
    assert(candidates_view(out@) =~= python_source_routes(source@));
    out
}

/// The routes of controller decorators (`@Get(..)` and the rest), in single,
/// then double quotes, method by method.
pub open spec fn decorator_source_routes(s: Seq<char>) -> Seq<(Seq<char>, Seq<char>, RouteSource, Option<Seq<char>>)> {
    let d = |n: Seq<char>, quote: char, m: Seq<char>| decorator_routes(quoted(s, n, quote), m);
    d("@Get('"@, '\'', "GET"@) + d("@Get(\""@, '"', "GET"@) + d("@Post('"@, '\'', "POST"@) + d("@Post(\""@, '"', "POST"@)
        + d("@Put('"@, '\'', "PUT"@) + d("@Put(\""@, '"', "PUT"@) + d("@Patch('"@, '\'', "PATCH"@) + d(
        "@Patch(\""@,
        '"',
        "PATCH"@,
    ) + d("@Delete('"@, '\'', "DELETE"@) + d("@Delete(\""@, '"', "DELETE"@)
}

pub fn discover_decorator_routes(source: &str) -> (r: Vec<RouteCandidate>)
    ensures
        candidates_view(r@) == decorator_source_routes(source@),
{
    let s = chars_of(source);
    let mut out: Vec<RouteCandidate> = Vec::new();
    assert(candidates_view(out@) =~= Seq::empty());
    push_decorator(&mut out, &quoted_exec(&s, "@Get('", '\''), "GET");
    push_decorator(&mut out, &quoted_exec(&s, "@Get(\"", '"'), "GET");
    push_decorator(&mut out, &quoted_exec(&s, "@Post('", '\''), "POST");
    push_decorator(&mut out, &quoted_exec(&s, "@Post(\"", '"'), "POST");
    push_decorator(&mut out, &quoted_exec(&s, "@Put('", '\''), "PUT");
    push_decorator(&mut out, &quoted_exec(&s, "@Put(\"", '"'), "PUT");
    push_decorator(&mut out, &quoted_exec(&s, "@Patch('", '\''), "PATCH");
    push_decorator(&mut out, &quoted_exec(&s, "@Patch(\"", '"'), "PATCH");
    push_decorator(&mut out, &quoted_exec(&s, "@Delete('", '\''), "DELETE");
    push_decorator(&mut out, &quoted_exec(&s, "@Delete(\"", '"'), "DELETE");
    assert(candidates_view(out@) =~= decorator_source_routes(source@));
    out
}

/// The Rust framework a manifest depends on, by the first dependency name it
/// contains, or plain Rust.
pub open spec fn rust_framework(manifest: Seq<char>) -> Seq<char> {
    if crate::text::contains_seq(manifest, "axum"@) {
        "Axum"@
    } else if crate::text::contains_seq(manifest, "actix-web"@) {
        "Actix Web"@
    } else if crate::text::contains_seq(manifest, "rocket"@) {
        "Rocket"@
    } else if crate::text::contains_seq(manifest, "warp"@) {
        "Warp"@
    } else if crate::text::contains_seq(manifest, "poem"@) {
        "Poem"@
    } else if crate::text::contains_seq(manifest, "salvo"@) {
        "Salvo"@
    } else if crate::text::contains_seq(manifest, "tide"@) {
        "Tide"@
    } else {
        "Rust"@
    }
}

pub fn detect_rust_framework(manifest: &str) -> (r: String)
    ensures
        r@ == rust_framework(manifest@),
{
    if crate::text::contains_str(manifest, "axum") {
        owned("Axum")
    } else if crate::text::contains_str(manifest, "actix-web") {
        owned("Actix Web")
    } else if crate::text::contains_str(manifest, "rocket") {
        owned("Rocket")
    } else if crate::text::contains_str(manifest, "warp") {
        owned("Warp")
    } else if crate::text::contains_str(manifest, "poem") {
        owned("Poem")
    } else if crate::text::contains_str(manifest, "salvo") {
        owned("Salvo")
    } else if crate::text::contains_str(manifest, "tide") {
        owned("Tide")
    } else {
        owned("Rust")
    }
}

} // verus!

//! The `use auth { ... }` parser. Both the `key: value` and the `key = value`
//! spellings read into the same entries, so the original syntax and the
//! capability syntax coexist. Whitespace, `,` and `#` / `//` comments carry
//! no meaning.
use vstd::prelude::*;
use crate::text::{
    chars_of, string_from_chars, slice_chars, is_ws, is_whitespace, owned, cat, cat3, views,
    lemma_map_push, blank_seq, is_blank, lower_seq, to_lower, str_eq, trim, trim_seq, first_index_of,
    find_char, find_from, find_seq, lemma_find_from, occurs_at,
};
use super::model::{
    AuthConfig, AuthConfigView, AuthUiConfig, AuthUiConfigView, AuthUiMode, ClaimDef, ClaimDefView,
    ClaimKind, ClaimKindView, IsolationMode, PasswordPolicy, PolicyClaimCondition, PolicyDef,
    PolicyDefView, UiScreen, UiScreenOverride, UiTheme, canonical_ui, config_error,
    default_config_view, default_password_policy, first_dup, opt_view, password_error, ui_error,
    ui_screen_named, reject_duplicates, dup_error,
};
use crate::sorting::{insertion_sort, isort_by, le_of, views_of};

verus! {

#[derive(Debug, Clone, PartialEq, Eq)]
pub struct AuthDslError {
    pub message: String,
}

fn dsl_error(message: String) -> (r: AuthDslError)
    ensures
        r.message@ == message@,
{
    AuthDslError { message }
}

// ---------------------------------------------------------------------------
// Values.
// ---------------------------------------------------------------------------

/// A parsed value inside an auth block.
#[derive(Debug)]
pub enum Value {
    Scalar(String),
    List(Vec<String>),
    Enum(Vec<String>),
    Block(Vec<(String, Value)>),
}

/// A parsed value as plain text.
pub enum ValueView {
    Scalar(Seq<char>),
    List(Seq<Seq<char>>),
    Enum(Seq<Seq<char>>),
    Block(Seq<(Seq<char>, ValueView)>),
}

pub open spec fn value_view(v: Value) -> ValueView
    decreases v, 0int,
{
    match v {
        Value::Scalar(s) => ValueView::Scalar(s@),
        Value::List(xs) => ValueView::List(views(xs@)),
        Value::Enum(xs) => ValueView::Enum(views(xs@)),
        Value::Block(es) => {
            proof {
                assert(decreases_to!(v => v->Block_0));
                assert(decreases_to!(es => es@));
            }
            ValueView::Block(entries_view(es@))
        },
    }
}

pub open spec fn entries_view(es: Seq<(String, Value)>) -> Seq<(Seq<char>, ValueView)>
    decreases es, 1int,
{
    if es.len() == 0 {
        Seq::empty()
    } else {
        proof {
            assert(decreases_to!(es => es[es.len() - 1]));
            assert(decreases_to!(es[es.len() - 1] => es[es.len() - 1].1));
        }
        entries_view(es.subrange(0, es.len() - 1)).push(
            (es[es.len() - 1].0@, value_view(es[es.len() - 1].1)),
        )
    }
}

proof fn lemma_entries_view_push(es: Seq<(String, Value)>, e: (String, Value))
    ensures
        entries_view(es.push(e)) == entries_view(es).push((e.0@, value_view(e.1))),
{
    let t = es.push(e);
    assert(t.subrange(0, t.len() - 1) =~= es);
}

pub open spec fn value_kind(v: ValueView) -> Seq<char> {
    match v {
        ValueView::Scalar(_) => "scalar"@,
        ValueView::List(_) => "list"@,
        ValueView::Enum(_) => "enum"@,
        ValueView::Block(_) => "block"@,
    }
}

fn value_kind_exec(v: &Value) -> (r: &'static str)
    ensures
        r@ == value_kind(value_view(*v)),
{
    match v {
        Value::Scalar(_) => "scalar",
        Value::List(_) => "list",
        Value::Enum(_) => "enum",
        Value::Block(_) => "block",
    }
}

// ---------------------------------------------------------------------------
// Lexical layer.
// ---------------------------------------------------------------------------

pub open spec fn is_ident_char(c: char) -> bool {
    ('a' <= c && c <= 'z') || ('A' <= c && c <= 'Z') || ('0' <= c && c <= '9') || c == '_' || c
        == '-' || c == '.'
}

fn is_ident_char_exec(c: char) -> (r: bool)
    ensures
        r == is_ident_char(c),
{
    ('a' <= c && c <= 'z') || ('A' <= c && c <= 'Z') || ('0' <= c && c <= '9') || c == '_' || c
        == '-' || c == '.'
}

/// The position just past the next newline at or after `p` (the end, if none).
pub open spec fn skip_line(cs: Seq<char>, p: int) -> int
    decreases cs.len() - p,
{
    if p < 0 || p >= cs.len() {
        p
    } else if cs[p] == '\n' {
        p + 1
    } else {
        skip_line(cs, p + 1)
    }
}

pub proof fn lemma_skip_line(cs: Seq<char>, p: int)
    requires
        0 <= p,
    ensures
        skip_line(cs, p) >= p,
        p <= cs.len() ==> skip_line(cs, p) <= cs.len(),
    decreases cs.len() - p,
{
    if p < cs.len() && cs[p] != '\n' {
        lemma_skip_line(cs, p + 1);
    }
}

/// The position of the next meaningful character at or after `p`.
pub open spec fn skip_trivia(cs: Seq<char>, p: int) -> int
    decreases cs.len() - p,
{
    if p < 0 || p >= cs.len() {
        p
    } else if is_ws(cs[p]) || cs[p] == ',' {
        skip_trivia(cs, p + 1)
    } else if cs[p] == '#' || (cs[p] == '/' && p + 1 < cs.len() && cs[p + 1] == '/') {
        proof {
            lemma_skip_line(cs, p + 1);
        }
        skip_trivia(cs, skip_line(cs, p + 1))
    } else {
        p
    }
}

pub proof fn lemma_skip_trivia(cs: Seq<char>, p: int)
    requires
        0 <= p,
    ensures
        skip_trivia(cs, p) >= p,
        p <= cs.len() ==> skip_trivia(cs, p) <= cs.len(),
    decreases cs.len() - p,
{
    if p < cs.len() {
        if is_ws(cs[p]) || cs[p] == ',' {
            lemma_skip_trivia(cs, p + 1);
        } else if cs[p] == '#' || (cs[p] == '/' && p + 1 < cs.len() && cs[p + 1] == '/') {
            lemma_skip_line(cs, p + 1);
            lemma_skip_trivia(cs, skip_line(cs, p + 1));
        }
    }
}

fn skip_line_exec(cs: &Vec<char>, p: usize) -> (r: usize)
    requires
        p <= cs@.len(),
    ensures
        r == skip_line(cs@, p as int),
{
    let mut i = p;
    while i < cs.len()
        invariant
            p <= i <= cs@.len(),
            skip_line(cs@, p as int) == skip_line(cs@, i as int),
        decreases cs@.len() - i,
    {
        if cs[i] == '\n' {
            return i + 1;
        }
        i = i + 1;
    }
    i
}

fn skip_trivia_exec(cs: &Vec<char>, p: usize) -> (r: usize)
    requires
        p <= cs@.len(),
    ensures
        r == skip_trivia(cs@, p as int),
        p <= r <= cs@.len(),
{
    let mut i = p;
    while i < cs.len()
        invariant
            p <= i <= cs@.len(),
            skip_trivia(cs@, p as int) == skip_trivia(cs@, i as int),
        decreases cs@.len() - i,
    {
        let c = cs[i];
        if is_whitespace(c) || c == ',' {
            i = i + 1;
        } else if c == '#' || (c == '/' && i + 1 < cs.len() && cs[i + 1] == '/') {
            let n = skip_line_exec(cs, i + 1);
            proof {
                lemma_skip_line(cs@, i + 1);
            }
            i = n;
        } else {
            return i;
        }
    }
    i
}

/// The end of the identifier that starts at `p`.
pub open spec fn ident_end(cs: Seq<char>, p: int) -> int
    decreases cs.len() - p,
{
    if p < 0 || p >= cs.len() || !is_ident_char(cs[p]) {
        p
    } else {
        ident_end(cs, p + 1)
    }
}

pub proof fn lemma_ident_end(cs: Seq<char>, p: int)
    requires
        0 <= p <= cs.len(),
    ensures
        p <= ident_end(cs, p) <= cs.len(),
        forall|k: int| p <= k < ident_end(cs, p) ==> is_ident_char(#[trigger] cs[k]),
    decreases cs.len() - p,
{
    if p < cs.len() && is_ident_char(cs[p]) {
        lemma_ident_end(cs, p + 1);
    }
}

/// The char as a one-character text.
pub open spec fn char_text(c: char) -> Seq<char> {
    seq![c]
}

/// An identifier at `p` (after its end), or why there is none.
pub open spec fn p_ident(cs: Seq<char>, p: int) -> Result<(Seq<char>, int), Seq<char>> {
    let e = ident_end(cs, p);
    if e == p {
        Err(
            "expected an identifier, found `"@ + char_text(
                if 0 <= p < cs.len() {
                    cs[p]
                } else {
                    ' '
                },
            ) + "`"@,
        )
    } else {
        Ok((cs.subrange(p, e), e))
    }
}

fn parse_ident(cs: &Vec<char>, p: usize) -> (r: Result<(String, usize), AuthDslError>)
    requires
        p <= cs@.len(),
    ensures
        match p_ident(cs@, p as int) {
            Ok((id, e)) => r matches Ok((s, q)) && s@ == id && q == e && p < q <= cs@.len(),
            Err(m) => r matches Err(err) && err.message@ == m,
        },
{
    let mut i = p;
    while i < cs.len() && is_ident_char_exec(cs[i])
        invariant
            p <= i <= cs@.len(),
            ident_end(cs@, p as int) == ident_end(cs@, i as int),
        decreases cs@.len() - i,
    {
        i = i + 1;
    }
    if i == p {
        let c = if p < cs.len() {
            cs[p]
        } else {
            ' '
        };
        let mut found = String::new();
        crate::text::push_char(&mut found, c);
        let msg = cat3("expected an identifier, found `", found.as_str(), "`");
        proof {
            assert(found@ =~= char_text(c));
        }
        return Err(dsl_error(msg));
    }
    let v = slice_chars(cs.as_slice(), p, i);
    Ok((string_from_chars(v.as_slice()), i))
}

/// A quoted string whose opening quote is at `p`.
pub open spec fn p_quoted(cs: Seq<char>, p: int) -> Result<(Seq<char>, int), Seq<char>> {
    match close_quote(cs, p + 1) {
        Some(q) => Ok((cs.subrange(p + 1, q), q + 1)),
        None => Err("unterminated string"@),
    }
}

/// The first `"` at or after `p`.
pub open spec fn close_quote(cs: Seq<char>, p: int) -> Option<int>
    decreases cs.len() - p,
{
    if p < 0 || p >= cs.len() {
        None
    } else if cs[p] == '"' {
        Some(p)
    } else {
        close_quote(cs, p + 1)
    }
}

pub proof fn lemma_close_quote(cs: Seq<char>, p: int)
    requires
        0 <= p,
    ensures
        close_quote(cs, p) matches Some(q) ==> p <= q < cs.len(),
    decreases cs.len() - p,
{
    if p < cs.len() && cs[p] != '"' {
        lemma_close_quote(cs, p + 1);
    }
}

fn parse_quoted(cs: &Vec<char>, p: usize) -> (r: Result<(String, usize), AuthDslError>)
    requires
        p < cs@.len(),
    ensures
        match p_quoted(cs@, p as int) {
            Ok((s, e)) => r matches Ok((x, q)) && x@ == s && q == e && p < q <= cs@.len(),
            Err(m) => r matches Err(err) && err.message@ == m,
        },
{
    let n = cs.len();
    let mut i = p + 1;
    while i < cs.len()
        invariant
            p + 1 <= i <= cs@.len(),
            close_quote(cs@, p + 1) == close_quote(cs@, i as int),
        decreases cs@.len() - i,
    {
        if cs[i] == '"' {
            let v = slice_chars(cs.as_slice(), p + 1, i);
            return Ok((string_from_chars(v.as_slice()), i + 1));
        }
        i = i + 1;
    }
    Err(dsl_error(owned("unterminated string")))
}

/// The items of a list whose `[` is at `p`, from position `q` on, after
/// `items` already read.
pub open spec fn p_list_items(cs: Seq<char>, q: int, items: Seq<Seq<char>>) -> Result<(Seq<Seq<char>>, int), Seq<char>>
    decreases cs.len() + 1 - q,
{
    if q < 0 || q > cs.len() {
        Err("missing closing `]`"@)
    } else {
        let s = skip_trivia(cs, q);
        if s >= cs.len() {
            Err("missing closing `]`"@)
        } else if cs[s] == ']' {
            Ok((items, s + 1))
        } else if cs[s] == '"' {
            match p_quoted(cs, s) {
                Ok((x, e)) => {
                    proof {
                        lemma_skip_trivia(cs, q);
                    }
                    if e > q && e <= cs.len() {
                        p_list_items(cs, e, items.push(x))
                    } else {
                        Err("missing closing `]`"@)
                    }
                },
                Err(m) => Err(m),
            }
        } else if is_ident_char(cs[s]) {
            match p_ident(cs, s) {
                Ok((x, e)) => {
                    proof {
                        lemma_skip_trivia(cs, q);
                    }
                    if e > q && e <= cs.len() {
                        p_list_items(cs, e, items.push(x))
                    } else {
                        Err("missing closing `]`"@)
                    }
                },
                Err(m) => Err(m),
            }
        } else {
            Err("unexpected character `"@ + char_text(cs[s]) + "` in list"@)
        }
    }
}

/// A list whose `[` is expected at `p`.
pub open spec fn p_list(cs: Seq<char>, p: int) -> Result<(Seq<Seq<char>>, int), Seq<char>> {
    if 0 <= p < cs.len() && cs[p] == '[' {
        p_list_items(cs, p + 1, Seq::empty())
    } else {
        Err("expected `[`"@)
    }
}

fn parse_list(cs: &Vec<char>, p: usize) -> (r: Result<(Vec<String>, usize), AuthDslError>)
    requires
        p <= cs@.len(),
    ensures
        match p_list(cs@, p as int) {
            Ok((items, e)) => r matches Ok((v, q)) && views(v@) == items && q == e && p < q <= cs@.len(),
            Err(m) => r matches Err(err) && err.message@ == m,
        },
{
    if !(p < cs.len() && cs[p] == '[') {
        return Err(dsl_error(owned("expected `[`")));
    }
    let mut items: Vec<String> = Vec::new();
    let mut q = p + 1;
    assert(views(items@) =~= Seq::<Seq<char>>::empty());
    while true
        invariant
            p < q <= cs@.len(),
            p_list(cs@, p as int) == p_list_items(cs@, q as int, views(items@)),
        decreases cs@.len() + 1 - q,
    {
        let s = skip_trivia_exec(cs, q);
        if s >= cs.len() {
            return Err(dsl_error(owned("missing closing `]`")));
        }
        let c = cs[s];
        if c == ']' {
            return Ok((items, s + 1));
        } else if c == '"' {
            match parse_quoted(cs, s) {
                Ok((x, e)) => {
                    let ghost before = items@;
                    proof {
                        lemma_map_push(before, x, |t: String| t@);
                    }
                    items.push(x);
                    q = e;
                },
                Err(err) => return Err(err),
            }
        } else if is_ident_char_exec(c) {
            match parse_ident(cs, s) {
                Ok((x, e)) => {
                    let ghost before = items@;
                    proof {
                        lemma_map_push(before, x, |t: String| t@);
                    }
                    items.push(x);
                    q = e;
                },
                Err(err) => return Err(err),
            }
        } else {
            let mut found = String::new();
            crate::text::push_char(&mut found, c);
            proof {
                assert(found@ =~= char_text(c));
            }
            let msg = cat3("unexpected character `", found.as_str(), "` in list");
            return Err(dsl_error(msg));
        }
    }
    Err(dsl_error(owned("missing closing `]`")))
}

// ---------------------------------------------------------------------------
// Entries and values.
// ---------------------------------------------------------------------------

/// The value that starts at `p` (after trivia), and the position after it.
pub open spec fn p_value(cs: Seq<char>, p: int) -> Result<(ValueView, int), Seq<char>>
    decreases cs.len() + 1 - p, 0int,
{
    if p < 0 || p > cs.len() {
        Err("unexpected end of auth block"@)
    } else {
        let q = skip_trivia(cs, p);
        proof {
            lemma_skip_trivia(cs, p);
        }
        if q >= cs.len() {
            Err("unexpected end of auth block"@)
        } else if cs[q] == '{' {
            match p_entries(cs, q + 1, true, Seq::empty()) {
                Ok((es, e)) => Ok((ValueView::Block(es), e)),
                Err(m) => Err(m),
            }
        } else if cs[q] == '[' {
            match p_list(cs, q) {
                Ok((xs, e)) => Ok((ValueView::List(xs), e)),
                Err(m) => Err(m),
            }
        } else if cs[q] == '"' {
            match p_quoted(cs, q) {
                Ok((x, e)) => Ok((ValueView::Scalar(x), e)),
                Err(m) => Err(m),
            }
        } else if is_ident_char(cs[q]) {
            match p_ident(cs, q) {
                Ok((id, e)) => if id == "enum"@ && e < cs.len() && cs[e] == '[' {
                    match p_list(cs, e) {
                        Ok((xs, f)) => Ok((ValueView::Enum(xs), f)),
                        Err(m) => Err(m),
                    }
                } else {
                    Ok((ValueView::Scalar(id), e))
                },
                Err(m) => Err(m),
            }
        } else {
            Err("unexpected character `"@ + char_text(cs[q]) + "`"@)
        }
    }
}

/// The entries from `p` on, after `acc` already read: up to the end of the
/// text at top level, up to the closing `}` when `nested`.
pub open spec fn p_entries(
    cs: Seq<char>,
    p: int,
    nested: bool,
    acc: Seq<(Seq<char>, ValueView)>,
) -> Result<(Seq<(Seq<char>, ValueView)>, int), Seq<char>>
    decreases cs.len() + 1 - p, 1int,
{
    if p < 0 || p > cs.len() {
        Err("missing closing `}`"@)
    } else {
        let q = skip_trivia(cs, p);
        proof {
            lemma_skip_trivia(cs, p);
        }
        if q >= cs.len() {
            if nested {
                Err("missing closing `}`"@)
            } else {
                Ok((acc, q))
            }
        } else if cs[q] == '}' {
            if !nested {
                Err("unexpected `}`"@)
            } else {
                Ok((acc, q + 1))
            }
        } else {
            match p_ident(cs, q) {
                Err(m) => Err(m),
                Ok((key, r)) => {
                    proof {
                        lemma_ident_end(cs, q);
                        lemma_skip_trivia(cs, r);
                    }
                    let s = skip_trivia(cs, r);
                    let v = if s < cs.len() && (cs[s] == ':' || cs[s] == '=') {
                        p_value(cs, s + 1)
                    } else if s < cs.len() && cs[s] == '{' {
                        p_value(cs, s)
                    } else {
                        Err("expected `:`, `=` or `{` after `"@ + key + "`"@)
                    };
                    match v {
                        Err(m) => Err(m),
                        Ok((val, t)) => if t > p && t <= cs.len() {
                            p_entries(cs, t, nested, acc.push((key, val)))
                        } else {
                            Err("missing closing `}`"@)
                        },
                    }
                },
            }
        }
    }
}

fn parse_value(cs: &Vec<char>, p: usize) -> (r: Result<(Value, usize), AuthDslError>)
    requires
        p <= cs@.len(),
    ensures
        match p_value(cs@, p as int) {
            Ok((v, e)) => r matches Ok((x, q)) && value_view(x) == v && q == e && p < q <= cs@.len(),
            Err(m) => r matches Err(err) && err.message@ == m,
        },
    decreases cs@.len() + 1 - p, 0int,
{
    let q = skip_trivia_exec(cs, p);
    if q >= cs.len() {
        return Err(dsl_error(owned("unexpected end of auth block")));
    }
    let c = cs[q];
    if c == '{' {
        match parse_entries(cs, q + 1, true) {
            Ok((es, e)) => {
                let v = Value::Block(es);
                proof {
                    assert(value_view(v) == ValueView::Block(entries_view(es@)));
                }
                Ok((v, e))
            },
            Err(err) => Err(err),
        }
    } else if c == '[' {
        match parse_list(cs, q) {
            Ok((xs, e)) => Ok((Value::List(xs), e)),
            Err(err) => Err(err),
        }
    } else if c == '"' {
        match parse_quoted(cs, q) {
            Ok((x, e)) => Ok((Value::Scalar(x), e)),
            Err(err) => Err(err),
        }
    } else if is_ident_char_exec(c) {
        match parse_ident(cs, q) {
            Ok((id, e)) => {
                let is_enum = crate::text::str_eq(id.as_str(), "enum");
                if is_enum && e < cs.len() && cs[e] == '[' {
                    match parse_list(cs, e) {
                        Ok((xs, f)) => Ok((Value::Enum(xs), f)),
                        Err(err) => Err(err),
                    }
                } else {
                    Ok((Value::Scalar(id), e))
                }
            },
            Err(err) => Err(err),
        }
    } else {
        let mut found = String::new();
        crate::text::push_char(&mut found, c);
        proof {
            assert(found@ =~= char_text(c));
        }
        let msg = cat3("unexpected character `", found.as_str(), "`");
        Err(dsl_error(msg))
    }
}

fn parse_entries(cs: &Vec<char>, p: usize, nested: bool) -> (r: Result<(Vec<(String, Value)>, usize), AuthDslError>)
    requires
        p <= cs@.len(),
    ensures
        match p_entries(cs@, p as int, nested, Seq::empty()) {
            Ok((es, e)) => r matches Ok((v, q)) && entries_view(v@) == es && q == e && p <= q <= cs@.len(),
            Err(m) => r matches Err(err) && err.message@ == m,
        },
    decreases cs@.len() + 1 - p, 1int,
{
    let mut entries: Vec<(String, Value)> = Vec::new();
    let mut pos = p;
    assert(entries_view(entries@) =~= Seq::<(Seq<char>, ValueView)>::empty());
    while true
        invariant
            p <= pos <= cs@.len(),
            p_entries(cs@, p as int, nested, Seq::empty()) == p_entries(
                cs@,
                pos as int,
                nested,
                entries_view(entries@),
            ),
        decreases cs@.len() + 1 - pos,
    {
        let q = skip_trivia_exec(cs, pos);
        if q >= cs.len() {
            if nested {
                return Err(dsl_error(owned("missing closing `}`")));
            }
            return Ok((entries, q));
        }
        if cs[q] == '}' {
            if !nested {
                return Err(dsl_error(owned("unexpected `}`")));
            }
            return Ok((entries, q + 1));
        }
        let (key, r) = match parse_ident(cs, q) {
            Ok(x) => x,
            Err(err) => return Err(err),
        };
        let s = skip_trivia_exec(cs, r);
        let v = if s < cs.len() && (cs[s] == ':' || cs[s] == '=') {
            parse_value(cs, s + 1)
        } else if s < cs.len() && cs[s] == '{' {
            parse_value(cs, s)
        } else {
            let head = cat("expected `:`, `=` or `{` after `", key.as_str());
            let msg = cat(head.as_str(), "`");
            return Err(dsl_error(msg));
        };
        match v {
            Err(err) => return Err(err),
            Ok((val, t)) => {
                let ghost before = entries@;
                let ghost kv = key@;
                let ghost vv = value_view(val);
                entries.push((key, val));
                proof {
                    lemma_entries_view_push(before, (key, val));
                }
                pos = t;
            },
        }
    }
    Err(dsl_error(owned("missing closing `}`")))
}

// ---------------------------------------------------------------------------
// What the entries mean.
// ---------------------------------------------------------------------------

pub open spec fn ex_scalar(key: Seq<char>, v: ValueView) -> Result<Seq<char>, Seq<char>> {
    match v {
        ValueView::Scalar(s) => Ok(s),
        other => Err("`"@ + key + "` expects a value, found "@ + value_kind(other)),
    }
}

pub open spec fn ex_bool(key: Seq<char>, v: ValueView) -> Result<bool, Seq<char>> {
    match ex_scalar(key, v) {
        Err(m) => Err(m),
        Ok(s) => if s == "true"@ {
            Ok(true)
        } else if s == "false"@ {
            Ok(false)
        } else {
            Err(key + " must be true or false"@)
        },
    }
}

pub open spec fn all_digits(d: Seq<char>) -> bool {
    forall|i: int| 0 <= i < d.len() ==> '0' <= #[trigger] d[i] && d[i] <= '9'
}

pub open spec fn digits_value(d: Seq<char>) -> nat
    decreases d.len(),
{
    if d.len() == 0 {
        0
    } else {
        digits_value(d.drop_last()) * 10 + ((d.last() as u32) - 48) as nat
    }
}

/// What `str::parse` reads as an unsigned integer, before range checks: an
/// optional `+`, then one or more decimal digits.
pub open spec fn parse_unsigned(s: Seq<char>) -> Option<nat> {
    let d = if s.len() > 0 && s[0] == '+' {
        s.drop_first()
    } else {
        s
    };
    if d.len() > 0 && all_digits(d) {
        Some(digits_value(d))
    } else {
        None
    }
}

pub open spec fn ex_usize(key: Seq<char>, v: ValueView) -> Result<usize, Seq<char>> {
    match ex_scalar(key, v) {
        Err(m) => Err(m),
        Ok(s) => match parse_unsigned(s) {
            Some(n) => if n <= usize::MAX {
                Ok(n as usize)
            } else {
                Err(key + " must be a non-negative integer"@)
            },
            None => Err(key + " must be a non-negative integer"@),
        },
    }
}

pub open spec fn ex_opt_u32(key: Seq<char>, v: ValueView) -> Result<Option<u32>, Seq<char>> {
    match ex_scalar(key, v) {
        Err(m) => Err(m),
        Ok(s) => if s == "null"@ {
            Ok(None)
        } else {
            match parse_unsigned(s) {
                Some(n) => if n <= u32::MAX {
                    Ok(Some(n as u32))
                } else {
                    Err(key + " must be an integer or null"@)
                },
                None => Err(key + " must be an integer or null"@),
            }
        },
    }
}

/// The items that are not blank, in order.
pub open spec fn filter_nonblank(items: Seq<Seq<char>>) -> Seq<Seq<char>>
    decreases items.len(),
{
    if items.len() == 0 {
        items
    } else if blank_seq(items.last()) {
        filter_nonblank(items.drop_last())
    } else {
        filter_nonblank(items.drop_last()).push(items.last())
    }
}

pub open spec fn ex_providers(v: ValueView) -> Result<Seq<Seq<char>>, Seq<char>> {
    match v {
        ValueView::List(items) => {
            let kept = filter_nonblank(items);
            if kept.len() == 0 {
                Err("providers cannot be empty"@)
            } else {
                Ok(kept)
            }
        },
        _ => Err("providers must be in []"@),
    }
}

pub open spec fn p_isolation(input: Seq<char>) -> Result<IsolationMode, Seq<char>> {
    if lower_seq(input) == "strict"@ {
        Ok(IsolationMode::Strict)
    } else if lower_seq(input) == "shared_storage_with_policy"@ {
        Ok(IsolationMode::SharedStorageWithPolicy)
    } else {
        Err("unknown isolation mode `"@ + input + "`"@)
    }
}

pub open spec fn p_claim_kind(name: Seq<char>, v: ValueView) -> Result<ClaimKindView, Seq<char>> {
    match v {
        ValueView::Enum(variants) => {
            let kept = filter_nonblank(variants);
            if kept.len() == 0 {
                Err("enum claim must have values"@)
            } else {
                match first_dup(kept, 0) {
                    Some(j) => Err("duplicate enum value `"@ + kept[j] + "`"@),
                    None => Ok(ClaimKindView::Enum(kept)),
                }
            }
        },
        ValueView::Scalar(s) => if s == "string"@ {
            Ok(ClaimKindView::String)
        } else if s == "integer"@ {
            Ok(ClaimKindView::Integer)
        } else if s == "boolean"@ {
            Ok(ClaimKindView::Boolean)
        } else {
            Err("unsupported claim kind `"@ + s + "`"@)
        },
        other => Err("claim `"@ + name + "` has an unsupported "@ + value_kind(other) + " definition"@),
    }
}

/// The claims the entries from `i` on declare, in order.
pub open spec fn claims_from(es: Seq<(Seq<char>, ValueView)>, i: int) -> Result<Seq<ClaimDefView>, Seq<char>>
    decreases es.len() - i,
{
    if i < 0 || i >= es.len() {
        Ok(Seq::empty())
    } else {
        match p_claim_kind(es[i].0, es[i].1) {
            Err(m) => Err(m),
            Ok(k) => match claims_from(es, i + 1) {
                Err(m) => Err(m),
                Ok(rest) => Ok(seq![ClaimDefView { name: es[i].0, kind: k }] + rest),
            },
        }
    }
}

pub open spec fn p_claims(v: ValueView) -> Result<Seq<ClaimDefView>, Seq<char>> {
    match v {
        ValueView::Block(es) => claims_from(es, 0),
        _ => Err("claims must be a `{ ... }` block"@),
    }
}

/// The action a capability name implies: what follows its first `.`.
pub open spec fn implied_action(capability: Seq<char>) -> Option<Seq<char>> {
    match first_index_of(capability, '.') {
        Some(i) => Some(capability.subrange(i + 1, capability.len() as int)),
        None => None,
    }
}

/// A policy's fields from `i` on applied to `pol`.
pub open spec fn policy_fields_from(
    fields: Seq<(Seq<char>, ValueView)>,
    i: int,
    pol: PolicyDefView,
) -> Result<PolicyDefView, Seq<char>>
    decreases fields.len() - i,
{
    if i < 0 || i >= fields.len() {
        Ok(pol)
    } else {
        let key = fields[i].0;
        let v = fields[i].1;
        if key == "tenant"@ {
            match ex_scalar(key, v) {
                Err(m) => Err(m),
                Ok(t) => if t != "current"@ {
                    Err("policy tenant must be `current`"@)
                } else {
                    policy_fields_from(fields, i + 1, PolicyDefView { tenant_current: true, ..pol })
                },
            }
        } else if key == "resource"@ {
            match ex_scalar(key, v) {
                Err(m) => Err(m),
                Ok(r) => policy_fields_from(fields, i + 1, PolicyDefView { resource: Some(r), ..pol }),
            }
        } else if key == "action"@ {
            match ex_scalar(key, v) {
                Err(m) => Err(m),
                Ok(a) => policy_fields_from(fields, i + 1, PolicyDefView { action: Some(a), ..pol }),
            }
        } else {
            match v {
                ValueView::List(xs) => policy_fields_from(
                    fields,
                    i + 1,
                    PolicyDefView { claims: pol.claims.push((key, xs)), ..pol },
                ),
                ValueView::Enum(xs) => policy_fields_from(
                    fields,
                    i + 1,
                    PolicyDefView { claims: pol.claims.push((key, xs)), ..pol },
                ),
                ValueView::Scalar(x) => policy_fields_from(
                    fields,
                    i + 1,
                    PolicyDefView { claims: pol.claims.push((key, seq![x])), ..pol },
                ),
                ValueView::Block(_) => Err("policy claim `"@ + key + "` cannot be a block"@),
            }
        }
    }
}

/// The policy a `capability { ... }` block declares, its claim conditions
/// sorted.
pub open spec fn p_policy(capability: Seq<char>, fields: Seq<(Seq<char>, ValueView)>) -> Result<PolicyDefView, Seq<char>> {
    let init = PolicyDefView {
        capability,
        tenant_current: false,
        resource: None,
        action: implied_action(capability),
        claims: Seq::empty(),
    };
    match policy_fields_from(fields, 0, init) {
        Err(m) => Err(m),
        Ok(pol) => Ok(PolicyDefView { claims: isort_by(pol.claims, le_of::<PolicyClaimCondition>()), ..pol }),
    }
}

pub open spec fn policies_from(es: Seq<(Seq<char>, ValueView)>, i: int) -> Result<Seq<PolicyDefView>, Seq<char>>
    decreases es.len() - i,
{
    if i < 0 || i >= es.len() {
        Ok(Seq::empty())
    } else {
        match es[i].1 {
            ValueView::Block(fields) => match p_policy(es[i].0, fields) {
                Err(m) => Err(m),
                Ok(pol) => match policies_from(es, i + 1) {
                    Err(m) => Err(m),
                    Ok(rest) => Ok(seq![pol] + rest),
                },
            },
            _ => Err("policy `"@ + es[i].0 + "` must be a block"@),
        }
    }
}

pub open spec fn p_policies(v: ValueView) -> Result<Seq<PolicyDefView>, Seq<char>> {
    match v {
        ValueView::Block(es) => policies_from(es, 0),
        _ => Err("policy must be a `{ ... }` block"@),
    }
}

/// A key among the first `i` entries.
pub open spec fn key_seen(es: Seq<(Seq<char>, ValueView)>, i: int) -> bool {
    exists|j: int| 0 <= j < i && #[trigger] es[j].0 == es[i].0
}

/// The password fields from `i` on applied to `pol`, then validated.
pub open spec fn password_from(es: Seq<(Seq<char>, ValueView)>, i: int, pol: PasswordPolicy) -> Result<PasswordPolicy, Seq<char>>
    decreases es.len() - i,
{
    if i < 0 || i >= es.len() {
        match password_error(pol) {
            Some(m) => Err(m),
            None => Ok(pol),
        }
    } else {
        let key = es[i].0;
        let v = es[i].1;
        if key_seen(es, i) {
            Err("duplicate password field `"@ + key + "`"@)
        } else if key == "min_length"@ {
            match ex_usize(key, v) {
                Err(m) => Err(m),
                Ok(n) => password_from(es, i + 1, PasswordPolicy { min_length: n, ..pol }),
            }
        } else if key == "max_length"@ {
            match ex_usize(key, v) {
                Err(m) => Err(m),
                Ok(n) => password_from(es, i + 1, PasswordPolicy { max_length: n, ..pol }),
            }
        } else if key == "require_uppercase"@ {
            match ex_bool(key, v) {
                Err(m) => Err(m),
                Ok(b) => password_from(es, i + 1, PasswordPolicy { require_uppercase: b, ..pol }),
            }
        } else if key == "require_lowercase"@ {
            match ex_bool(key, v) {
                Err(m) => Err(m),
                Ok(b) => password_from(es, i + 1, PasswordPolicy { require_lowercase: b, ..pol }),
            }
        } else if key == "require_number"@ {
            match ex_bool(key, v) {
                Err(m) => Err(m),
                Ok(b) => password_from(es, i + 1, PasswordPolicy { require_number: b, ..pol }),
            }
        } else if key == "require_special_character"@ {
            match ex_bool(key, v) {
                Err(m) => Err(m),
                Ok(b) => password_from(es, i + 1, PasswordPolicy { require_special_character: b, ..pol }),
            }
        } else if key == "expiration_days"@ || key == "password_expiration_days"@ {
            match ex_opt_u32(key, v) {
                Err(m) => Err(m),
                Ok(d) => password_from(es, i + 1, PasswordPolicy { password_expiration_days: d, ..pol }),
            }
        } else if key == "history_count"@ || key == "password_history_count"@ {
            match ex_usize(key, v) {
                Err(m) => Err(m),
                Ok(n) => password_from(es, i + 1, PasswordPolicy { password_history_count: n, ..pol }),
            }
        } else if key == "allow_password_change"@ {
            match ex_bool(key, v) {
                Err(m) => Err(m),
                Ok(b) => password_from(es, i + 1, PasswordPolicy { allow_password_change: b, ..pol }),
            }
        } else if key == "allow_password_reset"@ {
            match ex_bool(key, v) {
                Err(m) => Err(m),
                Ok(b) => password_from(es, i + 1, PasswordPolicy { allow_password_reset: b, ..pol }),
            }
        } else {
            Err("unknown password field `"@ + key + "`"@)
        }
    }
}

pub open spec fn p_password(v: ValueView) -> Result<PasswordPolicy, Seq<char>> {
    match v {
        ValueView::Block(es) => password_from(es, 0, default_password_policy()),
        _ => Err("password must be a `{ ... }` block"@),
    }
}

/// The UI fields from `i` on applied to `ui`, then validated and made
/// canonical. A `mode` field is accepted; the canonical mode follows from
/// the screens.
pub open spec fn ui_from(es: Seq<(Seq<char>, ValueView)>, i: int, ui: AuthUiConfigView) -> Result<AuthUiConfigView, Seq<char>>
    decreases es.len() - i,
{
    if i < 0 || i >= es.len() {
        match ui_error(ui) {
            Some(m) => Err(m),
            None => Ok(canonical_ui(ui)),
        }
    } else {
        let key = es[i].0;
        let v = es[i].1;
        if key_seen(es, i) {
            Err("duplicate ui field `"@ + key + "`"@)
        } else if key == "theme"@ {
            match ex_scalar(key, v) {
                Err(m) => Err(m),
                Ok(t) => ui_from(es, i + 1, AuthUiConfigView { theme: t, ..ui }),
            }
        } else if key == "mode"@ {
            match ex_scalar(key, v) {
                Err(m) => Err(m),
                Ok(_) => ui_from(es, i + 1, ui),
            }
        } else {
            match ui_screen_named(key) {
                None => Err("unknown ui surface `"@ + key + "`"@),
                Some(screen) => match ex_scalar(key, v) {
                    Err(m) => Err(m),
                    Ok(mode) => if mode == "default"@ {
                        ui_from(es, i + 1, AuthUiConfigView {
                            screens: ui.screens.push(UiScreenOverride { screen, mode: AuthUiMode::Default }),
                            ..ui
                        })
                    } else if mode == "custom"@ {
                        ui_from(es, i + 1, AuthUiConfigView {
                            screens: ui.screens.push(UiScreenOverride { screen, mode: AuthUiMode::Custom }),
                            ..ui
                        })
                    } else {
                        Err("ui surface `"@ + key + "` must be \"default\" or \"custom\", found `"@ + mode + "`"@)
                    },
                },
            }
        }
    }
}

pub open spec fn p_ui(v: ValueView) -> Result<AuthUiConfigView, Seq<char>> {
    match v {
        ValueView::Block(es) => ui_from(es, 0, default_config_view().ui),
        _ => Err("ui must be a `{ ... }` block"@),
    }
}

/// The top-level entries from `i` on applied to `cfg`, where `tenant` is the
/// tenancy an earlier spelling declared. The `experience` and `storage`
/// groups a generated declaration carries are blocks that the contract
/// accepts and does not interpret.
pub open spec fn interpret_from(
    es: Seq<(Seq<char>, ValueView)>,
    i: int,
    cfg: AuthConfigView,
    tenant: Option<bool>,
) -> Result<AuthConfigView, Seq<char>>
    decreases es.len() - i,
{
    if i < 0 || i >= es.len() {
        Ok(cfg)
    } else {
        let key = es[i].0;
        let v = es[i].1;
        if key_seen(es, i) {
            Err("duplicate auth field `"@ + key + "`"@)
        } else if key == "multi_tenant"@ || key == "tenant"@ {
            match ex_bool(key, v) {
                Err(m) => Err(m),
                Ok(declared) => if tenant matches Some(prev) && prev != declared {
                    Err("conflicting tenant declaration"@)
                } else {
                    interpret_from(es, i + 1, AuthConfigView { multi_tenant: declared, ..cfg }, Some(declared))
                },
            }
        } else if key == "providers"@ {
            match ex_providers(v) {
                Err(m) => Err(m),
                Ok(ps) => interpret_from(es, i + 1, AuthConfigView { providers: ps, ..cfg }, tenant),
            }
        } else if key == "isolation"@ {
            match ex_scalar(key, v) {
                Err(m) => Err(m),
                Ok(s) => match p_isolation(s) {
                    Err(m) => Err(m),
                    Ok(iso) => interpret_from(es, i + 1, AuthConfigView { isolation: iso, ..cfg }, tenant),
                },
            }
        } else if key == "claims"@ {
            match p_claims(v) {
                Err(m) => Err(m),
                Ok(cs) => interpret_from(es, i + 1, AuthConfigView { claims: cs, ..cfg }, tenant),
            }
        } else if key == "policy"@ {
            match p_policies(v) {
                Err(m) => Err(m),
                Ok(ps) => interpret_from(es, i + 1, AuthConfigView { policies: ps, ..cfg }, tenant),
            }
        } else if key == "password"@ || key == "password_policy"@ {
            match p_password(v) {
                Err(m) => Err(m),
                Ok(pw) => interpret_from(es, i + 1, AuthConfigView { password_policy: pw, ..cfg }, tenant),
            }
        } else if key == "agents"@ {
            match ex_bool(key, v) {
                Err(m) => Err(m),
                Ok(b) => interpret_from(es, i + 1, AuthConfigView { agents: b, ..cfg }, tenant),
            }
        } else if key == "ui"@ {
            match p_ui(v) {
                Err(m) => Err(m),
                Ok(ui) => interpret_from(es, i + 1, AuthConfigView { ui, ..cfg }, tenant),
            }
        } else if key == "experience"@ || key == "storage"@ {
            match v {
                ValueView::Block(_) => interpret_from(es, i + 1, cfg, tenant),
                _ => Err(key + " must be a `{ ... }` block"@),
            }
        } else {
            Err("unknown auth field `"@ + key + "`"@)
        }
    }
}

/// Where the body of the first auth block closes: the `}` that balances the
/// block's `{` at `open`.
pub open spec fn match_close(src: Seq<char>, i: int, depth: int) -> Option<int>
    decreases src.len() - i,
{
    if i < 0 || i >= src.len() {
        None
    } else if src[i] == '{' {
        match_close(src, i + 1, depth + 1)
    } else if src[i] == '}' {
        if depth - 1 == 0 {
            Some(i)
        } else {
            match_close(src, i + 1, depth - 1)
        }
    } else {
        match_close(src, i + 1, depth)
    }
}

/// The text between the braces of the first `use auth` block.
pub open spec fn extract_block(src: Seq<char>) -> Result<Seq<char>, Seq<char>> {
    match find_from(src, "use auth"@, 0) {
        None => Err("missing `use auth` block"@),
        Some(start) => match first_index_of(src.subrange(start, src.len() as int), '{') {
            None => Err("missing `{` in auth block"@),
            Some(k) => {
                let open = start + k;
                match match_close(src, open, 0) {
                    None => Err("missing closing `}` in auth block"@),
                    Some(close) => Ok(src.subrange(open + 1, close)),
                }
            },
        },
    }
}

/// `use auth` occurs at least twice, without overlap.
pub open spec fn declares_twice(src: Seq<char>) -> bool {
    match find_from(src, "use auth"@, 0) {
        Some(i) => find_from(src, "use auth"@, i + 8) is Some,
        None => false,
    }
}

/// The contract with `local` as its provider where it declares none.
pub open spec fn with_default_provider(cfg: AuthConfigView) -> AuthConfigView {
    if cfg.providers.len() == 0 {
        AuthConfigView { providers: seq!["local"@], ..cfg }
    } else {
        cfg
    }
}

/// What `parse_auth_block` gives for a source text: a bare `use auth` is the
/// default contract with the local provider; otherwise exactly one block,
/// whose entries are read, interpreted and validated.
pub open spec fn parse_auth_spec(src: Seq<char>) -> Result<AuthConfigView, Seq<char>> {
    if trim_seq(src) == "use auth"@ {
        Ok(with_default_provider(default_config_view()))
    } else if declares_twice(src) {
        Err("multiple auth blocks are not allowed"@)
    } else {
        match extract_block(src) {
            Err(m) => Err(m),
            Ok(body) => match p_entries(body, 0, false, Seq::empty()) {
                Err(m) => Err(m),
                Ok((es, _)) => match interpret_from(es, 0, default_config_view(), None) {
                    Err(m) => Err(m),
                    Ok(cfg) => {
                        let full = with_default_provider(cfg);
                        match config_error(full) {
                            Some(m) => Err(m),
                            None => Ok(full),
                        }
                    },
                },
            },
        }
    }
}

// ---------------------------------------------------------------------------
// Reading the entries.
// ---------------------------------------------------------------------------

proof fn lemma_entries_view_index(es: Seq<(String, Value)>)
    ensures
        entries_view(es).len() == es.len(),
        forall|i: int| 0 <= i < es.len() ==> #[trigger] entries_view(es)[i] == (es[i].0@, value_view(es[i].1)),
    decreases es.len(),
{
    if es.len() > 0 {
        let t = es.subrange(0, es.len() - 1);
        lemma_entries_view_index(t);
        assert forall|i: int| 0 <= i < es.len() implies #[trigger] entries_view(es)[i] == (es[i].0@, value_view(es[i].1)) by {
            if i < es.len() - 1 {
                assert(t[i] == es[i]);
            }
        }
    }
}

fn expect_scalar<'a>(key: &str, v: &'a Value) -> (r: Result<&'a String, AuthDslError>)
    ensures
        match ex_scalar(key@, value_view(*v)) {
            Ok(s) => r matches Ok(x) && x@ == s,
            Err(m) => r matches Err(e) && e.message@ == m,
        },
{
    match v {
        Value::Scalar(s) => Ok(s),
        other => {
            let head = cat3("`", key, "` expects a value, found ");
            Err(dsl_error(cat(head.as_str(), value_kind_exec(other))))
        },
    }
}

fn expect_bool(key: &str, v: &Value) -> (r: Result<bool, AuthDslError>)
    ensures
        match ex_bool(key@, value_view(*v)) {
            Ok(b) => r == Ok::<bool, AuthDslError>(b),
            Err(m) => r matches Err(e) && e.message@ == m,
        },
{
    let s = match expect_scalar(key, v) {
        Ok(s) => s,
        Err(e) => return Err(e),
    };
    if str_eq(s.as_str(), "true") {
        Ok(true)
    } else if str_eq(s.as_str(), "false") {
        Ok(false)
    } else {
        Err(dsl_error(cat(key, " must be true or false")))
    }
}

/// The unsigned integer `s` spells, where it is at most `max`.
pub(crate) fn parse_unsigned_exec(s: &str, max: u64) -> (r: Option<u64>)
    ensures
        match parse_unsigned(s@) {
            Some(n) => if n <= max {
                r == Some(n as u64)
            } else {
                r is None
            },
            None => r is None,
        },
{
    let v = chars_of(s);
    let start: usize = if v.len() > 0 && v[0] == '+' {
        1
    } else {
        0
    };
    let ghost d = if s@.len() > 0 && s@[0] == '+' {
        s@.drop_first()
    } else {
        s@
    };
    assert(d =~= v@.subrange(start as int, v@.len() as int));
    if start >= v.len() {
        return None;
    }
    let mut acc: u64 = 0;
    let mut i: usize = start;
    while i < v.len()
        invariant
            start <= i <= v@.len(),
            v@ == s@,
            d == (if s@.len() > 0 && s@[0] == '+' {
                s@.drop_first()
            } else {
                s@
            }),
            d == v@.subrange(start as int, v@.len() as int),
            all_digits(d.take(i - start)),
            acc as nat == digits_value(d.take(i - start)),
            acc <= max,
        decreases v@.len() - i,
    {
        let c = v[i];
        let ghost t = d.take(i + 1 - start);
        proof {
            assert(t.drop_last() =~= d.take(i - start));
            assert(t.last() == c);
        }
        if !('0' <= c && c <= '9') {
            proof {
                assert(d[i - start] == c);
                assert(!all_digits(d));
                assert(parse_unsigned(s@) is None);
            }
            return None;
        }
        let digit: u64 = (c as u32 - 48) as u64;
        let next: u128 = (acc as u128) * 10 + (digit as u128);
        if next > max as u128 {
            proof {
                assert(digits_value(t) == acc * 10 + digit);
                lemma_digits_value_grows(d, i + 1 - start);
                assert(d.len() > 0);
                if all_digits(d) {
                    assert(digits_value(d) > max);
                }
            }
            return None;
        }
        acc = next as u64;
        proof {
            assert forall|k: int| 0 <= k < t.len() implies '0' <= #[trigger] t[k] && t[k] <= '9' by {
                if k < t.len() - 1 {
                    assert(t[k] == d.take(i - start)[k]);
                }
            }
        }
        i = i + 1;
    }
    assert(d.take(i - start) =~= d);
    Some(acc)
}

proof fn lemma_digits_value_grows(d: Seq<char>, n: int)
    requires
        0 <= n <= d.len(),
    ensures
        digits_value(d.take(n)) <= digits_value(d) || !all_digits(d),
    decreases d.len() - n,
{
    if n < d.len() {
        lemma_digits_value_grows(d, n + 1);
        let t = d.take(n + 1);
        assert(t.drop_last() =~= d.take(n));
        if all_digits(d) {
            assert('0' <= d[n] && d[n] <= '9');
            assert(t.last() == d[n]);
        }
    } else {
        assert(d.take(n) =~= d);
    }
}

fn expect_usize(key: &str, v: &Value) -> (r: Result<usize, AuthDslError>)
    ensures
        match ex_usize(key@, value_view(*v)) {
            Ok(n) => r == Ok::<usize, AuthDslError>(n),
            Err(m) => r matches Err(e) && e.message@ == m,
        },
{
    let s = match expect_scalar(key, v) {
        Ok(s) => s,
        Err(e) => return Err(e),
    };
    match parse_unsigned_exec(s.as_str(), usize::MAX as u64) {
        Some(n) => Ok(n as usize),
        None => Err(dsl_error(cat(key, " must be a non-negative integer"))),
    }
}

fn expect_optional_u32(key: &str, v: &Value) -> (r: Result<Option<u32>, AuthDslError>)
    ensures
        match ex_opt_u32(key@, value_view(*v)) {
            Ok(n) => r == Ok::<Option<u32>, AuthDslError>(n),
            Err(m) => r matches Err(e) && e.message@ == m,
        },
{
    let s = match expect_scalar(key, v) {
        Ok(s) => s,
        Err(e) => return Err(e),
    };
    if str_eq(s.as_str(), "null") {
        return Ok(None);
    }
    match parse_unsigned_exec(s.as_str(), u32::MAX as u64) {
        Some(n) => Ok(Some(n as u32)),
        None => Err(dsl_error(cat(key, " must be an integer or null"))),
    }
}

fn filter_nonblank_exec(items: &Vec<String>) -> (r: Vec<String>)
    ensures
        views(r@) == filter_nonblank(views(items@)),
{
    let mut out: Vec<String> = Vec::new();
    let mut i: usize = 0;
    while i < items.len()
        invariant
            i <= items@.len(),
            views(out@) == filter_nonblank(views(items@).take(i as int)),
        decreases items@.len() - i,
    {
        proof {
            let t = views(items@).take(i + 1);
            assert(t.drop_last() =~= views(items@).take(i as int));
        }
        if !is_blank(items[i].as_str()) {
            let x = items[i].clone();
            let ghost before = out@;
            out.push(x);
            proof {
                lemma_map_push(before, x, |t: String| t@);
            }
        }
        i = i + 1;
    }
    assert(views(items@).take(i as int) =~= views(items@));
    out
}

fn expect_providers(v: &Value) -> (r: Result<Vec<String>, AuthDslError>)
    ensures
        match ex_providers(value_view(*v)) {
            Ok(ps) => r matches Ok(x) && views(x@) == ps,
            Err(m) => r matches Err(e) && e.message@ == m,
        },
{
    match v {
        Value::List(items) => {
            let kept = filter_nonblank_exec(items);
            if kept.len() == 0 {
                Err(dsl_error(owned("providers cannot be empty")))
            } else {
                Ok(kept)
            }
        },
        _ => Err(dsl_error(owned("providers must be in []"))),
    }
}

fn parse_isolation(input: &String) -> (r: Result<IsolationMode, AuthDslError>)
    ensures
        match p_isolation(input@) {
            Ok(m) => r == Ok::<IsolationMode, AuthDslError>(m),
            Err(m) => r matches Err(e) && e.message@ == m,
        },
{
    let lower = to_lower(input.as_str());
    if str_eq(lower.as_str(), "strict") {
        Ok(IsolationMode::Strict)
    } else if str_eq(lower.as_str(), "shared_storage_with_policy") {
        Ok(IsolationMode::SharedStorageWithPolicy)
    } else {
        Err(dsl_error(cat3("unknown isolation mode `", input.as_str(), "`")))
    }
}

fn parse_claim_kind(name: &String, v: &Value) -> (r: Result<ClaimKind, AuthDslError>)
    ensures
        match p_claim_kind(name@, value_view(*v)) {
            Ok(k) => r matches Ok(x) && x@ == k,
            Err(m) => r matches Err(e) && e.message@ == m,
        },
{
    match v {
        Value::Enum(variants) => {
            let kept = filter_nonblank_exec(variants);
            if kept.len() == 0 {
                return Err(dsl_error(owned("enum claim must have values")));
            }
            match reject_duplicates(&kept, "duplicate enum value") {
                Err(e) => {
                    proof {
                        reveal_strlit("duplicate enum value");
                        reveal_strlit(" `");
                        reveal_strlit("duplicate enum value `");
                        let j = first_dup(views(kept@), 0)->0;
                        assert(("duplicate enum value"@ + " `"@ + views(kept@)[j] + "`"@) =~= ("duplicate enum value `"@ + views(kept@)[j] + "`"@));
                    }
                    Err(dsl_error(e.message))
                },
                Ok(()) => Ok(ClaimKind::Enum(kept)),
            }
        },
        Value::Scalar(s) => {
            if str_eq(s.as_str(), "string") {
                Ok(ClaimKind::String)
            } else if str_eq(s.as_str(), "integer") {
                Ok(ClaimKind::Integer)
            } else if str_eq(s.as_str(), "boolean") {
                Ok(ClaimKind::Boolean)
            } else {
                Err(dsl_error(cat3("unsupported claim kind `", s.as_str(), "`")))
            }
        },
        other => {
            let head = cat3("claim `", name.as_str(), "` has an unsupported ");
            Err(dsl_error(cat3(head.as_str(), value_kind_exec(other), " definition")))
        },
    }
}

fn key_seen_exec(entries: &Vec<(String, Value)>, i: usize) -> (r: bool)
    requires
        i < entries@.len(),
    ensures
        r == key_seen(entries_view(entries@), i as int),
{
    proof {
        lemma_entries_view_index(entries@);
    }
    let mut j: usize = 0;
    while j < i
        invariant
            j <= i < entries@.len(),
            entries_view(entries@).len() == entries@.len(),
            forall|k: int| 0 <= k < entries@.len() ==> #[trigger] entries_view(entries@)[k] == (entries@[k].0@, value_view(entries@[k].1)),
            forall|k: int| 0 <= k < j ==> entries_view(entries@)[k].0 != entries_view(entries@)[i as int].0,
        decreases i - j,
    {
        if entries[j].0 == entries[i].0 {
            assert(entries_view(entries@)[j as int].0 == entries_view(entries@)[i as int].0);
            return true;
        }
        j = j + 1;
    }
    false
}

/// `Ok(acc + rest)` where `r` is `Ok(rest)`; `r`'s error otherwise.
pub open spec fn after<T>(acc: Seq<T>, r: Result<Seq<T>, Seq<char>>) -> Result<Seq<T>, Seq<char>> {
    match r {
        Ok(rest) => Ok(acc + rest),
        Err(m) => Err(m),
    }
}

fn parse_claims(v: &Value) -> (r: Result<Vec<ClaimDef>, AuthDslError>)
    ensures
        match p_claims(value_view(*v)) {
            Ok(cs) => r matches Ok(x) && views_of(x@) == cs,
            Err(m) => r matches Err(e) && e.message@ == m,
        },
{
    match v {
        Value::Block(entries) => {
            let ghost es = entries_view(entries@);
            proof {
                lemma_entries_view_index(entries@);
                assert(views_of(Seq::<ClaimDef>::empty()) + claims_from(es, 0)->Ok_0 =~= claims_from(es, 0)->Ok_0);
            }
            let mut out: Vec<ClaimDef> = Vec::new();
            assert(views_of(out@) =~= Seq::<ClaimDefView>::empty());
            let mut i: usize = 0;
            while i < entries.len()
                invariant
                    i <= entries@.len(),
                    es == entries_view(entries@),
                    es.len() == entries@.len(),
                    forall|k: int| 0 <= k < entries@.len() ==> #[trigger] es[k] == (entries@[k].0@, value_view(entries@[k].1)),
                    value_view(*v) == ValueView::Block(es),
                    claims_from(es, 0) == after(views_of(out@), claims_from(es, i as int)),
                decreases entries@.len() - i,
            {
                let name = &entries[i].0;
                match parse_claim_kind(name, &entries[i].1) {
                    Err(e) => return Err(e),
                    Ok(k) => {
                        let c = ClaimDef { name: name.clone(), kind: k };
                        let ghost before = out@;
                        out.push(c);
                        proof {
                            lemma_map_push(before, c, |x: ClaimDef| x@);
                            match claims_from(es, i + 1) {
                                Ok(rest) => {
                                    assert(views_of(before) + (seq![c@] + rest) =~= views_of(out@) + rest);
                                },
                                Err(_) => {},
                            }
                        }
                    },
                }
                i = i + 1;
            }
            proof {
                assert(views_of(out@) + Seq::<ClaimDefView>::empty() =~= views_of(out@));
            }
            Ok(out)
        },
        _ => Err(dsl_error(owned("claims must be a `{ ... }` block"))),
    }
}

fn implied_action_exec(capability: &String) -> (r: Option<String>)
    ensures
        opt_view(r) == implied_action(capability@),
{
    let v = chars_of(capability.as_str());
    match find_char(v.as_slice(), '.') {
        Some(i) => {
            proof {
                crate::text::lemma_first_index_of(v@, '.');
            }
            let tail = slice_chars(v.as_slice(), i + 1, v.len());
            Some(string_from_chars(tail.as_slice()))
        },
        None => None,
    }
}

fn parse_policy(capability: &String, fields: &Vec<(String, Value)>) -> (r: Result<PolicyDef, AuthDslError>)
    ensures
        match p_policy(capability@, entries_view(fields@)) {
            Ok(p) => r matches Ok(x) && x@ == p,
            Err(m) => r matches Err(e) && e.message@ == m,
        },
{
    let ghost fs = entries_view(fields@);
    proof {
        lemma_entries_view_index(fields@);
    }
    let mut pol = PolicyDef {
        capability: capability.clone(),
        tenant_current: false,
        resource: None,
        action: implied_action_exec(capability),
        claims: Vec::new(),
    };
    assert(views_of(pol.claims@) =~= Seq::<(Seq<char>, Seq<Seq<char>>)>::empty());
    let mut i: usize = 0;
    while i < fields.len()
        invariant
            i <= fields@.len(),
            fs == entries_view(fields@),
            fs.len() == fields@.len(),
            forall|k: int| 0 <= k < fields@.len() ==> #[trigger] fs[k] == (fields@[k].0@, value_view(fields@[k].1)),
            policy_fields_from(fs, 0, PolicyDefView {
                capability: capability@,
                tenant_current: false,
                resource: None,
                action: implied_action(capability@),
                claims: Seq::empty(),
            }) == policy_fields_from(fs, i as int, pol@),
        decreases fields@.len() - i,
    {
        let key = &fields[i].0;
        let v = &fields[i].1;
        if str_eq(key.as_str(), "tenant") {
            match expect_scalar(key.as_str(), v) {
                Err(e) => return Err(e),
                Ok(t) => {
                    if !str_eq(t.as_str(), "current") {
                        return Err(dsl_error(owned("policy tenant must be `current`")));
                    }
                    pol.tenant_current = true;
                },
            }
        } else if str_eq(key.as_str(), "resource") {
            match expect_scalar(key.as_str(), v) {
                Err(e) => return Err(e),
                Ok(x) => {
                    pol.resource = Some(x.clone());
                },
            }
        } else if str_eq(key.as_str(), "action") {
            match expect_scalar(key.as_str(), v) {
                Err(e) => return Err(e),
                Ok(x) => {
                    pol.action = Some(x.clone());
                },
            }
        } else {
            let values: Vec<String> = match v {
                Value::List(xs) => copy_strings_local(xs),
                Value::Enum(xs) => copy_strings_local(xs),
                Value::Scalar(x) => {
                    let mut one: Vec<String> = Vec::new();
                    one.push(x.clone());
                    assert(views(one@) =~= seq![x@]);
                    one
                },
                Value::Block(_) => {
                    return Err(dsl_error(cat3("policy claim `", key.as_str(), "` cannot be a block")));
                },
            };
            let c = PolicyClaimCondition { claim: key.clone(), values };
            let ghost before = pol.claims@;
            pol.claims.push(c);
            proof {
                lemma_map_push(before, c, |x: PolicyClaimCondition| x@);
            }
        }
        i = i + 1;
    }
    let sorted = insertion_sort(pol.claims);
    Ok(PolicyDef {
        capability: pol.capability,
        tenant_current: pol.tenant_current,
        resource: pol.resource,
        action: pol.action,
        claims: sorted,
    })
}

fn copy_strings_local(v: &Vec<String>) -> (r: Vec<String>)
    ensures
        r@ == v@,
{
    let mut out: Vec<String> = Vec::new();
    let mut i: usize = 0;
    while i < v.len()
        invariant
            i <= v@.len(),
            out@ == v@.take(i as int),
        decreases v@.len() - i,
    {
        out.push(v[i].clone());
        assert(out@ =~= v@.take(i + 1));
        i = i + 1;
    }
    assert(v@.take(i as int) =~= v@);
    out
}

fn parse_policies(v: &Value) -> (r: Result<Vec<PolicyDef>, AuthDslError>)
    ensures
        match p_policies(value_view(*v)) {
            Ok(ps) => r matches Ok(x) && views_of(x@) == ps,
            Err(m) => r matches Err(e) && e.message@ == m,
        },
{
    match v {
        Value::Block(entries) => {
            let ghost es = entries_view(entries@);
            proof {
                lemma_entries_view_index(entries@);
                assert(views_of(Seq::<PolicyDef>::empty()) + policies_from(es, 0)->Ok_0 =~= policies_from(es, 0)->Ok_0);
            }
            let mut out: Vec<PolicyDef> = Vec::new();
            assert(views_of(out@) =~= Seq::<PolicyDefView>::empty());
            let mut i: usize = 0;
            while i < entries.len()
                invariant
                    i <= entries@.len(),
                    es == entries_view(entries@),
                    es.len() == entries@.len(),
                    forall|k: int| 0 <= k < entries@.len() ==> #[trigger] es[k] == (entries@[k].0@, value_view(entries@[k].1)),
                    value_view(*v) == ValueView::Block(es),
                    policies_from(es, 0) == after(views_of(out@), policies_from(es, i as int)),
                decreases entries@.len() - i,
            {
                let capability = &entries[i].0;
                match &entries[i].1 {
                    Value::Block(fields) => {
                        match parse_policy(capability, fields) {
                            Err(e) => return Err(e),
                            Ok(pol) => {
                                let ghost before = out@;
                                out.push(pol);
                                proof {
                                    lemma_map_push(before, pol, |x: PolicyDef| x@);
                                    match policies_from(es, i + 1) {
                                        Ok(rest) => {
                                            assert(views_of(before) + (seq![pol@] + rest) =~= views_of(out@) + rest);
                                        },
                                        Err(_) => {},
                                    }
                                }
                            },
                        }
                    },
                    _ => {
                        return Err(dsl_error(cat3("policy `", capability.as_str(), "` must be a block")));
                    },
                }
                i = i + 1;
            }
            proof {
                assert(views_of(out@) + Seq::<PolicyDefView>::empty() =~= views_of(out@));
            }
            Ok(out)
        },
        _ => Err(dsl_error(owned("policy must be a `{ ... }` block"))),
    }
}

fn parse_password(v: &Value) -> (r: Result<PasswordPolicy, AuthDslError>)
    ensures
        match p_password(value_view(*v)) {
            Ok(p) => r == Ok::<PasswordPolicy, AuthDslError>(p),
            Err(m) => r matches Err(e) && e.message@ == m,
        },
{
    let entries = match v {
        Value::Block(entries) => entries,
        _ => return Err(dsl_error(owned("password must be a `{ ... }` block"))),
    };
    let ghost es = entries_view(entries@);
    proof {
        lemma_entries_view_index(entries@);
    }
    let mut pol = PasswordPolicy::default();
    let mut i: usize = 0;
    while i < entries.len()
        invariant
            i <= entries@.len(),
            es == entries_view(entries@),
            es.len() == entries@.len(),
            value_view(*v) == ValueView::Block(es),
            forall|k: int| 0 <= k < entries@.len() ==> #[trigger] es[k] == (entries@[k].0@, value_view(entries@[k].1)),
            password_from(es, 0, default_password_policy()) == password_from(es, i as int, pol),
        decreases entries@.len() - i,
    {
        let key = entries[i].0.as_str();
        let val = &entries[i].1;
        if key_seen_exec(entries, i) {
            return Err(dsl_error(cat3("duplicate password field `", key, "`")));
        }
        if str_eq(key, "min_length") {
            match expect_usize(key, val) {
                Err(e) => return Err(e),
                Ok(n) => pol.min_length = n,
            }
        } else if str_eq(key, "max_length") {
            match expect_usize(key, val) {
                Err(e) => return Err(e),
                Ok(n) => pol.max_length = n,
            }
        } else if str_eq(key, "require_uppercase") {
            match expect_bool(key, val) {
                Err(e) => return Err(e),
                Ok(b) => pol.require_uppercase = b,
            }
        } else if str_eq(key, "require_lowercase") {
            match expect_bool(key, val) {
                Err(e) => return Err(e),
                Ok(b) => pol.require_lowercase = b,
            }
        } else if str_eq(key, "require_number") {
            match expect_bool(key, val) {
                Err(e) => return Err(e),
                Ok(b) => pol.require_number = b,
            }
        } else if str_eq(key, "require_special_character") {
            match expect_bool(key, val) {
                Err(e) => return Err(e),
                Ok(b) => pol.require_special_character = b,
            }
        } else if str_eq(key, "expiration_days") || str_eq(key, "password_expiration_days") {
            match expect_optional_u32(key, val) {
                Err(e) => return Err(e),
                Ok(d) => pol.password_expiration_days = d,
            }
        } else if str_eq(key, "history_count") || str_eq(key, "password_history_count") {
            match expect_usize(key, val) {
                Err(e) => return Err(e),
                Ok(n) => pol.password_history_count = n,
            }
        } else if str_eq(key, "allow_password_change") {
            match expect_bool(key, val) {
                Err(e) => return Err(e),
                Ok(b) => pol.allow_password_change = b,
            }
        } else if str_eq(key, "allow_password_reset") {
            match expect_bool(key, val) {
                Err(e) => return Err(e),
                Ok(b) => pol.allow_password_reset = b,
            }
        } else {
            return Err(dsl_error(cat3("unknown password field `", key, "`")));
        }
        i = i + 1;
    }
    match pol.validate() {
        Err(e) => Err(dsl_error(e.message)),
        Ok(()) => Ok(pol),
    }
}

fn parse_ui(v: &Value) -> (r: Result<AuthUiConfig, AuthDslError>)
    ensures
        match p_ui(value_view(*v)) {
            Ok(u) => r matches Ok(x) && x@ == u,
            Err(m) => r matches Err(e) && e.message@ == m,
        },
{
    let entries = match v {
        Value::Block(entries) => entries,
        _ => return Err(dsl_error(owned("ui must be a `{ ... }` block"))),
    };
    let ghost es = entries_view(entries@);
    proof {
        lemma_entries_view_index(entries@);
    }
    let mut ui = AuthUiConfig::default();
    let mut i: usize = 0;
    while i < entries.len()
        invariant
            i <= entries@.len(),
            es == entries_view(entries@),
            es.len() == entries@.len(),
            value_view(*v) == ValueView::Block(es),
            forall|k: int| 0 <= k < entries@.len() ==> #[trigger] es[k] == (entries@[k].0@, value_view(entries@[k].1)),
            ui_from(es, 0, default_config_view().ui) == ui_from(es, i as int, ui@),
        decreases entries@.len() - i,
    {
        let key = entries[i].0.as_str();
        let val = &entries[i].1;
        if key_seen_exec(entries, i) {
            return Err(dsl_error(cat3("duplicate ui field `", key, "`")));
        }
        if str_eq(key, "theme") {
            match expect_scalar(key, val) {
                Err(e) => return Err(e),
                Ok(t) => {
                    ui.theme = UiTheme { name: t.clone() };
                },
            }
        } else if str_eq(key, "mode") {
            match expect_scalar(key, val) {
                Err(e) => return Err(e),
                Ok(_) => {},
            }
        } else {
            let screen = match UiScreen::parse(key) {
                Some(s) => s,
                None => return Err(dsl_error(cat3("unknown ui surface `", key, "`"))),
            };
            let mode_text = match expect_scalar(key, val) {
                Err(e) => return Err(e),
                Ok(m) => m,
            };
            let mode = if str_eq(mode_text.as_str(), "default") {
                AuthUiMode::Default
            } else if str_eq(mode_text.as_str(), "custom") {
                AuthUiMode::Custom
            } else {
                let head = cat3("ui surface `", key, "` must be \"default\" or \"custom\", found `");
                return Err(dsl_error(cat3(head.as_str(), mode_text.as_str(), "`")));
            };
            ui.screens.push(UiScreenOverride { screen, mode });
        }
        i = i + 1;
    }
    match ui.validate() {
        Err(e) => Err(dsl_error(e.message)),
        Ok(()) => Ok(ui.canonical()),
    }
}

fn extract_auth_block(src: &Vec<char>) -> (r: Result<Vec<char>, AuthDslError>)
    ensures
        match extract_block(src@) {
            Ok(body) => r matches Ok(x) && x@ == body,
            Err(m) => r matches Err(e) && e.message@ == m,
        },
{
    let pat = chars_of("use auth");
    let start = match find_seq(src.as_slice(), pat.as_slice(), 0) {
        Some(s) => s,
        None => return Err(dsl_error(owned("missing `use auth` block"))),
    };
    proof {
        lemma_find_from(src@, pat@, 0);
    }
    let tail = slice_chars(src.as_slice(), start, src.len());
    let k = match find_char(tail.as_slice(), '{') {
        Some(k) => k,
        None => return Err(dsl_error(owned("missing `{` in auth block"))),
    };
    proof {
        crate::text::lemma_first_index_of(tail@, '{');
    }
    let open = start + k;
    assert(src@[open as int] == '{');
    let mut depth: usize = 0;
    let mut i: usize = open;
    while i < src.len()
        invariant
            open <= i <= src@.len(),
            src@[open as int] == '{',
            open == start + k,
            find_from(src@, "use auth"@, 0) == Some(start as int),
            first_index_of(src@.subrange(start as int, src@.len() as int), '{') == Some(k as int),
            i > open ==> depth >= 1,
            depth <= i - open,
            match_close(src@, open as int, 0) == match_close(src@, i as int, depth as int),
        decreases src@.len() - i,
    {
        let c = src[i];
        if c == '{' {
            depth = depth + 1;
        } else if c == '}' {
            depth = depth - 1;
            if depth == 0 {
                assert(match_close(src@, i as int, 1) == Some(i as int));
                let body = slice_chars(src.as_slice(), open + 1, i);
                return Ok(body);
            }
        }
        i = i + 1;
    }
    Err(dsl_error(owned("missing closing `}` in auth block")))
}

fn declares_twice_exec(src: &Vec<char>) -> (r: bool)
    ensures
        r == declares_twice(src@),
{
    let pat = chars_of("use auth");
    proof {
        reveal_strlit("use auth");
    }
    match find_seq(src.as_slice(), pat.as_slice(), 0) {
        Some(i) => {
            proof {
                lemma_find_from(src@, pat@, 0);
            }
            assert(i + pat@.len() <= src@.len());
            assert(pat@.len() == 8);
            assert(i + 8 <= src.len());
            find_seq(src.as_slice(), pat.as_slice(), i + 8).is_some()
        },
        None => false,
    }
}

fn default_with_local() -> (r: AuthConfig)
    ensures
        r@ == with_default_provider(default_config_view()),
{
    let mut config = AuthConfig::default();
    config.providers.push(owned("local"));
    assert(views(config.providers@) =~= seq!["local"@]);
    config
}

fn interpret_entries(entries: &Vec<(String, Value)>) -> (r: Result<AuthConfig, AuthDslError>)
    ensures
        match interpret_from(entries_view(entries@), 0, default_config_view(), None) {
            Ok(c) => r matches Ok(x) && x@ == c,
            Err(m) => r matches Err(e) && e.message@ == m,
        },
{
    let ghost es = entries_view(entries@);
    proof {
        lemma_entries_view_index(entries@);
    }
    let mut config = AuthConfig::default();
    let mut tenant_declaration: Option<bool> = None;
    let mut i: usize = 0;
    while i < entries.len()
        invariant
            i <= entries@.len(),
            es == entries_view(entries@),
            es.len() == entries@.len(),
            forall|k: int| 0 <= k < entries@.len() ==> #[trigger] es[k] == (entries@[k].0@, value_view(entries@[k].1)),
            interpret_from(es, 0, default_config_view(), None) == interpret_from(es, i as int, config@, tenant_declaration),
        decreases entries@.len() - i,
    {
        let key = entries[i].0.as_str();
        let val = &entries[i].1;
        if key_seen_exec(entries, i) {
            return Err(dsl_error(cat3("duplicate auth field `", key, "`")));
        }
        if str_eq(key, "multi_tenant") || str_eq(key, "tenant") {
            let declared = match expect_bool(key, val) {
                Ok(b) => b,
                Err(e) => return Err(e),
            };
            match tenant_declaration {
                Some(previous) => {
                    if previous != declared {
                        return Err(dsl_error(owned("conflicting tenant declaration")));
                    }
                },
                None => {},
            }
            tenant_declaration = Some(declared);
            config.multi_tenant = declared;
        } else if str_eq(key, "providers") {
            match expect_providers(val) {
                Ok(ps) => config.providers = ps,
                Err(e) => return Err(e),
            }
        } else if str_eq(key, "isolation") {
            let scalar = match expect_scalar(key, val) {
                Ok(s) => s,
                Err(e) => return Err(e),
            };
            match parse_isolation(scalar) {
                Ok(m) => config.isolation = m,
                Err(e) => return Err(e),
            }
        } else if str_eq(key, "claims") {
            match parse_claims(val) {
                Ok(cs) => config.claims = cs,
                Err(e) => return Err(e),
            }
        } else if str_eq(key, "policy") {
            match parse_policies(val) {
                Ok(ps) => config.policies = ps,
                Err(e) => return Err(e),
            }
        } else if str_eq(key, "password") || str_eq(key, "password_policy") {
            match parse_password(val) {
                Ok(pw) => config.password_policy = pw,
                Err(e) => return Err(e),
            }
        } else if str_eq(key, "agents") {
            match expect_bool(key, val) {
                Ok(b) => config.agents = b,
                Err(e) => return Err(e),
            }
        } else if str_eq(key, "ui") {
            match parse_ui(val) {
                Ok(u) => config.ui = u,
                Err(e) => return Err(e),
            }
        } else if str_eq(key, "experience") || str_eq(key, "storage") {
            match val {
                Value::Block(_) => {},
                _ => return Err(dsl_error(cat(key, " must be a `{ ... }` block"))),
            }
        } else {
            return Err(dsl_error(cat3("unknown auth field `", key, "`")));
        }
        i = i + 1;
    }
    Ok(config)
}

/// Parses a `use auth { ... }` declaration into the contract it states, and
/// validates it.
pub fn parse_auth_block(src: &str) -> (r: Result<AuthConfig, AuthDslError>)
    ensures
        match parse_auth_spec(src@) {
            Ok(c) => r matches Ok(x) && x@ == c,
            Err(m) => r matches Err(e) && e.message@ == m,
        },
{
    let trimmed = trim(src);
    if str_eq(trimmed.as_str(), "use auth") {
        return Ok(default_with_local());
    }
    let chars = chars_of(src);
    if declares_twice_exec(&chars) {
        return Err(dsl_error(owned("multiple auth blocks are not allowed")));
    }
    let body = match extract_auth_block(&chars) {
        Ok(b) => b,
        Err(e) => return Err(e),
    };
    let entries = match parse_entries(&body, 0, false) {
        Ok((es, _)) => es,
        Err(e) => return Err(e),
    };
    let mut config = match interpret_entries(&entries) {
        Ok(c) => c,
        Err(e) => return Err(e),
    };
    if config.providers.len() == 0 {
        config.providers.push(owned("local"));
        assert(views(config.providers@) =~= seq!["local"@]);
    }
    match config.validate() {
        Err(e) => Err(dsl_error(e.message)),
        Ok(()) => Ok(config),
    }
}

/// The fields of a policy from `i` on, none of them an `action` field, leave
/// the policy's action as it was.
proof fn lemma_policy_fields_keep_action(fields: Seq<(Seq<char>, ValueView)>, i: int, pol: PolicyDefView)
    requires
        0 <= i,
        forall|j: int| i <= j < fields.len() ==> (#[trigger] fields[j]).0 != "action"@,
    ensures
        policy_fields_from(fields, i, pol) matches Ok(out) ==> out.action == pol.action,
    decreases fields.len() - i,
{
    if i < fields.len() {
        let key = fields[i].0;
        let v = fields[i].1;
        assert(key != "action"@);
        if key == "tenant"@ {
            lemma_policy_fields_keep_action(fields, i + 1, PolicyDefView { tenant_current: true, ..pol });
        } else if key == "resource"@ {
            if let ValueView::Scalar(r) = v {
                lemma_policy_fields_keep_action(fields, i + 1, PolicyDefView { resource: Some(r), ..pol });
            }
        } else {
            match v {
                ValueView::List(xs) => lemma_policy_fields_keep_action(
                    fields,
                    i + 1,
                    PolicyDefView { claims: pol.claims.push((key, xs)), ..pol },
                ),
                ValueView::Enum(xs) => lemma_policy_fields_keep_action(
                    fields,
                    i + 1,
                    PolicyDefView { claims: pol.claims.push((key, xs)), ..pol },
                ),
                ValueView::Scalar(x) => lemma_policy_fields_keep_action(
                    fields,
                    i + 1,
                    PolicyDefView { claims: pol.claims.push((key, seq![x])), ..pol },
                ),
                ValueView::Block(_) => {},
            }
        }
    }
}

/// The fields of a policy from `i` on, whose last `action` field is number
/// `k` and reads `x`, give the policy the action `x`.
proof fn lemma_policy_fields_last_action(
    fields: Seq<(Seq<char>, ValueView)>,
    i: int,
    pol: PolicyDefView,
    k: int,
    x: Seq<char>,
)
    requires
        0 <= i <= k < fields.len(),
        fields[k] == ("action"@, ValueView::Scalar(x)),
        forall|j: int| k < j < fields.len() ==> (#[trigger] fields[j]).0 != "action"@,
    ensures
        policy_fields_from(fields, i, pol) matches Ok(out) ==> out.action == Some(x),
    decreases k - i,
{
    if i == k {
        reveal_strlit("action");
        reveal_strlit("tenant");
        reveal_strlit("resource");
        assert("action"@ != "tenant"@ && "action"@ != "resource"@) by {
            assert("action"@[0] != "tenant"@[0] && "action"@[0] != "resource"@[0]);
        }
        lemma_policy_fields_keep_action(fields, k + 1, PolicyDefView { action: Some(x), ..pol });
    } else {
        let key = fields[i].0;
        let v = fields[i].1;
        if key == "tenant"@ {
            lemma_policy_fields_last_action(fields, i + 1, PolicyDefView { tenant_current: true, ..pol }, k, x);
        } else if key == "resource"@ {
            if let ValueView::Scalar(r) = v {
                lemma_policy_fields_last_action(fields, i + 1, PolicyDefView { resource: Some(r), ..pol }, k, x);
            }
        } else if key == "action"@ {
            if let ValueView::Scalar(a) = v {
                lemma_policy_fields_last_action(fields, i + 1, PolicyDefView { action: Some(a), ..pol }, k, x);
            }
        } else {
            match v {
                ValueView::List(xs) => lemma_policy_fields_last_action(
                    fields,
                    i + 1,
                    PolicyDefView { claims: pol.claims.push((key, xs)), ..pol },
                    k,
                    x,
                ),
                ValueView::Enum(xs) => lemma_policy_fields_last_action(
                    fields,
                    i + 1,
                    PolicyDefView { claims: pol.claims.push((key, xs)), ..pol },
                    k,
                    x,
                ),
                ValueView::Scalar(y) => lemma_policy_fields_last_action(
                    fields,
                    i + 1,
                    PolicyDefView { claims: pol.claims.push((key, seq![y])), ..pol },
                    k,
                    x,
                ),
                ValueView::Block(_) => {},
            }
        }
    }
}

/// An explicit `action = x` in a policy block is the policy's action,
/// whatever action its capability name implies; where the field is given more
/// than once, the last one counts.
pub proof fn lemma_policy_action_field(
    capability: Seq<char>,
    fields: Seq<(Seq<char>, ValueView)>,
    k: int,
    x: Seq<char>,
)
    requires
        0 <= k < fields.len(),
        fields[k] == ("action"@, ValueView::Scalar(x)),
        forall|j: int| k < j < fields.len() ==> (#[trigger] fields[j]).0 != "action"@,
    ensures
        p_policy(capability, fields) matches Ok(pol) ==> pol.action == Some(x),
{
    let init = PolicyDefView {
        capability,
        tenant_current: false,
        resource: None,
        action: implied_action(capability),
        claims: Seq::empty(),
    };
    lemma_policy_fields_last_action(fields, 0, init, k, x);
}

/// A policy block without an `action` field takes the action its capability
/// name implies: what follows the first `.`.
pub proof fn lemma_policy_implied_action(capability: Seq<char>, fields: Seq<(Seq<char>, ValueView)>)
    requires
        forall|j: int| 0 <= j < fields.len() ==> (#[trigger] fields[j]).0 != "action"@,
    ensures
        p_policy(capability, fields) matches Ok(pol) ==> pol.action == implied_action(capability),
{
    let init = PolicyDefView {
        capability,
        tenant_current: false,
        resource: None,
        action: implied_action(capability),
        claims: Seq::empty(),
    };
    lemma_policy_fields_keep_action(fields, 0, init);
}

} // verus!

//! Editing an auth declaration in place: finding the `use auth` block and
//! the blocks inside it, telling which fields are declared, and adding the
//! declarations an upgrade brings, without disturbing what is there.
use vstd::prelude::*;
use crate::text::{
    owned, cat, chars_of, string_from_chars, slice_chars, find_from, find_seq, lemma_find_from,
    occurs_at, is_prefix, has_prefix, is_ws, is_whitespace, lead_ws, lead_ws_exec, lemma_lead_ws_bound,
    trim_start_seq, first_index_of, find_char, lemma_first_index_of, contains_seq, contains_str,
};

verus! {

/// Where the brace whose scan starts at `i`, `depth` braces deep, is closed:
/// the first `}` that brings the depth back to zero. `None` where the text
/// ends first, or a `}` comes with nothing open.
pub open spec fn closing_brace(s: Seq<char>, i: int, depth: nat) -> Option<int>
    decreases s.len() - i,
{
    if i < 0 || i >= s.len() {
        None
    } else if s[i] == '{' {
        closing_brace(s, i + 1, depth + 1)
    } else if s[i] == '}' {
        if depth == 0 {
            None
        } else if depth == 1 {
            Some(i)
        } else {
            closing_brace(s, i + 1, (depth - 1) as nat)
        }
    } else {
        closing_brace(s, i + 1, depth)
    }
}

/// The `{` and `}` of the `use auth` block.
pub open spec fn auth_bounds(s: Seq<char>) -> Option<(int, int)> {
    match find_from(s, "use auth"@, 0) {
        None => None,
        Some(start) => match find_from(s, "{"@, start) {
            None => None,
            Some(open) => match closing_brace(s, open, 0) {
                Some(close) => Some((open, close)),
                None => None,
            },
        },
    }
}

proof fn lemma_closing_brace(s: Seq<char>, i: int, depth: nat)
    ensures
        closing_brace(s, i, depth) matches Some(j) ==> i <= j < s.len() && s[j] == '}',
    decreases s.len() - i,
{
    if 0 <= i < s.len() {
        if s[i] == '{' {
            lemma_closing_brace(s, i + 1, depth + 1);
        } else if s[i] == '}' {
            if depth > 1 {
                lemma_closing_brace(s, i + 1, (depth - 1) as nat);
            }
        } else {
            lemma_closing_brace(s, i + 1, depth);
        }
    }
}

/// The closing brace of the brace at `i`, scanning `v` from there.
fn closing_brace_exec(v: &Vec<char>, i: usize) -> (r: Option<usize>)
    requires
        i <= v@.len(),
    ensures
        match closing_brace(v@, i as int, 0) {
            Some(j) => r is Some && r->Some_0 as int == j,
            None => r is None,
        },
{
    let mut k: usize = i;
    let mut d: usize = 0;
    while k < v.len()
        invariant
            i <= k <= v@.len(),
            closing_brace(v@, i as int, 0) == closing_brace(v@, k as int, d as nat),
            d <= k - i,
        decreases v@.len() - k,
    {
        if v[k] == '{' {
            d = d + 1;
        } else if v[k] == '}' {
            if d == 0 {
                return None;
            } else if d == 1 {
                return Some(k);
            }
            d = d - 1;
        }
        k = k + 1;
    }
    None
}

fn find_str_from(v: &Vec<char>, pat: &str, from: usize) -> (r: Option<usize>)
    ensures
        match find_from(v@, pat@, from as int) {
            Some(i) => r is Some && r->Some_0 as int == i && from <= i && occurs_at(v@, pat@, i),
            None => r is None,
        },
{
    let p = chars_of(pat);
    proof {
        lemma_find_from(v@, pat@, from as int);
    }
    find_seq(v.as_slice(), p.as_slice(), from)
}

fn auth_bounds_exec(v: &Vec<char>) -> (r: Option<(usize, usize)>)
    ensures
        match auth_bounds(v@) {
            Some(b) => r matches Some(x) && x.0 as int == b.0 && x.1 as int == b.1 && 0 <= b.0 < b.1
                < v@.len(),
            None => r is None,
        },
{
    let start = match find_str_from(v, "use auth", 0) {
        Some(s) => s,
        None => {
            return None;
        },
    };
    proof {
        lemma_find_from(v@, "use auth"@, 0);
    }
    let open = match find_str_from(v, "{", start) {
        Some(o) => o,
        None => {
            return None;
        },
    };
    proof {
        lemma_find_from(v@, "{"@, start as int);
        reveal_strlit("{");
        assert(occurs_at(v@, "{"@, open as int));
        assert(v@.subrange(open as int, open + 1)[0] == v@[open as int]);
    }
    match closing_brace_exec(v, open) {
        Some(close) => {
            proof {
                lemma_closing_brace(v@, open as int, 0);
                assert(v@[open as int] == '{');
                assert(close != open);
            }
            Some((open, close))
        },
        None => None,
    }
}

/// Whether the text after a field's name shows it declared: whitespace, `=`,
/// `:` or, where `brace` allows it, `{`.
pub open spec fn declares(t: Seq<char>, field: Seq<char>, brace: bool) -> bool {
    &&& is_prefix(field, t)
    &&& t.len() > field.len()
    &&& {
        let c = t[field.len() as int];
        is_ws(c) || c == '=' || c == ':' || (brace && c == '{')
    }
}

fn declares_exec(t: &[char], field: &[char], brace: bool) -> (r: bool)
    ensures
        r == declares(t@, field@, brace),
{
    if !has_prefix(t, field) || t.len() <= field.len() {
        return false;
    }
    let c = t[field.len()];
    is_whitespace(c) || c == '=' || c == ':' || (brace && c == '{')
}

/// A line without the `\r` of a `\r\n` ending.
pub open spec fn strip_cr(l: Seq<char>) -> Seq<char> {
    if l.len() > 0 && l.last() == '\r' {
        l.drop_last()
    } else {
        l
    }
}

/// `str::lines`: the text split after each `\n` (a `\r` before it dropped),
/// and a last line without a line ending kept when it is not empty.
pub open spec fn lines_of(s: Seq<char>) -> Seq<Seq<char>>
    decreases s.len(),
{
    match first_index_of(s, '\n') {
        Some(i) => {
            proof {
                crate::text::lemma_first_index_of(s, '\n');
            }
            seq![strip_cr(s.take(i))] + lines_of(s.skip(i + 1))
        },
        None => if s.len() == 0 {
            Seq::empty()
        } else {
            seq![s]
        },
    }
}

pub open spec fn count_char(s: Seq<char>, c: char) -> int
    decreases s.len(),
{
    if s.len() == 0 {
        0
    } else {
        count_char(s.drop_last(), c) + if s.last() == c {
            1int
        } else {
            0int
        }
    }
}

/// Whether one of `ls`, taken at brace depth `depth` and tracking the depth
/// line by line, declares `field` at depth zero.
pub open spec fn field_in_lines(ls: Seq<Seq<char>>, field: Seq<char>, depth: int) -> bool
    decreases ls.len(),
{
    if ls.len() == 0 {
        false
    } else if depth == 0 && declares(trim_start_seq(ls[0]), field, true) {
        true
    } else {
        field_in_lines(
            ls.drop_first(),
            field,
            depth + count_char(ls[0], '{') - count_char(ls[0], '}'),
        )
    }
}

/// Whether the `use auth` block declares `field` at its top level.
pub open spec fn auth_has_field_spec(s: Seq<char>, field: Seq<char>) -> bool {
    match auth_bounds(s) {
        None => false,
        Some(b) => field_in_lines(lines_of(s.subrange(b.0 + 1, b.1)), field, 0),
    }
}

/// `declaration` added at the end of a block closed at `close`: on a line
/// of its own, just before the closing brace.
pub open spec fn inserted_at(s: Seq<char>, close: int, declaration: Seq<char>) -> Seq<char> {
    let head = s.take(close);
    let head = if head.len() > 0 && head.last() == '\n' {
        head
    } else {
        head.push('\n')
    };
    head + declaration + s.skip(close)
}

pub open spec fn insert_auth_spec(s: Seq<char>, declaration: Seq<char>) -> Option<Seq<char>> {
    match auth_bounds(s) {
        None => None,
        Some(b) => Some(inserted_at(s, b.1, declaration)),
    }
}

fn count_char_exec(v: &[char], c: char) -> (n: u64)
    requires
        v@.len() <= u64::MAX,
    ensures
        n == count_char(v@, c),
{
    let mut n: u64 = 0;
    let mut i: usize = 0;
    while i < v.len()
        invariant
            i <= v@.len(),
            v@.len() <= u64::MAX,
            n == count_char(v@.take(i as int), c),
            n <= i,
        decreases v@.len() - i,
    {
        assert(v@.take(i + 1).drop_last() =~= v@.take(i as int));
        if v[i] == c {
            n = n + 1;
        }
        i = i + 1;
    }
    assert(v@.take(i as int) =~= v@);
    n
}

proof fn lemma_count_char_bound(s: Seq<char>, c: char)
    ensures
        0 <= count_char(s, c) <= s.len(),
    decreases s.len(),
{
    if s.len() > 0 {
        lemma_count_char_bound(s.drop_last(), c);
    }
}

/// The next line of `v` from `i`: where it ends (before its `\n` and any `\r`
/// before it), and where the line after it starts.
pub(crate) fn next_line(v: &Vec<char>, i: usize) -> (r: (Vec<char>, usize))
    requires
        i < v@.len(),
    ensures
        i < r.1 <= v@.len(),
        r.0@.len() <= r.1 - i,
        lines_of(v@.skip(i as int)) == seq![r.0@] + lines_of(v@.skip(r.1 as int)),
{
    let tail = slice_chars(v.as_slice(), i, v.len());
    assert(tail@ =~= v@.skip(i as int));
    proof {
        lemma_first_index_of(tail@, '\n');
    }
    match find_char(tail.as_slice(), '\n') {
        Some(j) => {
            let mut end = j;
            if j > 0 && tail[j - 1] == '\r' {
                end = j - 1;
            }
            let line = slice_chars(tail.as_slice(), 0, end);
            proof {
                if j > 0 && tail@[j - 1] == '\r' {
                    assert(tail@.take(j as int).drop_last() =~= tail@.take(j - 1));
                } else {
                    assert(tail@.subrange(0, j as int) =~= tail@.take(j as int));
                }
                assert(line@ == strip_cr(tail@.take(j as int)));
                assert(tail@.skip(j + 1) =~= v@.skip(i + j + 1));
            }
            (line, i + j + 1)
        },
        None => {
            proof {
                assert(v@.skip(v@.len() as int) =~= Seq::<char>::empty());
                assert(lines_of(Seq::<char>::empty()) =~= Seq::<Seq<char>>::empty());
            }
            (tail, v.len())
        },
    }
}

/// Whether the lines of `v[lo..hi]` declare `field` at depth zero.
fn field_in_range(v: &Vec<char>, lo: usize, hi: usize, field: &[char], brace: bool) -> (r: bool)
    requires
        lo <= hi <= v@.len(),
        brace,
    ensures
        r == field_in_lines(lines_of(v@.subrange(lo as int, hi as int)), field@, 0),
{
    let body = slice_chars(v.as_slice(), lo, hi);
    let ghost all = lines_of(body@);
    let mut i: usize = 0;
    let mut depth: i128 = 0;
    assert(body@.skip(0) =~= body@);
    while i < body.len()
        invariant
            i <= body@.len(),
            body@ == v@.subrange(lo as int, hi as int),
            all == lines_of(body@),
            brace,
            field_in_lines(all, field@, 0) == field_in_lines(lines_of(body@.skip(i as int)), field@, depth as int),
            -(i as int) <= depth <= i,
        decreases body@.len() - i,
    {
        let (line, next) = next_line(&body, i);
        proof {
            assert(lines_of(body@.skip(i as int)).drop_first() =~= lines_of(body@.skip(next as int)));
            assert(lines_of(body@.skip(i as int))[0] == line@);
        }
        let k = lead_ws_exec(line.as_slice());
        proof {
            lemma_lead_ws_bound(line@);
        }
        let trimmed = slice_chars(line.as_slice(), k, line.len());
        assert(trimmed@ =~= trim_start_seq(line@));
        if depth == 0 && declares_exec(trimmed.as_slice(), field, brace) {
            proof {
                let ls = lines_of(body@.skip(i as int));
                assert(ls.len() > 0);
                assert(ls[0] == line@);
                assert(declares(trim_start_seq(ls[0]), field@, true));
                assert(field_in_lines(ls, field@, 0));
            }
            return true;
        }
        let line_len = line.len();
        assert(line_len <= u64::MAX);
        let opens = count_char_exec(line.as_slice(), '{');
        let closes = count_char_exec(line.as_slice(), '}');
        proof {
            lemma_count_char_bound(line@, '{');
            lemma_count_char_bound(line@, '}');
        }
        depth = depth + opens as i128 - closes as i128;
        i = next;
    }
    proof {
        assert(body@.skip(i as int) =~= Seq::<char>::empty());
        assert(lines_of(Seq::<char>::empty()) =~= Seq::<Seq<char>>::empty());
    }
    false
}

/// Whether the `use auth` block declares `field` at its top level.
pub fn auth_has_field(source: &str, field: &str) -> (r: bool)
    ensures
        r == auth_has_field_spec(source@, field@),
{
    let v = chars_of(source);
    let f = chars_of(field);
    match auth_bounds_exec(&v) {
        None => false,
        Some((open, close)) => field_in_range(&v, open + 1, close, f.as_slice(), true),
    }
}

fn inserted_at_exec(v: &Vec<char>, close: usize, declaration: &str) -> (r: String)
    requires
        close <= v@.len(),
    ensures
        r@ == inserted_at(v@, close as int, declaration@),
{
    let head = slice_chars(v.as_slice(), 0, close);
    let mut out = string_from_chars(head.as_slice());
    assert(head@ =~= v@.take(close as int));
    if !(close > 0 && v[close - 1] == '\n') {
        proof {
            reveal_strlit("\n");
        }
        out.append("\n");
        assert(out@ =~= v@.take(close as int).push('\n'));
    } else {
        assert(v@.take(close as int).last() == v@[close - 1]);
    }
    out.append(declaration);
    let tail = slice_chars(v.as_slice(), close, v.len());
    let ts = string_from_chars(tail.as_slice());
    out.append(ts.as_str());
    assert(tail@ =~= v@.skip(close as int));
    out
}

pub open spec fn opt_view(o: Option<String>) -> Option<Seq<char>> {
    match o {
        Some(s) => Some(s@),
        None => None,
    }
}

/// `declaration` added at the end of the `use auth` block.
pub fn insert_auth_declaration(source: &str, declaration: &str) -> (r: Option<String>)
    ensures
        opt_view(r) == insert_auth_spec(source@, declaration@),
{
    let v = chars_of(source);
    match auth_bounds_exec(&v) {
        None => None,
        Some((_, close)) => Some(inserted_at_exec(&v, close, declaration)),
    }
}

/// `char::is_alphanumeric`: alphabetic or numeric in Unicode.
pub uninterp spec fn alphanumeric(c: char) -> bool;

/// `char::is_alphanumeric`, whose result is a function of `c` alone.
#[verifier::external_body]
fn is_alphanumeric(c: char) -> (r: bool)
    ensures
        r == alphanumeric(c),
{
    c.is_alphanumeric()
}

/// The match at `start` begins a word: nothing alphanumeric or `_` just
/// before it.
pub open spec fn word_start(s: Seq<char>, start: int) -> bool {
    start <= 0 || !(alphanumeric(s[start - 1]) || s[start - 1] == '_')
}

/// The braces of the block `name { .. }` at the top level of the `use auth`
/// block (whose braces are at `ao` and `ac`), searching the matches of
/// `name` from `from` on.
pub open spec fn named_from(s: Seq<char>, name: Seq<char>, ao: int, ac: int, from: int) -> Option<(int, int)>
    decreases ac + 1 - from,
{
    if ao < 0 || from < ao + 1 || from > ac || ac > s.len() {
        None
    } else {
        let body = s.subrange(ao + 1, ac);
        match find_from(body, name, from - (ao + 1)) {
            None => None,
            Some(off) => {
                proof {
                    lemma_find_from(body, name, from - (ao + 1));
                    assert(off + name.len() <= body.len());
                    assert(off >= from - (ao + 1));
                    assert(body.len() == ac - (ao + 1));
                }
                let start = ao + 1 + off;
                let next = start + name.len();
                let resume = if name.len() == 0 {
                    start + 1
                } else {
                    next
                };
                if !word_start(s, start) {
                    named_from(s, name, ao, ac, resume)
                } else {
                    match find_from(s.subrange(next, ac), "{"@, 0) {
                        None => None,
                        Some(k) => {
                            let open = next + k;
                            let prefix = s.subrange(ao + 1, open);
                            if count_char(prefix, '{') == count_char(prefix, '}') {
                                match closing_brace(s.subrange(open, ac), 0, 0) {
                                    Some(j) => Some((open, open + j)),
                                    None => named_from(s, name, ao, ac, resume),
                                }
                            } else {
                                named_from(s, name, ao, ac, resume)
                            }
                        },
                    }
                }
            },
        }
    }
}

/// The braces of the block `name { .. }` inside the `use auth` block.
pub open spec fn named_bounds(s: Seq<char>, name: Seq<char>) -> Option<(int, int)> {
    match auth_bounds(s) {
        None => None,
        Some(b) => named_from(s, name, b.0, b.1, b.0 + 1),
    }
}

fn find_chars_from(v: &Vec<char>, pat: &Vec<char>, from: usize) -> (r: Option<usize>)
    ensures
        match find_from(v@, pat@, from as int) {
            Some(i) => r is Some && r->Some_0 as int == i && from <= i && occurs_at(v@, pat@, i),
            None => r is None,
        },
{
    proof {
        lemma_find_from(v@, pat@, from as int);
    }
    find_seq(v.as_slice(), pat.as_slice(), from)
}

fn named_bounds_exec(v: &Vec<char>, name: &str) -> (r: Option<(usize, usize)>)
    ensures
        match named_bounds(v@, name@) {
            Some(b) => r matches Some(x) && x.0 as int == b.0 && x.1 as int == b.1 && 0 <= b.0 < b.1
                < v@.len(),
            None => r is None,
        },
{
    let (ao, ac) = match auth_bounds_exec(v) {
        Some(b) => b,
        None => {
            return None;
        },
    };
    let n = chars_of(name);
    let body = slice_chars(v.as_slice(), ao + 1, ac);
    let brace = chars_of("{");
    proof {
        reveal_strlit("{");
    }
    let mut from: usize = ao + 1;
    loop
        invariant
            0 <= ao < ac < v@.len(),
            ao + 1 <= from,
            n@ == name@,
            body@ == v@.subrange(ao + 1, ac as int),
            brace@ == "{"@,
            named_bounds(v@, name@) == named_from(v@, name@, ao as int, ac as int, from as int),
        decreases ac + 1 - from,
    {
        if from > ac {
            return None;
        }
        let off = match find_chars_from(&body, &n, from - (ao + 1)) {
            Some(o) => o,
            None => {
                return None;
            },
        };
        let start = ao + 1 + off;
        let next = start + n.len();
        assert(next <= ac);
        assert(start < v.len());
        let resume = if n.len() == 0 {
            start + 1
        } else {
            next
        };
        let bounded = !(is_alphanumeric(v[start - 1]) || v[start - 1] == '_');
        if !bounded {
            from = resume;
            continue;
        }
        let rest = slice_chars(v.as_slice(), next, ac);
        let k = match find_chars_from(&rest, &brace, 0) {
            Some(k) => k,
            None => {
                return None;
            },
        };
        let open = next + k;
        proof {
            reveal_strlit("{");
        }
        assert(occurs_at(rest@, "{"@, k as int));
        assert(rest@.subrange(k as int, k + 1)[0] == rest@[k as int]);
        assert(v@[open as int] == '{');
        let prefix = slice_chars(v.as_slice(), ao + 1, open);
        let plen = prefix.len();
        assert(plen <= u64::MAX);
        let opens = count_char_exec(prefix.as_slice(), '{');
        let closes = count_char_exec(prefix.as_slice(), '}');
        if opens == closes {
            let inner = slice_chars(v.as_slice(), open, ac);
            let iv = inner;
            match closing_brace_exec(&iv, 0) {
                Some(j) => {
                    proof {
                        lemma_closing_brace(iv@, 0, 0);
                        assert(iv@[0] == '{');
                    }
                    return Some((open, open + j));
                },
                None => {},
            }
        }
        from = resume;
    }
}

/// Whether a line of `ls` declares `field` (followed by whitespace, `=` or
/// `:`), at any depth.
pub open spec fn any_line_declares(ls: Seq<Seq<char>>, field: Seq<char>) -> bool {
    exists|i: int| 0 <= i < ls.len() && declares(trim_start_seq(#[trigger] ls[i]), field, false)
}

/// Whether the block `block` inside the `use auth` block declares `field`.
pub open spec fn block_has_field_spec(s: Seq<char>, block: Seq<char>, field: Seq<char>) -> bool {
    match named_bounds(s, block) {
        None => false,
        Some(b) => any_line_declares(lines_of(s.subrange(b.0 + 1, b.1)), field),
    }
}

pub fn named_block_has_field(source: &str, block: &str, field: &str) -> (r: bool)
    ensures
        r == block_has_field_spec(source@, block@, field@),
{
    let v = chars_of(source);
    let f = chars_of(field);
    let (open, close) = match named_bounds_exec(&v, block) {
        Some(b) => b,
        None => {
            return false;
        },
    };
    let body = slice_chars(v.as_slice(), open + 1, close);
    let ghost all = lines_of(body@);
    let mut i: usize = 0;
    assert(body@.skip(0) =~= body@);
    while i < body.len()
        invariant
            i <= body@.len(),
            all == lines_of(body@),
            open < close < v@.len(),
            v@ == source@,
            named_bounds(v@, block@) == Some((open as int, close as int)),
            body@ == v@.subrange(open + 1, close as int),
            any_line_declares(all, f@) == any_line_declares(lines_of(body@.skip(i as int)), f@),
            f@ == field@,
        decreases body@.len() - i,
    {
        let (line, next) = next_line(&body, i);
        let ghost ls = lines_of(body@.skip(i as int));
        let ghost rest = lines_of(body@.skip(next as int));
        let k = lead_ws_exec(line.as_slice());
        proof {
            lemma_lead_ws_bound(line@);
        }
        let trimmed = slice_chars(line.as_slice(), k, line.len());
        assert(trimmed@ =~= trim_start_seq(line@));
        proof {
            assert(ls =~= seq![line@] + rest);
            assert(ls[0] == line@);
            assert(any_line_declares(ls, f@) == (declares(trim_start_seq(line@), f@, false)
                || any_line_declares(rest, f@))) by {
                if any_line_declares(rest, f@) {
                    let j = choose|j: int| 0 <= j < rest.len() && declares(trim_start_seq(#[trigger] rest[j]), f@, false);
                    assert(ls[j + 1] == rest[j]);
                }
                if any_line_declares(ls, f@) {
                    let j = choose|j: int| 0 <= j < ls.len() && declares(trim_start_seq(#[trigger] ls[j]), f@, false);
                    if j > 0 {
                        assert(rest[j - 1] == ls[j]);
                    }
                }
            }
        }
        if declares_exec(trimmed.as_slice(), f.as_slice(), false) {
            assert(any_line_declares(all, f@));
            return true;
        }
        i = next;
    }
    proof {
        assert(body@.skip(i as int) =~= Seq::<char>::empty());
        assert(lines_of(Seq::<char>::empty()) =~= Seq::<Seq<char>>::empty());
    }
    false
}

pub open spec fn insert_named_spec(s: Seq<char>, block: Seq<char>, declaration: Seq<char>) -> Option<Seq<char>> {
    match named_bounds(s, block) {
        None => None,
        Some(b) => Some(inserted_at(s, b.1, declaration)),
    }
}

/// `declaration` added at the end of the block `block` inside the `use
/// auth` block.
pub fn insert_named_block_declaration(source: &str, block: &str, declaration: &str) -> (r: Option<String>)
    ensures
        opt_view(r) == insert_named_spec(source@, block@, declaration@),
{
    let v = chars_of(source);
    match named_bounds_exec(&v, block) {
        None => None,
        Some((_, close)) => Some(inserted_at_exec(&v, close, declaration)),
    }
}

/// The top-level fields a complete declaration has, each with the
/// declaration an upgrade adds where it is missing.
pub open spec fn auth_option_defaults() -> Seq<(Seq<char>, Seq<char>)> {
    seq![
        ("tenant"@, "  tenant = false\n"@),
        ("isolation"@, "  isolation = \"strict\"\n"@),
        ("agents"@, "  agents = false\n"@),
        ("policy"@, "  policy = {}\n"@),
        ("experience"@, "  experience = {\n    sign_in = enabled\n    sign_up = enabled\n    sign_out = enabled\n    password = enabled\n    password_reset = enabled\n    password_change = enabled\n    external_identity = enabled\n    account_linking = enabled\n    email_verification = enabled\n    mfa = disabled\n    passkeys = disabled\n    device_management = disabled\n    session_management = enabled\n    profile = disabled\n    tenant_switching = false\n    recovery = disabled\n  }\n"@),
        ("password"@, "  password = {\n    min_length = 12\n    max_length = 128\n    require_uppercase = false\n    require_lowercase = false\n    require_number = false\n    require_special_character = false\n    expiration_days = null\n    history_count = 5\n    allow_password_change = true\n    allow_password_reset = true\n  }\n"@),
        ("storage"@, "  storage = {\n    authority = \"feltdb\"\n    audit = \"feltdb\"\n    reporting = \"authboundry_projection\"\n  }\n"@),
        ("ui"@, "  ui = {\n    mode = \"generated\"\n    theme = \"authboundry-default\"\n    login = \"default\"\n    signup = \"default\"\n    account = \"default\"\n    password_forgot = \"default\"\n    password_reset = \"default\"\n    password_change = \"default\"\n    email_verification = \"default\"\n    account_links = \"default\"\n    profile = \"default\"\n    devices = \"default\"\n    sessions = \"default\"\n    mfa = \"default\"\n    passkeys = \"default\"\n    recovery = \"default\"\n    tenant = \"default\"\n    agents = \"default\"\n  }\n"@),
    ]
}

/// The `i`th of the top-level fields a complete declaration has, with
/// the declaration an upgrade adds for it.
pub fn auth_option_default(i: usize) -> (r: (&'static str, &'static str))
    requires
        i < 8,
    ensures
        r.0@ == auth_option_defaults()[i as int].0,
        r.1@ == auth_option_defaults()[i as int].1,
{
    match i {
        0 => ("tenant", "  tenant = false\n"),
        1 => ("isolation", "  isolation = \"strict\"\n"),
        2 => ("agents", "  agents = false\n"),
        3 => ("policy", "  policy = {}\n"),
        4 => ("experience", "  experience = {\n    sign_in = enabled\n    sign_up = enabled\n    sign_out = enabled\n    password = enabled\n    password_reset = enabled\n    password_change = enabled\n    external_identity = enabled\n    account_linking = enabled\n    email_verification = enabled\n    mfa = disabled\n    passkeys = disabled\n    device_management = disabled\n    session_management = enabled\n    profile = disabled\n    tenant_switching = false\n    recovery = disabled\n  }\n"),
        5 => ("password", "  password = {\n    min_length = 12\n    max_length = 128\n    require_uppercase = false\n    require_lowercase = false\n    require_number = false\n    require_special_character = false\n    expiration_days = null\n    history_count = 5\n    allow_password_change = true\n    allow_password_reset = true\n  }\n"),
        6 => ("storage", "  storage = {\n    authority = \"feltdb\"\n    audit = \"feltdb\"\n    reporting = \"authboundry_projection\"\n  }\n"),
        _ => ("ui", "  ui = {\n    mode = \"generated\"\n    theme = \"authboundry-default\"\n    login = \"default\"\n    signup = \"default\"\n    account = \"default\"\n    password_forgot = \"default\"\n    password_reset = \"default\"\n    password_change = \"default\"\n    email_verification = \"default\"\n    account_links = \"default\"\n    profile = \"default\"\n    devices = \"default\"\n    sessions = \"default\"\n    mfa = \"default\"\n    passkeys = \"default\"\n    recovery = \"default\"\n    tenant = \"default\"\n    agents = \"default\"\n  }\n"),
    }
}

/// The screens a complete `ui` block names.
pub open spec fn ui_screens() -> Seq<Seq<char>> {
    seq![
        "login"@,
        "signup"@,
        "account"@,
        "password_forgot"@,
        "password_reset"@,
        "password_change"@,
        "email_verification"@,
        "account_links"@,
        "profile"@,
        "devices"@,
        "sessions"@,
        "mfa"@,
        "passkeys"@,
        "recovery"@,
        "tenant"@,
        "agents"@,
    ]
}

fn ui_screen(i: usize) -> (r: &'static str)
    requires
        i < 16,
    ensures
        r@ == ui_screens()[i as int],
{
    match i {
        0 => "login",
        1 => "signup",
        2 => "account",
        3 => "password_forgot",
        4 => "password_reset",
        5 => "password_change",
        6 => "email_verification",
        7 => "account_links",
        8 => "profile",
        9 => "devices",
        10 => "sessions",
        11 => "mfa",
        12 => "passkeys",
        13 => "recovery",
        14 => "tenant",
        _ => "agents",
    }
}


/// The line an upgrade looks for to add the default `role` claim after.
pub const PROVIDERS_LINE: &'static str = "  providers = [local]\n";

/// The same line with the default `role` claim after it.
pub const PROVIDERS_WITH_ROLE: &'static str = "  providers = [local]\n  claims = {\n    role = enum[\"admin\", \"user\"]\n  }\n";

/// The mail block an upgrade appends where the declaration has none.
pub const MAIL_BLOCK: &'static str = "\nuse mail\nmail {\n  identities {\n    auth = \"auth@example.com\"\n  }\n  templates {\n    password_reset = \"./emails/password-reset.html\"\n    email_verification = \"./emails/email-verification.html\"\n  }\n}\n";

/// `s` with its first `pat` replaced by `with`.
pub open spec fn replace_first(s: Seq<char>, pat: Seq<char>, with: Seq<char>) -> Seq<char> {
    match find_from(s, pat, 0) {
        Some(i) => s.take(i) + with + s.skip(i + pat.len()),
        None => s,
    }
}

/// The declaration with each missing top-level field of `opts` added, in
/// order; `None` where one cannot be added.
pub open spec fn with_auth_options(src: Seq<char>, opts: Seq<(Seq<char>, Seq<char>)>) -> Option<Seq<char>>
    decreases opts.len(),
{
    if opts.len() == 0 {
        Some(src)
    } else {
        match with_auth_options(src, opts.drop_last()) {
            None => None,
            Some(t) => if auth_has_field_spec(t, opts.last().0) {
                Some(t)
            } else {
                insert_auth_spec(t, opts.last().1)
            },
        }
    }
}

/// The screen's line in the `ui` block.
pub open spec fn screen_line(screen: Seq<char>) -> Seq<char> {
    "    "@ + screen + " = \"default\"\n"@
}

/// The declaration with each missing screen of `screens` added to its `ui`
/// block, in order; `None` where one cannot be added.
pub open spec fn with_screens(src: Seq<char>, screens: Seq<Seq<char>>) -> Option<Seq<char>>
    decreases screens.len(),
{
    if screens.len() == 0 {
        Some(src)
    } else {
        match with_screens(src, screens.drop_last()) {
            None => None,
            Some(t) => if block_has_field_spec(t, "ui"@, screens.last()) {
                Some(t)
            } else {
                insert_named_spec(t, "ui"@, screen_line(screens.last()))
            },
        }
    }
}

/// The declaration with a `role` claim: as it is where it declares one,
/// else with the default added after the `providers = [local]` line.
pub open spec fn claimed_of(before: Seq<char>) -> Option<Seq<char>> {
    if contains_seq(before, "role = enum["@) {
        Some(before)
    } else if !contains_seq(before, PROVIDERS_LINE@) {
        None
    } else {
        Some(replace_first(before, PROVIDERS_LINE@, PROVIDERS_WITH_ROLE@))
    }
}

/// What an upgrade makes of a declaration: the default `role` claim where
/// no role is declared (refused where there is no `providers = [local]`
/// line to add it after), every missing top-level field, every missing `ui`
/// screen and the mail block. `None` where nothing changes or the
/// declaration cannot take the additions.
pub open spec fn upgraded(before: Seq<char>) -> Option<Seq<char>> {
    match claimed_of(before) {
        None => None,
        Some(a) => match with_auth_options(a, auth_option_defaults()) {
            None => None,
            Some(b) => match with_screens(b, ui_screens()) {
                None => None,
                Some(c) => {
                    let d = if contains_seq(c, "use mail"@) {
                        c
                    } else {
                        c + MAIL_BLOCK@
                    };
                    if d == before {
                        None
                    } else {
                        Some(d)
                    }
                },
            },
        },
    }
}

pub(crate) fn replace_first_exec(s: &str, pat: &str, with: &str) -> (r: String)
    ensures
        r@ == replace_first(s@, pat@, with@),
{
    let v = chars_of(s);
    match find_str_from(&v, pat, 0) {
        Some(i) => {
            let head = slice_chars(v.as_slice(), 0, i);
            let pv = chars_of(pat);
            let pl = pv.len();
            let vl = v.len();
            assert(i + pl <= vl);
            let tail = slice_chars(v.as_slice(), i + pl, v.len());
            let mut out = string_from_chars(head.as_slice());
            out.append(with);
            let t = string_from_chars(tail.as_slice());
            out.append(t.as_str());
            assert(head@ =~= s@.take(i as int));
            assert(tail@ =~= s@.skip(i + pat@.len()));
            out
        },
        None => owned(s),
    }
}

proof fn lemma_options_stay_refused(src: Seq<char>, opts: Seq<(Seq<char>, Seq<char>)>, k: int)
    requires
        0 <= k <= opts.len(),
        with_auth_options(src, opts.take(k)) is None,
    ensures
        with_auth_options(src, opts) is None,
    decreases opts.len() - k,
{
    if k < opts.len() {
        let t = opts.take(k + 1);
        assert(t.drop_last() =~= opts.take(k));
        lemma_options_stay_refused(src, opts, k + 1);
    } else {
        assert(opts.take(k) =~= opts);
    }
}

proof fn lemma_screens_stay_refused(src: Seq<char>, screens: Seq<Seq<char>>, k: int)
    requires
        0 <= k <= screens.len(),
        with_screens(src, screens.take(k)) is None,
    ensures
        with_screens(src, screens) is None,
    decreases screens.len() - k,
{
    if k < screens.len() {
        let t = screens.take(k + 1);
        assert(t.drop_last() =~= screens.take(k));
        lemma_screens_stay_refused(src, screens, k + 1);
    } else {
        assert(screens.take(k) =~= screens);
    }
}

/// The upgraded declaration, where an upgrade changes it.
pub fn upgrade_declaration(before: &str) -> (r: Option<String>)
    ensures
        opt_view(r) == upgraded(before@),
{
    let mut after: String = if contains_str(before, "role = enum[") {
        owned(before)
    } else if !contains_str(before, PROVIDERS_LINE) {
        return None;
    } else {
        replace_first_exec(before, PROVIDERS_LINE, PROVIDERS_WITH_ROLE)
    };
    let ghost claimed = after@;
    let mut i: usize = 0;
    while i < 8
        invariant
            i <= 8,
            claimed_of(before@) == Some(claimed),
            with_auth_options(claimed, auth_option_defaults().take(i as int)) == Some(after@),
        decreases 8 - i,
    {
        let (field, declaration) = auth_option_default(i);
        proof {
            let t = auth_option_defaults().take(i + 1);
            assert(t.drop_last() =~= auth_option_defaults().take(i as int));
            assert(t.last() == auth_option_defaults()[i as int]);
        }
        if !auth_has_field(after.as_str(), field) {
            match insert_auth_declaration(after.as_str(), declaration) {
                Some(next) => {
                    after = next;
                },
                None => {
                    proof {
                        lemma_options_stay_refused(claimed, auth_option_defaults(), i + 1);
                    }
                    return None;
                },
            }
        }
        i = i + 1;
    }
    assert(auth_option_defaults().take(8) =~= auth_option_defaults());
    let ghost optioned = after@;
    let mut j: usize = 0;
    while j < 16
        invariant
            j <= 16,
            claimed_of(before@) == Some(claimed),
            with_auth_options(claimed, auth_option_defaults()) == Some(optioned),
            with_screens(optioned, ui_screens().take(j as int)) == Some(after@),
        decreases 16 - j,
    {
        let screen = ui_screen(j);
        proof {
            let t = ui_screens().take(j + 1);
            assert(t.drop_last() =~= ui_screens().take(j as int));
            assert(t.last() == ui_screens()[j as int]);
            reveal_strlit("ui");
        }
        if !named_block_has_field(after.as_str(), "ui", screen) {
            let mut line = owned("    ");
            line.append(screen);
            line.append(" = \"default\"\n");
            match insert_named_block_declaration(after.as_str(), "ui", line.as_str()) {
                Some(next) => {
                    after = next;
                },
                None => {
                    proof {
                        lemma_screens_stay_refused(optioned, ui_screens(), j + 1);
                    }
                    return None;
                },
            }
        }
        j = j + 1;
    }
    assert(ui_screens().take(16) =~= ui_screens());
    if !contains_str(after.as_str(), "use mail") {
        after.append(MAIL_BLOCK);
    }
    if crate::text::str_eq(after.as_str(), before) {
        None
    } else {
        Some(after)
    }
}

/// The complete declaration `init` writes for an application without one.
pub const DEFAULT_DECLARATION: &'static str = "use auth {\n  providers = [local]\n  tenant = false\n  isolation = \"strict\"\n  agents = false\n\n  claims = {\n    role = enum[\"admin\", \"user\"]\n  }\n\n  policy = {}\n\n  experience = {\n    sign_in = enabled\n    sign_up = enabled\n    sign_out = enabled\n    password = enabled\n    password_reset = enabled\n    password_change = enabled\n    external_identity = enabled\n    account_linking = enabled\n    email_verification = enabled\n    mfa = disabled\n    passkeys = disabled\n    device_management = disabled\n    session_management = enabled\n    profile = disabled\n    tenant_switching = false\n    recovery = disabled\n  }\n\n  password = {\n    min_length = 12\n    max_length = 128\n    require_uppercase = false\n    require_lowercase = false\n    require_number = false\n    require_special_character = false\n    expiration_days = null\n    history_count = 5\n    allow_password_change = true\n    allow_password_reset = true\n  }\n\n  storage = {\n    authority = \"feltdb\"\n    audit = \"feltdb\"\n    reporting = \"authboundry_projection\"\n  }\n\n  ui = {\n    mode = \"generated\"\n    theme = \"authboundry-default\"\n    login = \"default\"\n    signup = \"default\"\n    account = \"default\"\n    password_forgot = \"default\"\n    password_reset = \"default\"\n    password_change = \"default\"\n    email_verification = \"default\"\n    account_links = \"default\"\n    profile = \"default\"\n    devices = \"default\"\n    sessions = \"default\"\n    mfa = \"default\"\n    passkeys = \"default\"\n    recovery = \"default\"\n    tenant = \"default\"\n    agents = \"default\"\n  }\n}\n\nuse mail\nmail {\n  identities {\n    auth = \"auth@example.com\"\n  }\n  templates {\n    password_reset = \"./emails/password-reset.html\"\n    email_verification = \"./emails/email-verification.html\"\n  }\n}\n";

} // verus!

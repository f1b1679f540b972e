//! Character-level text primitives shared by the parser, the discovery
//! heuristics and the renderers. Every operation is stated over the `Seq<char>`
//! view of the strings involved.
use vstd::prelude::*;

verus! {

/// The characters of a string slice, in order.
pub fn chars_of(s: &str) -> (v: Vec<char>)
    ensures
        v@ == s@,
{
    let mut v: Vec<char> = Vec::new();
    for c in it: s.chars()
        invariant
            v@ == it.seq().take(it.index() as int),
            it.seq() == s@,
    {
        v.push(c);
    }
    v
}

/// `String::push`.
#[verifier::external_body]
pub(crate) fn push_char(s: &mut String, c: char)
    ensures
        final(s)@ == old(s)@.push(c),
{
    s.push(c);
}

/// A string holding exactly the given characters.
pub fn string_from_chars(v: &[char]) -> (s: String)
    ensures
        s@ == v@,
{
    let mut s = String::new();
    let mut i: usize = 0;
    while i < v.len()
        invariant
            i <= v@.len(),
            s@ == v@.take(i as int),
        decreases v@.len() - i,
    {
        push_char(&mut s, v[i]);
        i = i + 1;
        assert(s@ =~= v@.take(i as int));
    }
    assert(v@.take(v@.len() as int) =~= v@);
    s
}

/// An owned copy of a string slice.
pub fn owned(s: &str) -> (r: String)
    ensures
        r@ == s@,
{
    String::from_str(s)
}

/// `a` followed by `b`.
pub fn cat(a: &str, b: &str) -> (r: String)
    ensures
        r@ == a@ + b@,
{
    let mut r = String::from_str(a);
    r.append(b);
    r
}

/// `a`, `b`, `c` in order.
pub fn cat3(a: &str, b: &str, c: &str) -> (r: String)
    ensures
        r@ == a@ + b@ + c@,
{
    let mut r = String::from_str(a);
    r.append(b);
    r.append(c);
    r
}

/// Equality of two string slices, character by character.
pub fn str_eq(a: &str, b: &str) -> (r: bool)
    ensures
        r == (a@ == b@),
{
    let x = chars_of(a);
    let y = chars_of(b);
    chars_eq(x.as_slice(), y.as_slice())
}

pub fn chars_eq(x: &[char], y: &[char]) -> (r: bool)
    ensures
        r == (x@ == y@),
{
    if x.len() != y.len() {
        return false;
    }
    let mut i: usize = 0;
    while i < x.len()
        invariant
            x@.len() == y@.len(),
            i <= x@.len(),
            forall|j: int| 0 <= j < i ==> x@[j] == y@[j],
        decreases x@.len() - i,
    {
        if x[i] != y[i] {
            return false;
        }
        i = i + 1;
    }
    assert(x@ =~= y@);
    true
}

/// Unicode `White_Space`, as `char::is_whitespace` documents it.
pub open spec fn is_ws(c: char) -> bool {
    ||| ('\u{9}' <= c && c <= '\u{d}')
    ||| c == ' '
    ||| c == '\u{85}'
    ||| c == '\u{a0}'
    ||| c == '\u{1680}'
    ||| ('\u{2000}' <= c && c <= '\u{200a}')
    ||| c == '\u{2028}'
    ||| c == '\u{2029}'
    ||| c == '\u{202f}'
    ||| c == '\u{205f}'
    ||| c == '\u{3000}'
}

pub fn is_whitespace(c: char) -> (r: bool)
    ensures
        r == is_ws(c),
{
    ('\u{9}' <= c && c <= '\u{d}') || c == ' ' || c == '\u{85}' || c == '\u{a0}' || c
        == '\u{1680}' || ('\u{2000}' <= c && c <= '\u{200a}') || c == '\u{2028}' || c
        == '\u{2029}' || c == '\u{202f}' || c == '\u{205f}' || c == '\u{3000}'
}

/// Number of leading whitespace characters.
pub open spec fn lead_ws(s: Seq<char>) -> nat
    decreases s.len(),
{
    if s.len() > 0 && is_ws(s[0]) {
        1 + lead_ws(s.drop_first())
    } else {
        0
    }
}

/// Number of trailing whitespace characters.
pub open spec fn trail_ws(s: Seq<char>) -> nat
    decreases s.len(),
{
    if s.len() > 0 && is_ws(s.last()) {
        1 + trail_ws(s.drop_last())
    } else {
        0
    }
}

pub open spec fn trim_start_seq(s: Seq<char>) -> Seq<char> {
    s.skip(lead_ws(s) as int)
}

pub open spec fn trim_end_seq(s: Seq<char>) -> Seq<char> {
    s.take(s.len() - trail_ws(s))
}

/// `str::trim`: leading and trailing whitespace removed.
pub open spec fn trim_seq(s: Seq<char>) -> Seq<char> {
    trim_end_seq(trim_start_seq(s))
}

/// True when the string is empty or all whitespace (`s.trim().is_empty()`).
pub open spec fn blank_seq(s: Seq<char>) -> bool {
    forall|i: int| 0 <= i < s.len() ==> is_ws(#[trigger] s[i])
}

pub proof fn lemma_lead_ws_bound(s: Seq<char>)
    ensures
        lead_ws(s) <= s.len(),
        forall|i: int| 0 <= i < lead_ws(s) ==> is_ws(#[trigger] s[i]),
        lead_ws(s) < s.len() ==> !is_ws(s[lead_ws(s) as int]),
    decreases s.len(),
{
    if s.len() > 0 && is_ws(s[0]) {
        lemma_lead_ws_bound(s.drop_first());
        assert forall|i: int| 0 <= i < lead_ws(s) implies is_ws(#[trigger] s[i]) by {
            if i > 0 {
                assert(s[i] == s.drop_first()[i - 1]);
            }
        }
    }
}

pub proof fn lemma_trail_ws_bound(s: Seq<char>)
    ensures
        trail_ws(s) <= s.len(),
        forall|i: int| s.len() - trail_ws(s) <= i < s.len() ==> is_ws(#[trigger] s[i]),
        trail_ws(s) < s.len() ==> !is_ws(s[s.len() - trail_ws(s) - 1]),
    decreases s.len(),
{
    if s.len() > 0 && is_ws(s.last()) {
        lemma_trail_ws_bound(s.drop_last());
        assert forall|i: int| s.len() - trail_ws(s) <= i < s.len() implies is_ws(
            #[trigger] s[i],
        ) by {
            if i < s.len() - 1 {
                assert(s[i] == s.drop_last()[i]);
            }
        }
    }
}

/// The index of the first non-whitespace character, or the length.
pub(crate) fn lead_ws_exec(v: &[char]) -> (n: usize)
    ensures
        n == lead_ws(v@),
{
    let mut i: usize = 0;
    assert(v@.skip(0) =~= v@);
    while i < v.len() && is_whitespace(v[i])
        invariant
            i <= v@.len(),
            lead_ws(v@) == i + lead_ws(v@.skip(i as int)),
        decreases v@.len() - i,
    {
        assert(v@.skip(i as int).drop_first() =~= v@.skip(i + 1));
        i = i + 1;
    }
    i
}

/// Number of trailing whitespace characters of `v@.take(end)`.
fn trail_ws_exec(v: &[char], end: usize) -> (n: usize)
    requires
        end <= v@.len(),
    ensures
        n == trail_ws(v@.take(end as int)),
        n <= end,
{
    let mut j: usize = end;
    while j > 0 && is_whitespace(v[j - 1])
        invariant
            j <= end <= v@.len(),
            trail_ws(v@.take(end as int)) == (end - j) + trail_ws(v@.take(j as int)),
        decreases j,
    {
        assert(v@.take(j as int).drop_last() =~= v@.take(j - 1));
        j = j - 1;
    }
    end - j
}

/// The characters of `v@.subrange(lo, hi)`.
pub fn slice_chars(v: &[char], lo: usize, hi: usize) -> (r: Vec<char>)
    requires
        lo <= hi <= v@.len(),
    ensures
        r@ == v@.subrange(lo as int, hi as int),
{
    let mut r: Vec<char> = Vec::new();
    let mut i: usize = lo;
    while i < hi
        invariant
            lo <= i <= hi <= v@.len(),
            r@ == v@.subrange(lo as int, i as int),
        decreases hi - i,
    {
        r.push(v[i]);
        i = i + 1;
        assert(r@ =~= v@.subrange(lo as int, i as int));
    }
    r
}

/// `str::trim` over characters.
pub fn trim_chars(v: &[char]) -> (r: Vec<char>)
    ensures
        r@ == trim_seq(v@),
{
    let lo = lead_ws_exec(v);
    proof {
        lemma_lead_ws_bound(v@);
    }
    let rest = slice_chars(v, lo, v.len());
    assert(rest@ =~= trim_start_seq(v@));
    let n = trail_ws_exec(rest.as_slice(), rest.len());
    assert(rest@.take(rest@.len() as int) =~= rest@);
    slice_chars(rest.as_slice(), 0, rest.len() - n)
}

/// `str::trim` on a string slice.
pub fn trim(s: &str) -> (r: String)
    ensures
        r@ == trim_seq(s@),
{
    let v = chars_of(s);
    let t = trim_chars(v.as_slice());
    string_from_chars(t.as_slice())
}

pub proof fn lemma_trim_empty_iff_blank(s: Seq<char>)
    ensures
        (trim_seq(s).len() == 0) == blank_seq(s),
{
    lemma_lead_ws_bound(s);
    let t = trim_start_seq(s);
    lemma_trail_ws_bound(t);
    if blank_seq(s) {
        if lead_ws(s) < s.len() {
            assert(is_ws(s[lead_ws(s) as int]));
        }
    } else {
        let i = choose|i: int| 0 <= i < s.len() && !is_ws(s[i]);
        assert(i >= lead_ws(s));
        assert(t[i - lead_ws(s)] == s[i]);
        if trim_seq(s).len() == 0 {
            assert(is_ws(t[i - lead_ws(s)]));
        }
    }
}

/// `s.trim().is_empty()`.
pub fn is_blank(s: &str) -> (r: bool)
    ensures
        r == blank_seq(s@),
{
    let v = chars_of(s);
    let mut i: usize = 0;
    while i < v.len()
        invariant
            v@ == s@,
            i <= v@.len(),
            forall|j: int| 0 <= j < i ==> is_ws(#[trigger] v@[j]),
        decreases v@.len() - i,
    {
        if !is_whitespace(v[i]) {
            return false;
        }
        i = i + 1;
    }
    true
}

/// `char::to_ascii_lowercase`.
pub open spec fn lower_char(c: char) -> char {
    if 'A' <= c && c <= 'Z' {
        ((c as u32) + 32) as char
    } else {
        c
    }
}

/// `char::to_ascii_uppercase`.
pub open spec fn upper_char(c: char) -> char {
    if 'a' <= c && c <= 'z' {
        ((c as u32) - 32) as char
    } else {
        c
    }
}

pub open spec fn lower_seq(s: Seq<char>) -> Seq<char> {
    s.map_values(|c: char| lower_char(c))
}

pub open spec fn upper_seq(s: Seq<char>) -> Seq<char> {
    s.map_values(|c: char| upper_char(c))
}

pub fn lower_char_exec(c: char) -> (r: char)
    ensures
        r == lower_char(c),
{
    if 'A' <= c && c <= 'Z' {
        let n: u32 = (c as u32) + 32;
        assert('a' as u32 <= n <= 'z' as u32);
        char_from_ascii(n)
    } else {
        c
    }
}

pub fn upper_char_exec(c: char) -> (r: char)
    ensures
        r == upper_char(c),
{
    if 'a' <= c && c <= 'z' {
        let n: u32 = (c as u32) - 32;
        char_from_ascii(n)
    } else {
        c
    }
}

/// The character of an ASCII code point.
fn char_from_ascii(n: u32) -> (c: char)
    requires
        n < 128,
    ensures
        c == n as char,
        c as u32 == n,
{
    let b: u8 = n as u8;
    b as char
}

/// `str::to_ascii_lowercase`.
pub fn to_lower(s: &str) -> (r: String)
    ensures
        r@ == lower_seq(s@),
{
    let v = chars_of(s);
    let mut out: Vec<char> = Vec::new();
    let mut i: usize = 0;
    while i < v.len()
        invariant
            v@ == s@,
            i <= v@.len(),
            out@ == lower_seq(v@.take(i as int)),
        decreases v@.len() - i,
    {
        let c = lower_char_exec(v[i]);
        out.push(c);
        i = i + 1;
        assert(out@ =~= lower_seq(v@.take(i as int)));
    }
    assert(v@.take(v@.len() as int) =~= v@);
    string_from_chars(out.as_slice())
}

/// `str::to_ascii_uppercase`.
pub fn to_upper(s: &str) -> (r: String)
    ensures
        r@ == upper_seq(s@),
{
    let v = chars_of(s);
    let mut out: Vec<char> = Vec::new();
    let mut i: usize = 0;
    while i < v.len()
        invariant
            v@ == s@,
            i <= v@.len(),
            out@ == upper_seq(v@.take(i as int)),
        decreases v@.len() - i,
    {
        let c = upper_char_exec(v[i]);
        out.push(c);
        i = i + 1;
        assert(out@ =~= upper_seq(v@.take(i as int)));
    }
    assert(v@.take(v@.len() as int) =~= v@);
    string_from_chars(out.as_slice())
}

pub open spec fn is_prefix(p: Seq<char>, s: Seq<char>) -> bool {
    p.len() <= s.len() && s.take(p.len() as int) == p
}

pub open spec fn is_suffix(p: Seq<char>, s: Seq<char>) -> bool {
    p.len() <= s.len() && s.skip(s.len() - p.len()) == p
}

pub fn has_prefix(s: &[char], p: &[char]) -> (r: bool)
    ensures
        r == is_prefix(p@, s@),
{
    if p.len() > s.len() {
        return false;
    }
    let mut i: usize = 0;
    while i < p.len()
        invariant
            p@.len() <= s@.len(),
            i <= p@.len(),
            forall|j: int| 0 <= j < i ==> s@[j] == p@[j],
        decreases p@.len() - i,
    {
        if s[i] != p[i] {
            assert(s@.take(p@.len() as int)[i as int] != p@[i as int]);
            return false;
        }
        i = i + 1;
    }
    assert(s@.take(p@.len() as int) =~= p@);
    true
}

pub fn has_suffix(s: &[char], p: &[char]) -> (r: bool)
    ensures
        r == is_suffix(p@, s@),
{
    if p.len() > s.len() {
        return false;
    }
    let n = s.len();
    let off = n - p.len();
    let mut i: usize = 0;
    while i < p.len()
        invariant
            p@.len() <= s@.len(),
            off + p@.len() == s@.len(),
            n == s@.len(),
            i <= p@.len(),
            forall|j: int| 0 <= j < i ==> s@[off + j] == p@[j],
        decreases p@.len() - i,
    {
        if s[off + i] != p[i] {
            assert(s@.skip(off as int)[i as int] != p@[i as int]);
            return false;
        }
        i = i + 1;
    }
    assert(s@.skip(off as int) =~= p@);
    true
}

/// `str::starts_with` on string slices.
pub fn starts_with(s: &str, p: &str) -> (r: bool)
    ensures
        r == is_prefix(p@, s@),
{
    let a = chars_of(s);
    let b = chars_of(p);
    has_prefix(a.as_slice(), b.as_slice())
}

/// `str::ends_with` on string slices.
pub fn ends_with(s: &str, p: &str) -> (r: bool)
    ensures
        r == is_suffix(p@, s@),
{
    let a = chars_of(s);
    let b = chars_of(p);
    has_suffix(a.as_slice(), b.as_slice())
}

/// The index of the first occurrence of `c` in `s`, if any.
pub open spec fn first_index_of(s: Seq<char>, c: char) -> Option<int>
    decreases s.len(),
{
    if s.len() == 0 {
        None
    } else if s[0] == c {
        Some(0)
    } else {
        match first_index_of(s.drop_first(), c) {
            Some(i) => Some(i + 1),
            None => None,
        }
    }
}

pub proof fn lemma_first_index_of(s: Seq<char>, c: char)
    ensures
        first_index_of(s, c) matches Some(i) ==> 0 <= i < s.len() && s[i] == c && forall|
            j: int,
        |
            0 <= j < i ==> s[j] != c,
        first_index_of(s, c) is None ==> forall|j: int| 0 <= j < s.len() ==> s[j] != c,
    decreases s.len(),
{
    if s.len() > 0 && s[0] != c {
        lemma_first_index_of(s.drop_first(), c);
        assert forall|j: int| 1 <= j < s.len() implies s[j] == s.drop_first()[j - 1] by {}
    }
}

pub proof fn lemma_first_index_of_char(s: Seq<char>, c: char, i: int)
    requires
        0 <= i < s.len(),
        s[i] == c,
        forall|j: int| 0 <= j < i ==> s[j] != c,
    ensures
        first_index_of(s, c) == Some(i),
    decreases s.len(),
{
    if i > 0 {
        assert forall|j: int| 0 <= j < i - 1 implies s.drop_first()[j] != c by {
            assert(s.drop_first()[j] == s[j + 1]);
        }
        lemma_first_index_of_char(s.drop_first(), c, i - 1);
    }
}

pub proof fn lemma_first_index_of_none(s: Seq<char>, c: char)
    requires
        forall|j: int| 0 <= j < s.len() ==> s[j] != c,
    ensures
        first_index_of(s, c) is None,
    decreases s.len(),
{
    if s.len() > 0 {
        assert forall|j: int| 0 <= j < s.len() - 1 implies s.drop_first()[j] != c by {
            assert(s.drop_first()[j] == s[j + 1]);
        }
        lemma_first_index_of_none(s.drop_first(), c);
    }
}

/// The position of the first `c` in `v`.
pub fn find_char(v: &[char], c: char) -> (r: Option<usize>)
    ensures
        match r {
            Some(i) => first_index_of(v@, c) == Some(i as int),
            None => first_index_of(v@, c) is None,
        },
{
    let mut i: usize = 0;
    while i < v.len()
        invariant
            i <= v@.len(),
            forall|j: int| 0 <= j < i ==> v@[j] != c,
        decreases v@.len() - i,
    {
        if v[i] == c {
            proof {
                lemma_first_index_of_char(v@, c, i as int);
            }
            return Some(i);
        }
        i = i + 1;
    }
    proof {
        lemma_first_index_of_none(v@, c);
    }
    None
}

/// Whether `c` occurs in `s`.
pub open spec fn contains_char(s: Seq<char>, c: char) -> bool {
    exists|i: int| 0 <= i < s.len() && s[i] == c
}

pub fn has_char(v: &[char], c: char) -> (r: bool)
    ensures
        r == contains_char(v@, c),
{
    let mut i: usize = 0;
    while i < v.len()
        invariant
            i <= v@.len(),
            forall|j: int| 0 <= j < i ==> v@[j] != c,
        decreases v@.len() - i,
    {
        if v[i] == c {
            return true;
        }
        i = i + 1;
    }
    false
}

/// The decimal digit character for `d < 10`.
pub open spec fn digit_char(d: nat) -> char {
    ((d + 48) as u32) as char
}

/// Decimal rendering of a natural number, most significant digit first.
pub open spec fn decimal(n: nat) -> Seq<char>
    decreases n,
{
    if n < 10 {
        seq![digit_char(n)]
    } else {
        decimal(n / 10).push(digit_char(n % 10))
    }
}

/// Decimal rendering of an integer, with a leading `-` when negative.
pub open spec fn signed_decimal(n: int) -> Seq<char> {
    if n < 0 {
        seq!['-'] + decimal((-n) as nat)
    } else {
        decimal(n as nat)
    }
}

fn digit_exec(d: u64) -> (c: char)
    requires
        d < 10,
    ensures
        c == digit_char(d as nat),
{
    let n: u32 = (d as u32) + 48;
    char_from_ascii(n)
}

/// `u64` formatted with `{}`.
pub fn u64_decimal(n: u64) -> (r: String)
    ensures
        r@ == decimal(n as nat),
{
    let mut digits: Vec<char> = Vec::new();
    let mut m: u64 = n;
    let ghost mut rest: Seq<char> = Seq::empty();
    // digits holds the low-order digits in reverse.
    while m >= 10
        invariant
            decimal(n as nat) == decimal(m as nat) + digits@.reverse(),
        decreases m,
    {
        let d = m % 10;
        let c = digit_exec(d);
        proof {
            assert(decimal(m as nat) == decimal((m / 10) as nat).push(c));
            assert(digits@.push(c).reverse() =~= seq![c] + digits@.reverse());
            assert(decimal(m as nat) + digits@.reverse() =~= decimal((m / 10) as nat) + digits@.push(
                c,
            ).reverse());
        }
        digits.push(c);
        m = m / 10;
    }
    let c = digit_exec(m);
    digits.push(c);
    proof {
        assert(digits@.reverse() =~= seq![c] + digits@.drop_last().reverse());
    }
    let mut out: Vec<char> = Vec::new();
    let mut i: usize = digits.len();
    while i > 0
        invariant
            i <= digits@.len(),
            out@ == digits@.skip(i as int).reverse(),
        decreases i,
    {
        i = i - 1;
        out.push(digits[i]);
        assert(out@ =~= digits@.skip(i as int).reverse());
    }
    assert(digits@.skip(0) =~= digits@);
    string_from_chars(out.as_slice())
}

/// `i64` formatted with `{}`.
pub fn i64_decimal(n: i64) -> (r: String)
    ensures
        r@ == signed_decimal(n as int),
{
    if n < 0 {
        let m: u64 = if n == i64::MIN {
            9223372036854775808u64
        } else {
            (-n) as u64
        };
        assert(m as int == -(n as int));
        let d = u64_decimal(m);
        let r = cat("-", d.as_str());
        proof {
            reveal_strlit("-");
            assert(r@ =~= signed_decimal(n as int));
        }
        r
    } else {
        u64_decimal(n as u64)
    }
}

/// The views of a sequence of strings.
pub open spec fn views(v: Seq<String>) -> Seq<Seq<char>> {
    v.map_values(|s: String| s@)
}

/// `parts` joined with `sep` between consecutive parts (`[..].join(sep)`).
pub open spec fn join_with(parts: Seq<Seq<char>>, sep: Seq<char>) -> Seq<char>
    decreases parts.len(),
{
    if parts.len() == 0 {
        Seq::empty()
    } else if parts.len() == 1 {
        parts[0]
    } else {
        join_with(parts.drop_last(), sep) + sep + parts.last()
    }
}

/// The strings of `parts` joined with `sep`.
pub fn join(parts: &Vec<String>, sep: &str) -> (r: String)
    ensures
        r@ == join_with(views(parts@), sep@),
{
    let mut out = String::new();
    let mut i: usize = 0;
    while i < parts.len()
        invariant
            i <= parts@.len(),
            out@ == join_with(views(parts@).take(i as int), sep@),
        decreases parts@.len() - i,
    {
        if i > 0 {
            out.append(sep);
        }
        out.append(parts[i].as_str());
        proof {
            let t = views(parts@).take(i + 1);
            assert(t.drop_last() =~= views(parts@).take(i as int));
            assert(t.last() == parts@[i as int]@);
        }
        i = i + 1;
    }
    assert(views(parts@).take(parts@.len() as int) =~= views(parts@));
    out
}

pub proof fn lemma_map_push<A, B>(v: Seq<A>, x: A, f: spec_fn(A) -> B)
    ensures
        v.push(x).map_values(f) =~= v.map_values(f).push(f(x)),
{
}

pub proof fn lemma_map_take_step<A, B>(v: Seq<A>, i: int, f: spec_fn(A) -> B)
    requires
        0 <= i < v.len(),
    ensures
        v.take(i + 1).map_values(f) =~= v.take(i).map_values(f).push(f(v[i])),
{
}

/// Lexicographic order on characters by code point: the order of `str`'s `Ord`.
pub open spec fn seq_le(a: Seq<char>, b: Seq<char>) -> bool
    decreases a.len(),
{
    if a.len() == 0 {
        true
    } else if b.len() == 0 {
        false
    } else if a[0] != b[0] {
        a[0] < b[0]
    } else {
        seq_le(a.drop_first(), b.drop_first())
    }
}

proof fn lemma_seq_le_skip(a: Seq<char>, b: Seq<char>, i: int)
    requires
        0 <= i < a.len(),
        i < b.len(),
        a[i] == b[i],
    ensures
        seq_le(a.skip(i), b.skip(i)) == seq_le(a.skip(i + 1), b.skip(i + 1)),
{
    assert(a.skip(i).drop_first() =~= a.skip(i + 1));
    assert(b.skip(i).drop_first() =~= b.skip(i + 1));
}

/// `a <= b` for strings.
pub fn str_le(a: &str, b: &str) -> (r: bool)
    ensures
        r == seq_le(a@, b@),
{
    let x = chars_of(a);
    let y = chars_of(b);
    let mut i: usize = 0;
    assert(x@.skip(0) =~= x@);
    assert(y@.skip(0) =~= y@);
    while i < x.len() && i < y.len()
        invariant
            x@ == a@,
            y@ == b@,
            i <= x@.len(),
            i <= y@.len(),
            seq_le(a@, b@) == seq_le(x@.skip(i as int), y@.skip(i as int)),
        decreases x@.len() - i,
    {
        if x[i] != y[i] {
            return x[i] < y[i];
        }
        proof {
            lemma_seq_le_skip(x@, y@, i as int);
        }
        i = i + 1;
    }
    i == x.len()
}

pub proof fn lemma_seq_le_total(a: Seq<char>, b: Seq<char>)
    ensures
        seq_le(a, b) || seq_le(b, a),
        seq_le(a, b) && seq_le(b, a) ==> a == b,
        seq_le(a, a),
    decreases a.len(),
{
    if a.len() > 0 && b.len() > 0 && a[0] == b[0] {
        lemma_seq_le_total(a.drop_first(), b.drop_first());
        if seq_le(a, b) && seq_le(b, a) {
            assert(a =~= seq![a[0]] + a.drop_first());
            assert(b =~= seq![b[0]] + b.drop_first());
        }
    }
    if a.len() > 0 {
        lemma_seq_le_total(a.drop_first(), a.drop_first());
    }
}

pub proof fn lemma_seq_le_transitive(a: Seq<char>, b: Seq<char>, c: Seq<char>)
    requires
        seq_le(a, b),
        seq_le(b, c),
    ensures
        seq_le(a, c),
    decreases a.len(),
{
    if a.len() > 0 && b.len() > 0 && c.len() > 0 && a[0] == b[0] && b[0] == c[0] {
        lemma_seq_le_transitive(a.drop_first(), b.drop_first(), c.drop_first());
    }
}

/// `pat` occurs in `s` at `i`.
pub open spec fn occurs_at(s: Seq<char>, pat: Seq<char>, i: int) -> bool {
    0 <= i && i + pat.len() <= s.len() && s.subrange(i, i + pat.len()) == pat
}

/// The first occurrence of `pat` in `s` at or after `from` (`str::find` from there).
pub open spec fn find_from(s: Seq<char>, pat: Seq<char>, from: int) -> Option<int>
    decreases s.len() + 1 - from,
{
    if from < 0 || from + pat.len() > s.len() {
        None
    } else if occurs_at(s, pat, from) {
        Some(from)
    } else {
        find_from(s, pat, from + 1)
    }
}

pub proof fn lemma_find_from(s: Seq<char>, pat: Seq<char>, from: int)
    requires
        0 <= from,
    ensures
        find_from(s, pat, from) matches Some(i) ==> from <= i && occurs_at(s, pat, i) && forall|j: int|
            from <= j < i ==> !occurs_at(s, pat, j),
        find_from(s, pat, from) is None ==> forall|j: int| from <= j ==> !occurs_at(s, pat, j),
    decreases s.len() + 1 - from,
{
    if from + pat.len() <= s.len() && !occurs_at(s, pat, from) {
        lemma_find_from(s, pat, from + 1);
    }
}

/// The first occurrence of `pat` in `v` at or after `from`.
pub fn find_seq(v: &[char], pat: &[char], from: usize) -> (r: Option<usize>)
    ensures
        match r {
            Some(i) => find_from(v@, pat@, from as int) == Some(i as int),
            None => find_from(v@, pat@, from as int) is None,
        },
{
    let mut i: usize = from;
    if pat.len() > v.len() {
        proof {
            lemma_find_from(v@, pat@, from as int);
            assert(find_from(v@, pat@, from as int) is None);
        }
        return None;
    }
    while i <= v.len() - pat.len()
        invariant
            from <= i,
            pat@.len() <= v@.len(),
            find_from(v@, pat@, from as int) == find_from(v@, pat@, i as int),
        decreases v@.len() - i,
    {
        let mut k: usize = 0;
        let mut same = true;
        while k < pat.len()
            invariant
                k <= pat@.len(),
                i + pat@.len() <= v@.len(),
                same == (forall|j: int| 0 <= j < k ==> v@[i + j] == pat@[j]),
            decreases pat@.len() - k,
        {
            assert(i + k < v.len());
            if v[i + k] != pat[k] {
                same = false;
            }
            k = k + 1;
        }
        proof {
            if same {
                assert(v@.subrange(i as int, i + pat@.len()) =~= pat@);
            } else {
                if v@.subrange(i as int, i + pat@.len()) == pat@ {
                    assert forall|j: int| 0 <= j < pat@.len() implies v@[i + j] == pat@[j] by {
                        assert(v@.subrange(i as int, i + pat@.len())[j] == v@[i + j]);
                    }
                }
            }
        }
        if same {
            return Some(i);
        }
        i = i + 1;
    }
    None
}

/// `s` contains `pat` somewhere.
pub open spec fn contains_seq(s: Seq<char>, pat: Seq<char>) -> bool {
    exists|i: int| occurs_at(s, pat, i)
}

pub fn contains_str(s: &str, pat: &str) -> (r: bool)
    ensures
        r == contains_seq(s@, pat@),
{
    let v = chars_of(s);
    let p = chars_of(pat);
    let r = find_seq(v.as_slice(), p.as_slice(), 0);
    proof {
        lemma_find_from(v@, p@, 0);
        if r is None {
            assert(!contains_seq(s@, pat@));
        }
    }
    r.is_some()
}

/// The UTF-8 encoding of one character.
pub open spec fn utf8_char(c: char) -> Seq<u8> {
    let n = c as u32 as int;
    if n < 0x80 {
        seq![n as u8]
    } else if n < 0x800 {
        seq![(0xC0 + n / 64) as u8, (0x80 + n % 64) as u8]
    } else if n < 0x10000 {
        seq![(0xE0 + n / 4096) as u8, (0x80 + (n / 64) % 64) as u8, (0x80 + n % 64) as u8]
    } else {
        seq![
            (0xF0 + n / 262144) as u8,
            (0x80 + (n / 4096) % 64) as u8,
            (0x80 + (n / 64) % 64) as u8,
            (0x80 + n % 64) as u8,
        ]
    }
}

/// The UTF-8 encoding of a character sequence (`str::as_bytes`).
pub open spec fn utf8(s: Seq<char>) -> Seq<u8>
    decreases s.len(),
{
    if s.len() == 0 {
        Seq::empty()
    } else {
        utf8(s.drop_last()) + utf8_char(s.last())
    }
}

pub proof fn lemma_utf8_concat(a: Seq<char>, b: Seq<char>)
    ensures
        utf8(a + b) == utf8(a) + utf8(b),
    decreases b.len(),
{
    if b.len() == 0 {
        assert(a + b =~= a);
        assert(utf8(a) + utf8(b) =~= utf8(a));
    } else {
        lemma_utf8_concat(a, b.drop_last());
        assert((a + b).drop_last() =~= a + b.drop_last());
        assert(utf8(a) + (utf8(b.drop_last()) + utf8_char(b.last())) =~= (utf8(a) + utf8(
            b.drop_last(),
        )) + utf8_char(b.last()));
    }
}

fn utf8_char_exec(c: char) -> (r: Vec<u8>)
    ensures
        r@ == utf8_char(c),
{
    let n: u32 = c as u32;
    let mut v: Vec<u8> = Vec::new();
    if n < 0x80 {
        v.push(n as u8);
    } else if n < 0x800 {
        v.push((0xC0 + n / 64) as u8);
        v.push((0x80 + n % 64) as u8);
    } else if n < 0x10000 {
        v.push((0xE0 + n / 4096) as u8);
        v.push((0x80 + (n / 64) % 64) as u8);
        v.push((0x80 + n % 64) as u8);
    } else {
        assert(n <= 0x10FFFF);
        v.push((0xF0 + n / 262144) as u8);
        v.push((0x80 + (n / 4096) % 64) as u8);
        v.push((0x80 + (n / 64) % 64) as u8);
        v.push((0x80 + n % 64) as u8);
    }
    assert(v@ =~= utf8_char(c));
    v
}

/// Appends the UTF-8 bytes of `s`.
pub fn push_utf8(out: &mut Vec<u8>, s: &str)
    ensures
        final(out)@ == old(out)@ + utf8(s@),
{
    let v = chars_of(s);
    let ghost start = out@;
    let mut i: usize = 0;
    while i < v.len()
        invariant
            v@ == s@,
            i <= v@.len(),
            out@ == start + utf8(v@.take(i as int)),
        decreases v@.len() - i,
    {
        let mut bytes = utf8_char_exec(v[i]);
        out.append(&mut bytes);
        proof {
            assert(v@.take(i + 1).drop_last() =~= v@.take(i as int));
        }
        i = i + 1;
    }
    assert(v@.take(i as int) =~= v@);
}

pub open spec fn hex_digit(d: nat) -> char {
    if d < 10 {
        ((d + 48) as u32) as char
    } else {
        ((d + 87) as u32) as char
    }
}

/// The low `n` hexadecimal digits of `h`, most significant first, zero padded.
pub open spec fn hex_n(h: nat, n: nat) -> Seq<char>
    decreases n,
{
    if n == 0 {
        Seq::empty()
    } else {
        hex_n(h / 16, (n - 1) as nat).push(hex_digit(h % 16))
    }
}

pub(crate) fn hex_digit_exec(d: u64) -> (c: char)
    requires
        d < 16,
    ensures
        c == hex_digit(d as nat),
{
    if d < 10 {
        char_from_ascii((d as u32) + 48)
    } else {
        char_from_ascii((d as u32) + 87)
    }
}

/// `format!("{:016x}", h)`.
pub fn hex16(h: u64) -> (r: String)
    ensures
        r@ == hex_n(h as nat, 16),
{
    let mut rev: Vec<char> = Vec::new();
    let mut m: u64 = h;
    let mut k: usize = 0;
    while k < 16
        invariant
            k <= 16,
            hex_n(h as nat, 16) == hex_n(m as nat, (16 - k) as nat) + rev@.reverse(),
        decreases 16 - k,
    {
        let c = hex_digit_exec(m % 16);
        proof {
            assert(hex_n(m as nat, (16 - k) as nat) == hex_n((m / 16) as nat, (16 - k - 1) as nat).push(c));
            assert(rev@.push(c).reverse() =~= seq![c] + rev@.reverse());
            assert(hex_n(m as nat, (16 - k) as nat) + rev@.reverse() =~= hex_n((m / 16) as nat, (16 - k - 1) as nat) + rev@.push(c).reverse());
        }
        rev.push(c);
        m = m / 16;
        k = k + 1;
    }
    assert(hex_n(m as nat, 0) =~= Seq::<char>::empty());
    assert(Seq::<char>::empty() + rev@.reverse() =~= rev@.reverse());
    let mut out: Vec<char> = Vec::new();
    let mut i: usize = rev.len();
    while i > 0
        invariant
            i <= rev@.len(),
            out@ == rev@.skip(i as int).reverse(),
        decreases i,
    {
        i = i - 1;
        out.push(rev[i]);
        assert(out@ =~= rev@.skip(i as int).reverse());
    }
    assert(rev@.skip(0) =~= rev@);
    string_from_chars(out.as_slice())
}

pub open spec fn bool_text(b: bool) -> Seq<char> {
    if b {
        "true"@
    } else {
        "false"@
    }
}

/// `bool` formatted with `{}`.
pub fn bool_str(b: bool) -> (r: &'static str)
    ensures
        r@ == bool_text(b),
{
    if b {
        "true"
    } else {
        "false"
    }
}

/// Each item followed by `,`.
pub open spec fn list_text(items: Seq<Seq<char>>) -> Seq<char>
    decreases items.len(),
{
    if items.len() == 0 {
        Seq::empty()
    } else {
        list_text(items.drop_last()) + items.last() + ","@
    }
}

/// Appends each string of `items` followed by `,`.
pub fn append_list(out: &mut String, items: &Vec<String>)
    ensures
        final(out)@ == old(out)@ + list_text(views(items@)),
{
    let ghost start = out@;
    let mut i: usize = 0;
    while i < items.len()
        invariant
            i <= items@.len(),
            out@ == start + list_text(views(items@).take(i as int)),
        decreases items@.len() - i,
    {
        out.append(items[i].as_str());
        out.append(",");
        proof {
            let t = views(items@).take(i + 1);
            assert(t.drop_last() =~= views(items@).take(i as int));
        }
        i = i + 1;
    }
    assert(views(items@).take(i as int) =~= views(items@));
}

} // verus!

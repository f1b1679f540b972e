//! What adopting an application writes besides its declaration: the ignore
//! rules, the package dependency, the framework bridges, the integration
//! record and the development accounts.
use vstd::prelude::*;
use crate::text::{
    owned, chars_of, push_char, str_eq, trim, trim_seq, trim_start_seq, trim_end_seq, is_ws,
    lead_ws, trail_ws, blank_seq, lemma_lead_ws_bound, lemma_trail_ws_bound, first_index_of,
    lemma_first_index_of, lemma_first_index_of_char, lemma_first_index_of_none, views,
};
use crate::text::{contains_seq, contains_str};
use super::declaration::{lines_of, strip_cr, replace_first, replace_first_exec};
use super::report::{DEVELOPMENT_FILE, FileChange, lines_exec};
use super::control::opt_view;
use super::{CliError, error_owned};
use crate::discovery::model::{ApplicationCandidate, ExistingAuthSystem, AuthCoexistence, auth_coexistence_name};
use crate::discovery::render::{esc, append_escaped};
use crate::text::{bool_text, bool_str, join_with, join};
use super::report::{or_text, InitPlan, manifest_json, render_manifest_with_upstream};
use super::adoption::InitMode;
use super::declaration::{upgraded, upgrade_declaration, DEFAULT_DECLARATION};

verus! {

/// Where the development mail outbox lives; it is never committed.
pub const MAIL_DIRECTORY: &'static str = ".authboundry/mail/";

/// Some line of `text`, trimmed, is `entry`.
pub open spec fn ignores(text: Seq<char>, entry: Seq<char>) -> bool {
    exists|i: int| 0 <= i < lines_of(text).len() && trim_seq(#[trigger] lines_of(text)[i]) == entry
}

/// `text` with `entry` added on a line of its own, where no line names it.
pub open spec fn with_ignored(text: Seq<char>, entry: Seq<char>) -> Seq<char> {
    if ignores(text, entry) {
        text
    } else {
        let base = if text.len() > 0 && text.last() != '\n' {
            text.push('\n')
        } else {
            text
        };
        base + entry + "\n"@
    }
}

/// The ignore file once the development accounts and the mail outbox are
/// listed in it.
pub open spec fn gitignore_text(before: Option<Seq<char>>) -> Seq<char> {
    let start = match before {
        Some(b) => b,
        None => Seq::empty(),
    };
    with_ignored(with_ignored(start, DEVELOPMENT_FILE@), MAIL_DIRECTORY@)
}

/// The ignore file adoption writes, where that changes it.
pub open spec fn gitignore_update(before: Option<Seq<char>>) -> Option<Seq<char>> {
    if before == Some(gitignore_text(before)) {
        None
    } else {
        Some(gitignore_text(before))
    }
}

fn ignores_exec(text: &str, entry: &str) -> (r: bool)
    ensures
        r == ignores(text@, entry@),
{
    let ls = lines_exec(text);
    let mut i: usize = 0;
    while i < ls.len()
        invariant
            i <= ls@.len(),
            views(ls@) == lines_of(text@),
            forall|j: int| 0 <= j < i ==> trim_seq(#[trigger] lines_of(text@)[j]) != entry@,
        decreases ls@.len() - i,
    {
        let t = trim(ls[i].as_str());
        assert(views(ls@)[i as int] == ls@[i as int]@);
        if str_eq(t.as_str(), entry) {
            assert(trim_seq(lines_of(text@)[i as int]) == entry@);
            return true;
        }
        i = i + 1;
    }
    false
}

fn with_ignored_exec(text: String, entry: &str) -> (r: String)
    ensures
        r@ == with_ignored(text@, entry@),
{
    if ignores_exec(text.as_str(), entry) {
        return text;
    }
    let v = chars_of(text.as_str());
    let mut out = text;
    if v.len() > 0 && v[v.len() - 1] != '\n' {
        push_char(&mut out, '\n');
    }
    out.append(entry);
    out.append("\n");
    out
}

/// The ignore file adoption writes, given what it holds now (`None` where
/// there is none); `None` where it already lists both.
pub fn gitignore_after(before: &Option<String>) -> (r: Option<String>)
    ensures
        opt_view(r) == gitignore_update(opt_view(*before)),
{
    let start = match before {
        Some(b) => b.clone(),
        None => String::new(),
    };
    let a = with_ignored_exec(start, DEVELOPMENT_FILE);
    let after = with_ignored_exec(a, MAIL_DIRECTORY);
    match before {
        Some(b) => {
            if str_eq(b.as_str(), after.as_str()) {
                None
            } else {
                Some(after)
            }
        },
        None => Some(after),
    }
}

proof fn lemma_first_index_of_concat(a: Seq<char>, b: Seq<char>, c: char)
    requires
        first_index_of(a, c) is Some,
    ensures
        first_index_of(a + b, c) == first_index_of(a, c),
{
    lemma_first_index_of(a, c);
    let i = first_index_of(a, c)->0;
    assert forall|j: int| 0 <= j < i implies (a + b)[j] != c by {
        assert((a + b)[j] == a[j]);
    }
    assert((a + b)[i] == a[i]);
    lemma_first_index_of_char(a + b, c, i);
}

/// The lines of text that ends a line, followed by more, are its lines and
/// then those of the rest.
pub(crate) proof fn lemma_lines_concat(a: Seq<char>, b: Seq<char>)
    requires
        a.len() == 0 || a.last() == '\n',
    ensures
        lines_of(a + b) == lines_of(a) + lines_of(b),
    decreases a.len(),
{
    if a.len() == 0 {
        assert(a + b =~= b);
        assert(lines_of(a) =~= Seq::<Seq<char>>::empty());
        assert(lines_of(a) + lines_of(b) =~= lines_of(b));
    } else {
        lemma_first_index_of_char_exists(a);
        lemma_first_index_of_concat(a, b, '\n');
        lemma_first_index_of(a, '\n');
        let i = first_index_of(a, '\n')->0;
        assert((a + b).take(i) =~= a.take(i));
        assert((a + b).skip(i + 1) =~= a.skip(i + 1) + b);
        let rest = a.skip(i + 1);
        assert(rest.len() == 0 || rest.last() == '\n') by {
            if rest.len() > 0 {
                assert(rest.last() == a.last());
            }
        }
        lemma_lines_concat(rest, b);
        assert(lines_of(a + b) =~= seq![strip_cr(a.take(i))] + (lines_of(rest) + lines_of(b)));
        assert(lines_of(a) =~= seq![strip_cr(a.take(i))] + lines_of(rest));
        assert(lines_of(a + b) =~= lines_of(a) + lines_of(b));
    }
}

proof fn lemma_first_index_of_char_exists(a: Seq<char>)
    requires
        a.len() > 0,
        a.last() == '\n',
    ensures
        first_index_of(a, '\n') is Some,
{
    lemma_first_index_of(a, '\n');
    if first_index_of(a, '\n') is None {
        assert(a[a.len() - 1] == '\n');
    }
}

/// A line without line endings, ended, is that one line.
pub(crate) proof fn lemma_lines_single(e: Seq<char>)
    requires
        forall|j: int| 0 <= j < e.len() ==> e[j] != '\n',
        e.len() == 0 || e.last() != '\r',
    ensures
        lines_of(e + "\n"@) == seq![e],
{
    reveal_strlit("\n");
    let s = e + "\n"@;
    assert forall|j: int| 0 <= j < e.len() implies s[j] != '\n' by {
        assert(s[j] == e[j]);
    }
    lemma_first_index_of_char(s, '\n', e.len() as int);
    assert(s.take(e.len() as int) =~= e);
    assert(s.skip(e.len() as int + 1) =~= Seq::<char>::empty());
    assert(lines_of(Seq::<char>::empty()) =~= Seq::<Seq<char>>::empty());
    assert(lines_of(s) =~= seq![e]);
}

proof fn lemma_blank_lead_ws(s: Seq<char>)
    requires
        blank_seq(s),
    ensures
        lead_ws(s) == s.len(),
    decreases s.len(),
{
    if s.len() > 0 {
        assert(is_ws(s[0]));
        assert forall|i: int| 0 <= i < s.drop_first().len() implies is_ws(#[trigger] s.drop_first()[i]) by {
            assert(s.drop_first()[i] == s[i + 1]);
        }
        lemma_blank_lead_ws(s.drop_first());
    }
}

proof fn lemma_lead_ws_push(s: Seq<char>, c: char)
    requires
        !blank_seq(s),
    ensures
        lead_ws(s.push(c)) == lead_ws(s),
    decreases s.len(),
{
    let t = s.push(c);
    assert(t[0] == s[0]);
    if is_ws(s[0]) {
        assert(t.drop_first() =~= s.drop_first().push(c));
        let i = choose|i: int| 0 <= i < s.len() && !is_ws(#[trigger] s[i]);
        assert(i > 0);
        assert(s.drop_first()[i - 1] == s[i]);
        assert(!blank_seq(s.drop_first()));
        lemma_lead_ws_push(s.drop_first(), c);
    }
}

/// Dropping trailing whitespace changes nothing that `trim` keeps.
proof fn lemma_trim_drop_ws(l: Seq<char>)
    requires
        l.len() > 0,
        is_ws(l.last()),
    ensures
        trim_seq(l.drop_last()) == trim_seq(l),
{
    let x = l.drop_last();
    let w = l.last();
    assert(l =~= x.push(w));
    if blank_seq(x) {
        assert(blank_seq(l)) by {
            assert forall|i: int| 0 <= i < l.len() implies is_ws(#[trigger] l[i]) by {
                if i < x.len() {
                    assert(l[i] == x[i]);
                }
            }
        }
        lemma_blank_lead_ws(x);
        lemma_blank_lead_ws(l);
        assert(trim_start_seq(x) =~= Seq::<char>::empty());
        assert(trim_start_seq(l) =~= Seq::<char>::empty());
    } else {
        lemma_lead_ws_push(x, w);
        lemma_lead_ws_bound(x);
        let p = lead_ws(x) as int;
        let u = x.skip(p);
        assert(trim_start_seq(l) =~= u.push(w));
        assert(trim_start_seq(x) =~= u);
        let uw = u.push(w);
        assert(uw.last() == w);
        assert(uw.drop_last() =~= u);
        assert(trail_ws(uw) == 1 + trail_ws(u));
        lemma_trail_ws_bound(u);
        assert(uw.take(uw.len() - trail_ws(uw)) =~= u.take(u.len() - trail_ws(u)));
    }
}

/// Ending the last line changes no trimmed line.
proof fn lemma_lines_end(s: Seq<char>)
    requires
        s.len() > 0,
        s.last() != '\n',
    ensures
        lines_of(s).len() == lines_of(s.push('\n')).len(),
        forall|k: int|
            0 <= k < lines_of(s).len() ==> trim_seq(#[trigger] lines_of(s)[k]) == trim_seq(
                lines_of(s.push('\n'))[k],
            ),
    decreases s.len(),
{
    let t = s.push('\n');
    lemma_first_index_of(s, '\n');
    match first_index_of(s, '\n') {
        Some(i) => {
            lemma_first_index_of_concat(s, seq!['\n'], '\n');
            assert(t =~= s + seq!['\n']);
            assert(t.take(i) =~= s.take(i));
            assert(t.skip(i + 1) =~= s.skip(i + 1).push('\n'));
            assert(i < s.len() - 1);
            assert(s.skip(i + 1).last() == s.last());
            lemma_lines_end(s.skip(i + 1));
            assert(lines_of(s) =~= seq![strip_cr(s.take(i))] + lines_of(s.skip(i + 1)));
            assert(lines_of(t) =~= seq![strip_cr(s.take(i))] + lines_of(s.skip(i + 1).push('\n')));
            assert forall|k: int| 0 <= k < lines_of(s).len() implies trim_seq(
                #[trigger] lines_of(s)[k],
            ) == trim_seq(lines_of(t)[k]) by {
                if k > 0 {
                    assert(lines_of(s)[k] == lines_of(s.skip(i + 1))[k - 1]);
                    assert(lines_of(t)[k] == lines_of(s.skip(i + 1).push('\n'))[k - 1]);
                }
            }
        },
        None => {
            assert forall|j: int| 0 <= j < s.len() implies t[j] != '\n' by {
                assert(t[j] == s[j]);
            }
            lemma_first_index_of_char(t, '\n', s.len() as int);
            assert(t.take(s.len() as int) =~= s);
            assert(t.skip(s.len() as int + 1) =~= Seq::<char>::empty());
            assert(lines_of(Seq::<char>::empty()) =~= Seq::<Seq<char>>::empty());
            assert(lines_of(t) =~= seq![strip_cr(s)]);
            assert(lines_of(s) =~= seq![s]);
            if s.last() == '\r' {
                assert(is_ws(s.last()));
                lemma_trim_drop_ws(s);
            }
        },
    }
}

/// An entry that stands alone on a line as it is.
pub open spec fn plain_entry(e: Seq<char>) -> bool {
    &&& e.len() > 0
    &&& forall|j: int| 0 <= j < e.len() ==> e[j] != '\n'
    &&& e.last() != '\r'
    &&& trim_seq(e) == e
}

proof fn lemma_with_ignored_names(t: Seq<char>, e: Seq<char>)
    requires
        plain_entry(e),
    ensures
        ignores(with_ignored(t, e), e),
{
    if !ignores(t, e) {
        let base = if t.len() > 0 && t.last() != '\n' {
            t.push('\n')
        } else {
            t
        };
        assert(with_ignored(t, e) =~= base + (e + "\n"@));
        lemma_lines_concat(base, e + "\n"@);
        lemma_lines_single(e);
        let ls = lines_of(with_ignored(t, e));
        assert(ls =~= lines_of(base) + seq![e]);
        assert(ls[lines_of(base).len() as int] == e);
        assert(trim_seq(ls[lines_of(base).len() as int]) == e);
    }
}

proof fn lemma_with_ignored_keeps(t: Seq<char>, e1: Seq<char>, e2: Seq<char>)
    requires
        ignores(t, e1),
        plain_entry(e2),
    ensures
        ignores(with_ignored(t, e2), e1),
{
    if !ignores(t, e2) {
        let k = choose|k: int| 0 <= k < lines_of(t).len() && trim_seq(#[trigger] lines_of(t)[k]) == e1;
        lemma_lines_single(e2);
        if t.len() > 0 && t.last() != '\n' {
            let base = t.push('\n');
            assert(with_ignored(t, e2) =~= base + (e2 + "\n"@));
            lemma_lines_concat(base, e2 + "\n"@);
            lemma_lines_end(t);
            let ls = lines_of(with_ignored(t, e2));
            assert(ls =~= lines_of(base) + seq![e2]);
            assert(ls[k] == lines_of(base)[k]);
            assert(trim_seq(ls[k]) == e1);
        } else {
            assert(with_ignored(t, e2) =~= t + (e2 + "\n"@));
            lemma_lines_concat(t, e2 + "\n"@);
            let ls = lines_of(with_ignored(t, e2));
            assert(ls =~= lines_of(t) + seq![e2]);
            assert(ls[k] == lines_of(t)[k]);
            assert(trim_seq(ls[k]) == e1);
        }
    }
}

proof fn lemma_adopted_entries_plain()
    ensures
        plain_entry(DEVELOPMENT_FILE@),
        plain_entry(MAIL_DIRECTORY@),
{
    reveal_strlit(".authboundry/development.json");
    reveal_strlit(".authboundry/mail/");
    let d = DEVELOPMENT_FILE@;
    let m = MAIL_DIRECTORY@;
    assert(lead_ws(d) == 0);
    assert(trail_ws(d) == 0);
    assert(trim_seq(d) =~= d);
    assert(lead_ws(m) == 0);
    assert(trail_ws(m) == 0);
    assert(trim_seq(m) =~= m);
}

/// Once adoption has written the ignore file, writing it again changes
/// nothing: both entries are listed and no third write follows.
pub proof fn lemma_gitignore_settles(before: Option<Seq<char>>)
    ensures
        gitignore_update(Some(gitignore_text(before))) is None,
{
    lemma_adopted_entries_plain();
    let start = match before {
        Some(b) => b,
        None => Seq::empty(),
    };
    let d = DEVELOPMENT_FILE@;
    let m = MAIL_DIRECTORY@;
    let t1 = with_ignored(start, d);
    let t2 = with_ignored(t1, m);
    lemma_with_ignored_names(start, d);
    lemma_with_ignored_keeps(t1, d, m);
    lemma_with_ignored_names(t1, m);
    assert(with_ignored(t2, d) == t2);
    assert(with_ignored(t2, m) == t2);
    assert(gitignore_text(Some(t2)) == t2);
}

/// The last position of `c` in `p`.
pub open spec fn last_index(p: Seq<char>, c: char) -> Option<int>
    decreases p.len(),
{
    if p.len() == 0 {
        None
    } else if p.last() == c {
        Some(p.len() - 1)
    } else {
        last_index(p.drop_last(), c)
    }
}

proof fn lemma_last_index(p: Seq<char>, c: char)
    ensures
        last_index(p, c) matches Some(i) ==> 0 <= i < p.len() && p[i] == c,
    decreases p.len(),
{
    if p.len() > 0 && p.last() != c {
        lemma_last_index(p.drop_last(), c);
    }
}

fn last_index_exec(v: &Vec<char>, c: char) -> (r: Option<usize>)
    ensures
        match r {
            Some(i) => last_index(v@, c) == Some(i as int) && i < v@.len(),
            None => last_index(v@, c) is None,
        },
{
    let mut i: usize = v.len();
    assert(v@.take(i as int) =~= v@);
    while i > 0
        invariant
            i <= v@.len(),
            last_index(v@, c) == last_index(v@.take(i as int), c),
        decreases i,
    {
        let ghost t = v@.take(i as int);
        assert(t.last() == v@[i - 1]);
        if v[i - 1] == c {
            return Some(i - 1);
        }
        assert(t.drop_last() =~= v@.take(i - 1));
        i = i - 1;
    }
    None
}

/// A path joined with a name, paths being `/`-separated text: the name
/// where it is absolute, else the base, a `/` where the base does not end
/// in one, and the name.
pub open spec fn joined(base: Seq<char>, name: Seq<char>) -> Seq<char> {
    if name.len() > 0 && name[0] == '/' {
        name
    } else if base.len() == 0 || base.last() == '/' {
        base + name
    } else {
        base + "/"@ + name
    }
}

pub fn join_path(base: &str, name: &str) -> (r: String)
    ensures
        r@ == joined(base@, name@),
{
    let n = chars_of(name);
    if n.len() > 0 && n[0] == '/' {
        return owned(name);
    }
    let b = chars_of(base);
    let mut out = owned(base);
    if !(b.len() == 0 || b[b.len() - 1] == '/') {
        out.append("/");
    }
    out.append(name);
    out
}

/// The directory a path lies in: what comes before its last `/` (the root
/// where that `/` is the first character); the empty path for a bare name;
/// nothing for the root or the empty path.
pub open spec fn parent_dir(p: Seq<char>) -> Option<Seq<char>> {
    match last_index(p, '/') {
        Some(i) => if i == 0 {
            if p.len() == 1 {
                None
            } else {
                Some("/"@)
            }
        } else {
            Some(p.take(i))
        },
        None => if p.len() == 0 {
            None
        } else {
            Some(Seq::empty())
        },
    }
}

pub fn parent_path(p: &str) -> (r: Option<String>)
    ensures
        opt_view(r) == parent_dir(p@),
{
    let v = chars_of(p);
    proof {
        lemma_last_index(v@, '/');
    }
    match last_index_exec(&v, '/') {
        Some(i) => {
            if i == 0 {
                if v.len() == 1 {
                    None
                } else {
                    Some(owned("/"))
                }
            } else {
                let head = crate::text::slice_chars(v.as_slice(), 0, i);
                assert(head@ =~= p@.take(i as int));
                Some(crate::text::string_from_chars(head.as_slice()))
            }
        },
        None => {
            if v.len() == 0 {
                None
            } else {
                Some(String::new())
            }
        },
    }
}

/// The last component of a path.
pub open spec fn file_name_of(p: Seq<char>) -> Seq<char> {
    match last_index(p, '/') {
        Some(i) => p.skip(i + 1),
        None => p,
    }
}

/// `Path::extension`: what follows the last `.` of the file name, where
/// that `.` is not its first character.
pub open spec fn extension_of(p: Seq<char>) -> Option<Seq<char>> {
    let n = file_name_of(p);
    match last_index(n, '.') {
        Some(i) => if i == 0 {
            None
        } else {
            Some(n.skip(i + 1))
        },
        None => None,
    }
}

pub fn path_extension(p: &str) -> (r: Option<String>)
    ensures
        opt_view(r) == extension_of(p@),
{
    let v = chars_of(p);
    proof {
        lemma_last_index(v@, '/');
    }
    let vl = v.len();
    let name = match last_index_exec(&v, '/') {
        Some(i) => crate::text::slice_chars(v.as_slice(), i + 1, vl),
        None => crate::text::slice_chars(v.as_slice(), 0, v.len()),
    };
    assert(name@ =~= file_name_of(p@));
    proof {
        lemma_last_index(name@, '.');
    }
    match last_index_exec(&name, '.') {
        Some(i) => {
            let nl = name.len();
            if i == 0 {
                None
            } else {
                let ext = crate::text::slice_chars(name.as_slice(), i + 1, nl);
                assert(ext@ =~= name@.skip(i + 1));
                Some(crate::text::string_from_chars(ext.as_slice()))
            }
        },
        None => None,
    }
}

/// The dependency adoption adds to a JavaScript package.
pub const CORE_DEPENDENCY: &'static str = "\"@authboundry/core\"";

pub const DEPENDENCIES_OPEN: &'static str = "\"dependencies\": {";

pub const DEPENDENCIES_WITH_CORE: &'static str = "\"dependencies\": {\n    \"@authboundry/core\": \"^1.12.0\",";

pub const OBJECT_WITH_CORE: &'static str = "{\n  \"dependencies\": {\"@authboundry/core\": \"^1.12.0\"},";

/// The package manifest with the core dependency added, where it lacks it:
/// first in its dependencies, or in a new dependencies object.
pub open spec fn dependency_added(before: Seq<char>) -> Option<Seq<char>> {
    if contains_seq(before, CORE_DEPENDENCY@) {
        None
    } else if contains_seq(before, DEPENDENCIES_OPEN@) {
        Some(replace_first(before, DEPENDENCIES_OPEN@, DEPENDENCIES_WITH_CORE@))
    } else {
        Some(replace_first(before, "{"@, OBJECT_WITH_CORE@))
    }
}

pub fn package_dependency_after(before: &str) -> (r: Option<String>)
    ensures
        opt_view(r) == dependency_added(before@),
{
    if contains_str(before, CORE_DEPENDENCY) {
        None
    } else if contains_str(before, DEPENDENCIES_OPEN) {
        Some(replace_first_exec(before, DEPENDENCIES_OPEN, DEPENDENCIES_WITH_CORE))
    } else {
        Some(replace_first_exec(before, "{", OBJECT_WITH_CORE))
    }
}

pub open spec fn res_view(r: Result<String, String>) -> Result<Seq<char>, Seq<char>> {
    match r {
        Ok(s) => Ok(s@),
        Err(e) => Err(e@),
    }
}

pub open spec fn changes_view(cs: Seq<FileChange>) -> Seq<(Seq<char>, Option<Seq<char>>, Seq<char>)> {
    cs.map_values(|c: FileChange| c@)
}

/// What the package manifest change is, given the manifest as read (or
/// the reason it could not be).
pub open spec fn package_change(root: Seq<char>, package: Result<Seq<char>, Seq<char>>) -> Result<
    Option<(Seq<char>, Option<Seq<char>>, Seq<char>)>,
    Seq<char>,
> {
    match package {
        Err(e) => Err("cannot read package.json: "@ + e),
        Ok(p) => match dependency_added(p) {
            Some(a) => Ok(Some((joined(root, "package.json"@), Some(p), a))),
            None => Ok(None),
        },
    }
}

pub fn package_dependency_change(root: &str, package: Result<String, String>) -> (r: Result<
    Option<FileChange>,
    CliError,
>)
    ensures
        package_change(root@, res_view(package)) == match r {
            Ok(Some(c)) => Ok(Some(c@)),
            Ok(None) => Ok(None),
            Err(e) => Err(e.message@),
        },
{
    match package {
        Err(e) => {
            let mut m = owned("cannot read package.json: ");
            m.append(e.as_str());
            Err(error_owned(m))
        },
        Ok(p) => match package_dependency_after(p.as_str()) {
            Some(after) => Ok(Some(FileChange { path: join_path(root, "package.json"), before: Some(p), after })),
            None => Ok(None),
        },
    }
}

/// The first line of `ls` that contains `needle`.
pub open spec fn first_line_with(ls: Seq<Seq<char>>, needle: Seq<char>) -> Option<Seq<char>>
    decreases ls.len(),
{
    if ls.len() == 0 {
        None
    } else if contains_seq(ls[0], needle) {
        Some(ls[0])
    } else {
        first_line_with(ls.drop_first(), needle)
    }
}

fn first_line_with_exec(source: &str, needle: &str) -> (r: Option<String>)
    ensures
        opt_view(r) == first_line_with(lines_of(source@), needle@),
{
    let ls = lines_exec(source);
    let mut i: usize = 0;
    assert(lines_of(source@).skip(0) =~= lines_of(source@));
    while i < ls.len()
        invariant
            i <= ls@.len(),
            views(ls@) == lines_of(source@),
            first_line_with(lines_of(source@), needle@) == first_line_with(
                lines_of(source@).skip(i as int),
                needle@,
            ),
        decreases ls@.len() - i,
    {
        let ghost rest = lines_of(source@).skip(i as int);
        assert(rest[0] == ls@[i as int]@);
        if contains_str(ls[i].as_str(), needle) {
            return Some(ls[i].clone());
        }
        assert(rest.drop_first() =~= lines_of(source@).skip(i + 1));
        i = i + 1;
    }
    assert(lines_of(source@).skip(i as int) =~= Seq::<Seq<char>>::empty());
    None
}

/// The directory a bridge is generated in: the entrypoint's own, or `.`.
pub open spec fn entry_dir(entry: Seq<char>) -> Seq<char> {
    match parent_dir(entry) {
        Some(d) => d,
        None => "."@,
    }
}

fn entry_dir_exec(entry: &str) -> (r: String)
    ensures
        r@ == entry_dir(entry@),
{
    match parent_path(entry) {
        Some(d) => d,
        None => owned("."),
    }
}

/// The changes a server bridge makes: the generated middleware, and the
/// entrypoint with the middleware installed after its first line that
/// constructs the application; refused where no line does.
pub open spec fn bridge_result(
    constructor: Seq<char>,
    refusal: Seq<char>,
    header: Seq<char>,
    installed: Seq<char>,
    generated: Seq<char>,
    middleware: Seq<char>,
    entry: Seq<char>,
    source: Seq<char>,
    existing: Option<Seq<char>>,
) -> Result<Seq<(Seq<char>, Option<Seq<char>>, Seq<char>)>, Seq<char>> {
    match first_line_with(lines_of(source), constructor) {
        Some(m) => Ok(
            seq![(generated, existing, middleware), (entry, Some(source), header + replace_first(source, m, m + installed))],
        ),
        None => Err(refusal),
    }
}

pub open spec fn result_view(r: Result<Vec<FileChange>, CliError>) -> Result<
    Seq<(Seq<char>, Option<Seq<char>>, Seq<char>)>,
    Seq<char>,
> {
    match r {
        Ok(cs) => Ok(changes_view(cs@)),
        Err(e) => Err(e.message@),
    }
}

fn bridge_changes(
    constructor: &str,
    refusal: &str,
    header: &str,
    installed: &str,
    generated: String,
    middleware: &str,
    entry: &str,
    source: &str,
    existing: Option<String>,
) -> (r: Result<Vec<FileChange>, CliError>)
    ensures
        result_view(r) == bridge_result(
            constructor@,
            refusal@,
            header@,
            installed@,
            generated@,
            middleware@,
            entry@,
            source@,
            opt_view(existing),
        ),
{
    match first_line_with_exec(source, constructor) {
        None => Err(error_owned(owned(refusal))),
        Some(m) => {
            let mut with = m.clone();
            with.append(installed);
            let replaced = replace_first_exec(source, m.as_str(), with.as_str());
            let mut after = owned(header);
            after.append(replaced.as_str());
            let first = FileChange { path: generated, before: existing, after: owned(middleware) };
            let second = FileChange { path: owned(entry), before: Some(owned(source)), after };
            let v = vec![first, second];
            assert(changes_view(v@) =~= seq![v@[0]@, v@[1]@]);
            Ok(v)
        },
    }
}

/// The React provider generated beside a TypeScript entrypoint.
pub const REACT_PROVIDER_TS: &'static str = "// Generated by AuthBoundry. Existing application auth remains available during migration.\nimport React from 'react';\nimport { createAuthBoundryReact } from '@authboundry/core/react';\n\nconst integration = createAuthBoundryReact(React, { tenant: 'development', connector: 'local' });\nexport const useAuthBoundry = integration.useAuth;\nexport const authBoundryClient = integration.client;\n\nexport function AuthBoundryProvider({ children }: { children: React.ReactNode }) {\n  return <integration.AuthBoundry>{children}</integration.AuthBoundry>;\n}\n";

/// The React provider generated beside a JavaScript entrypoint.
pub const REACT_PROVIDER_JS: &'static str = "// Generated by AuthBoundry. Existing application auth remains available during migration.\nimport React from 'react';\nimport { createAuthBoundryReact } from '@authboundry/core/react';\n\nconst integration = createAuthBoundryReact(React, { tenant: 'development', connector: 'local' });\nexport const useAuthBoundry = integration.useAuth;\nexport const authBoundryClient = integration.client;\n\nexport function AuthBoundryProvider({ children }) {\n  return <integration.AuthBoundry>{children}</integration.AuthBoundry>;\n}\n";

/// The Express middleware that verifies the context the boundary signs.
pub const EXPRESS_CONTEXT: &'static str = "// Generated by AuthBoundry. Verifies context injected by the boundary.\nfunction sign(secret, context) {\n  let hash = 0xcbf29ce484222325n;\n  for (const byte of Buffer.from(`${secret}|${context}`)) {\n    hash = BigInt.asUintN(64, (hash ^ BigInt(byte)) * 0x100000001b3n);\n  }\n  return hash.toString(16).padStart(16, '0');\n}\nexports.authBoundryContext = function authBoundryContext() {\n  return function authBoundryContextMiddleware(request, response, next) {\n    const context = request.get('x-authboundry-context');\n    const signature = request.get('x-authboundry-signature');\n    const secret = process.env.AUTHBOUNDRY_PROXY_SECRET || '';\n    const proxySignature = request.get('x-authboundry-proxy-signature');\n    if (!secret || sign(secret, 'proxy') !== proxySignature) {\n      return response.status(403).json({ error: 'direct_access_denied', message: 'Use the AuthBoundry application URL.' });\n    }\n    request.authboundry = context && signature && secret && sign(secret, context) === signature\n      ? JSON.parse(context) : null;\n    next();\n  };\n};\n";

/// The FastAPI middleware that verifies the context the boundary signs.
pub const FASTAPI_CONTEXT: &'static str = "# Generated by AuthBoundry. Verifies context injected by the boundary.\nimport json\nimport os\n\ndef _sign(secret: str, context: str) -> str:\n    value = 0xcbf29ce484222325\n    for byte in f\"{secret}|{context}\".encode():\n        value = ((value ^ byte) * 0x100000001b3) & 0xffffffffffffffff\n    return f\"{value:016x}\"\n\ndef install_authboundry(app):\n    @app.middleware(\"http\")\n    async def authboundry_context(request, call_next):\n        context = request.headers.get(\"x-authboundry-context\")\n        signature = request.headers.get(\"x-authboundry-signature\")\n        secret = os.environ.get(\"AUTHBOUNDRY_PROXY_SECRET\", \"\")\n        proxy_signature = request.headers.get(\"x-authboundry-proxy-signature\")\n        if not secret or _sign(secret, \"proxy\") != proxy_signature:\n            from starlette.responses import JSONResponse\n            return JSONResponse({\"error\": \"direct_access_denied\", \"message\": \"Use the AuthBoundry application URL.\"}, status_code=403)\n        request.state.authboundry = json.loads(context) if (\n            context and signature and secret and _sign(secret, context) == signature\n        ) else None\n        return await call_next(request)\n";

pub const EXPRESS_CONSTRUCTOR: &'static str = "= express()";

pub const EXPRESS_REFUSAL: &'static str = "Express was detected but its application constructor is not safe to modify automatically";

pub const EXPRESS_HEADER: &'static str = "// AuthBoundry integration: signed context bridge (safe to remove with `authboundry rollback`)\nconst { authBoundryContext } = require('./authboundry/context.cjs');\n";

pub const EXPRESS_INSTALL: &'static str = "\napp.use(authBoundryContext()); // AuthBoundry verified authority context";

pub const FASTAPI_CONSTRUCTOR: &'static str = "= FastAPI(";

pub const FASTAPI_REFUSAL: &'static str = "FastAPI was detected but its application constructor is not safe to modify automatically";

pub const FASTAPI_HEADER: &'static str = "# AuthBoundry integration: signed context bridge (safe to remove with `authboundry rollback`)\nfrom authboundry_context import install_authboundry\n";

pub const FASTAPI_INSTALL: &'static str = "\ninstall_authboundry(app)  # AuthBoundry verified authority context";

pub const REACT_APP: &'static str = "<App />";

pub const REACT_WRAPPED: &'static str = "<AuthBoundryProvider><App /></AuthBoundryProvider>";

pub const REACT_HEADER: &'static str = "// AuthBoundry integration: provider bridge (safe to remove with `authboundry rollback`)\nimport { AuthBoundryProvider } from './authboundry/provider';\n";

/// The mark a bridged entrypoint carries.
pub const INTEGRATION_MARK: &'static str = "AuthBoundry integration";

/// Where the Express middleware is generated.
pub open spec fn express_context_path(entry: Seq<char>) -> Seq<char> {
    joined(joined(entry_dir(entry), "authboundry"@), "context.cjs"@)
}

/// Where the FastAPI middleware is generated.
pub open spec fn fastapi_context_path(entry: Seq<char>) -> Seq<char> {
    joined(entry_dir(entry), "authboundry_context.py"@)
}

pub open spec fn express_result(entry: Seq<char>, source: Seq<char>, existing: Option<Seq<char>>) -> Result<
    Seq<(Seq<char>, Option<Seq<char>>, Seq<char>)>,
    Seq<char>,
> {
    bridge_result(
        EXPRESS_CONSTRUCTOR@,
        EXPRESS_REFUSAL@,
        EXPRESS_HEADER@,
        EXPRESS_INSTALL@,
        express_context_path(entry),
        EXPRESS_CONTEXT@,
        entry,
        source,
        existing,
    )
}

pub open spec fn fastapi_result(entry: Seq<char>, source: Seq<char>, existing: Option<Seq<char>>) -> Result<
    Seq<(Seq<char>, Option<Seq<char>>, Seq<char>)>,
    Seq<char>,
> {
    bridge_result(
        FASTAPI_CONSTRUCTOR@,
        FASTAPI_REFUSAL@,
        FASTAPI_HEADER@,
        FASTAPI_INSTALL@,
        fastapi_context_path(entry),
        FASTAPI_CONTEXT@,
        entry,
        source,
        existing,
    )
}

fn express_context_path_exec(entry: &str) -> (r: String)
    ensures
        r@ == express_context_path(entry@),
{
    let d = entry_dir_exec(entry);
    let a = join_path(d.as_str(), "authboundry");
    join_path(a.as_str(), "context.cjs")
}

fn fastapi_context_path_exec(entry: &str) -> (r: String)
    ensures
        r@ == fastapi_context_path(entry@),
{
    let d = entry_dir_exec(entry);
    join_path(d.as_str(), "authboundry_context.py")
}

/// The Express bridge for an entrypoint: the generated middleware (`existing`
/// being what its file holds now) and the entrypoint that installs it.
pub fn express_integration_changes(entrypoint: &str, source: &str, existing: Option<String>) -> (r: Result<
    Vec<FileChange>,
    CliError,
>)
    ensures
        result_view(r) == express_result(entrypoint@, source@, opt_view(existing)),
{
    let generated = express_context_path_exec(entrypoint);
    bridge_changes(
        EXPRESS_CONSTRUCTOR,
        EXPRESS_REFUSAL,
        EXPRESS_HEADER,
        EXPRESS_INSTALL,
        generated,
        EXPRESS_CONTEXT,
        entrypoint,
        source,
        existing,
    )
}

/// The FastAPI bridge for an entrypoint, as for Express.
pub fn fastapi_integration_changes(entrypoint: &str, source: &str, existing: Option<String>) -> (r: Result<
    Vec<FileChange>,
    CliError,
>)
    ensures
        result_view(r) == fastapi_result(entrypoint@, source@, opt_view(existing)),
{
    let generated = fastapi_context_path_exec(entrypoint);
    bridge_changes(
        FASTAPI_CONSTRUCTOR,
        FASTAPI_REFUSAL,
        FASTAPI_HEADER,
        FASTAPI_INSTALL,
        generated,
        FASTAPI_CONTEXT,
        entrypoint,
        source,
        existing,
    )
}

/// The extension the generated provider takes: the entrypoint's, or `tsx`.
pub open spec fn provider_extension(entry: Seq<char>) -> Seq<char> {
    match extension_of(entry) {
        Some(e) => e,
        None => "tsx"@,
    }
}

pub open spec fn provider_path(root: Seq<char>, entry: Seq<char>) -> Seq<char> {
    let dir = match parent_dir(entry) {
        Some(d) => d,
        None => root,
    };
    joined(joined(dir, "authboundry"@), "provider."@ + provider_extension(entry))
}

pub open spec fn provider_source(ext: Seq<char>) -> Seq<char> {
    if ext == "ts"@ || ext == "tsx"@ {
        REACT_PROVIDER_TS@
    } else {
        REACT_PROVIDER_JS@
    }
}

/// The React bridge: the generated provider, the entrypoint that wraps the
/// application in it, and the package manifest that depends on it.
pub open spec fn react_result(
    root: Seq<char>,
    entry: Seq<char>,
    source: Seq<char>,
    provider_before: Option<Seq<char>>,
    package: Result<Seq<char>, Seq<char>>,
) -> Result<Seq<(Seq<char>, Option<Seq<char>>, Seq<char>)>, Seq<char>> {
    let base = seq![
        (provider_path(root, entry), provider_before, provider_source(provider_extension(entry))),
        (entry, Some(source), REACT_HEADER@ + replace_first(source, REACT_APP@, REACT_WRAPPED@)),
    ];
    match package_change(root, package) {
        Err(e) => Err(e),
        Ok(Some(c)) => Ok(base.push(c)),
        Ok(None) => Ok(base),
    }
}

fn provider_extension_exec(entry: &str) -> (r: String)
    ensures
        r@ == provider_extension(entry@),
{
    match path_extension(entry) {
        Some(e) => e,
        None => owned("tsx"),
    }
}

/// Where the React provider is generated for an entrypoint.
pub fn react_provider_path(root: &str, entry: &str) -> (r: String)
    ensures
        r@ == provider_path(root@, entry@),
{
    let dir = match parent_path(entry) {
        Some(d) => d,
        None => owned(root),
    };
    let a = join_path(dir.as_str(), "authboundry");
    let mut name = owned("provider.");
    let ext = provider_extension_exec(entry);
    name.append(ext.as_str());
    join_path(a.as_str(), name.as_str())
}

pub fn react_integration_changes(
    root: &str,
    entrypoint: &str,
    source: &str,
    provider_before: Option<String>,
    package: Result<String, String>,
) -> (r: Result<Vec<FileChange>, CliError>)
    ensures
        result_view(r) == react_result(
            root@,
            entrypoint@,
            source@,
            opt_view(provider_before),
            res_view(package),
        ),
{
    let ext = provider_extension_exec(entrypoint);
    let provider = if str_eq(ext.as_str(), "ts") || str_eq(ext.as_str(), "tsx") {
        REACT_PROVIDER_TS
    } else {
        REACT_PROVIDER_JS
    };
    let mut after = owned(REACT_HEADER);
    let wrapped = replace_first_exec(source, REACT_APP, REACT_WRAPPED);
    after.append(wrapped.as_str());
    let first = FileChange {
        path: react_provider_path(root, entrypoint),
        before: provider_before,
        after: owned(provider),
    };
    let second = FileChange { path: owned(entrypoint), before: Some(owned(source)), after };
    let mut v = vec![first, second];
    let ghost base = v@;
    assert(changes_view(base) =~= seq![base[0]@, base[1]@]);
    match package_dependency_change(root, package) {
        Err(e) => Err(e),
        Ok(Some(c)) => {
            v.push(c);
            assert(changes_view(v@) =~= changes_view(base).push(c@));
            Ok(v)
        },
        Ok(None) => Ok(v),
    }
}

/// Which bridge an entrypoint takes.
#[derive(Debug, Clone, Copy, PartialEq, Eq, Structural)]
pub enum Bridge {
    Installed,
    React,
    Express,
    FastApi,
    Unsupported,
}

pub open spec fn react_framework(f: Seq<char>) -> bool {
    f == "FeltDB"@ || f == "React"@ || f == "React Router"@ || f == "Vite"@
}

/// The bridge for an application of `framework` whose entrypoint holds
/// `source`: none where the entrypoint is bridged already; the React
/// provider where a React family application renders `<App />`; the
/// Express or FastAPI middleware for those; none otherwise.
pub open spec fn bridge_for(framework: Option<String>, source: Seq<char>) -> Bridge {
    let f = match framework {
        Some(s) => s@,
        None => Seq::empty(),
    };
    if contains_seq(source, INTEGRATION_MARK@) {
        Bridge::Installed
    } else if react_framework(f) && contains_seq(source, REACT_APP@) {
        Bridge::React
    } else if f == "Express"@ {
        Bridge::Express
    } else if f == "FastAPI"@ {
        Bridge::FastApi
    } else {
        Bridge::Unsupported
    }
}

pub fn framework_bridge(framework: &Option<String>, source: &str) -> (b: Bridge)
    ensures
        b == bridge_for(*framework, source@),
{
    let f = match framework {
        Some(s) => s.as_str(),
        None => "",
    };
    proof {
        reveal_strlit("");
        assert(f@ =~= match *framework {
            Some(s) => s@,
            None => Seq::<char>::empty(),
        });
    }
    if contains_str(source, INTEGRATION_MARK) {
        Bridge::Installed
    } else if (str_eq(f, "FeltDB") || str_eq(f, "React") || str_eq(f, "React Router") || str_eq(f, "Vite"))
        && contains_str(source, REACT_APP) {
        Bridge::React
    } else if str_eq(f, "Express") {
        Bridge::Express
    } else if str_eq(f, "FastAPI") {
        Bridge::FastApi
    } else {
        Bridge::Unsupported
    }
}

/// The file a bridge generates, where it generates one.
pub open spec fn bridge_file(root: Seq<char>, entry: Seq<char>, b: Bridge) -> Option<Seq<char>> {
    match b {
        Bridge::React => Some(provider_path(root, entry)),
        Bridge::Express => Some(express_context_path(entry)),
        Bridge::FastApi => Some(fastapi_context_path(entry)),
        _ => None,
    }
}

pub fn bridge_file_path(root: &str, entry: &str, b: Bridge) -> (r: Option<String>)
    ensures
        opt_view(r) == bridge_file(root@, entry@, b),
{
    match b {
        Bridge::React => Some(react_provider_path(root, entry)),
        Bridge::Express => Some(express_context_path_exec(entry)),
        Bridge::FastApi => Some(fastapi_context_path_exec(entry)),
        _ => None,
    }
}

/// The native bridge changes for an application, given its first
/// entrypoint's source as read (or why it could not be), what the bridge's
/// generated file holds now, and the package manifest as read.
pub open spec fn integration_result(
    app: ApplicationCandidate,
    source: Result<Seq<char>, Seq<char>>,
    generated_before: Option<Seq<char>>,
    package: Result<Seq<char>, Seq<char>>,
) -> Result<Seq<(Seq<char>, Option<Seq<char>>, Seq<char>)>, Seq<char>> {
    if app.entrypoints@.len() == 0 {
        Ok(Seq::empty())
    } else {
        let entry = app.entrypoints@[0].path@;
        match source {
            Err(e) => Err("cannot inspect integration entrypoint `"@ + entry + "`: "@ + e),
            Ok(s) => match bridge_for(app.framework, s) {
                Bridge::React => react_result(app.root@, entry, s, generated_before, package),
                Bridge::Express => express_result(entry, s, generated_before),
                Bridge::FastApi => fastapi_result(entry, s, generated_before),
                _ => Ok(Seq::empty()),
            },
        }
    }
}

pub fn framework_integration_changes(
    application: &ApplicationCandidate,
    source: Result<String, String>,
    generated_before: Option<String>,
    package: Result<String, String>,
) -> (r: Result<Vec<FileChange>, CliError>)
    ensures
        result_view(r) == integration_result(
            *application,
            res_view(source),
            opt_view(generated_before),
            res_view(package),
        ),
{
    if application.entrypoints.len() == 0 {
        let v: Vec<FileChange> = Vec::new();
        assert(changes_view(v@) =~= Seq::empty());
        return Ok(v);
    }
    let entry = application.entrypoints[0].path.as_str();
    match source {
        Err(e) => {
            let mut m = owned("cannot inspect integration entrypoint `");
            m.append(entry);
            m.append("`: ");
            m.append(e.as_str());
            Err(error_owned(m))
        },
        Ok(s) => match framework_bridge(&application.framework, s.as_str()) {
            Bridge::React => react_integration_changes(
                application.root.as_str(),
                entry,
                s.as_str(),
                generated_before,
                package,
            ),
            Bridge::Express => express_integration_changes(entry, s.as_str(), generated_before),
            Bridge::FastApi => fastapi_integration_changes(entry, s.as_str(), generated_before),
            _ => {
                let v: Vec<FileChange> = Vec::new();
                assert(changes_view(v@) =~= Seq::empty());
                Ok(v)
            },
        },
    }
}


/// The record of the planned integration, beside the adoption record.
pub const INTEGRATION_FILE: &'static str = ".authboundry/integration.json";

/// One incumbent authentication system in the integration record.
pub open spec fn system_record(s: ExistingAuthSystem) -> Seq<char> {
    "{\"id\":\""@ + esc(s.id@) + "\",\"name\":\""@ + esc(s.display_name@) + "\",\"credentials\":"@
        + bool_text(s.credentials) + ",\"sessions\":"@ + bool_text(s.sessions) + ",\"profiles\":"@
        + bool_text(s.profiles) + ",\"authorization\":"@ + bool_text(s.authorization)
        + ",\"strategy\":\""@ + auth_coexistence_name(s.coexistence) + "\"}"@
}

/// Migration where any incumbent system is to be migrated; a bridge otherwise.
pub open spec fn default_strategy(systems: Seq<ExistingAuthSystem>) -> Seq<char> {
    if exists|i: int| 0 <= i < systems.len() && #[trigger] systems[i].coexistence == AuthCoexistence::Migrate {
        "migrate"@
    } else {
        "bridge"@
    }
}

/// The integration record an adoption plans.
pub open spec fn integration_text(app: ApplicationCandidate) -> Seq<char> {
    "{\n  \"framework\": \""@ + esc(or_text(app.framework, ""@)) + "\",\n  \"status\": \"planned\",\n  \"default_strategy\": \""@
        + default_strategy(app.existing_auth@)
        + "\",\n  \"preserve_profiles\": true,\n  \"rollback_manifest\": \".authboundry/rollback/manifest.tsv\",\n  \"existing_auth\": ["@
        + join_with(app.existing_auth@.map_values(|s: ExistingAuthSystem| system_record(s)), ","@) + "]\n}\n"@
}

fn system_record_exec(s: &ExistingAuthSystem) -> (r: String)
    ensures
        r@ == system_record(*s),
{
    let mut out = owned("{\"id\":\"");
    append_escaped(&mut out, s.id.as_str());
    out.append("\",\"name\":\"");
    append_escaped(&mut out, s.display_name.as_str());
    out.append("\",\"credentials\":");
    out.append(bool_str(s.credentials));
    out.append(",\"sessions\":");
    out.append(bool_str(s.sessions));
    out.append(",\"profiles\":");
    out.append(bool_str(s.profiles));
    out.append(",\"authorization\":");
    out.append(bool_str(s.authorization));
    out.append(",\"strategy\":\"");
    out.append(s.coexistence.as_str());
    out.append("\"}");
    out
}

/// The planned integration record of an application.
pub fn integration_change(application: &ApplicationCandidate) -> (c: FileChange)
    ensures
        c@ == (joined(application.root@, INTEGRATION_FILE@), None::<Seq<char>>, integration_text(*application)),
{
    let systems = &application.existing_auth;
    let mut records: Vec<String> = Vec::new();
    let mut migrate = false;
    let mut i: usize = 0;
    while i < systems.len()
        invariant
            i <= systems@.len(),
            views(records@) == systems@.take(i as int).map_values(|s: ExistingAuthSystem| system_record(s)),
            migrate == exists|j: int| 0 <= j < i && #[trigger] systems@[j].coexistence == AuthCoexistence::Migrate,
        decreases systems@.len() - i,
    {
        let r = system_record_exec(&systems[i]);
        let ghost before = records@;
        records.push(r);
        proof {
            assert(views(records@) =~= views(before).push(r@));
            assert(systems@.take(i + 1).map_values(|s: ExistingAuthSystem| system_record(s)) =~= systems@.take(
                i as int,
            ).map_values(|s: ExistingAuthSystem| system_record(s)).push(system_record(systems@[i as int])));
        }
        match systems[i].coexistence {
            AuthCoexistence::Migrate => {
                migrate = true;
            },
            AuthCoexistence::Bridge => {},
        }
        i = i + 1;
    }
    assert(systems@.take(i as int) =~= systems@);
    let mut after = owned("{\n  \"framework\": \"");
    match &application.framework {
        Some(f) => append_escaped(&mut after, f.as_str()),
        None => {
            proof {
                reveal_strlit("");
            }
            append_escaped(&mut after, "");
        },
    }
    after.append("\",\n  \"status\": \"planned\",\n  \"default_strategy\": \"");
    after.append(
        if migrate {
            "migrate"
        } else {
            "bridge"
        },
    );
    after.append(
        "\",\n  \"preserve_profiles\": true,\n  \"rollback_manifest\": \".authboundry/rollback/manifest.tsv\",\n  \"existing_auth\": [",
    );
    let joined_records = join(&records, ",");
    after.append(joined_records.as_str());
    after.append("]\n}\n");
    FileChange { path: join_path(application.root.as_str(), INTEGRATION_FILE), before: None, after }
}

/// The guard comment of a development Vite configuration adoption wrote.
pub const VITE_GUARD_MARK: &'static str = "Generated by AuthBoundry. Direct Vite access";

pub const VITE_SECRET_FUNCTION: &'static str = "function developmentSecret()";

pub const VITE_IMPORT: &'static str = "import { defineConfig } from 'vite';";

pub const VITE_IMPORT_WITH_SECRET: &'static str = "import { readFileSync } from 'node:fs';\nimport { defineConfig } from 'vite';\n\nfunction developmentSecret(): string {\n  if (process.env.AUTHBOUNDRY_PROXY_SECRET) return process.env.AUTHBOUNDRY_PROXY_SECRET;\n  try {\n    const development = JSON.parse(readFileSync(new URL('./.authboundry/development.json', import.meta.url), 'utf8'));\n    return typeof development.proxy_secret === 'string' ? development.proxy_secret : '';\n  } catch {\n    return '';\n  }\n}";

pub const VITE_SECRET_LINE: &'static str = "const secret = process.env.AUTHBOUNDRY_PROXY_SECRET || '';";

pub const VITE_SECRET_CALL: &'static str = "const secret = developmentSecret();";

/// An older adoption's Vite guard, brought to read the development secret
/// from the development file; `None` where there is none to upgrade or the
/// upgrade changes nothing.
pub open spec fn vite_guard_upgraded(before: Seq<char>) -> Option<Seq<char>> {
    if !contains_seq(before, VITE_GUARD_MARK@) || contains_seq(before, VITE_SECRET_FUNCTION@) {
        None
    } else {
        let after = replace_first(
            replace_first(before, VITE_IMPORT@, VITE_IMPORT_WITH_SECRET@),
            VITE_SECRET_LINE@,
            VITE_SECRET_CALL@,
        );
        if after == before {
            None
        } else {
            Some(after)
        }
    }
}

/// The upgrade of the Vite configuration at `path`, given what it holds
/// (`None` where it could not be read).
pub fn vite_guard_upgrade_change(path: &str, before: Option<String>) -> (r: Option<FileChange>)
    ensures
        match opt_view(before) {
            Some(b) => match vite_guard_upgraded(b) {
                Some(a) => r matches Some(c) && c@ == (path@, Some(b), a),
                None => r is None,
            },
            None => r is None,
        },
{
    let b = match before {
        Some(b) => b,
        None => return None,
    };
    if !contains_str(b.as_str(), VITE_GUARD_MARK) || contains_str(b.as_str(), VITE_SECRET_FUNCTION) {
        return None;
    }
    let a = replace_first_exec(b.as_str(), VITE_IMPORT, VITE_IMPORT_WITH_SECRET);
    let after = replace_first_exec(a.as_str(), VITE_SECRET_LINE, VITE_SECRET_CALL);
    if str_eq(after.as_str(), b.as_str()) {
        None
    } else {
        Some(FileChange { path: owned(path), before: Some(b), after })
    }
}

/// The development accounts adoption creates, with their secrets.
pub open spec fn development_text(proxy: Seq<char>, admin: Seq<char>, user: Seq<char>) -> Seq<char> {
    "{\n  \"tenant\": \"development\",\n  \"proxy_secret\": \""@ + proxy
        + "\",\n  \"accounts\": [\n    {\"username\": \"admin\", \"password\": \""@ + admin
        + "\", \"claims\": \"role=admin\"},\n    {\"username\": \"user\", \"password\": \""@ + user
        + "\", \"claims\": \"role=user\"}\n  ]\n}\n"@
}

pub fn development_accounts_change(root: &str, proxy_secret: &str, admin_password: &str, user_password: &str) -> (c:
    FileChange)
    ensures
        c@ == (
            joined(root@, DEVELOPMENT_FILE@),
            None::<Seq<char>>,
            development_text(proxy_secret@, admin_password@, user_password@),
        ),
{
    let mut after = owned("{\n  \"tenant\": \"development\",\n  \"proxy_secret\": \"");
    after.append(proxy_secret);
    after.append("\",\n  \"accounts\": [\n    {\"username\": \"admin\", \"password\": \"");
    after.append(admin_password);
    after.append("\", \"claims\": \"role=admin\"},\n    {\"username\": \"user\", \"password\": \"");
    after.append(user_password);
    after.append("\", \"claims\": \"role=user\"}\n  ]\n}\n");
    FileChange { path: join_path(root, DEVELOPMENT_FILE), before: None, after }
}

/// The characters a development password is drawn from: no two of them
/// are easily mistaken for each other.
pub const PASSWORD_ALPHABET: &'static str = "ABCDEFGHJKLMNPQRSTUVWXYZabcdefghijkmnopqrstuvwxyz23456789";

/// Each byte as the character of the alphabet it selects, modulo its size.
pub open spec fn password_from(bytes: Seq<u8>) -> Seq<char> {
    bytes.map_values(|b: u8| PASSWORD_ALPHABET@[(b as int) % (PASSWORD_ALPHABET@.len() as int)])
}

/// A development password made from random bytes.
pub fn development_password(bytes: &[u8]) -> (r: String)
    ensures
        r@ == password_from(bytes@),
{
    let alphabet = chars_of(PASSWORD_ALPHABET);
    proof {
        reveal_strlit("ABCDEFGHJKLMNPQRSTUVWXYZabcdefghijkmnopqrstuvwxyz23456789");
    }
    assert(alphabet@.len() == 57);
    let n = alphabet.len();
    let mut out = String::new();
    let mut i: usize = 0;
    while i < bytes.len()
        invariant
            i <= bytes@.len(),
            alphabet@ == PASSWORD_ALPHABET@,
            n == 57,
            alphabet@.len() == 57,
            out@ == password_from(bytes@.take(i as int)),
        decreases bytes@.len() - i,
    {
        let k = (bytes[i] as usize) % n;
        push_char(&mut out, alphabet[k]);
        assert(bytes@.take(i + 1).map_values(
            |b: u8| PASSWORD_ALPHABET@[(b as int) % (PASSWORD_ALPHABET@.len() as int)],
        ) =~= bytes@.take(i as int).map_values(
            |b: u8| PASSWORD_ALPHABET@[(b as int) % (PASSWORD_ALPHABET@.len() as int)],
        ).push(PASSWORD_ALPHABET@[(bytes@[i as int] as int) % 57]));
        i = i + 1;
    }
    assert(bytes@.take(i as int) =~= bytes@);
    out
}


/// Where the adoption record is kept.
pub const MANIFEST_FILE: &'static str = ".authboundry/adoption.json";

/// The declaration adoption writes where an application has none.
pub const CONFIG_FILE: &'static str = "authboundry.toml";

/// What building an adoption plan finds in the application's directory.
pub struct PlanInputs {
    /// A declaration and the adoption record are both present.
    pub already_integrated: bool,
    /// What the declaration file adoption writes holds, where it exists.
    pub config_before: Option<String>,
    /// What the adoption record holds, where it exists.
    pub manifest_before: Option<String>,
    /// The first declaration file present, and what it holds where it can be read.
    pub declaration: Option<(String, Option<String>)>,
    pub development_exists: bool,
    pub proxy_secret: String,
    pub admin_password: String,
    pub user_password: String,
    pub integration_exists: bool,
    /// The mail templates to create, being absent.
    pub emails: Vec<FileChange>,
    pub gitignore_before: Option<String>,
    /// The first Vite configuration present, and what it holds where it can be read.
    pub vite: Option<(String, Option<String>)>,
    /// The first entrypoint's source, or why it could not be read.
    pub entry_source: Result<String, String>,
    /// What the file the bridge generates holds now.
    pub generated_before: Option<String>,
    /// The package manifest, or why it could not be read.
    pub package: Result<String, String>,
    /// Each entrypoint's source, where it can be read.
    pub entry_sources: Vec<Option<String>>,
}

pub open spec fn declaration_upgrade(found: Option<(String, Option<String>)>) -> Seq<
    (Seq<char>, Option<Seq<char>>, Seq<char>),
> {
    match found {
        Some((p, Some(b))) => match upgraded(b@) {
            Some(a) => seq![(p@, Some(b@), a)],
            None => Seq::empty(),
        },
        _ => Seq::empty(),
    }
}

pub open spec fn vite_upgrade(found: Option<(String, Option<String>)>) -> Seq<
    (Seq<char>, Option<Seq<char>>, Seq<char>),
> {
    match found {
        Some((p, Some(b))) => match vite_guard_upgraded(b@) {
            Some(a) => seq![(p@, Some(b@), a)],
            None => Seq::empty(),
        },
        _ => Seq::empty(),
    }
}

pub open spec fn gitignore_changes(root: Seq<char>, before: Option<Seq<char>>) -> Seq<
    (Seq<char>, Option<Seq<char>>, Seq<char>),
> {
    match gitignore_update(before) {
        Some(a) => seq![(joined(root, ".gitignore"@), before, a)],
        None => Seq::empty(),
    }
}

/// The changes of an adoption before the framework bridge: the declaration
/// and adoption record where the application is not adopted yet, the
/// declaration's upgrade where it has one, the development accounts and the
/// integration record where they are missing, the mail templates, the
/// ignore rules and the Vite guard's upgrade.
pub open spec fn plan_base(app: ApplicationCandidate, mode: InitMode, i: PlanInputs) -> Seq<
    (Seq<char>, Option<Seq<char>>, Seq<char>),
> {
    let root = app.root@;
    let adopt: Seq<(Seq<char>, Option<Seq<char>>, Seq<char>)> = if i.already_integrated {
        Seq::empty()
    } else {
        (if app.existing_authport.configuration {
            Seq::empty()
        } else {
            seq![(joined(root, CONFIG_FILE@), opt_view(i.config_before), DEFAULT_DECLARATION@)]
        }).push((joined(root, MANIFEST_FILE@), opt_view(i.manifest_before), manifest_json(app, mode, None)))
    };
    let upgrade: Seq<(Seq<char>, Option<Seq<char>>, Seq<char>)> = if app.existing_authport.configuration {
        declaration_upgrade(i.declaration)
    } else {
        Seq::empty()
    };
    let development: Seq<(Seq<char>, Option<Seq<char>>, Seq<char>)> = if i.development_exists {
        Seq::empty()
    } else {
        seq![
            (
                joined(root, DEVELOPMENT_FILE@),
                None,
                development_text(i.proxy_secret@, i.admin_password@, i.user_password@),
            ),
        ]
    };
    let integration: Seq<(Seq<char>, Option<Seq<char>>, Seq<char>)> = if i.integration_exists {
        Seq::empty()
    } else {
        seq![(joined(root, INTEGRATION_FILE@), None, integration_text(app))]
    };
    adopt + upgrade + development + integration + changes_view(i.emails@) + gitignore_changes(
        root,
        opt_view(i.gitignore_before),
    ) + vite_upgrade(i.vite)
}

pub open spec fn source_bridged(o: Option<String>) -> bool {
    match o {
        Some(s) => contains_seq(s@, INTEGRATION_MARK@),
        None => false,
    }
}

/// The plan's changes and whether its integration is supported (a bridge
/// is written, or an entrypoint is bridged already), or why it fails.
pub open spec fn plan_result(app: ApplicationCandidate, mode: InitMode, i: PlanInputs) -> Result<
    (Seq<(Seq<char>, Option<Seq<char>>, Seq<char>)>, bool),
    Seq<char>,
> {
    match integration_result(app, res_view(i.entry_source), opt_view(i.generated_before), res_view(i.package)) {
        Err(e) => Err(e),
        Ok(native) => Ok(
            (
                plan_base(app, mode, i) + native,
                native.len() > 0 || exists|k: int|
                    0 <= k < i.entry_sources@.len() && #[trigger] source_bridged(i.entry_sources@[k]),
            ),
        ),
    }
}

fn push_change(v: &mut Vec<FileChange>, c: FileChange)
    ensures
        changes_view(final(v)@) == changes_view(old(v)@).push(c@),
{
    let ghost before = v@;
    v.push(c);
    assert(changes_view(v@) =~= changes_view(before).push(c@));
}

fn append_changes(v: &mut Vec<FileChange>, more: &mut Vec<FileChange>)
    ensures
        changes_view(final(v)@) == changes_view(old(v)@) + changes_view(old(more)@),
{
    let ghost a = v@;
    let ghost b = more@;
    v.append(more);
    assert(changes_view(v@) =~= changes_view(a) + changes_view(b));
}

fn any_bridged(sources: &Vec<Option<String>>) -> (r: bool)
    ensures
        r == exists|k: int| 0 <= k < sources@.len() && #[trigger] source_bridged(sources@[k]),
{
    let mut i: usize = 0;
    while i < sources.len()
        invariant
            i <= sources@.len(),
            forall|k: int| 0 <= k < i ==> !source_bridged(#[trigger] sources@[k]),
        decreases sources@.len() - i,
    {
        match &sources[i] {
            Some(s) => {
                if contains_str(s.as_str(), INTEGRATION_MARK) {
                    assert(source_bridged(sources@[i as int]));
                    return true;
                }
            },
            None => {},
        }
        i = i + 1;
    }
    false
}

/// The adoption plan for a discovered application, from what its directory holds.
#[verifier::spinoff_prover]
#[verifier::rlimit(60)]
pub fn assemble_plan(application: ApplicationCandidate, mode: InitMode, inputs: PlanInputs) -> (r: Result<
    InitPlan,
    CliError,
>)
    ensures
        match plan_result(application, mode, inputs) {
            Err(e) => r matches Err(x) && x.message@ == e,
            Ok((cs, supported)) => r matches Ok(p) && p.application == application && p.mode == mode
                && changes_view(p.changes@) == cs && p.already_integrated == inputs.already_integrated
                && p.detected && p.integration_supported == supported,
        },
{
    let ghost i = inputs;
    let PlanInputs {
        already_integrated,
        config_before,
        manifest_before,
        declaration,
        development_exists,
        proxy_secret,
        admin_password,
        user_password,
        integration_exists,
        mut emails,
        gitignore_before,
        vite,
        entry_source,
        generated_before,
        package,
        entry_sources,
    } = inputs;
    let root = application.root.as_str();
    let mut changes: Vec<FileChange> = Vec::new();
    let ghost r0 = changes_view(changes@);
    assert(r0 =~= Seq::empty());
    if !already_integrated {
        if !application.existing_authport.configuration {
            push_change(
                &mut changes,
                FileChange { path: join_path(root, CONFIG_FILE), before: config_before, after: owned(DEFAULT_DECLARATION) },
            );
        }
        let manifest = render_manifest_with_upstream(&application, mode, None);
        push_change(&mut changes, FileChange { path: join_path(root, MANIFEST_FILE), before: manifest_before, after: manifest });
    }
    let ghost adopt = changes_view(changes@);
    if application.existing_authport.configuration {
        match declaration {
            Some((p, Some(b))) => match upgrade_declaration(b.as_str()) {
                Some(a) => push_change(&mut changes, FileChange { path: p, before: Some(b), after: a }),
                None => {},
            },
            _ => {},
        }
    }
    let ghost upgrade = changes_view(changes@);
    if !development_exists {
        push_change(
            &mut changes,
            development_accounts_change(root, proxy_secret.as_str(), admin_password.as_str(), user_password.as_str()),
        );
    }
    let ghost development = changes_view(changes@);
    if !integration_exists {
        push_change(&mut changes, integration_change(&application));
    }
    let ghost integration = changes_view(changes@);
    append_changes(&mut changes, &mut emails);
    let ghost mails = changes_view(changes@);
    match gitignore_after(&gitignore_before) {
        Some(a) => push_change(&mut changes, FileChange { path: join_path(root, ".gitignore"), before: gitignore_before, after: a }),
        None => {},
    }
    let ghost ignore = changes_view(changes@);
    match vite {
        Some((p, b)) => match vite_guard_upgrade_change(p.as_str(), b) {
            Some(c) => push_change(&mut changes, c),
            None => {},
        },
        None => {},
    }
    proof {
        assert(changes_view(changes@) =~= plan_base(application, mode, i));
    }
    let bridged = any_bridged(&entry_sources);
    match framework_integration_changes(&application, entry_source, generated_before, package) {
        Err(e) => Err(e),
        Ok(mut native) => {
            let supported = native.len() > 0 || bridged;
            append_changes(&mut changes, &mut native);
            Ok(
                InitPlan {
                    application,
                    mode,
                    changes,
                    already_integrated,
                    detected: true,
                    integration_supported: supported,
                },
            )
        },
    }
}

} // verus!

//! The rollback journal: what adoption records of each file it writes, so
//! that each change can be reversed exactly, and what a rollback reads back
//! from it.
use vstd::prelude::*;
use crate::text::{
    owned, chars_of, has_char, starts_with, slice_chars, string_from_chars, str_eq, u64_decimal,
    decimal, contains_char, is_prefix, first_index_of, lemma_first_index_of, views,
};
use super::declaration::lines_of;
use super::report::{InitPlan, display_of, display_path, lines_exec};
use super::{CliError, error, error_owned};
use super::declaration::{replace_first, replace_first_exec};
use crate::text::{contains_seq, contains_str, cat3, cat};
use super::integration::{lemma_lines_concat, lemma_lines_single};
use crate::text::{digit_char, lemma_first_index_of_char};

verus! {

pub const UNSAFE_JOURNAL_PATH: &'static str = "cannot journal an unsafe integration path";

pub const UNSAFE_ROLLBACK_PATH: &'static str = "rollback journal contains an unsafe path";

pub const UNKNOWN_ROLLBACK_ACTION: &'static str = "rollback journal contains an unknown action";

/// A path the journal cannot hold: one with a tab or a line break, or one
/// that climbs out of the application's root.
pub open spec fn unjournalable(r: Seq<char>) -> bool {
    contains_char(r, '\t') || contains_char(r, '\n') || is_prefix("../"@, r)
}

/// The path of the `k`th change as the journal records it.
pub open spec fn relative_of(plan: InitPlan, k: int) -> Seq<char> {
    display_of(plan.changes@[k].path@, plan.application.root@)
}

/// The backup of the `k`th change's former contents.
pub open spec fn backup_name(k: int) -> Seq<char> {
    decimal(k as nat) + ".backup"@
}

/// The journal line of the `k`th change.
pub open spec fn journal_line(plan: InitPlan, k: int) -> Seq<char> {
    match plan.changes@[k].before {
        Some(_) => "existing\t"@ + relative_of(plan, k) + "\t"@ + backup_name(k) + "\n"@,
        None => "created\t"@ + relative_of(plan, k) + "\t\n"@,
    }
}

/// The journal of the first `n` changes.
pub open spec fn journal_upto(plan: InitPlan, n: int) -> Seq<char>
    decreases n,
{
    if n <= 0 {
        Seq::empty()
    } else {
        journal_upto(plan, n - 1) + journal_line(plan, n - 1)
    }
}

/// The backups of the first `n` changes: name and former contents of each
/// that replaced an existing file.
pub open spec fn backups_upto(plan: InitPlan, n: int) -> Seq<(Seq<char>, Seq<char>)>
    decreases n,
{
    if n <= 0 {
        Seq::empty()
    } else {
        match plan.changes@[n - 1].before {
            Some(b) => backups_upto(plan, n - 1).push((backup_name(n - 1), b@)),
            None => backups_upto(plan, n - 1),
        }
    }
}

/// The first change from `k` on whose path the journal cannot hold.
pub open spec fn first_unjournalable(plan: InitPlan, k: int) -> Option<int>
    decreases plan.changes@.len() - k,
{
    if k < 0 || k >= plan.changes@.len() {
        None
    } else if unjournalable(relative_of(plan, k)) {
        Some(k)
    } else {
        first_unjournalable(plan, k + 1)
    }
}

/// How many changes are journaled: those before the first the journal
/// cannot hold.
pub open spec fn journaled(plan: InitPlan) -> int {
    match first_unjournalable(plan, 0) {
        Some(k) => k,
        None => plan.changes@.len() as int,
    }
}

/// What journaling a plan writes: the backups, in order, and then the
/// journal itself, or why it cannot be written.
pub struct Journal {
    pub backups: Vec<(String, String)>,
    pub manifest: Result<String, CliError>,
}

pub open spec fn pairs_view(v: Seq<(String, String)>) -> Seq<(Seq<char>, Seq<char>)> {
    v.map_values(|p: (String, String)| (p.0@, p.1@))
}

/// The journal of an adoption plan. The backups of the changes before the
/// first path it cannot hold are written either way; the journal only where
/// every path can be held.
pub fn journal_of(plan: &InitPlan) -> (j: Journal)
    ensures
        pairs_view(j.backups@) == backups_upto(*plan, journaled(*plan)),
        match first_unjournalable(*plan, 0) {
            Some(_) => j.manifest matches Err(e) && e.message@ == UNSAFE_JOURNAL_PATH@,
            None => j.manifest matches Ok(m) && m@ == journal_upto(*plan, plan.changes@.len() as int),
        },
{
    let root = plan.application.root.as_str();
    let mut backups: Vec<(String, String)> = Vec::new();
    let mut manifest = String::new();
    let mut k: usize = 0;
    while k < plan.changes.len()
        invariant
            k <= plan.changes@.len(),
            root@ == plan.application.root@,
            first_unjournalable(*plan, 0) == first_unjournalable(*plan, k as int),
            pairs_view(backups@) == backups_upto(*plan, k as int),
            manifest@ == journal_upto(*plan, k as int),
        decreases plan.changes@.len() - k,
    {
        let change = &plan.changes[k];
        let relative = display_path(change.path.as_str(), root);
        let rv = chars_of(relative.as_str());
        assert(*change == plan.changes@[k as int]);
        assert(relative@ == relative_of(*plan, k as int));
        if has_char(rv.as_slice(), '\t') || has_char(rv.as_slice(), '\n') || starts_with(relative.as_str(), "../") {
            assert(unjournalable(relative_of(*plan, k as int)));
            assert(journaled(*plan) == k);
            return Journal { backups, manifest: Err(error(UNSAFE_JOURNAL_PATH)) };
        }
        let ghost before_backups = backups@;
        match &change.before {
            Some(b) => {
                let mut name = u64_decimal(k as u64);
                name.append(".backup");
                manifest.append("existing\t");
                manifest.append(relative.as_str());
                manifest.append("\t");
                manifest.append(name.as_str());
                manifest.append("\n");
                proof {
                    assert(name@ == backup_name(k as int));
                    assert(manifest@ =~= journal_upto(*plan, k as int) + journal_line(*plan, k as int));
                }
                backups.push((name, b.clone()));
                assert(pairs_view(backups@) =~= pairs_view(before_backups).push((backup_name(k as int), b@)));
            },
            None => {
                manifest.append("created\t");
                manifest.append(relative.as_str());
                manifest.append("\t\n");
                assert(manifest@ =~= journal_upto(*plan, k as int) + journal_line(*plan, k as int));
            },
        }
        k = k + 1;
    }
    Journal { backups, manifest: Ok(manifest) }
}

/// The three tab-separated fields of a journal line (`splitn(3, '\t')`),
/// missing ones empty.
pub open spec fn tab_fields(l: Seq<char>) -> (Seq<char>, Seq<char>, Seq<char>) {
    match first_index_of(l, '\t') {
        None => (l, Seq::empty(), Seq::empty()),
        Some(i) => {
            let rest = l.skip(i + 1);
            match first_index_of(rest, '\t') {
                None => (l.take(i), rest, Seq::empty()),
                Some(j) => (l.take(i), rest.take(j), rest.skip(j + 1)),
            }
        },
    }
}

/// Some `/`-separated part of `r` is `..`.
pub open spec fn climbs(r: Seq<char>) -> bool
    decreases r.len(),
{
    match first_index_of(r, '/') {
        Some(i) => {
            proof {
                lemma_first_index_of(r, '/');
            }
            r.take(i) == ".."@ || climbs(r.skip(i + 1))
        },
        None => r == ".."@,
    }
}

/// A path a rollback refuses to touch: empty, absolute, or climbing.
pub open spec fn unsafe_rollback_path(r: Seq<char>) -> bool {
    r.len() == 0 || r[0] == '/' || climbs(r)
}

/// What a journal line asks for: a restore from a backup (`true`, the path
/// and the backup) or a removal (`false`, the path); or why it is refused.
pub open spec fn line_step(l: Seq<char>) -> Result<(bool, Seq<char>, Seq<char>), Seq<char>> {
    let f = tab_fields(l);
    if unsafe_rollback_path(f.1) {
        Err(UNSAFE_ROLLBACK_PATH@)
    } else if f.0 == "existing"@ {
        Ok((true, f.1, f.2))
    } else if f.0 == "created"@ {
        Ok((false, f.1, Seq::empty()))
    } else {
        Err(UNKNOWN_ROLLBACK_ACTION@)
    }
}

/// The steps of the journal lines `ls`, the last line first, up to the first
/// line refused, and why that one is refused.
pub open spec fn steps_of(ls: Seq<Seq<char>>) -> (Seq<(bool, Seq<char>, Seq<char>)>, Option<Seq<char>>)
    decreases ls.len(),
{
    if ls.len() == 0 {
        (Seq::empty(), None)
    } else {
        match line_step(ls.last()) {
            Err(e) => (Seq::empty(), Some(e)),
            Ok(s) => (seq![s] + steps_of(ls.drop_last()).0, steps_of(ls.drop_last()).1),
        }
    }
}

/// One step of a rollback.
#[derive(Debug, Clone, PartialEq, Eq)]
pub enum RollbackStep {
    /// Write the backup back over the path.
    Restore { relative: String, backup: String },
    /// Remove the file adoption created.
    Remove { relative: String },
}

pub open spec fn step_view(s: RollbackStep) -> (bool, Seq<char>, Seq<char>) {
    match s {
        RollbackStep::Restore { relative, backup } => (true, relative@, backup@),
        RollbackStep::Remove { relative } => (false, relative@, Seq::empty()),
    }
}

fn tab_fields_exec(l: &str) -> (r: (String, String, String))
    ensures
        (r.0@, r.1@, r.2@) == tab_fields(l@),
{
    let v = chars_of(l);
    proof {
        lemma_first_index_of(l@, '\t');
    }
    match crate::text::find_char(v.as_slice(), '\t') {
        None => (owned(l), String::new(), String::new()),
        Some(i) => {
            let n = v.len();
            let head = slice_chars(v.as_slice(), 0, i);
            let rest = slice_chars(v.as_slice(), i + 1, n);
            assert(head@ =~= l@.take(i as int));
            assert(rest@ =~= l@.skip(i + 1));
            proof {
                lemma_first_index_of(rest@, '\t');
            }
            match crate::text::find_char(rest.as_slice(), '\t') {
                None => (string_from_chars(head.as_slice()), string_from_chars(rest.as_slice()), String::new()),
                Some(j) => {
                    let m = rest.len();
                    let second = slice_chars(rest.as_slice(), 0, j);
                    let third = slice_chars(rest.as_slice(), j + 1, m);
                    assert(second@ =~= rest@.take(j as int));
                    assert(third@ =~= rest@.skip(j + 1));
                    (
                        string_from_chars(head.as_slice()),
                        string_from_chars(second.as_slice()),
                        string_from_chars(third.as_slice()),
                    )
                },
            }
        },
    }
}

fn climbs_exec(r: &str) -> (b: bool)
    ensures
        b == climbs(r@),
{
    let mut v = chars_of(r);
    loop
        invariant
            climbs(r@) == climbs(v@),
        decreases v@.len(),
    {
        proof {
            lemma_first_index_of(v@, '/');
        }
        match crate::text::find_char(v.as_slice(), '/') {
            None => {
                let s = string_from_chars(v.as_slice());
                return str_eq(s.as_str(), "..");
            },
            Some(i) => {
                let head = slice_chars(v.as_slice(), 0, i);
                let hs = string_from_chars(head.as_slice());
                assert(head@ =~= v@.take(i as int));
                if str_eq(hs.as_str(), "..") {
                    return true;
                }
                let n = v.len();
                let rest = slice_chars(v.as_slice(), i + 1, n);
                assert(rest@ =~= v@.skip(i + 1));
                v = rest;
            },
        }
    }
}

fn line_step_exec(l: &str) -> (r: Result<RollbackStep, CliError>)
    ensures
        match line_step(l@) {
            Ok(s) => r matches Ok(x) && step_view(x) == s,
            Err(m) => r matches Err(e) && e.message@ == m,
        },
{
    let (action, relative, backup) = tab_fields_exec(l);
    let rv = chars_of(relative.as_str());
    if rv.len() == 0 || rv[0] == '/' || climbs_exec(relative.as_str()) {
        return Err(error(UNSAFE_ROLLBACK_PATH));
    }
    if str_eq(action.as_str(), "existing") {
        Ok(RollbackStep::Restore { relative, backup })
    } else if str_eq(action.as_str(), "created") {
        Ok(RollbackStep::Remove { relative })
    } else {
        Err(error(UNKNOWN_ROLLBACK_ACTION))
    }
}

pub open spec fn steps_view(v: Seq<RollbackStep>) -> Seq<(bool, Seq<char>, Seq<char>)> {
    v.map_values(|s: RollbackStep| step_view(s))
}

/// The steps a rollback takes for the journal `source`, the last line
/// first, up to the first line it refuses, and the error that line makes.
pub fn rollback_steps(source: &str) -> (r: (Vec<RollbackStep>, Option<CliError>))
    ensures
        steps_view(r.0@) == steps_of(lines_of(source@)).0,
        match steps_of(lines_of(source@)).1 {
            Some(m) => r.1 matches Some(e) && e.message@ == m,
            None => r.1 is None,
        },
{
    let ls = lines_exec(source);
    let ghost all = lines_of(source@);
    let mut steps: Vec<RollbackStep> = Vec::new();
    let mut i: usize = ls.len();
    assert(all.take(i as int) =~= all);
    while i > 0
        invariant
            i <= ls@.len(),
            all == lines_of(source@),
            views(ls@) == all,
            steps_of(all) == (steps_view(steps@) + steps_of(all.take(i as int)).0, steps_of(all.take(i as int)).1),
        decreases i,
    {
        let ghost t = all.take(i as int);
        assert(t.last() == ls@[i - 1]@);
        assert(t.drop_last() =~= all.take(i - 1));
        assert(ls[i - 1 as int]@ == all[i - 1]);
        let r = line_step_exec(ls[i - 1].as_str());
        match r {
            Err(e) => {
                assert(line_step(t.last()) is Err);
                assert(steps_of(t) == (Seq::<(bool, Seq<char>, Seq<char>)>::empty(), Some(e.message@)));
                assert(steps_view(steps@) + steps_of(t).0 =~= steps_view(steps@));
                assert(steps_of(all).0 =~= steps_view(steps@));
                assert(steps_of(all).1 == Some(e.message@));
                return (steps, Some(e));
            },
            Ok(s) => {
                assert(line_step(t.last()) == Ok::<(bool, Seq<char>, Seq<char>), Seq<char>>(step_view(s)));
                let ghost before = steps@;
                steps.push(s);
                assert(steps_view(steps@) =~= steps_view(before).push(step_view(s)));
                assert(steps_view(before) + (seq![step_view(s)] + steps_of(all.take(i - 1)).0) =~= steps_view(
                    steps@,
                ) + steps_of(all.take(i - 1)).0);
            },
        }
        i = i - 1;
    }
    assert(all.take(0) =~= Seq::<Seq<char>>::empty());
    assert(steps_view(steps@) + Seq::empty() =~= steps_view(steps@));
    (steps, None)
}

/// What a rollback reports once it has reversed `restored` changes.
pub fn rollback_report(restored: usize) -> (r: String)
    ensures
        r@ == "AuthBoundry integration rolled back.\n\u{2713} "@ + decimal(restored as nat)
            + " exact file changes reversed\n\u{2713} Incumbent authentication remains available\n"@,
{
    let mut out = owned("AuthBoundry integration rolled back.\n\u{2713} ");
    let n = u64_decimal(restored as u64);
    out.append(n.as_str());
    out.append(" exact file changes reversed\n\u{2713} Incumbent authentication remains available\n");
    out
}

/// A path the journal holds and a rollback touches.
pub open spec fn round_trip_path(r: Seq<char>) -> bool {
    !unjournalable(r) && !unsafe_rollback_path(r)
}

/// The step that reverses the `k`th change: a restore from its backup where
/// it replaced a file, a removal where it created one.
pub open spec fn undo_step(plan: InitPlan, k: int) -> (bool, Seq<char>, Seq<char>) {
    match plan.changes@[k].before {
        Some(_) => (true, relative_of(plan, k), backup_name(k)),
        None => (false, relative_of(plan, k), Seq::empty()),
    }
}

pub open spec fn line_content(plan: InitPlan, k: int) -> Seq<char> {
    match plan.changes@[k].before {
        Some(_) => "existing\t"@ + relative_of(plan, k) + "\t"@ + backup_name(k),
        None => "created\t"@ + relative_of(plan, k) + "\t"@,
    }
}

proof fn lemma_digit(d: nat)
    requires
        d < 10,
    ensures
        digit_char(d) != '\n',
        digit_char(d) != '\r',
{
    assert(digit_char(d) as u32 == (d + 48) as u32);
}

proof fn lemma_decimal_plain(n: nat)
    ensures
        forall|j: int| 0 <= j < decimal(n).len() ==> decimal(n)[j] != '\n',
    decreases n,
{
    if n < 10 {
        lemma_digit(n);
    } else {
        lemma_decimal_plain(n / 10);
        lemma_digit(n % 10);
        assert forall|j: int| 0 <= j < decimal(n).len() implies decimal(n)[j] != '\n' by {
            if j < decimal(n / 10).len() {
                assert(decimal(n)[j] == decimal(n / 10)[j]);
            }
        }
    }
}

proof fn lemma_line_content(plan: InitPlan, k: int)
    requires
        0 <= k < plan.changes@.len(),
        round_trip_path(relative_of(plan, k)),
    ensures
        journal_line(plan, k) == line_content(plan, k) + "\n"@,
        forall|j: int| 0 <= j < line_content(plan, k).len() ==> line_content(plan, k)[j] != '\n',
        line_content(plan, k).last() != '\r',
        line_step(line_content(plan, k)) == Ok::<(bool, Seq<char>, Seq<char>), Seq<char>>(undo_step(plan, k)),
{
    reveal_strlit("existing\t");
    reveal_strlit("created\t");
    reveal_strlit("\t");
    reveal_strlit(".backup");
    reveal_strlit("existing");
    reveal_strlit("created");
    reveal_strlit("\t\n");
    reveal_strlit("\n");
    let rel = relative_of(plan, k);
    let c = line_content(plan, k);
    lemma_decimal_plain(k as nat);
    assert forall|j: int| 0 <= j < rel.len() implies rel[j] != '\n' && rel[j] != '\t' by {
        if rel[j] == '\n' {
            assert(contains_char(rel, '\n'));
        }
        if rel[j] == '\t' {
            assert(contains_char(rel, '\t'));
        }
    }
    match plan.changes@[k].before {
        Some(_) => {
            let b = backup_name(k);
            let e = "existing\t"@;
            assert(journal_line(plan, k) =~= c + "\n"@);
            assert(c =~= e + rel + "\t"@ + b);
            assert forall|j: int| 0 <= j < c.len() implies c[j] != '\n' by {
                if j >= e.len() + rel.len() + 1 {
                    let q = j - (e.len() + rel.len() + 1);
                    if q < decimal(k as nat).len() {
                        assert(b[q] == decimal(k as nat)[q]);
                    }
                }
            }
            assert forall|j: int| 0 <= j < 8 implies c[j] != '\t' by {}
            lemma_first_index_of_char(c, '\t', 8);
            let rest = c.skip(9);
            assert(rest =~= rel + "\t"@ + b);
            assert forall|j: int| 0 <= j < rel.len() implies rest[j] != '\t' by {
                assert(rest[j] == rel[j]);
            }
            lemma_first_index_of_char(rest, '\t', rel.len() as int);
            assert(c.take(8) =~= "existing"@);
            assert(rest.take(rel.len() as int) =~= rel);
            assert(rest.skip(rel.len() as int + 1) =~= b);
        },
        None => {
            let e = "created\t"@;
            assert(journal_line(plan, k) =~= c + "\n"@);
            assert(c =~= e + rel + "\t"@);
            assert forall|j: int| 0 <= j < 7 implies c[j] != '\t' by {}
            lemma_first_index_of_char(c, '\t', 7);
            let rest = c.skip(8);
            assert(rest =~= rel + "\t"@);
            assert forall|j: int| 0 <= j < rel.len() implies rest[j] != '\t' by {
                assert(rest[j] == rel[j]);
            }
            lemma_first_index_of_char(rest, '\t', rel.len() as int);
            assert(c.take(7) =~= "created"@);
            assert(rest.take(rel.len() as int) =~= rel);
            assert(rest.skip(rel.len() as int + 1) =~= Seq::<char>::empty());
            assert("created"@ != "existing"@) by {
                assert("created"@.len() != "existing"@.len());
            }
        },
    }
}

proof fn lemma_journal_lines(plan: InitPlan, n: int)
    requires
        0 <= n <= plan.changes@.len(),
        forall|k: int| 0 <= k < plan.changes@.len() ==> round_trip_path(#[trigger] relative_of(plan, k)),
    ensures
        lines_of(journal_upto(plan, n)) == Seq::new(n as nat, |k: int| line_content(plan, k)),
        n > 0 ==> journal_upto(plan, n).len() > 0 && journal_upto(plan, n).last() == '\n',
    decreases n,
{
    if n == 0 {
        assert(lines_of(Seq::<char>::empty()) =~= Seq::<Seq<char>>::empty());
        assert(Seq::new(0, |k: int| line_content(plan, k)) =~= Seq::<Seq<char>>::empty());
    } else {
        lemma_journal_lines(plan, n - 1);
        lemma_line_content(plan, n - 1);
        let prev = journal_upto(plan, n - 1);
        let c = line_content(plan, n - 1);
        lemma_lines_concat(prev, c + "\n"@);
        lemma_lines_single(c);
        assert(Seq::new(n as nat, |k: int| line_content(plan, k)) =~= Seq::new(
            (n - 1) as nat,
            |k: int| line_content(plan, k),
        ) + seq![c]);
        reveal_strlit("\n");
        assert((prev + (c + "\n"@)).last() == '\n');
    }
}

proof fn lemma_journal_steps(plan: InitPlan, n: int)
    requires
        0 <= n <= plan.changes@.len(),
        forall|k: int| 0 <= k < plan.changes@.len() ==> round_trip_path(#[trigger] relative_of(plan, k)),
    ensures
        steps_of(Seq::new(n as nat, |k: int| line_content(plan, k))) == (
            Seq::new(n as nat, |j: int| undo_step(plan, n - 1 - j)),
            None::<Seq<char>>,
        ),
    decreases n,
{
    let s = Seq::new(n as nat, |k: int| line_content(plan, k));
    if n == 0 {
        assert(Seq::new(0, |j: int| undo_step(plan, n - 1 - j)) =~= Seq::<(bool, Seq<char>, Seq<char>)>::empty());
    } else {
        lemma_journal_steps(plan, n - 1);
        lemma_line_content(plan, n - 1);
        assert(s.drop_last() =~= Seq::new((n - 1) as nat, |k: int| line_content(plan, k)));
        assert(s.last() == line_content(plan, n - 1));
        assert(seq![undo_step(plan, n - 1)] + Seq::new((n - 1) as nat, |j: int| undo_step(plan, n - 2 - j))
            =~= Seq::new(n as nat, |j: int| undo_step(plan, n - 1 - j)));
    }
}

proof fn lemma_all_journalable(plan: InitPlan, k: int)
    requires
        0 <= k,
        forall|i: int| 0 <= i < plan.changes@.len() ==> round_trip_path(#[trigger] relative_of(plan, i)),
    ensures
        first_unjournalable(plan, k) is None,
    decreases plan.changes@.len() - k,
{
    if k < plan.changes@.len() {
        assert(round_trip_path(relative_of(plan, k)));
        lemma_all_journalable(plan, k + 1);
    }
}

/// A rollback of the journal adoption writes reverses exactly the changes
/// journaled, the last first: each file that existed is restored from its
/// backup and each file that was created is removed, and no line is
/// refused; for plans whose paths the journal holds and a rollback touches.
pub proof fn lemma_rollback_reverses_journal(plan: InitPlan)
    requires
        forall|k: int| 0 <= k < plan.changes@.len() ==> round_trip_path(#[trigger] relative_of(plan, k)),
    ensures
        first_unjournalable(plan, 0) is None,
        steps_of(lines_of(journal_upto(plan, plan.changes@.len() as int))) == (
            Seq::new(plan.changes@.len(), |j: int| undo_step(plan, plan.changes@.len() - 1 - j)),
            None::<Seq<char>>,
        ),
{
    let n = plan.changes@.len() as int;
    lemma_all_journalable(plan, 0);
    lemma_journal_lines(plan, n);
    lemma_journal_steps(plan, n);
}

/// The flags of a command that acts on an application only when confirmed
/// (`rollback`, `offboard-auth`): `--yes`, and at most one application path.
pub open spec fn confirm_scan(args: Seq<Seq<char>>, i: int, root: Option<Seq<char>>, yes: bool, name: Seq<char>) -> Result<
    (Option<Seq<char>>, bool),
    Seq<char>,
>
    decreases args.len() - i,
{
    if i < 0 || i >= args.len() {
        Ok((root, yes))
    } else if args[i] == "--yes"@ {
        confirm_scan(args, i + 1, root, true, name)
    } else if args[i].len() > 0 && args[i][0] == '-' {
        Err("unknown flag `"@ + args[i] + "`"@)
    } else if root is Some {
        Err(name + " accepts at most one application path"@)
    } else {
        confirm_scan(args, i + 1, Some(args[i]), yes, name)
    }
}

/// The application path a confirmed command names (`None` for the current
/// directory), or why it is refused: a bad flag or path first, then a
/// missing `--yes` with `refusal`.
pub open spec fn confirmed_root(args: Seq<Seq<char>>, name: Seq<char>, refusal: Seq<char>) -> Result<
    Option<Seq<char>>,
    Seq<char>,
> {
    match confirm_scan(args, 0, None, false, name) {
        Err(e) => Err(e),
        Ok((root, yes)) => if yes {
            Ok(root)
        } else {
            Err(refusal)
        },
    }
}

pub fn confirmed_options(args: &[String], name: &str, refusal: &str) -> (r: Result<Option<String>, CliError>)
    ensures
        match confirmed_root(views(args@), name@, refusal@) {
            Ok(root) => r matches Ok(x) && match x {
                Some(s) => root == Some(s@),
                None => root is None,
            },
            Err(m) => r matches Err(e) && e.message@ == m,
        },
{
    let ghost a = views(args@);
    let mut root: Option<String> = None;
    let mut yes = false;
    let mut i: usize = 0;
    while i < args.len()
        invariant
            i <= args@.len(),
            a == views(args@),
            confirm_scan(a, 0, None, false, name@) == confirm_scan(
                a,
                i as int,
                match root {
                    Some(s) => Some(s@),
                    None => None,
                },
                yes,
                name@,
            ),
        decreases args@.len() - i,
    {
        let arg = args[i].as_str();
        assert(a[i as int] == arg@);
        let v = chars_of(arg);
        if str_eq(arg, "--yes") {
            yes = true;
        } else if v.len() > 0 && v[0] == '-' {
            return Err(error_owned(cat3("unknown flag `", arg, "`")));
        } else if root.is_some() {
            return Err(error_owned(cat(name, " accepts at most one application path")));
        } else {
            root = Some(owned(arg));
        }
        i = i + 1;
    }
    if yes {
        Ok(root)
    } else {
        Err(error(refusal))
    }
}

pub const VERIFIED_STATUS: &'static str = "\"status\": \"verified\"";

pub const OFFBOARDED_STATUS: &'static str = "\"status\": \"offboarded\"";

/// What offboarding writes to the integration record, given what the record
/// holds (`None` where there is none) and whether the rollback journal is
/// there; or why offboarding is refused.
pub open spec fn offboarded(record: Option<Seq<char>>, journal: bool) -> Result<Seq<char>, Seq<char>> {
    match record {
        None => Err("no AuthBoundry integration plan exists"@),
        Some(s) => if !contains_seq(s, VERIFIED_STATUS@) {
            Err("offboarding refused: AuthBoundry cutover has not passed runtime verification"@)
        } else if !journal {
            Err("offboarding refused: rollback journal is unavailable"@)
        } else {
            Ok(replace_first(s, VERIFIED_STATUS@, OFFBOARDED_STATUS@))
        },
    }
}

pub fn offboard_record(record: Option<String>, journal: bool) -> (r: Result<String, CliError>)
    ensures
        match offboarded(super::control::opt_view(record), journal) {
            Ok(t) => r matches Ok(x) && x@ == t,
            Err(m) => r matches Err(e) && e.message@ == m,
        },
{
    match record {
        None => Err(error("no AuthBoundry integration plan exists")),
        Some(s) => {
            if !contains_str(s.as_str(), VERIFIED_STATUS) {
                Err(error("offboarding refused: AuthBoundry cutover has not passed runtime verification"))
            } else if !journal {
                Err(error("offboarding refused: rollback journal is unavailable"))
            } else {
                Ok(replace_first_exec(s.as_str(), VERIFIED_STATUS, OFFBOARDED_STATUS))
            }
        },
    }
}

/// What `offboard-auth` reports once the record is written.
pub const OFFBOARD_REPORT: &'static str = "Incumbent authentication offboarded from the authority path.\n\u{2713} AuthBoundry is the verified protected-route authority\n\u{2713} Existing identity provider may continue through its bridge\n\u{2713} Application profiles and business data preserved\n\u{2713} Original source remains recoverable with `authboundry rollback --yes`\n";

} // verus!

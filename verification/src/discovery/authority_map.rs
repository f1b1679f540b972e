//! The approved authority mappings: capability by (method, path), kept in key
//! order with one entry per key, as an ordered map keeps them.
use vstd::prelude::*;
use crate::text::{seq_le, str_le, lemma_seq_le_total, lemma_seq_le_transitive};

verus! {

/// `a` orders strictly before `b`.
pub open spec fn seq_lt(a: Seq<char>, b: Seq<char>) -> bool {
    seq_le(a, b) && a != b
}

/// The order of `(String, String)` keys: by the first, then the second.
pub open spec fn key_lt(a: (Seq<char>, Seq<char>), b: (Seq<char>, Seq<char>)) -> bool {
    if a.0 != b.0 {
        seq_lt(a.0, b.0)
    } else {
        seq_lt(a.1, b.1)
    }
}

pub open spec fn key_view(k: (String, String)) -> (Seq<char>, Seq<char>) {
    (k.0@, k.1@)
}

/// Capability by (method, path), keys in increasing order.
#[derive(Debug, PartialEq, Eq)]
pub struct AuthorityMap {
    entries: Vec<((String, String), String)>,
}

pub open spec fn entry_view(e: ((String, String), String)) -> ((Seq<char>, Seq<char>), Seq<char>) {
    (key_view(e.0), e.1@)
}

proof fn lemma_key_lt_trans(a: (Seq<char>, Seq<char>), b: (Seq<char>, Seq<char>), c: (Seq<char>, Seq<char>))
    requires
        key_lt(a, b),
        key_lt(b, c),
    ensures
        key_lt(a, c),
{
    lemma_seq_le_total(a.0, b.0);
    lemma_seq_le_total(b.0, c.0);
    lemma_seq_le_total(a.0, c.0);
    lemma_seq_le_total(a.1, b.1);
    lemma_seq_le_total(b.1, c.1);
    lemma_seq_le_total(a.1, c.1);
    if a.0 != b.0 && b.0 != c.0 {
        lemma_seq_le_transitive(a.0, b.0, c.0);
    }
    if a.0 == b.0 && b.0 == c.0 {
        lemma_seq_le_transitive(a.1, b.1, c.1);
    }
}

proof fn lemma_key_lt_total(a: (Seq<char>, Seq<char>), b: (Seq<char>, Seq<char>))
    ensures
        a == b || key_lt(a, b) || key_lt(b, a),
        !(key_lt(a, b) && key_lt(b, a)),
        !key_lt(a, a),
{
    lemma_seq_le_total(a.0, b.0);
    lemma_seq_le_total(a.1, b.1);
}

fn key_lt_exec(a: &(String, String), b: &(String, String)) -> (r: bool)
    ensures
        r == key_lt(key_view(*a), key_view(*b)),
{
    if a.0 != b.0 {
        str_le(a.0.as_str(), b.0.as_str())
    } else {
        a.1 != b.1 && str_le(a.1.as_str(), b.1.as_str())
    }
}

/// The value of the entry with `key` (entries hold each key at most once).
pub open spec fn entries_get(es: Seq<((Seq<char>, Seq<char>), Seq<char>)>, key: (Seq<char>, Seq<char>)) -> Option<Seq<char>> {
    if exists|i: int| 0 <= i < es.len() && #[trigger] es[i].0 == key {
        let i = choose|i: int| 0 <= i < es.len() && #[trigger] es[i].0 == key;
        Some(es[i].1)
    } else {
        None
    }
}

/// Keys strictly increase.
pub open spec fn entries_sorted(es: Seq<((Seq<char>, Seq<char>), Seq<char>)>) -> bool {
    forall|i: int, j: int| 0 <= i < j < es.len() ==> key_lt(#[trigger] es[i].0, #[trigger] es[j].0)
}

impl AuthorityMap {
    /// The entries as plain values, in key order.
    pub closed spec fn entries_view(&self) -> Seq<((Seq<char>, Seq<char>), Seq<char>)> {
        self.entries@.map_values(|e: ((String, String), String)| entry_view(e))
    }

    #[verifier::type_invariant]
    spec fn wf(&self) -> bool {
        forall|i: int, j: int|
            0 <= i < j < self.entries@.len() ==> key_lt(#[trigger] key_view(self.entries@[i].0), #[trigger] key_view(self.entries@[j].0))
    }

    /// The capability mapped for `key`.
    pub open spec fn spec_get(&self, key: (Seq<char>, Seq<char>)) -> Option<Seq<char>> {
        entries_get(self.entries_view(), key)
    }

    proof fn lemma_wf_sorted(&self)
        requires
            self.wf(),
        ensures
            entries_sorted(self.entries_view()),
    {
        let es = self.entries_view();
        assert forall|i: int, j: int| 0 <= i < j < es.len() implies key_lt(#[trigger] es[i].0, #[trigger] es[j].0) by {
            assert(es[i] == entry_view(self.entries@[i]));
            assert(es[j] == entry_view(self.entries@[j]));
        }
    }

    pub fn new() -> (r: Self)
        ensures
            r.entries_view().len() == 0,
    {
        AuthorityMap { entries: Vec::new() }
    }

    pub fn len(&self) -> (r: usize)
        ensures
            r == self.entries_view().len(),
    {
        self.entries.len()
    }

    /// The entries in key order.
    pub fn entries(&self) -> (r: &Vec<((String, String), String)>)
        ensures
            r@.map_values(|e: ((String, String), String)| entry_view(e)) == self.entries_view(),
            entries_sorted(self.entries_view()),
    {
        proof {
            use_type_invariant(self);
            self.lemma_wf_sorted();
        }
        &self.entries
    }

    /// The capability mapped for (`method`, `path`), if any.
    pub fn get(&self, method: &String, path: &String) -> (r: Option<&String>)
        ensures
            match r {
                Some(c) => self.spec_get((method@, path@)) == Some(c@),
                None => self.spec_get((method@, path@)) is None,
            },
    {
        proof {
            use_type_invariant(self);
            self.lemma_wf_sorted();
        }
        let ghost es = self.entries_view();
        let mut i: usize = 0;
        while i < self.entries.len()
            invariant
                i <= self.entries@.len(),
                entries_sorted(es),
                es == self.entries_view(),
                es.len() == self.entries@.len(),
                forall|k: int| 0 <= k < i ==> #[trigger] es[k].0 != (method@, path@),
            decreases self.entries@.len() - i,
        {
            assert(es[i as int] == entry_view(self.entries@[i as int]));
            if self.entries[i].0.0 == *method && self.entries[i].0.1 == *path {
                proof {
                    self.lemma_get_at(i as int);
                }
                return Some(&self.entries[i].1);
            }
            i = i + 1;
        }
        None
    }

    proof fn lemma_get_at(&self, i: int)
        requires
            0 <= i < self.entries@.len(),
            entries_sorted(self.entries_view()),
        ensures
            self.spec_get(key_view(self.entries@[i].0)) == Some(self.entries@[i].1@),
    {
        lemma_entries_get_at(self.entries_view(), i);
        assert(self.entries_view()[i] == entry_view(self.entries@[i]));
    }

    /// Maps (`method`, `path`) to `capability`, replacing an earlier mapping.
    pub fn insert(&mut self, key: (String, String), capability: String)
        ensures
            final(self).spec_get(key_view(key)) == Some(capability@),
            forall|k: (Seq<char>, Seq<char>)| k != key_view(key) ==> final(self).spec_get(k) == old(self).spec_get(k),
    {
        proof {
            use_type_invariant(&*self);
            self.lemma_wf_sorted();
        }
        let ghost kv = key_view(key);
        let ghost old_es = self.entries_view();
        let mut i: usize = 0;
        while i < self.entries.len() && key_lt_exec(&self.entries[i].0, &key)
            invariant
                i <= self.entries@.len(),
                old_es == self.entries_view(),
                old_es.len() == self.entries@.len(),
                entries_sorted(old_es),
                kv == key_view(key),
                forall|k: int| 0 <= k < i ==> key_lt(#[trigger] old_es[k].0, kv),
            decreases self.entries@.len() - i,
        {
            assert(old_es[i as int] == entry_view(self.entries@[i as int]));
            i = i + 1;
        }
        let replace = i < self.entries.len() && self.entries[i].0.0 == key.0 && self.entries[i].0.1 == key.1;
        let ghost cv = capability@;
        let mut entries: Vec<((String, String), String)> = Vec::new();
        std::mem::swap(&mut entries, &mut self.entries);
        let ghost olde = entries@;
        assert(old_es == olde.map_values(|e: ((String, String), String)| entry_view(e)));
        if replace {
            entries.set(i, (key, capability));
        } else {
            proof {
                if i < olde.len() {
                    assert(old_es[i as int] == entry_view(olde[i as int]));
                    lemma_key_lt_total(old_es[i as int].0, kv);
                }
            }
            entries.insert(i, (key, capability));
        }
        let ghost new_es = entries@.map_values(|e: ((String, String), String)| entry_view(e));
        proof {
            if replace {
                assert(new_es =~= old_es.update(i as int, (kv, cv)));
            } else {
                assert(new_es =~= old_es.insert(i as int, (kv, cv)));
            }
            lemma_entries_update(old_es, i as int, kv, cv, replace);
            if replace {
                assert(new_es == old_es.update(i as int, (kv, cv)));
            } else {
                assert(new_es == old_es.insert(i as int, (kv, cv)));
            }
            assert(entries_sorted(new_es));
            assert forall|a: int, b: int| 0 <= a < b < entries@.len() implies key_lt(#[trigger] key_view(entries@[a].0), #[trigger] key_view(entries@[b].0)) by {
                assert(new_es[a] == entry_view(entries@[a]));
                assert(new_es[b] == entry_view(entries@[b]));
                assert(key_lt(new_es[a].0, new_es[b].0));
            }
        }
        self.entries = entries;
        assert(self.entries_view() == new_es);
    }
}

/// The result of putting `(kv, cv)` at `i` (over the equal key, or before
/// the first greater one) is sorted and maps exactly as the map should.
proof fn lemma_entries_update(
    es: Seq<((Seq<char>, Seq<char>), Seq<char>)>,
    i: int,
    kv: (Seq<char>, Seq<char>),
    cv: Seq<char>,
    replace: bool,
)
    requires
        entries_sorted(es),
        0 <= i <= es.len(),
        forall|k: int| 0 <= k < i ==> key_lt(#[trigger] es[k].0, kv),
        replace ==> i < es.len() && es[i].0 == kv,
        !replace ==> i == es.len() || key_lt(kv, es[i].0),
    ensures
        ({
            let n = if replace { es.update(i, (kv, cv)) } else { es.insert(i, (kv, cv)) };
            &&& entries_sorted(n)
            &&& entries_get(n, kv) == Some(cv)
            &&& forall|k: (Seq<char>, Seq<char>)| k != kv ==> entries_get(n, k) == entries_get(es, k)
        }),
{
    let n = if replace { es.update(i, (kv, cv)) } else { es.insert(i, (kv, cv)) };
    assert forall|a: int, b: int| 0 <= a < b < n.len() implies key_lt(#[trigger] n[a].0, #[trigger] n[b].0) by {
        if replace {
            if a == i {
                assert(key_lt(es[a].0, es[b].0));
            } else if b == i {
                assert(key_lt(es[a].0, es[b].0));
            }
        } else {
            if a < i && b == i {
            } else if a < i && b > i {
                assert(n[b] == es[b - 1]);
                if b - 1 > i {
                    lemma_key_lt_trans(kv, es[i].0, es[b - 1].0);
                }
                lemma_key_lt_trans(es[a].0, kv, es[b - 1].0);
            } else if a == i {
                assert(n[b] == es[b - 1]);
                if b - 1 > i {
                    lemma_key_lt_trans(kv, es[i].0, es[b - 1].0);
                }
            } else if a > i {
                assert(n[a] == es[a - 1] && n[b] == es[b - 1]);
            }
        }
    }
    let ix = i;
    assert(n[ix].0 == kv);
    lemma_entries_get_at(n, ix);
    assert forall|k: (Seq<char>, Seq<char>)| k != kv implies entries_get(n, k) == entries_get(es, k) by {
        if exists|j: int| 0 <= j < es.len() && #[trigger] es[j].0 == k {
            let j = choose|j: int| 0 <= j < es.len() && #[trigger] es[j].0 == k;
            lemma_entries_get_at(es, j);
            let j2 = if replace || j < i { j } else { j + 1 };
            assert(n[j2] == es[j]);
            lemma_entries_get_at(n, j2);
        } else {
            assert forall|j: int| 0 <= j < n.len() implies #[trigger] n[j].0 != k by {
                if replace {
                    if j != i {
                        assert(n[j] == es[j]);
                    }
                } else if j < i {
                    assert(n[j] == es[j]);
                } else if j > i {
                    assert(n[j] == es[j - 1]);
                }
            }
        }
    }
}

proof fn lemma_entries_get_at(es: Seq<((Seq<char>, Seq<char>), Seq<char>)>, i: int)
    requires
        entries_sorted(es),
        0 <= i < es.len(),
    ensures
        entries_get(es, es[i].0) == Some(es[i].1),
{
    let key = es[i].0;
    let j = choose|j: int| 0 <= j < es.len() && #[trigger] es[j].0 == key;
    if j != i {
        lemma_key_lt_total(key, key);
    }
}

} // verus!

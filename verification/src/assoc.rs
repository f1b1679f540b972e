//! String-keyed association lists: the key/value tables of the authority model
//! (claims, resource attributes, request headers, connector parameters).
//!
//! A table is a `Vec<(String, V)>`; a key is looked up by its characters and
//! the first entry with that key wins. `set_entry` replaces an existing entry in
//! place, so a table built only through it never holds a key twice.
use vstd::prelude::*;
use crate::text::str_eq;

verus! {

/// The value the first entry with this key carries.
pub open spec fn lookup<V>(entries: Seq<(String, V)>, key: Seq<char>) -> Option<V>
    decreases entries.len(),
{
    if entries.len() == 0 {
        None
    } else if entries[0].0@ == key {
        Some(entries[0].1)
    } else {
        lookup(entries.drop_first(), key)
    }
}

/// The index of the first entry with this key.
pub open spec fn key_index<V>(entries: Seq<(String, V)>, key: Seq<char>) -> Option<int>
    decreases entries.len(),
{
    if entries.len() == 0 {
        None
    } else if entries[0].0@ == key {
        Some(0)
    } else {
        match key_index(entries.drop_first(), key) {
            Some(i) => Some(i + 1),
            None => None,
        }
    }
}

/// No key occurs twice.
pub open spec fn unique_keys<V>(entries: Seq<(String, V)>) -> bool {
    forall|i: int, j: int|
        0 <= i < entries.len() && 0 <= j < entries.len() && i != j ==> entries[i].0@
            != entries[j].0@
}

pub proof fn lemma_key_index<V>(entries: Seq<(String, V)>, key: Seq<char>)
    ensures
        key_index(entries, key) matches Some(i) ==> {
            &&& 0 <= i < entries.len()
            &&& entries[i].0@ == key
            &&& lookup(entries, key) == Some(entries[i].1)
            &&& forall|j: int| 0 <= j < i ==> entries[j].0@ != key
        },
        key_index(entries, key) is None ==> {
            &&& lookup(entries, key) is None
            &&& forall|j: int| 0 <= j < entries.len() ==> entries[j].0@ != key
        },
    decreases entries.len(),
{
    if entries.len() > 0 && entries[0].0@ != key {
        lemma_key_index(entries.drop_first(), key);
        assert forall|j: int| 1 <= j < entries.len() implies entries[j] == entries.drop_first()[j
            - 1] by {}
    }
}

pub proof fn lemma_key_index_found<V>(entries: Seq<(String, V)>, key: Seq<char>, i: int)
    requires
        0 <= i < entries.len(),
        entries[i].0@ == key,
        forall|j: int| 0 <= j < i ==> entries[j].0@ != key,
    ensures
        key_index(entries, key) == Some(i),
        lookup(entries, key) == Some(entries[i].1),
    decreases entries.len(),
{
    if i > 0 {
        assert forall|j: int| 0 <= j < i - 1 implies entries.drop_first()[j].0@ != key by {
            assert(entries.drop_first()[j] == entries[j + 1]);
        }
        lemma_key_index_found(entries.drop_first(), key, i - 1);
    }
}

pub proof fn lemma_key_index_absent<V>(entries: Seq<(String, V)>, key: Seq<char>)
    requires
        forall|j: int| 0 <= j < entries.len() ==> entries[j].0@ != key,
    ensures
        key_index(entries, key) is None,
        lookup(entries, key) is None,
    decreases entries.len(),
{
    if entries.len() > 0 {
        assert forall|j: int| 0 <= j < entries.len() - 1 implies entries.drop_first()[j].0@
            != key by {
            assert(entries.drop_first()[j] == entries[j + 1]);
        }
        lemma_key_index_absent(entries.drop_first(), key);
    }
}

/// Tables whose keys agree entry by entry, and whose values have the same
/// views, answer every lookup alike up to views.
pub proof fn lemma_lookup_views<V: View, W: View<V = V::V>>(a: Seq<(String, V)>, b: Seq<(String, W)>)
    requires
        a.len() == b.len(),
        forall|i: int| 0 <= i < a.len() ==> #[trigger] a[i].0@ == b[i].0@ && a[i].1@ == b[i].1@,
    ensures
        forall|k: Seq<char>|
            (#[trigger] lookup(a, k) is Some) == (lookup(b, k) is Some) && (lookup(a, k) is Some
                ==> lookup(a, k).unwrap()@ == lookup(b, k).unwrap()@),
    decreases a.len(),
{
    if a.len() > 0 {
        assert forall|i: int| 0 <= i < a.drop_first().len() implies #[trigger] a.drop_first()[i].0@
            == b.drop_first()[i].0@ && a.drop_first()[i].1@ == b.drop_first()[i].1@ by {
            assert(a.drop_first()[i] == a[i + 1]);
            assert(b.drop_first()[i] == b[i + 1]);
        }
        lemma_lookup_views(a.drop_first(), b.drop_first());
        assert(a[0].0@ == b[0].0@ && a[0].1@ == b[0].1@);
        assert forall|k: Seq<char>|
            (#[trigger] lookup(a, k) is Some) == (lookup(b, k) is Some) && (lookup(a, k) is Some
                ==> lookup(a, k).unwrap()@ == lookup(b, k).unwrap()@) by {
            if a[0].0@ != k {
                assert(lookup(a.drop_first(), k) is Some == lookup(b.drop_first(), k) is Some);
            }
        }
    }
}

/// Replacing the value of the first entry for a key changes what that key
/// reads and nothing else.
pub proof fn lemma_lookup_replace_value<V>(entries: Seq<(String, V)>, i: int, v: V)
    requires
        0 <= i < entries.len(),
        key_index(entries, entries[i].0@) == Some(i),
    ensures
        forall|k: Seq<char>|
            #[trigger] lookup(entries.update(i, (entries[i].0, v)), k) == if k == entries[i].0@ {
                Some(v)
            } else {
                lookup(entries, k)
            },
{
    let t = entries.update(i, (entries[i].0, v));
    assert forall|k: Seq<char>|
        #[trigger] lookup(t, k) == if k == entries[i].0@ {
            Some(v)
        } else {
            lookup(entries, k)
        } by {
        lemma_key_index(entries, k);
        lemma_key_index(entries, entries[i].0@);
        match key_index(entries, k) {
            Some(j) => {
                assert forall|j2: int| 0 <= j2 < j implies t[j2].0@ != k by {
                    assert(t[j2].0 == entries[j2].0);
                }
                lemma_key_index_found(t, k, j);
                if j == i {
                    assert(k == entries[i].0@);
                } else {
                    assert(k != entries[i].0@);
                }
            },
            None => {
                assert forall|j2: int| 0 <= j2 < t.len() implies t[j2].0@ != k by {
                    assert(t[j2].0 == entries[j2].0);
                }
                lemma_key_index_absent(t, k);
            },
        }
    }
}

/// Position of the first entry whose key is `key`.
pub fn find_key<V>(entries: &Vec<(String, V)>, key: &str) -> (r: Option<usize>)
    ensures
        match r {
            Some(i) => key_index(entries@, key@) == Some(i as int),
            None => key_index(entries@, key@) is None,
        },
        r matches Some(i) ==> i < entries@.len() && lookup(entries@, key@) == Some(
            entries@[i as int].1,
        ),
        r is None ==> lookup(entries@, key@) is None,
{
    let mut i: usize = 0;
    while i < entries.len()
        invariant
            i <= entries@.len(),
            forall|j: int| 0 <= j < i ==> entries@[j].0@ != key@,
        decreases entries@.len() - i,
    {
        if str_eq(entries[i].0.as_str(), key) {
            proof {
                lemma_key_index_found(entries@, key@, i as int);
            }
            return Some(i);
        }
        i = i + 1;
    }
    proof {
        lemma_key_index_absent(entries@, key@);
    }
    None
}

/// The value stored under `key`, if any.
pub fn get_entry<'a, V>(entries: &'a Vec<(String, V)>, key: &str) -> (r: Option<&'a V>)
    ensures
        match r {
            Some(v) => lookup(entries@, key@) == Some(*v),
            None => lookup(entries@, key@) is None,
        },
{
    match find_key(entries, key) {
        Some(i) => Some(&entries[i].1),
        None => None,
    }
}

/// Insert or replace the entry for `key` (`HashMap::insert` / `BTreeMap::insert`).
pub fn set_entry<V>(entries: &mut Vec<(String, V)>, key: String, value: V)
    ensures
        lookup(final(entries)@, key@) == Some(value),
        forall|k: Seq<char>| k != key@ ==> lookup(final(entries)@, k) == lookup(old(entries)@, k),
        unique_keys(old(entries)@) ==> unique_keys(final(entries)@),
{
    let ghost old_entries = entries@;
    let ghost k = key@;
    match find_key(entries, key.as_str()) {
        Some(i) => {
            proof {
                lemma_key_index(old_entries, k);
            }
            entries.set(i, (key, value));
            proof {
                lemma_key_index_found(entries@, k, i as int);
                assert forall|k2: Seq<char>| k2 != k implies lookup(entries@, k2) == lookup(
                    old_entries,
                    k2,
                ) by {
                    lemma_key_index(old_entries, k2);
                    lemma_key_index(entries@, k2);
                    match key_index(old_entries, k2) {
                        Some(j) => {
                            lemma_key_index_found(entries@, k2, j);
                        },
                        None => {
                            lemma_key_index_absent(entries@, k2);
                        },
                    }
                }
            }
        },
        None => {
            proof {
                lemma_key_index(old_entries, k);
            }
            entries.push((key, value));
            proof {
                assert forall|j: int| 0 <= j < old_entries.len() implies entries@[j].0@ != k by {
                    assert(entries@[j] == old_entries[j]);
                }
                lemma_key_index_found(entries@, k, old_entries.len() as int);
                assert forall|k2: Seq<char>| k2 != k implies lookup(entries@, k2) == lookup(
                    old_entries,
                    k2,
                ) by {
                    lemma_key_index(old_entries, k2);
                    match key_index(old_entries, k2) {
                        Some(j) => {
                            lemma_key_index_found(entries@, k2, j);
                        },
                        None => {
                            assert forall|j: int| 0 <= j < entries@.len() implies entries@[j].0@
                                != k2 by {
                                if j < old_entries.len() {
                                    assert(entries@[j] == old_entries[j]);
                                }
                            }
                            lemma_key_index_absent(entries@, k2);
                        },
                    }
                }
            }
        },
    }
}

} // verus!

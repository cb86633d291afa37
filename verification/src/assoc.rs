//! Association lists keyed by name: the order of first insertion is kept, and
//! a name occurs at most once.

use vstd::prelude::*;

verus! {

/// The entries of `entries` as mathematical values, in order.
pub open spec fn entry_views<V: View>(entries: Seq<(String, V)>) -> Seq<(Seq<char>, V::V)> {
    Seq::new(entries.len(), |i: int| (entries[i].0@, entries[i].1@))
}

/// The position of the first entry named `key`, if there is one.
pub open spec fn position<W>(entries: Seq<(Seq<char>, W)>, key: Seq<char>) -> Option<int>
    decreases entries.len(),
{
    if entries.len() == 0 {
        None
    } else {
        match position(entries.drop_last(), key) {
            Some(i) => Some(i),
            None => if entries.last().0 == key {
                Some(entries.len() - 1)
            } else {
                None
            },
        }
    }
}

/// The value of the first entry named `key`, if there is one.
pub open spec fn lookup<W>(entries: Seq<(Seq<char>, W)>, key: Seq<char>) -> Option<W> {
    match position(entries, key) {
        Some(i) => Some(entries[i].1),
        None => None,
    }
}

/// `entries` with `key` bound to `value`: in the place of the entry named
/// `key` if there is one, else at the end.
pub open spec fn upsert<W>(entries: Seq<(Seq<char>, W)>, key: Seq<char>, value: W) -> Seq<
    (Seq<char>, W),
> {
    match position(entries, key) {
        Some(i) => entries.update(i, (key, value)),
        None => entries.push((key, value)),
    }
}

/// Whether no two entries of `entries` have the same name.
pub open spec fn distinct_keys<W>(entries: Seq<(Seq<char>, W)>) -> bool {
    forall|i: int, j: int|
        0 <= i < entries.len() && 0 <= j < entries.len() && i != j ==> entries[i].0
            != entries[j].0
}

/// `position` finds the first entry of that name, and none only if there is none.
pub proof fn lemma_position<W>(entries: Seq<(Seq<char>, W)>, key: Seq<char>)
    ensures
        match position(entries, key) {
            Some(i) => 0 <= i < entries.len() && entries[i].0 == key && forall|j: int|
                0 <= j < i ==> entries[j].0 != key,
            None => forall|j: int| 0 <= j < entries.len() ==> entries[j].0 != key,
        },
    decreases entries.len(),
{
    if entries.len() > 0 {
        let front = entries.drop_last();
        lemma_position(front, key);
        assert forall|j: int| 0 <= j < front.len() implies front[j] == entries[j] by {}
        match position(front, key) {
            Some(i) => {
                assert(front[i] == entries[i]);
                assert forall|j: int| 0 <= j < i implies entries[j].0 != key by {
                    assert(front[j] == entries[j]);
                }
            },
            None => {
                assert forall|j: int| 0 <= j < entries.len() - 1 implies entries[j].0 != key by {
                    assert(front[j] == entries[j]);
                }
            },
        }
    }
}

/// After a name is bound, it is bound to the value, and every other name is
/// bound as before.
pub proof fn lemma_upsert_lookup<W>(entries: Seq<(Seq<char>, W)>, key: Seq<char>, value: W)
    ensures
        lookup(upsert(entries, key, value), key) == Some(value),
        forall|other: Seq<char>|
            other != key ==> lookup(upsert(entries, key, value), other) == lookup(entries, other),
{
    let after = upsert(entries, key, value);
    lemma_position(entries, key);
    lemma_position(after, key);
    match position(entries, key) {
        Some(i) => {
            assert(after[i] == (key, value));
            if let Some(k) = position(after, key) {
                if k < i {
                    assert(after[k].0 == entries[k].0);
                }
            }
        },
        None => {
            assert(after[entries.len() as int] == (key, value));
            if let Some(k) = position(after, key) {
                if k < entries.len() {
                    assert(after[k].0 == entries[k].0);
                }
            }
        },
    }
    assert forall|other: Seq<char>| other != key implies lookup(after, other) == lookup(
        entries,
        other,
    ) by {
        lemma_position(entries, other);
        lemma_position(after, other);
        match position(entries, other) {
            Some(i) => {
                assert(after[i] == entries[i]);
                if let Some(k) = position(after, other) {
                    if k < i {
                        assert(after[k].0 == entries[k].0);
                    }
                }
            },
            None => {},
        }
        match position(after, other) {
            Some(i) => {
                if i < entries.len() {
                    assert(after[i].0 == entries[i].0);
                }
            },
            None => {},
        }
    }
}

/// Binding a name keeps the names distinct.
pub proof fn lemma_upsert_distinct<W>(entries: Seq<(Seq<char>, W)>, key: Seq<char>, value: W)
    requires
        distinct_keys(entries),
    ensures
        distinct_keys(upsert(entries, key, value)),
{
    lemma_position(entries, key);
}

/// Finds the first entry named `key`.
pub fn find_key<V: View>(entries: &Vec<(String, V)>, key: &String) -> (at: Option<usize>)
    ensures
        match at {
            Some(i) => i < entries.len() && position(entry_views(entries@), key@) == Some(
                i as int,
            ),
            None => position(entry_views(entries@), key@) == None::<int>,
        },
{
    let mut i: usize = 0;
    while i < entries.len()
        invariant
            i <= entries.len(),
            forall|j: int| 0 <= j < i ==> entries@[j].0@ != key@,
        decreases entries.len() - i,
    {
        if entries[i].0 == *key {
            proof {
                lemma_position(entry_views(entries@), key@);
                assert(entry_views(entries@)[i as int].0 == key@);
                assert forall|j: int| 0 <= j < i implies entry_views(entries@)[j].0 != key@ by {
                    assert(entries@[j].0@ != key@);
                }
            }
            return Some(i);
        }
        i = i + 1;
    }
    proof {
        lemma_position(entry_views(entries@), key@);
        assert forall|j: int| 0 <= j < entries.len() implies entry_views(entries@)[j].0
            != key@ by {
            assert(entries@[j].0@ != key@);
        }
    }
    None
}

/// Binds `key` to `value`: in the place of the entry named `key` if there is
/// one, else at the end.
pub fn bind<V: View>(entries: &mut Vec<(String, V)>, key: String, value: V)
    ensures
        entry_views(final(entries)@) == upsert(entry_views(old(entries)@), key@, value@),
{
    let ghost before = entry_views(entries@);
    match find_key(entries, &key) {
        Some(i) => {
            proof {
                lemma_position(before, key@);
            }
            entries.set(i, (key, value));
            proof {
                assert(entry_views(entries@) =~= before.update(i as int, (key@, value@)));
            }
        },
        None => {
            entries.push((key, value));
            proof {
                assert(entry_views(entries@) =~= before.push((key@, value@)));
            }
        },
    }
}

} // verus!

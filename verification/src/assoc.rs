//! Association lists from `String` keys to values, together with the `Map`
//! they stand for. Both the stat store and the table-valued stat kind keep
//! their entries this way.

use vstd::prelude::*;

verus! {

/// No two entries share a key.
pub open spec fn keys_unique<V>(s: Seq<(String, V)>) -> bool {
    forall|i: int, j: int| 0 <= i < j < s.len() ==> s[i].0@ != s[j].0@
}

/// Some entry carries the key `k`.
pub open spec fn has_key<V>(s: Seq<(String, V)>, k: Seq<char>) -> bool {
    exists|i: int| 0 <= i < s.len() && s[i].0@ == k
}

/// The index of the entry carrying `k`; meaningful when `has_key` holds.
pub open spec fn index_of_key<V>(s: Seq<(String, V)>, k: Seq<char>) -> int {
    choose|i: int| 0 <= i < s.len() && s[i].0@ == k
}

/// The mapping that an association list stands for. With `keys_unique` the
/// value of every key is the value of its one entry.
pub open spec fn assoc_map<V: View>(s: Seq<(String, V)>) -> Map<Seq<char>, V::V> {
    Map::new(|k: Seq<char>| has_key(s, k), |k: Seq<char>| s[index_of_key(s, k)].1@)
}

pub proof fn lemma_key_at<V: View>(s: Seq<(String, V)>, i: int)
    requires
        keys_unique(s),
        0 <= i < s.len(),
    ensures
        assoc_map(s).contains_key(s[i].0@),
        assoc_map(s)[s[i].0@] == s[i].1@,
{
    assert(has_key(s, s[i].0@));
    let j = index_of_key(s, s[i].0@);
    assert(0 <= j < s.len() && s[j].0@ == s[i].0@);
    assert(j == i);
}

pub proof fn lemma_no_key<V: View>(s: Seq<(String, V)>, k: Seq<char>)
    requires
        forall|i: int| 0 <= i < s.len() ==> s[i].0@ != k,
    ensures
        !assoc_map(s).contains_key(k),
{
}

/// Replacing the value of the entry at `i` updates the map at that entry's key.
pub proof fn lemma_assoc_update<V: View>(s: Seq<(String, V)>, i: int, p: (String, V))
    requires
        keys_unique(s),
        0 <= i < s.len(),
        p.0@ == s[i].0@,
    ensures
        keys_unique(s.update(i, p)),
        assoc_map(s.update(i, p)) =~= assoc_map(s).insert(p.0@, p.1@),
{
    let s2 = s.update(i, p);
    assert forall|k: Seq<char>| #[trigger] has_key(s2, k) implies
        assoc_map(s2).contains_key(k) && assoc_map(s).insert(p.0@, p.1@).contains_key(k) by {
        let j = choose|j: int| 0 <= j < s2.len() && s2[j].0@ == k;
        if j == i {
            assert(s[i].0@ == k);
        } else {
            assert(s[j].0@ == k);
        }
        assert(has_key(s, k));
    }
    assert forall|k: Seq<char>| #[trigger] has_key(s, k) implies has_key(s2, k) by {
        let j = choose|j: int| 0 <= j < s.len() && s[j].0@ == k;
        if j == i {
            assert(s2[j].0@ == p.0@);
        } else {
            assert(s2[j].0@ == k);
        }
    }
    assert(s2[i].0@ == p.0@);
    assert(has_key(s2, p.0@));
    assert forall|k: Seq<char>| has_key(s2, k) implies
        #[trigger] assoc_map(s2)[k] == assoc_map(s).insert(p.0@, p.1@)[k] by {
        let j = index_of_key(s2, k);
        assert(0 <= j < s2.len() && s2[j].0@ == k);
        if k == p.0@ {
            assert(j == i);
            assert(assoc_map(s2)[k] == p.1@);
        } else {
            assert(j != i);
            assert(s[j].0@ == k);
            lemma_key_at(s, j);
            let j1 = index_of_key(s, k);
            assert(j1 == j);
        }
    }
}

/// Appending an entry with a fresh key inserts that key into the map.
pub proof fn lemma_assoc_push<V: View>(s: Seq<(String, V)>, p: (String, V))
    requires
        keys_unique(s),
        forall|i: int| 0 <= i < s.len() ==> s[i].0@ != p.0@,
    ensures
        keys_unique(s.push(p)),
        assoc_map(s.push(p)) =~= assoc_map(s).insert(p.0@, p.1@),
{
    let s2 = s.push(p);
    assert forall|k: Seq<char>| #[trigger] has_key(s2, k) implies
        has_key(s, k) || k == p.0@ by {
        let j = choose|j: int| 0 <= j < s2.len() && s2[j].0@ == k;
        if j < s.len() {
            assert(s[j].0@ == k);
        }
    }
    assert forall|k: Seq<char>| #[trigger] has_key(s, k) implies has_key(s2, k) by {
        let j = choose|j: int| 0 <= j < s.len() && s[j].0@ == k;
        assert(s2[j].0@ == k);
    }
    assert(s2[s.len() as int].0@ == p.0@);
    assert(has_key(s2, p.0@));
    assert forall|k: Seq<char>| has_key(s2, k) implies
        #[trigger] assoc_map(s2)[k] == assoc_map(s).insert(p.0@, p.1@)[k] by {
        let j = index_of_key(s2, k);
        assert(0 <= j < s2.len() && s2[j].0@ == k);
        if k == p.0@ {
            assert(j == s.len());
        } else {
            assert(j < s.len());
            assert(s[j].0@ == k);
            lemma_key_at(s, j);
            let j1 = index_of_key(s, k);
            assert(j1 == j);
        }
    }
}

/// Swap-removing the entry at `i` removes that entry's key from the map.
pub proof fn lemma_assoc_swap_remove<V: View>(s: Seq<(String, V)>, i: int)
    requires
        keys_unique(s),
        0 <= i < s.len(),
    ensures
        keys_unique(s.update(i, s.last()).drop_last()),
        assoc_map(s.update(i, s.last()).drop_last()) =~= assoc_map(s).remove(s[i].0@),
{
    let s2 = s.update(i, s.last()).drop_last();
    let kr = s[i].0@;
    assert(s2.len() == s.len() - 1);
    assert forall|j: int| 0 <= j < s2.len() implies #[trigger] s2[j] ==
        (if j == i { s.last() } else { s[j] }) by {}
    assert forall|k: Seq<char>| #[trigger] has_key(s2, k) implies
        has_key(s, k) && k != kr by {
        let j = choose|j: int| 0 <= j < s2.len() && s2[j].0@ == k;
        if j == i {
            assert(s[s.len() - 1].0@ == k);
        } else {
            assert(s[j].0@ == k);
        }
    }
    assert forall|k: Seq<char>| #[trigger] has_key(s, k) && k != kr implies has_key(s2, k) by {
        let j = choose|j: int| 0 <= j < s.len() && s[j].0@ == k;
        assert(j != i);
        if j == s.len() - 1 {
            if i < s.len() - 1 {
                assert(s2[i].0@ == k);
            }
        } else {
            assert(s2[j].0@ == k);
        }
    }
    assert forall|k: Seq<char>| has_key(s2, k) implies
        #[trigger] assoc_map(s2)[k] == assoc_map(s)[k] by {
        let j = index_of_key(s2, k);
        assert(0 <= j < s2.len() && s2[j].0@ == k);
        let j1 = index_of_key(s, k);
        assert(has_key(s, k));
        assert(0 <= j1 < s.len() && s[j1].0@ == k);
        if j == i && i < s.len() - 1 {
            assert(s[s.len() - 1].0@ == k);
            assert(j1 == s.len() - 1);
            assert(s2[j].1@ == s[j1].1@);
        } else {
            assert(s[j].0@ == k);
            assert(j1 == j);
        }
    }
}

/// Finds the index of the entry carrying `key`, if any entry does.
pub fn assoc_find<V: View>(entries: &Vec<(String, V)>, key: &String) -> (r: Option<usize>)
    ensures
        match r {
            Some(i) => i < entries@.len() && entries@[i as int].0@ == key@,
            None => forall|i: int| 0 <= i < entries@.len() ==> entries@[i as int].0@ != key@,
        },
{
    let mut i: usize = 0;
    while i < entries.len()
        invariant
            i <= entries@.len(),
            forall|j: int| 0 <= j < i ==> entries@[j].0@ != key@,
        decreases entries@.len() - i,
    {
        if entries[i].0 == *key {
            return Some(i);
        }
        i = i + 1;
    }
    None
}

} // verus!

//! A store of named, typed stats for an entity/world host runtime.
//!
//! Each stat is a value of one runtime kind keyed by a stable string name.
//! The store offers five primitives — add, sub, set, remove, reset — over a
//! heterogeneous value space, together with a kind-checked read-back. The
//! first insertion binds a slot's kind; add and sub of another kind are
//! silently dropped until the slot is removed, while set may rebind it.

use vstd::prelude::*;

mod assoc;
pub mod commands;
pub mod events;
pub mod implementations;
pub mod laws;
pub mod stat_modification;
pub mod value;

use crate::assoc::{
    assoc_find, assoc_map, index_of_key, keys_unique, lemma_assoc_push, lemma_assoc_swap_remove,
    lemma_assoc_update, lemma_key_at, lemma_no_key,
};
use crate::implementations::StatKind;
use crate::value::{add_views, kind_of, sub_views, view_wf, zero_of, StatData, ValueView};

verus! {

/// The scheduling set in which queued stat modifications are applied; host
/// systems that read stats order themselves after it.
#[derive(Clone, Copy, Debug, PartialEq, Eq, Hash)]
pub enum StatSystemSets {
    ApplyModifications,
}

/// Names a stat: anything that yields a stable string identifier.
pub trait StatIdentifier {
    /// The name this identifier stands for.
    spec fn spec_identifier(&self) -> Seq<char>;

    /// Yields the stat's name; stable across calls.
    fn identifier(&self) -> (r: &'static str)
        ensures
            r@ == self.spec_identifier(),
    ;
}

impl StatIdentifier for &'static str {
    open spec fn spec_identifier(&self) -> Seq<char> {
        (*self)@
    }

    fn identifier(&self) -> (r: &'static str) {
        *self
    }
}

/// What `add` does to the store: an absent slot starts from the incoming
/// value's zero, then the value is added kind-aware.
pub open spec fn apply_add(
    m: Map<Seq<char>, ValueView>,
    id: Seq<char>,
    v: ValueView,
) -> Map<Seq<char>, ValueView> {
    if m.contains_key(id) {
        m.insert(id, add_views(m[id], v))
    } else {
        m.insert(id, add_views(zero_of(kind_of(v)), v))
    }
}

/// What `sub` does to the store, symmetric to `apply_add`.
pub open spec fn apply_sub(
    m: Map<Seq<char>, ValueView>,
    id: Seq<char>,
    v: ValueView,
) -> Map<Seq<char>, ValueView> {
    if m.contains_key(id) {
        m.insert(id, sub_views(m[id], v))
    } else {
        m.insert(id, sub_views(zero_of(kind_of(v)), v))
    }
}

/// What `set` does to the store: the slot takes the value, whatever kind the
/// slot held before.
pub open spec fn apply_set(
    m: Map<Seq<char>, ValueView>,
    id: Seq<char>,
    v: ValueView,
) -> Map<Seq<char>, ValueView> {
    m.insert(id, v)
}

/// What `remove` does to the store.
pub open spec fn apply_remove(
    m: Map<Seq<char>, ValueView>,
    id: Seq<char>,
) -> Map<Seq<char>, ValueView> {
    m.remove(id)
}

/// What `reset` does to the store: a present slot returns to its kind's
/// zero; an absent one stays absent.
pub open spec fn apply_reset(
    m: Map<Seq<char>, ValueView>,
    id: Seq<char>,
) -> Map<Seq<char>, ValueView> {
    if m.contains_key(id) {
        m.insert(id, zero_of(kind_of(m[id])))
    } else {
        m
    }
}

/// The stat store: an unordered mapping from names to owned stat values.
pub struct Stats {
    entries: Vec<(String, StatData)>,
}

impl View for Stats {
    type V = Map<Seq<char>, ValueView>;

    closed spec fn view(&self) -> Map<Seq<char>, ValueView> {
        assoc_map(self.entries@)
    }
}

impl Default for Stats {
    /// An empty stat store.
    fn default() -> (r: Self)
        ensures
            r.wf(),
            r@ == Map::<Seq<char>, ValueView>::empty(),
    {
        Stats::new()
    }
}

impl Stats {
    /// Names are unique and every stored value is well-formed.
    pub closed spec fn wf(&self) -> bool {
        &&& keys_unique(self.entries@)
        &&& forall|i: int|
            0 <= i < self.entries@.len() ==> #[trigger] self.entries@[i].1.wf()
    }

    /// Every value a well-formed store holds has a well-formed view.
    pub proof fn lemma_values_wf(&self)
        requires
            self.wf(),
        ensures
            forall|k: Seq<char>| #[trigger] self@.contains_key(k) ==> view_wf(self@[k]),
    {
        assert forall|k: Seq<char>| #[trigger] self@.contains_key(k) implies view_wf(
            self@[k],
        ) by {
            let i = index_of_key(self.entries@, k);
            assert(0 <= i < self.entries@.len() && self.entries@[i].0@ == k);
            lemma_key_at(self.entries@, i);
            let v = self.entries@[i].1;
            v.lemma_view_wf();
        }
    }

    /// Creates an empty stat store.
    pub fn new() -> (r: Stats)
        ensures
            r.wf(),
            r@ == Map::<Seq<char>, ValueView>::empty(),
    {
        let r = Stats { entries: Vec::new() };
        proof {
            assert(r@ =~= Map::<Seq<char>, ValueView>::empty());
        }
        r
    }

    /// Adds the given value onto the stat named by the raw string, creating
    /// the slot at the value's kind's zero when absent; a present slot of
    /// another kind is left untouched.
    pub fn add_to_stat_manual(&mut self, stat_id: &str, stat_data: StatData)
        requires
            old(self).wf(),
            stat_data.wf(),
        ensures
            final(self).wf(),
            final(self)@ == apply_add(old(self)@, stat_id@, stat_data@),
    {
        let key = stat_id.to_string();
        let ghost prev = self.entries@;
        match assoc_find(&self.entries, &key) {
            Some(i) => {
                proof {
                    lemma_key_at(prev, i as int);
                }
                let k2 = self.entries[i].0.clone();
                let mut cur = self.entries[i].1.clone();
                cur.add(stat_data);
                let pair = (k2, cur);
                let ghost gp = pair;
                self.entries[i] = pair;
                proof {
                    lemma_assoc_update(prev, i as int, gp);
                }
            },
            None => {
                proof {
                    lemma_no_key(prev, key@);
                }
                let mut z = stat_data.zero();
                z.add(stat_data);
                let pair = (key, z);
                let ghost gp = pair;
                self.entries.push(pair);
                proof {
                    lemma_assoc_push(prev, gp);
                }
            },
        }
    }

    /// Subtracts the given value from the stat named by the raw string,
    /// symmetric to `add_to_stat_manual`.
    pub fn sub_from_stat_manual(&mut self, stat_id: &str, stat_data: StatData)
        requires
            old(self).wf(),
            stat_data.wf(),
        ensures
            final(self).wf(),
            final(self)@ == apply_sub(old(self)@, stat_id@, stat_data@),
    {
        let key = stat_id.to_string();
        let ghost prev = self.entries@;
        match assoc_find(&self.entries, &key) {
            Some(i) => {
                proof {
                    lemma_key_at(prev, i as int);
                }
                let k2 = self.entries[i].0.clone();
                let mut cur = self.entries[i].1.clone();
                cur.sub(stat_data);
                let pair = (k2, cur);
                let ghost gp = pair;
                self.entries[i] = pair;
                proof {
                    lemma_assoc_update(prev, i as int, gp);
                }
            },
            None => {
                proof {
                    lemma_no_key(prev, key@);
                }
                let mut z = stat_data.zero();
                z.sub(stat_data);
                let pair = (key, z);
                let ghost gp = pair;
                self.entries.push(pair);
                proof {
                    lemma_assoc_push(prev, gp);
                }
            },
        }
    }

    /// Sets the stat named by the raw string to the given value, creating or
    /// rebinding the slot whatever kind it held.
    pub fn set_stat_manual(&mut self, stat_id: &str, stat_data: StatData)
        requires
            old(self).wf(),
            stat_data.wf(),
        ensures
            final(self).wf(),
            final(self)@ == apply_set(old(self)@, stat_id@, stat_data@),
    {
        let key = stat_id.to_string();
        let ghost prev = self.entries@;
        match assoc_find(&self.entries, &key) {
            Some(i) => {
                let k2 = self.entries[i].0.clone();
                let pair = (k2, stat_data);
                let ghost gp = pair;
                self.entries[i] = pair;
                proof {
                    lemma_assoc_update(prev, i as int, gp);
                }
            },
            None => {
                proof {
                    lemma_no_key(prev, key@);
                }
                let pair = (key, stat_data);
                let ghost gp = pair;
                self.entries.push(pair);
                proof {
                    lemma_assoc_push(prev, gp);
                }
            },
        }
    }

    /// Removes the stat named by the raw string together with its slot.
    pub fn remove_stat_manual(&mut self, stat_id: &str)
        requires
            old(self).wf(),
        ensures
            final(self).wf(),
            final(self)@ == apply_remove(old(self)@, stat_id@),
    {
        let key = stat_id.to_string();
        let ghost prev = self.entries@;
        match assoc_find(&self.entries, &key) {
            Some(i) => {
                self.entries.swap_remove(i);
                proof {
                    lemma_assoc_swap_remove(prev, i as int);
                    assert forall|j: int| 0 <= j < self.entries@.len() implies #[trigger] self
                        .entries@[j].1.wf() by {
                        assert(self.entries@[j] == prev.update(i as int, prev.last())[j]);
                    }
                }
            },
            None => {
                proof {
                    lemma_no_key(prev, key@);
                    assert(self@ =~= apply_remove(self@, key@));
                }
            },
        }
    }

    /// Resets the stat named by the raw string to its kind's zero if it
    /// exists; does nothing otherwise.
    pub fn reset_stat_manual(&mut self, stat_id: &str)
        requires
            old(self).wf(),
        ensures
            final(self).wf(),
            final(self)@ == apply_reset(old(self)@, stat_id@),
    {
        let key = stat_id.to_string();
        let ghost prev = self.entries@;
        match assoc_find(&self.entries, &key) {
            Some(i) => {
                proof {
                    lemma_key_at(prev, i as int);
                }
                let k2 = self.entries[i].0.clone();
                let z = self.entries[i].1.zero();
                let pair = (k2, z);
                let ghost gp = pair;
                self.entries[i] = pair;
                proof {
                    lemma_assoc_update(prev, i as int, gp);
                }
            },
            None => {
                proof {
                    lemma_no_key(prev, key@);
                }
            },
        }
    }

    /// Reads the stat named by the raw string, if present.
    pub fn get_stat_manual(&self, stat_id: &str) -> (r: Option<&StatData>)
        requires
            self.wf(),
        ensures
            match r {
                Some(v) => self@.contains_key(stat_id@) && v@ == self@[stat_id@] && v.wf(),
                None => !self@.contains_key(stat_id@),
            },
    {
        let key = stat_id.to_string();
        match assoc_find(&self.entries, &key) {
            Some(i) => {
                proof {
                    lemma_key_at(self.entries@, i as int);
                }
                Some(&self.entries[i].1)
            },
            None => {
                proof {
                    lemma_no_key(self.entries@, key@);
                }
                None
            },
        }
    }

    /// Adds the given value onto the identified stat; see
    /// `add_to_stat_manual`.
    pub fn add_to_stat(&mut self, stat_id: &impl StatIdentifier, stat_data: StatData)
        requires
            old(self).wf(),
            stat_data.wf(),
        ensures
            final(self).wf(),
            final(self)@ == apply_add(old(self)@, stat_id.spec_identifier(), stat_data@),
    {
        self.add_to_stat_manual(stat_id.identifier(), stat_data)
    }

    /// Subtracts the given value from the identified stat; see
    /// `sub_from_stat_manual`.
    pub fn sub_from_stat(&mut self, stat_id: &impl StatIdentifier, stat_data: StatData)
        requires
            old(self).wf(),
            stat_data.wf(),
        ensures
            final(self).wf(),
            final(self)@ == apply_sub(old(self)@, stat_id.spec_identifier(), stat_data@),
    {
        self.sub_from_stat_manual(stat_id.identifier(), stat_data)
    }

    /// Sets the identified stat to the given value; see `set_stat_manual`.
    pub fn set_stat(&mut self, stat_id: &impl StatIdentifier, stat_data: StatData)
        requires
            old(self).wf(),
            stat_data.wf(),
        ensures
            final(self).wf(),
            final(self)@ == apply_set(old(self)@, stat_id.spec_identifier(), stat_data@),
    {
        self.set_stat_manual(stat_id.identifier(), stat_data)
    }

    /// Removes the identified stat; see `remove_stat_manual`.
    pub fn remove_stat(&mut self, stat_id: &impl StatIdentifier)
        requires
            old(self).wf(),
        ensures
            final(self).wf(),
            final(self)@ == apply_remove(old(self)@, stat_id.spec_identifier()),
    {
        self.remove_stat_manual(stat_id.identifier())
    }

    /// Resets the identified stat to its kind's zero if it exists; see
    /// `reset_stat_manual`.
    pub fn reset_stat(&mut self, stat_id: &impl StatIdentifier)
        requires
            old(self).wf(),
        ensures
            final(self).wf(),
            final(self)@ == apply_reset(old(self)@, stat_id.spec_identifier()),
    {
        self.reset_stat_manual(stat_id.identifier())
    }

    /// Reads the identified stat, if present.
    pub fn get_stat(&self, stat_id: &impl StatIdentifier) -> (r: Option<&StatData>)
        requires
            self.wf(),
        ensures
            match r {
                Some(v) => self@.contains_key(stat_id.spec_identifier()) && v@ == self@[stat_id
                    .spec_identifier()] && v.wf(),
                None => !self@.contains_key(stat_id.spec_identifier()),
            },
    {
        self.get_stat_manual(stat_id.identifier())
    }

    /// Reads the identified stat with a kind check: some reference to the
    /// inner value exactly when the slot holds a value of kind `T`.
    pub fn get_stat_downcast<'a, T: StatKind>(
        &'a self,
        stat_id: &impl StatIdentifier,
    ) -> (r: Option<&'a T>)
        requires
            self.wf(),
        ensures
            match r {
                Some(x) => self@.contains_key(stat_id.spec_identifier()) && self@[stat_id
                    .spec_identifier()] == T::view_of(*x) && T::wf_value(*x),
                None => self@.contains_key(stat_id.spec_identifier()) ==> (forall|y: T|
                    self@[stat_id.spec_identifier()] != T::view_of(y)),
            },
    {
        match self.get_stat(stat_id) {
            Some(v) => T::project(v),
            None => None,
        }
    }
}

} // verus!

//! The modification verb: a tagged union of the five primitives, shipped as
//! one opaque value over the command and event channels, and its dispatch
//! onto a store.

use vstd::prelude::*;

use crate::implementations::StatKind;
use crate::value::{StatData, ValueView};
use crate::{apply_add, apply_remove, apply_reset, apply_set, apply_sub, Stats};

verus! {

/// A modification to apply to a stat.
pub enum ModificationType {
    /// Adds the data contained to the stat.
    Add(StatData),
    /// Subtracts the data contained from the stat.
    Sub(StatData),
    /// Removes the stat entirely.
    Remove,
    /// Resets the stat to its kind's zero, if the stat exists.
    Reset,
    /// Sets the stat to the data contained.
    SetTo(StatData),
}

/// The mathematical model of a modification verb.
pub enum ModView {
    Add(ValueView),
    Sub(ValueView),
    Remove,
    Reset,
    SetTo(ValueView),
}

impl View for ModificationType {
    type V = ModView;

    open spec fn view(&self) -> ModView {
        match self {
            ModificationType::Add(v) => ModView::Add(v@),
            ModificationType::Sub(v) => ModView::Sub(v@),
            ModificationType::Remove => ModView::Remove,
            ModificationType::Reset => ModView::Reset,
            ModificationType::SetTo(v) => ModView::SetTo(v@),
        }
    }
}

/// What one verb does to a store, by dispatch to the matching primitive.
pub open spec fn apply_mod(
    m: Map<Seq<char>, ValueView>,
    id: Seq<char>,
    verb: ModView,
) -> Map<Seq<char>, ValueView> {
    match verb {
        ModView::Add(v) => apply_add(m, id, v),
        ModView::Sub(v) => apply_sub(m, id, v),
        ModView::Remove => apply_remove(m, id),
        ModView::Reset => apply_reset(m, id),
        ModView::SetTo(v) => apply_set(m, id, v),
    }
}

impl ModificationType {
    pub open spec fn wf(&self) -> bool {
        match self {
            ModificationType::Add(v) => v.wf(),
            ModificationType::Sub(v) => v.wf(),
            ModificationType::SetTo(v) => v.wf(),
            _ => true,
        }
    }

    /// Create a new `ModificationType::Add`.
    pub fn add<T: StatKind>(stat_data: T) -> (r: Self)
        requires
            T::wf_value(stat_data),
        ensures
            r.wf(),
            r@ == ModView::Add(T::view_of(stat_data)),
    {
        Self::Add(stat_data.wrap())
    }

    /// Create a new `ModificationType::Sub`.
    pub fn sub<T: StatKind>(stat_data: T) -> (r: Self)
        requires
            T::wf_value(stat_data),
        ensures
            r.wf(),
            r@ == ModView::Sub(T::view_of(stat_data)),
    {
        Self::Sub(stat_data.wrap())
    }

    /// Create a new `ModificationType::Set`.
    pub fn set<T: StatKind>(stat_data: T) -> (r: Self)
        requires
            T::wf_value(stat_data),
        ensures
            r.wf(),
            r@ == ModView::SetTo(T::view_of(stat_data)),
    {
        Self::SetTo(stat_data.wrap())
    }

    /// Create a new `ModificationType::Remove`.
    pub fn remove() -> (r: Self)
        ensures
            r.wf(),
            r@ == ModView::Remove,
    {
        Self::Remove
    }

    /// Create a new `ModificationType::Reset`.
    pub fn reset() -> (r: Self)
        ensures
            r.wf(),
            r@ == ModView::Reset,
    {
        Self::Reset
    }
}

impl Clone for ModificationType {
    /// A deep copy carrying an equal payload.
    fn clone(&self) -> (r: Self)
        ensures
            r@ == self@,
            r.wf() == self.wf(),
    {
        match self {
            ModificationType::Add(v) => ModificationType::Add(v.clone()),
            ModificationType::Sub(v) => ModificationType::Sub(v.clone()),
            ModificationType::Remove => ModificationType::Remove,
            ModificationType::Reset => ModificationType::Reset,
            ModificationType::SetTo(v) => ModificationType::SetTo(v.clone()),
        }
    }
}

impl Stats {
    /// Applies one verb to the stat named by the raw string, dispatching to
    /// the matching primitive.
    pub fn apply_modification(&mut self, stat_id: &str, modification: ModificationType)
        requires
            old(self).wf(),
            modification.wf(),
        ensures
            final(self).wf(),
            final(self)@ == apply_mod(old(self)@, stat_id@, modification@),
    {
        match modification {
            ModificationType::Add(data) => self.add_to_stat_manual(stat_id, data),
            ModificationType::Sub(data) => self.sub_from_stat_manual(stat_id, data),
            ModificationType::Remove => self.remove_stat_manual(stat_id),
            ModificationType::Reset => self.reset_stat_manual(stat_id),
            ModificationType::SetTo(data) => self.set_stat_manual(stat_id, data),
        }
    }
}

} // verus!

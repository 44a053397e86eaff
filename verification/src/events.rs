//! The event front-end's core: a per-stat modification event and the drain
//! that applies a tick's worth of queued events to a world-global store in
//! submission order. The host's event channel and scheduling live outside;
//! they hand the drained events over as one batch.

use vstd::prelude::*;

use crate::implementations::StatKind;
use crate::stat_modification::{apply_mod, ModView, ModificationType};
use crate::value::ValueView;
use crate::{StatIdentifier, Stats};

verus! {

/// The mathematical model of one queued modification event.
pub struct ModEventView {
    pub stat_id: Seq<char>,
    pub modification: ModView,
}

/// An event that modifies one stat of a world-global store.
pub struct ModifyStat {
    stat_id: &'static str,
    modification_type: ModificationType,
}

impl View for ModifyStat {
    type V = ModEventView;

    closed spec fn view(&self) -> ModEventView {
        ModEventView { stat_id: self.stat_id@, modification: self.modification_type@ }
    }
}

impl ModifyStat {
    pub closed spec fn wf(&self) -> bool {
        self.modification_type.wf()
    }

    /// Create a new event carrying the given verb.
    pub fn new(stat_id: impl StatIdentifier, modification_type: ModificationType) -> (r: Self)
        requires
            modification_type.wf(),
        ensures
            r.wf(),
            r@.stat_id == stat_id.spec_identifier(),
            r@.modification == modification_type@,
    {
        Self { stat_id: stat_id.identifier(), modification_type }
    }

    /// Create a new add event.
    pub fn add<T: StatKind>(stat_id: impl StatIdentifier, stat_data: T) -> (r: Self)
        requires
            T::wf_value(stat_data),
        ensures
            r.wf(),
            r@.stat_id == stat_id.spec_identifier(),
            r@.modification == ModView::Add(T::view_of(stat_data)),
    {
        Self {
            stat_id: stat_id.identifier(),
            modification_type: ModificationType::add(stat_data),
        }
    }

    /// Create a new sub event.
    pub fn sub<T: StatKind>(stat_id: impl StatIdentifier, stat_data: T) -> (r: Self)
        requires
            T::wf_value(stat_data),
        ensures
            r.wf(),
            r@.stat_id == stat_id.spec_identifier(),
            r@.modification == ModView::Sub(T::view_of(stat_data)),
    {
        Self {
            stat_id: stat_id.identifier(),
            modification_type: ModificationType::sub(stat_data),
        }
    }

    /// Create a new set event.
    pub fn set<T: StatKind>(stat_id: impl StatIdentifier, stat_data: T) -> (r: Self)
        requires
            T::wf_value(stat_data),
        ensures
            r.wf(),
            r@.stat_id == stat_id.spec_identifier(),
            r@.modification == ModView::SetTo(T::view_of(stat_data)),
    {
        Self {
            stat_id: stat_id.identifier(),
            modification_type: ModificationType::set(stat_data),
        }
    }

    /// Create a new remove event.
    pub fn remove(stat_id: impl StatIdentifier) -> (r: Self)
        ensures
            r.wf(),
            r@.stat_id == stat_id.spec_identifier(),
            r@.modification == ModView::Remove,
    {
        Self { stat_id: stat_id.identifier(), modification_type: ModificationType::remove() }
    }

    /// Create a new reset event.
    pub fn reset(stat_id: impl StatIdentifier) -> (r: Self)
        ensures
            r.wf(),
            r@.stat_id == stat_id.spec_identifier(),
            r@.modification == ModView::Reset,
    {
        Self { stat_id: stat_id.identifier(), modification_type: ModificationType::reset() }
    }
}

impl Clone for ModifyStat {
    /// A deep copy naming the same stat and carrying an equal verb.
    fn clone(&self) -> (r: Self)
        ensures
            r@ == self@,
            r.wf() == self.wf(),
    {
        ModifyStat { stat_id: self.stat_id, modification_type: self.modification_type.clone() }
    }
}

/// What a batch of events does to a store: the events apply first to last,
/// each exactly once.
pub open spec fn apply_events(
    m: Map<Seq<char>, ValueView>,
    evs: Seq<ModEventView>,
) -> Map<Seq<char>, ValueView>
    decreases evs.len(),
{
    if evs.len() == 0 {
        m
    } else {
        apply_events(apply_mod(m, evs[0].stat_id, evs[0].modification), evs.drop_first())
    }
}

/// Drains one tick's worth of queued events into the store, applying them
/// in submission order.
pub fn handle_stat_modifications(stats: &mut Stats, events: Vec<ModifyStat>)
    requires
        old(stats).wf(),
        forall|i: int| 0 <= i < events@.len() ==> #[trigger] events@[i].wf(),
    ensures
        final(stats).wf(),
        final(stats)@ == apply_events(
            old(stats)@,
            events@.map_values(|e: ModifyStat| e@),
        ),
    {
    let ghost evs = events@.map_values(|e: ModifyStat| e@);
    proof {
        assert(evs.skip(0) =~= evs);
    }
    let mut i: usize = 0;
    while i < events.len()
        invariant
            i <= events@.len(),
            stats.wf(),
            forall|j: int| 0 <= j < events@.len() ==> #[trigger] events@[j].wf(),
            evs == events@.map_values(|e: ModifyStat| e@),
            apply_events(old(stats)@, evs) == apply_events(stats@, evs.skip(i as int)),
        decreases events@.len() - i,
    {
        let e = &events[i];
        proof {
            assert(events@[i as int].wf());
        }
        let m = e.modification_type.clone();
        let ghost before = stats@;
        stats.apply_modification(e.stat_id, m);
        proof {
            assert(evs.skip(i as int)[0] == evs[i as int]);
            assert(evs.skip(i as int).drop_first() =~= evs.skip(i + 1));
            assert(apply_events(before, evs.skip(i as int)) == apply_events(
                stats@,
                evs.skip(i + 1),
            ));
        }
        i = i + 1;
    }
    proof {
        assert(evs.skip(evs.len() as int) =~= Seq::<ModEventView>::empty());
    }
}

} // verus!

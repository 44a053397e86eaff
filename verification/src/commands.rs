//! The command front-end's core: the flush-time semantics of one deferred,
//! entity-targeted modification. The host queues closures and hands over, at
//! its flush boundary, the targeted entity's store when the entity is alive
//! and carries one — `None` stands for a target that is gone, and such a
//! command is dropped without effect.

use vstd::prelude::*;

use crate::stat_modification::{apply_mod, ModificationType};
use crate::{StatIdentifier, Stats};

verus! {

/// Applies one queued modification at the host's flush boundary. A missing
/// target (despawned entity, or an entity without the stat component) drops
/// the command silently: nothing is created, nothing revives.
pub fn modify_entity_stat(
    target: &mut Option<Stats>,
    stat_id: &impl StatIdentifier,
    modification: ModificationType,
)
    requires
        old(target).is_some() ==> old(target).unwrap().wf(),
        modification.wf(),
    ensures
        old(target).is_none() ==> final(target).is_none(),
        old(target).is_some() ==> {
            &&& final(target).is_some()
            &&& final(target).unwrap().wf()
            &&& final(target).unwrap()@ == apply_mod(
                old(target).unwrap()@,
                stat_id.spec_identifier(),
                modification@,
            )
        },
{
    let t = target.take();
    match t {
        Some(mut stats) => {
            stats.apply_modification(stat_id.identifier(), modification);
            *target = Some(stats);
        },
        None => {},
    }
}

} // verus!

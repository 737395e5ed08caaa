use vstd::prelude::*;
use crate::registry::{status_set, TowerList};
use crate::tower::{TowerId, TowerStatus};

verus! {

/// Sets the status of a registered tower; an unknown tower, or one that
/// already has that status, is left as it is.
pub fn set_tower_status(map: &mut TowerList, tower_id: &TowerId, status: TowerStatus)
    requires
        old(map).wf(),
    ensures
        final(map).wf(),
        final(map)@ == status_set(old(map)@, tower_id@, status),
{
    map.set_status(tower_id, status);
}

} // verus!

use vstd::prelude::*;
use crate::filestore::{get_towerlist, FilestoreError, UserInfo};
use crate::identity::derive_user_id;
use crate::keys::public_key_of;
use crate::registry::TowerList;
use crate::tower::{TowerId, TowerInfo, UserId};
use crate::Error;

verus! {

/// The client's state: its identity and the registry of towers.
pub struct WatchtowerMonitor {
    pub towers: TowerList,
    pub user_sk: UserInfo,
    /// The user identifier.
    pub user_id: UserId,
}

impl WatchtowerMonitor {
    pub open spec fn wf(&self) -> bool {
        self.towers.wf()
    }

    /// The client state for a loaded identity and a loaded tower
    /// collection; a collection that was never stored is empty.
    pub fn new(user_sk: UserInfo, towers: Result<TowerList, FilestoreError>) -> (r: Result<
        WatchtowerMonitor,
        FilestoreError,
    >)
        requires
            towers matches Ok(l) ==> l.wf(),
        ensures
            match towers {
                Ok(l) => r matches Ok(m) && m.wf() && m.user_sk@ == user_sk@ && m.user_id@
                    == public_key_of(user_sk@) && m.towers@ == l@,
                Err(FilestoreError::IOError(crate::filestore::IoKind::NotFound)) => r matches Ok(m)
                    && m.wf() && m.user_sk@ == user_sk@ && m.user_id@ == public_key_of(user_sk@)
                    && m.towers@ == Map::<
                    Seq<u8>,
                    TowerInfo,
                >::empty(),
                Err(e) => r == Err::<WatchtowerMonitor, FilestoreError>(e),
            },
    {
        let towers = get_towerlist(towers)?;
        let user_id = derive_user_id(&user_sk);
        Ok(WatchtowerMonitor { towers, user_sk, user_id })
    }

    /// Makes a record that has been persisted authoritative in memory; if
    /// persisting failed, nothing changes.
    pub fn commit_tower(
        &mut self,
        tower_id: TowerId,
        tower_info: TowerInfo,
        persisted: Result<(), FilestoreError>,
    ) -> (r: Result<(), Error>)
        requires
            old(self).wf(),
        ensures
            final(self).wf(),
            final(self).user_sk == old(self).user_sk,
            final(self).user_id == old(self).user_id,
            match persisted {
                Ok(_) => r is Ok && final(self).towers@ == old(self).towers@.insert(
                    tower_id@,
                    tower_info,
                ),
                Err(_) => r == Err::<(), Error>(Error::StorageError) && final(self).towers@ == old(
                    self,
                ).towers@,
            },
    {
        match persisted {
            Ok(()) => {
                self.towers.upsert(tower_id, tower_info);
                Ok(())
            },
            Err(_) => Err(Error::StorageError),
        }
    }
}

} // verus!

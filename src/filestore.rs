use vstd::prelude::*;
use crate::bytes::copy_bytes;
use crate::keys::{check_secret_key, is_secret_key, random_secret_key, SECRET_KEY_LEN};
use crate::registry::TowerList;
use crate::tower::{TowerId, TowerInfo};

verus! {

/// Namespace pair and keys under which the client's state is stored.
pub const PRIMARY_NAMESPACE: &'static str = "watchtower";

pub const SECONDARY_NAMESPACE: &'static str = "version";

pub const USER_KEY: &'static str = "userkey";

pub const TOWERLIST_KEY: &'static str = "towerlistkey";

/// Why a storage read or write failed.
#[derive(Debug, Clone, Copy, PartialEq, Eq, Structural)]
pub enum IoKind {
    /// Nothing is stored under the key.
    NotFound,
    /// Any other failure of the storage engine.
    Other,
}

#[derive(Debug, Clone, Copy, PartialEq, Eq, Structural)]
pub enum FilestoreError {
    EncodingIssue,
    DecodingIssue,
    MissingForeignKey,
    MissingField,
    NotFound,
    TowerNotFound,
    UserNotFound,
    TowerlistNotFound,
    IOError(IoKind),
}

/// The user's secret signing key.
#[derive(Debug)]
pub struct UserInfo(Vec<u8>);

impl View for UserInfo {
    type V = Seq<u8>;

    open spec fn view(&self) -> Seq<u8> {
        self.secret_bytes()
    }
}

impl UserInfo {
    pub closed spec fn secret_bytes(&self) -> Seq<u8> {
        self.0@
    }

    /// Every secret key held is valid.
    #[verifier::type_invariant]
    pub open spec fn wf(self) -> bool {
        is_secret_key(self@) && self@.len() == SECRET_KEY_LEN
    }

    /// The secret key that `b` encodes, if it encodes one.
    pub fn from_bytes(b: Vec<u8>) -> (r: Option<UserInfo>)
        ensures
            match r {
                Some(u) => is_secret_key(b@) && u@ == b@,
                None => !is_secret_key(b@),
            },
    {
        if check_secret_key(b.as_slice()) {
            Some(UserInfo(b))
        } else {
            None
        }
    }

    /// A fresh random secret key.
    pub fn generate() -> (r: UserInfo)
        ensures
            r.wf(),
    {
        UserInfo(random_secret_key())
    }

    /// The 32 bytes of the key.
    pub fn as_bytes(&self) -> (r: &[u8])
        ensures
            r@ == self@,
    {
        self.0.as_slice()
    }

    pub fn duplicate(&self) -> (r: UserInfo)
        ensures
            r@ == self@,
    {
        proof {
            use_type_invariant(self);
        }
        UserInfo(copy_bytes(self.0.as_slice()))
    }
}

impl PartialEq for UserInfo {
    fn eq(&self, other: &UserInfo) -> (r: bool) {
        crate::bytes::bytes_equal(self.0.as_slice(), other.0.as_slice())
    }
}

impl vstd::std_specs::cmp::PartialEqSpecImpl for UserInfo {
    open spec fn obeys_eq_spec() -> bool {
        true
    }

    open spec fn eq_spec(&self, other: &UserInfo) -> bool {
        self@ == other@
    }
}

impl Eq for UserInfo {
}

/// The stored form of the user's secret key: its 32 bytes.
pub fn write_user_details(user_info: &UserInfo) -> (r: Vec<u8>)
    ensures
        r@ == user_info@,
        r@.len() == SECRET_KEY_LEN,
{
    proof {
        use_type_invariant(user_info);
    }
    copy_bytes(user_info.as_bytes())
}

/// The user's secret key from what a read of the identity slot returned.
pub fn get_user_details(read: Result<Vec<u8>, IoKind>) -> (r: Result<UserInfo, FilestoreError>)
    ensures
        match read {
            Ok(b) => if is_secret_key(b@) {
                r matches Ok(u) && u@ == b@
            } else {
                r == Err::<UserInfo, FilestoreError>(FilestoreError::DecodingIssue)
            },
            Err(k) => r == Err::<UserInfo, FilestoreError>(FilestoreError::IOError(k)),
        },
{
    match read {
        Ok(b) => match UserInfo::from_bytes(b) {
            Some(u) => Ok(u),
            None => Err(FilestoreError::DecodingIssue),
        },
        Err(k) => Err(FilestoreError::IOError(k)),
    }
}

/// What a load of the tower collection means to the registry: a collection
/// that was never written is an empty one.
pub fn get_towerlist(loaded: Result<TowerList, FilestoreError>) -> (r: Result<
    TowerList,
    FilestoreError,
>)
    requires
        loaded matches Ok(l) ==> l.wf(),
    ensures
        match loaded {
            Ok(l) => r matches Ok(m) && m@ == l@ && m.wf(),
            Err(FilestoreError::IOError(IoKind::NotFound)) => r matches Ok(m) && m@
                == Map::<Seq<u8>, TowerInfo>::empty() && m.wf(),
            Err(e) => r == Err::<TowerList, FilestoreError>(e),
        },
{
    match loaded {
        Ok(l) => Ok(l),
        Err(FilestoreError::IOError(IoKind::NotFound)) => Ok(TowerList::new()),
        Err(e) => Err(e),
    }
}

/// The record of `tower_id` in a loaded tower collection; a collection that
/// was never stored holds no tower.
pub fn get_tower(loaded: Result<TowerList, FilestoreError>, tower_id: &TowerId) -> (r: Result<
    TowerInfo,
    FilestoreError,
>)
    requires
        loaded matches Ok(l) ==> l.wf(),
    ensures
        match loaded {
            Ok(l) => if l@.contains_key(tower_id@) {
                r == Ok::<TowerInfo, FilestoreError>(l@[tower_id@])
            } else {
                r == Err::<TowerInfo, FilestoreError>(FilestoreError::TowerNotFound)
            },
            Err(FilestoreError::IOError(IoKind::NotFound)) => r == Err::<TowerInfo, FilestoreError>(
                FilestoreError::TowerNotFound,
            ),
            Err(e) => r == Err::<TowerInfo, FilestoreError>(e),
        },
{
    let towers = get_towerlist(loaded)?;
    match towers.get(tower_id) {
        Some(t) => Ok(t),
        None => Err(FilestoreError::TowerNotFound),
    }
}

/// The collection to write back when storing the record of `tower_id`: the
/// loaded collection (empty if none was stored) with that record inserted.
/// Any load failure other than "not found" is passed on.
pub fn write_tower(
    loaded: Result<TowerList, FilestoreError>,
    tower_id: TowerId,
    tower_info: TowerInfo,
) -> (r: Result<TowerList, FilestoreError>)
    requires
        loaded matches Ok(l) ==> l.wf(),
    ensures
        match loaded {
            Ok(l) => r matches Ok(m) && m.wf() && m@ == l@.insert(tower_id@, tower_info),
            Err(FilestoreError::IOError(IoKind::NotFound)) => r matches Ok(m) && m.wf() && m@
                == Map::<Seq<u8>, TowerInfo>::empty().insert(tower_id@, tower_info),
            Err(e) => r == Err::<TowerList, FilestoreError>(e),
        },
{
    let mut towers = get_towerlist(loaded)?;
    towers.upsert(tower_id, tower_info);
    Ok(towers)
}

} // verus!

use vstd::prelude::*;
use crate::bytes::{bytes_equal, copy_bytes};
use crate::keys::{check_public_key, is_public_key, PUBLIC_KEY_LEN};

verus! {

/// Identifier of a tower: the compressed encoding of the tower's public key.
#[derive(Debug, Clone)]
pub struct TowerId(pub Vec<u8>);

/// Identifier of the local user: the compressed encoding of the user's
/// public key.
#[derive(Debug, Clone)]
pub struct UserId(pub Vec<u8>);

impl View for TowerId {
    type V = Seq<u8>;

    open spec fn view(&self) -> Seq<u8> {
        self.0@
    }
}

impl View for UserId {
    type V = Seq<u8>;

    open spec fn view(&self) -> Seq<u8> {
        self.0@
    }
}

/// Whether `b` is the compressed encoding of a public key.
pub open spec fn is_key_encoding(b: Seq<u8>) -> bool {
    b.len() == PUBLIC_KEY_LEN && is_public_key(b)
}

/// What decoding an identifier from `b` yields.
pub open spec fn key_encoding_decoded(b: Seq<u8>) -> Option<Seq<u8>> {
    if is_key_encoding(b) {
        Some(b)
    } else {
        None
    }
}

impl TowerId {
    pub open spec fn wf(&self) -> bool {
        is_key_encoding(self@)
    }

    /// Decodes an identifier from its byte encoding.
    pub fn from_slice(b: &[u8]) -> (r: Option<TowerId>)
        ensures
            match r {
                Some(id) => key_encoding_decoded(b@) == Some(id@),
                None => key_encoding_decoded(b@).is_none(),
            },
    {
        if b.len() == PUBLIC_KEY_LEN && check_public_key(b) {
            Some(TowerId(copy_bytes(b)))
        } else {
            None
        }
    }

    /// The byte encoding of the identifier.
    pub fn to_vec(&self) -> (r: Vec<u8>)
        ensures
            r@ == self@,
    {
        copy_bytes(self.0.as_slice())
    }

    pub fn same(&self, other: &TowerId) -> (r: bool)
        ensures
            r == (self@ == other@),
    {
        bytes_equal(self.0.as_slice(), other.0.as_slice())
    }

    pub fn duplicate(&self) -> (r: TowerId)
        ensures
            r@ == self@,
    {
        TowerId(copy_bytes(self.0.as_slice()))
    }
}

impl UserId {
    pub open spec fn wf(&self) -> bool {
        is_key_encoding(self@)
    }

    /// Decodes an identifier from its byte encoding.
    pub fn from_slice(b: &[u8]) -> (r: Option<UserId>)
        ensures
            match r {
                Some(id) => key_encoding_decoded(b@) == Some(id@),
                None => key_encoding_decoded(b@).is_none(),
            },
    {
        if b.len() == PUBLIC_KEY_LEN && check_public_key(b) {
            Some(UserId(copy_bytes(b)))
        } else {
            None
        }
    }

    /// The byte encoding of the identifier.
    pub fn to_vec(&self) -> (r: Vec<u8>)
        ensures
            r@ == self@,
    {
        copy_bytes(self.0.as_slice())
    }
}

impl PartialEq for TowerId {
    fn eq(&self, other: &TowerId) -> (r: bool) {
        self.same(other)
    }
}

impl vstd::std_specs::cmp::PartialEqSpecImpl for TowerId {
    open spec fn obeys_eq_spec() -> bool {
        true
    }

    open spec fn eq_spec(&self, other: &TowerId) -> bool {
        self@ == other@
    }
}

impl Eq for TowerId {
}

impl PartialEq for UserId {
    fn eq(&self, other: &UserId) -> (r: bool) {
        bytes_equal(self.0.as_slice(), other.0.as_slice())
    }
}

impl vstd::std_specs::cmp::PartialEqSpecImpl for UserId {
    open spec fn obeys_eq_spec() -> bool {
        true
    }

    open spec fn eq_spec(&self, other: &UserId) -> bool {
        self@ == other@
    }
}

impl Eq for UserId {
}

/// Health of a tower as seen by this client.
#[derive(Debug, Clone, Copy, PartialEq, Eq, Structural)]
pub enum TowerStatus {
    Reachable,
    TemporaryUnreachable,
    SubscriptionError,
    Unreachable,
}

/// Subscription terms and health of one tower.
#[derive(Debug, Clone)]
pub struct TowerInfo {
    pub net_addr: String,
    pub available_slots: u32,
    pub subscription_start: u32,
    pub subscription_expiry: u32,
    pub status: TowerStatus,
}

impl TowerInfo {
    pub fn duplicate(&self) -> (r: TowerInfo)
        ensures
            r == *self,
    {
        TowerInfo {
            net_addr: self.net_addr.clone(),
            available_slots: self.available_slots,
            subscription_start: self.subscription_start,
            subscription_expiry: self.subscription_expiry,
            status: self.status,
        }
    }

    /// The same record with its status replaced.
    pub open spec fn with_status(self, status: TowerStatus) -> TowerInfo {
        TowerInfo { status, ..self }
    }

    /// The same record with new slots, marked reachable.
    pub open spec fn with_slots(self, slots: u32) -> TowerInfo {
        TowerInfo { available_slots: slots, status: TowerStatus::Reachable, ..self }
    }
}

impl PartialEq for TowerInfo {
    fn eq(&self, other: &TowerInfo) -> (r: bool) {
        self.net_addr == other.net_addr && self.available_slots == other.available_slots
            && self.subscription_start == other.subscription_start
            && self.subscription_expiry == other.subscription_expiry && self.status
            == other.status
    }
}

impl vstd::std_specs::cmp::PartialEqSpecImpl for TowerInfo {
    open spec fn obeys_eq_spec() -> bool {
        true
    }

    open spec fn eq_spec(&self, other: &TowerInfo) -> bool {
        self.net_addr@ == other.net_addr@ && self.available_slots == other.available_slots
            && self.subscription_start == other.subscription_start
            && self.subscription_expiry == other.subscription_expiry && self.status
            == other.status
    }
}

impl Eq for TowerInfo {
}

} // verus!

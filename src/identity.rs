use vstd::prelude::*;
use crate::bytes::copy_bytes;
use crate::filestore::{get_user_details, IoKind, UserInfo};
use crate::keys::{derive_public_key, is_secret_key, public_key_of};
use crate::tower::UserId;

verus! {

/// Why the user identity could not be loaded or created.
#[derive(Debug, Clone, Copy, PartialEq, Eq, Structural)]
pub enum IdentityError {
    /// The identity slot holds bytes that are not a secret key.
    DecodingIssue,
    /// The storage engine failed to read or to persist the identity.
    StorageError(IoKind),
}

/// The identity that a stored secret key gives: the key and the user
/// identifier derived from it, or nothing if the bytes are not a key.
pub open spec fn identity_from_stored(b: Seq<u8>) -> Option<(Seq<u8>, Seq<u8>)> {
    if is_secret_key(b) {
        Some((b, public_key_of(b)))
    } else {
        None
    }
}

/// The user identity, and whether it was loaded or has just been minted.
#[derive(Debug)]
pub enum IdentityPlan {
    /// Read back from storage: nothing needs to be written.
    Loaded { user_sk: UserInfo, user_id: UserId },
    /// Minted on this run: it must be persisted before it is used.
    Created { user_sk: UserInfo, user_id: UserId },
}

impl IdentityPlan {
    pub open spec fn key(&self) -> Seq<u8> {
        match self {
            IdentityPlan::Loaded { user_sk, .. } => user_sk@,
            IdentityPlan::Created { user_sk, .. } => user_sk@,
        }
    }

    pub open spec fn id(&self) -> Seq<u8> {
        match self {
            IdentityPlan::Loaded { user_id, .. } => user_id@,
            IdentityPlan::Created { user_id, .. } => user_id@,
        }
    }

    /// The bytes to write to the identity slot, if the identity is new.
    pub fn to_persist(&self) -> (r: Option<Vec<u8>>)
        ensures
            match self {
                IdentityPlan::Loaded { .. } => r.is_none(),
                IdentityPlan::Created { user_sk, .. } => r matches Some(b) && b@ == user_sk@,
            },
    {
        match self {
            IdentityPlan::Loaded { .. } => None,
            IdentityPlan::Created { user_sk, .. } => Some(copy_bytes(user_sk.as_bytes())),
        }
    }
}

/// The user identifier of a secret key.
pub fn derive_user_id(user_sk: &UserInfo) -> (r: UserId)
    ensures
        r@ == public_key_of(user_sk@),
        r.wf(),
{
    proof {
        use_type_invariant(user_sk);
    }
    UserId(derive_public_key(user_sk.as_bytes()))
}

/// Decides the user identity from what a read of the identity slot
/// returned: a stored key is decoded and kept; when nothing is stored a
/// fresh random key is minted, which the caller must persist; any other
/// read failure is reported.
pub fn load_or_create(read: Result<Vec<u8>, IoKind>) -> (r: Result<IdentityPlan, IdentityError>)
    ensures
        match read {
            Ok(b) => match identity_from_stored(b@) {
                Some(pair) => r matches Ok(p) && p is Loaded && p.key() == pair.0 && p.id()
                    == pair.1,
                None => r == Err::<IdentityPlan, IdentityError>(IdentityError::DecodingIssue),
            },
            Err(IoKind::NotFound) => r matches Ok(p) && p is Created && is_secret_key(p.key())
                && p.id() == public_key_of(p.key()),
            Err(k) => r == Err::<IdentityPlan, IdentityError>(IdentityError::StorageError(k)),
        },
{
    match read {
        Ok(b) => match get_user_details(Ok(b)) {
            Ok(user_sk) => {
                let user_id = derive_user_id(&user_sk);
                Ok(IdentityPlan::Loaded { user_sk, user_id })
            },
            Err(_) => Err(IdentityError::DecodingIssue),
        },
        Err(IoKind::NotFound) => {
            let user_sk = UserInfo::generate();
            let user_id = derive_user_id(&user_sk);
            Ok(IdentityPlan::Created { user_sk, user_id })
        },
        Err(k) => Err(IdentityError::StorageError(k)),
    }
}

/// The identity to use once the plan has been carried out: a new identity
/// is only handed out if writing it succeeded.
pub fn finish_identity(plan: IdentityPlan, persisted: Result<(), IoKind>) -> (r: Result<
    (UserInfo, UserId),
    IdentityError,
>)
    ensures
        match plan {
            IdentityPlan::Loaded { .. } => r matches Ok(p) && p.0@ == plan.key() && p.1@
                == plan.id(),
            IdentityPlan::Created { .. } => match persisted {
                Ok(_) => r matches Ok(p) && p.0@ == plan.key() && p.1@ == plan.id(),
                Err(k) => r == Err::<(UserInfo, UserId), IdentityError>(
                    IdentityError::StorageError(k),
                ),
            },
        },
{
    match plan {
        IdentityPlan::Loaded { user_sk, user_id } => Ok((user_sk, user_id)),
        IdentityPlan::Created { user_sk, user_id } => match persisted {
            Ok(()) => Ok((user_sk, user_id)),
            Err(k) => Err(IdentityError::StorageError(k)),
        },
    }
}

/// Once a minted identity has been persisted, reading the identity slot
/// back yields that same key and identifier: a later load never mints again.
pub proof fn lemma_reload_keeps_identity(first: IdentityPlan)
    requires
        first is Created,
        is_secret_key(first.key()),
        first.id() == public_key_of(first.key()),
    ensures
        identity_from_stored(first.key()) == Some((first.key(), first.id())),
{
}

/// A stored secret key decodes to itself and to the identifier derived from
/// it, and that identifier decodes unchanged from its own encoding.
pub proof fn lemma_user_id_round_trip(sk: Seq<u8>, id: UserId)
    requires
        is_secret_key(sk),
        id@ == public_key_of(sk),
        id.wf(),
    ensures
        identity_from_stored(sk) == Some((sk, id@)),
        crate::tower::key_encoding_decoded(id@) == Some(id@),
{
}

} // verus!

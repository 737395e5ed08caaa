use vstd::prelude::*;
use vstd::utf8::encode_utf8;
use crate::bytes::{be32, copy_bytes, push_all, push_be32};
use crate::keys::{recover_signer, recovered_key};
use crate::tower::{TowerId, UserId};

verus! {

/// Length of a commitment transaction id.
pub const TXID_LEN: usize = 32;

/// Length of an appointment locator.
pub const LOCATOR_LEN: usize = 16;

/// The relative timelock that every appointment carries.
pub const TO_SELF_DELAY: u32 = 42;

/// The bytes a tower signs to grant a subscription.
pub open spec fn registration_message(user_id: Seq<u8>, slots: u32, start: u32, expiry: u32) -> Seq<
    u8,
> {
    user_id + be32(slots) + be32(start) + be32(expiry)
}

/// The bytes a tower signs to accept an appointment.
pub open spec fn appointment_receipt_message(user_signature: Seq<char>, start_block: u32) -> Seq<u8> {
    encode_utf8(user_signature) + be32(start_block)
}

/// The bytes the user signs to submit an appointment.
pub open spec fn appointment_message(locator: Seq<u8>, blob: Seq<u8>, to_self_delay: u32) -> Seq<u8> {
    locator + blob + be32(to_self_delay)
}

/// The locator of a commitment transaction: the first half of its id.
pub open spec fn locator_of(txid: Seq<u8>) -> Seq<u8> {
    txid.subrange(0, LOCATOR_LEN as int)
}

/// Whether a signature over `msg` recovers to the key `id`.
pub open spec fn signed_by(msg: Seq<u8>, sig: Seq<char>, id: Seq<u8>) -> bool {
    recovered_key(msg, sig) == Some(id)
}

/// Whether `sig` over `msg` was made by the tower `tower_id`.
pub fn signature_recovers_to(msg: &[u8], sig: &str, tower_id: &TowerId) -> (r: bool)
    ensures
        r == signed_by(msg@, sig@, tower_id@),
{
    match recover_signer(msg, sig) {
        Some(k) => crate::bytes::bytes_equal(k.as_slice(), tower_id.0.as_slice()),
        None => false,
    }
}

/// Subscription terms granted by a tower, with the tower's signature.
#[derive(Debug)]
pub struct RegistrationReceipt {
    pub user_id: UserId,
    pub available_slots: u32,
    pub subscription_start: u32,
    pub subscription_expiry: u32,
    pub signature: String,
}

impl RegistrationReceipt {
    pub open spec fn message(&self) -> Seq<u8> {
        registration_message(
            self.user_id@,
            self.available_slots,
            self.subscription_start,
            self.subscription_expiry,
        )
    }

    /// The signed bytes of the receipt.
    pub fn to_vec(&self) -> (r: Vec<u8>)
        ensures
            r@ == self.message(),
    {
        let mut r = copy_bytes(self.user_id.0.as_slice());
        push_be32(&mut r, self.available_slots);
        push_be32(&mut r, self.subscription_start);
        push_be32(&mut r, self.subscription_expiry);
        r
    }

    /// Whether the receipt's signature recovers to `tower_id`.
    pub fn verify(&self, tower_id: &TowerId) -> (r: bool)
        ensures
            r == signed_by(self.message(), self.signature@, tower_id@),
    {
        let msg = self.to_vec();
        signature_recovers_to(msg.as_slice(), self.signature.as_str(), tower_id)
    }
}

/// A tower's acceptance of an appointment.
#[derive(Debug)]
pub struct AppointmentReceipt {
    pub user_signature: String,
    pub start_block: u32,
    pub signature: String,
}

impl AppointmentReceipt {
    pub open spec fn message(&self) -> Seq<u8> {
        appointment_receipt_message(self.user_signature@, self.start_block)
    }

    /// The signed bytes of the receipt.
    pub fn to_vec(&self) -> (r: Vec<u8>)
        ensures
            r@ == self.message(),
    {
        let mut r: Vec<u8> = Vec::new();
        push_all(&mut r, self.user_signature.as_str().as_bytes());
        push_be32(&mut r, self.start_block);
        assert(r@ =~= self.message());
        r
    }

    /// Whether the receipt's signature recovers to `tower_id`.
    pub fn verify(&self, tower_id: &TowerId) -> (r: bool)
        ensures
            r == signed_by(self.message(), self.signature@, tower_id@),
    {
        let msg = self.to_vec();
        signature_recovers_to(msg.as_slice(), self.signature.as_str(), tower_id)
    }
}

/// An encrypted justice transaction addressed by its locator.
#[derive(Debug)]
pub struct Appointment {
    pub locator: Vec<u8>,
    pub encrypted_blob: Vec<u8>,
    pub to_self_delay: u32,
}

impl Appointment {
    pub open spec fn message(&self) -> Seq<u8> {
        appointment_message(self.locator@, self.encrypted_blob@, self.to_self_delay)
    }

    /// The appointment for the commitment transaction `txid`, carrying its
    /// encrypted justice transaction.
    pub fn new(txid: &[u8], encrypted_blob: &[u8]) -> (r: Appointment)
        requires
            txid@.len() == TXID_LEN,
        ensures
            r.locator@ == locator_of(txid@),
            r.encrypted_blob@ == encrypted_blob@,
            r.to_self_delay == TO_SELF_DELAY,
    {
        let mut locator: Vec<u8> = Vec::new();
        let mut i: usize = 0;
        while i < LOCATOR_LEN
            invariant
                txid@.len() == TXID_LEN,
                0 <= i <= LOCATOR_LEN,
                locator@ == txid@.subrange(0, i as int),
            decreases LOCATOR_LEN - i,
        {
            locator.push(txid[i]);
            i = i + 1;
            assert(locator@ =~= txid@.subrange(0, i as int));
        }
        Appointment {
            locator,
            encrypted_blob: copy_bytes(encrypted_blob),
            to_self_delay: TO_SELF_DELAY,
        }
    }

    /// The bytes the user signs.
    pub fn to_vec(&self) -> (r: Vec<u8>)
        ensures
            r@ == self.message(),
    {
        let mut r = copy_bytes(self.locator.as_slice());
        push_all(&mut r, self.encrypted_blob.as_slice());
        push_be32(&mut r, self.to_self_delay);
        r
    }

    pub fn duplicate(&self) -> (r: Appointment)
        ensures
            r.locator@ == self.locator@,
            r.encrypted_blob@ == self.encrypted_blob@,
            r.to_self_delay == self.to_self_delay,
    {
        Appointment {
            locator: copy_bytes(self.locator.as_slice()),
            encrypted_blob: copy_bytes(self.encrypted_blob.as_slice()),
            to_self_delay: self.to_self_delay,
        }
    }
}

} // verus!

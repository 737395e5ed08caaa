use vstd::prelude::*;
use bitcoin::secp256k1::{PublicKey, Secp256k1, SecretKey};
use lightning::util::message_signing;
use bitcoin::hashes::sha256;
use chacha20poly1305::aead::{Aead, KeyInit};
use chacha20poly1305::{ChaCha20Poly1305, Key, Nonce};

verus! {

/// The order of the secp256k1 group.
pub open spec fn curve_order() -> int {
    (0xFFFFFFFFFFFFFFFFFFFFFFFFFFFFFFFE * 0x1_0000_0000_0000_0000 * 0x1_0000_0000_0000_0000
        + 0xBAAEDCE6AF48A03BBFD25E8CD0364141) as int
}

/// The integer that `b` encodes, most significant byte first.
pub open spec fn be_value(b: Seq<u8>) -> int
    decreases b.len(),
{
    if b.len() == 0 {
        0
    } else {
        be_value(b.drop_last()) * 256 + b.last() as int
    }
}

/// Whether `b` encodes a secp256k1 secret key: 32 bytes holding a nonzero
/// integer below the group order.
pub open spec fn is_secret_key(b: Seq<u8>) -> bool {
    b.len() == SECRET_KEY_LEN && 0 < be_value(b) < curve_order()
}

/// The compressed encoding of the public key of the secret key `sk`.
pub uninterp spec fn public_key_of(sk: Seq<u8>) -> Seq<u8>;

/// The zbase32 recoverable signature of `msg` under the secret key `sk`.
pub uninterp spec fn signature_of(msg: Seq<u8>, sk: Seq<u8>) -> Seq<char>;

/// The compressed encoding of the public key that `sig` over `msg` recovers
/// to, if `sig` is a well-formed recoverable signature.
pub uninterp spec fn recovered_key(msg: Seq<u8>, sig: Seq<char>) -> Option<Seq<u8>>;

/// Whether `b` parses as a secp256k1 public key.
pub uninterp spec fn is_public_key(b: Seq<u8>) -> bool;

/// The ChaCha20-Poly1305 encryption of `plain` under the SHA-256 hash of
/// `txid`, with the all-zero nonce, tag appended.
pub uninterp spec fn encrypted_of(plain: Seq<u8>, txid: Seq<u8>) -> Seq<u8>;

/// Largest plaintext the cipher accepts, plus one: 2^32 - 1 blocks of 64 bytes.
pub const CIPHER_LIMIT: u64 = 274877906880;

/// Length of a secp256k1 secret key.
pub const SECRET_KEY_LEN: usize = 32;

/// Length of a compressed secp256k1 public key.
pub const PUBLIC_KEY_LEN: usize = 33;

/// Relies on `secp256k1::SecretKey::from_slice`: accepts exactly the 32-byte
/// slices that `secp256k1_ec_seckey_verify` finds nonzero and below the group
/// order.
#[verifier::external_body]
pub(crate) fn check_secret_key(b: &[u8]) -> (r: bool)
    ensures
        r == is_secret_key(b@),
{
    SecretKey::from_slice(b).is_ok()
}

/// Relies on `secp256k1::PublicKey::from_secret_key` and `PublicKey::serialize`:
/// the compressed public key, 33 bytes, determined by the secret key alone.
#[verifier::external_body]
pub(crate) fn derive_public_key(sk: &[u8]) -> (r: Vec<u8>)
    requires
        is_secret_key(sk@),
    ensures
        r@ == public_key_of(sk@),
        r@.len() == PUBLIC_KEY_LEN,
        is_public_key(r@),
{
    let key = SecretKey::from_slice(sk).unwrap();
    PublicKey::from_secret_key(&Secp256k1::new(), &key).serialize().to_vec()
}

/// Relies on `secp256k1::PublicKey::from_slice`: whether the bytes encode a
/// point of the curve.
#[verifier::external_body]
pub(crate) fn check_public_key(b: &[u8]) -> (r: bool)
    ensures
        r == is_public_key(b@),
{
    PublicKey::from_slice(b).is_ok()
}

/// Relies on `sha256::Hash::hash` for the key and on
/// `ChaCha20Poly1305::encrypt` with the default (all-zero) nonce, which only
/// fails on plaintexts of `CIPHER_LIMIT` bytes or more and appends a 16-byte tag.
#[verifier::external_body]
pub(crate) fn encrypt_justice(plain: &[u8], txid: &[u8]) -> (r: Vec<u8>)
    requires
        plain@.len() < CIPHER_LIMIT,
    ensures
        r@ == encrypted_of(plain@, txid@),
        r@.len() == plain@.len() + 16,
{
    let key = <sha256::Hash as bitcoin::hashes::Hash>::hash(txid);
    let cypher = ChaCha20Poly1305::new(Key::from_slice(<sha256::Hash as bitcoin::hashes::Hash>::as_byte_array(&key)));
    cypher.encrypt(&Nonce::default(), plain).unwrap()
}

/// Relies on `secp256k1::SecretKey::new` over the thread-local random number
/// generator: every key it returns is valid.
#[verifier::external_body]
pub(crate) fn random_secret_key() -> (r: Vec<u8>)
    ensures
        is_secret_key(r@),
{
    SecretKey::new(&mut bitcoin::secp256k1::rand::thread_rng()).secret_bytes().to_vec()
}

/// Relies on `lightning::util::message_signing::sign`: a deterministic
/// (RFC 6979) recoverable signature of `msg`, zbase32-encoded.
#[verifier::external_body]
pub(crate) fn sign_message(msg: &[u8], sk: &[u8]) -> (r: String)
    requires
        is_secret_key(sk@),
    ensures
        r@ == signature_of(msg@, sk@),
{
    let key = SecretKey::from_slice(sk).unwrap();
    message_signing::sign(msg, &key)
}

/// Relies on `lightning::util::message_signing::recover_pk`: the signer's
/// public key in compressed form, or nothing when `sig` does not decode.
#[verifier::external_body]
pub(crate) fn recover_signer(msg: &[u8], sig: &str) -> (r: Option<Vec<u8>>)
    ensures
        match r {
            Some(k) => recovered_key(msg@, sig@) == Some(k@) && k@.len() == PUBLIC_KEY_LEN,
            None => recovered_key(msg@, sig@).is_none(),
        },
{
    match message_signing::recover_pk(msg, sig) {
        Ok(pk) => Some(pk.serialize().to_vec()),
        Err(_) => None,
    }
}

} // verus!

use bitcoin::hashes::sha256;
use bitcoin::secp256k1::{PublicKey, Secp256k1, SecretKey};
use chacha20poly1305::aead::{Aead, KeyInit};
use chacha20poly1305::{ChaCha20Poly1305, Key, Nonce};
use lightning::util::message_signing;

use ldk_watchtower::bytes::push_be32;
use ldk_watchtower::dispatch::DeliveryOutcome;
use ldk_watchtower::filestore::{get_towerlist, FilestoreError, IoKind, UserInfo};
use ldk_watchtower::identity::{derive_user_id, finish_identity, load_or_create, IdentityError, IdentityPlan};
use ldk_watchtower::monitor::WatchtowerMonitor;
use ldk_watchtower::net::http::{
    add_update_appointment, AddAppointmentError, AddAppointmentResponse, ApiError, ApiResponse,
    RegisterResponse, RequestError,
};
use ldk_watchtower::receipts::{Appointment, RegistrationReceipt, TO_SELF_DELAY};
use ldk_watchtower::registration::normalize_host;
use ldk_watchtower::registry::TowerList;
use ldk_watchtower::tower::{TowerId, TowerInfo, TowerStatus, UserId};
use ldk_watchtower::{Error, RevokeableOutputData};

fn encrypt(plain: &[u8], txid: &[u8]) -> Vec<u8> {
    let key = <sha256::Hash as bitcoin::hashes::Hash>::hash(txid);
    let cypher = ChaCha20Poly1305::new(Key::from_slice(<sha256::Hash as bitcoin::hashes::Hash>::as_byte_array(&key)));
    cypher.encrypt(&Nonce::default(), plain).unwrap()
}

fn tower_key(seed: u8) -> (SecretKey, TowerId) {
    let sk = SecretKey::from_slice(&[seed; 32]).unwrap();
    let pk = PublicKey::from_secret_key(&Secp256k1::new(), &sk);
    (sk, TowerId(pk.serialize().to_vec()))
}

fn registration_bytes(user_id: &UserId, slots: u32, start: u32, expiry: u32) -> Vec<u8> {
    let mut msg = user_id.to_vec();
    msg.extend_from_slice(&slots.to_be_bytes());
    msg.extend_from_slice(&start.to_be_bytes());
    msg.extend_from_slice(&expiry.to_be_bytes());
    msg
}

fn register_response(signer: &SecretKey, user_id: &UserId, slots: u32, start: u32, expiry: u32) -> RegisterResponse {
    let msg = registration_bytes(user_id, slots, start, expiry);
    RegisterResponse {
        available_slots: slots,
        subscription_start: start,
        subscription_expiry: expiry,
        subscription_signature: message_signing::sign(&msg, signer),
    }
}

fn monitor() -> WatchtowerMonitor {
    let user = UserInfo::from_bytes(vec![11u8; 32]).unwrap();
    WatchtowerMonitor::new(user, Err(FilestoreError::IOError(IoKind::NotFound))).unwrap()
}

fn registered(m: &mut WatchtowerMonitor, seed: u8, slots: u32, expiry: u32) -> TowerId {
    let (sk, id) = tower_key(seed);
    let user_id = m.user_id.clone();
    let resp = register_response(&sk, &user_id, slots, 100, expiry);
    let info = m.register_client("tower.example", &id, &user_id, Ok(resp)).unwrap();
    m.commit_tower(id.clone(), info, Ok(())).unwrap();
    id
}

#[test]
fn first_run_creates_then_reloads_same_identity() {
    let plan = load_or_create(Err(IoKind::NotFound)).unwrap();
    assert!(matches!(plan, IdentityPlan::Created { .. }));
    let stored = plan.to_persist().unwrap();
    let (i1, u1) = finish_identity(plan, Ok(())).unwrap();
    assert_eq!(stored, i1.as_bytes().to_vec());

    let again = load_or_create(Ok(stored.clone())).unwrap();
    assert!(matches!(again, IdentityPlan::Loaded { .. }));
    assert!(again.to_persist().is_none());
    let (i2, u2) = finish_identity(again, Err(IoKind::Other)).unwrap();
    assert_eq!(i1, i2);
    assert_eq!(u1, u2);

    let towers = get_towerlist(Err(FilestoreError::IOError(IoKind::NotFound))).unwrap();
    assert_eq!(towers.len(), 0);
}

#[test]
fn new_identity_is_refused_when_not_persisted() {
    let plan = load_or_create(Err(IoKind::NotFound)).unwrap();
    assert_eq!(finish_identity(plan, Err(IoKind::Other)).unwrap_err(), IdentityError::StorageError(IoKind::Other));
}

#[test]
fn corrupt_or_unreadable_identity_is_reported() {
    assert_eq!(load_or_create(Ok(vec![1, 2, 3])).unwrap_err(), IdentityError::DecodingIssue);
    assert_eq!(load_or_create(Err(IoKind::Other)).unwrap_err(), IdentityError::StorageError(IoKind::Other));
}

#[test]
fn user_id_is_the_public_key_of_the_secret() {
    let sk = SecretKey::from_slice(&[11u8; 32]).unwrap();
    let expected = PublicKey::from_secret_key(&Secp256k1::new(), &sk).serialize().to_vec();
    let user = UserInfo::from_bytes(vec![11u8; 32]).unwrap();
    let id = derive_user_id(&user);
    assert_eq!(id.to_vec(), expected);
    assert_eq!(derive_user_id(&user), id);
    assert_eq!(UserId::from_slice(&id.to_vec()).unwrap(), id);
    assert_eq!(monitor().user_id, id);
}

#[test]
fn host_without_scheme_gets_default_prefix() {
    assert_eq!(normalize_host("example.com"), "http://example.com");
    assert_eq!(normalize_host("http://example.com"), "http://example.com");
    assert_eq!(normalize_host("https://example.com"), "https://example.com");
    assert_eq!(normalize_host("ftp+x.y-z://host"), "ftp+x.y-z://host");
    assert_eq!(normalize_host("localhost:9814"), "http://localhost:9814");
    assert_eq!(normalize_host("://host"), "http://://host");
    assert_eq!(normalize_host("1a://host"), "http://1a://host");
    assert_eq!(normalize_host("a b://host"), "http://a b://host");
    assert_eq!(normalize_host("http:/x"), "http://http:/x");
    assert_eq!(normalize_host(""), "http://");
}

#[test]
fn registering_stores_prefixed_address() {
    let mut m = monitor();
    let (sk, id) = tower_key(21);
    let user_id = m.user_id.clone();
    let resp = register_response(&sk, &user_id, 50, 100, 2000);
    let info = m.register_client("example.com", &id, &user_id, Ok(resp)).unwrap();
    assert_eq!(info.net_addr, "http://example.com");
    assert_eq!(info.available_slots, 50);
    assert_eq!(info.subscription_start, 100);
    assert_eq!(info.subscription_expiry, 2000);
    assert_eq!(info.status, TowerStatus::Reachable);
    assert!(!m.towers.contains(&id));
    m.commit_tower(id.clone(), info.clone(), Ok(())).unwrap();
    assert_eq!(m.towers.get(&id), Some(info));
}

#[test]
fn failed_persist_leaves_registry_unchanged() {
    let mut m = monitor();
    let (_, id) = tower_key(22);
    let info = TowerInfo {
        net_addr: "http://a".to_string(),
        available_slots: 1,
        subscription_start: 1,
        subscription_expiry: 2,
        status: TowerStatus::Reachable,
    };
    let r = m.commit_tower(id.clone(), info, Err(FilestoreError::IOError(IoKind::Other)));
    assert_eq!(r, Err(Error::StorageError));
    assert_eq!(m.towers.len(), 0);
}

#[test]
fn receipt_from_another_key_is_rejected() {
    let mut m = monitor();
    let (_, id) = tower_key(23);
    let (impostor, _) = tower_key(24);
    let user_id = m.user_id.clone();
    let resp = register_response(&impostor, &user_id, 50, 100, 2000);
    let r = m.register_client("example.com", &id, &user_id, Ok(resp));
    assert!(matches!(r, Err(Error::InvalidReceipt(_))));
    assert_eq!(m.towers.len(), 0);
}

#[test]
fn receipt_for_other_terms_is_rejected() {
    let mut m = monitor();
    let (sk, id) = tower_key(23);
    let user_id = m.user_id.clone();
    let mut resp = register_response(&sk, &user_id, 50, 100, 2000);
    resp.available_slots = 5000;
    let r = m.register_client("example.com", &id, &user_id, Ok(resp));
    assert!(matches!(r, Err(Error::InvalidReceipt(_))));
}

#[test]
fn renewal_with_lower_expiry_is_rejected() {
    let mut m = monitor();
    let id = registered(&mut m, 31, 100, 1000);
    let (sk, _) = tower_key(31);
    let user_id = m.user_id.clone();
    let r = m.register_client("tower.example", &id, &user_id, Ok(register_response(&sk, &user_id, 500, 100, 900)));
    assert_eq!(r, Err(Error::SubscriptionExpiryError));
    assert_eq!(m.towers.get(&id).unwrap().subscription_expiry, 1000);
}

#[test]
fn renewal_with_same_terms_is_rejected() {
    let mut m = monitor();
    let id = registered(&mut m, 32, 100, 1000);
    let (sk, _) = tower_key(32);
    let user_id = m.user_id.clone();
    let r = m.register_client("tower.example", &id, &user_id, Ok(register_response(&sk, &user_id, 100, 100, 1000)));
    assert_eq!(r, Err(Error::SubscriptionSlotError));
    let r = m.register_client("tower.example", &id, &user_id, Ok(register_response(&sk, &user_id, 90, 100, 1000)));
    assert_eq!(r, Err(Error::SubscriptionSlotError));
    assert_eq!(m.towers.get(&id).unwrap().available_slots, 100);
}

#[test]
fn renewal_with_same_expiry_and_more_slots_is_accepted() {
    let mut m = monitor();
    let id = registered(&mut m, 33, 100, 1000);
    let (sk, _) = tower_key(33);
    let user_id = m.user_id.clone();
    let r = m.register_client("tower.example", &id, &user_id, Ok(register_response(&sk, &user_id, 150, 100, 1000)));
    assert_eq!(r.unwrap().available_slots, 150);
}

#[test]
fn renewal_with_later_expiry_is_accepted_whatever_the_slots() {
    let mut m = monitor();
    let id = registered(&mut m, 34, 100, 1000);
    let (sk, _) = tower_key(34);
    let user_id = m.user_id.clone();
    let r = m.register_client("tower.example", &id, &user_id, Ok(register_response(&sk, &user_id, 1, 100, 1001)));
    let info = r.unwrap();
    assert_eq!(info.available_slots, 1);
    assert_eq!(info.subscription_expiry, 1001);
}

#[test]
fn connection_failure_marks_known_tower() {
    let mut m = monitor();
    let id = registered(&mut m, 35, 100, 1000);
    let user_id = m.user_id.clone();
    let r = m.register_client("tower.example", &id, &user_id, Err(RequestError::ConnectionError("refused".to_string())));
    assert_eq!(r, Err(Error::RequestError));
    assert_eq!(m.towers.get(&id).unwrap().status, TowerStatus::TemporaryUnreachable);
    let (_, unknown) = tower_key(36);
    let r = m.register_client("x", &unknown, &user_id, Err(RequestError::ConnectionError("refused".to_string())));
    assert_eq!(r, Err(Error::RequestError));
    assert_eq!(m.towers.len(), 1);
}

#[test]
fn other_request_failure_leaves_status() {
    let mut m = monitor();
    let id = registered(&mut m, 37, 100, 1000);
    let user_id = m.user_id.clone();
    let r = m.register_client("tower.example", &id, &user_id, Err(RequestError::DeserializeError("bad".to_string())));
    assert_eq!(r, Err(Error::RequestError));
    assert_eq!(m.towers.get(&id).unwrap().status, TowerStatus::Reachable);
}

#[test]
fn is_connection_tells_variants_apart() {
    assert!(RequestError::ConnectionError(String::new()).is_connection());
    assert!(!RequestError::DeserializeError(String::new()).is_connection());
    assert!(!RequestError::Unexpected(String::new()).is_connection());
}

#[test]
fn registration_receipt_bytes() {
    let receipt = RegistrationReceipt {
        user_id: UserId(vec![2u8; 33]),
        available_slots: 0x0102_0304,
        subscription_start: 5,
        subscription_expiry: 0xFFFF_FFFF,
        signature: String::new(),
    };
    let mut expected = vec![2u8; 33];
    expected.extend_from_slice(&[1, 2, 3, 4, 0, 0, 0, 5, 255, 255, 255, 255]);
    assert_eq!(receipt.to_vec(), expected);
}

#[test]
fn be32_encoding() {
    let mut out = vec![9u8];
    push_be32(&mut out, 0x0A0B_0C0D);
    assert_eq!(out, vec![9, 10, 11, 12, 13]);
}

#[test]
fn appointment_layout() {
    let txid: Vec<u8> = (0u8..32).collect();
    let a = Appointment::new(&txid, &[0xAA, 0xBB]);
    assert_eq!(a.locator, (0u8..16).collect::<Vec<u8>>());
    assert_eq!(a.to_self_delay, TO_SELF_DELAY);
    assert_eq!(TO_SELF_DELAY, 42);
    let mut expected: Vec<u8> = (0u8..16).collect();
    expected.extend_from_slice(&[0xAA, 0xBB, 0, 0, 0, 42]);
    assert_eq!(a.to_vec(), expected);
}

fn appointment_answer(signer: &SecretKey, user_signature: &str, start_block: u32, slots: u32) -> AddAppointmentResponse {
    let mut msg = user_signature.as_bytes().to_vec();
    msg.extend_from_slice(&start_block.to_be_bytes());
    AddAppointmentResponse {
        locator: vec![0; 16],
        start_block,
        signature: message_signing::sign(&msg, signer),
        available_slots: slots,
        subscription_expiry: 5000,
    }
}

#[test]
fn dispatch_signs_one_appointment_per_tower() {
    let mut m = monitor();
    let a = registered(&mut m, 41, 10, 1000);
    let b = registered(&mut m, 42, 10, 1000);
    let out = RevokeableOutputData { commitment_txid: vec![7u8; 32], justice_transaction: vec![1, 2, 3] };
    let deliveries = m.add_update_appointment(&out);
    assert_eq!(deliveries.len(), 2);
    assert!(deliveries.iter().any(|d| d.tower_id == a));
    assert!(deliveries.iter().any(|d| d.tower_id == b));
    let user_pk = PublicKey::from_slice(&m.user_id.to_vec()).unwrap();
    for d in &deliveries {
        assert_eq!(d.net_addr, "http://tower.example");
        assert_eq!(d.appointment.locator, vec![7u8; 16]);
        assert_eq!(d.appointment.encrypted_blob, encrypt(&[1, 2, 3], &[7u8; 32]));
        assert_eq!(d.appointment.encrypted_blob.len(), 3 + 16);
        let signer = message_signing::recover_pk(&d.appointment.to_vec(), &d.signature).unwrap();
        assert_eq!(signer, user_pk);
    }
    let plans = m.on_channel_event(&vec![out, RevokeableOutputData { commitment_txid: vec![8u8; 32], justice_transaction: vec![] }]);
    assert_eq!(plans.len(), 2);
    assert_eq!(plans[1].len(), 2);
    assert_eq!(plans[1][0].appointment.locator, vec![8u8; 16]);
}

#[test]
fn dispatch_with_no_towers_plans_nothing() {
    let m = monitor();
    let out = RevokeableOutputData { commitment_txid: vec![7u8; 32], justice_transaction: vec![1] };
    assert!(m.add_update_appointment(&out).is_empty());
}

#[test]
fn appointment_answer_checks() {
    let (sk, id) = tower_key(51);
    let (other, _) = tower_key(52);
    let good = add_update_appointment(&id, "usersig", Ok(ApiResponse::Response(appointment_answer(&sk, "usersig", 77, 9))));
    let (slots, receipt) = good.unwrap();
    assert_eq!(slots, 9);
    assert_eq!(receipt.start_block, 77);
    assert_eq!(receipt.user_signature, "usersig");
    let bad = add_update_appointment(&id, "usersig", Ok(ApiResponse::Response(appointment_answer(&other, "usersig", 77, 9))));
    assert!(matches!(bad, Err(AddAppointmentError::SignatureError)));
    let garbled = AddAppointmentResponse { signature: "not a signature".to_string(), ..appointment_answer(&sk, "usersig", 77, 9) };
    let bad = add_update_appointment(&id, "usersig", Ok(ApiResponse::Response(garbled)));
    assert!(matches!(bad, Err(AddAppointmentError::SignatureError)));
    let api = add_update_appointment(&id, "usersig", Ok(ApiResponse::Error(ApiError { error: "no".to_string(), error_code: 3 })));
    assert!(matches!(api, Err(AddAppointmentError::ApiError(e)) if e.error_code == 3));
    let unreachable = add_update_appointment(&id, "usersig", Err(AddAppointmentError::RequestError(RequestError::ConnectionError("x".to_string()))));
    assert!(matches!(unreachable, Err(AddAppointmentError::RequestError(RequestError::ConnectionError(_)))));
}

#[test]
fn dispatch_outcomes_are_isolated() {
    let mut m = monitor();
    let a = registered(&mut m, 61, 10, 1000);
    let b = registered(&mut m, 62, 10, 1000);
    let (ska, _) = tower_key(61);
    let ok = add_update_appointment(&a, "sig", Ok(ApiResponse::Response(appointment_answer(&ska, "sig", 5, 9))));
    let failed = add_update_appointment(&b, "sig", Err(AddAppointmentError::RequestError(RequestError::ConnectionError("down".to_string()))));
    let out = RevokeableOutputData { commitment_txid: vec![3u8; 32], justice_transaction: vec![4; 10] };
    let deliveries = m.add_update_appointment(&out);
    assert_eq!(deliveries.len(), 2);
    let (mut ok, mut failed) = (Some(ok), Some(failed));
    let answers: Vec<_> = deliveries
        .iter()
        .map(|d| if d.tower_id == a { ok.take().unwrap() } else { failed.take().unwrap() })
        .collect();
    let report = m.apply_delivery_outcomes(&deliveries, answers);
    assert_eq!(report.len(), 2);
    for (id, outcome) in &report {
        if *id == a {
            assert_eq!(*outcome, DeliveryOutcome::Delivered { available_slots: 9 });
        } else {
            assert_eq!(*id, b);
            assert_eq!(*outcome, DeliveryOutcome::Unreachable);
        }
    }
    let ta = m.towers.get(&a).unwrap();
    assert_eq!(ta.available_slots, 9);
    assert_eq!(ta.status, TowerStatus::Reachable);
    let tb = m.towers.get(&b).unwrap();
    assert_eq!(tb.available_slots, 10);
    assert_eq!(tb.status, TowerStatus::TemporaryUnreachable);
}

#[test]
fn rejected_delivery_leaves_tower_untouched() {
    let mut m = monitor();
    let a = registered(&mut m, 63, 10, 1000);
    let out = RevokeableOutputData { commitment_txid: vec![3u8; 32], justice_transaction: vec![4; 10] };
    let deliveries = m.add_update_appointment(&out);
    let report = m.apply_delivery_outcomes(&deliveries, vec![Err(AddAppointmentError::SignatureError)]);
    assert_eq!(report[0].0, a);
    assert_eq!(report[0].1, DeliveryOutcome::Rejected);
    let t = m.towers.get(&a).unwrap();
    assert_eq!(t.available_slots, 10);
    assert_eq!(t.status, TowerStatus::Reachable);
}

#[test]
fn monitor_keeps_loaded_towers_and_refuses_corrupt_ones() {
    let mut list = TowerList::new();
    let (_, id) = tower_key(70);
    list.upsert(id.clone(), TowerInfo {
        net_addr: "http://t".to_string(),
        available_slots: 3,
        subscription_start: 1,
        subscription_expiry: 9,
        status: TowerStatus::Reachable,
    });
    let user = UserInfo::from_bytes(vec![11u8; 32]).unwrap();
    let m = WatchtowerMonitor::new(user, Ok(list)).unwrap();
    assert!(m.towers.contains(&id));
    let user = UserInfo::from_bytes(vec![11u8; 32]).unwrap();
    assert!(matches!(WatchtowerMonitor::new(user, Err(FilestoreError::DecodingIssue)), Err(FilestoreError::DecodingIssue)));
}

#[test]
fn send_failures_are_classified() {
    assert!(ldk_watchtower::net::http::request_failure(true, false).is_connection());
    assert!(ldk_watchtower::net::http::request_failure(false, true).is_connection());
    assert!(matches!(ldk_watchtower::net::http::request_failure(false, false), RequestError::Unexpected(_)));
}

#[test]
fn justice_payload_decrypts_with_txid_key() {
    let m = monitor();
    let mut m = m;
    registered(&mut m, 71, 10, 1000);
    let txid = vec![9u8; 32];
    let plain = vec![0xde, 0xad, 0xbe, 0xef];
    let out = RevokeableOutputData { commitment_txid: txid.clone(), justice_transaction: plain.clone() };
    let deliveries = m.add_update_appointment(&out);
    let blob = &deliveries[0].appointment.encrypted_blob;
    assert_ne!(&blob[..4], &plain[..]);
    let key = <sha256::Hash as bitcoin::hashes::Hash>::hash(&txid);
    let cypher = ChaCha20Poly1305::new(Key::from_slice(<sha256::Hash as bitcoin::hashes::Hash>::as_byte_array(&key)));
    assert_eq!(cypher.decrypt(&Nonce::default(), blob.as_slice()).unwrap(), plain);
}

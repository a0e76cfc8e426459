use attestations::error::AttestationsError;
use attestations::handshake::handshake_make_nonce;
use attestations::handshake::recv_handshake;
use attestations::handshake::Handshake;
use attestations::handshake::HandshakeInput;
use attestations::handshake::handshake_commit_nonce;
use attestations::nonce::confirm_remote_response;
use attestations::nonce::create_nonce;
use attestations::nonce::fulfill_nonce;
use attestations::nonce::new_nonce;
use attestations::nonce::recv_fulfillment;
use attestations::nonce::CreateNonceInput;
use attestations::nonce::FulfillNonceInput;
use attestations::nonce::FulfillNonceWire;
use attestations::nonce::RemoteResponse;
use attestations::entries::Attestation;
use attestations::entries::Nonce;
use attestations::store::Store;
use attestations::types::AgentKey;
use attestations::types::RecordMeta;
use attestations::types::SignatureCheck;

fn key(b: u8) -> AgentKey {
    AgentKey { bytes: vec![b; 39] }
}

fn meta(t: u64) -> RecordMeta {
    RecordMeta { timestamp: t, signature: vec![0xEE, t as u8] }
}

#[test]
fn nonce_id_is_read_big_endian_from_drawn_bytes() {
    let n = new_nonce(
        CreateNonceInput { with: key(2), note: b"note".to_vec() },
        &vec![0, 0, 1, 4],
    );
    assert_eq!(n.id, 260);
    assert_eq!(n.note, b"note".to_vec());
    assert_eq!(n.with.bytes, key(2).bytes);
}

#[test]
fn fulfillment_round_trip_is_accepted() {
    let mut dht = Store::new();
    let alice = key(1);
    let bob = key(2);
    // Alice, anticipating contact from Bob, issues a nonce bound to him.
    let mut alice_nonces: Vec<Nonce> = Vec::new();
    let id = create_nonce(
        &mut alice_nonces,
        CreateNonceInput { with: bob.clone(), note: b"expecting bob".to_vec() },
        &vec![0, 0, 0, 42],
    );
    assert_eq!(id, 42);
    // Bob, told the identifier out of band, fulfills toward Alice.
    let wire = fulfill_nonce(
        &mut dht,
        &bob,
        &FulfillNonceInput { with: alice.clone(), nonce: 42 },
        meta(7),
    );
    assert_eq!(wire.nonce, b"42".to_vec());
    assert_eq!(wire.action.author.bytes, bob.bytes);
    // Alice receives the claim from the authenticated caller Bob.
    let r = recv_fulfillment(&alice, &bob, &wire, &alice_nonces, SignatureCheck::Confirmed);
    let received = r.unwrap();
    assert_eq!(received.nonce, b"42".to_vec());
    assert_eq!(received.from.bytes, bob.bytes);
}

#[test]
fn wrong_nonce_value_is_unknown() {
    let mut dht = Store::new();
    let alice = key(1);
    let bob = key(2);
    let mut alice_nonces: Vec<Nonce> = Vec::new();
    create_nonce(
        &mut alice_nonces,
        CreateNonceInput { with: bob.clone(), note: vec![] },
        &vec![0, 0, 0, 42],
    );
    let wire = fulfill_nonce(
        &mut dht,
        &bob,
        &FulfillNonceInput { with: alice.clone(), nonce: 42 },
        meta(7),
    );
    let tampered = FulfillNonceWire { action: wire.action.clone(), nonce: b"43".to_vec() };
    assert!(matches!(
        recv_fulfillment(&alice, &bob, &tampered, &alice_nonces, SignatureCheck::Confirmed),
        Err(AttestationsError::UnknownNonce)
    ));
}

#[test]
fn uninvolved_caller_is_unknown() {
    let mut dht = Store::new();
    let alice = key(1);
    let bob = key(2);
    let carol = key(3);
    let mut alice_nonces: Vec<Nonce> = Vec::new();
    create_nonce(
        &mut alice_nonces,
        CreateNonceInput { with: bob.clone(), note: vec![] },
        &vec![0, 0, 0, 42],
    );
    let wire = fulfill_nonce(
        &mut dht,
        &bob,
        &FulfillNonceInput { with: alice.clone(), nonce: 42 },
        meta(7),
    );
    // Carol relays Bob's wire message, but the nonce was not issued for her.
    assert!(matches!(
        recv_fulfillment(&alice, &carol, &wire, &alice_nonces, SignatureCheck::Confirmed),
        Err(AttestationsError::UnknownNonce)
    ));
}

#[test]
fn denied_signature_rejects_fulfillment() {
    let mut dht = Store::new();
    let alice = key(1);
    let bob = key(2);
    let mut alice_nonces: Vec<Nonce> = Vec::new();
    create_nonce(
        &mut alice_nonces,
        CreateNonceInput { with: bob.clone(), note: vec![] },
        &vec![0, 0, 0, 42],
    );
    let wire = fulfill_nonce(
        &mut dht,
        &bob,
        &FulfillNonceInput { with: alice.clone(), nonce: 42 },
        meta(7),
    );
    assert!(matches!(
        recv_fulfillment(&alice, &bob, &wire, &alice_nonces, SignatureCheck::Denied),
        Err(AttestationsError::BadSignature)
    ));
}

#[test]
fn record_for_another_content_is_a_mismatch() {
    let mut dht = Store::new();
    let alice = key(1);
    let bob = key(2);
    let mut alice_nonces: Vec<Nonce> = Vec::new();
    create_nonce(
        &mut alice_nonces,
        CreateNonceInput { with: bob.clone(), note: vec![] },
        &vec![0, 0, 0, 42],
    );
    // Bob fulfills a different identifier and then claims 42 with that record.
    let wire_for_7 = fulfill_nonce(
        &mut dht,
        &bob,
        &FulfillNonceInput { with: alice.clone(), nonce: 7 },
        meta(7),
    );
    let forged = FulfillNonceWire { action: wire_for_7.action.clone(), nonce: b"42".to_vec() };
    assert!(matches!(
        recv_fulfillment(&alice, &bob, &forged, &alice_nonces, SignatureCheck::Confirmed),
        Err(AttestationsError::ContentMismatch)
    ));
}

#[test]
fn preexisting_record_is_shipped_first() {
    let mut dht = Store::new();
    let alice = key(1);
    let bob = key(2);
    let carol = key(3);
    // Carol already published the identical fulfillment attestation.
    let early = Attestation { content: b"42".to_vec(), about: alice.clone() };
    attestations::attestation::create_attestation(&mut dht, &carol, &early, meta(1));
    // Bob's fulfillment re-queries and ships the earliest record: Carol's.
    let wire = fulfill_nonce(
        &mut dht,
        &bob,
        &FulfillNonceInput { with: alice.clone(), nonce: 42 },
        meta(9),
    );
    assert_eq!(wire.action.author.bytes, carol.bytes);
}

#[test]
fn legacy_handshake_round_trip_is_accepted() {
    let mut dht = Store::new();
    let alice = key(1);
    let bob = key(2);
    let mut alice_nonces: Vec<attestations::handshake::Nonce> = Vec::new();
    let id = handshake_make_nonce(&mut alice_nonces, bob.clone(), &vec![0, 0, 0, 99]);
    assert_eq!(id, 99);
    let wire = handshake_commit_nonce(
        &mut dht,
        &bob,
        &HandshakeInput { to: alice.clone(), nonce: 99 },
        meta(5),
    );
    assert_eq!(wire.nonce, b"99".to_vec());
    let r = recv_handshake(&alice, &bob, &wire, &alice_nonces, SignatureCheck::Confirmed);
    let received = r.unwrap();
    assert_eq!(received.nonce, b"99".to_vec());
    assert_eq!(received.from.bytes, bob.bytes);
}

#[test]
fn legacy_handshake_unknown_nonce() {
    let alice = key(1);
    let bob = key(2);
    let alice_nonces: Vec<attestations::handshake::Nonce> = Vec::new();
    let wire = Handshake {
        header: attestations::types::SignedRecord {
            author: bob.clone(),
            timestamp: 1,
            entry_hash: None,
            signature: vec![1],
        },
        nonce: b"5".to_vec(),
    };
    assert!(matches!(
        recv_handshake(&alice, &bob, &wire, &alice_nonces, SignatureCheck::Confirmed),
        Err(AttestationsError::UnknownNonce)
    ));
}

#[test]
fn remote_response_confirmation() {
    assert_eq!(confirm_remote_response(&RemoteResponse::Acknowledged), Ok(()));
    assert_eq!(
        confirm_remote_response(&RemoteResponse::Failed),
        Err(AttestationsError::RemoteCallFailed)
    );
}

use attestations::attestation::verify;
use attestations::attestation::Verifiable;
use attestations::codec::hash_attestation;
use attestations::entries::Attestation;
use attestations::error::AttestationsError;
use attestations::types::AgentKey;
use attestations::types::SignatureCheck;
use attestations::types::SignedRecord;

fn key(b: u8) -> AgentKey {
    AgentKey { bytes: vec![b; 39] }
}

fn record_for(att: &Attestation, author: &AgentKey, t: u64) -> SignedRecord {
    SignedRecord {
        author: author.clone(),
        timestamp: t,
        entry_hash: Some(hash_attestation(att)),
        signature: vec![0xC0, t as u8],
    }
}

#[test]
fn sound_bundle_verifies() {
    let alice = key(1);
    let bob = key(2);
    let att = Attestation { content: b"good standing".to_vec(), about: bob.clone() };
    let records = vec![record_for(&att, &alice, 1), record_for(&att, &bob, 2)];
    let v = Verifiable { attestation: Some(att), signed_actions: records };
    let checks = vec![SignatureCheck::Confirmed, SignatureCheck::Confirmed];
    assert_eq!(verify(&v, &checks), Ok(()));
}

#[test]
fn mutated_content_fails_verification() {
    let alice = key(1);
    let bob = key(2);
    let att = Attestation { content: b"good standing".to_vec(), about: bob.clone() };
    let records = vec![record_for(&att, &alice, 1)];
    // claim the same record under content with a single byte changed
    let mutated = Attestation { content: b"good standinh".to_vec(), about: bob.clone() };
    let v = Verifiable { attestation: Some(mutated), signed_actions: records };
    let checks = vec![SignatureCheck::Confirmed];
    assert_eq!(verify(&v, &checks), Err(AttestationsError::ContentMismatch));
}

#[test]
fn denied_signature_fails_verification() {
    let alice = key(1);
    let bob = key(2);
    let att = Attestation { content: b"good standing".to_vec(), about: bob.clone() };
    let records = vec![record_for(&att, &alice, 1), record_for(&att, &bob, 2)];
    let v = Verifiable { attestation: Some(att), signed_actions: records };
    let checks = vec![SignatureCheck::Confirmed, SignatureCheck::Denied];
    assert_eq!(verify(&v, &checks), Err(AttestationsError::BadSignature));
}

#[test]
fn unavailable_signature_check_is_its_own_error() {
    let alice = key(1);
    let bob = key(2);
    let att = Attestation { content: b"good standing".to_vec(), about: bob.clone() };
    let records = vec![record_for(&att, &alice, 1)];
    let v = Verifiable { attestation: Some(att), signed_actions: records };
    let checks = vec![SignatureCheck::Unavailable];
    assert_eq!(verify(&v, &checks), Err(AttestationsError::VerificationUnavailable));
}

#[test]
fn empty_bundle_trivially_verifies() {
    let v = Verifiable { attestation: None, signed_actions: vec![] };
    assert_eq!(verify(&v, &vec![]), Ok(()));
}

#[test]
fn record_without_entry_hash_is_a_content_mismatch() {
    let alice = key(1);
    let bob = key(2);
    let att = Attestation { content: b"good standing".to_vec(), about: bob.clone() };
    let rec = SignedRecord {
        author: alice.clone(),
        timestamp: 1,
        entry_hash: None,
        signature: vec![1],
    };
    let v = Verifiable { attestation: Some(att), signed_actions: vec![rec] };
    assert_eq!(
        verify(&v, &vec![SignatureCheck::Confirmed]),
        Err(AttestationsError::ContentMismatch)
    );
}

#[test]
fn without_claimed_content_only_signatures_decide() {
    let alice = key(1);
    let rec = SignedRecord {
        author: alice.clone(),
        timestamp: 1,
        entry_hash: None,
        signature: vec![1],
    };
    let v = Verifiable { attestation: None, signed_actions: vec![rec] };
    assert_eq!(verify(&v, &vec![SignatureCheck::Confirmed]), Ok(()));
}

#[test]
fn first_failing_record_decides() {
    let alice = key(1);
    let bob = key(2);
    let att = Attestation { content: b"good standing".to_vec(), about: bob.clone() };
    // first record denied, second record would be a content mismatch
    let bad_hash = SignedRecord {
        author: bob.clone(),
        timestamp: 2,
        entry_hash: None,
        signature: vec![2],
    };
    let records = vec![record_for(&att, &alice, 1), bad_hash];
    let v = Verifiable { attestation: Some(att), signed_actions: records };
    let checks = vec![SignatureCheck::Denied, SignatureCheck::Confirmed];
    assert_eq!(verify(&v, &checks), Err(AttestationsError::BadSignature));
}

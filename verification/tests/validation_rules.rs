use attestations::attestation::create_attestation;
use attestations::codec::hash_attestation;
use attestations::entries::Attestation;
use attestations::error::AttestationsError;
use attestations::store::LinkBase;
use attestations::store::Store;
use attestations::types::AgentKey;
use attestations::types::RecordMeta;
use attestations::validation::validate;
use attestations::validation::CreateLinkData;
use attestations::validation::InvalidReason;
use attestations::validation::Op;
use attestations::validation::ValidateCallbackResult;

fn key(b: u8) -> AgentKey {
    AgentKey { bytes: vec![b; 39] }
}

fn store_with_attestation() -> (Store, Attestation) {
    let mut store = Store::new();
    let alice = key(1);
    let bob = key(2);
    let att = Attestation { content: b"vouched".to_vec(), about: bob };
    create_attestation(
        &mut store,
        &alice,
        &att,
        RecordMeta { timestamp: 1, signature: vec![7] },
    );
    (store, att)
}

fn who_link(att: &Attestation, tag: Vec<u8>) -> Op {
    Op::RegisterCreateLink(CreateLinkData {
        base: LinkBase::Content(att.content.clone()),
        target: hash_attestation(att),
        link_type: 2,
        tag,
    })
}

#[test]
fn who_link_with_subject_tag_is_valid() {
    let (store, att) = store_with_attestation();
    let op = who_link(&att, att.about.bytes.clone());
    assert_eq!(validate(&op, &store), Ok(ValidateCallbackResult::Valid));
}

#[test]
fn who_link_with_another_key_is_rejected() {
    let (store, att) = store_with_attestation();
    let op = who_link(&att, vec![9; 39]);
    let r = validate(&op, &store);
    assert_eq!(
        r,
        Ok(ValidateCallbackResult::Invalid(InvalidReason::TagMismatch))
    );
    assert_eq!(
        InvalidReason::TagMismatch.message(),
        "tag doesn't point to about".to_string()
    );
}

#[test]
fn who_link_with_malformed_tag_is_an_error() {
    let (store, att) = store_with_attestation();
    let op = who_link(&att, vec![1, 2, 3]);
    assert_eq!(validate(&op, &store), Err(AttestationsError::SerializationError));
}

#[test]
fn who_link_with_unresolvable_target_is_an_error() {
    let (store, _att) = store_with_attestation();
    let elsewhere = Attestation { content: b"never published".to_vec(), about: key(5) };
    let op = who_link(&elsewhere, vec![5; 39]);
    assert_eq!(validate(&op, &store), Err(AttestationsError::StructuralInvalid));
}

#[test]
fn by_and_of_links_are_structurally_valid() {
    let (store, att) = store_with_attestation();
    for idx in [0u8, 1u8] {
        let op = Op::RegisterCreateLink(CreateLinkData {
            base: LinkBase::Agent(key(1)),
            target: hash_attestation(&att),
            link_type: idx,
            tag: vec![],
        });
        assert_eq!(validate(&op, &store), Ok(ValidateCallbackResult::Valid));
    }
}

#[test]
fn unknown_link_type_is_rejected() {
    let (store, att) = store_with_attestation();
    let op = Op::RegisterCreateLink(CreateLinkData {
        base: LinkBase::Agent(key(1)),
        target: hash_attestation(&att),
        link_type: 7,
        tag: vec![],
    });
    assert_eq!(
        validate(&op, &store),
        Ok(ValidateCallbackResult::Invalid(InvalidReason::UnknownLinkType))
    );
    assert_eq!(InvalidReason::UnknownLinkType.message(), "unknown link type".to_string());
}

#[test]
fn stores_and_agent_activity_are_valid_by_default() {
    let (store, _att) = store_with_attestation();
    assert_eq!(validate(&Op::StoreRecord, &store), Ok(ValidateCallbackResult::Valid));
    assert_eq!(validate(&Op::StoreEntry, &store), Ok(ValidateCallbackResult::Valid));
    assert_eq!(
        validate(&Op::RegisterAgentActivity, &store),
        Ok(ValidateCallbackResult::Valid)
    );
}

#[test]
fn deletes_and_updates_are_always_rejected() {
    let (store, _att) = store_with_attestation();
    assert_eq!(
        validate(&Op::RegisterDeleteLink, &store),
        Ok(ValidateCallbackResult::Invalid(InvalidReason::DeleteLinkForbidden))
    );
    assert_eq!(
        validate(&Op::RegisterUpdate, &store),
        Ok(ValidateCallbackResult::Invalid(InvalidReason::UpdateForbidden))
    );
    assert_eq!(
        validate(&Op::RegisterDelete, &store),
        Ok(ValidateCallbackResult::Invalid(InvalidReason::DeleteForbidden))
    );
    assert_eq!(
        InvalidReason::DeleteLinkForbidden.message(),
        "deleting links isn't valid".to_string()
    );
    assert_eq!(
        InvalidReason::UpdateForbidden.message(),
        "updating entries isn't valid".to_string()
    );
    assert_eq!(
        InvalidReason::DeleteForbidden.message(),
        "deleting entries isn't valid".to_string()
    );
}

#[test]
fn immutability_holds_on_an_empty_store_too() {
    let store = Store::new();
    assert_eq!(
        validate(&Op::RegisterDeleteLink, &store),
        Ok(ValidateCallbackResult::Invalid(InvalidReason::DeleteLinkForbidden))
    );
    assert_eq!(
        validate(&Op::RegisterUpdate, &store),
        Ok(ValidateCallbackResult::Invalid(InvalidReason::UpdateForbidden))
    );
    assert_eq!(
        validate(&Op::RegisterDelete, &store),
        Ok(ValidateCallbackResult::Invalid(InvalidReason::DeleteForbidden))
    );
}

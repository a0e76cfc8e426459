use attestations::attestation::create_attestation;
use attestations::attestation::get_attestations;
use attestations::attestation::get_my_attestations;
use attestations::attestation::GetAttestationsInput;
use attestations::codec::hash_attestation;
use attestations::entries::Attestation;
use attestations::store::Store;
use attestations::types::AgentKey;
use attestations::types::RecordMeta;

fn key(b: u8) -> AgentKey {
    AgentKey { bytes: vec![b; 39] }
}

fn meta(t: u64) -> RecordMeta {
    RecordMeta { timestamp: t, signature: vec![0xAB, t as u8] }
}

#[test]
fn create_then_query_round_trip() {
    let mut store = Store::new();
    let alice = key(1);
    let bob = key(2);
    let att = Attestation { content: b"trusted colleague".to_vec(), about: bob.clone() };
    let h = create_attestation(&mut store, &alice, &att, meta(100));
    let out = get_attestations(
        &store,
        &GetAttestationsInput {
            content: Some(b"trusted colleague".to_vec()),
            by: None,
            of: Some(bob.clone()),
        },
    );
    assert_eq!(out.len(), 1);
    assert_eq!(out[0].content.content, b"trusted colleague".to_vec());
    assert_eq!(out[0].content.about.bytes, bob.bytes);
    assert_eq!(out[0].hash.bytes, hash_attestation(&att).bytes);
    assert_eq!(out[0].hash.bytes, h.bytes);
    assert_eq!(out[0].attesters.len(), 1);
    assert_eq!(out[0].attesters[0].author.bytes, alice.bytes);
    assert_eq!(out[0].attesters[0].timestamp, 100);
    let embedded = out[0].verifiable.attestation.as_ref().unwrap();
    assert_eq!(embedded.content, b"trusted colleague".to_vec());
    assert_eq!(embedded.about.bytes, bob.bytes);
    assert_eq!(out[0].verifiable.signed_actions.len(), 1);
    assert_eq!(out[0].verifiable.signed_actions[0].author.bytes, alice.bytes);
    assert_eq!(
        out[0].verifiable.signed_actions[0].entry_hash.as_ref().unwrap().bytes,
        h.bytes
    );
}

#[test]
fn query_union_returns_shared_attestation_once() {
    let mut store = Store::new();
    let alice = key(1);
    let bob = key(2);
    let carol = key(3);
    // one attestation satisfying both predicates: authored by alice, about bob
    let shared = Attestation { content: b"shared".to_vec(), about: bob.clone() };
    let shared_hash = create_attestation(&mut store, &alice, &shared, meta(1));
    // one only matching by=alice
    let only_by = Attestation { content: b"by only".to_vec(), about: carol.clone() };
    create_attestation(&mut store, &alice, &only_by, meta(2));
    // one only matching of=bob
    let only_of = Attestation { content: b"of only".to_vec(), about: bob.clone() };
    create_attestation(&mut store, &carol, &only_of, meta(3));
    let out = get_attestations(
        &store,
        &GetAttestationsInput { content: None, by: Some(alice.clone()), of: Some(bob.clone()) },
    );
    assert_eq!(out.len(), 3);
    let shared_count = out.iter().filter(|o| o.hash.bytes == shared_hash.bytes).count();
    assert_eq!(shared_count, 1);
}

#[test]
fn query_with_no_filter_is_empty() {
    let mut store = Store::new();
    let alice = key(1);
    let bob = key(2);
    let att = Attestation { content: b"x".to_vec(), about: bob.clone() };
    create_attestation(&mut store, &alice, &att, meta(1));
    let out = get_attestations(
        &store,
        &GetAttestationsInput { content: None, by: None, of: None },
    );
    assert_eq!(out.len(), 0);
}

#[test]
fn content_query_narrowed_by_subject_tag() {
    let mut store = Store::new();
    let alice = key(1);
    let bob = key(2);
    let carol = key(3);
    // same content about two different subjects
    let about_bob = Attestation { content: b"same words".to_vec(), about: bob.clone() };
    let about_carol = Attestation { content: b"same words".to_vec(), about: carol.clone() };
    create_attestation(&mut store, &alice, &about_bob, meta(1));
    create_attestation(&mut store, &alice, &about_carol, meta(2));
    let both = get_attestations(
        &store,
        &GetAttestationsInput { content: Some(b"same words".to_vec()), by: None, of: None },
    );
    assert_eq!(both.len(), 2);
    let narrowed = get_attestations(
        &store,
        &GetAttestationsInput {
            content: Some(b"same words".to_vec()),
            by: None,
            of: Some(carol.clone()),
        },
    );
    assert_eq!(narrowed.len(), 1);
    assert_eq!(narrowed[0].content.about.bytes, carol.bytes);
}

#[test]
fn republished_entry_aggregates_all_attesters() {
    let mut store = Store::new();
    let alice = key(1);
    let bob = key(2);
    let carol = key(3);
    let att = Attestation { content: b"seen it".to_vec(), about: bob.clone() };
    create_attestation(&mut store, &alice, &att, meta(10));
    let att_again = Attestation { content: b"seen it".to_vec(), about: bob.clone() };
    create_attestation(&mut store, &carol, &att_again, meta(20));
    let out = get_attestations(
        &store,
        &GetAttestationsInput { content: None, by: None, of: Some(bob.clone()) },
    );
    // two Of links were hung, but both resolve to the one entry, deduplicated
    assert_eq!(out.len(), 1);
    assert_eq!(out[0].attesters.len(), 2);
    assert_eq!(out[0].attesters[0].author.bytes, alice.bytes);
    assert_eq!(out[0].attesters[1].author.bytes, carol.bytes);
    assert_eq!(out[0].verifiable.signed_actions.len(), 2);
}

#[test]
fn my_attestations_lists_only_mine() {
    let mut store = Store::new();
    let alice = key(1);
    let bob = key(2);
    let mine = Attestation { content: b"mine".to_vec(), about: bob.clone() };
    create_attestation(&mut store, &alice, &mine, meta(1));
    let theirs = Attestation { content: b"theirs".to_vec(), about: alice.clone() };
    create_attestation(&mut store, &bob, &theirs, meta(2));
    let out = get_my_attestations(&store, &alice);
    assert_eq!(out.len(), 1);
    assert_eq!(out[0].content.content, b"mine".to_vec());
}

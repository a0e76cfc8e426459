use attestations::codec::hash_attestation;
use attestations::entries::Attestation;
use attestations::error::AttestationsError;
use attestations::signals::init_grant_functions;
use attestations::signals::recv_remote_signal;
use attestations::signals::GrantedFunction;
use attestations::signals::Message;
use attestations::signals::NotifyInput;
use attestations::signals::SignalPayload;
use attestations::types::AgentKey;

fn key(b: u8) -> AgentKey {
    AgentKey { bytes: vec![b; 39] }
}

#[test]
fn signal_payload_carries_what_it_was_given() {
    let att = Attestation { content: b"hello".to_vec(), about: key(2) };
    let h = hash_attestation(&att);
    let payload = SignalPayload::new(h, Message::NewAttestation(att));
    assert_eq!(payload.attestation_hash.bytes, {
        let att = Attestation { content: b"hello".to_vec(), about: key(2) };
        hash_attestation(&att).bytes
    });
    match &payload.message {
        Message::NewAttestation(a) => assert_eq!(a.content, b"hello".to_vec()),
    }
}

#[test]
fn remote_signal_is_forwarded_unchanged() {
    let att = Attestation { content: b"hello".to_vec(), about: key(2) };
    let h = hash_attestation(&att);
    let expected_hash = h.bytes.clone();
    let payload = SignalPayload::new(h, Message::NewAttestation(att));
    let forwarded = recv_remote_signal(payload);
    assert_eq!(forwarded.attestation_hash.bytes, expected_hash);
    match &forwarded.message {
        Message::NewAttestation(a) => {
            assert_eq!(a.content, b"hello".to_vec());
            assert_eq!(a.about.bytes, key(2).bytes);
        },
    }
}

#[test]
fn notify_input_holds_recipients() {
    let att = Attestation { content: b"news".to_vec(), about: key(2) };
    let h = hash_attestation(&att);
    let input = NotifyInput {
        folks: vec![key(3), key(4)],
        signal: SignalPayload::new(h, Message::NewAttestation(att)),
    };
    assert_eq!(input.folks.len(), 2);
    assert_eq!(input.folks[0].bytes, key(3).bytes);
}

#[test]
fn bootstrap_grants_exactly_the_two_receiving_functions() {
    let grants = init_grant_functions();
    assert_eq!(grants.len(), 2);
    assert_eq!(grants[0], GrantedFunction::RecvRemoteSignal);
    assert_eq!(grants[1], GrantedFunction::RecvFulfillment);
    assert_eq!(grants[0].name(), "recv_remote_signal".to_string());
    assert_eq!(grants[1].name(), "recv_fulfillment".to_string());
}

#[test]
fn error_messages_match_the_protocol_wording() {
    assert_eq!(
        AttestationsError::ContentMismatch.message(),
        "Failed verification: attestation hash doesn't match".to_string()
    );
    assert_eq!(
        AttestationsError::BadSignature.message(),
        "Failed verification: signature doesn't match.".to_string()
    );
    assert_eq!(AttestationsError::UnknownNonce.message(), "No such nonce".to_string());
}

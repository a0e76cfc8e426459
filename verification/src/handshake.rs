//! The legacy handshake exchange.
//!
//! Structurally the same protocol as nonce fulfillment — issue a private
//! nonce, embed its identifier in an attestation, ship the signed record —
//! differing only in the wire shape and the receiving function it targets.
//! Kept for peers still speaking it; its nonces carry no note.

use vstd::prelude::*;

use crate::attestation::spec_create_attestation;
use crate::attestation::spec_verify;
use crate::attestation::verify;
use crate::attestation::Verifiable;
use crate::codec::as_u32_be;
use crate::codec::spec_as_u32_be;
use crate::codec::spec_decimal;
use crate::codec::u32_to_decimal;
use crate::entries::Attestation;
use crate::error::AttestationsError;
use crate::nonce::fulfill_nonce;
use crate::nonce::spec_fulfillment_attestation;
use crate::nonce::spec_fulfillment_outputs;
use crate::nonce::spec_reconstructed_bundle;
use crate::nonce::FulfillNonceInput;
use crate::store::Store;
use crate::types::bytes_eq;
use crate::types::clone_bytes;
use crate::types::AgentKey;
use crate::types::RecordMeta;
use crate::types::SignatureCheck;
use crate::types::SignedRecord;
use crate::types::SignedRecordView;

verus! {

/// Mathematical image of a legacy [`Nonce`].
#[verifier::ext_equal]
pub struct NonceView {
    pub id: u32,
    pub with: Seq<u8>,
}

/// A private handshake nonce of the legacy exchange: the random identifier
/// and the counterparty it is bound to.
pub struct Nonce {
    pub id: u32,
    pub with: AgentKey,
}

impl DeepView for Nonce {
    type V = NonceView;

    open spec fn deep_view(&self) -> NonceView {
        NonceView { id: self.id, with: self.with@ }
    }
}

impl Nonce {
    /// Builds a nonce for `with` from four freshly drawn random bytes, read
    /// as a big-endian identifier.
    pub fn new(with: AgentKey, id_bytes: &Vec<u8>) -> (n: Nonce)
        requires
            id_bytes@.len() >= 4,
        ensures
            n.id == spec_as_u32_be(id_bytes@),
            n.with@ == with@,
    {
        let id = as_u32_be(id_bytes);
        Nonce { id, with }
    }
}

/// Issues a legacy handshake nonce for `agent` and retains it in the
/// agent's private list, returning the identifier to hand out.
pub fn handshake_make_nonce(local: &mut Vec<Nonce>, agent: AgentKey, id_bytes: &Vec<u8>) -> (id:
    u32)
    requires
        id_bytes@.len() >= 4,
    ensures
        id == spec_as_u32_be(id_bytes@),
        final(local).deep_view() == old(local).deep_view().push(
            NonceView { id: spec_as_u32_be(id_bytes@), with: agent@ },
        ),
{
    let ghost l0 = local.deep_view();
    let ghost nv = NonceView { id: spec_as_u32_be(id_bytes@), with: agent@ };
    let nonce = Nonce::new(agent, id_bytes);
    let id = nonce.id;
    local.push(nonce);
    proof {
        assert(local.deep_view() =~= l0.push(nv));
    }
    id
}

/// What a handshake call names: the issuer to answer, and the nonce
/// identifier it handed out.
pub struct HandshakeInput {
    pub to: AgentKey,
    pub nonce: u32,
}

/// Mathematical image of a [`Handshake`].
#[verifier::ext_equal]
pub struct HandshakeView {
    pub header: SignedRecordView,
    pub nonce: Seq<u8>,
}

/// The legacy wire message: the fulfiller's signed publish record and the
/// nonce identifier, rendered in decimal.
pub struct Handshake {
    pub header: SignedRecord,
    pub nonce: Vec<u8>,
}

impl DeepView for Handshake {
    type V = HandshakeView;

    open spec fn deep_view(&self) -> HandshakeView {
        HandshakeView { header: self.header.deep_view(), nonce: self.nonce@ }
    }
}

/// Answers a legacy handshake: publishes the fulfillment attestation,
/// re-queries it, and packages the first signed record found with the
/// rendered identifier, ready to send to the issuer.
pub fn handshake_commit_nonce(
    store: &mut Store,
    me: &AgentKey,
    input: &HandshakeInput,
    meta: RecordMeta,
) -> (h: Handshake)
    requires
        old(store).deep_view().wf(),
        input.to.wf(),
    ensures
        final(store).deep_view() == spec_create_attestation(
            old(store).deep_view(),
            me@,
            spec_fulfillment_attestation(input.nonce, input.to@),
            meta.timestamp,
            meta.signature@,
        ),
        final(store).deep_view().wf(),
        h.nonce@ == spec_decimal(input.nonce as nat),
        spec_fulfillment_outputs(final(store).deep_view(), input.nonce, input.to@).len() > 0,
        spec_fulfillment_outputs(
            final(store).deep_view(),
            input.nonce,
            input.to@,
        )[0].verifiable.signed_actions.len() > 0,
        h.header.deep_view() == spec_fulfillment_outputs(
            final(store).deep_view(),
            input.nonce,
            input.to@,
        )[0].verifiable.signed_actions[0],
{
    let fulfill_input = FulfillNonceInput { with: input.to.clone(), nonce: input.nonce };
    let w = fulfill_nonce(store, me, &fulfill_input, meta);
    Handshake { header: w.action, nonce: w.nonce }
}

/// Whether one held legacy nonce answers a handshake claim.
pub open spec fn legacy_nonce_matches(n: NonceView, wire_nonce: Seq<u8>, caller: Seq<u8>) -> bool {
    spec_decimal(n.id as nat) == wire_nonce && n.with == caller
}

/// Whether any held legacy nonce answers the claim.
pub open spec fn spec_has_matching_legacy_nonce(
    local: Seq<NonceView>,
    wire_nonce: Seq<u8>,
    caller: Seq<u8>,
) -> bool {
    exists|i: int|
        0 <= i < local.len() && legacy_nonce_matches(#[trigger] local[i], wire_nonce, caller)
}

/// What the issuer's application layer is told when a legacy handshake was
/// accepted.
pub struct NonceReceived {
    pub nonce: Vec<u8>,
    pub from: AgentKey,
}

/// Receives a legacy handshake: finds the claimed nonce among the agent's
/// own private legacy nonces, accepting only the caller it was issued for,
/// rebuilds the expected attestation locally, and verifies the received
/// record against it with the signing substrate's answer.
pub fn recv_handshake(
    me: &AgentKey,
    caller: &AgentKey,
    handshake: &Handshake,
    local: &Vec<Nonce>,
    check: SignatureCheck,
) -> (r: Result<NonceReceived, AttestationsError>)
    requires
        me.wf(),
        handshake.nonce@.len() <= u32::MAX,
    ensures
        ({
            let matched = spec_has_matching_legacy_nonce(
                local.deep_view(),
                handshake.nonce@,
                caller@,
            );
            let verdict = spec_verify(
                spec_reconstructed_bundle(me@, handshake.nonce@, handshake.header.deep_view()),
                seq![check],
            );
            match r {
                Ok(nr) => matched && verdict == Ok::<(), AttestationsError>(()) && nr.nonce@
                    == handshake.nonce@ && nr.from@ == caller@,
                Err(e) => if !matched {
                    e == AttestationsError::UnknownNonce
                } else {
                    verdict == Err::<(), AttestationsError>(e)
                },
            }
        }),
{
    let ghost lv = local.deep_view();
    let mut found = false;
    let mut i: usize = 0;
    while i < local.len()
        invariant
            lv == local.deep_view(),
            i <= local@.len(),
            local@.len() == lv.len(),
            found == exists|j: int|
                0 <= j < i && legacy_nonce_matches(#[trigger] lv[j], handshake.nonce@, caller@),
        decreases lv.len() - i,
    {
        proof {
            assert(local@[i as int].deep_view() == lv[i as int]);
        }
        let n = &local[i];
        let dec = u32_to_decimal(n.id);
        if bytes_eq(&dec, &handshake.nonce) && n.with.key_eq(caller) {
            proof {
                assert(legacy_nonce_matches(lv[i as int], handshake.nonce@, caller@));
            }
            found = true;
        } else {
            proof {
                assert(!legacy_nonce_matches(lv[i as int], handshake.nonce@, caller@));
            }
        }
        i = i + 1;
    }
    if !found {
        return Err(AttestationsError::UnknownNonce);
    }
    let attestation = Attestation { content: clone_bytes(&handshake.nonce), about: me.clone() };
    let mut signed_actions: Vec<SignedRecord> = Vec::new();
    signed_actions.push(handshake.header.clone());
    let verifiable = Verifiable { attestation: Some(attestation), signed_actions };
    let mut checks: Vec<SignatureCheck> = Vec::new();
    checks.push(check);
    proof {
        assert(verifiable.deep_view() =~= spec_reconstructed_bundle(
            me@,
            handshake.nonce@,
            handshake.header.deep_view(),
        ));
        assert(checks@ =~= seq![check]);
    }
    match verify(&verifiable, &checks) {
        Ok(u) => Ok(NonceReceived { nonce: clone_bytes(&handshake.nonce), from: caller.clone() }),
        Err(e) => Err(e),
    }
}

} // verus!

//! Nonce issuance and fulfillment.
//!
//! An agent anticipating a handshake creates a private nonce bound to the
//! counterparty.  To fulfill one, the counterparty embeds the nonce's
//! identifier as attestation content, publishes it, reads back its own
//! signed record, and ships record and identifier to the issuer.  The
//! issuer looks the identifier up among its own private nonces — accepting
//! only the caller the nonce was bound to — rebuilds the expected
//! attestation itself, and re-verifies the record against it.  The caller's
//! copy of the content is never trusted.

use vstd::prelude::*;

use crate::attestation::create_attestation;
use crate::attestation::get_attestations;
use crate::attestation::lemma_create_makes_queryable;
use crate::attestation::lemma_outputs_contains;
use crate::attestation::lemma_outputs_sound;
use crate::attestation::spec_create_attestation;
use crate::attestation::spec_output_for;
use crate::attestation::spec_outputs;
use crate::attestation::spec_verify;
use crate::attestation::verify;
use crate::attestation::AttestationOutputView;
use crate::attestation::GetAttestationsInput;
use crate::attestation::GetAttestationsInputView;
use crate::attestation::Verifiable;
use crate::attestation::VerifiableView;
use crate::codec::as_u32_be;
use crate::codec::lemma_decimal_len;
use crate::codec::spec_as_u32_be;
use crate::codec::spec_decimal;
use crate::codec::u32_to_decimal;
use crate::entries::Attestation;
use crate::entries::AttestationView;
use crate::entries::LinkTypes;
use crate::entries::Nonce;
use crate::entries::NonceView;
use crate::error::AttestationsError;
use crate::store::lemma_lookup_entry_props;
use crate::store::lemma_records_for_nonempty;
use crate::store::spec_links_matching;
use crate::store::spec_lookup_entry;
use crate::store::LinkBaseView;
use crate::store::Store;
use crate::store::StoreView;
use crate::types::bytes_eq;
use crate::types::clone_bytes;
use crate::types::AgentKey;
use crate::types::RecordMeta;
use crate::types::SignatureCheck;
use crate::types::SignedRecord;
use crate::types::SignedRecordView;

verus! {

/// What an agent states when it issues a nonce: who it is for, and a
/// private note to itself.
pub struct CreateNonceInput {
    pub with: AgentKey,
    pub note: Vec<u8>,
}

/// Builds a nonce from four freshly drawn random bytes, read as a
/// big-endian identifier.
pub fn new_nonce(input: CreateNonceInput, id_bytes: &Vec<u8>) -> (n: Nonce)
    requires
        id_bytes@.len() >= 4,
    ensures
        n.id == spec_as_u32_be(id_bytes@),
        n.with@ == input.with@,
        n.note@ == input.note@,
{
    let id = as_u32_be(id_bytes);
    Nonce { id, with: input.with, note: input.note }
}

/// Issues a nonce: builds it from the drawn bytes and retains it in the
/// agent's private nonce list, returning the identifier to hand out.
pub fn create_nonce(local: &mut Vec<Nonce>, input: CreateNonceInput, id_bytes: &Vec<u8>) -> (id:
    u32)
    requires
        id_bytes@.len() >= 4,
    ensures
        id == spec_as_u32_be(id_bytes@),
        final(local).deep_view() == old(local).deep_view().push(
            NonceView { id: spec_as_u32_be(id_bytes@), note: input.note@, with: input.with@ },
        ),
{
    let ghost l0 = local.deep_view();
    let ghost nv = NonceView { id: spec_as_u32_be(id_bytes@), note: input.note@, with: input.with@ };
    let nonce = new_nonce(input, id_bytes);
    let id = nonce.id;
    local.push(nonce);
    proof {
        assert(local.deep_view() =~= l0.push(nv));
    }
    id
}

/// What a fulfillment call names: the issuer to answer, and the nonce
/// identifier it handed out.
pub struct FulfillNonceInput {
    pub with: AgentKey,
    pub nonce: u32,
}

/// Mathematical image of a [`FulfillNonceWire`].
#[verifier::ext_equal]
pub struct FulfillNonceWireView {
    pub action: SignedRecordView,
    pub nonce: Seq<u8>,
}

/// The fulfillment wire message: the fulfiller's signed publish record and
/// the nonce identifier, rendered in decimal.
pub struct FulfillNonceWire {
    pub action: SignedRecord,
    pub nonce: Vec<u8>,
}

impl DeepView for FulfillNonceWire {
    type V = FulfillNonceWireView;

    open spec fn deep_view(&self) -> FulfillNonceWireView {
        FulfillNonceWireView { action: self.action.deep_view(), nonce: self.nonce@ }
    }
}

/// The attestation a fulfiller publishes for nonce `nonce` issued by
/// `with`: the identifier in decimal as content, the issuer as subject.
pub open spec fn spec_fulfillment_attestation(nonce: u32, with: Seq<u8>) -> AttestationView {
    AttestationView { content: spec_decimal(nonce as nat), about: with }
}

/// The query outputs a fulfiller reads back right after publishing: the
/// content path of the rendered identifier, narrowed to the issuer's key.
pub open spec fn spec_fulfillment_outputs(s: StoreView, nonce: u32, with: Seq<u8>) -> Seq<
    AttestationOutputView,
> {
    spec_outputs(
        s,
        spec_links_matching(
            s.links,
            LinkBaseView::Content(spec_decimal(nonce as nat)),
            Some(LinkTypes::Who),
            Some(with),
        ),
    )
}

/// Fulfills a nonce: publishes the fulfillment attestation, re-queries it
/// by content and subject, and packages the first signed record found with
/// the rendered identifier, ready to send to the issuer.
pub fn fulfill_nonce(
    store: &mut Store,
    me: &AgentKey,
    input: &FulfillNonceInput,
    meta: RecordMeta,
) -> (w: FulfillNonceWire)
    requires
        old(store).deep_view().wf(),
        input.with.wf(),
    ensures
        final(store).deep_view() == spec_create_attestation(
            old(store).deep_view(),
            me@,
            spec_fulfillment_attestation(input.nonce, input.with@),
            meta.timestamp,
            meta.signature@,
        ),
        final(store).deep_view().wf(),
        w.nonce@ == spec_decimal(input.nonce as nat),
        spec_fulfillment_outputs(final(store).deep_view(), input.nonce, input.with@).len() > 0,
        spec_fulfillment_outputs(
            final(store).deep_view(),
            input.nonce,
            input.with@,
        )[0].verifiable.signed_actions.len() > 0,
        w.action.deep_view() == spec_fulfillment_outputs(
            final(store).deep_view(),
            input.nonce,
            input.with@,
        )[0].verifiable.signed_actions[0],
{
    let ghost pre = store.deep_view();
    let content = u32_to_decimal(input.nonce);
    let a = Attestation { content, about: input.with.clone() };
    let ghost av = spec_fulfillment_attestation(input.nonce, input.with@);
    proof {
        lemma_decimal_len(input.nonce as nat);
        assert(a.deep_view() =~= av);
        assert(a.wf());
    }
    let _hash = create_attestation(store, me, &a, meta);
    let ghost s2 = store.deep_view();
    let get_input = GetAttestationsInput {
        content: Some(clone_bytes(&a.content)),
        of: Some(input.with.clone()),
        by: None,
    };
    let attestations = get_attestations(store, &get_input);
    let ghost ml = spec_links_matching(
        s2.links,
        LinkBaseView::Content(av.content),
        Some(LinkTypes::Who),
        Some(av.about),
    );
    proof {
        assert(get_input.deep_view() == GetAttestationsInputView {
            content: Some(av.content),
            by: None,
            of: Some(av.about),
        });
        assert(attestations.deep_view() == spec_outputs(s2, ml));
        lemma_create_makes_queryable(pre, me@, av, meta.timestamp, meta.signature@);
        let k = choose|k: int| 0 <= k < ml.len() && ml[k] == crate::attestation::spec_who_link(av);
        lemma_outputs_contains(s2, ml, 0, k);
        assert(spec_outputs(s2, ml).len() > 0);
        lemma_outputs_sound(s2, ml, 0);
        let first_out = spec_outputs(s2, ml)[0];
        let k0 = choose|k0: int|
            0 <= k0 < ml.len() && spec_output_for(s2, (#[trigger] ml[k0]).target) == Some(
                first_out,
            );
        let t0 = ml[k0].target;
        lemma_lookup_entry_props(s2.entries, t0, 0);
        let att0 = spec_lookup_entry(s2.entries, t0).unwrap();
        let ei = choose|ei: int| 0 <= ei < s2.entries.len() && (#[trigger] s2.entries[ei]) == att0;
        let rj = choose|rj: int|
            0 <= rj < s2.records.len() && (#[trigger] s2.records[rj]).entry_hash == Some(
                s2.entries[ei].hash(),
            );
        lemma_records_for_nonempty(s2.records, t0, 0, rj);
        assert(first_out.verifiable.signed_actions.len() > 0);
    }
    let first = &attestations[0];
    proof {
        assert(attestations@[0].deep_view() == attestations.deep_view()[0]);
    }
    let action = first.verifiable.signed_actions[0].clone();
    proof {
        assert(first.verifiable.signed_actions@[0].deep_view() == attestations.deep_view()[0].verifiable.signed_actions[0]);
    }
    FulfillNonceWire { action, nonce: u32_to_decimal(input.nonce) }
}

/// What the issuer's application layer is told when a fulfillment was
/// accepted: the nonce value claimed, and the authenticated caller who
/// proved it.
pub struct NonceReceived {
    pub nonce: Vec<u8>,
    pub from: AgentKey,
}

/// Whether one held nonce answers a fulfillment claim: the claimed value is
/// the nonce's identifier in decimal, and the authenticated caller is the
/// agent the nonce was issued for.
pub open spec fn nonce_matches(n: NonceView, wire_nonce: Seq<u8>, caller: Seq<u8>) -> bool {
    spec_decimal(n.id as nat) == wire_nonce && n.with == caller
}

/// Whether any held nonce answers the claim.
pub open spec fn spec_has_matching_nonce(
    local: Seq<NonceView>,
    wire_nonce: Seq<u8>,
    caller: Seq<u8>,
) -> bool {
    exists|i: int| 0 <= i < local.len() && nonce_matches(#[trigger] local[i], wire_nonce, caller)
}

/// The bundle the issuer rebuilds for verification: the expected
/// attestation — claimed value as content, the issuer itself as subject —
/// over the received record alone.  Nothing of the sender's copy of the
/// content enters it.
pub open spec fn spec_reconstructed_bundle(
    me: Seq<u8>,
    wire_nonce: Seq<u8>,
    action: SignedRecordView,
) -> VerifiableView {
    VerifiableView {
        attestation: Some(AttestationView { content: wire_nonce, about: me }),
        signed_actions: seq![action],
    }
}

/// Receives a fulfillment: finds the claimed nonce among the agent's own
/// private nonces, accepting only the caller it was issued for, rebuilds
/// the expected attestation locally, and verifies the received record
/// against it with the signing substrate's answer.  Success proves the
/// caller both controls its signing key and knew the privately issued
/// nonce.
pub fn recv_fulfillment(
    me: &AgentKey,
    caller: &AgentKey,
    fulfillment: &FulfillNonceWire,
    local: &Vec<Nonce>,
    check: SignatureCheck,
) -> (r: Result<NonceReceived, AttestationsError>)
    requires
        me.wf(),
        fulfillment.nonce@.len() <= u32::MAX,
    ensures
        ({
            let matched = spec_has_matching_nonce(local.deep_view(), fulfillment.nonce@, caller@);
            let verdict = spec_verify(
                spec_reconstructed_bundle(me@, fulfillment.nonce@, fulfillment.action.deep_view()),
                seq![check],
            );
            match r {
                Ok(nr) => matched && verdict == Ok::<(), AttestationsError>(()) && nr.nonce@
                    == fulfillment.nonce@ && nr.from@ == caller@,
                Err(e) => if !matched {
                    e == AttestationsError::UnknownNonce
                } else {
                    verdict == Err::<(), AttestationsError>(e)
                },
            }
        }),
{
    let ghost lv = local.deep_view();
    let mut found = false;
    let mut i: usize = 0;
    while i < local.len()
        invariant
            lv == local.deep_view(),
            i <= local@.len(),
            local@.len() == lv.len(),
            found == exists|j: int|
                0 <= j < i && nonce_matches(#[trigger] lv[j], fulfillment.nonce@, caller@),
        decreases lv.len() - i,
    {
        proof {
            assert(local@[i as int].deep_view() == lv[i as int]);
        }
        let n = &local[i];
        let dec = u32_to_decimal(n.id);
        if bytes_eq(&dec, &fulfillment.nonce) && n.with.key_eq(caller) {
            proof {
                assert(nonce_matches(lv[i as int], fulfillment.nonce@, caller@));
            }
            found = true;
        } else {
            proof {
                assert(!nonce_matches(lv[i as int], fulfillment.nonce@, caller@));
            }
        }
        i = i + 1;
    }
    if !found {
        return Err(AttestationsError::UnknownNonce);
    }
    let attestation = Attestation { content: clone_bytes(&fulfillment.nonce), about: me.clone() };
    let mut signed_actions: Vec<SignedRecord> = Vec::new();
    signed_actions.push(fulfillment.action.clone());
    let verifiable = Verifiable { attestation: Some(attestation), signed_actions };
    let mut checks: Vec<SignatureCheck> = Vec::new();
    checks.push(check);
    proof {
        assert(verifiable.deep_view() =~= spec_reconstructed_bundle(
            me@,
            fulfillment.nonce@,
            fulfillment.action.deep_view(),
        ));
        assert(checks@ =~= seq![check]);
    }
    match verify(&verifiable, &checks) {
        Ok(u) => Ok(
            NonceReceived { nonce: clone_bytes(&fulfillment.nonce), from: caller.clone() },
        ),
        Err(e) => Err(e),
    }
}

/// Handshake liveness.  If the receiver holds a nonce issued for exactly
/// the authenticated caller, then a claim of that nonce's identifier
/// matches; and a received record that embeds the address of the locally
/// rebuilt attestation, with the signature confirmed, passes verification.
/// Together with the receive contract this means such a fulfillment is
/// accepted and the application layer is told the claimed value and the
/// caller.
pub proof fn lemma_fulfillment_acceptance(
    local: Seq<NonceView>,
    idx: int,
    me: Seq<u8>,
    caller: Seq<u8>,
    action: SignedRecordView,
)
    requires
        0 <= idx < local.len(),
        local[idx].with == caller,
        action.entry_hash == Some(
            AttestationView { content: spec_decimal(local[idx].id as nat), about: me }.hash(),
        ),
    ensures
        spec_has_matching_nonce(local, spec_decimal(local[idx].id as nat), caller),
        spec_verify(
            spec_reconstructed_bundle(me, spec_decimal(local[idx].id as nat), action),
            seq![SignatureCheck::Confirmed],
        ) == Ok::<(), AttestationsError>(()),
{
    assert(nonce_matches(local[idx], spec_decimal(local[idx].id as nat), caller));
    let v = spec_reconstructed_bundle(me, spec_decimal(local[idx].id as nat), action);
    let checks = seq![SignatureCheck::Confirmed];
    assert(v.signed_actions[0] == action);
    assert(crate::attestation::spec_check_record(v.attestation, v.signed_actions[0], checks[0])
        == Ok::<(), AttestationsError>(()));
    assert(crate::attestation::spec_verify_from(v, checks, 1) == Ok::<(), AttestationsError>(()));
    assert(crate::attestation::spec_verify_from(v, checks, 0) == Ok::<(), AttestationsError>(()));
}

/// The transport's answer to a remote call, as far as this protocol reads
/// it: the peer acknowledged, or anything else.
pub enum RemoteResponse {
    /// The peer's receiving function ran and acknowledged.
    Acknowledged,
    /// A transport-level non-success response.
    Failed,
}

/// Turns the transport's answer into this protocol's verdict on the call.
pub fn confirm_remote_response(response: &RemoteResponse) -> (r: Result<(), AttestationsError>)
    ensures
        response is Acknowledged <==> r == Ok::<(), AttestationsError>(()),
        response is Failed <==> r == Err::<(), AttestationsError>(
            AttestationsError::RemoteCallFailed,
        ),
{
    match response {
        RemoteResponse::Acknowledged => Ok(()),
        RemoteResponse::Failed => Err(AttestationsError::RemoteCallFailed),
    }
}

} // verus!

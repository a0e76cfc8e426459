//! The entry and link definitions shared by every agent: what an
//! attestation and a nonce are, and the closed set of entry and link kinds
//! the protocol replicates.

use vstd::prelude::*;

use crate::codec::spec_encode_attestation;
use crate::codec::wf_attestation_view;
use crate::types::clone_bytes;
use crate::types::AgentKey;

verus! {

/// Mathematical image of an [`Attestation`].
#[verifier::ext_equal]
pub struct AttestationView {
    pub content: Seq<u8>,
    pub about: Seq<u8>,
}

impl AttestationView {
    /// Whether this attestation can be canonically encoded.
    pub open spec fn wf(self) -> bool {
        wf_attestation_view(self.content, self.about)
    }

    /// The content address of this attestation: its canonical encoding.
    pub open spec fn hash(self) -> Seq<u8> {
        spec_encode_attestation(self.content, self.about)
    }
}

/// A claim one agent publishes about another: free-form content bytes and
/// the subject's public key.  Immutable once published; its identity is the
/// content address of its canonical encoding, so independent authors of the
/// same `(content, about)` pair produce the same entry.
pub struct Attestation {
    pub content: Vec<u8>,
    pub about: AgentKey,
}

impl DeepView for Attestation {
    type V = AttestationView;

    open spec fn deep_view(&self) -> AttestationView {
        AttestationView { content: self.content@, about: self.about@ }
    }
}

impl Attestation {
    /// A well-formed attestation can be canonically encoded: bounded content
    /// and a raw-length subject key.
    pub open spec fn wf(&self) -> bool {
        wf_attestation_view(self.content@, self.about@)
    }
}

impl Clone for Attestation {
    fn clone(&self) -> (r: Self)
        ensures
            r.deep_view() == self.deep_view(),
    {
        Attestation { content: clone_bytes(&self.content), about: self.about.clone() }
    }
}

/// Mathematical image of a [`Nonce`].
#[verifier::ext_equal]
pub struct NonceView {
    pub id: u32,
    pub note: Seq<u8>,
    pub with: Seq<u8>,
}

/// A private, single-purpose random value an agent creates when it
/// anticipates a handshake with the agent `with`.  It stays in the issuer's
/// private ledger partition; only its identifier ever travels, re-embedded
/// as attestation content.
pub struct Nonce {
    pub id: u32,
    pub note: Vec<u8>,
    pub with: AgentKey,
}

impl DeepView for Nonce {
    type V = NonceView;

    open spec fn deep_view(&self) -> NonceView {
        NonceView { id: self.id, note: self.note@, with: self.with@ }
    }
}

impl Clone for Nonce {
    fn clone(&self) -> (r: Self)
        ensures
            r.deep_view() == self.deep_view(),
    {
        Nonce { id: self.id, note: clone_bytes(&self.note), with: self.with.clone() }
    }
}

/// The closed set of entry kinds the protocol publishes.  Attestations are
/// public and replicated; nonces are private to their issuer.
pub enum EntryTypes {
    Attestation(Attestation),
    Nonce(Nonce),
}

/// The three link roles used to index attestations.
#[derive(Clone, Copy, Debug, PartialEq, Eq, Structural)]
pub enum LinkTypes {
    /// Indexed under the subject's identity: "attestations about me".
    Of,
    /// Indexed under the author's identity: "attestations I made".
    By,
    /// Indexed under a content-derived path; the tag carries the subject's
    /// raw key bytes.
    Who,
}

} // verus!

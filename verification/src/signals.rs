//! Local and remote notification payloads, and the bootstrap access grants
//! of the RPC surface.
//!
//! Signals are fire-and-forget messages to the controlling application or
//! to chosen peers; this module fixes their shape and the forwarding rule
//! for remotely received ones.  The host performs the actual emission and
//! transport.

use vstd::prelude::*;

use crate::entries::Attestation;
use crate::entries::AttestationView;
use crate::types::AgentKey;
use crate::types::EntryHash;

verus! {

/// Mathematical image of a [`Message`].
#[verifier::ext_equal]
pub enum MessageView {
    NewAttestation(AttestationView),
}

/// What a signal announces.
pub enum Message {
    /// A new attestation was published.
    NewAttestation(Attestation),
}

impl DeepView for Message {
    type V = MessageView;

    open spec fn deep_view(&self) -> MessageView {
        match self {
            Message::NewAttestation(a) => MessageView::NewAttestation(a.deep_view()),
        }
    }
}

/// Mathematical image of a [`SignalPayload`].
#[verifier::ext_equal]
pub struct SignalPayloadView {
    pub attestation_hash: Seq<u8>,
    pub message: MessageView,
}

/// One signal: the entry address it concerns, and the announcement.
pub struct SignalPayload {
    pub attestation_hash: EntryHash,
    pub message: Message,
}

impl DeepView for SignalPayload {
    type V = SignalPayloadView;

    open spec fn deep_view(&self) -> SignalPayloadView {
        SignalPayloadView {
            attestation_hash: self.attestation_hash@,
            message: self.message.deep_view(),
        }
    }
}

impl SignalPayload {
    /// Packages an announcement about the entry at `attestation_hash`.
    pub fn new(attestation_hash: EntryHash, message: Message) -> (r: Self)
        ensures
            r.attestation_hash@ == attestation_hash@,
            r.message.deep_view() == message.deep_view(),
    {
        SignalPayload { attestation_hash, message }
    }
}

/// Handles a signal received from a remote peer: the decoded payload is
/// forwarded unchanged to the local application layer, which the host
/// performs.
pub fn recv_remote_signal(signal: SignalPayload) -> (r: SignalPayload)
    ensures
        r == signal,
{
    signal
}

/// A request to notify chosen peers: who to tell, and what.
pub struct NotifyInput {
    pub folks: Vec<AgentKey>,
    pub signal: SignalPayload,
}

/// The zome functions granted unrestricted access when an agent
/// bootstraps, so that other agents can reach them remotely.
#[derive(Clone, Copy, Debug, PartialEq, Eq, Structural)]
pub enum GrantedFunction {
    /// Receiving forwarded signals.
    RecvRemoteSignal,
    /// Receiving nonce fulfillments.
    RecvFulfillment,
}

impl GrantedFunction {
    /// The function name the grant is registered under.
    pub fn name(&self) -> (r: String)
        ensures
            *self is RecvRemoteSignal ==> r@ == "recv_remote_signal"@,
            *self is RecvFulfillment ==> r@ == "recv_fulfillment"@,
    {
        match self {
            GrantedFunction::RecvRemoteSignal => "recv_remote_signal".to_string(),
            GrantedFunction::RecvFulfillment => "recv_fulfillment".to_string(),
        }
    }
}

/// The access-policy decision made at bootstrap: exactly these functions
/// are granted unrestricted remote access.
pub fn init_grant_functions() -> (r: Vec<GrantedFunction>)
    ensures
        r@.len() == 2,
        r@[0] == GrantedFunction::RecvRemoteSignal,
        r@[1] == GrantedFunction::RecvFulfillment,
{
    let mut r: Vec<GrantedFunction> = Vec::new();
    r.push(GrantedFunction::RecvRemoteSignal);
    r.push(GrantedFunction::RecvFulfillment);
    r
}

} // verus!

//! Peer-to-peer mutual attestation.
//!
//! Agents, identified by public keys, publish signed claims ("attestations")
//! about each other into a shared, replicated, content-addressed ledger.  Any
//! party can check that a claim was really authored, and about whom, without
//! trusting the transport that delivered it.  On top of that sits a
//! nonce-based handshake: an agent hands out a private single-purpose nonce,
//! the counterparty embeds it in an attestation and ships the signed ledger
//! record back, and the issuer re-verifies everything against its own copy of
//! the nonce.
//!
//! The replicated ledger, the link index, the signing primitives and the
//! remote-call transport are outside collaborators.  This crate holds the
//! protocol logic itself: entry encoding and content addressing, the
//! attestation store's link discipline and query rules, the verification
//! engine, the handshake state transitions, and the network-side link
//! validation rule.  The shared substrate is modelled by [`store::Store`], an
//! in-memory content-addressed entry table plus link index with exactly the
//! interface the protocol relies on; the host process wires it to the real
//! ledger and transport.

pub mod attestation;
pub mod codec;
pub mod entries;
pub mod error;
pub mod handshake;
pub mod nonce;
pub mod signals;
pub mod store;
pub mod types;
pub mod validation;

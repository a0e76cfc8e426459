//! Shared identity and ledger-record types.
//!
//! Agent keys, entry identities and signed publish records are plain byte
//! data to this crate: producing fresh ones (key generation, signing,
//! timestamping) is the substrate's business, while everything the protocol
//! decides — equality, matching, indexing — is decided here, over the bytes.

use vstd::prelude::*;

verus! {

/// Length in bytes of a raw agent public key as it travels in link tags:
/// a three-byte multihash prefix, the 32-byte key itself, and a four-byte
/// location suffix.
pub const AGENT_KEY_LEN: usize = 39;

/// An agent's public key, as raw bytes.  Two keys denote the same agent
/// exactly when their bytes are equal.
pub struct AgentKey {
    pub bytes: Vec<u8>,
}

impl View for AgentKey {
    type V = Seq<u8>;

    open spec fn view(&self) -> Seq<u8> {
        self.bytes@
    }
}

impl DeepView for AgentKey {
    type V = Seq<u8>;

    open spec fn deep_view(&self) -> Seq<u8> {
        self.bytes@
    }
}

impl AgentKey {
    /// A well-formed key has exactly the raw length the substrate hands out.
    pub open spec fn wf(&self) -> bool {
        self.bytes@.len() == AGENT_KEY_LEN
    }

    /// Byte-for-byte equality of two keys.
    pub fn key_eq(&self, other: &AgentKey) -> (r: bool)
        ensures
            r == (self@ == other@),
    {
        bytes_eq(&self.bytes, &other.bytes)
    }
}

impl Clone for AgentKey {
    fn clone(&self) -> (r: Self)
        ensures
            r@ == self@,
    {
        AgentKey { bytes: clone_bytes(&self.bytes) }
    }
}

/// The content address of a ledger entry: the canonical encoding of the
/// entry itself.  The substrate stores entries under a digest of this
/// encoding; since the digest preserves exactly the equalities the protocol
/// relies on, the crate tracks the canonical form, so that equal addresses
/// mean equal entries and distinct entries get distinct addresses.
pub struct EntryHash {
    pub bytes: Vec<u8>,
}

impl View for EntryHash {
    type V = Seq<u8>;

    open spec fn view(&self) -> Seq<u8> {
        self.bytes@
    }
}

impl DeepView for EntryHash {
    type V = Seq<u8>;

    open spec fn deep_view(&self) -> Seq<u8> {
        self.bytes@
    }
}

impl EntryHash {
    /// Byte-for-byte equality of two entry addresses.
    pub fn hash_eq(&self, other: &EntryHash) -> (r: bool)
        ensures
            r == (self@ == other@),
    {
        bytes_eq(&self.bytes, &other.bytes)
    }
}

impl Clone for EntryHash {
    fn clone(&self) -> (r: Self)
        ensures
            r@ == self@,
    {
        EntryHash { bytes: clone_bytes(&self.bytes) }
    }
}

/// Mathematical image of a [`SignedRecord`].
#[verifier::ext_equal]
pub struct SignedRecordView {
    pub author: Seq<u8>,
    pub timestamp: u64,
    pub entry_hash: Option<Seq<u8>>,
    pub signature: Seq<u8>,
}

/// One authenticated publish action, as produced by the ledger substrate:
/// the author's key, the time of publishing, the address of the entry the
/// action created (absent for actions that carry no entry), and the
/// substrate's signature over the action.
pub struct SignedRecord {
    pub author: AgentKey,
    pub timestamp: u64,
    pub entry_hash: Option<EntryHash>,
    pub signature: Vec<u8>,
}

impl DeepView for SignedRecord {
    type V = SignedRecordView;

    open spec fn deep_view(&self) -> SignedRecordView {
        SignedRecordView {
            author: self.author@,
            timestamp: self.timestamp,
            entry_hash: self.entry_hash.deep_view(),
            signature: self.signature@,
        }
    }
}

impl Clone for SignedRecord {
    fn clone(&self) -> (r: Self)
        ensures
            r.deep_view() == self.deep_view(),
    {
        let r = SignedRecord {
            author: self.author.clone(),
            timestamp: self.timestamp,
            entry_hash: match &self.entry_hash {
                Some(h) => Some(h.clone()),
                None => None,
            },
            signature: clone_bytes(&self.signature),
        };
        proof {
            assert(r.deep_view() =~= self.deep_view());
        }
        r
    }
}

/// What the substrate attaches to a publish action besides the entry itself:
/// the time of publishing and its signature over the action.  The protocol
/// never inspects these; it stores them and hands them back for external
/// verification.
pub struct RecordMeta {
    pub timestamp: u64,
    pub signature: Vec<u8>,
}

/// The outcome of asking the signing substrate whether one record's
/// signature verifies against its claimed author key.
#[derive(Clone, Copy, Debug, PartialEq, Eq, Structural)]
pub enum SignatureCheck {
    /// The check ran and the signature matches the key.
    Confirmed,
    /// The check ran and the signature does not match.
    Denied,
    /// The check itself failed, e.g. on malformed key material.
    Unavailable,
}

/// Copies a byte vector.
pub fn clone_bytes(v: &Vec<u8>) -> (r: Vec<u8>)
    ensures
        r@ == v@,
{
    let mut r: Vec<u8> = Vec::new();
    let mut i: usize = 0;
    while i < v.len()
        invariant
            i <= v.len(),
            r@ =~= v@.take(i as int),
        decreases v.len() - i,
    {
        r.push(v[i]);
        i = i + 1;
    }
    proof {
        assert(r@ =~= v@);
    }
    r
}

/// Byte-for-byte equality of two byte vectors.
pub fn bytes_eq(a: &Vec<u8>, b: &Vec<u8>) -> (r: bool)
    ensures
        r == (a@ == b@),
{
    if a.len() != b.len() {
        proof {
            assert(a@ != b@);
        }
        return false;
    }
    let mut i: usize = 0;
    while i < a.len()
        invariant
            i <= a.len(),
            a@.len() == b@.len(),
            forall|k: int| 0 <= k < i ==> a@[k] == b@[k],
        decreases a.len() - i,
    {
        if a[i] != b[i] {
            proof {
                assert(a@[i as int] != b@[i as int]);
            }
            return false;
        }
        i = i + 1;
    }
    proof {
        assert(a@ =~= b@);
    }
    true
}

} // verus!

//! The network-side validation rule.
//!
//! Every node asked to host a replicated operation runs this rule before
//! agreeing, independently of the operation's author, who is untrusted.
//! Subject-indexed `Who` links may only be created with a tag equal to the
//! target attestation's real subject key; entry updates, entry deletions and
//! link deletions are unconditionally refused — the ledger of this protocol
//! is write-once.

use vstd::prelude::*;

use crate::entries::AttestationView;
use crate::entries::LinkTypes;
use crate::error::AttestationsError;
use crate::store::lemma_lookup_entry_props;
use crate::store::spec_lookup_entry;
use crate::store::LinkBase;
use crate::store::LinkBaseView;
use crate::store::Store;
use crate::store::StoreView;
use crate::types::bytes_eq;
use crate::types::EntryHash;
use crate::types::AGENT_KEY_LEN;

verus! {

/// Why the validator refuses an operation.
#[derive(Clone, Copy, Debug, PartialEq, Eq, Structural)]
pub enum InvalidReason {
    /// A `Who` link's tag does not carry the target attestation's subject.
    TagMismatch,
    /// The link type index resolves to no known link type.
    UnknownLinkType,
    /// Links are never deleted in this protocol.
    DeleteLinkForbidden,
    /// Entries are never updated in this protocol.
    UpdateForbidden,
    /// Entries are never deleted in this protocol.
    DeleteForbidden,
}

impl InvalidReason {
    /// The rejection reason as reported to the substrate.
    pub fn message(&self) -> (r: String)
        ensures
            *self is TagMismatch ==> r@ == "tag doesn't point to about"@,
            *self is UnknownLinkType ==> r@ == "unknown link type"@,
            *self is DeleteLinkForbidden ==> r@ == "deleting links isn't valid"@,
            *self is UpdateForbidden ==> r@ == "updating entries isn't valid"@,
            *self is DeleteForbidden ==> r@ == "deleting entries isn't valid"@,
    {
        match self {
            InvalidReason::TagMismatch => "tag doesn't point to about".to_string(),
            InvalidReason::UnknownLinkType => "unknown link type".to_string(),
            InvalidReason::DeleteLinkForbidden => "deleting links isn't valid".to_string(),
            InvalidReason::UpdateForbidden => "updating entries isn't valid".to_string(),
            InvalidReason::DeleteForbidden => "deleting entries isn't valid".to_string(),
        }
    }
}

/// A validator's verdict on one operation.
#[derive(Clone, Copy, Debug, PartialEq, Eq, Structural)]
pub enum ValidateCallbackResult {
    Valid,
    Invalid(InvalidReason),
}

/// Mathematical image of a [`CreateLinkData`].
#[verifier::ext_equal]
pub struct CreateLinkDataView {
    pub base: LinkBaseView,
    pub target: Seq<u8>,
    pub link_type: u8,
    pub tag: Seq<u8>,
}

/// A link-creation operation as delivered for validation: the untyped link
/// type index assigned by the substrate, the base and target addresses, and
/// the raw tag bytes.
pub struct CreateLinkData {
    pub base: LinkBase,
    pub target: EntryHash,
    pub link_type: u8,
    pub tag: Vec<u8>,
}

impl DeepView for CreateLinkData {
    type V = CreateLinkDataView;

    open spec fn deep_view(&self) -> CreateLinkDataView {
        CreateLinkDataView {
            base: self.base.deep_view(),
            target: self.target@,
            link_type: self.link_type,
            tag: self.tag@,
        }
    }
}

/// Mathematical image of an [`Op`].
#[verifier::ext_equal]
pub enum OpView {
    StoreRecord,
    StoreEntry,
    RegisterCreateLink(CreateLinkDataView),
    RegisterDeleteLink,
    RegisterUpdate,
    RegisterDelete,
    RegisterAgentActivity,
}

/// A replicated operation a node is asked to host.
pub enum Op {
    /// Store a publish record.
    StoreRecord,
    /// Store an entry.
    StoreEntry,
    /// Index a new link.
    RegisterCreateLink(CreateLinkData),
    /// Mark a link deleted.
    RegisterDeleteLink,
    /// Register an update of an existing entry.
    RegisterUpdate,
    /// Register a deletion of an existing entry.
    RegisterDelete,
    /// Extend an agent's activity history.
    RegisterAgentActivity,
}

impl DeepView for Op {
    type V = OpView;

    open spec fn deep_view(&self) -> OpView {
        match self {
            Op::StoreRecord => OpView::StoreRecord,
            Op::StoreEntry => OpView::StoreEntry,
            Op::RegisterCreateLink(cl) => OpView::RegisterCreateLink(cl.deep_view()),
            Op::RegisterDeleteLink => OpView::RegisterDeleteLink,
            Op::RegisterUpdate => OpView::RegisterUpdate,
            Op::RegisterDelete => OpView::RegisterDelete,
            Op::RegisterAgentActivity => OpView::RegisterAgentActivity,
        }
    }
}

/// The link type denoted by a substrate link-type index, in declaration
/// order.
pub open spec fn spec_link_type_of(idx: u8) -> Option<LinkTypes> {
    if idx == 0 {
        Some(LinkTypes::Of)
    } else if idx == 1 {
        Some(LinkTypes::By)
    } else if idx == 2 {
        Some(LinkTypes::Who)
    } else {
        None
    }
}

/// Resolves a substrate link-type index to a link type.
pub fn link_type_of(idx: u8) -> (r: Option<LinkTypes>)
    ensures
        r == spec_link_type_of(idx),
{
    if idx == 0 {
        Some(LinkTypes::Of)
    } else if idx == 1 {
        Some(LinkTypes::By)
    } else if idx == 2 {
        Some(LinkTypes::Who)
    } else {
        None
    }
}

/// The agent key a link tag decodes to: exactly the raw key bytes, refused
/// at any other length.
pub open spec fn spec_decode_agent_tag(tag: Seq<u8>) -> Option<Seq<u8>> {
    if tag.len() == AGENT_KEY_LEN {
        Some(tag)
    } else {
        None
    }
}

/// The verdict on one replicated operation against the store's contents.
///
/// Records, entries and agent activity are structurally valid by default.
/// `By` and `Of` links are self/subject indices with no cross-field
/// constraint.  A `Who` link requires fetching its target, decoding it as an
/// attestation and decoding the tag as a key; the tag must equal the
/// attestation's subject.  A fetch failure is an error, never silent
/// validity; an undecodable tag likewise.  Deletions and updates are
/// unconditionally invalid.
pub open spec fn spec_validate(s: StoreView, op: OpView) -> Result<
    ValidateCallbackResult,
    AttestationsError,
> {
    match op {
        OpView::StoreRecord => Ok(ValidateCallbackResult::Valid),
        OpView::StoreEntry => Ok(ValidateCallbackResult::Valid),
        OpView::RegisterCreateLink(cl) => match spec_link_type_of(cl.link_type) {
            Some(LinkTypes::By) => Ok(ValidateCallbackResult::Valid),
            Some(LinkTypes::Of) => Ok(ValidateCallbackResult::Valid),
            Some(LinkTypes::Who) => match spec_lookup_entry(s.entries, cl.target) {
                None => Err(AttestationsError::StructuralInvalid),
                Some(att) => match spec_decode_agent_tag(cl.tag) {
                    None => Err(AttestationsError::SerializationError),
                    Some(k) => if att.about == k {
                        Ok(ValidateCallbackResult::Valid)
                    } else {
                        Ok(ValidateCallbackResult::Invalid(InvalidReason::TagMismatch))
                    },
                },
            },
            None => Ok(ValidateCallbackResult::Invalid(InvalidReason::UnknownLinkType)),
        },
        OpView::RegisterDeleteLink => Ok(
            ValidateCallbackResult::Invalid(InvalidReason::DeleteLinkForbidden),
        ),
        OpView::RegisterUpdate => Ok(
            ValidateCallbackResult::Invalid(InvalidReason::UpdateForbidden),
        ),
        OpView::RegisterDelete => Ok(
            ValidateCallbackResult::Invalid(InvalidReason::DeleteForbidden),
        ),
        OpView::RegisterAgentActivity => Ok(ValidateCallbackResult::Valid),
    }
}

/// Decides whether this node agrees to host a replicated operation.
pub fn validate(op: &Op, store: &Store) -> (r: Result<
    ValidateCallbackResult,
    AttestationsError,
>)
    requires
        store.deep_view().addressing_wf(),
    ensures
        r == spec_validate(store.deep_view(), op.deep_view()),
{
    match op {
        Op::StoreRecord => Ok(ValidateCallbackResult::Valid),
        Op::StoreEntry => Ok(ValidateCallbackResult::Valid),
        Op::RegisterCreateLink(cl) => {
            match link_type_of(cl.link_type) {
                Some(LinkTypes::By) => Ok(ValidateCallbackResult::Valid),
                Some(LinkTypes::Of) => Ok(ValidateCallbackResult::Valid),
                Some(LinkTypes::Who) => {
                    match store.get_entry(&cl.target) {
                        None => Err(AttestationsError::StructuralInvalid),
                        Some(att) => {
                            if cl.tag.len() == AGENT_KEY_LEN {
                                if bytes_eq(&att.about.bytes, &cl.tag) {
                                    Ok(ValidateCallbackResult::Valid)
                                } else {
                                    Ok(ValidateCallbackResult::Invalid(InvalidReason::TagMismatch))
                                }
                            } else {
                                Err(AttestationsError::SerializationError)
                            }
                        },
                    }
                },
                None => Ok(ValidateCallbackResult::Invalid(InvalidReason::UnknownLinkType)),
            }
        },
        Op::RegisterDeleteLink => Ok(
            ValidateCallbackResult::Invalid(InvalidReason::DeleteLinkForbidden),
        ),
        Op::RegisterUpdate => Ok(ValidateCallbackResult::Invalid(InvalidReason::UpdateForbidden)),
        Op::RegisterDelete => Ok(ValidateCallbackResult::Invalid(InvalidReason::DeleteForbidden)),
        Op::RegisterAgentActivity => Ok(ValidateCallbackResult::Valid),
    }
}

/// Tag invariant.  For a `Who` link whose target resolves to an attestation,
/// the validator accepts exactly when the tag carries that attestation's
/// subject key; any other key is a tag mismatch, and a tag that does not
/// decode to a key is refused as undecodable.
pub proof fn lemma_who_tag_invariant(s: StoreView, cl: CreateLinkDataView, att: AttestationView)
    requires
        s.addressing_wf(),
        spec_link_type_of(cl.link_type) == Some(LinkTypes::Who),
        spec_lookup_entry(s.entries, cl.target) == Some(att),
    ensures
        spec_validate(s, OpView::RegisterCreateLink(cl)) == Ok::<
            ValidateCallbackResult,
            AttestationsError,
        >(ValidateCallbackResult::Valid) <==> cl.tag == att.about,
        cl.tag.len() == AGENT_KEY_LEN && cl.tag != att.about ==> spec_validate(
            s,
            OpView::RegisterCreateLink(cl),
        ) == Ok::<ValidateCallbackResult, AttestationsError>(
            ValidateCallbackResult::Invalid(InvalidReason::TagMismatch),
        ),
        cl.tag.len() != AGENT_KEY_LEN ==> spec_validate(s, OpView::RegisterCreateLink(cl)) == Err::<
            ValidateCallbackResult,
            AttestationsError,
        >(AttestationsError::SerializationError),
{
    lemma_lookup_entry_props(s.entries, cl.target, 0);
    assert(att.about.len() == AGENT_KEY_LEN);
}

/// Immutability.  Updating or deleting an entry, or deleting a link, is
/// rejected whatever the store holds and whoever asks.
pub proof fn lemma_immutability(s: StoreView, op: OpView)
    ensures
        op is RegisterDeleteLink ==> spec_validate(s, op) == Ok::<
            ValidateCallbackResult,
            AttestationsError,
        >(ValidateCallbackResult::Invalid(InvalidReason::DeleteLinkForbidden)),
        op is RegisterUpdate ==> spec_validate(s, op) == Ok::<
            ValidateCallbackResult,
            AttestationsError,
        >(ValidateCallbackResult::Invalid(InvalidReason::UpdateForbidden)),
        op is RegisterDelete ==> spec_validate(s, op) == Ok::<
            ValidateCallbackResult,
            AttestationsError,
        >(ValidateCallbackResult::Invalid(InvalidReason::DeleteForbidden)),
{
}

} // verus!

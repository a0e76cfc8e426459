//! The attestation store and the verification engine.
//!
//! Creating an attestation publishes the entry and hangs three index links:
//! `By` under the author, `Of` under the subject, `Who` under a
//! content-derived path tagged with the subject's raw key.  Queries resolve
//! those indices and aggregate, per entry, everyone who published it.
//! Verification checks a transmissible bundle of signed records against the
//! claimed content and the signing substrate's answers.

use vstd::prelude::*;

use crate::codec::hash_attestation;
use crate::codec::lemma_encode_attestation_injective;
use crate::entries::Attestation;
use crate::entries::AttestationView;
use crate::entries::LinkTypes;
use crate::error::AttestationsError;
use crate::store::lemma_lookup_entry_props;
use crate::store::lemma_lookup_finds;
use crate::store::spec_links_matching;
use crate::store::spec_links_matching_from;
use crate::store::spec_lookup_entry;
use crate::store::spec_lookup_entry_from;
use crate::store::spec_records_for;
use crate::store::Link;
use crate::store::LinkBase;
use crate::store::LinkBaseView;
use crate::store::LinkView;
use crate::store::Store;
use crate::store::StoreView;
use crate::types::clone_bytes;
use crate::types::AgentKey;
use crate::types::EntryHash;
use crate::types::RecordMeta;
use crate::types::SignatureCheck;
use crate::types::SignedRecord;
use crate::types::SignedRecordView;

verus! {

/// Mathematical image of a [`Verifiable`].
#[verifier::ext_equal]
pub struct VerifiableView {
    pub attestation: Option<AttestationView>,
    pub signed_actions: Seq<SignedRecordView>,
}

/// A transmissible proof bundle: optionally the claimed attestation, plus
/// the signed ledger records said to have published it.  The attestation is
/// left absent when the verifier derives the expected content itself rather
/// than trusting the sender's copy.
pub struct Verifiable {
    pub attestation: Option<Attestation>,
    pub signed_actions: Vec<SignedRecord>,
}

impl DeepView for Verifiable {
    type V = VerifiableView;

    open spec fn deep_view(&self) -> VerifiableView {
        VerifiableView {
            attestation: self.attestation.deep_view(),
            signed_actions: self.signed_actions.deep_view(),
        }
    }
}

/// Mathematical image of an [`AttestationContext`].
#[verifier::ext_equal]
pub struct AttestationContextView {
    pub author: Seq<u8>,
    pub timestamp: u64,
}

/// One attester of an entry: who published it and when.
pub struct AttestationContext {
    pub author: AgentKey,
    pub timestamp: u64,
}

impl DeepView for AttestationContext {
    type V = AttestationContextView;

    open spec fn deep_view(&self) -> AttestationContextView {
        AttestationContextView { author: self.author@, timestamp: self.timestamp }
    }
}

/// Mathematical image of an [`AttestationOutput`].
#[verifier::ext_equal]
pub struct AttestationOutputView {
    pub hash: Seq<u8>,
    pub attesters: Seq<AttestationContextView>,
    pub content: AttestationView,
    pub verifiable: VerifiableView,
}

/// One resolved attestation: its address, everyone who published it, the
/// entry itself, and a ready-to-transmit [`Verifiable`] over the same
/// records, with the attestation content embedded.
pub struct AttestationOutput {
    pub hash: EntryHash,
    pub attesters: Vec<AttestationContext>,
    pub content: Attestation,
    pub verifiable: Verifiable,
}

impl DeepView for AttestationOutput {
    type V = AttestationOutputView;

    open spec fn deep_view(&self) -> AttestationOutputView {
        AttestationOutputView {
            hash: self.hash@,
            attesters: self.attesters.deep_view(),
            content: self.content.deep_view(),
            verifiable: self.verifiable.deep_view(),
        }
    }
}

/// A query filter: any combination of exact content, author and subject.
pub struct GetAttestationsInput {
    pub content: Option<Vec<u8>>,
    pub by: Option<AgentKey>,
    pub of: Option<AgentKey>,
}

/// The `By` link hung when `me` publishes `a`: indexed under the author.
pub open spec fn spec_by_link(me: Seq<u8>, a: AttestationView) -> LinkView {
    LinkView {
        base: LinkBaseView::Agent(me),
        target: a.hash(),
        link_type: LinkTypes::By,
        tag: Seq::empty(),
    }
}

/// The `Of` link hung when `a` is published: indexed under the subject.
pub open spec fn spec_of_link(a: AttestationView) -> LinkView {
    LinkView {
        base: LinkBaseView::Agent(a.about),
        target: a.hash(),
        link_type: LinkTypes::Of,
        tag: Seq::empty(),
    }
}

/// The `Who` link hung when `a` is published: indexed under the content
/// path, tagged with the subject's raw key bytes.
pub open spec fn spec_who_link(a: AttestationView) -> LinkView {
    LinkView {
        base: LinkBaseView::Content(a.content),
        target: a.hash(),
        link_type: LinkTypes::Who,
        tag: a.about,
    }
}

/// The record the substrate logs when `me` publishes `a`.
pub open spec fn spec_publish_record(
    me: Seq<u8>,
    a: AttestationView,
    timestamp: u64,
    signature: Seq<u8>,
) -> SignedRecordView {
    SignedRecordView { author: me, timestamp, entry_hash: Some(a.hash()), signature }
}

/// The store after `me` publishes attestation `a`: the entry stored under
/// its address, one publish record appended, and the three index links
/// hung, in `By`, `Of`, `Who` order.
pub open spec fn spec_create_attestation(
    pre: StoreView,
    me: Seq<u8>,
    a: AttestationView,
    timestamp: u64,
    signature: Seq<u8>,
) -> StoreView {
    StoreView {
        entries: if pre.contains_hash(a.hash()) {
            pre.entries
        } else {
            pre.entries.push(a)
        },
        records: pre.records.push(spec_publish_record(me, a, timestamp, signature)),
        links: pre.links + seq![spec_by_link(me, a), spec_of_link(a), spec_who_link(a)],
    }
}

/// Publishes an attestation and hangs its three index links, as one logical
/// unit, and returns the entry's content address.
pub fn create_attestation(
    store: &mut Store,
    me: &AgentKey,
    input: &Attestation,
    meta: RecordMeta,
) -> (h: EntryHash)
    requires
        old(store).deep_view().wf(),
        input.wf(),
    ensures
        h@ == input.deep_view().hash(),
        final(store).deep_view() == spec_create_attestation(
            old(store).deep_view(),
            me@,
            input.deep_view(),
            meta.timestamp,
            meta.signature@,
        ),
        final(store).deep_view().wf(),
{
    let ghost pre = store.deep_view();
    let h = hash_attestation(input);
    store.insert_entry(input);
    let record = SignedRecord {
        author: me.clone(),
        timestamp: meta.timestamp,
        entry_hash: Some(h.clone()),
        signature: meta.signature,
    };
    store.push_record(record);
    store.push_link(
        Link {
            base: LinkBase::Agent(me.clone()),
            target: h.clone(),
            link_type: LinkTypes::By,
            tag: Vec::new(),
        },
    );
    store.push_link(
        Link {
            base: LinkBase::Agent(input.about.clone()),
            target: h.clone(),
            link_type: LinkTypes::Of,
            tag: Vec::new(),
        },
    );
    store.push_link(
        Link {
            base: LinkBase::Content(clone_bytes(&input.content)),
            target: h.clone(),
            link_type: LinkTypes::Who,
            tag: clone_bytes(&input.about.bytes),
        },
    );
    proof {
        let a = input.deep_view();
        let target = spec_create_attestation(pre, me@, a, meta.timestamp, meta.signature@);
        assert(store.deep_view().records =~= target.records);
        assert(store.deep_view().links =~= target.links);
        assert(store.deep_view() =~= target);
        let post = store.deep_view();
        assert forall|i: int| 0 <= i < post.entries.len() implies exists|j: int|
            0 <= j < post.records.len() && (#[trigger] post.records[j]).entry_hash == Some(
                (#[trigger] post.entries[i]).hash(),
            ) by {
            if i < pre.entries.len() {
                let j = choose|j: int|
                    0 <= j < pre.records.len() && (#[trigger] pre.records[j]).entry_hash == Some(
                        pre.entries[i].hash(),
                    );
                assert(post.records[j].entry_hash == Some(post.entries[i].hash()));
            } else {
                let j = pre.records.len() as int;
                assert(post.records[j].entry_hash == Some(post.entries[i].hash()));
            }
        }
    }
    h
}

/// The attesters drawn from a record list: each record's author and
/// timestamp, in order.
pub open spec fn spec_attesters(rs: Seq<SignedRecordView>) -> Seq<AttestationContextView> {
    rs.map_values(
        |r: SignedRecordView| AttestationContextView { author: r.author, timestamp: r.timestamp },
    )
}

/// The query output for one link target: the entry stored there, everyone
/// who published it, and a transmissible bundle over those same records
/// with the attestation content embedded.  `None` when the target cannot
/// be resolved to a stored entry; such targets are skipped.
pub open spec fn spec_output_for(s: StoreView, target: Seq<u8>) -> Option<AttestationOutputView> {
    match spec_lookup_entry(s.entries, target) {
        None => None,
        Some(att) => Some(
            AttestationOutputView {
                hash: att.hash(),
                attesters: spec_attesters(spec_records_for(s.records, target)),
                content: att,
                verifiable: VerifiableView {
                    attestation: Some(att),
                    signed_actions: spec_records_for(s.records, target),
                },
            },
        ),
    }
}

/// The outputs for the links from index `i` on, in link order, skipping
/// unresolvable targets.
pub open spec fn spec_outputs_from(s: StoreView, links: Seq<LinkView>, i: int) -> Seq<
    AttestationOutputView,
>
    decreases links.len() - i,
{
    if i < 0 || i >= links.len() {
        Seq::empty()
    } else {
        let rest = spec_outputs_from(s, links, i + 1);
        match spec_output_for(s, links[i].target) {
            Some(o) => seq![o] + rest,
            None => rest,
        }
    }
}

/// The outputs for a link list, in link order.
pub open spec fn spec_outputs(s: StoreView, links: Seq<LinkView>) -> Seq<AttestationOutputView> {
    spec_outputs_from(s, links, 0)
}

/// Mathematical image of a [`GetAttestationsInput`].
#[verifier::ext_equal]
pub struct GetAttestationsInputView {
    pub content: Option<Seq<u8>>,
    pub by: Option<Seq<u8>>,
    pub of: Option<Seq<u8>>,
}

impl DeepView for GetAttestationsInput {
    type V = GetAttestationsInputView;

    open spec fn deep_view(&self) -> GetAttestationsInputView {
        GetAttestationsInputView {
            content: match self.content {
                Some(c) => Some(c@),
                None => None,
            },
            by: match self.by {
                Some(k) => Some(k@),
                None => None,
            },
            of: match self.of {
                Some(k) => Some(k@),
                None => None,
            },
        }
    }
}

/// Every output a query can draw from, before de-duplication.  With exact
/// content given, the `Who` path index decides, narrowed by subject-key tag
/// when a subject is given too; without content, the subject's `Of` index
/// and the author's `By` index are concatenated; with nothing given, there
/// is nothing to draw from.
pub open spec fn spec_query_candidates(s: StoreView, input: GetAttestationsInputView) -> Seq<
    AttestationOutputView,
> {
    match input.content {
        Some(c) => match input.of {
            Some(k) => spec_outputs(
                s,
                spec_links_matching(
                    s.links,
                    LinkBaseView::Content(c),
                    Some(LinkTypes::Who),
                    Some(k),
                ),
            ),
            None => spec_outputs(
                s,
                spec_links_matching(s.links, LinkBaseView::Content(c), None, None),
            ),
        },
        None => {
            let of_outs = match input.of {
                Some(k) => spec_outputs(
                    s,
                    spec_links_matching(
                        s.links,
                        LinkBaseView::Agent(k),
                        Some(LinkTypes::Of),
                        None,
                    ),
                ),
                None => Seq::<AttestationOutputView>::empty(),
            };
            let by_outs = match input.by {
                Some(k) => spec_outputs(
                    s,
                    spec_links_matching(
                        s.links,
                        LinkBaseView::Agent(k),
                        Some(LinkTypes::By),
                        None,
                    ),
                ),
                None => Seq::<AttestationOutputView>::empty(),
            };
            of_outs + by_outs
        },
    }
}

/// No two outputs share an entry address.
pub open spec fn hashes_distinct(r: Seq<AttestationOutputView>) -> bool {
    forall|j: int, k: int|
        0 <= j < k < r.len() ==> (#[trigger] r[j]).hash != (#[trigger] r[k]).hash
}

/// `r` is `cands` de-duplicated by entry address: everything in `r` is a
/// candidate, no address appears twice, and every candidate's address
/// appears once.
pub open spec fn spec_dedup_by_hash(
    cands: Seq<AttestationOutputView>,
    r: Seq<AttestationOutputView>,
) -> bool {
    &&& forall|j: int| 0 <= j < r.len() ==> cands.contains(#[trigger] r[j])
    &&& hashes_distinct(r)
    &&& forall|k: int|
        0 <= k < cands.len() ==> exists|j: int|
            0 <= j < r.len() && (#[trigger] r[j]).hash == (#[trigger] cands[k]).hash
}

/// What a query returns: with exact content given the path-index outputs in
/// link order, otherwise the union of the subject and author indices,
/// de-duplicated by entry address.
pub open spec fn spec_get_attestations_post(
    s: StoreView,
    input: GetAttestationsInputView,
    r: Seq<AttestationOutputView>,
) -> bool {
    match input.content {
        Some(c) => r == spec_query_candidates(s, input),
        None => spec_dedup_by_hash(spec_query_candidates(s, input), r),
    }
}

/// The index address of the calling agent's own attestations.
fn get_my_attestations_base(me: &AgentKey) -> (b: LinkBase)
    ensures
        b.deep_view() == LinkBaseView::Agent(me@),
{
    LinkBase::Agent(me.clone())
}

/// The index address of an agent's attestations.
fn get_agent_attestations_base(agent: &AgentKey) -> (b: LinkBase)
    ensures
        b.deep_view() == LinkBaseView::Agent(agent@),
{
    LinkBase::Agent(agent.clone())
}

/// Collects each record's author and timestamp, in order.
fn attesters_of(records: &Vec<SignedRecord>) -> (r: Vec<AttestationContext>)
    ensures
        r.deep_view() == spec_attesters(records.deep_view()),
{
    let mut r: Vec<AttestationContext> = Vec::new();
    let mut i: usize = 0;
    while i < records.len()
        invariant
            i <= records@.len(),
            r.deep_view() =~= spec_attesters(records.deep_view().take(i as int)),
        decreases records@.len() - i,
    {
        proof {
            assert(records@[i as int].deep_view() == records.deep_view()[i as int]);
        }
        let rec = &records[i];
        let ghost r0 = r.deep_view();
        r.push(AttestationContext { author: rec.author.clone(), timestamp: rec.timestamp });
        proof {
            assert(r.deep_view() =~= r0.push(
                AttestationContextView { author: rec.author@, timestamp: rec.timestamp },
            ));
            assert(r.deep_view() =~= spec_attesters(records.deep_view().take(i as int + 1)));
        }
        i = i + 1;
    }
    proof {
        assert(records.deep_view().take(records@.len() as int) =~= records.deep_view());
        assert(r.deep_view() =~= spec_attesters(records.deep_view()));
    }
    r
}

/// Resolves the links under `base` that pass the given filters, and builds
/// one output per resolvable target, in link order.
pub fn get_attestations_inner(
    store: &Store,
    base: &LinkBase,
    maybe_link_type: Option<LinkTypes>,
    maybe_tag: Option<&Vec<u8>>,
) -> (r: Vec<AttestationOutput>)
    requires
        store.deep_view().addressing_wf(),
    ensures
        r.deep_view() == spec_outputs(
            store.deep_view(),
            spec_links_matching(
                store.deep_view().links,
                base.deep_view(),
                maybe_link_type,
                maybe_tag.deep_view(),
            ),
        ),
{
    let links = store.get_links(base, maybe_link_type, maybe_tag);
    let ghost s = store.deep_view();
    let ghost lv = links.deep_view();
    let mut out: Vec<AttestationOutput> = Vec::new();
    let mut i: usize = 0;
    while i < links.len()
        invariant
            store.deep_view() == s,
            s.addressing_wf(),
            lv == links.deep_view(),
            i <= links@.len(),
            links@.len() == lv.len(),
            spec_outputs(s, lv) =~= out.deep_view() + spec_outputs_from(s, lv, i as int),
        decreases lv.len() - i,
    {
        proof {
            assert(links@[i as int].deep_view() == lv[i as int]);
        }
        let target = &links[i].target;
        match store.get_entry(target) {
            Some(att) => {
                proof {
                    lemma_lookup_entry_props(s.entries, target@, 0);
                    assert(Some(att).deep_view() == spec_lookup_entry(s.entries, target@));
                    assert(att.deep_view() == spec_lookup_entry(s.entries, target@).unwrap());
                }
                let h = hash_attestation(&att);
                let records = store.records_for(target);
                let attesters = attesters_of(&records);
                let embedded = att.clone();
                let ghost out0 = out.deep_view();
                let ghost o = spec_output_for(s, lv[i as int].target).unwrap();
                out.push(
                    AttestationOutput {
                        hash: h,
                        attesters,
                        content: att,
                        verifiable: Verifiable {
                            attestation: Some(embedded),
                            signed_actions: records,
                        },
                    },
                );
                proof {
                    assert(out.deep_view()[out0.len() as int] =~= o);
                    assert(out.deep_view() =~= out0.push(o));
                }
            },
            None => {
                proof {
                    assert(spec_output_for(s, lv[i as int].target) is None);
                }
            },
        }
        i = i + 1;
    }
    proof {
        assert(out.deep_view() =~= spec_outputs(s, lv));
    }
    out
}

/// Whether some already-collected output carries the address `h`.
fn contains_output_hash(results: &Vec<AttestationOutput>, h: &EntryHash) -> (r: bool)
    ensures
        r == exists|j: int|
            0 <= j < results.deep_view().len() && (#[trigger] results.deep_view()[j]).hash == h@,
{
    let mut i: usize = 0;
    while i < results.len()
        invariant
            i <= results@.len(),
            forall|j: int| 0 <= j < i ==> (#[trigger] results.deep_view()[j]).hash != h@,
        decreases results@.len() - i,
    {
        proof {
            assert(results@[i as int].deep_view() == results.deep_view()[i as int]);
        }
        if results[i].hash.hash_eq(h) {
            proof {
                assert(results.deep_view()[i as int].hash == h@);
            }
            return true;
        }
        i = i + 1;
    }
    false
}

/// Folds a batch of outputs into the collected results, keeping one output
/// per entry address.  Outputs whose address is already represented are
/// dropped: for one address all candidate outputs coincide, so nothing is
/// lost.
fn add_deduped(results: &mut Vec<AttestationOutput>, outs: Vec<AttestationOutput>)
    requires
        hashes_distinct(old(results).deep_view()),
    ensures
        hashes_distinct(final(results).deep_view()),
        final(results).deep_view().len() >= old(results).deep_view().len(),
        forall|j: int|
            0 <= j < old(results).deep_view().len() ==> final(results).deep_view()[j] == old(
                results,
            ).deep_view()[j],
        forall|j: int|
            0 <= j < final(results).deep_view().len() ==> old(results).deep_view().contains(
                #[trigger] final(results).deep_view()[j],
            ) || outs.deep_view().contains(final(results).deep_view()[j]),
        forall|k: int|
            0 <= k < outs.deep_view().len() ==> exists|j: int|
                0 <= j < final(results).deep_view().len() && (
                #[trigger] final(results).deep_view()[j]).hash == (
                #[trigger] outs.deep_view()[k]).hash,
{
    let ghost results0 = results.deep_view();
    let ghost outs0 = outs.deep_view();
    let mut outs = outs;
    while outs.len() > 0
        invariant
            hashes_distinct(results.deep_view()),
            results.deep_view().len() >= results0.len(),
            outs@.len() <= outs0.len(),
            outs.deep_view() =~= outs0.take(outs@.len() as int),
            forall|j: int|
                0 <= j < results0.len() ==> #[trigger] results.deep_view()[j] == results0[j],
            forall|j: int|
                0 <= j < results.deep_view().len() ==> results0.contains(
                    #[trigger] results.deep_view()[j],
                ) || outs0.contains(results.deep_view()[j]),
            forall|k: int|
                outs@.len() <= k < outs0.len() ==> exists|j: int|
                    0 <= j < results.deep_view().len() && (#[trigger] results.deep_view()[j]).hash
                        == (#[trigger] outs0[k]).hash,
        decreases outs@.len(),
    {
        let ghost l = outs@.len() as int;
        let ghost pre_results = results.deep_view();
        proof {
            assert(outs@[l - 1].deep_view() == outs.deep_view()[l - 1]);
            assert(outs.deep_view()[l - 1] == outs0[l - 1]);
        }
        if let Some(o) = outs.pop() {
            proof {
                assert(o.deep_view() == outs0[l - 1]);
                assert(outs.deep_view() =~= outs0.take(l - 1));
            }
            if !contains_output_hash(results, &o.hash) {
                let ghost r0 = results.deep_view();
                results.push(o);
                proof {
                    assert(results.deep_view() =~= r0.push(outs0[l - 1]));
                    assert(outs0.contains(outs0[l - 1]));
                    assert(results.deep_view()[r0.len() as int].hash == outs0[l - 1].hash);
                }
            }
        }
        proof {
            let rv = results.deep_view();
            assert forall|k: int| l - 1 <= k < outs0.len() implies exists|j: int|
                0 <= j < rv.len() && (#[trigger] rv[j]).hash == (#[trigger] outs0[k]).hash by {
                if k >= l {
                    let j = choose|j: int|
                        0 <= j < pre_results.len() && (#[trigger] pre_results[j]).hash
                            == outs0[k].hash;
                    assert(rv[j].hash == outs0[k].hash);
                } else {
                    if exists|j: int|
                        0 <= j < pre_results.len() && (#[trigger] pre_results[j]).hash == outs0[l
                            - 1].hash {
                        let j = choose|j: int|
                            0 <= j < pre_results.len() && (#[trigger] pre_results[j]).hash
                                == outs0[l - 1].hash;
                        assert(rv[j].hash == outs0[k].hash);
                    } else {
                        assert(rv[pre_results.len() as int].hash == outs0[k].hash);
                    }
                }
            }
        }
    }
    proof {
        assert(outs0.take(0) =~= Seq::<AttestationOutputView>::empty());
    }
}

/// Resolves attestations by any combination of exact content, author and
/// subject.
///
/// With `content` set, the content path index decides, narrowed by exact
/// subject-key tag when `of` is set too.  Without `content`, the `of` and
/// `by` indices are resolved and their union returned, de-duplicated by
/// entry address; with neither set, the result is empty.
pub fn get_attestations(store: &Store, input: &GetAttestationsInput) -> (r: Vec<AttestationOutput>)
    requires
        store.deep_view().addressing_wf(),
    ensures
        spec_get_attestations_post(store.deep_view(), input.deep_view(), r.deep_view()),
{
    let ghost s = store.deep_view();
    let ghost iv = input.deep_view();
    match &input.content {
        Some(content) => {
            let base = LinkBase::Content(clone_bytes(content));
            match &input.of {
                Some(agent) => {
                    let r = get_attestations_inner(
                        store,
                        &base,
                        Some(LinkTypes::Who),
                        Some(&agent.bytes),
                    );
                    proof {
                        assert((&agent.bytes).deep_view() =~= agent@);
                        assert(Some(&agent.bytes).deep_view() == Some(agent@));
                        assert(r.deep_view() == spec_query_candidates(s, iv));
                    }
                    r
                },
                None => {
                    let r = get_attestations_inner(store, &base, None, None);
                    proof {
                        assert(r.deep_view() == spec_query_candidates(s, iv));
                    }
                    r
                },
            }
        },
        None => {
            let mut results: Vec<AttestationOutput> = Vec::new();
            let ghost of_outs = match iv.of {
                Some(k) => spec_outputs(
                    s,
                    spec_links_matching(s.links, LinkBaseView::Agent(k), Some(LinkTypes::Of), None),
                ),
                None => Seq::<AttestationOutputView>::empty(),
            };
            let ghost by_outs = match iv.by {
                Some(k) => spec_outputs(
                    s,
                    spec_links_matching(s.links, LinkBaseView::Agent(k), Some(LinkTypes::By), None),
                ),
                None => Seq::<AttestationOutputView>::empty(),
            };
            match &input.of {
                Some(agent) => {
                    let base = get_agent_attestations_base(agent);
                    let outs = get_attestations_inner(store, &base, Some(LinkTypes::Of), None);
                    proof {
                        assert(outs.deep_view() == of_outs);
                    }
                    add_deduped(&mut results, outs);
                },
                None => {},
            }
            let ghost mid = results.deep_view();
            match &input.by {
                Some(agent) => {
                    let base = get_agent_attestations_base(agent);
                    let outs = get_attestations_inner(store, &base, Some(LinkTypes::By), None);
                    proof {
                        assert(outs.deep_view() == by_outs);
                    }
                    add_deduped(&mut results, outs);
                },
                None => {},
            }
            proof {
                let cands = spec_query_candidates(s, iv);
                assert(cands == of_outs + by_outs);
                let rv = results.deep_view();
                assert forall|j: int| 0 <= j < rv.len() implies cands.contains(#[trigger] rv[j]) by {
                    if of_outs.contains(rv[j]) {
                        let w = choose|w: int| 0 <= w < of_outs.len() && of_outs[w] == rv[j];
                        assert(cands[w] == rv[j]);
                    } else {
                        assert(by_outs.contains(rv[j]));
                        let w = choose|w: int| 0 <= w < by_outs.len() && by_outs[w] == rv[j];
                        assert(cands[of_outs.len() + w] == rv[j]);
                    }
                }
                assert forall|k: int| 0 <= k < cands.len() implies exists|j: int|
                    0 <= j < rv.len() && (#[trigger] rv[j]).hash == (#[trigger] cands[k]).hash by {
                    if k < of_outs.len() {
                        assert(cands[k] == of_outs[k]);
                        let j = choose|j: int|
                            0 <= j < mid.len() && (#[trigger] mid[j]).hash == of_outs[k].hash;
                        assert(rv[j].hash == cands[k].hash);
                    } else {
                        assert(cands[k] == by_outs[k - of_outs.len()]);
                    }
                }
            }
            results
        },
    }
}

/// All attestations the calling agent authored: its own `By` index.
pub fn get_my_attestations(store: &Store, me: &AgentKey) -> (r: Vec<AttestationOutput>)
    requires
        store.deep_view().addressing_wf(),
    ensures
        r.deep_view() == spec_outputs(
            store.deep_view(),
            spec_links_matching(
                store.deep_view().links,
                LinkBaseView::Agent(me@),
                Some(LinkTypes::By),
                None,
            ),
        ),
{
    let base = get_my_attestations_base(me);
    let r = get_attestations_inner(store, &base, Some(LinkTypes::By), None);
    proof {
        assert(Option::<&Vec<u8>>::None.deep_view() == Option::<Seq<u8>>::None);
    }
    r
}

/// Every link whose target resolves contributes its output to the collected
/// output list.
pub proof fn lemma_outputs_contains(s: StoreView, links: Seq<LinkView>, i: int, k: int)
    requires
        0 <= i <= k < links.len(),
        spec_output_for(s, links[k].target) is Some,
    ensures
        spec_outputs_from(s, links, i).contains(spec_output_for(s, links[k].target).unwrap()),
    decreases k - i,
{
    let o = spec_output_for(s, links[k].target).unwrap();
    let cur = spec_outputs_from(s, links, i);
    let rest = spec_outputs_from(s, links, i + 1);
    if i == k {
        assert(cur[0] == o);
    } else {
        lemma_outputs_contains(s, links, i + 1, k);
        let w = choose|w: int| 0 <= w < rest.len() && rest[w] == o;
        match spec_output_for(s, links[i].target) {
            Some(p) => {
                assert(cur[w + 1] == o);
            },
            None => {},
        }
    }
}

/// Every collected output arises from some link in the list whose target
/// resolves to exactly that output.
pub proof fn lemma_outputs_sound(s: StoreView, links: Seq<LinkView>, i: int)
    requires
        0 <= i <= links.len(),
    ensures
        forall|j: int|
            #![trigger spec_outputs_from(s, links, i)[j]]
            0 <= j < spec_outputs_from(s, links, i).len() ==> exists|k: int|
                #![trigger links[k]]
                i <= k < links.len() && spec_output_for(s, links[k].target) == Some(
                    spec_outputs_from(s, links, i)[j],
                ),
    decreases links.len() - i,
{
    if i < links.len() {
        lemma_outputs_sound(s, links, i + 1);
        let cur = spec_outputs_from(s, links, i);
        let rest = spec_outputs_from(s, links, i + 1);
        assert forall|j: int| #![trigger cur[j]] 0 <= j < cur.len() implies exists|k: int|
            #![trigger links[k]]
            i <= k < links.len() && spec_output_for(s, links[k].target) == Some(cur[j]) by {
            match spec_output_for(s, links[i].target) {
                Some(o) => {
                    if j == 0 {
                        assert(cur[0] == o);
                        assert(spec_output_for(s, links[i].target) == Some(cur[0]));
                    } else {
                        assert(cur[j] == rest[j - 1]);
                        let k = choose|k: int|
                            i + 1 <= k < links.len() && spec_output_for(
                                s,
                                (#[trigger] links[k]).target,
                            ) == Some(rest[j - 1]);
                        assert(spec_output_for(s, links[k].target) == Some(cur[j]));
                    }
                },
                None => {
                    assert(cur[j] == rest[j]);
                    let k = choose|k: int|
                        i + 1 <= k < links.len() && spec_output_for(
                            s,
                            (#[trigger] links[k]).target,
                        ) == Some(rest[j]);
                    assert(spec_output_for(s, links[k].target) == Some(cur[j]));
                },
            }
        }
    }
}

/// After a publish, the new entry is found under its address, and its `Who`
/// link is among the links matching its content path and subject tag.
pub proof fn lemma_create_makes_queryable(
    pre: StoreView,
    me: Seq<u8>,
    a: AttestationView,
    timestamp: u64,
    signature: Seq<u8>,
)
    requires
        pre.wf(),
        a.wf(),
    ensures
        spec_lookup_entry(
            spec_create_attestation(pre, me, a, timestamp, signature).entries,
            a.hash(),
        ) == Some(a),
        spec_links_matching(
            spec_create_attestation(pre, me, a, timestamp, signature).links,
            LinkBaseView::Content(a.content),
            Some(LinkTypes::Who),
            Some(a.about),
        ).contains(spec_who_link(a)),
{
    let s2 = spec_create_attestation(pre, me, a, timestamp, signature);
    let w = spec_who_link(a);
    let base = LinkBaseView::Content(a.content);
    assert(s2.links[pre.links.len() as int + 2] == w);
    assert(crate::store::link_matches(w, base, Some(LinkTypes::Who), Some(a.about)));
    crate::store::lemma_links_matching_complete(
        s2.links,
        base,
        Some(LinkTypes::Who),
        Some(a.about),
        0,
    );
    // the lookup of a's address finds exactly a
    if pre.contains_hash(a.hash()) {
        let idx = choose|i: int|
            0 <= i < pre.entries.len() && (#[trigger] pre.entries[i]).hash() == a.hash();
        lemma_encode_attestation_injective(
            pre.entries[idx].content,
            pre.entries[idx].about,
            a.content,
            a.about,
        );
        assert(pre.entries[idx] =~= a);
        lemma_lookup_finds(s2.entries, a, 0, idx);
    } else {
        let idx = s2.entries.len() - 1;
        assert(s2.entries[idx] == a);
        assert forall|m: int, n: int| 0 <= m < n < s2.entries.len() implies (
        #[trigger] s2.entries[m]).hash() != (#[trigger] s2.entries[n]).hash() by {
            if n == s2.entries.len() - 1 {
                assert(s2.entries[m] == pre.entries[m]);
            }
        }
        lemma_lookup_finds(s2.entries, a, 0, idx);
    }
}

/// Round trip.  Publishing an attestation and then querying by its exact
/// content and subject returns a result whose entry is that attestation and
/// whose address is the address of its canonical encoding — whatever else
/// the store already held.
pub proof fn lemma_create_then_query_round_trip(
    pre: StoreView,
    me: Seq<u8>,
    a: AttestationView,
    timestamp: u64,
    signature: Seq<u8>,
    r: Seq<AttestationOutputView>,
)
    requires
        pre.wf(),
        a.wf(),
        spec_get_attestations_post(
            spec_create_attestation(pre, me, a, timestamp, signature),
            GetAttestationsInputView { content: Some(a.content), by: None, of: Some(a.about) },
            r,
        ),
    ensures
        exists|j: int| 0 <= j < r.len() && (#[trigger] r[j]).content == a && r[j].hash == a.hash(),
{
    let s2 = spec_create_attestation(pre, me, a, timestamp, signature);
    let w = spec_who_link(a);
    let base = LinkBaseView::Content(a.content);
    let ml = spec_links_matching(s2.links, base, Some(LinkTypes::Who), Some(a.about));
    lemma_create_makes_queryable(pre, me, a, timestamp, signature);
    assert(ml.contains(w));
    let k = choose|k: int| 0 <= k < ml.len() && ml[k] == w;
    assert(spec_lookup_entry(s2.entries, a.hash()) == Some(a));
    assert(w.target == a.hash());
    let o = spec_output_for(s2, ml[k].target).unwrap();
    assert(o.content == a && o.hash == a.hash());
    lemma_outputs_contains(s2, ml, 0, k);
    let outs = spec_outputs(s2, ml);
    assert(r == outs);
    let j = choose|j: int| 0 <= j < outs.len() && outs[j] == o;
    assert(r[j].content == a && r[j].hash == a.hash());
}

/// Idempotent query union.  Querying by author and subject together never
/// yields the same entry twice: the result is address-distinct, and every
/// candidate drawn from either index is represented exactly once.
pub proof fn lemma_query_union_idempotent(
    s: StoreView,
    by_key: Seq<u8>,
    of_key: Seq<u8>,
    r: Seq<AttestationOutputView>,
)
    requires
        spec_get_attestations_post(
            s,
            GetAttestationsInputView { content: None, by: Some(by_key), of: Some(of_key) },
            r,
        ),
    ensures
        hashes_distinct(r),
        forall|c: AttestationOutputView|
            #[trigger] spec_query_candidates(
                s,
                GetAttestationsInputView { content: None, by: Some(by_key), of: Some(of_key) },
            ).contains(c) ==> exists|j: int| 0 <= j < r.len() && (#[trigger] r[j]).hash == c.hash,
{
    let input = GetAttestationsInputView { content: None, by: Some(by_key), of: Some(of_key) };
    let cands = spec_query_candidates(s, input);
    assert forall|c: AttestationOutputView| cands.contains(c) implies exists|j: int|
        0 <= j < r.len() && (#[trigger] r[j]).hash == c.hash by {
        let k = choose|k: int| 0 <= k < cands.len() && cands[k] == c;
        assert(exists|j: int| 0 <= j < r.len() && (#[trigger] r[j]).hash == cands[k].hash);
    }
}

/// The three index links hung when `me` publishes `a`, in the order they
/// are hung: `By` under the author, `Of` under the subject, `Who` under
/// the content path tagged with the subject's raw key.  A host indexing an
/// attestation on a real substrate derives its link operations from this
/// list rather than restating the discipline.
pub fn attestation_links(me: &AgentKey, a: &Attestation) -> (r: Vec<Link>)
    requires
        a.wf(),
    ensures
        r.deep_view() == seq![
            spec_by_link(me@, a.deep_view()),
            spec_of_link(a.deep_view()),
            spec_who_link(a.deep_view()),
        ],
{
    let h = hash_attestation(a);
    let mut r: Vec<Link> = Vec::new();
    r.push(
        Link {
            base: LinkBase::Agent(me.clone()),
            target: h.clone(),
            link_type: LinkTypes::By,
            tag: Vec::new(),
        },
    );
    r.push(
        Link {
            base: LinkBase::Agent(a.about.clone()),
            target: h.clone(),
            link_type: LinkTypes::Of,
            tag: Vec::new(),
        },
    );
    r.push(
        Link {
            base: LinkBase::Content(clone_bytes(&a.content)),
            target: h,
            link_type: LinkTypes::Who,
            tag: clone_bytes(&a.about.bytes),
        },
    );
    proof {
        assert(r.deep_view() =~= seq![
            spec_by_link(me@, a.deep_view()),
            spec_of_link(a.deep_view()),
            spec_who_link(a.deep_view()),
        ]);
    }
    r
}

/// What one record contributes to verification: the hash comparison against
/// the claimed content, then the signing substrate's answer.
pub open spec fn spec_check_signature(check: SignatureCheck) -> Result<(), AttestationsError> {
    match check {
        SignatureCheck::Confirmed => Ok(()),
        SignatureCheck::Denied => Err(AttestationsError::BadSignature),
        SignatureCheck::Unavailable => Err(AttestationsError::VerificationUnavailable),
    }
}

/// The verdict on one signed record of a bundle claiming `att`: if content
/// is claimed, the record must embed exactly its address; then the
/// signature check must have confirmed.
pub open spec fn spec_check_record(
    att: Option<AttestationView>,
    rec: SignedRecordView,
    check: SignatureCheck,
) -> Result<(), AttestationsError> {
    match att {
        Some(a) => match rec.entry_hash {
            None => Err(AttestationsError::ContentMismatch),
            Some(h) => if h != a.hash() {
                Err(AttestationsError::ContentMismatch)
            } else {
                spec_check_signature(check)
            },
        },
        None => spec_check_signature(check),
    }
}

/// The verdict on a bundle, examining records from index `i` on, in list
/// order: the first failing record decides, and an exhausted list succeeds.
pub open spec fn spec_verify_from(
    v: VerifiableView,
    checks: Seq<SignatureCheck>,
    i: int,
) -> Result<(), AttestationsError>
    decreases v.signed_actions.len() - i,
{
    if i < 0 || i >= v.signed_actions.len() {
        Ok(())
    } else {
        match spec_check_record(v.attestation, v.signed_actions[i], checks[i]) {
            Err(e) => Err(e),
            Ok(u) => spec_verify_from(v, checks, i + 1),
        }
    }
}

/// The verdict on a bundle: every record must pass; an empty record list
/// trivially succeeds.
pub open spec fn spec_verify(v: VerifiableView, checks: Seq<SignatureCheck>) -> Result<
    (),
    AttestationsError,
> {
    spec_verify_from(v, checks, 0)
}

/// Checks a proof bundle against the signing substrate's per-record
/// answers, in list order.
///
/// `checks` pairs with `signed_actions` by position; the caller obtains each
/// answer by handing the record's author key, signature and payload to the
/// signing substrate.  Verification is a pure predicate over already-fetched
/// data: nothing is retried, and the first failing record decides.
pub fn verify(input: &Verifiable, checks: &Vec<SignatureCheck>) -> (r: Result<
    (),
    AttestationsError,
>)
    requires
        checks@.len() == input.signed_actions@.len(),
        match input.attestation {
            Some(a) => a.wf(),
            None => true,
        },
    ensures
        r == spec_verify(input.deep_view(), checks@),
{
    let ghost v = input.deep_view();
    let mut i: usize = 0;
    while i < input.signed_actions.len()
        invariant
            checks@.len() == input.signed_actions@.len(),
            match input.attestation {
                Some(a) => a.wf(),
                None => true,
            },
            v == input.deep_view(),
            i <= v.signed_actions.len(),
            spec_verify(v, checks@) == spec_verify_from(v, checks@, i as int),
        decreases v.signed_actions.len() - i,
    {
        proof {
            assert(input.signed_actions@[i as int].deep_view() == v.signed_actions[i as int]);
        }
        let rec = &input.signed_actions[i];
        match &input.attestation {
            Some(att) => {
                proof {
                    assert(v.attestation == Some(att.deep_view()));
                }
                let h = hash_attestation(att);
                match &rec.entry_hash {
                    None => {
                        return Err(AttestationsError::ContentMismatch);
                    },
                    Some(eh) => {
                        if !eh.hash_eq(&h) {
                            return Err(AttestationsError::ContentMismatch);
                        }
                    },
                }
            },
            None => {},
        }
        match checks[i] {
            SignatureCheck::Confirmed => {},
            SignatureCheck::Denied => {
                return Err(AttestationsError::BadSignature);
            },
            SignatureCheck::Unavailable => {
                return Err(AttestationsError::VerificationUnavailable);
            },
        }
        i = i + 1;
    }
    Ok(())
}

/// A bundle passes verification exactly when every record, paired with its
/// signature answer, passes individually.
pub proof fn lemma_verify_ok_iff(v: VerifiableView, checks: Seq<SignatureCheck>, i: int)
    requires
        0 <= i <= v.signed_actions.len(),
        checks.len() == v.signed_actions.len(),
    ensures
        spec_verify_from(v, checks, i) == Ok::<(), AttestationsError>(()) <==> forall|j: int|
            i <= j < v.signed_actions.len() ==> spec_check_record(
                v.attestation,
                #[trigger] v.signed_actions[j],
                checks[j],
            ) == Ok::<(), AttestationsError>(()),
    decreases v.signed_actions.len() - i,
{
    if i < v.signed_actions.len() {
        lemma_verify_ok_iff(v, checks, i + 1);
    }
}

/// Verification soundness.  A bundle whose records all embed exactly the
/// claimed attestation's address, with every signature confirmed, verifies;
/// claiming any other well-formed attestation over the same records fails
/// with a content mismatch, and any denied signature means the bundle
/// cannot verify.
pub proof fn lemma_verification_soundness(
    a: AttestationView,
    records: Seq<SignedRecordView>,
    checks: Seq<SignatureCheck>,
)
    requires
        a.wf(),
        checks.len() == records.len(),
        forall|j: int| 0 <= j < records.len() ==> (#[trigger] records[j]).entry_hash == Some(
            a.hash(),
        ),
    ensures
        (forall|j: int| 0 <= j < checks.len() ==> #[trigger] checks[j] == SignatureCheck::Confirmed)
            ==> spec_verify(VerifiableView { attestation: Some(a), signed_actions: records }, checks)
            == Ok::<(), AttestationsError>(()),
        forall|b: AttestationView|
            b.wf() && b != a && records.len() > 0 ==> #[trigger] spec_verify(
                VerifiableView { attestation: Some(b), signed_actions: records },
                checks,
            ) == Err::<(), AttestationsError>(AttestationsError::ContentMismatch),
        (exists|j: int| 0 <= j < checks.len() && #[trigger] checks[j] == SignatureCheck::Denied)
            ==> spec_verify(VerifiableView { attestation: Some(a), signed_actions: records }, checks)
            != Ok::<(), AttestationsError>(()),
{
    let v = VerifiableView { attestation: Some(a), signed_actions: records };
    lemma_verify_ok_iff(v, checks, 0);
    if forall|j: int| 0 <= j < checks.len() ==> #[trigger] checks[j] == SignatureCheck::Confirmed {
        assert forall|j: int| 0 <= j < records.len() implies spec_check_record(
            v.attestation,
            #[trigger] v.signed_actions[j],
            checks[j],
        ) == Ok::<(), AttestationsError>(()) by {
            assert(checks[j] == SignatureCheck::Confirmed);
        }
    }
    assert forall|b: AttestationView| b.wf() && b != a && records.len() > 0 implies spec_verify(
        VerifiableView { attestation: Some(b), signed_actions: records },
        checks,
    ) == Err::<(), AttestationsError>(AttestationsError::ContentMismatch) by {
        if b.hash() == a.hash() {
            lemma_encode_attestation_injective(b.content, b.about, a.content, a.about);
            assert(b == a);
        }
        assert(records[0].entry_hash == Some(a.hash()));
    }
    if exists|j: int| 0 <= j < checks.len() && #[trigger] checks[j] == SignatureCheck::Denied {
        let j = choose|j: int| 0 <= j < checks.len() && #[trigger] checks[j]
            == SignatureCheck::Denied;
        assert(spec_check_record(v.attestation, v.signed_actions[j], checks[j]) != Ok::<
            (),
            AttestationsError,
        >(()));
    }
}

} // verus!

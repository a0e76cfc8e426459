//! The shared replicated substrate, modelled: a content-addressed entry
//! table, the record log of publish actions, and the link index.
//!
//! Every agent sees one logical copy of this store; the host process maps
//! these operations onto the real ledger.  The store itself enforces only
//! content addressing (one entry per address); everything the protocol
//! promises about its contents is stated on the operations below.

use vstd::prelude::*;

use crate::entries::Attestation;
use crate::entries::AttestationView;
use crate::entries::LinkTypes;
use crate::codec::hash_attestation;
use crate::types::bytes_eq;
use crate::types::clone_bytes;
use crate::types::AgentKey;
use crate::types::EntryHash;
use crate::types::SignedRecord;
use crate::types::SignedRecordView;

verus! {

/// Mathematical image of a [`LinkBase`].
#[verifier::ext_equal]
pub enum LinkBaseView {
    Agent(Seq<u8>),
    Content(Seq<u8>),
}

/// The address a link is indexed under: an agent's identity, or a path
/// derived from attestation content.
pub enum LinkBase {
    Agent(AgentKey),
    Content(Vec<u8>),
}

impl DeepView for LinkBase {
    type V = LinkBaseView;

    open spec fn deep_view(&self) -> LinkBaseView {
        match self {
            LinkBase::Agent(k) => LinkBaseView::Agent(k@),
            LinkBase::Content(c) => LinkBaseView::Content(c@),
        }
    }
}

impl Clone for LinkBase {
    fn clone(&self) -> (r: Self)
        ensures
            r.deep_view() == self.deep_view(),
    {
        match self {
            LinkBase::Agent(k) => LinkBase::Agent(k.clone()),
            LinkBase::Content(c) => LinkBase::Content(clone_bytes(c)),
        }
    }
}

/// Whether two link bases denote the same index address.
pub fn base_eq(a: &LinkBase, b: &LinkBase) -> (r: bool)
    ensures
        r == (a.deep_view() == b.deep_view()),
{
    match (a, b) {
        (LinkBase::Agent(x), LinkBase::Agent(y)) => bytes_eq(&x.bytes, &y.bytes),
        (LinkBase::Content(x), LinkBase::Content(y)) => bytes_eq(x, y),
        _ => false,
    }
}

/// Mathematical image of a [`Link`].
#[verifier::ext_equal]
pub struct LinkView {
    pub base: LinkBaseView,
    pub target: Seq<u8>,
    pub link_type: LinkTypes,
    pub tag: Seq<u8>,
}

/// A typed, tagged edge in the replicated index, from a base address to a
/// target entry address.
pub struct Link {
    pub base: LinkBase,
    pub target: EntryHash,
    pub link_type: LinkTypes,
    pub tag: Vec<u8>,
}

impl DeepView for Link {
    type V = LinkView;

    open spec fn deep_view(&self) -> LinkView {
        LinkView {
            base: self.base.deep_view(),
            target: self.target@,
            link_type: self.link_type,
            tag: self.tag@,
        }
    }
}

impl Clone for Link {
    fn clone(&self) -> (r: Self)
        ensures
            r.deep_view() == self.deep_view(),
    {
        let r = Link {
            base: self.base.clone(),
            target: self.target.clone(),
            link_type: self.link_type,
            tag: clone_bytes(&self.tag),
        };
        proof {
            assert(r.deep_view() =~= self.deep_view());
        }
        r
    }
}

/// Mathematical image of a [`Store`].
#[verifier::ext_equal]
pub struct StoreView {
    pub entries: Seq<AttestationView>,
    pub records: Seq<SignedRecordView>,
    pub links: Seq<LinkView>,
}

impl StoreView {
    /// Content addressing holds: every entry is well formed and no two
    /// entries share an address.
    pub open spec fn addressing_wf(self) -> bool {
        &&& forall|i: int| 0 <= i < self.entries.len() ==> (#[trigger] self.entries[i]).wf()
        &&& forall|i: int, j: int|
            0 <= i < j < self.entries.len() ==> (#[trigger] self.entries[i]).hash() != (
            #[trigger] self.entries[j]).hash()
    }

    /// Every stored entry was actually published: some record in the log
    /// references its address.
    pub open spec fn covered(self) -> bool {
        forall|i: int|
            0 <= i < self.entries.len() ==> exists|j: int|
                0 <= j < self.records.len() && (#[trigger] self.records[j]).entry_hash == Some(
                    (#[trigger] self.entries[i]).hash(),
                )
    }

    /// The store invariant every protocol operation preserves: content
    /// addressing, and no entry without a publish record.
    pub open spec fn wf(self) -> bool {
        self.addressing_wf() && self.covered()
    }

    /// Whether some entry is stored under the address `h`.
    pub open spec fn contains_hash(self, h: Seq<u8>) -> bool {
        exists|i: int| 0 <= i < self.entries.len() && (#[trigger] self.entries[i]).hash() == h
    }
}

/// The shared substrate: entries, publish records, links.
pub struct Store {
    pub entries: Vec<Attestation>,
    pub records: Vec<SignedRecord>,
    pub links: Vec<Link>,
}

impl DeepView for Store {
    type V = StoreView;

    open spec fn deep_view(&self) -> StoreView {
        StoreView {
            entries: self.entries.deep_view(),
            records: self.records.deep_view(),
            links: self.links.deep_view(),
        }
    }
}

/// First entry from index `i` on whose address is `h`.
pub open spec fn spec_lookup_entry_from(entries: Seq<AttestationView>, h: Seq<u8>, i: int) -> Option<
    AttestationView,
>
    decreases entries.len() - i,
{
    if i < 0 || i >= entries.len() {
        None
    } else if entries[i].hash() == h {
        Some(entries[i])
    } else {
        spec_lookup_entry_from(entries, h, i + 1)
    }
}

/// The entry stored under address `h`, if any.
pub open spec fn spec_lookup_entry(entries: Seq<AttestationView>, h: Seq<u8>) -> Option<
    AttestationView,
> {
    spec_lookup_entry_from(entries, h, 0)
}

/// Whether a link hangs under `base` and passes the optional type and tag
/// filters.  A tag filter means exact byte equality.
pub open spec fn link_matches(
    l: LinkView,
    base: LinkBaseView,
    link_type: Option<LinkTypes>,
    tag: Option<Seq<u8>>,
) -> bool {
    &&& l.base == base
    &&& match link_type {
        Some(t) => l.link_type == t,
        None => true,
    }
    &&& match tag {
        Some(t) => l.tag == t,
        None => true,
    }
}

/// All matching links from index `i` on, in store order.
pub open spec fn spec_links_matching_from(
    links: Seq<LinkView>,
    base: LinkBaseView,
    link_type: Option<LinkTypes>,
    tag: Option<Seq<u8>>,
    i: int,
) -> Seq<LinkView>
    decreases links.len() - i,
{
    if i < 0 || i >= links.len() {
        Seq::empty()
    } else {
        let rest = spec_links_matching_from(links, base, link_type, tag, i + 1);
        if link_matches(links[i], base, link_type, tag) {
            seq![links[i]] + rest
        } else {
            rest
        }
    }
}

/// All matching links, in store order.
pub open spec fn spec_links_matching(
    links: Seq<LinkView>,
    base: LinkBaseView,
    link_type: Option<LinkTypes>,
    tag: Option<Seq<u8>>,
) -> Seq<LinkView> {
    spec_links_matching_from(links, base, link_type, tag, 0)
}

/// Whether a publish record references the entry address `h`.
pub open spec fn record_references(r: SignedRecordView, h: Seq<u8>) -> bool {
    r.entry_hash == Some(h)
}

/// All records referencing `h` from index `i` on, in store order.
pub open spec fn spec_records_for_from(
    records: Seq<SignedRecordView>,
    h: Seq<u8>,
    i: int,
) -> Seq<SignedRecordView>
    decreases records.len() - i,
{
    if i < 0 || i >= records.len() {
        Seq::empty()
    } else {
        let rest = spec_records_for_from(records, h, i + 1);
        if record_references(records[i], h) {
            seq![records[i]] + rest
        } else {
            rest
        }
    }
}

/// All records referencing `h`, in store order.
pub open spec fn spec_records_for(records: Seq<SignedRecordView>, h: Seq<u8>) -> Seq<
    SignedRecordView,
> {
    spec_records_for_from(records, h, 0)
}

impl Store {
    /// An empty substrate.
    pub fn new() -> (s: Store)
        ensures
            s.deep_view().entries == Seq::<AttestationView>::empty(),
            s.deep_view().records == Seq::<SignedRecordView>::empty(),
            s.deep_view().links == Seq::<LinkView>::empty(),
            s.deep_view().wf(),
    {
        let s = Store { entries: Vec::new(), records: Vec::new(), links: Vec::new() };
        proof {
            assert(s.deep_view().entries =~= Seq::<AttestationView>::empty());
            assert(s.deep_view().records =~= Seq::<SignedRecordView>::empty());
            assert(s.deep_view().links =~= Seq::<LinkView>::empty());
        }
        s
    }

    /// Stores an entry under its content address.  Publishing an entry that
    /// is already held leaves the table unchanged: the address already
    /// denotes exactly this entry.
    pub(crate) fn insert_entry(&mut self, a: &Attestation)
        requires
            old(self).deep_view().addressing_wf(),
            a.wf(),
        ensures
            final(self).deep_view().addressing_wf(),
            final(self).deep_view().records == old(self).deep_view().records,
            final(self).deep_view().links == old(self).deep_view().links,
            old(self).deep_view().contains_hash(a.deep_view().hash())
                ==> final(self).deep_view().entries == old(self).deep_view().entries,
            !old(self).deep_view().contains_hash(a.deep_view().hash())
                ==> final(self).deep_view().entries == old(self).deep_view().entries.push(
                a.deep_view(),
            ),
            final(self).deep_view().contains_hash(a.deep_view().hash()),
    {
        let h = hash_attestation(a);
        let ghost pre = self.deep_view();
        let mut i: usize = 0;
        while i < self.entries.len()
            invariant
                self.deep_view() == pre,
                pre.addressing_wf(),
                a.wf(),
                h@ == a.deep_view().hash(),
                i <= pre.entries.len(),
                forall|k: int| 0 <= k < i ==> (#[trigger] pre.entries[k]).hash() != h@,
            decreases pre.entries.len() - i,
        {
            proof {
                assert(self.entries@[i as int].deep_view() == pre.entries[i as int]);
            }
            let eh = hash_attestation(&self.entries[i]);
            if eh.hash_eq(&h) {
                proof {
                    assert(pre.entries[i as int].hash() == h@);
                }
                return ;
            }
            i = i + 1;
        }
        proof {
            assert(!pre.contains_hash(a.deep_view().hash()));
        }
        self.entries.push(a.clone());
        proof {
            assert(self.deep_view().entries =~= pre.entries.push(a.deep_view()));
            assert(self.deep_view().records =~= pre.records);
            assert(self.deep_view().links =~= pre.links);
            let post = self.deep_view().entries;
            assert forall|i1: int, j1: int| 0 <= i1 < j1 < post.len() implies (
            #[trigger] post[i1]).hash() != (#[trigger] post[j1]).hash() by {
                if j1 == post.len() - 1 {
                    assert(post[i1] == pre.entries[i1]);
                }
            }
            assert(self.deep_view().contains_hash(a.deep_view().hash())) by {
                assert(post[post.len() - 1].hash() == a.deep_view().hash());
            }
        }
    }

    /// Appends one publish record to the record log.
    pub(crate) fn push_record(&mut self, r: SignedRecord)
        ensures
            final(self).deep_view().entries == old(self).deep_view().entries,
            final(self).deep_view().links == old(self).deep_view().links,
            final(self).deep_view().records == old(self).deep_view().records.push(r.deep_view()),
            old(self).deep_view().addressing_wf() ==> final(self).deep_view().addressing_wf(),
    {
        let ghost pre = self.deep_view();
        let ghost rv = r.deep_view();
        self.records.push(r);
        proof {
            assert(self.deep_view().entries =~= pre.entries);
            assert(self.deep_view().links =~= pre.links);
            assert(self.deep_view().records =~= pre.records.push(rv));
        }
    }

    /// Appends one link to the link index.
    pub(crate) fn push_link(&mut self, l: Link)
        ensures
            final(self).deep_view().entries == old(self).deep_view().entries,
            final(self).deep_view().records == old(self).deep_view().records,
            final(self).deep_view().links == old(self).deep_view().links.push(l.deep_view()),
            old(self).deep_view().addressing_wf() ==> final(self).deep_view().addressing_wf(),
    {
        let ghost pre = self.deep_view();
        let ghost lv = l.deep_view();
        self.links.push(l);
        proof {
            assert(self.deep_view().entries =~= pre.entries);
            assert(self.deep_view().records =~= pre.records);
            assert(self.deep_view().links =~= pre.links.push(lv));
        }
    }

    /// Resolves an entry address to the stored entry, as the substrate's
    /// fetch would.
    pub fn get_entry(&self, h: &EntryHash) -> (r: Option<Attestation>)
        requires
            self.deep_view().addressing_wf(),
        ensures
            r.deep_view() == spec_lookup_entry(self.deep_view().entries, h@),
    {
        let ghost es = self.deep_view().entries;
        let mut i: usize = 0;
        while i < self.entries.len()
            invariant
                self.deep_view().addressing_wf(),
                es == self.deep_view().entries,
                i <= es.len(),
                spec_lookup_entry(es, h@) == spec_lookup_entry_from(es, h@, i as int),
            decreases es.len() - i,
        {
            proof {
                assert(self.entries@[i as int].deep_view() == es[i as int]);
            }
            let eh = hash_attestation(&self.entries[i]);
            if eh.hash_eq(h) {
                let r = Some(self.entries[i].clone());
                proof {
                    assert(r.deep_view() =~= spec_lookup_entry_from(es, h@, i as int));
                }
                return r;
            }
            i = i + 1;
        }
        None
    }

    /// All links under `base` that pass the optional type and tag filters,
    /// in store order.  A tag filter means exact byte equality.
    pub fn get_links(&self, base: &LinkBase, link_type: Option<LinkTypes>, tag: Option<&Vec<u8>>) -> (r:
        Vec<Link>)
        ensures
            r.deep_view() == spec_links_matching(
                self.deep_view().links,
                base.deep_view(),
                link_type,
                tag.deep_view(),
            ),
    {
        let ghost ls = self.deep_view().links;
        let ghost bv = base.deep_view();
        let ghost tv = tag.deep_view();
        let mut r: Vec<Link> = Vec::new();
        let mut i: usize = 0;
        while i < self.links.len()
            invariant
                ls == self.deep_view().links,
                bv == base.deep_view(),
                tv == tag.deep_view(),
                i <= ls.len(),
                spec_links_matching(ls, bv, link_type, tv) =~= r.deep_view()
                    + spec_links_matching_from(ls, bv, link_type, tv, i as int),
            decreases ls.len() - i,
        {
            proof {
                assert(self.links@[i as int].deep_view() == ls[i as int]);
            }
            let l = &self.links[i];
            let type_ok = match link_type {
                Some(t) => l.link_type == t,
                None => true,
            };
            let tag_ok = match tag {
                Some(t) => {
                    proof {
                        assert(t.deep_view() =~= t@);
                        assert(tv == Some(t@));
                    }
                    bytes_eq(&l.tag, t)
                },
                None => true,
            };
            if base_eq(&l.base, base) && type_ok && tag_ok {
                proof {
                    assert(link_matches(ls[i as int], bv, link_type, tv));
                }
                let ghost r0 = r.deep_view();
                r.push(l.clone());
                proof {
                    assert(r.deep_view() =~= r0.push(ls[i as int]));
                }
            } else {
                proof {
                    assert(!link_matches(ls[i as int], bv, link_type, tv));
                }
            }
            i = i + 1;
        }
        proof {
            assert(r.deep_view() =~= spec_links_matching(ls, bv, link_type, tv));
        }
        r
    }

    /// All publish records referencing the entry address `h`, in store
    /// order: the actions of everyone who published that entry.
    pub fn records_for(&self, h: &EntryHash) -> (r: Vec<SignedRecord>)
        ensures
            r.deep_view() == spec_records_for(self.deep_view().records, h@),
    {
        let ghost rs = self.deep_view().records;
        let mut r: Vec<SignedRecord> = Vec::new();
        let mut i: usize = 0;
        while i < self.records.len()
            invariant
                rs == self.deep_view().records,
                i <= rs.len(),
                spec_records_for(rs, h@) =~= r.deep_view() + spec_records_for_from(
                    rs,
                    h@,
                    i as int,
                ),
            decreases rs.len() - i,
        {
            proof {
                assert(self.records@[i as int].deep_view() == rs[i as int]);
            }
            let rec = &self.records[i];
            let references = match &rec.entry_hash {
                Some(eh) => eh.hash_eq(h),
                None => false,
            };
            if references {
                proof {
                    assert(record_references(rs[i as int], h@));
                }
                let ghost r0 = r.deep_view();
                r.push(rec.clone());
                proof {
                    assert(r.deep_view() =~= r0.push(rs[i as int]));
                }
            } else {
                proof {
                    assert(!record_references(rs[i as int], h@));
                }
            }
            i = i + 1;
        }
        proof {
            assert(r.deep_view() =~= spec_records_for(rs, h@));
        }
        r
    }
}

/// A successful lookup returns a well-formed stored entry whose address is
/// the one asked for.
pub proof fn lemma_lookup_entry_props(entries: Seq<AttestationView>, h: Seq<u8>, i: int)
    requires
        forall|k: int| 0 <= k < entries.len() ==> (#[trigger] entries[k]).wf(),
    ensures
        match spec_lookup_entry_from(entries, h, i) {
            Some(a) => a.wf() && a.hash() == h && entries.contains(a),
            None => true,
        },
    decreases entries.len() - i,
{
    if 0 <= i < entries.len() {
        if entries[i].hash() == h {
            assert(entries.contains(entries[i]));
        } else {
            lemma_lookup_entry_props(entries, h, i + 1);
        }
    }
}

/// Under content addressing, looking up the address of a stored entry finds
/// exactly that entry.
pub proof fn lemma_lookup_finds(
    entries: Seq<AttestationView>,
    a: AttestationView,
    i: int,
    k: int,
)
    requires
        forall|m: int, n: int|
            0 <= m < n < entries.len() ==> (#[trigger] entries[m]).hash() != (
            #[trigger] entries[n]).hash(),
        0 <= i <= k < entries.len(),
        entries[k] == a,
    ensures
        spec_lookup_entry_from(entries, a.hash(), i) == Some(a),
    decreases entries.len() - i,
{
    if entries[i].hash() == a.hash() {
        if i != k {
            assert(false);
        }
    } else {
        lemma_lookup_finds(entries, a, i + 1, k);
    }
}

/// The first publish record of `a` keeps its place in the collected record
/// list: if some record references `a`'s address, the collected list is
/// non-empty and its head is the earliest such record.
pub proof fn lemma_records_for_nonempty(records: Seq<SignedRecordView>, h: Seq<u8>, i: int, k: int)
    requires
        0 <= i <= k < records.len(),
        record_references(records[k], h),
    ensures
        spec_records_for_from(records, h, i).len() > 0,
    decreases records.len() - i,
{
    if !record_references(records[i], h) {
        if i == k {
            assert(false);
        } else {
            lemma_records_for_nonempty(records, h, i + 1, k);
        }
    }
}

/// Everything a matching-link filter returns indeed matches, and every
/// matching link is returned.
pub proof fn lemma_links_matching_complete(
    links: Seq<LinkView>,
    base: LinkBaseView,
    link_type: Option<LinkTypes>,
    tag: Option<Seq<u8>>,
    i: int,
)
    requires
        0 <= i <= links.len(),
    ensures
        forall|j: int|
            0 <= j < spec_links_matching_from(links, base, link_type, tag, i).len()
                ==> link_matches(
                #[trigger] spec_links_matching_from(links, base, link_type, tag, i)[j],
                base,
                link_type,
                tag,
            ) && links.contains(spec_links_matching_from(links, base, link_type, tag, i)[j]),
        forall|k: int|
            i <= k < links.len() && link_matches(#[trigger] links[k], base, link_type, tag)
                ==> spec_links_matching_from(links, base, link_type, tag, i).contains(links[k]),
    decreases links.len() - i,
{
    if i < links.len() {
        lemma_links_matching_complete(links, base, link_type, tag, i + 1);
        let cur = spec_links_matching_from(links, base, link_type, tag, i);
        let rest = spec_links_matching_from(links, base, link_type, tag, i + 1);
        assert forall|k: int|
            i <= k < links.len() && link_matches(#[trigger] links[k], base, link_type, tag) implies cur.contains(
            links[k],
        ) by {
            if k == i {
                assert(cur[0] == links[i]);
            } else {
                let w = choose|w: int| 0 <= w < rest.len() && rest[w] == links[k];
                if link_matches(links[i], base, link_type, tag) {
                    assert(cur[w + 1] == links[k]);
                }
            }
        }
    }
}

} // verus!

//! The record store beneath the data-access contract the engine depends on.
//!
//! The engine coordinates four record families: per-target version counters
//! guarded by a compare-and-swap stamp, proposals keyed by target and
//! version, canonical published documents keyed by kind and target, and an
//! append-only log of index-update operations issued to the search index.
//!
//! The store exposes exactly the primitives of that contract: `get`,
//! `exists`, `insert` (fails if the key is present), `replace` (fails if the
//! stored stamp differs from the guard), and `upsert`. Writes that stamp a
//! record consume a fresh stamp, so a stale guard is always detected.

use vstd::prelude::*;

use crate::pojos::{
    AnyDocument, AuthorRef, AuthorRefView, DocView, Document, Proposal, ProposalStatus,
};
use crate::strutil::str_eq;

verus! {

/// Per-target version counter record.
pub struct CounterRecord {
    pub target: String,
    pub value: u64,
    pub cas: u64,
}

/// Mathematical view of a [`CounterRecord`].
pub struct CounterView {
    pub target: Seq<char>,
    pub value: u64,
    pub cas: u64,
}

impl View for CounterRecord {
    type V = CounterView;

    open spec fn view(&self) -> CounterView {
        CounterView { target: self.target@, value: self.value, cas: self.cas }
    }
}

/// Mathematical view of a [`Proposal`].
pub struct ProposalView {
    pub target: Seq<char>,
    pub created: u64,
    pub last_updated: u64,
    pub status: ProposalStatus,
    pub author_id: Seq<char>,
    pub author_name: Seq<char>,
    pub document: DocView,
}

impl<D: Document> View for Proposal<D> {
    type V = ProposalView;

    open spec fn view(&self) -> ProposalView {
        ProposalView {
            target: self.target@,
            created: self.created,
            last_updated: self.last_updated,
            status: self.status,
            author_id: self.author_id@,
            author_name: self.author_name@,
            document: self.document.doc_view(),
        }
    }
}

impl Clone for Proposal<AnyDocument> {
    fn clone(&self) -> (res: Self)
        ensures
            res@ == self@,
    {
        Proposal {
            target: self.target.clone(),
            created: self.created,
            last_updated: self.last_updated,
            status: self.status,
            author_id: self.author_id.clone(),
            author_name: self.author_name.clone(),
            document: self.document.clone(),
        }
    }
}

/// A stored proposal: the proposal envelope, its per-target version, and the
/// time it was closed, if it has been.
pub struct ProposalRecord {
    pub version: u64,
    pub closed: Option<u64>,
    pub proposal: Proposal<AnyDocument>,
}

/// Mathematical view of a [`ProposalRecord`].
pub struct ProposalRecordView {
    pub version: u64,
    pub closed: Option<u64>,
    pub proposal: ProposalView,
}

impl View for ProposalRecord {
    type V = ProposalRecordView;

    open spec fn view(&self) -> ProposalRecordView {
        ProposalRecordView { version: self.version, closed: self.closed, proposal: self.proposal@ }
    }
}

impl DeepView for ProposalRecord {
    type V = ProposalRecordView;

    open spec fn deep_view(&self) -> ProposalRecordView {
        self.view()
    }
}

impl Clone for ProposalRecord {
    fn clone(&self) -> (res: Self)
        ensures
            res@ == self@,
    {
        ProposalRecord {
            version: self.version,
            closed: self.closed,
            proposal: self.proposal.clone(),
        }
    }
}

/// The kind of a canonical document, the namespace of its key.
#[derive(Clone, Copy, PartialEq, Eq, Structural, Debug)]
pub enum DocKind {
    Game,
    Character,
    Move,
}

/// A published canonical document with its author attribution.
pub struct CanonicalRecord {
    pub kind: DocKind,
    pub target: String,
    pub document: AnyDocument,
    pub latest_authors: Vec<AuthorRef>,
}

/// Mathematical view of a [`CanonicalRecord`].
pub struct CanonicalView {
    pub kind: DocKind,
    pub target: Seq<char>,
    pub document: DocView,
    pub latest_authors: Seq<AuthorRefView>,
}

impl View for CanonicalRecord {
    type V = CanonicalView;

    open spec fn view(&self) -> CanonicalView {
        CanonicalView {
            kind: self.kind,
            target: self.target@,
            document: self.document.doc_view(),
            latest_authors: self.latest_authors.deep_view(),
        }
    }
}

impl DeepView for CanonicalRecord {
    type V = CanonicalView;

    open spec fn deep_view(&self) -> CanonicalView {
        self.view()
    }
}

fn clone_authors(v: &Vec<AuthorRef>) -> (r: Vec<AuthorRef>)
    ensures
        r@ == v@,
{
    let mut result: Vec<AuthorRef> = Vec::new();
    let mut i: usize = 0;
    while i < v.len()
        invariant
            0 <= i <= v@.len(),
            result@ == v@.take(i as int),
        decreases v@.len() - i,
    {
        result.push(v[i].clone());
        proof {
            assert(result@ =~= v@.take(i as int + 1));
        }
        i = i + 1;
    }
    proof {
        assert(v@.take(v@.len() as int) =~= v@);
    }
    result
}

impl Clone for CanonicalRecord {
    fn clone(&self) -> (res: Self)
        ensures
            res@ == self@,
    {
        let res = CanonicalRecord {
            kind: self.kind,
            target: self.target.clone(),
            document: self.document.clone(),
            latest_authors: clone_authors(&self.latest_authors),
        };
        proof {
            assert(res@ =~= self@);
        }
        res
    }
}

/// One index-update operation issued to the search-index collaborator.
pub struct IndexUpdate {
    pub query: String,
    pub target: String,
}

/// Mathematical view of an [`IndexUpdate`].
pub struct IndexUpdateView {
    pub query: Seq<char>,
    pub target: Seq<char>,
}

impl View for IndexUpdate {
    type V = IndexUpdateView;

    open spec fn view(&self) -> IndexUpdateView {
        IndexUpdateView { query: self.query@, target: self.target@ }
    }
}

/// Index of the counter record for `target`, if one exists.
pub open spec fn find_counter(s: Seq<CounterView>, target: Seq<char>) -> Option<int>
    decreases s.len(),
{
    if s.len() == 0 {
        None
    } else if s.last().target == target {
        Some(s.len() - 1)
    } else {
        find_counter(s.drop_last(), target)
    }
}

/// Index of the proposal record for `(target, version)`, if one exists.
pub open spec fn find_proposal(
    s: Seq<ProposalRecordView>,
    target: Seq<char>,
    version: u64,
) -> Option<int>
    decreases s.len(),
{
    if s.len() == 0 {
        None
    } else if s.last().proposal.target == target && s.last().version == version {
        Some(s.len() - 1)
    } else {
        find_proposal(s.drop_last(), target, version)
    }
}

/// Index of the canonical record for `(kind, target)`, if one exists.
pub open spec fn find_document(s: Seq<CanonicalView>, kind: DocKind, target: Seq<char>) -> Option<
    int,
>
    decreases s.len(),
{
    if s.len() == 0 {
        None
    } else if s.last().kind == kind && s.last().target == target {
        Some(s.len() - 1)
    } else {
        find_document(s.drop_last(), kind, target)
    }
}

pub proof fn lemma_find_counter_spec(s: Seq<CounterView>, target: Seq<char>)
    ensures
        match find_counter(s, target) {
            None => forall|j: int| 0 <= j < s.len() ==> (#[trigger] s[j]).target != target,
            Some(i) => 0 <= i < s.len() && s[i].target == target && forall|j: int|
                i < j < s.len() ==> (#[trigger] s[j]).target != target,
        },
    decreases s.len(),
{
    if s.len() > 0 && !(s.last().target == target) {
        lemma_find_counter_spec(s.drop_last(), target);
        match find_counter(s, target) {
            None => {
                assert forall|j: int| 0 <= j < s.len() implies (#[trigger] s[j]).target
                    != target by {
                    if j < s.len() - 1 {
                        assert(s.drop_last()[j] == s[j]);
                    }
                }
            },
            Some(i) => {
                assert(s.drop_last()[i] == s[i]);
                assert forall|j: int| i < j < s.len() implies (#[trigger] s[j]).target
                    != target by {
                    if j < s.len() - 1 {
                        assert(s.drop_last()[j] == s[j]);
                    }
                }
            },
        }
    }
}

pub proof fn lemma_find_proposal_spec(s: Seq<ProposalRecordView>, target: Seq<char>, version: u64)
    ensures
        match find_proposal(s, target, version) {
            None => forall|j: int|
                0 <= j < s.len() ==> !((#[trigger] s[j]).proposal.target == target && s[j].version
                    == version),
            Some(i) => 0 <= i < s.len() && s[i].proposal.target == target && s[i].version == version
                && forall|j: int|
                i < j < s.len() ==> !((#[trigger] s[j]).proposal.target == target && s[j].version
                    == version),
        },
    decreases s.len(),
{
    if s.len() > 0 && !(s.last().proposal.target == target && s.last().version == version) {
        lemma_find_proposal_spec(s.drop_last(), target, version);
        match find_proposal(s, target, version) {
            None => {
                assert forall|j: int| 0 <= j < s.len() implies !((
                #[trigger] s[j]).proposal.target == target && s[j].version == version) by {
                    if j < s.len() - 1 {
                        assert(s.drop_last()[j] == s[j]);
                    }
                }
            },
            Some(i) => {
                assert(s.drop_last()[i] == s[i]);
                assert forall|j: int| i < j < s.len() implies !((
                #[trigger] s[j]).proposal.target == target && s[j].version == version) by {
                    if j < s.len() - 1 {
                        assert(s.drop_last()[j] == s[j]);
                    }
                }
            },
        }
    }
}

pub proof fn lemma_find_document_spec(s: Seq<CanonicalView>, kind: DocKind, target: Seq<char>)
    ensures
        match find_document(s, kind, target) {
            None => forall|j: int|
                0 <= j < s.len() ==> !((#[trigger] s[j]).kind == kind && s[j].target == target),
            Some(i) => 0 <= i < s.len() && s[i].kind == kind && s[i].target == target && forall|
                j: int,
            |
                i < j < s.len() ==> !((#[trigger] s[j]).kind == kind && s[j].target == target),
        },
    decreases s.len(),
{
    if s.len() > 0 && !(s.last().kind == kind && s.last().target == target) {
        lemma_find_document_spec(s.drop_last(), kind, target);
        match find_document(s, kind, target) {
            None => {
                assert forall|j: int| 0 <= j < s.len() implies !((#[trigger] s[j]).kind == kind
                    && s[j].target == target) by {
                    if j < s.len() - 1 {
                        assert(s.drop_last()[j] == s[j]);
                    }
                }
            },
            Some(i) => {
                assert(s.drop_last()[i] == s[i]);
                assert forall|j: int| i < j < s.len() implies !((#[trigger] s[j]).kind == kind
                    && s[j].target == target) by {
                    if j < s.len() - 1 {
                        assert(s.drop_last()[j] == s[j]);
                    }
                }
            },
        }
    }
}

/// Outcome of an `insert`: the key was new, the key was already present, or
/// the store could not perform the write.
#[derive(Clone, Copy, PartialEq, Eq, Structural, Debug)]
pub enum InsertOutcome {
    Inserted,
    AlreadyExists,
    Failed,
}

/// Outcome of a guarded `replace`: written, the guard was stale (the record
/// changed concurrently or is absent), or the store could not perform the
/// write.
#[derive(Clone, Copy, PartialEq, Eq, Structural, Debug)]
pub enum ReplaceOutcome {
    Replaced,
    Conflict,
    Failed,
}

/// The record a close turns a pending record into.
pub open spec fn closed_record_spec(
    rec: ProposalRecordView,
    status: ProposalStatus,
    now: u64,
) -> ProposalRecordView {
    ProposalRecordView {
        version: rec.version,
        closed: Some(now),
        proposal: ProposalView {
            target: rec.proposal.target,
            created: rec.proposal.created,
            last_updated: now,
            status: status,
            author_id: rec.proposal.author_id,
            author_name: rec.proposal.author_name,
            document: rec.proposal.document,
        },
    }
}

/// Outcome of closing a proposal record.
pub enum CloseOutcome {
    Closed(ProposalRecord),
    NotFound,
    NotPending,
}

/// The record store. Holds the version counters, the proposals, the
/// canonical documents and the index-update log.
pub struct Store {
    counters: Vec<CounterRecord>,
    proposals: Vec<ProposalRecord>,
    documents: Vec<CanonicalRecord>,
    index_log: Vec<IndexUpdate>,
    next_cas: u64,
}

impl Store {
    /// The version counters, in insertion order.
    pub closed spec fn counters_view(&self) -> Seq<CounterView> {
        self.counters@.map_values(|c: CounterRecord| c@)
    }

    /// The stored proposals, in insertion order.
    pub closed spec fn proposals_view(&self) -> Seq<ProposalRecordView> {
        self.proposals@.map_values(|p: ProposalRecord| p@)
    }

    /// The canonical documents, in insertion order.
    pub closed spec fn documents_view(&self) -> Seq<CanonicalView> {
        self.documents@.map_values(|d: CanonicalRecord| d@)
    }

    /// The index-update operations issued so far, oldest first.
    pub closed spec fn index_view(&self) -> Seq<IndexUpdateView> {
        self.index_log@.map_values(|u: IndexUpdate| u@)
    }

    /// The next compare-and-swap stamp the store will hand out.
    pub closed spec fn next_cas_spec(&self) -> u64 {
        self.next_cas
    }

    /// Whether a fresh stamp is available, so a stamping write can succeed.
    pub open spec fn can_stamp(&self) -> bool {
        self.next_cas_spec() < u64::MAX
    }

    /// Well-formedness: every record family is keyed (no duplicate keys),
    /// and every stamp handed out so far is below the next fresh one.
    pub open spec fn wf(&self) -> bool {
        &&& forall|i: int, j: int|
            0 <= i < j < self.counters_view().len() ==> (#[trigger] self.counters_view()[i]).target
                != (#[trigger] self.counters_view()[j]).target
        &&& forall|i: int, j: int|
            0 <= i < j < self.proposals_view().len() ==> !((
            #[trigger] self.proposals_view()[i]).proposal.target == (
            #[trigger] self.proposals_view()[j]).proposal.target
                && self.proposals_view()[i].version == self.proposals_view()[j].version)
        &&& forall|i: int, j: int|
            0 <= i < j < self.documents_view().len() ==> !((
            #[trigger] self.documents_view()[i]).kind == (#[trigger] self.documents_view()[j]).kind
                && self.documents_view()[i].target == self.documents_view()[j].target)
        &&& forall|i: int|
            0 <= i < self.counters_view().len() ==> 1 <= (#[trigger] self.counters_view()[i]).cas
                < self.next_cas_spec()
        &&& self.next_cas_spec() >= 1
    }

    /// An empty store.
    pub fn new() -> (r: Store)
        ensures
            r.wf(),
            r.counters_view() == Seq::<CounterView>::empty(),
            r.proposals_view() == Seq::<ProposalRecordView>::empty(),
            r.documents_view() == Seq::<CanonicalView>::empty(),
            r.index_view() == Seq::<IndexUpdateView>::empty(),
            r.can_stamp(),
    {
        let r = Store {
            counters: Vec::new(),
            proposals: Vec::new(),
            documents: Vec::new(),
            index_log: Vec::new(),
            next_cas: 1,
        };
        proof {
            assert(r.counters_view() =~= Seq::<CounterView>::empty());
            assert(r.proposals_view() =~= Seq::<ProposalRecordView>::empty());
            assert(r.documents_view() =~= Seq::<CanonicalView>::empty());
            assert(r.index_view() =~= Seq::<IndexUpdateView>::empty());
        }
        r
    }

    /// Reads the counter record for a target: its value and its stamp.
    pub fn counter_get(&self, target: &str) -> (r: Option<(u64, u64)>)
        requires
            self.wf(),
        ensures
            match find_counter(self.counters_view(), target@) {
                None => r is None,
                Some(i) => r == Some(
                    (self.counters_view()[i].value, self.counters_view()[i].cas),
                ),
            },
    {
        proof {
            lemma_find_counter_spec(self.counters_view(), target@);
        }
        let mut i: usize = 0;
        while i < self.counters.len()
            invariant
                self.wf(),
                0 <= i <= self.counters_view().len(),
                self.counters_view().len() == self.counters@.len(),
                forall|j: int| 0 <= j < i ==> (#[trigger] self.counters_view()[j]).target != target@,
            decreases self.counters@.len() - i,
        {
            let c = &self.counters[i];
            if str_eq(c.target.as_str(), target) {
                proof {
                    lemma_find_counter_spec(self.counters_view(), target@);
                    assert(self.counters_view()[i as int].target == target@);
                    let found = find_counter(self.counters_view(), target@);
                    if found is None {
                        assert(false);
                    } else if found->0 != i as int {
                        assert(self.counters_view()[found->0].target == target@);
                        assert(false);
                    }
                }
                return Some((c.value, c.cas));
            }
            i = i + 1;
        }
        proof {
            lemma_find_counter_spec(self.counters_view(), target@);
            if find_counter(self.counters_view(), target@) is Some {
                let k = find_counter(self.counters_view(), target@)->0;
                assert(self.counters_view()[k].target == target@);
                assert(false);
            }
        }
        None
    }

    /// Inserts a counter record; fails if one exists for the target.
    pub fn counter_insert(&mut self, target: &str, value: u64) -> (r: InsertOutcome)
        requires
            old(self).wf(),
        ensures
            final(self).wf(),
            match find_counter(old(self).counters_view(), target@) {
                Some(_) => r == InsertOutcome::AlreadyExists && *final(self) == *old(self),
                None => {
                    if old(self).can_stamp() {
                        &&& r == InsertOutcome::Inserted
                        &&& final(self).counters_view() == old(self).counters_view().push(
                            CounterView {
                                target: target@,
                                value: value,
                                cas: old(self).next_cas_spec(),
                            },
                        )
                    } else {
                        r == InsertOutcome::Failed && *final(self) == *old(self)
                    }
                },
            },
            final(self).proposals_view() == old(self).proposals_view(),
            final(self).documents_view() == old(self).documents_view(),
            final(self).index_view() == old(self).index_view(),
            final(self).next_cas_spec() >= old(self).next_cas_spec(),
    {
        proof {
            lemma_find_counter_spec(self.counters_view(), target@);
        }
        let existing = self.counter_get(target);
        if existing.is_some() {
            return InsertOutcome::AlreadyExists;
        }
        if self.next_cas == u64::MAX {
            return InsertOutcome::Failed;
        }
        let cas = self.next_cas;
        self.next_cas = self.next_cas + 1;
        let rec = CounterRecord { target: target.to_owned(), value, cas };
        self.counters.push(rec);
        proof {
            assert(self.counters_view() =~= old(self).counters_view().push(
                CounterView { target: target@, value: value, cas: old(self).next_cas_spec() },
            ));
            assert(self.proposals_view() =~= old(self).proposals_view());
            assert(self.documents_view() =~= old(self).documents_view());
            assert(self.index_view() =~= old(self).index_view());
        }
        InsertOutcome::Inserted
    }

    /// Replaces the counter record for a target, guarded by the stamp read
    /// earlier; conflicts if the record is absent or was stamped since.
    pub fn counter_replace(&mut self, target: &str, value: u64, cas: u64) -> (r: ReplaceOutcome)
        requires
            old(self).wf(),
        ensures
            final(self).wf(),
            match find_counter(old(self).counters_view(), target@) {
                None => r == ReplaceOutcome::Conflict && *final(self) == *old(self),
                Some(i) => {
                    if old(self).counters_view()[i].cas != cas {
                        r == ReplaceOutcome::Conflict && *final(self) == *old(self)
                    } else if old(self).can_stamp() {
                        &&& r == ReplaceOutcome::Replaced
                        &&& final(self).counters_view() == old(self).counters_view().update(
                            i,
                            CounterView {
                                target: old(self).counters_view()[i].target,
                                value: value,
                                cas: old(self).next_cas_spec(),
                            },
                        )
                    } else {
                        r == ReplaceOutcome::Failed && *final(self) == *old(self)
                    }
                },
            },
            final(self).proposals_view() == old(self).proposals_view(),
            final(self).documents_view() == old(self).documents_view(),
            final(self).index_view() == old(self).index_view(),
            final(self).next_cas_spec() >= old(self).next_cas_spec(),
    {
        proof {
            lemma_find_counter_spec(self.counters_view(), target@);
        }
        let mut i: usize = 0;
        while i < self.counters.len()
            invariant
                old(self).wf(),
                *self == *old(self),
                0 <= i <= self.counters_view().len(),
                self.counters_view().len() == self.counters@.len(),
                forall|j: int| 0 <= j < i ==> (#[trigger] self.counters_view()[j]).target != target@,
            decreases self.counters@.len() - i,
        {
            let matches = str_eq(self.counters[i].target.as_str(), target);
            if matches {
                proof {
                    lemma_find_counter_spec(self.counters_view(), target@);
                    assert(self.counters_view()[i as int].target == target@);
                    let found = find_counter(self.counters_view(), target@);
                    if found is None {
                        assert(false);
                    } else if found->0 != i as int {
                        assert(self.counters_view()[found->0].target == target@);
                        assert(false);
                    }
                }
                if self.counters[i].cas != cas {
                    return ReplaceOutcome::Conflict;
                }
                if self.next_cas == u64::MAX {
                    return ReplaceOutcome::Failed;
                }
                let fresh = self.next_cas;
                self.next_cas = self.next_cas + 1;
                let target_copy = self.counters[i].target.clone();
                let rec = CounterRecord { target: target_copy, value, cas: fresh };
                self.counters.set(i, rec);
                proof {
                    assert(self.counters_view() =~= old(self).counters_view().update(
                        i as int,
                        CounterView {
                            target: old(self).counters_view()[i as int].target,
                            value: value,
                            cas: old(self).next_cas_spec(),
                        },
                    ));
                    assert(self.proposals_view() =~= old(self).proposals_view());
                    assert(self.documents_view() =~= old(self).documents_view());
                    assert(self.index_view() =~= old(self).index_view());
                }
                return ReplaceOutcome::Replaced;
            }
            i = i + 1;
        }
        proof {
            lemma_find_counter_spec(self.counters_view(), target@);
            if find_counter(self.counters_view(), target@) is Some {
                let k = find_counter(self.counters_view(), target@)->0;
                assert(self.counters_view()[k].target == target@);
                assert(false);
            }
        }
        ReplaceOutcome::Conflict
    }

    /// Number of stored proposals.
    pub fn proposals_len(&self) -> (r: usize)
        ensures
            r == self.proposals_view().len(),
    {
        self.proposals.len()
    }

    /// The stored proposal at an index, in insertion order.
    pub fn proposal_at(&self, i: usize) -> (r: &ProposalRecord)
        requires
            i < self.proposals_view().len(),
        ensures
            r@ == self.proposals_view()[i as int],
    {
        &self.proposals[i]
    }

    /// Reads the proposal record for a target and version.
    pub fn proposal_get(&self, target: &str, version: u64) -> (r: Option<&ProposalRecord>)
        requires
            self.wf(),
        ensures
            match find_proposal(self.proposals_view(), target@, version) {
                None => r is None,
                Some(i) => r is Some && r->0@ == self.proposals_view()[i],
            },
    {
        proof {
            lemma_find_proposal_spec(self.proposals_view(), target@, version);
        }
        let mut i: usize = 0;
        while i < self.proposals.len()
            invariant
                self.wf(),
                0 <= i <= self.proposals_view().len(),
                self.proposals_view().len() == self.proposals@.len(),
                forall|j: int|
                    0 <= j < i ==> !((#[trigger] self.proposals_view()[j]).proposal.target
                        == target@ && self.proposals_view()[j].version == version),
            decreases self.proposals@.len() - i,
        {
            let rec = &self.proposals[i];
            if rec.version == version && str_eq(rec.proposal.target.as_str(), target) {
                proof {
                    lemma_find_proposal_spec(self.proposals_view(), target@, version);
                    assert(self.proposals_view()[i as int].proposal.target == target@);
                    let found = find_proposal(self.proposals_view(), target@, version);
                    if found is None {
                        assert(false);
                    } else if found->0 != i as int {
                        assert(false);
                    }
                }
                return Some(rec);
            }
            i = i + 1;
        }
        proof {
            lemma_find_proposal_spec(self.proposals_view(), target@, version);
            if find_proposal(self.proposals_view(), target@, version) is Some {
                assert(false);
            }
        }
        None
    }

    /// Writes a proposal record keyed by its target and version, replacing
    /// any record under that key.
    pub fn proposal_upsert(&mut self, rec: ProposalRecord)
        requires
            old(self).wf(),
        ensures
            final(self).wf(),
            match find_proposal(old(self).proposals_view(), rec.proposal.target@, rec.version) {
                None => final(self).proposals_view() == old(self).proposals_view().push(rec@),
                Some(i) => final(self).proposals_view() == old(self).proposals_view().update(
                    i,
                    rec@,
                ),
            },
            final(self).counters_view() == old(self).counters_view(),
            final(self).documents_view() == old(self).documents_view(),
            final(self).index_view() == old(self).index_view(),
            final(self).next_cas_spec() == old(self).next_cas_spec(),
    {
        proof {
            lemma_find_proposal_spec(self.proposals_view(), rec.proposal.target@, rec.version);
        }
        let mut i: usize = 0;
        while i < self.proposals.len()
            invariant
                old(self).wf(),
                *self == *old(self),
                0 <= i <= self.proposals_view().len(),
                self.proposals_view().len() == self.proposals@.len(),
                forall|j: int|
                    0 <= j < i ==> !((#[trigger] self.proposals_view()[j]).proposal.target
                        == rec.proposal.target@ && self.proposals_view()[j].version == rec.version),
            decreases self.proposals@.len() - i,
        {
            let cur = &self.proposals[i];
            let matches = cur.version == rec.version && str_eq(
                cur.proposal.target.as_str(),
                rec.proposal.target.as_str(),
            );
            if matches {
                proof {
                    lemma_find_proposal_spec(
                        self.proposals_view(),
                        rec.proposal.target@,
                        rec.version,
                    );
                    assert(self.proposals_view()[i as int].proposal.target
                        == rec.proposal.target@);
                    let found = find_proposal(
                        self.proposals_view(),
                        rec.proposal.target@,
                        rec.version,
                    );
                    if found is None {
                        assert(false);
                    } else if found->0 != i as int {
                        assert(false);
                    }
                }
                let ghost recv = rec@;
                self.proposals.set(i, rec);
                proof {
                    assert(self.proposals_view() =~= old(self).proposals_view().update(
                        i as int,
                        recv,
                    ));
                    assert(self.counters_view() =~= old(self).counters_view());
                    assert(self.documents_view() =~= old(self).documents_view());
                    assert(self.index_view() =~= old(self).index_view());
                }
                return ;
            }
            i = i + 1;
        }
        proof {
            lemma_find_proposal_spec(self.proposals_view(), rec.proposal.target@, rec.version);
            if find_proposal(self.proposals_view(), rec.proposal.target@, rec.version) is Some {
                assert(false);
            }
        }
        let ghost recv = rec@;
        self.proposals.push(rec);
        proof {
            assert(self.proposals_view() =~= old(self).proposals_view().push(recv));
            assert(self.counters_view() =~= old(self).counters_view());
            assert(self.documents_view() =~= old(self).documents_view());
            assert(self.index_view() =~= old(self).index_view());
        }
    }

    /// Sets the status of a pending proposal and records its close time.
    /// Refuses when the record is absent or is no longer pending.
    pub fn proposal_close(
        &mut self,
        target: &str,
        version: u64,
        status: ProposalStatus,
        now: u64,
    ) -> (r: CloseOutcome)
        requires
            old(self).wf(),
        ensures
            final(self).wf(),
            match find_proposal(old(self).proposals_view(), target@, version) {
                None => r is NotFound && *final(self) == *old(self),
                Some(i) => {
                    if old(self).proposals_view()[i].proposal.status != ProposalStatus::Pending {
                        r is NotPending && *final(self) == *old(self)
                    } else {
                        &&& r is Closed
                        &&& r->0@ == closed_record_spec(old(self).proposals_view()[i], status, now)
                        &&& final(self).proposals_view() == old(self).proposals_view().update(
                            i,
                            closed_record_spec(old(self).proposals_view()[i], status, now),
                        )
                    }
                },
            },
            final(self).counters_view() == old(self).counters_view(),
            final(self).documents_view() == old(self).documents_view(),
            final(self).index_view() == old(self).index_view(),
            final(self).next_cas_spec() == old(self).next_cas_spec(),
    {
        proof {
            lemma_find_proposal_spec(self.proposals_view(), target@, version);
        }
        let mut i: usize = 0;
        while i < self.proposals.len()
            invariant
                old(self).wf(),
                *self == *old(self),
                0 <= i <= self.proposals_view().len(),
                self.proposals_view().len() == self.proposals@.len(),
                forall|j: int|
                    0 <= j < i ==> !((#[trigger] self.proposals_view()[j]).proposal.target
                        == target@ && self.proposals_view()[j].version == version),
            decreases self.proposals@.len() - i,
        {
            let cur = &self.proposals[i];
            let matches = cur.version == version && str_eq(cur.proposal.target.as_str(), target);
            if matches {
                proof {
                    lemma_find_proposal_spec(self.proposals_view(), target@, version);
                    assert(self.proposals_view()[i as int].proposal.target == target@);
                    let found = find_proposal(self.proposals_view(), target@, version);
                    if found is None {
                        assert(false);
                    } else if found->0 != i as int {
                        assert(false);
                    }
                }
                if !matches!(self.proposals[i].proposal.status, ProposalStatus::Pending) {
                    return CloseOutcome::NotPending;
                }
                let mut rec = self.proposals[i].clone();
                rec.closed = Some(now);
                rec.proposal.status = status;
                rec.proposal.last_updated = now;
                let ret = rec.clone();
                let ghost recv = rec@;
                self.proposals.set(i, rec);
                proof {
                    assert(recv == closed_record_spec(
                        old(self).proposals_view()[i as int],
                        status,
                        now,
                    ));
                    assert(self.proposals_view() =~= old(self).proposals_view().update(
                        i as int,
                        recv,
                    ));
                    assert(self.counters_view() =~= old(self).counters_view());
                    assert(self.documents_view() =~= old(self).documents_view());
                    assert(self.index_view() =~= old(self).index_view());
                }
                return CloseOutcome::Closed(ret);
            }
            i = i + 1;
        }
        proof {
            lemma_find_proposal_spec(self.proposals_view(), target@, version);
            if find_proposal(self.proposals_view(), target@, version) is Some {
                assert(false);
            }
        }
        CloseOutcome::NotFound
    }

    /// Whether a canonical document exists for a kind and target.
    pub fn doc_exists(&self, kind: DocKind, target: &str) -> (r: bool)
        requires
            self.wf(),
        ensures
            r == (find_document(self.documents_view(), kind, target@) is Some),
    {
        self.doc_get(kind, target).is_some()
    }

    /// Reads the canonical document for a kind and target.
    pub fn doc_get(&self, kind: DocKind, target: &str) -> (r: Option<&CanonicalRecord>)
        requires
            self.wf(),
        ensures
            match find_document(self.documents_view(), kind, target@) {
                None => r is None,
                Some(i) => r is Some && r->0@ == self.documents_view()[i],
            },
    {
        proof {
            lemma_find_document_spec(self.documents_view(), kind, target@);
        }
        let mut i: usize = 0;
        while i < self.documents.len()
            invariant
                self.wf(),
                0 <= i <= self.documents_view().len(),
                self.documents_view().len() == self.documents@.len(),
                forall|j: int|
                    0 <= j < i ==> !((#[trigger] self.documents_view()[j]).kind == kind
                        && self.documents_view()[j].target == target@),
            decreases self.documents@.len() - i,
        {
            let rec = &self.documents[i];
            if rec.kind == kind && str_eq(rec.target.as_str(), target) {
                proof {
                    lemma_find_document_spec(self.documents_view(), kind, target@);
                    assert(self.documents_view()[i as int].target == target@);
                    let found = find_document(self.documents_view(), kind, target@);
                    if found is None {
                        assert(false);
                    } else if found->0 != i as int {
                        assert(false);
                    }
                }
                return Some(rec);
            }
            i = i + 1;
        }
        proof {
            lemma_find_document_spec(self.documents_view(), kind, target@);
            if find_document(self.documents_view(), kind, target@) is Some {
                assert(false);
            }
        }
        None
    }

    /// Writes a canonical document keyed by its kind and target, replacing
    /// any document under that key.
    pub fn doc_upsert(&mut self, rec: CanonicalRecord)
        requires
            old(self).wf(),
        ensures
            final(self).wf(),
            match find_document(old(self).documents_view(), rec.kind, rec.target@) {
                None => final(self).documents_view() == old(self).documents_view().push(rec@),
                Some(i) => final(self).documents_view() == old(self).documents_view().update(
                    i,
                    rec@,
                ),
            },
            final(self).counters_view() == old(self).counters_view(),
            final(self).proposals_view() == old(self).proposals_view(),
            final(self).index_view() == old(self).index_view(),
            final(self).next_cas_spec() == old(self).next_cas_spec(),
    {
        proof {
            lemma_find_document_spec(self.documents_view(), rec.kind, rec.target@);
        }
        let mut i: usize = 0;
        while i < self.documents.len()
            invariant
                old(self).wf(),
                *self == *old(self),
                0 <= i <= self.documents_view().len(),
                self.documents_view().len() == self.documents@.len(),
                forall|j: int|
                    0 <= j < i ==> !((#[trigger] self.documents_view()[j]).kind == rec.kind
                        && self.documents_view()[j].target == rec.target@),
            decreases self.documents@.len() - i,
        {
            let cur = &self.documents[i];
            let matches = cur.kind == rec.kind && str_eq(cur.target.as_str(), rec.target.as_str());
            if matches {
                proof {
                    lemma_find_document_spec(self.documents_view(), rec.kind, rec.target@);
                    assert(self.documents_view()[i as int].target == rec.target@);
                    let found = find_document(self.documents_view(), rec.kind, rec.target@);
                    if found is None {
                        assert(false);
                    } else if found->0 != i as int {
                        assert(false);
                    }
                }
                let ghost recv = rec@;
                self.documents.set(i, rec);
                proof {
                    assert(self.documents_view() =~= old(self).documents_view().update(
                        i as int,
                        recv,
                    ));
                    assert(self.counters_view() =~= old(self).counters_view());
                    assert(self.proposals_view() =~= old(self).proposals_view());
                    assert(self.index_view() =~= old(self).index_view());
                }
                return ;
            }
            i = i + 1;
        }
        proof {
            lemma_find_document_spec(self.documents_view(), rec.kind, rec.target@);
            if find_document(self.documents_view(), rec.kind, rec.target@) is Some {
                assert(false);
            }
        }
        let ghost recv = rec@;
        self.documents.push(rec);
        proof {
            assert(self.documents_view() =~= old(self).documents_view().push(recv));
            assert(self.counters_view() =~= old(self).counters_view());
            assert(self.proposals_view() =~= old(self).proposals_view());
            assert(self.index_view() =~= old(self).index_view());
        }
    }

    /// Number of canonical documents.
    pub fn documents_len(&self) -> (r: usize)
        ensures
            r == self.documents_view().len(),
    {
        self.documents.len()
    }

    /// The canonical document at an index, in insertion order.
    pub fn document_at(&self, i: usize) -> (r: &CanonicalRecord)
        requires
            i < self.documents_view().len(),
        ensures
            r@ == self.documents_view()[i as int],
    {
        &self.documents[i]
    }

    /// Appends an index-update operation to the log.
    pub fn index_append(&mut self, query: &str, target: &str)
        requires
            old(self).wf(),
        ensures
            final(self).wf(),
            final(self).index_view() == old(self).index_view().push(
                IndexUpdateView { query: query@, target: target@ },
            ),
            final(self).counters_view() == old(self).counters_view(),
            final(self).proposals_view() == old(self).proposals_view(),
            final(self).documents_view() == old(self).documents_view(),
            final(self).next_cas_spec() == old(self).next_cas_spec(),
    {
        self.index_log.push(IndexUpdate { query: query.to_owned(), target: target.to_owned() });
        proof {
            assert(self.index_view() =~= old(self).index_view().push(
                IndexUpdateView { query: query@, target: target@ },
            ));
            assert(self.counters_view() =~= old(self).counters_view());
            assert(self.proposals_view() =~= old(self).proposals_view());
            assert(self.documents_view() =~= old(self).documents_view());
        }
    }

    /// Number of logged index updates.
    pub fn index_len(&self) -> (r: usize)
        ensures
            r == self.index_view().len(),
    {
        self.index_log.len()
    }

    /// The logged index update at an index, oldest first.
    pub fn index_at(&self, i: usize) -> (r: &IndexUpdate)
        requires
            i < self.index_view().len(),
        ensures
            r@ == self.index_view()[i as int],
    {
        &self.index_log[i]
    }
}

} // verus!

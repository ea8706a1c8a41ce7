//! The proposals adapter: storage operations for proposal records and the
//! per-target version counter.
//!
//! The version counter produces a strictly increasing integer sequence per
//! target under concurrent writers, without locks: it reads the counter
//! record and its compare-and-swap stamp, then either inserts the first
//! value or writes the incremented value guarded by the stamp it read, and
//! retries the whole read-modify-write cycle when the guard detects a
//! concurrent change. The retry loop is bounded by
//! [`MAX_INCREMENT_ATTEMPTS`].

use vstd::prelude::*;

use crate::adapters::{AdapterError, QueryExecutor};
use crate::pojos::{AnyDocument, AuthorRef, AuthorRefView, Proposal, ProposalStatus};
use crate::store::{
    closed_record_spec, find_counter, find_proposal, CloseOutcome, CounterView, InsertOutcome,
    ProposalRecord, ProposalRecordView, ReplaceOutcome,
};

verus! {

/// Bound on the version counter's conflict-retry loop: a concurrent-change
/// conflict is retried at most this many times before the call gives up.
pub const MAX_INCREMENT_ATTEMPTS: u64 = 16;

/// The proposals adapter.
pub struct Proposals {}

impl Proposals {
    pub fn new() -> (r: Proposals) {
        Proposals {  }
    }

    /// Returns the proposal record for a target and version, or
    /// `DocumentNotFound` if no such record exists.
    pub fn get<'a>(&self, exec: &'a QueryExecutor, target: &str, version: u64) -> (r: Result<
        &'a ProposalRecord,
        AdapterError,
    >)
        requires
            exec.wf(),
        ensures
            match find_proposal(exec.store_spec().proposals_view(), target@, version) {
                Some(i) => r is Ok && r->Ok_0@ == exec.store_spec().proposals_view()[i],
                None => r is Err && r->Err_0 == AdapterError::DocumentNotFound,
            },
    {
        match exec.store.proposal_get(target, version) {
            Some(rec) => Ok(rec),
            None => Err(AdapterError::DocumentNotFound),
        }
    }

    /// Persists a proposal under the key `(target, version)`, replacing any
    /// record under that key. The record starts out not closed.
    pub fn upsert(
        &self,
        exec: &mut QueryExecutor,
        target: &str,
        version: u64,
        content: Proposal<AnyDocument>,
    ) -> (r: Result<(), AdapterError>)
        requires
            old(exec).wf(),
            content.target@ == target@,
        ensures
            final(exec).wf(),
            r is Ok,
            ({
                let rec = ProposalRecordView { version, closed: None, proposal: content@ };
                match find_proposal(old(exec).store_spec().proposals_view(), target@, version) {
                    None => final(exec).store_spec().proposals_view() == old(
                        exec,
                    ).store_spec().proposals_view().push(rec),
                    Some(i) => final(exec).store_spec().proposals_view() == old(
                        exec,
                    ).store_spec().proposals_view().update(i, rec),
                }
            }),
            final(exec).store_spec().counters_view() == old(exec).store_spec().counters_view(),
            final(exec).store_spec().documents_view() == old(exec).store_spec().documents_view(),
            final(exec).store_spec().index_view() == old(exec).store_spec().index_view(),
            final(exec).store_spec().next_cas_spec() == old(exec).store_spec().next_cas_spec(),
            final(exec).catalog_spec() == old(exec).catalog_spec(),
    {
        let rec = ProposalRecord { version, closed: None, proposal: content };
        exec.store.proposal_upsert(rec);
        Ok(())
    }

    /// Closes a proposal with a given status, recording the close time.
    /// Returns the updated record; fails with `DocumentNotFound` if the
    /// record is absent and with `PreconditionFailed` if it is no longer
    /// pending, leaving the store unchanged in both cases.
    pub fn close(
        &self,
        exec: &mut QueryExecutor,
        target: &str,
        version: u64,
        new_status: ProposalStatus,
        now: u64,
    ) -> (r: Result<ProposalRecord, AdapterError>)
        requires
            old(exec).wf(),
        ensures
            final(exec).wf(),
            match find_proposal(old(exec).store_spec().proposals_view(), target@, version) {
                None => r is Err && r->Err_0 == AdapterError::DocumentNotFound && *final(exec)
                    == *old(exec),
                Some(i) => {
                    if old(exec).store_spec().proposals_view()[i].proposal.status
                        != ProposalStatus::Pending {
                        r is Err && r->Err_0 == AdapterError::PreconditionFailed && *final(exec)
                            == *old(exec)
                    } else {
                        &&& r is Ok
                        &&& r->Ok_0@ == closed_record_spec(
                            old(exec).store_spec().proposals_view()[i],
                            new_status,
                            now,
                        )
                        &&& final(exec).store_spec().proposals_view() == old(
                            exec,
                        ).store_spec().proposals_view().update(
                            i,
                            closed_record_spec(
                                old(exec).store_spec().proposals_view()[i],
                                new_status,
                                now,
                            ),
                        )
                        &&& final(exec).store_spec().counters_view() == old(
                            exec,
                        ).store_spec().counters_view()
                        &&& final(exec).store_spec().documents_view() == old(
                            exec,
                        ).store_spec().documents_view()
                        &&& final(exec).store_spec().index_view() == old(
                            exec,
                        ).store_spec().index_view()
                        &&& final(exec).store_spec().next_cas_spec() == old(
                            exec,
                        ).store_spec().next_cas_spec()
                        &&& final(exec).catalog_spec() == old(exec).catalog_spec()
                    }
                },
            },
    {
        match exec.store.proposal_close(target, version, new_status, now) {
            CloseOutcome::Closed(rec) => Ok(rec),
            CloseOutcome::NotFound => Err(AdapterError::DocumentNotFound),
            CloseOutcome::NotPending => Err(AdapterError::PreconditionFailed),
        }
    }

    /// Increments the proposal counter for the specified target.
    ///
    /// Reads the counter record; when absent, inserts the first value `1`;
    /// when present, writes `value + 1` guarded by the stamp just read. A
    /// write refused because the record changed concurrently is retried,
    /// up to [`MAX_INCREMENT_ATTEMPTS`] times. For a fixed target no two
    /// successful calls return the same value (see
    /// [`lemma_increment_values_contiguous`]).
    pub fn increment_counter(&self, exec: &mut QueryExecutor, target_id: &str) -> (r: Result<
        u64,
        AdapterError,
    >)
        requires
            old(exec).wf(),
        ensures
            final(exec).wf(),
            final(exec).store_spec().proposals_view() == old(exec).store_spec().proposals_view(),
            final(exec).store_spec().documents_view() == old(exec).store_spec().documents_view(),
            final(exec).store_spec().index_view() == old(exec).store_spec().index_view(),
            final(exec).catalog_spec() == old(exec).catalog_spec(),
            ({
                let cs = old(exec).store_spec().counters_view();
                match find_counter(cs, target_id@) {
                    None => {
                        if old(exec).store_spec().can_stamp() {
                            &&& r is Ok
                            &&& r->Ok_0 == 1
                            &&& final(exec).store_spec().counters_view() == cs.push(
                                CounterView {
                                    target: target_id@,
                                    value: 1,
                                    cas: old(exec).store_spec().next_cas_spec(),
                                },
                            )
                        } else {
                            r is Err && r->Err_0 == AdapterError::InternalError && *final(exec)
                                == *old(exec)
                        }
                    },
                    Some(i) => {
                        if cs[i].value < u64::MAX && old(exec).store_spec().can_stamp() {
                            &&& r is Ok
                            &&& r->Ok_0 == cs[i].value + 1
                            &&& final(exec).store_spec().counters_view() == cs.update(
                                i,
                                CounterView {
                                    target: cs[i].target,
                                    value: (cs[i].value + 1) as u64,
                                    cas: old(exec).store_spec().next_cas_spec(),
                                },
                            )
                        } else {
                            r is Err && r->Err_0 == AdapterError::InternalError && *final(exec)
                                == *old(exec)
                        }
                    },
                }
            }),
    {
        let mut attempts: u64 = 0;
        while attempts < MAX_INCREMENT_ATTEMPTS
            invariant
                attempts == 0,
                *exec == *old(exec),
                old(exec).wf(),
            decreases MAX_INCREMENT_ATTEMPTS - attempts,
        {
            // Read the current counter value and its stamp.
            let current = exec.store.counter_get(target_id);
            match current {
                None => {
                    // No counter yet: insert the first value.
                    match exec.store.counter_insert(target_id, 1) {
                        InsertOutcome::Inserted => {
                            return Ok(1);
                        },
                        InsertOutcome::AlreadyExists => {
                            // The record was created since the read; retry.
                            attempts = attempts + 1;
                        },
                        InsertOutcome::Failed => {
                            return Err(AdapterError::InternalError);
                        },
                    }
                },
                Some((value, cas)) => {
                    if value == u64::MAX {
                        return Err(AdapterError::InternalError);
                    }
                    // Write the incremented value, guarded by the stamp.
                    match exec.store.counter_replace(target_id, value + 1, cas) {
                        ReplaceOutcome::Replaced => {
                            return Ok(value + 1);
                        },
                        ReplaceOutcome::Conflict => {
                            // The record changed since the read; retry.
                            attempts = attempts + 1;
                        },
                        ReplaceOutcome::Failed => {
                            return Err(AdapterError::InternalError);
                        },
                    }
                },
            }
        }
        proof {
            assert(false);
        }
        Err(AdapterError::InternalError)
    }

    /// Returns a page of proposal records with the given status, sorted by
    /// creation time in the requested direction. Fails with `InternalError`
    /// when the catalog lacks the backing named query.
    pub fn get_list(
        &self,
        exec: &QueryExecutor,
        offset: u16,
        limit: u16,
        sort_asc: bool,
        status: &str,
    ) -> (r: Result<Page, AdapterError>)
        requires
            exec.wf(),
        ensures
            ({
                let name = if sort_asc {
                    "proposals/get_list_asc"@
                } else {
                    "proposals/get_list_desc"@
                };
                let o = if sort_asc {
                    Order::CreatedAsc
                } else {
                    Order::CreatedDesc
                };
                if exec.catalog_spec().has_query_spec(name) {
                    r is Ok && r->Ok_0.items.deep_view() == list_spec(
                        exec.store_spec().proposals_view(),
                        status@,
                        None,
                        None,
                        o,
                        offset,
                        limit,
                    )
                } else {
                    r is Err && r->Err_0 == AdapterError::InternalError
                }
            }),
    {
        let name = if sort_asc {
            "proposals/get_list_asc"
        } else {
            "proposals/get_list_desc"
        };
        if !exec.has_query(name) {
            return Err(AdapterError::InternalError);
        }
        let o = if sort_asc {
            Order::CreatedAsc
        } else {
            Order::CreatedDesc
        };
        let filtered = filtered_records(exec, status, None, None);
        let sorted = sorted_records(&filtered, o);
        let items = paged_records(sorted, offset, limit);
        Ok(Page { items })
    }

    /// Returns a page of proposal records with the given status for one
    /// target, sorted by creation time in the requested direction.
    pub fn get_list_for_target(
        &self,
        exec: &QueryExecutor,
        offset: u16,
        limit: u16,
        sort_asc: bool,
        status: &str,
        target: &str,
    ) -> (r: Result<Page, AdapterError>)
        requires
            exec.wf(),
        ensures
            ({
                let name = if sort_asc {
                    "proposals/get_list_for_target_asc"@
                } else {
                    "proposals/get_list_for_target_desc"@
                };
                let o = if sort_asc {
                    Order::CreatedAsc
                } else {
                    Order::CreatedDesc
                };
                if exec.catalog_spec().has_query_spec(name) {
                    r is Ok && r->Ok_0.items.deep_view() == list_spec(
                        exec.store_spec().proposals_view(),
                        status@,
                        Some(target@),
                        None,
                        o,
                        offset,
                        limit,
                    )
                } else {
                    r is Err && r->Err_0 == AdapterError::InternalError
                }
            }),
    {
        let name = if sort_asc {
            "proposals/get_list_for_target_asc"
        } else {
            "proposals/get_list_for_target_desc"
        };
        if !exec.has_query(name) {
            return Err(AdapterError::InternalError);
        }
        let o = if sort_asc {
            Order::CreatedAsc
        } else {
            Order::CreatedDesc
        };
        let filtered = filtered_records(exec, status, Some(target), None);
        let sorted = sorted_records(&filtered, o);
        let items = paged_records(sorted, offset, limit);
        Ok(Page { items })
    }

    /// Returns a page of proposal records with the given status by one
    /// author, sorted by creation time in the requested direction.
    pub fn get_list_for_author(
        &self,
        exec: &QueryExecutor,
        offset: u16,
        limit: u16,
        sort_asc: bool,
        status: &str,
        author_id: &str,
    ) -> (r: Result<Page, AdapterError>)
        requires
            exec.wf(),
        ensures
            ({
                let name = if sort_asc {
                    "proposals/get_list_for_author_asc"@
                } else {
                    "proposals/get_list_for_author_desc"@
                };
                let o = if sort_asc {
                    Order::CreatedAsc
                } else {
                    Order::CreatedDesc
                };
                if exec.catalog_spec().has_query_spec(name) {
                    r is Ok && r->Ok_0.items.deep_view() == list_spec(
                        exec.store_spec().proposals_view(),
                        status@,
                        None,
                        Some(author_id@),
                        o,
                        offset,
                        limit,
                    )
                } else {
                    r is Err && r->Err_0 == AdapterError::InternalError
                }
            }),
    {
        let name = if sort_asc {
            "proposals/get_list_for_author_asc"
        } else {
            "proposals/get_list_for_author_desc"
        };
        if !exec.has_query(name) {
            return Err(AdapterError::InternalError);
        }
        let o = if sort_asc {
            Order::CreatedAsc
        } else {
            Order::CreatedDesc
        };
        let filtered = filtered_records(exec, status, None, Some(author_id));
        let sorted = sorted_records(&filtered, o);
        let items = paged_records(sorted, offset, limit);
        Ok(Page { items })
    }

    /// Returns the most recent approved proposal for a target with close
    /// time at or before the given time stamp: the one with the greatest
    /// close time, breaking ties by the greater version. No such proposal
    /// is not an error.
    pub fn get_last_approved<'a>(
        &self,
        exec: &'a QueryExecutor,
        target: &str,
        time_stamp: u64,
    ) -> (r: Result<Option<&'a ProposalRecord>, AdapterError>)
        requires
            exec.wf(),
        ensures
            ({
                let view = exec.store_spec().proposals_view();
                if !exec.catalog_spec().has_query_spec("proposals/get_last_approved"@) {
                    r is Err && r->Err_0 == AdapterError::InternalError
                } else if exists|i: int|
                    0 <= i < view.len() && approved_at_or_before(
                        #[trigger] view[i],
                        target@,
                        time_stamp,
                    ) {
                    &&& r is Ok
                    &&& r->Ok_0 is Some
                    &&& is_latest_approved(view, target@, time_stamp, r->Ok_0->0@)
                } else {
                    r is Ok && r->Ok_0 is None
                }
            }),
    {
        if !exec.has_query("proposals/get_last_approved") {
            return Err(AdapterError::InternalError);
        }
        let ghost view = exec.store_spec().proposals_view();
        let n = exec.store_ref().proposals_len();
        let mut best: Option<usize> = None;
        let mut i: usize = 0;
        while i < n
            invariant
                0 <= i <= n,
                n == view.len(),
                view == exec.store_spec().proposals_view(),
                match best {
                    None => forall|j: int|
                        0 <= j < i ==> !approved_at_or_before(
                            #[trigger] view[j],
                            target@,
                            time_stamp,
                        ),
                    Some(b) => b < i && approved_at_or_before(view[b as int], target@, time_stamp)
                        && forall|j: int|
                        0 <= j < i && approved_at_or_before(#[trigger] view[j], target@, time_stamp)
                            ==> closed_no_later(view[j], view[b as int]),
                },
            decreases n - i,
        {
            let rec = exec.store_ref().proposal_at(i);
            let is_match = rec.proposal.status == ProposalStatus::Approved && (match rec.closed {
                Some(c) => c <= time_stamp,
                None => false,
            }) && crate::strutil::str_eq(rec.proposal.target.as_str(), target);
            if is_match {
                proof {
                    assert(approved_at_or_before(view[i as int], target@, time_stamp));
                }
                match best {
                    None => {
                        best = Some(i);
                    },
                    Some(b) => {
                        let cur = exec.store_ref().proposal_at(b);
                        let replace = match (cur.closed, rec.closed) {
                            (Some(x), Some(y)) => x < y || (x == y && cur.version <= rec.version),
                            _ => false,
                        };
                        if replace {
                            proof {
                                assert(closed_no_later(view[b as int], view[i as int]));
                            }
                            best = Some(i);
                        } else {
                            proof {
                                assert(closed_no_later(view[i as int], view[b as int]));
                            }
                        }
                    },
                }
            }
            i = i + 1;
        }
        match best {
            Some(b) => Ok(Some(exec.store_ref().proposal_at(b))),
            None => Ok(None),
        }
    }

    /// Returns up to `limit` distinct authors of approved proposals for a
    /// target, the most recently closed first.
    pub fn get_latest_authors(&self, exec: &QueryExecutor, target: &str, limit: u16) -> (r: Result<
        Vec<AuthorRef>,
        AdapterError,
    >)
        requires
            exec.wf(),
        ensures
            if exec.catalog_spec().has_query_spec("proposals/get_latest_authors"@) {
                r is Ok && r->Ok_0.deep_view() == latest_authors_spec(
                    exec.store_spec().proposals_view(),
                    target@,
                    limit,
                )
            } else {
                r is Err && r->Err_0 == AdapterError::InternalError
            },
    {
        if !exec.has_query("proposals/get_latest_authors") {
            return Err(AdapterError::InternalError);
        }
        let filtered = approved_records(exec, target);
        let sorted = sorted_records(&filtered, Order::Recency);
        let deduped = deduped_by_author(&sorted);
        let cap: usize = if (limit as usize) <= deduped.len() {
            limit as usize
        } else {
            deduped.len()
        };
        let ghost expected = latest_authors_spec(exec.store_spec().proposals_view(), target@, limit);
        proof {
            assert(expected.len() == cap);
        }
        let mut authors: Vec<AuthorRef> = Vec::new();
        let mut k: usize = 0;
        while k < cap
            invariant
                0 <= k <= cap,
                cap <= deduped@.len(),
                deduped.deep_view().len() == deduped@.len(),
                expected.len() == cap,
                forall|j: int|
                    0 <= j < cap ==> #[trigger] expected[j] == author_of(deduped.deep_view()[j]),
                authors.deep_view() == expected.take(k as int),
            decreases cap - k,
        {
            let ghost before = authors.deep_view();
            authors.push(
                AuthorRef {
                    id: deduped[k].proposal.author_id.clone(),
                    name: deduped[k].proposal.author_name.clone(),
                },
            );
            proof {
                assert(authors.deep_view() =~= before.push(author_of(deduped.deep_view()[k as int])));
                assert(expected.take(k as int + 1) =~= expected.take(k as int).push(
                    expected[k as int],
                ));
            }
            k = k + 1;
        }
        proof {
            assert(expected.take(cap as int) =~= expected);
        }
        Ok(authors)
    }
}

/// A page of proposal records, as returned by the listing operations.
pub struct Page {
    pub items: Vec<ProposalRecord>,
}

/// The orderings the listing operations sort by.
#[derive(Clone, Copy, PartialEq, Eq, Structural, Debug)]
pub enum Order {
    CreatedAsc,
    CreatedDesc,
    Recency,
}

/// Whether `a` comes strictly before `b` under an ordering. `Recency` puts
/// the most recently closed record first (later close time first, higher
/// version first among equal close times, closed records before open ones).
pub open spec fn order_lt(o: Order, a: ProposalRecordView, b: ProposalRecordView) -> bool {
    match o {
        Order::CreatedAsc => a.proposal.created < b.proposal.created,
        Order::CreatedDesc => a.proposal.created > b.proposal.created,
        Order::Recency => match (a.closed, b.closed) {
            (Some(x), Some(y)) => x > y || (x == y && a.version > b.version),
            (Some(_), None) => true,
            (None, Some(_)) => false,
            (None, None) => a.version > b.version,
        },
    }
}

/// Inserts `x` into an already sorted sequence, after any elements it ties
/// with, so sorting is stable.
pub open spec fn insert_by(s: Seq<ProposalRecordView>, x: ProposalRecordView, o: Order) -> Seq<
    ProposalRecordView,
>
    decreases s.len(),
{
    if s.len() == 0 {
        seq![x]
    } else if order_lt(o, x, s.last()) {
        insert_by(s.drop_last(), x, o).push(s.last())
    } else {
        s.push(x)
    }
}

/// Stable insertion sort of a sequence of records under an ordering.
pub open spec fn sort_by_order(s: Seq<ProposalRecordView>, o: Order) -> Seq<ProposalRecordView>
    decreases s.len(),
{
    if s.len() == 0 {
        Seq::empty()
    } else {
        insert_by(sort_by_order(s.drop_last(), o), s.last(), o)
    }
}

proof fn lemma_insert_by_split(s: Seq<ProposalRecordView>, x: ProposalRecordView, o: Order, pos: int)
    requires
        0 <= pos <= s.len(),
        forall|j: int| pos <= j < s.len() ==> order_lt(o, x, #[trigger] s[j]),
        pos > 0 ==> !order_lt(o, x, s[pos - 1]),
    ensures
        insert_by(s, x, o) == s.insert(pos, x),
    decreases s.len(),
{
    if pos == s.len() {
        assert(insert_by(s, x, o) =~= s.insert(pos, x));
    } else {
        let d = s.drop_last();
        assert(order_lt(o, x, s[s.len() - 1]));
        assert forall|j: int| pos <= j < d.len() implies order_lt(o, x, #[trigger] d[j]) by {
            assert(d[j] == s[j]);
        }
        if pos > 0 {
            assert(d[pos - 1] == s[pos - 1]);
        }
        lemma_insert_by_split(d, x, o, pos);
        assert(insert_by(s, x, o) =~= s.insert(pos, x));
    }
}

/// Whether `a` comes strictly before `b` under an ordering.
fn rec_before(o: Order, a: &ProposalRecord, b: &ProposalRecord) -> (r: bool)
    ensures
        r == order_lt(o, a@, b@),
{
    match o {
        Order::CreatedAsc => a.proposal.created < b.proposal.created,
        Order::CreatedDesc => a.proposal.created > b.proposal.created,
        Order::Recency => match (a.closed, b.closed) {
            (Some(x), Some(y)) => x > y || (x == y && a.version > b.version),
            (Some(_), None) => true,
            (None, Some(_)) => false,
            (None, None) => a.version > b.version,
        },
    }
}

/// Stable insertion sort of records under an ordering.
fn sorted_records(records: &Vec<ProposalRecord>, o: Order) -> (r: Vec<ProposalRecord>)
    ensures
        r.deep_view() == sort_by_order(records.deep_view(), o),
{
    let mut out: Vec<ProposalRecord> = Vec::new();
    let mut i: usize = 0;
    while i < records.len()
        invariant
            0 <= i <= records@.len(),
            records.deep_view().len() == records@.len(),
            out.deep_view() == sort_by_order(records.deep_view().take(i as int), o),
        decreases records@.len() - i,
    {
        let rec = records[i].clone();
        let ghost sorted_so_far = out.deep_view();
        let mut pos: usize = out.len();
        while pos > 0 && rec_before(o, &rec, &out[pos - 1])
            invariant
                0 <= pos <= out@.len(),
                out.deep_view() == sorted_so_far,
                out.deep_view().len() == out@.len(),
                rec@ == records.deep_view()[i as int],
                i < records@.len(),
                forall|j: int|
                    pos <= j < out.deep_view().len() ==> order_lt(
                        o,
                        rec@,
                        #[trigger] out.deep_view()[j],
                    ),
            decreases pos,
        {
            proof {
                assert(out.deep_view()[pos - 1] == out@[pos - 1]@);
            }
            pos = pos - 1;
        }
        proof {
            if pos > 0 {
                assert(out.deep_view()[pos - 1] == out@[pos - 1]@);
            }
            lemma_insert_by_split(out.deep_view(), rec@, o, pos as int);
        }
        let ghost out_before = out.deep_view();
        out.insert(pos, rec);
        proof {
            assert(out.deep_view() =~= out_before.insert(
                pos as int,
                records.deep_view()[i as int],
            ));
            assert(records.deep_view().take(i as int + 1).drop_last() =~= records.deep_view().take(
                i as int,
            ));
            assert(records.deep_view().take(i as int + 1).last() == records.deep_view()[i as int]);
        }
        i = i + 1;
    }
    proof {
        assert(records.deep_view().take(records@.len() as int) =~= records.deep_view());
    }
    out
}

/// Whether a record matches a listing filter: the status name, and
/// optionally the target or the author.
pub open spec fn list_pred(
    rec: ProposalRecordView,
    status: Seq<char>,
    target: Option<Seq<char>>,
    author: Option<Seq<char>>,
) -> bool {
    &&& crate::pojos::status_name_spec(rec.proposal.status) == status
    &&& match target {
        Some(t) => rec.proposal.target == t,
        None => true,
    }
    &&& match author {
        Some(a) => rec.proposal.author_id == a,
        None => true,
    }
}

/// The listing filter as a predicate on records.
pub open spec fn list_filter_fn(
    status: Seq<char>,
    target: Option<Seq<char>>,
    author: Option<Seq<char>>,
) -> spec_fn(ProposalRecordView) -> bool {
    |rec: ProposalRecordView| list_pred(rec, status, target, author)
}

/// The page window `[offset, offset + limit)` of a sequence, clipped to its
/// length.
pub open spec fn page_spec(s: Seq<ProposalRecordView>, offset: u16, limit: u16) -> Seq<
    ProposalRecordView,
> {
    let lo = if offset as int <= s.len() {
        offset as int
    } else {
        s.len() as int
    };
    let hi = if offset as int + limit as int <= s.len() {
        offset as int + limit as int
    } else {
        s.len() as int
    };
    s.subrange(lo, hi)
}

/// The records of the store matching a listing filter, sorted and paged.
pub open spec fn list_spec(
    s: Seq<ProposalRecordView>,
    status: Seq<char>,
    target: Option<Seq<char>>,
    author: Option<Seq<char>>,
    o: Order,
    offset: u16,
    limit: u16,
) -> Seq<ProposalRecordView> {
    page_spec(sort_by_order(s.filter(list_filter_fn(status, target, author)), o), offset, limit)
}

/// Records of the executor's store that match the filter, in store order.
fn filtered_records(
    exec: &QueryExecutor,
    status: &str,
    target: Option<&str>,
    author: Option<&str>,
) -> (r: Vec<ProposalRecord>)
    ensures
        r.deep_view() == exec.store_spec().proposals_view().filter(
            list_filter_fn(
                status@,
                match target {
                    Some(t) => Some(t@),
                    None => None,
                },
                match author {
                    Some(a) => Some(a@),
                    None => None,
                },
            ),
        ),
{
    let ghost tgt: Option<Seq<char>> = match target {
        Some(t) => Some(t@),
        None => None,
    };
    let ghost auth: Option<Seq<char>> = match author {
        Some(a) => Some(a@),
        None => None,
    };
    let mut out: Vec<ProposalRecord> = Vec::new();
    let n = exec.store_ref().proposals_len();
    let mut i: usize = 0;
    while i < n
        invariant
            0 <= i <= n,
            n == exec.store_spec().proposals_view().len(),
            tgt == (match target {
                Some(t) => Some(t@),
                None => None::<Seq<char>>,
            }),
            auth == (match author {
                Some(a) => Some(a@),
                None => None::<Seq<char>>,
            }),
            out.deep_view() == exec.store_spec().proposals_view().take(i as int).filter(
                list_filter_fn(status@, tgt, auth),
            ),
        decreases n - i,
    {
        let rec = exec.store_ref().proposal_at(i);
        let status_matches = crate::strutil::str_eq(
            crate::pojos::status_name(rec.proposal.status),
            status,
        );
        let target_matches = match target {
            Some(t) => crate::strutil::str_eq(rec.proposal.target.as_str(), t),
            None => true,
        };
        let author_matches = match author {
            Some(a) => crate::strutil::str_eq(rec.proposal.author_id.as_str(), a),
            None => true,
        };
        let ghost view = exec.store_spec().proposals_view();
        let ghost pred = list_filter_fn(status@, tgt, auth);
        proof {
            reveal(Seq::filter);
            assert(view.take(i as int + 1).drop_last() =~= view.take(i as int));
            assert(view.take(i as int + 1).last() == view[i as int]);
            assert(pred(view[i as int]) == list_pred(view[i as int], status@, tgt, auth));
            if pred(view[i as int]) {
                assert(view.take(i as int + 1).filter(pred) == view.take(i as int).filter(
                    pred,
                ).push(view[i as int]));
            } else {
                assert(view.take(i as int + 1).filter(pred) == view.take(i as int).filter(pred));
            }
        }
        if status_matches && target_matches && author_matches {
            proof {
                assert(list_pred(view[i as int], status@, tgt, auth));
            }
            let ghost before = out.deep_view();
            out.push(rec.clone());
            proof {
                assert(out.deep_view() =~= before.push(view[i as int]));
            }
        } else {
            proof {
                assert(!list_pred(view[i as int], status@, tgt, auth));
            }
        }
        i = i + 1;
    }
    proof {
        let view = exec.store_spec().proposals_view();
        assert(view.take(n as int) =~= view);
    }
    out
}

/// The page window of an already sorted vector of records.
fn paged_records(sorted: Vec<ProposalRecord>, offset: u16, limit: u16) -> (r: Vec<ProposalRecord>)
    ensures
        r.deep_view() == page_spec(sorted.deep_view(), offset, limit),
{
    let n = sorted.len();
    let lo: usize = if (offset as usize) <= n {
        offset as usize
    } else {
        n
    };
    let hi: usize = if (offset as usize) + (limit as usize) <= n {
        (offset as usize) + (limit as usize)
    } else {
        n
    };
    let mut out: Vec<ProposalRecord> = Vec::new();
    let mut i: usize = lo;
    while i < hi
        invariant
            lo <= i <= hi,
            hi <= sorted@.len(),
            sorted.deep_view().len() == sorted@.len(),
            out.deep_view() == sorted.deep_view().subrange(lo as int, i as int),
        decreases hi - i,
    {
        let ghost before = out.deep_view();
        out.push(sorted[i].clone());
        proof {
            assert(out.deep_view() =~= before.push(sorted.deep_view()[i as int]));
            assert(sorted.deep_view().subrange(lo as int, i as int + 1)
                =~= sorted.deep_view().subrange(lo as int, i as int).push(
                sorted.deep_view()[i as int],
            ));
        }
        i = i + 1;
    }
    proof {
        assert(out.deep_view() =~= page_spec(sorted.deep_view(), offset, limit));
    }
    out
}


/// Whether a record is an approved proposal for `target` with a close time
/// at or before `ts`.
pub open spec fn approved_at_or_before(rec: ProposalRecordView, target: Seq<char>, ts: u64) -> bool {
    &&& rec.proposal.target == target
    &&& rec.proposal.status == ProposalStatus::Approved
    &&& rec.closed is Some
    &&& rec.closed->0 <= ts
}

/// Whether `a` was closed no later than `b`: earlier close time, or the same
/// close time and a version no higher.
pub open spec fn closed_no_later(a: ProposalRecordView, b: ProposalRecordView) -> bool {
    a.closed->0 < b.closed->0 || (a.closed->0 == b.closed->0 && a.version <= b.version)
}

/// Whether `prev` is the most recent approved proposal for `target` closed
/// at or before `ts`: it is stored, it matches, and no match was closed
/// later (nor at the same time with a higher version).
pub open spec fn is_latest_approved(
    s: Seq<ProposalRecordView>,
    target: Seq<char>,
    ts: u64,
    prev: ProposalRecordView,
) -> bool {
    &&& approved_at_or_before(prev, target, ts)
    &&& exists|i: int| 0 <= i < s.len() && #[trigger] s[i] == prev
    &&& forall|j: int|
        0 <= j < s.len() && approved_at_or_before(#[trigger] s[j], target, ts)
            ==> closed_no_later(s[j], prev)
}

/// Whether a record is an approved, closed proposal for `target`.
pub open spec fn approved_closed_for(rec: ProposalRecordView, target: Seq<char>) -> bool {
    &&& rec.proposal.target == target
    &&& rec.proposal.status == ProposalStatus::Approved
    &&& rec.closed is Some
}

/// The approved-and-closed filter as a predicate on records.
pub open spec fn approved_filter_fn(target: Seq<char>) -> spec_fn(ProposalRecordView) -> bool {
    |rec: ProposalRecordView| approved_closed_for(rec, target)
}

/// Whether some record in `s` has this author.
pub open spec fn contains_author(s: Seq<ProposalRecordView>, id: Seq<char>) -> bool {
    exists|i: int| 0 <= i < s.len() && (#[trigger] s[i]).proposal.author_id == id
}

/// Keeps the first record of each author, in order.
pub open spec fn dedupe_authors(s: Seq<ProposalRecordView>) -> Seq<ProposalRecordView>
    decreases s.len(),
{
    if s.len() == 0 {
        Seq::empty()
    } else {
        let rest = dedupe_authors(s.drop_last());
        if contains_author(rest, s.last().proposal.author_id) {
            rest
        } else {
            rest.push(s.last())
        }
    }
}

/// The author attribution a record contributes.
pub open spec fn author_of(rec: ProposalRecordView) -> AuthorRefView {
    AuthorRefView { id: rec.proposal.author_id, name: rec.proposal.author_name }
}

/// Up to `limit` distinct authors of approved proposals for `target`, the
/// most recently closed first.
pub open spec fn latest_authors_spec(
    s: Seq<ProposalRecordView>,
    target: Seq<char>,
    limit: u16,
) -> Seq<AuthorRefView> {
    let deduped = dedupe_authors(sort_by_order(s.filter(approved_filter_fn(target)), Order::Recency));
    let capped = if limit as int <= deduped.len() {
        deduped.take(limit as int)
    } else {
        deduped
    };
    capped.map_values(|rec: ProposalRecordView| author_of(rec))
}

/// Records of the executor's store that are approved and closed for one
/// target, in store order.
fn approved_records(exec: &QueryExecutor, target: &str) -> (r: Vec<ProposalRecord>)
    ensures
        r.deep_view() == exec.store_spec().proposals_view().filter(approved_filter_fn(target@)),
{
    let ghost pred = approved_filter_fn(target@);
    let mut out: Vec<ProposalRecord> = Vec::new();
    let n = exec.store_ref().proposals_len();
    let mut i: usize = 0;
    while i < n
        invariant
            0 <= i <= n,
            n == exec.store_spec().proposals_view().len(),
            out.deep_view() == exec.store_spec().proposals_view().take(i as int).filter(
                approved_filter_fn(target@),
            ),
        decreases n - i,
    {
        let rec = exec.store_ref().proposal_at(i);
        let is_match = rec.proposal.status == ProposalStatus::Approved && rec.closed.is_some()
            && crate::strutil::str_eq(rec.proposal.target.as_str(), target);
        let ghost view = exec.store_spec().proposals_view();
        proof {
            reveal(Seq::filter);
            assert(view.take(i as int + 1).drop_last() =~= view.take(i as int));
            assert(view.take(i as int + 1).last() == view[i as int]);
            assert(approved_filter_fn(target@)(view[i as int]) == approved_closed_for(
                view[i as int],
                target@,
            ));
        }
        if is_match {
            proof {
                assert(approved_closed_for(view[i as int], target@));
            }
            let ghost before = out.deep_view();
            out.push(rec.clone());
            proof {
                assert(out.deep_view() =~= before.push(view[i as int]));
            }
        } else {
            proof {
                assert(!approved_closed_for(view[i as int], target@));
            }
        }
        i = i + 1;
    }
    proof {
        let view = exec.store_spec().proposals_view();
        assert(view.take(n as int) =~= view);
    }
    out
}

/// Whether some record in `v` has this author.
fn records_contain_author(v: &Vec<ProposalRecord>, id: &str) -> (r: bool)
    ensures
        r == contains_author(v.deep_view(), id@),
{
    let mut i: usize = 0;
    while i < v.len()
        invariant
            0 <= i <= v@.len(),
            v.deep_view().len() == v@.len(),
            forall|j: int| 0 <= j < i ==> (#[trigger] v.deep_view()[j]).proposal.author_id != id@,
        decreases v@.len() - i,
    {
        if crate::strutil::str_eq(v[i].proposal.author_id.as_str(), id) {
            proof {
                assert(v.deep_view()[i as int].proposal.author_id == id@);
            }
            return true;
        }
        i = i + 1;
    }
    false
}

/// Keeps the first record of each author, in order.
fn deduped_by_author(sorted: &Vec<ProposalRecord>) -> (r: Vec<ProposalRecord>)
    ensures
        r.deep_view() == dedupe_authors(sorted.deep_view()),
{
    let mut out: Vec<ProposalRecord> = Vec::new();
    let mut i: usize = 0;
    while i < sorted.len()
        invariant
            0 <= i <= sorted@.len(),
            sorted.deep_view().len() == sorted@.len(),
            out.deep_view() == dedupe_authors(sorted.deep_view().take(i as int)),
        decreases sorted@.len() - i,
    {
        let ghost view = sorted.deep_view();
        proof {
            assert(view.take(i as int + 1).drop_last() =~= view.take(i as int));
            assert(view.take(i as int + 1).last() == view[i as int]);
        }
        if !records_contain_author(&out, sorted[i].proposal.author_id.as_str()) {
            let ghost before = out.deep_view();
            out.push(sorted[i].clone());
            proof {
                assert(out.deep_view() =~= before.push(view[i as int]));
            }
        }
        i = i + 1;
    }
    proof {
        assert(sorted.deep_view().take(sorted@.len() as int) =~= sorted.deep_view());
    }
    out
}

proof fn lemma_counter_state_at(v0: int, states: Seq<int>, k: int)
    requires
        0 <= k < states.len(),
        states[0] == v0,
        forall|j: int| 1 <= j < states.len() ==> #[trigger] states[j] == states[j - 1] + 1,
    ensures
        states[k] == v0 + k,
    decreases k,
{
    if k > 0 {
        lemma_counter_state_at(v0, states, k - 1);
        assert(states[k] == states[k - 1] + 1);
    }
}

/// Law: for a fixed target, the values returned by successive successful
/// `increment_counter` calls form the contiguous strictly increasing range
/// that starts just above the pre-existing counter value: no two calls
/// return the same value and no value is skipped.
///
/// `states[k]` is the counter value before the `k`-th call (`v0` before the
/// first); each call's contract gives `states[k] == states[k - 1] + 1` and
/// `vals[k] == states[k] + 1`.
pub proof fn lemma_increment_values_contiguous(v0: int, vals: Seq<int>, states: Seq<int>)
    requires
        states.len() == vals.len() + 1,
        states[0] == v0,
        forall|k: int| 1 <= k < states.len() ==> #[trigger] states[k] == states[k - 1] + 1,
        forall|k: int| 0 <= k < vals.len() ==> #[trigger] vals[k] == states[k] + 1,
    ensures
        forall|k: int| 0 <= k < states.len() ==> #[trigger] states[k] == v0 + k,
        forall|k: int| 0 <= k < vals.len() ==> #[trigger] vals[k] == v0 + k + 1,
        forall|i: int, j: int| 0 <= i < j < vals.len() ==> vals[i] != vals[j],
{
    assert forall|k: int| 0 <= k < states.len() implies #[trigger] states[k] == v0 + k by {
        lemma_counter_state_at(v0, states, k);
    }
    assert forall|k: int| 0 <= k < vals.len() implies #[trigger] vals[k] == v0 + k + 1 by {
        assert(vals[k] == states[k] + 1);
        assert(states[k] == v0 + k);
    }
}

} // verus!

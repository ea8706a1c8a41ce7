//! The proposal workflow: accepting a submitted edit, the moderation state
//! machine that closes it, and the publish pipeline that runs when an edit
//! is approved.

use vstd::prelude::*;
use vstd::string::StringSliceAdditionalSpecFns;

use crate::adapters::{AdapterError, QueryExecutor};
use crate::claims::Claims;
use crate::documents::Documents;
use crate::hierarchy::{
    is_prefix_error, is_segment_error, parent_prefix_ok, resolve_parent_kind,
    resolve_parent_kind_spec, valid_segment, valid_target_spec, validate_target, ParentKind,
};
use crate::http_util::{
    get_paging_options, is_bad_request, is_internal, is_not_found, is_unauthorized, lookup_param,
    parse_query_string, qs_pairs, HttpError, DEFAULT_LIMIT, DEFAULT_OFFSET, MAX_LIMIT,
};

use crate::indexes::{
    appended_index, cascade_stop, ns_char_queries, ns_game_queries, ns_move_queries, NameSets,
};
use crate::pojos::{
    is_terminal_status, parse_status, parse_status_spec, sanitize_doc_spec, AnyDocument, AuthorRef,
    AuthorRefView, DocView, Document, Proposal as ProposalEnvelope, ProposalRequest,
    ProposalStatus, Proposed,
};
use crate::proposals::{
    approved_at_or_before, is_latest_approved, latest_authors_spec, list_spec, Order, Page,
    Proposals,
};
use crate::store::{
    closed_record_spec, find_counter, find_document, find_proposal, lemma_find_proposal_spec,
    CanonicalView, CounterView, DocKind, ProposalRecord, ProposalRecordView, ProposalView, Store,
};
use crate::strutil::str_eq;

verus! {

/// The key namespace a document of this type is published under.
pub open spec fn doc_kind_spec(kind: Seq<char>) -> DocKind {
    if kind == "game"@ {
        DocKind::Game
    } else if kind == "character"@ {
        DocKind::Character
    } else {
        DocKind::Move
    }
}

/// The key namespace consulted for a document's parent-existence check.
pub open spec fn parent_check_kind(kind: Seq<char>) -> DocKind {
    match resolve_parent_kind_spec(kind) {
        ParentKind::Game => DocKind::Game,
        _ => DocKind::Character,
    }
}

/// Whether the parent a document names exists in the canonical store.
pub open spec fn parent_ok_spec(store: Store, doc: DocView) -> bool {
    match doc.parent {
        None => true,
        Some(p) => find_document(store.documents_view(), parent_check_kind(doc.kind), p) is Some,
    }
}

/// The author id recorded on a new proposal: the caller's subject, or the
/// imported name marked as such.
pub open spec fn author_id_spec(claims: Claims, import_as: Option<Seq<char>>) -> Seq<char> {
    match import_as {
        Some(n) => "i:"@ + n,
        None => claims.sub_spec(),
    }
}

/// The author display name recorded on a new proposal.
pub open spec fn author_name_spec(claims: Claims, import_as: Option<Seq<char>>) -> Seq<char> {
    match import_as {
        Some(n) => n,
        None => claims.screen_name_spec(),
    }
}

/// The view of an optional import name.
pub open spec fn import_view(import_as: Option<String>) -> Option<Seq<char>> {
    match import_as {
        Some(s) => Some(s@),
        None => None,
    }
}

/// The pending proposal a valid request becomes at time `now`: target and
/// author recorded, the document sanitized.
pub open spec fn new_proposal_spec(
    claims: Claims,
    target: Seq<char>,
    import_as: Option<Seq<char>>,
    doc: DocView,
    now: u64,
) -> ProposalView {
    ProposalView {
        target,
        created: now,
        last_updated: now,
        status: ProposalStatus::Pending,
        author_id: author_id_spec(claims, import_as),
        author_name: author_name_spec(claims, import_as),
        document: sanitize_doc_spec(doc),
    }
}

/// Whether a proposal request passes every acceptance rule: the named
/// parent exists, the target is valid against it, and importing an author
/// is reserved to privileged identities.
pub open spec fn request_acceptable(
    store: Store,
    claims: Claims,
    target: Seq<char>,
    import_as: Option<Seq<char>>,
    doc: DocView,
) -> bool {
    &&& parent_ok_spec(store, doc)
    &&& valid_target_spec(target, doc.parent)
    &&& (import_as is Some ==> claims.is_admin_spec())
}

/// Which error a rejected proposal request is rejected with, following the
/// order the rules are checked in.
pub open spec fn rejection_matches(
    store: Store,
    claims: Claims,
    target: Seq<char>,
    import_as: Option<Seq<char>>,
    doc: DocView,
    e: HttpError,
) -> bool {
    if doc.parent is Some && !parent_ok_spec(store, doc) {
        is_bad_request(e, "The specified parent does not exist".spec_bytes())
    } else if !(match doc.parent {
        Some(p) => parent_prefix_ok(target, p),
        None => true,
    }) {
        is_prefix_error(e)
    } else if !(match doc.parent {
        Some(p) => valid_segment(target.skip(p.len() + 1 as int)),
        None => valid_segment(target),
    }) {
        is_segment_error(e)
    } else if import_as is Some && !claims.is_admin_spec() {
        is_unauthorized(e)
    } else {
        false
    }
}

/// What a successful commit of a proposal did: the counter for its target
/// moved to `version`, the record was written under `(target, version)`,
/// and the pair was returned.
pub open spec fn commit_ok(
    pre: QueryExecutor,
    post: QueryExecutor,
    pv: ProposalView,
    version: u64,
    r: Result<(String, u64), HttpError>,
) -> bool {
    &&& r is Ok
    &&& r->Ok_0.0@ == pv.target
    &&& r->Ok_0.1 == version
    &&& ({
        let rec = ProposalRecordView { version, closed: None, proposal: pv };
        match find_proposal(pre.store_spec().proposals_view(), pv.target, version) {
            None => post.store_spec().proposals_view() == pre.store_spec().proposals_view().push(
                rec,
            ),
            Some(j) => post.store_spec().proposals_view() == pre.store_spec().proposals_view()
                .update(j, rec),
        }
    })
    &&& ({
        let cs = pre.store_spec().counters_view();
        match find_counter(cs, pv.target) {
            None => post.store_spec().counters_view() == cs.push(
                CounterView {
                    target: pv.target,
                    value: version,
                    cas: pre.store_spec().next_cas_spec(),
                },
            ),
            Some(i) => post.store_spec().counters_view() == cs.update(
                i,
                CounterView { target: cs[i].target, value: version, cas: pre.store_spec().next_cas_spec() },
            ),
        }
    })
    &&& post.store_spec().documents_view() == pre.store_spec().documents_view()
    &&& post.store_spec().index_view() == pre.store_spec().index_view()
    &&& post.catalog_spec() == pre.catalog_spec()
}

/// What committing a proposal did: a fresh version was allocated and the
/// record written, or the store could not allocate one and nothing changed.
pub open spec fn commit_post(
    pre: QueryExecutor,
    post: QueryExecutor,
    pv: ProposalView,
    r: Result<(String, u64), HttpError>,
) -> bool {
    let cs = pre.store_spec().counters_view();
    match find_counter(cs, pv.target) {
        None => {
            if pre.store_spec().can_stamp() {
                commit_ok(pre, post, pv, 1, r)
            } else {
                r is Err && is_internal(r->Err_0) && post == pre
            }
        },
        Some(i) => {
            if cs[i].value < u64::MAX && pre.store_spec().can_stamp() {
                commit_ok(pre, post, pv, (cs[i].value + 1) as u64, r)
            } else {
                r is Err && is_internal(r->Err_0) && post == pre
            }
        },
    }
}


/// The record with the first entry for this author removed, if one exists.
pub open spec fn remove_first_author(s: Seq<AuthorRefView>, id: Seq<char>) -> Seq<AuthorRefView>
    decreases s.len(),
{
    if s.len() == 0 {
        Seq::empty()
    } else if s.first().id == id {
        s.drop_first()
    } else {
        seq![s.first()] + remove_first_author(s.drop_first(), id)
    }
}

/// The attribution list a publish writes: the proposal's author first, any
/// earlier entry of the same author removed.
pub open spec fn merged_authors_spec(
    s: Seq<AuthorRefView>,
    id: Seq<char>,
    name: Seq<char>,
) -> Seq<AuthorRefView> {
    seq![AuthorRefView { id, name }] + remove_first_author(s, id)
}

proof fn lemma_remove_first_none(s: Seq<AuthorRefView>, id: Seq<char>)
    requires
        forall|j: int| 0 <= j < s.len() ==> (#[trigger] s[j]).id != id,
    ensures
        remove_first_author(s, id) == s,
    decreases s.len(),
{
    if s.len() > 0 {
        assert(s.first().id != id);
        assert forall|j: int| 0 <= j < s.drop_first().len() implies (
        #[trigger] s.drop_first()[j]).id != id by {
            assert(s.drop_first()[j] == s[j + 1]);
        }
        lemma_remove_first_none(s.drop_first(), id);
        assert(remove_first_author(s, id) =~= s);
    }
}

proof fn lemma_remove_first_split(s: Seq<AuthorRefView>, id: Seq<char>, i: int)
    requires
        0 <= i < s.len(),
        s[i].id == id,
        forall|j: int| 0 <= j < i ==> (#[trigger] s[j]).id != id,
    ensures
        remove_first_author(s, id) == s.subrange(0, i) + s.subrange(i + 1, s.len() as int),
    decreases i,
{
    if i == 0 {
        assert(s.first().id == id);
        assert(remove_first_author(s, id) =~= s.subrange(0, 0) + s.subrange(1, s.len() as int));
    } else {
        assert(s.first().id != id);
        assert forall|j: int| 0 <= j < i - 1 implies (#[trigger] s.drop_first()[j]).id != id by {
            assert(s.drop_first()[j] == s[j + 1]);
        }
        assert(s.drop_first()[i - 1] == s[i]);
        lemma_remove_first_split(s.drop_first(), id, i - 1);
        assert(remove_first_author(s, id) =~= s.subrange(0, i) + s.subrange(i + 1, s.len() as int));
    }
}

/// Merges the proposal's author into an attribution list: an earlier entry
/// of the same author is removed and the author is put first.
fn merged_authors(authors: Vec<AuthorRef>, author_id: &str, author_name: &str) -> (r: Vec<
    AuthorRef,
>)
    ensures
        r.deep_view() == merged_authors_spec(authors.deep_view(), author_id@, author_name@),
{
    let ghost orig = authors.deep_view();
    let mut authors = authors;
    let mut i: usize = 0;
    let mut removed = false;
    while i < authors.len() && !removed
        invariant
            0 <= i <= authors@.len(),
            authors.deep_view().len() == authors@.len(),
            !removed ==> authors.deep_view() == orig && forall|j: int|
                0 <= j < i ==> (#[trigger] orig[j]).id != author_id@,
            removed ==> authors.deep_view() == remove_first_author(orig, author_id@),
        decreases authors@.len() - i,
    {
        if str_eq(authors[i].id.as_str(), author_id) {
            proof {
                assert(orig[i as int].id == author_id@);
                lemma_remove_first_split(orig, author_id@, i as int);
            }
            authors.remove(i);
            proof {
                assert(authors.deep_view() =~= orig.subrange(0, i as int) + orig.subrange(
                    i as int + 1,
                    orig.len() as int,
                ));
            }
            removed = true;
        } else {
            i = i + 1;
        }
    }
    proof {
        if !removed {
            lemma_remove_first_none(orig, author_id@);
        }
    }
    let ghost base = authors.deep_view();
    authors.insert(0, AuthorRef { id: author_id.to_owned(), name: author_name.to_owned() });
    proof {
        assert(authors.deep_view() =~= seq![
            AuthorRefView { id: author_id@, name: author_name@ },
        ] + base);
    }
    authors
}

/// The index queries publishing a document of this kind cascades through.
pub open spec fn index_queries_for(kind: DocKind) -> Seq<Seq<char>> {
    match kind {
        DocKind::Game => ns_game_queries(),
        DocKind::Character => ns_char_queries(),
        DocKind::Move => ns_move_queries(),
    }
}

/// The message a close request with an unknown status name is rejected with.
pub open spec fn invalid_status_message(status: Seq<char>) -> Seq<u8> {
    vstd::utf8::encode_utf8("Invalid proposal status '"@ + status + "'"@)
}

/// Who may close a proposal with a requested status: approving and rejecting
/// are reserved to privileged identities, cancelling to the proposal's
/// author; any other status name is not a permitted request at all.
pub open spec fn close_authz_ok(
    rec: ProposalRecordView,
    status: Seq<char>,
    claims: Claims,
) -> bool {
    if status == "approved"@ || status == "rejected"@ {
        claims.is_admin_spec()
    } else if status == "cancelled"@ {
        claims.sub_spec() == rec.proposal.author_id
    } else {
        false
    }
}

/// Which error a refused close authorization is rejected with: a permission
/// failure is opaque, an unknown status name is named in the message.
pub open spec fn close_rejection_matches(
    status: Seq<char>,
    e: HttpError,
) -> bool {
    if status == "approved"@ || status == "rejected"@ || status == "cancelled"@ {
        is_unauthorized(e)
    } else {
        is_bad_request(e, invalid_status_message(status))
    }
}

/// What publishing an approved proposal did: the canonical document for its
/// target was replaced by the proposal's document carrying the merged author
/// attribution, and the index cascade for its kind ran until a query was
/// missing. A missing index query fails the publish even though the
/// canonical document has already changed.
pub open spec fn publish_post(
    pre: QueryExecutor,
    post: QueryExecutor,
    rec: ProposalRecordView,
    r: Result<(), HttpError>,
) -> bool {
    let t = rec.proposal.target;
    if !pre.catalog_spec().has_query_spec("proposals/get_latest_authors"@) {
        r is Err && is_internal(r->Err_0) && post == pre
    } else {
        let kind = doc_kind_spec(rec.proposal.document.kind);
        let authors0 = latest_authors_spec(pre.store_spec().proposals_view(), t, 9);
        let merged = merged_authors_spec(authors0, rec.proposal.author_id, rec.proposal.author_name);
        let newdoc = CanonicalView {
            kind,
            target: t,
            document: rec.proposal.document,
            latest_authors: merged,
        };
        let names = index_queries_for(kind);
        let stop = cascade_stop(pre.catalog_spec(), names);
        &&& (match find_document(pre.store_spec().documents_view(), kind, t) {
            None => post.store_spec().documents_view() == pre.store_spec().documents_view().push(
                newdoc,
            ),
            Some(i) => post.store_spec().documents_view() == pre.store_spec().documents_view()
                .update(i, newdoc),
        })
        &&& post.store_spec().counters_view() == pre.store_spec().counters_view()
        &&& post.store_spec().proposals_view() == pre.store_spec().proposals_view()
        &&& post.store_spec().next_cas_spec() == pre.store_spec().next_cas_spec()
        &&& post.catalog_spec() == pre.catalog_spec()
        &&& post.store_spec().index_view() == appended_index(
            pre.store_spec().index_view(),
            names,
            stop,
            t,
        )
        &&& (r is Ok <==> stop == names.len())
        &&& (r is Err ==> is_internal(r->Err_0))
    }
}

/// What an authorized approval did: the publish pipeline ran, and the
/// proposal was closed as approved exactly when the pipeline succeeded.
pub open spec fn approved_close_post(
    pre: QueryExecutor,
    post: QueryExecutor,
    i: int,
    rec: ProposalRecordView,
    now: u64,
    r: Result<ProposalRecord, HttpError>,
) -> bool {
    let t = rec.proposal.target;
    if !pre.catalog_spec().has_query_spec("proposals/get_latest_authors"@) {
        r is Err && is_internal(r->Err_0) && post == pre
    } else {
        let kind = doc_kind_spec(rec.proposal.document.kind);
        let authors0 = latest_authors_spec(pre.store_spec().proposals_view(), t, 9);
        let merged = merged_authors_spec(authors0, rec.proposal.author_id, rec.proposal.author_name);
        let newdoc = CanonicalView {
            kind,
            target: t,
            document: rec.proposal.document,
            latest_authors: merged,
        };
        let names = index_queries_for(kind);
        let stop = cascade_stop(pre.catalog_spec(), names);
        &&& (match find_document(pre.store_spec().documents_view(), kind, t) {
            None => post.store_spec().documents_view() == pre.store_spec().documents_view().push(
                newdoc,
            ),
            Some(j) => post.store_spec().documents_view() == pre.store_spec().documents_view()
                .update(j, newdoc),
        })
        &&& post.store_spec().counters_view() == pre.store_spec().counters_view()
        &&& post.store_spec().next_cas_spec() == pre.store_spec().next_cas_spec()
        &&& post.catalog_spec() == pre.catalog_spec()
        &&& post.store_spec().index_view() == appended_index(
            pre.store_spec().index_view(),
            names,
            stop,
            t,
        )
        &&& (if stop == names.len() {
            &&& r is Ok
            &&& r->Ok_0@ == closed_record_spec(rec, ProposalStatus::Approved, now)
            &&& post.store_spec().proposals_view() == pre.store_spec().proposals_view().update(
                i,
                closed_record_spec(rec, ProposalStatus::Approved, now),
            )
        } else {
            // The publish failed after the canonical write: the proposal is
            // not closed, but the canonical document has already changed.
            &&& r is Err
            &&& is_internal(r->Err_0)
            &&& post.store_spec().proposals_view() == pre.store_spec().proposals_view()
        })
    }
}

/// What closing a proposal did, for every case: an absent record, an
/// already-closed record (refused regardless of the caller), a caller the
/// state machine does not permit, an approval with its publish pipeline, or
/// a plain rejection or cancellation.
pub open spec fn close_post(
    pre: QueryExecutor,
    post: QueryExecutor,
    target: Seq<char>,
    version: u64,
    status: Seq<char>,
    claims: Claims,
    now: u64,
    r: Result<ProposalRecord, HttpError>,
) -> bool {
    let pv = pre.store_spec().proposals_view();
    match find_proposal(pv, target, version) {
        None => r is Err && is_not_found(r->Err_0) && post == pre,
        Some(i) => {
            let rec = pv[i];
            if is_terminal_status(rec.proposal.status) {
                r is Err && is_bad_request(r->Err_0, "The proposal is not pending".spec_bytes())
                    && post == pre
            } else if !close_authz_ok(rec, status, claims) {
                r is Err && close_rejection_matches(status, r->Err_0) && post == pre
            } else if status == "approved"@ {
                approved_close_post(pre, post, i, rec, now, r)
            } else {
                let st = parse_status_spec(status)->0;
                &&& r is Ok
                &&& r->Ok_0@ == closed_record_spec(rec, st, now)
                &&& post.store_spec().proposals_view() == pv.update(
                    i,
                    closed_record_spec(rec, st, now),
                )
                &&& post.store_spec().counters_view() == pre.store_spec().counters_view()
                &&& post.store_spec().documents_view() == pre.store_spec().documents_view()
                &&& post.store_spec().index_view() == pre.store_spec().index_view()
                &&& post.catalog_spec() == pre.catalog_spec()
            }
        },
    }
}


/// The close time used to look up the proposal previously approved: the
/// record's own close time, or the present moment for a record still open.
pub open spec fn prev_cutoff(rec: ProposalRecordView, now: u64) -> u64 {
    match rec.closed {
        Some(c) => c,
        None => now,
    }
}

/// The status a listing filters by: the named one, or `approved` when none
/// is named.
pub open spec fn qp_status(pairs: Seq<(Seq<char>, Seq<char>)>) -> Seq<char> {
    match lookup_param(pairs, "status"@) {
        Some(v) => v,
        None => "approved"@,
    }
}

/// The sort direction of a listing: ascending unless `sortAsc` says
/// otherwise.
pub open spec fn qp_sort_asc(pairs: Seq<(Seq<char>, Seq<char>)>) -> bool {
    match lookup_param(pairs, "sortAsc"@) {
        Some(v) => v == "true"@,
        None => true,
    }
}

/// What listing proposals returned, for each combination of the optional
/// target and author filters (a request naming both falls back to the plain
/// status listing, as does one naming neither).
pub open spec fn listing_post(
    exec: QueryExecutor,
    offset: u16,
    limit: u16,
    sort_asc: bool,
    status: Seq<char>,
    target: Option<Seq<char>>,
    author: Option<Seq<char>>,
    r: Result<Page, HttpError>,
) -> bool {
    let o = if sort_asc {
        Order::CreatedAsc
    } else {
        Order::CreatedDesc
    };
    let (name, tgt, auth): (Seq<char>, Option<Seq<char>>, Option<Seq<char>>) = match (
        target,
        author,
    ) {
        (Some(t), None) => (
            if sort_asc {
                "proposals/get_list_for_target_asc"@
            } else {
                "proposals/get_list_for_target_desc"@
            },
            Some(t),
            None,
        ),
        (None, Some(a)) => (
            if sort_asc {
                "proposals/get_list_for_author_asc"@
            } else {
                "proposals/get_list_for_author_desc"@
            },
            None,
            Some(a),
        ),
        _ => (
            if sort_asc {
                "proposals/get_list_asc"@
            } else {
                "proposals/get_list_desc"@
            },
            None,
            None,
        ),
    };
    if exec.catalog_spec().has_query_spec(name) {
        r is Ok && r->Ok_0.items.deep_view() == list_spec(
            exec.store_spec().proposals_view(),
            status,
            tgt,
            auth,
            o,
            offset,
            limit,
        )
    } else {
        r is Err && is_internal(r->Err_0)
    }
}

/// Handles proposal submission and moderation against the record store.
pub struct Proposal {
    props_adapter: Proposals,
    docs_adapter: Documents,
    name_sets_adapter: NameSets,
}

impl Proposal {
    pub fn new(
        props_adapter: Proposals,
        docs_adapter: Documents,
        name_sets_adapter: NameSets,
    ) -> (r: Proposal) {
        Proposal { props_adapter, docs_adapter, name_sets_adapter }
    }

    /// Turns a submission into a pending proposal: checks that the parent
    /// the document names exists, validates the target against it, resolves
    /// the author (importing one is reserved to privileged identities), and
    /// sanitizes the document.
    pub fn process_proposal_request(
        &self,
        exec: &QueryExecutor,
        claims: &Claims,
        request: ProposalRequest<AnyDocument>,
        now: u64,
    ) -> (r: Result<ProposalEnvelope<AnyDocument>, HttpError>)
        requires
            exec.wf(),
        ensures
            ({
                let doc = request.document.doc_view();
                let imp = import_view(request.import_as);
                &&& (r is Ok <==> request_acceptable(
                    exec.store_spec(),
                    *claims,
                    request.target@,
                    imp,
                    doc,
                ))
                &&& (r is Err ==> rejection_matches(
                    exec.store_spec(),
                    *claims,
                    request.target@,
                    imp,
                    doc,
                    r->Err_0,
                ))
                &&& (r is Ok ==> r->Ok_0@ == new_proposal_spec(
                    *claims,
                    request.target@,
                    imp,
                    doc,
                    now,
                ))
            }),
    {
        let ProposalRequest { target, import_as, mut document } = request;
        // Check that the parent the document names exists, then validate
        // the target against it.
        match document.get_parent() {
            Some(parent) => {
                let exists_result = match resolve_parent_kind(document.get_type()) {
                    ParentKind::Game => self.docs_adapter.game_exists(exec, parent),
                    _ => self.docs_adapter.char_exists(exec, parent),
                };
                let exists = match exists_result {
                    Ok(b) => b,
                    Err(_) => {
                        return Err(HttpError::InternalError(None));
                    },
                };
                if !exists {
                    return Err(HttpError::BadRequest(crate::http_util::msg_bytes(
                        "The specified parent does not exist",
                    )));
                }
                if let Err(error) = validate_target(target.as_str(), Some(parent)) {
                    return Err(error);
                }
            },
            None => {
                if let Err(error) = validate_target(target.as_str(), None) {
                    return Err(error);
                }
            },
        }
        // Determine the author information.
        let (author_id, author_name): (String, String) = match import_as {
            Some(import_name) => {
                if !claims.is_admin() {
                    return Err(HttpError::Unauthorized(None));
                }
                let mut id = "i:".to_owned();
                id.append(import_name.as_str());
                (id, import_name)
            },
            None => (claims.sub().to_owned(), claims.screen_name().to_owned()),
        };
        // Sanitize the document.
        document.sanitize();
        // Create the actual proposal.
        Ok(
            ProposalEnvelope {
                target,
                created: now,
                last_updated: now,
                status: ProposalStatus::Pending,
                author_id,
                author_name,
                document,
            },
        )
    }

    /// Commits a new proposal: allocates the next version for its target
    /// and persists the record under that version, returning the target and
    /// the version.
    pub fn commit_new_proposal(
        &self,
        exec: &mut QueryExecutor,
        proposal: ProposalEnvelope<AnyDocument>,
    ) -> (r: Result<(String, u64), HttpError>)
        requires
            old(exec).wf(),
        ensures
            final(exec).wf(),
            commit_post(*old(exec), *final(exec), proposal@, r),
    {
        let target = proposal.target().to_owned();
        let count = match self.props_adapter.increment_counter(exec, target.as_str()) {
            Ok(count) => count,
            Err(_) => {
                return Err(HttpError::InternalError(None));
            },
        };
        match self.props_adapter.upsert(exec, target.as_str(), count, proposal) {
            Ok(_) => Ok((target, count)),
            Err(_) => Err(HttpError::InternalError(None)),
        }
    }

    /// Accepts a proposal submission: validates it, allocates a version and
    /// persists the pending proposal; returns the target and the allocated
    /// version.
    pub fn submit_proposal(
        &self,
        exec: &mut QueryExecutor,
        claims: &Claims,
        request: ProposalRequest<AnyDocument>,
        now: u64,
    ) -> (r: Result<(String, u64), HttpError>)
        requires
            old(exec).wf(),
        ensures
            final(exec).wf(),
            ({
                let doc = request.document.doc_view();
                let imp = import_view(request.import_as);
                if request_acceptable(
                    old(exec).store_spec(),
                    *claims,
                    request.target@,
                    imp,
                    doc,
                ) {
                    commit_post(
                        *old(exec),
                        *final(exec),
                        new_proposal_spec(*claims, request.target@, imp, doc, now),
                        r,
                    )
                } else {
                    &&& r is Err
                    &&& rejection_matches(
                        old(exec).store_spec(),
                        *claims,
                        request.target@,
                        imp,
                        doc,
                        r->Err_0,
                    )
                    &&& *final(exec) == *old(exec)
                }
            }),
    {
        let proposal = match self.process_proposal_request(exec, claims, request, now) {
            Ok(p) => p,
            Err(error) => {
                return Err(error);
            },
        };
        self.commit_new_proposal(exec, proposal)
    }

    /// Authorizes the closing of a proposal by the caller: approving and
    /// rejecting are reserved to privileged identities, cancelling to the
    /// proposal's author; any other status name is an invalid request, not a
    /// permission failure.
    pub fn authorize_proposal_close(
        proposal: &ProposalRecord,
        status: &str,
        claims: &Claims,
    ) -> (r: Result<(), HttpError>)
        ensures
            r is Ok <==> close_authz_ok(proposal@, status@, *claims),
            r is Err ==> close_rejection_matches(status@, r->Err_0),
    {
        if str_eq(status, "approved") || str_eq(status, "rejected") {
            // Only privileged identities can approve or reject.
            if !claims.is_admin() {
                Err(HttpError::Unauthorized(None))
            } else {
                Ok(())
            }
        } else if str_eq(status, "cancelled") {
            // Only the author can cancel.
            if !str_eq(claims.sub(), proposal.proposal.author_id.as_str()) {
                Err(HttpError::Unauthorized(None))
            } else {
                Ok(())
            }
        } else {
            let mut message = "Invalid proposal status '".to_owned();
            message.append(status);
            message.append("'");
            let bytes = message.as_str().as_bytes_vec();
            proof {
                assert(bytes@ == invalid_status_message(status@));
            }
            Err(HttpError::BadRequest(bytes))
        }
    }

    /// Publishes an approved proposal: merges the author attribution, writes
    /// the canonical document, and cascades the index updates for its kind.
    pub fn publish_proposal(&self, exec: &mut QueryExecutor, record: &ProposalRecord) -> (r: Result<
        (),
        HttpError,
    >)
        requires
            old(exec).wf(),
        ensures
            final(exec).wf(),
            publish_post(*old(exec), *final(exec), record@, r),
    {
        // Set the latest-authors list.
        let authors = match self.props_adapter.get_latest_authors(
            exec,
            record.proposal.target.as_str(),
            9,
        ) {
            Ok(a) => a,
            Err(_) => {
                return Err(HttpError::InternalError(None));
            },
        };
        let merged = merged_authors(
            authors,
            record.proposal.author_id.as_str(),
            record.proposal.author_name.as_str(),
        );
        // Publish the internal document.
        proof {
            reveal_strlit("game");
            reveal_strlit("character");
            reveal_strlit("move");
            assert("move"@[0] == 'm' && "game"@[0] == 'g');
            assert("move"@ != "game"@);
        }
        let doc_copy = record.proposal.document.clone();
        let target = record.proposal.target.as_str();
        let upsert_result = match &record.proposal.document {
            AnyDocument::Game(_) => self.docs_adapter.upsert_game(exec, target, doc_copy, merged),
            AnyDocument::Character(_) => self.docs_adapter.upsert_char(
                exec,
                target,
                doc_copy,
                merged,
            ),
            AnyDocument::Move(_) => self.docs_adapter.upsert_move(exec, target, doc_copy, merged),
        };
        if upsert_result.is_err() {
            return Err(HttpError::InternalError(None));
        }
        // Update the name sets for full-text searching.
        let index_result = match &record.proposal.document {
            AnyDocument::Game(_) => self.name_sets_adapter.update_game(exec, target),
            AnyDocument::Character(_) => self.name_sets_adapter.update_char(exec, target),
            AnyDocument::Move(_) => self.name_sets_adapter.update_move(exec, target),
        };
        match index_result {
            Ok(_) => Ok(()),
            Err(_) => Err(HttpError::InternalError(None)),
        }
    }

    /// Closes a proposal: looks it up, refuses one that is no longer
    /// pending regardless of the caller, authorizes the requested status,
    /// runs the publish pipeline on approval, and records the close.
    pub fn close_proposal(
        &self,
        exec: &mut QueryExecutor,
        target: &str,
        version: u64,
        status: &str,
        claims: &Claims,
        now: u64,
    ) -> (r: Result<ProposalRecord, HttpError>)
        requires
            old(exec).wf(),
        ensures
            final(exec).wf(),
            close_post(*old(exec), *final(exec), target@, version, status@, *claims, now, r),
    {
        let record = match self.props_adapter.get(exec, target, version) {
            Ok(rec) => rec.clone(),
            Err(_) => {
                return Err(HttpError::NotFound(None));
            },
        };
        // A proposal is closed exactly once: refuse one no longer pending.
        if !matches!(record.proposal.status, ProposalStatus::Pending) {
            return Err(HttpError::BadRequest(crate::http_util::msg_bytes(
                "The proposal is not pending",
            )));
        }
        // Make sure the current user can change the status.
        if let Err(error) = Self::authorize_proposal_close(&record, status, claims) {
            return Err(error);
        }
        proof {
            reveal_strlit("pending");
            reveal_strlit("approved");
            reveal_strlit("rejected");
            reveal_strlit("cancelled");
            assert("rejected"@[0] == 'r' && "approved"@[0] == 'a');
            assert("rejected"@ != "approved"@);
        }
        let new_status = match parse_status(status) {
            Some(st) => st,
            None => {
                // Unreachable: the authorization admits only the three
                // closing status names, and each of them parses.
                proof {
                    assert(false);
                }
                return Err(HttpError::InternalError(None));
            },
        };
        // Publish on approval.
        if str_eq(status, "approved") {
            if let Err(error) = self.publish_proposal(exec, &record) {
                return Err(error);
            }
        }
        // Close the proposal.
        match self.props_adapter.close(exec, target, version, new_status, now) {
            Ok(updated) => Ok(updated),
            Err(AdapterError::DocumentNotFound) => Err(HttpError::NotFound(None)),
            Err(AdapterError::PreconditionFailed) => Err(HttpError::BadRequest(
                crate::http_util::msg_bytes("The proposal is not pending"),
            )),
            Err(AdapterError::InternalError) => Err(HttpError::InternalError(None)),
        }
    }

    /// Finds the proposal previously approved for a record's target: the
    /// most recent approved proposal closed at or before the record's own
    /// close time (or the present moment for a record still open); absent
    /// counts as no previous proposal, not as an error.
    pub fn combine_with_prev(
        &self,
        exec: &QueryExecutor,
        record: &ProposalRecord,
        now: u64,
    ) -> (r: Result<Option<ProposalRecord>, AdapterError>)
        requires
            exec.wf(),
        ensures
            ({
                let pv = exec.store_spec().proposals_view();
                let t = record@.proposal.target;
                let ts = prev_cutoff(record@, now);
                if !exec.catalog_spec().has_query_spec("proposals/get_last_approved"@) {
                    r is Err && r->Err_0 == AdapterError::InternalError
                } else if exists|i: int|
                    0 <= i < pv.len() && approved_at_or_before(#[trigger] pv[i], t, ts) {
                    r is Ok && r->Ok_0 is Some && is_latest_approved(pv, t, ts, r->Ok_0->0@)
                } else {
                    r is Ok && r->Ok_0 is None
                }
            }),
    {
        let time_stamp = match record.closed {
            Some(c) => c,
            None => now,
        };
        match self.props_adapter.get_last_approved(
            exec,
            record.proposal.target.as_str(),
            time_stamp,
        ) {
            Ok(Some(prev)) => Ok(Some(prev.clone())),
            Ok(None) => Ok(None),
            Err(error) => Err(error),
        }
    }

    /// Returns a proposal together with the proposal previously approved
    /// for its target.
    pub fn get_proposal(&self, exec: &QueryExecutor, target: &str, version: u64, now: u64) -> (r:
        Result<(ProposalRecord, Option<ProposalRecord>), HttpError>)
        requires
            exec.wf(),
        ensures
            ({
                let pv = exec.store_spec().proposals_view();
                match find_proposal(pv, target@, version) {
                    None => r is Err && is_not_found(r->Err_0),
                    Some(i) => {
                        let rec = pv[i];
                        let ts = prev_cutoff(rec, now);
                        if !exec.catalog_spec().has_query_spec("proposals/get_last_approved"@) {
                            r is Err && is_internal(r->Err_0)
                        } else {
                            &&& r is Ok
                            &&& r->Ok_0.0@ == rec
                            &&& (if exists|j: int|
                                0 <= j < pv.len() && approved_at_or_before(
                                    #[trigger] pv[j],
                                    target@,
                                    ts,
                                ) {
                                r->Ok_0.1 is Some && is_latest_approved(
                                    pv,
                                    target@,
                                    ts,
                                    r->Ok_0.1->0@,
                                )
                            } else {
                                r->Ok_0.1 is None
                            })
                        }
                    },
                }
            }),
    {
        proof {
            lemma_find_proposal_spec(exec.store_spec().proposals_view(), target@, version);
        }
        let record = match self.props_adapter.get(exec, target, version) {
            Ok(rec) => rec.clone(),
            Err(_) => {
                return Err(HttpError::NotFound(None));
            },
        };
        match self.combine_with_prev(exec, &record, now) {
            Ok(previous) => Ok((record, previous)),
            Err(_) => Err(HttpError::InternalError(None)),
        }
    }

    /// Lists proposals with a given status, optionally filtered by target or
    /// author (a request naming both, or neither, is the plain status
    /// listing), sorted by creation time and paged.
    pub fn list_proposals(
        &self,
        exec: &QueryExecutor,
        offset: u16,
        limit: u16,
        sort_asc: bool,
        status: &str,
        target: Option<&str>,
        author: Option<&str>,
    ) -> (r: Result<Page, HttpError>)
        requires
            exec.wf(),
        ensures
            listing_post(
                *exec,
                offset,
                limit,
                sort_asc,
                status@,
                match target {
                    Some(t) => Some(t@),
                    None => None,
                },
                match author {
                    Some(a) => Some(a@),
                    None => None,
                },
                r,
            ),
    {
        let result = match (target, author) {
            (Some(t), None) => self.props_adapter.get_list_for_target(
                exec,
                offset,
                limit,
                sort_asc,
                status,
                t,
            ),
            (None, Some(a)) => self.props_adapter.get_list_for_author(
                exec,
                offset,
                limit,
                sort_asc,
                status,
                a,
            ),
            _ => self.props_adapter.get_list(exec, offset, limit, sort_asc, status),
        };
        match result {
            Ok(page) => Ok(page),
            Err(_) => Err(HttpError::InternalError(None)),
        }
    }

    /// Handles a proposal listing request from its query string: parses the
    /// parameters, applies the paging rules, and lists.
    pub fn handle_query_request(&self, exec: &QueryExecutor, query: &str) -> (r: Result<
        Page,
        HttpError,
    >)
        requires
            exec.wf(),
        ensures
            ({
                let pairs = qs_pairs(query@);
                let off = lookup_param(pairs, "offset"@);
                let lim = lookup_param(pairs, "limit"@);
                if off is Some && !crate::http_util::is_u16_value(off->0) {
                    r is Err && is_bad_request(
                        r->Err_0,
                        "Invalid integer for parameter 'offset'".spec_bytes(),
                    )
                } else if lim is Some && !crate::http_util::is_u16_value(lim->0) {
                    r is Err && is_bad_request(
                        r->Err_0,
                        "Invalid integer for parameter 'limit'".spec_bytes(),
                    )
                } else {
                    let offset = (match off {
                        Some(v) => crate::strutil::digits_value(v) as u16,
                        None => DEFAULT_OFFSET,
                    });
                    let limit = (match lim {
                        Some(v) => {
                            if crate::strutil::digits_value(v) <= MAX_LIMIT {
                                crate::strutil::digits_value(v) as u16
                            } else {
                                MAX_LIMIT
                            }
                        },
                        None => DEFAULT_LIMIT,
                    });
                    listing_post(
                        *exec,
                        offset,
                        limit,
                        qp_sort_asc(pairs),
                        qp_status(pairs),
                        lookup_param(pairs, "target"@),
                        lookup_param(pairs, "author"@),
                        r,
                    )
                }
            }),
    {
        let query_params = parse_query_string(query);
        let (offset, limit) = match get_paging_options(&query_params) {
            Ok(pair) => pair,
            Err(message) => {
                let bytes = message.as_str().as_bytes_vec();
                return Err(HttpError::BadRequest(bytes));
            },
        };
        let status: &str = match crate::http_util::get_param(&query_params, "status") {
            Some(v) => v.as_str(),
            None => "approved",
        };
        let target: Option<&str> = match crate::http_util::get_param(&query_params, "target") {
            Some(v) => Some(v.as_str()),
            None => None,
        };
        let author: Option<&str> = match crate::http_util::get_param(&query_params, "author") {
            Some(v) => Some(v.as_str()),
            None => None,
        };
        let sort_asc: bool = match crate::http_util::get_param(&query_params, "sortAsc") {
            Some(v) => str_eq(v.as_str(), "true"),
            None => true,
        };
        self.list_proposals(exec, offset, limit, sort_asc, status, target, author)
    }
}

} // verus!

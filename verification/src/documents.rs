//! The canonical documents adapter: existence checks consulted before a
//! proposal is accepted, the upserts the publish pipeline issues, and the
//! reads and listings of published documents.

use vstd::prelude::*;

use crate::adapters::{AdapterError, QueryExecutor};
use crate::pojos::{AnyDocument, AuthorRef, Document};
use crate::store::{find_document, CanonicalRecord, CanonicalView, DocKind};

verus! {

/// The canonical view a publish writes for a document and its attribution.
pub open spec fn canonical_of(
    kind: DocKind,
    target: Seq<char>,
    document: crate::pojos::DocView,
    authors: Seq<crate::pojos::AuthorRefView>,
) -> CanonicalView {
    CanonicalView { kind, target, document, latest_authors: authors }
}

/// The listing filter on canonical documents: a kind, and optionally the
/// parent target.
pub open spec fn doc_filter_fn(kind: DocKind, parent: Option<Seq<char>>) -> spec_fn(
    CanonicalView,
) -> bool {
    |d: CanonicalView|
        d.kind == kind && match parent {
            Some(p) => d.document.parent == Some(p),
            None => true,
        }
}

/// The page window `[offset, offset + limit)` of a sequence, clipped to its
/// length.
pub open spec fn page_of<T>(s: Seq<T>, offset: u16, limit: u16) -> Seq<T> {
    let lo = if offset as int <= s.len() {
        offset as int
    } else {
        s.len() as int
    };
    let hi = if offset as int + limit as int <= s.len() {
        offset as int + limit as int
    } else {
        s.len() as int
    };
    s.subrange(lo, hi)
}

/// The canonical documents adapter.
pub struct Documents {}

impl Documents {
    pub fn new() -> (r: Documents) {
        Documents {  }
    }

    /// Whether a canonical game document exists for this id.
    pub fn game_exists(&self, exec: &QueryExecutor, id: &str) -> (r: Result<bool, AdapterError>)
        requires
            exec.wf(),
        ensures
            r is Ok,
            r->Ok_0 == (find_document(exec.store_spec().documents_view(), DocKind::Game, id@)
                is Some),
    {
        Ok(exec.store.doc_exists(DocKind::Game, id))
    }

    /// Whether a canonical character document exists for this id.
    pub fn char_exists(&self, exec: &QueryExecutor, id: &str) -> (r: Result<bool, AdapterError>)
        requires
            exec.wf(),
        ensures
            r is Ok,
            r->Ok_0 == (find_document(exec.store_spec().documents_view(), DocKind::Character, id@)
                is Some),
    {
        Ok(exec.store.doc_exists(DocKind::Character, id))
    }

    /// Publishes a game document under this id, with its attribution.
    pub fn upsert_game(
        &self,
        exec: &mut QueryExecutor,
        id: &str,
        content: AnyDocument,
        latest_authors: Vec<AuthorRef>,
    ) -> (r: Result<(), AdapterError>)
        requires
            old(exec).wf(),
        ensures
            final(exec).wf(),
            r is Ok,
            upsert_doc_post(*old(exec), *final(exec), DocKind::Game, id@, content, latest_authors),
    {
        self.upsert(exec, DocKind::Game, id, content, latest_authors)
    }

    /// Publishes a character document under this id, with its attribution.
    pub fn upsert_char(
        &self,
        exec: &mut QueryExecutor,
        id: &str,
        content: AnyDocument,
        latest_authors: Vec<AuthorRef>,
    ) -> (r: Result<(), AdapterError>)
        requires
            old(exec).wf(),
        ensures
            final(exec).wf(),
            r is Ok,
            upsert_doc_post(
                *old(exec),
                *final(exec),
                DocKind::Character,
                id@,
                content,
                latest_authors,
            ),
    {
        self.upsert(exec, DocKind::Character, id, content, latest_authors)
    }

    /// Publishes a move document under this id, with its attribution.
    pub fn upsert_move(
        &self,
        exec: &mut QueryExecutor,
        id: &str,
        content: AnyDocument,
        latest_authors: Vec<AuthorRef>,
    ) -> (r: Result<(), AdapterError>)
        requires
            old(exec).wf(),
        ensures
            final(exec).wf(),
            r is Ok,
            upsert_doc_post(*old(exec), *final(exec), DocKind::Move, id@, content, latest_authors),
    {
        self.upsert(exec, DocKind::Move, id, content, latest_authors)
    }

    fn upsert(
        &self,
        exec: &mut QueryExecutor,
        kind: DocKind,
        id: &str,
        content: AnyDocument,
        latest_authors: Vec<AuthorRef>,
    ) -> (r: Result<(), AdapterError>)
        requires
            old(exec).wf(),
        ensures
            final(exec).wf(),
            r is Ok,
            upsert_doc_post(*old(exec), *final(exec), kind, id@, content, latest_authors),
    {
        let rec = CanonicalRecord { kind, target: id.to_owned(), document: content, latest_authors };
        exec.store.doc_upsert(rec);
        Ok(())
    }

    /// Reads the canonical game document for this id.
    pub fn get_game<'a>(&self, exec: &'a QueryExecutor, id: &str) -> (r: Result<
        &'a CanonicalRecord,
        AdapterError,
    >)
        requires
            exec.wf(),
        ensures
            get_doc_post(*exec, DocKind::Game, "documents/get_game"@, id@, r),
    {
        if !exec.has_query("documents/get_game") {
            return Err(AdapterError::InternalError);
        }
        match exec.store.doc_get(DocKind::Game, id) {
            Some(rec) => Ok(rec),
            None => Err(AdapterError::DocumentNotFound),
        }
    }

    /// Reads the canonical character document for this id.
    pub fn get_char<'a>(&self, exec: &'a QueryExecutor, id: &str) -> (r: Result<
        &'a CanonicalRecord,
        AdapterError,
    >)
        requires
            exec.wf(),
        ensures
            get_doc_post(*exec, DocKind::Character, "documents/get_char"@, id@, r),
    {
        if !exec.has_query("documents/get_char") {
            return Err(AdapterError::InternalError);
        }
        match exec.store.doc_get(DocKind::Character, id) {
            Some(rec) => Ok(rec),
            None => Err(AdapterError::DocumentNotFound),
        }
    }

    /// Reads the canonical move document for this id.
    pub fn get_move<'a>(&self, exec: &'a QueryExecutor, id: &str) -> (r: Result<
        &'a CanonicalRecord,
        AdapterError,
    >)
        requires
            exec.wf(),
        ensures
            get_doc_post(*exec, DocKind::Move, "documents/get_move"@, id@, r),
    {
        if !exec.has_query("documents/get_move") {
            return Err(AdapterError::InternalError);
        }
        match exec.store.doc_get(DocKind::Move, id) {
            Some(rec) => Ok(rec),
            None => Err(AdapterError::DocumentNotFound),
        }
    }

    /// A page of the canonical game documents, in publication order.
    pub fn get_game_list(&self, exec: &QueryExecutor, offset: u16, limit: u16) -> (r: Result<
        Vec<CanonicalRecord>,
        AdapterError,
    >)
        requires
            exec.wf(),
        ensures
            if exec.catalog_spec().has_query_spec("documents/get_game_list"@) {
                r is Ok && r->Ok_0.deep_view() == page_of(
                    exec.store_spec().documents_view().filter(doc_filter_fn(DocKind::Game, None)),
                    offset,
                    limit,
                )
            } else {
                r is Err && r->Err_0 == AdapterError::InternalError
            },
    {
        if !exec.has_query("documents/get_game_list") {
            return Err(AdapterError::InternalError);
        }
        let filtered = filtered_documents(exec, DocKind::Game, None);
        Ok(paged_documents(filtered, offset, limit))
    }

    /// A page of the canonical character documents of one game, in
    /// publication order.
    pub fn get_char_list(
        &self,
        exec: &QueryExecutor,
        game_id: &str,
        offset: u16,
        limit: u16,
    ) -> (r: Result<Vec<CanonicalRecord>, AdapterError>)
        requires
            exec.wf(),
        ensures
            if exec.catalog_spec().has_query_spec("documents/get_char_list"@) {
                r is Ok && r->Ok_0.deep_view() == page_of(
                    exec.store_spec().documents_view().filter(
                        doc_filter_fn(DocKind::Character, Some(game_id@)),
                    ),
                    offset,
                    limit,
                )
            } else {
                r is Err && r->Err_0 == AdapterError::InternalError
            },
    {
        if !exec.has_query("documents/get_char_list") {
            return Err(AdapterError::InternalError);
        }
        let filtered = filtered_documents(exec, DocKind::Character, Some(game_id));
        Ok(paged_documents(filtered, offset, limit))
    }

    /// A page of the canonical move documents of one character, in
    /// publication order.
    pub fn get_move_list(
        &self,
        exec: &QueryExecutor,
        char_id: &str,
        offset: u16,
        limit: u16,
    ) -> (r: Result<Vec<CanonicalRecord>, AdapterError>)
        requires
            exec.wf(),
        ensures
            if exec.catalog_spec().has_query_spec("documents/get_move_list"@) {
                r is Ok && r->Ok_0.deep_view() == page_of(
                    exec.store_spec().documents_view().filter(
                        doc_filter_fn(DocKind::Move, Some(char_id@)),
                    ),
                    offset,
                    limit,
                )
            } else {
                r is Err && r->Err_0 == AdapterError::InternalError
            },
    {
        if !exec.has_query("documents/get_move_list") {
            return Err(AdapterError::InternalError);
        }
        let filtered = filtered_documents(exec, DocKind::Move, Some(char_id));
        Ok(paged_documents(filtered, offset, limit))
    }
}

/// What a canonical upsert did to the store: the record under `(kind, id)`
/// now holds the document and its attribution, and nothing else changed.
pub open spec fn upsert_doc_post(
    pre: QueryExecutor,
    post: QueryExecutor,
    kind: DocKind,
    id: Seq<char>,
    content: AnyDocument,
    latest_authors: Vec<AuthorRef>,
) -> bool {
    let rec = canonical_of(kind, id, content.doc_view(), latest_authors.deep_view());
    &&& match find_document(pre.store_spec().documents_view(), kind, id) {
        None => post.store_spec().documents_view() == pre.store_spec().documents_view().push(rec),
        Some(i) => post.store_spec().documents_view() == pre.store_spec().documents_view().update(
            i,
            rec,
        ),
    }
    &&& post.store_spec().counters_view() == pre.store_spec().counters_view()
    &&& post.store_spec().proposals_view() == pre.store_spec().proposals_view()
    &&& post.store_spec().index_view() == pre.store_spec().index_view()
    &&& post.store_spec().next_cas_spec() == pre.store_spec().next_cas_spec()
    &&& post.catalog_spec() == pre.catalog_spec()
}

/// What a canonical read returns: the record under the key when the backing
/// query exists and the record is present, and the exact error otherwise.
pub open spec fn get_doc_post(
    exec: QueryExecutor,
    kind: DocKind,
    query: Seq<char>,
    id: Seq<char>,
    r: Result<&CanonicalRecord, AdapterError>,
) -> bool {
    if !exec.catalog_spec().has_query_spec(query) {
        r is Err && r->Err_0 == AdapterError::InternalError
    } else {
        match find_document(exec.store_spec().documents_view(), kind, id) {
            Some(i) => r is Ok && r->Ok_0@ == exec.store_spec().documents_view()[i],
            None => r is Err && r->Err_0 == AdapterError::DocumentNotFound,
        }
    }
}

/// Canonical documents matching a kind and optional parent, in store order.
fn filtered_documents(exec: &QueryExecutor, kind: DocKind, parent: Option<&str>) -> (r: Vec<
    CanonicalRecord,
>)
    ensures
        r.deep_view() == exec.store_spec().documents_view().filter(
            doc_filter_fn(
                kind,
                match parent {
                    Some(p) => Some(p@),
                    None => None,
                },
            ),
        ),
{
    let ghost par: Option<Seq<char>> = match parent {
        Some(p) => Some(p@),
        None => None,
    };
    let mut out: Vec<CanonicalRecord> = Vec::new();
    let n = exec.store_ref().documents_len();
    let mut i: usize = 0;
    while i < n
        invariant
            0 <= i <= n,
            n == exec.store_spec().documents_view().len(),
            par == (match parent {
                Some(p) => Some(p@),
                None => None::<Seq<char>>,
            }),
            out.deep_view() == exec.store_spec().documents_view().take(i as int).filter(
                doc_filter_fn(kind, par),
            ),
        decreases n - i,
    {
        let rec = exec.store_ref().document_at(i);
        let kind_matches = rec.kind == kind;
        let parent_matches = match parent {
            Some(p) => match rec.document.get_parent() {
                Some(q) => crate::strutil::str_eq(q, p),
                None => false,
            },
            None => true,
        };
        let ghost view = exec.store_spec().documents_view();
        let ghost pred = doc_filter_fn(kind, par);
        proof {
            reveal(Seq::filter);
            assert(view.take(i as int + 1).drop_last() =~= view.take(i as int));
            assert(view.take(i as int + 1).last() == view[i as int]);
            assert(pred(view[i as int]) == (view[i as int].kind == kind && match par {
                Some(p) => view[i as int].document.parent == Some(p),
                None => true,
            }));
            if pred(view[i as int]) {
                assert(view.take(i as int + 1).filter(pred) == view.take(i as int).filter(
                    pred,
                ).push(view[i as int]));
            } else {
                assert(view.take(i as int + 1).filter(pred) == view.take(i as int).filter(pred));
            }
        }
        if kind_matches && parent_matches {
            proof {
                assert(pred(view[i as int]));
            }
            let ghost before = out.deep_view();
            out.push(rec.clone());
            proof {
                assert(out.deep_view() =~= before.push(view[i as int]));
            }
        } else {
            proof {
                assert(!pred(view[i as int]));
            }
        }
        i = i + 1;
    }
    proof {
        let view = exec.store_spec().documents_view();
        assert(view.take(n as int) =~= view);
    }
    out
}

/// The page window of a vector of canonical documents.
fn paged_documents(items: Vec<CanonicalRecord>, offset: u16, limit: u16) -> (r: Vec<
    CanonicalRecord,
>)
    ensures
        r.deep_view() == page_of(items.deep_view(), offset, limit),
{
    let n = items.len();
    let lo: usize = if (offset as usize) <= n {
        offset as usize
    } else {
        n
    };
    let hi: usize = if (offset as usize) + (limit as usize) <= n {
        (offset as usize) + (limit as usize)
    } else {
        n
    };
    let mut out: Vec<CanonicalRecord> = Vec::new();
    let mut i: usize = lo;
    while i < hi
        invariant
            lo <= i <= hi,
            hi <= items@.len(),
            items.deep_view().len() == items@.len(),
            out.deep_view() == items.deep_view().subrange(lo as int, i as int),
        decreases hi - i,
    {
        let ghost before = out.deep_view();
        out.push(items[i].clone());
        proof {
            assert(out.deep_view() =~= before.push(items.deep_view()[i as int]));
            assert(items.deep_view().subrange(lo as int, i as int + 1) =~= items.deep_view()
                .subrange(lo as int, i as int).push(items.deep_view()[i as int]));
        }
        i = i + 1;
    }
    proof {
        assert(out.deep_view() =~= page_of(items.deep_view(), offset, limit));
    }
    out
}

} // verus!

//! The search-index adapters. Publishing a document cascades index updates:
//! a game refreshes its own entry and those of its characters and moves, a
//! character its own and its moves', a move only its own.
//!
//! The index itself is a collaborator whose internals are outside this
//! crate; what the engine guarantees is exactly which update operations are
//! issued, recorded as the store's index-update log. A missing catalog query
//! stops the cascade: the operations issued before it stay issued.

use vstd::prelude::*;

use crate::adapters::{AdapterError, QueryExecutor, QueryStore};
use crate::store::IndexUpdateView;

verus! {

/// The log entry an index-update query appends.
pub open spec fn index_entry(query: Seq<char>, target: Seq<char>) -> IndexUpdateView {
    IndexUpdateView { query, target }
}

/// Everything of the executor except the index log is unchanged.
pub open spec fn only_index_changed(pre: QueryExecutor, post: QueryExecutor) -> bool {
    &&& post.store_spec().counters_view() == pre.store_spec().counters_view()
    &&& post.store_spec().proposals_view() == pre.store_spec().proposals_view()
    &&& post.store_spec().documents_view() == pre.store_spec().documents_view()
    &&& post.store_spec().next_cas_spec() == pre.store_spec().next_cas_spec()
    &&& post.catalog_spec() == pre.catalog_spec()
}

/// How many of the cascade's queries run: queries are issued in order and
/// the first one missing from the catalog stops the cascade.
pub open spec fn cascade_stop(catalog: QueryStore, names: Seq<Seq<char>>) -> int
    decreases names.len(),
{
    if names.len() == 0 {
        0
    } else if !catalog.has_query_spec(names.first()) {
        0
    } else {
        1 + cascade_stop(catalog, names.drop_first())
    }
}

/// The index log after the first `k` of the cascade's queries ran for `id`.
pub open spec fn appended_index(
    idx: Seq<IndexUpdateView>,
    names: Seq<Seq<char>>,
    k: int,
    id: Seq<char>,
) -> Seq<IndexUpdateView>
    decreases k,
{
    if k <= 0 {
        idx
    } else {
        appended_index(idx, names, k - 1, id).push(index_entry(names[k - 1], id))
    }
}

/// What a cascade of index queries for `id` did: the queries before the
/// first missing one were appended to the log, and the cascade succeeded
/// exactly when none was missing.
pub open spec fn cascade_post(
    pre: QueryExecutor,
    post: QueryExecutor,
    names: Seq<Seq<char>>,
    id: Seq<char>,
    ok: bool,
) -> bool {
    let stop = cascade_stop(pre.catalog_spec(), names);
    &&& post.store_spec().index_view() == appended_index(
        pre.store_spec().index_view(),
        names,
        stop,
        id,
    )
    &&& (ok <==> stop == names.len())
}

/// The index queries a game publish cascades through the name sets.
pub open spec fn ns_game_queries() -> Seq<Seq<char>> {
    seq!["name_sets/update_game"@, "name_sets/update_game_chars"@, "name_sets/update_game_moves"@]
}

/// The index queries a character publish cascades through the name sets.
pub open spec fn ns_char_queries() -> Seq<Seq<char>> {
    seq!["name_sets/update_char"@, "name_sets/update_char_moves"@]
}

/// The index queries a move publish issues against the name sets.
pub open spec fn ns_move_queries() -> Seq<Seq<char>> {
    seq!["name_sets/update_move"@]
}

/// The index queries a game publish cascades through the tag sets.
pub open spec fn ts_game_queries() -> Seq<Seq<char>> {
    seq!["tagsets/update_game"@, "tagsets/update_game_chars"@, "tagsets/update_game_moves"@]
}

/// The index queries a character publish cascades through the tag sets.
pub open spec fn ts_char_queries() -> Seq<Seq<char>> {
    seq!["tagsets/update_char"@, "tagsets/update_char_moves"@]
}

/// The index queries a move publish issues against the tag sets.
pub open spec fn ts_move_queries() -> Seq<Seq<char>> {
    seq!["tagsets/update_move"@]
}

proof fn lemma_cascade_chain3(catalog: QueryStore, names: Seq<Seq<char>>)
    requires
        names.len() == 3,
    ensures
        !catalog.has_query_spec(names[0]) ==> cascade_stop(catalog, names) == 0,
        catalog.has_query_spec(names[0]) && !catalog.has_query_spec(names[1]) ==> cascade_stop(
            catalog,
            names,
        ) == 1,
        catalog.has_query_spec(names[0]) && catalog.has_query_spec(names[1])
            && !catalog.has_query_spec(names[2]) ==> cascade_stop(catalog, names) == 2,
        catalog.has_query_spec(names[0]) && catalog.has_query_spec(names[1])
            && catalog.has_query_spec(names[2]) ==> cascade_stop(catalog, names) == 3,
{
    let d1 = names.drop_first();
    let d2 = d1.drop_first();
    assert(names.first() == names[0]);
    assert(d1.first() == names[1]);
    assert(d2.first() == names[2]);
    if catalog.has_query_spec(names[0]) {
        assert(cascade_stop(catalog, names) == 1 + cascade_stop(catalog, d1));
        if catalog.has_query_spec(names[1]) {
            assert(cascade_stop(catalog, d1) == 1 + cascade_stop(catalog, d2));
            if catalog.has_query_spec(names[2]) {
                assert(cascade_stop(catalog, d2) == 1 + cascade_stop(catalog, d2.drop_first()));
                assert(cascade_stop(catalog, d2.drop_first()) == 0);
            } else {
                assert(cascade_stop(catalog, d2) == 0);
            }
        } else {
            assert(cascade_stop(catalog, d1) == 0);
        }
    } else {
        assert(cascade_stop(catalog, names) == 0);
    }
}

proof fn lemma_cascade_chain2(catalog: QueryStore, names: Seq<Seq<char>>)
    requires
        names.len() == 2,
    ensures
        !catalog.has_query_spec(names[0]) ==> cascade_stop(catalog, names) == 0,
        catalog.has_query_spec(names[0]) && !catalog.has_query_spec(names[1]) ==> cascade_stop(
            catalog,
            names,
        ) == 1,
        catalog.has_query_spec(names[0]) && catalog.has_query_spec(names[1]) ==> cascade_stop(
            catalog,
            names,
        ) == 2,
{
    let d1 = names.drop_first();
    assert(names.first() == names[0]);
    assert(d1.first() == names[1]);
    if catalog.has_query_spec(names[0]) {
        assert(cascade_stop(catalog, names) == 1 + cascade_stop(catalog, d1));
        if catalog.has_query_spec(names[1]) {
            assert(cascade_stop(catalog, d1) == 1 + cascade_stop(catalog, d1.drop_first()));
            assert(cascade_stop(catalog, d1.drop_first()) == 0);
        } else {
            assert(cascade_stop(catalog, d1) == 0);
        }
    } else {
        assert(cascade_stop(catalog, names) == 0);
    }
}

/// Issues one index-update query: appends it to the log when the catalog
/// holds the query, and fails without effect when it does not.
fn run_index_query(exec: &mut QueryExecutor, name: &str, id: &str) -> (r: Result<(), AdapterError>)
    requires
        old(exec).wf(),
    ensures
        final(exec).wf(),
        only_index_changed(*old(exec), *final(exec)),
        if old(exec).catalog_spec().has_query_spec(name@) {
            r is Ok && final(exec).store_spec().index_view() == old(
                exec,
            ).store_spec().index_view().push(index_entry(name@, id@))
        } else {
            r is Err && r->Err_0 == AdapterError::InternalError && *final(exec) == *old(exec)
        },
{
    if !exec.has_query(name) {
        return Err(AdapterError::InternalError);
    }
    exec.store.index_append(name, id);
    Ok(())
}

/// The name-set index adapter: refreshes the searchable name sets of a
/// published document and of its descendants.
pub struct NameSets {}

impl NameSets {
    pub fn new() -> (r: NameSets) {
        NameSets {  }
    }

    /// Refreshes the index entries of a game, of its characters and of
    /// their moves.
    pub fn update_game(&self, exec: &mut QueryExecutor, id: &str) -> (r: Result<(), AdapterError>)
        requires
            old(exec).wf(),
        ensures
            final(exec).wf(),
            only_index_changed(*old(exec), *final(exec)),
            cascade_post(*old(exec), *final(exec), ns_game_queries(), id@, r is Ok),
            r is Err ==> r->Err_0 == AdapterError::InternalError,
    {
        let ghost names = ns_game_queries();
        let ghost idx0 = exec.store_spec().index_view();
        proof {
            lemma_cascade_chain3(exec.catalog_spec(), names);
            assert(names[0] == "name_sets/update_game"@);
            assert(names[1] == "name_sets/update_game_chars"@);
            assert(names[2] == "name_sets/update_game_moves"@);
            assert(appended_index(idx0, names, 0, id@) == idx0);
            assert(appended_index(idx0, names, 1, id@) == appended_index(
                idx0,
                names,
                0,
                id@,
            ).push(index_entry(names[0], id@)));
            assert(appended_index(idx0, names, 2, id@) == appended_index(
                idx0,
                names,
                1,
                id@,
            ).push(index_entry(names[1], id@)));
            assert(appended_index(idx0, names, 3, id@) == appended_index(
                idx0,
                names,
                2,
                id@,
            ).push(index_entry(names[2], id@)));
        }
        let r1 = run_index_query(exec, "name_sets/update_game", id);
        if r1.is_err() {
            return r1;
        }
        let r2 = run_index_query(exec, "name_sets/update_game_chars", id);
        if r2.is_err() {
            return r2;
        }
        run_index_query(exec, "name_sets/update_game_moves", id)
    }

    /// Refreshes the index entries of a character and of its moves.
    pub fn update_char(&self, exec: &mut QueryExecutor, id: &str) -> (r: Result<(), AdapterError>)
        requires
            old(exec).wf(),
        ensures
            final(exec).wf(),
            only_index_changed(*old(exec), *final(exec)),
            cascade_post(*old(exec), *final(exec), ns_char_queries(), id@, r is Ok),
            r is Err ==> r->Err_0 == AdapterError::InternalError,
    {
        let ghost names = ns_char_queries();
        let ghost idx0 = exec.store_spec().index_view();
        proof {
            lemma_cascade_chain2(exec.catalog_spec(), names);
            assert(names[0] == "name_sets/update_char"@);
            assert(names[1] == "name_sets/update_char_moves"@);
            assert(appended_index(idx0, names, 0, id@) == idx0);
            assert(appended_index(idx0, names, 1, id@) == appended_index(
                idx0,
                names,
                0,
                id@,
            ).push(index_entry(names[0], id@)));
            assert(appended_index(idx0, names, 2, id@) == appended_index(
                idx0,
                names,
                1,
                id@,
            ).push(index_entry(names[1], id@)));
        }
        let r1 = run_index_query(exec, "name_sets/update_char", id);
        if r1.is_err() {
            return r1;
        }
        run_index_query(exec, "name_sets/update_char_moves", id)
    }

    /// Refreshes the index entry of a move.
    pub fn update_move(&self, exec: &mut QueryExecutor, id: &str) -> (r: Result<(), AdapterError>)
        requires
            old(exec).wf(),
        ensures
            final(exec).wf(),
            only_index_changed(*old(exec), *final(exec)),
            cascade_post(*old(exec), *final(exec), ns_move_queries(), id@, r is Ok),
            r is Err ==> r->Err_0 == AdapterError::InternalError,
    {
        let ghost names = ns_move_queries();
        let ghost idx0 = exec.store_spec().index_view();
        proof {
            assert(names[0] == "name_sets/update_move"@);
            assert(names.first() == names[0]);
            assert(cascade_stop(exec.catalog_spec(), names.drop_first()) == 0);
            assert(appended_index(idx0, names, 0, id@) == idx0);
            assert(appended_index(idx0, names, 1, id@) == appended_index(
                idx0,
                names,
                0,
                id@,
            ).push(index_entry(names[0], id@)));
        }
        run_index_query(exec, "name_sets/update_move", id)
    }
}

/// The tag-set index adapter: refreshes the searchable tag sets of a
/// published document and of its descendants.
pub struct TagSets {}

impl TagSets {
    pub fn new() -> (r: TagSets) {
        TagSets {  }
    }

    /// Refreshes the index entries of a game, of its characters and of
    /// their moves.
    pub fn update_game(&self, exec: &mut QueryExecutor, id: &str) -> (r: Result<(), AdapterError>)
        requires
            old(exec).wf(),
        ensures
            final(exec).wf(),
            only_index_changed(*old(exec), *final(exec)),
            cascade_post(*old(exec), *final(exec), ts_game_queries(), id@, r is Ok),
            r is Err ==> r->Err_0 == AdapterError::InternalError,
    {
        let ghost names = ts_game_queries();
        let ghost idx0 = exec.store_spec().index_view();
        proof {
            lemma_cascade_chain3(exec.catalog_spec(), names);
            assert(names[0] == "tagsets/update_game"@);
            assert(names[1] == "tagsets/update_game_chars"@);
            assert(names[2] == "tagsets/update_game_moves"@);
            assert(appended_index(idx0, names, 0, id@) == idx0);
            assert(appended_index(idx0, names, 1, id@) == appended_index(
                idx0,
                names,
                0,
                id@,
            ).push(index_entry(names[0], id@)));
            assert(appended_index(idx0, names, 2, id@) == appended_index(
                idx0,
                names,
                1,
                id@,
            ).push(index_entry(names[1], id@)));
            assert(appended_index(idx0, names, 3, id@) == appended_index(
                idx0,
                names,
                2,
                id@,
            ).push(index_entry(names[2], id@)));
        }
        let r1 = run_index_query(exec, "tagsets/update_game", id);
        if r1.is_err() {
            return r1;
        }
        let r2 = run_index_query(exec, "tagsets/update_game_chars", id);
        if r2.is_err() {
            return r2;
        }
        run_index_query(exec, "tagsets/update_game_moves", id)
    }

    /// Refreshes the index entries of a character and of its moves.
    pub fn update_char(&self, exec: &mut QueryExecutor, id: &str) -> (r: Result<(), AdapterError>)
        requires
            old(exec).wf(),
        ensures
            final(exec).wf(),
            only_index_changed(*old(exec), *final(exec)),
            cascade_post(*old(exec), *final(exec), ts_char_queries(), id@, r is Ok),
            r is Err ==> r->Err_0 == AdapterError::InternalError,
    {
        let ghost names = ts_char_queries();
        let ghost idx0 = exec.store_spec().index_view();
        proof {
            lemma_cascade_chain2(exec.catalog_spec(), names);
            assert(names[0] == "tagsets/update_char"@);
            assert(names[1] == "tagsets/update_char_moves"@);
            assert(appended_index(idx0, names, 0, id@) == idx0);
            assert(appended_index(idx0, names, 1, id@) == appended_index(
                idx0,
                names,
                0,
                id@,
            ).push(index_entry(names[0], id@)));
            assert(appended_index(idx0, names, 2, id@) == appended_index(
                idx0,
                names,
                1,
                id@,
            ).push(index_entry(names[1], id@)));
        }
        let r1 = run_index_query(exec, "tagsets/update_char", id);
        if r1.is_err() {
            return r1;
        }
        run_index_query(exec, "tagsets/update_char_moves", id)
    }

    /// Refreshes the index entry of a move.
    pub fn update_move(&self, exec: &mut QueryExecutor, id: &str) -> (r: Result<(), AdapterError>)
        requires
            old(exec).wf(),
        ensures
            final(exec).wf(),
            only_index_changed(*old(exec), *final(exec)),
            cascade_post(*old(exec), *final(exec), ts_move_queries(), id@, r is Ok),
            r is Err ==> r->Err_0 == AdapterError::InternalError,
    {
        let ghost names = ts_move_queries();
        let ghost idx0 = exec.store_spec().index_view();
        proof {
            assert(names[0] == "tagsets/update_move"@);
            assert(names.first() == names[0]);
            assert(cascade_stop(exec.catalog_spec(), names.drop_first()) == 0);
            assert(appended_index(idx0, names, 0, id@) == idx0);
            assert(appended_index(idx0, names, 1, id@) == appended_index(
                idx0,
                names,
                0,
                id@,
            ).push(index_entry(names[0], id@)));
        }
        run_index_query(exec, "tagsets/update_move", id)
    }
}

} // verus!

verus! {

/// The search adapter. Search queries run against the search-index
/// collaborator, whose internals are outside this crate's concern; the
/// operations that read it live with the unverified shell around the
/// library.
pub struct Search {}

impl Search {
    pub fn new() -> (r: Search) {
        Search {  }
    }
}

} // verus!

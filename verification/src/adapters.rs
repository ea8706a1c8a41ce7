//! The data-access layer shared by the adapters: the error type they surface,
//! the immutable catalog of named queries loaded at startup, and the query
//! executor that owns the record store and the catalog.

use vstd::prelude::*;

use crate::documents::Documents;
use crate::indexes::{NameSets, Search};
use crate::proposals::Proposals;
use crate::store::Store;
use crate::strutil::str_eq;

verus! {

/// Error surfaced by the data-access adapters. `DocumentNotFound` means the
/// requested record is absent; `PreconditionFailed` means a guarded write
/// found the record in a state it refuses to touch; `InternalError` covers
/// every other store failure.
#[derive(Clone, Copy, PartialEq, Eq, Structural, Debug)]
pub enum AdapterError {
    DocumentNotFound,
    PreconditionFailed,
    InternalError,
}

/// Immutable catalog of named queries, loaded once at startup and consulted
/// by the adapters before they execute an operation.
pub struct QueryStore {
    entries: Vec<(String, String)>,
}

impl QueryStore {
    /// The catalog entries: pairs of query name and query text.
    pub closed spec fn entries_view(&self) -> Seq<(Seq<char>, Seq<char>)> {
        self.entries@.map_values(|p: (String, String)| (p.0@, p.1@))
    }

    /// Whether the catalog holds a query under this name.
    pub open spec fn has_query_spec(&self, name: Seq<char>) -> bool {
        exists|i: int| 0 <= i < self.entries_view().len() && (#[trigger] self.entries_view()[i]).0
            == name
    }

    /// A catalog holding the given entries.
    pub fn new(entries: Vec<(String, String)>) -> (r: QueryStore)
        ensures
            r.entries_view().len() == entries@.len(),
            forall|i: int|
                0 <= i < entries@.len() ==> (#[trigger] r.entries_view()[i]) == (
                entries@[i].0@,
                entries@[i].1@,
            ),
    {
        QueryStore { entries }
    }

    /// Looks up the text of a named query.
    pub fn get_query(&self, path: &str) -> (r: Option<&str>)
        ensures
            r is Some <==> self.has_query_spec(path@),
            r is Some ==> exists|i: int|
                0 <= i < self.entries_view().len() && (#[trigger] self.entries_view()[i]) == (
                path@,
                r->0@,
            ),
    {
        let mut i: usize = 0;
        while i < self.entries.len()
            invariant
                0 <= i <= self.entries_view().len(),
                self.entries_view().len() == self.entries@.len(),
                forall|j: int| 0 <= j < i ==> (#[trigger] self.entries_view()[j]).0 != path@,
            decreases self.entries@.len() - i,
        {
            if str_eq(self.entries[i].0.as_str(), path) {
                proof {
                    assert(self.entries_view()[i as int].0 == path@);
                }
                return Some(self.entries[i].1.as_str());
            }
            i = i + 1;
        }
        None
    }

    /// Whether the catalog holds a query under this name.
    pub fn has_query(&self, path: &str) -> (r: bool)
        ensures
            r == self.has_query_spec(path@),
    {
        self.get_query(path).is_some()
    }
}

/// Executes operations against the record store, consulting the named-query
/// catalog. One executor is shared by all adapters.
pub struct QueryExecutor {
    pub store: Store,
    pub catalog: QueryStore,
}

impl QueryExecutor {
    /// The record store the executor operates on.
    pub open spec fn store_spec(&self) -> Store {
        self.store
    }

    /// The named-query catalog.
    pub open spec fn catalog_spec(&self) -> QueryStore {
        self.catalog
    }

    /// Well-formedness: the underlying store is well-formed.
    pub open spec fn wf(&self) -> bool {
        self.store_spec().wf()
    }

    pub fn new(store: Store, catalog: QueryStore) -> (r: QueryExecutor)
        ensures
            r.store_spec() == store,
            r.catalog_spec() == catalog,
    {
        QueryExecutor { store, catalog }
    }

    /// Read access to the record store.
    pub fn store_ref(&self) -> (r: &Store)
        ensures
            r == self.store_spec(),
    {
        &self.store
    }

    /// Whether the catalog holds a query under this name.
    pub fn has_query(&self, path: &str) -> (r: bool)
        ensures
            r == self.catalog_spec().has_query_spec(path@),
    {
        self.catalog.has_query(path)
    }
}

/// Creates instances of all adapters over one record store and query
/// catalog, with the executor they share.
pub fn create_adapters(store: Store, query_store: QueryStore) -> (r: (
    Documents,
    Proposals,
    NameSets,
    Search,
    QueryExecutor,
))
    ensures
        r.4.store_spec() == store,
        r.4.catalog_spec() == query_store,
{
    (
        Documents::new(),
        Proposals::new(),
        NameSets::new(),
        Search::new(),
        QueryExecutor::new(store, query_store),
    )
}

} // verus!

//! The search service. Its queries run against the search-index
//! collaborator, whose internals are outside this crate's concern; the
//! operations that read it live with the unverified shell around the
//! library.

use vstd::prelude::*;

use crate::indexes::Search;

verus! {

/// The search service: holds the search adapter.
pub struct Service {
    adapter: Search,
}

impl Service {
    /// Creates a new instance of the search service.
    pub fn new(adapter: Search) -> (r: Self) {
        Self { adapter }
    }
}

} // verus!

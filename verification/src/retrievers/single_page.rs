//! The single-fetch retrieval strategy: exactly one request to the base
//! URL, one parse, and its records are the result. No loop, no cutoff.

use vstd::prelude::*;
use crate::dto::Breach;

verus! {

/// Retrieval strategy for sources that publish everything on one page.
pub struct SinglePage {}

impl SinglePage {
    /// The result of a single-fetch crawl is exactly what the one page
    /// parsed to; a continuation token is ignored.
    pub fn retrieve(&self, page: (Vec<Breach>, Option<String>)) -> (r: Vec<Breach>)
        ensures
            r@ == page.0@,
    {
        let (records, _token) = page;
        records
    }
}

} // verus!

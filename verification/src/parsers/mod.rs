//! The source adapters: each jurisdiction's page layout is a grammar over
//! the raw page text, and each adapter is a pure, total function from page
//! text to normalized disclosure records plus an optional continuation
//! token. Structurally implausible input yields a `ParseFailure` carrying
//! the offending fragment; a malformed row aborts the page (rows are
//! positionally dependent), never the whole source.

pub mod wa_parser;
pub mod or_parser;
pub mod ca_parser;
pub mod md_parser;
pub mod hi_parser;

use vstd::prelude::*;
use crate::dto::Breach;
use crate::text::{spec_split, split_seq, to_chars};

verus! {

/// A structural assumption about a page was violated; the fragment that
/// could not be parsed is preserved.
#[derive(Debug)]
pub struct ParseFailure {
    pub fragment: String,
}

/// One jurisdiction's page adapter.
pub trait Parser {
    /// Turns one raw page into normalized records and, where the source
    /// paginates by server-generated cursor, the continuation token.
    fn parse_page(&self, page: &str) -> Result<(Vec<Breach>, Option<String>), ParseFailure>;
}

/// Splits on a literal separator.
pub fn split_lit(v: &Vec<char>, sep: &str) -> (r: Vec<Vec<char>>)
    requires
        sep@.len() > 0,
    ensures
        r.deep_view() == spec_split(v@, sep@),
        r@.len() >= 1,
        r.deep_view().len() == r@.len(),
        forall|i: int| 0 <= i < r@.len() ==> (#[trigger] r@[i])@ == r.deep_view()[i],
{
    let p = to_chars(sep);
    let parts = split_seq(v, &p);
    proof {
        assert(forall|i: int|
            0 <= i < parts@.len() ==> (#[trigger] parts@[i])@ == parts.deep_view()[i]);
    }
    parts
}

} // verus!

//! The older, source-specific retriever for the California listing. Its
//! page-layout logic is the California adapter's; unknown breach dates
//! are represented as absent rather than by a sentinel day. The fetch
//! itself is outside work and stays with the caller.

use vstd::prelude::*;
use vstd::string::StringExecFns;
use crate::dto::{breach_v, wf_breach, Breach};
use crate::parsers::ca_parser::{ca_page_breaches, ca_row_breaches, CaParser};
use crate::parsers::ParseFailure;

verus! {

/// Source-specific retriever for the California listing.
pub struct CaRetriever {}

impl CaRetriever {
    /// Parses one whole page into records.
    pub fn parse_page(&self, text: &str) -> (r: Result<Vec<Breach>, ParseFailure>)
        ensures
            r matches Ok(bs) ==> ca_page_breaches(text@) == Some(
                bs@.map_values(|b: Breach| breach_v(b)),
            ) && (forall|i: int| 0 <= i < bs@.len() ==> wf_breach(#[trigger] bs@[i])),
            r is Err <==> ca_page_breaches(text@) is None,
    {
        CaParser::parse_body(text)
    }

    /// Parses one table row into its records, one per breach date.
    pub fn parse_breach(&self, row: &Vec<char>) -> (r: Result<Vec<Breach>, ParseFailure>)
        ensures
            r matches Ok(bs) ==> ca_row_breaches(row@) == Some(
                bs@.map_values(|b: Breach| breach_v(b)),
            ) && (forall|i: int| 0 <= i < bs@.len() ==> wf_breach(#[trigger] bs@[i])),
            r is Err <==> ca_row_breaches(row@) is None,
            r matches Err(e) ==> e.fragment@ == row@,
    {
        CaParser::parse_breach(row)
    }

    /// The header pairs this retriever's requests carry.
    pub fn create_headers() -> (r: Vec<(String, String)>)
        ensures
            r@.len() == 2,
            r@[0].0@ == "accept"@ && r@[0].1@ == "*/*"@,
            r@[1].0@ == "user-agent"@ && r@[1].1@ == "breach_tracker"@,
    {
        let mut headers: Vec<(String, String)> = Vec::new();
        headers.push((String::from_str("accept"), String::from_str("*/*")));
        headers.push((String::from_str("user-agent"), String::from_str("breach_tracker")));
        headers
    }
}

} // verus!

//! The older, source-specific retriever for the Oregon listing. Its
//! page-layout logic is the Oregon adapter's; unknown breach dates are
//! represented as absent rather than by a sentinel day. The fetch itself
//! is outside work and stays with the caller.

use vstd::prelude::*;
use vstd::string::StringExecFns;
use crate::dto::{breach_v, wf_breach, Breach};
use crate::parsers::or_parser::{or_page_breaches, or_row_breaches, OrParser};
use crate::parsers::ParseFailure;

verus! {

/// Source-specific retriever for the Oregon listing.
pub struct OrRetriever {}

impl OrRetriever {
    /// Parses one whole page into records.
    pub fn parse_page(&self, text: &str) -> (r: Result<Vec<Breach>, ParseFailure>)
        ensures
            r matches Ok(bs) ==> or_page_breaches(text@) == Some(
                bs@.map_values(|b: Breach| breach_v(b)),
            ) && (forall|i: int| 0 <= i < bs@.len() ==> wf_breach(#[trigger] bs@[i])),
            r is Err <==> or_page_breaches(text@) is None,
    {
        OrParser::parse_body(text)
    }

    /// Parses one table row into its records, one per breach date.
    pub fn parse_breach(&self, row: &Vec<char>) -> (r: Result<Vec<Breach>, ParseFailure>)
        ensures
            r matches Ok(bs) ==> or_row_breaches(row@) == Some(
                bs@.map_values(|b: Breach| breach_v(b)),
            ) && (forall|i: int| 0 <= i < bs@.len() ==> wf_breach(#[trigger] bs@[i])),
            r is Err <==> or_row_breaches(row@) is None,
            r matches Err(e) ==> e.fragment@ == row@,
    {
        OrParser::parse_breach(row)
    }

    /// The header pairs this retriever's requests carry, including the
    /// explicit host the Oregon site wants.
    pub fn create_headers() -> (r: Vec<(String, String)>)
        ensures
            r@.len() == 3,
            r@[0].0@ == "accept"@ && r@[0].1@ == "*/*"@,
            r@[1].0@ == "user-agent"@ && r@[1].1@ == "breach_tracker"@,
            r@[2].0@ == "host"@ && r@[2].1@ == "justice.oregon.gov"@,
    {
        let mut headers: Vec<(String, String)> = Vec::new();
        headers.push((String::from_str("accept"), String::from_str("*/*")));
        headers.push((String::from_str("user-agent"), String::from_str("breach_tracker")));
        headers.push((String::from_str("host"), String::from_str("justice.oregon.gov")));
        headers
    }
}

} // verus!

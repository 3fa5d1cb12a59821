//! The Maryland listing: a JSON view payload whose `Row` array carries one
//! object per disclosure. The JSON reading goes through `serde_json`
//! behind one trusted wrapper whose result is named `md_payload_v`;
//! everything computed from the extracted field strings — dates, counts,
//! the notice link, the breach cause and the keyword classification — is
//! verified in `md_record` and `md_token`, and `parse_body` is pinned to
//! `md_page` over the name.

use vstd::prelude::*;
use vstd::string::StringExecFns;
use crate::classify::{md_breach_type, md_leaked_info, md_parse_breach_type, spec_md_leaked_info};
use crate::dates::{parse_mdy, spec_parse_mdy, Date};
use crate::dto::{breach_v, wf_breach, Breach, BreachV, State};
use crate::text::{
    chars_to_string, parse_i32, replace_seq, spec_parse_i32, spec_replace, spec_split, spec_trim,
    to_chars, trim,
};
use super::{split_lit, ParseFailure, Parser};

verus! {

/// One row of the Maryland payload, as its six field strings.
pub struct MdRow {
    pub title: String,
    pub file_ref: String,
    pub date_received: String,
    pub residents: String,
    pub info: String,
    pub how: String,
}

/// One row of the Maryland payload, as plain values.
pub struct MdRowV {
    pub title: Seq<char>,
    pub file_ref: Seq<char>,
    pub date_received: Seq<char>,
    pub residents: Seq<char>,
    pub info: Seq<char>,
    pub how: Seq<char>,
}

/// The view of a payload row.
pub open spec fn md_row_v(r: MdRow) -> MdRowV {
    MdRowV {
        title: r.title@,
        file_ref: r.file_ref@,
        date_received: r.date_received@,
        residents: r.residents@,
        info: r.info@,
        how: r.how@,
    }
}

/// What the JSON reading of a Maryland payload yields: the rows' six
/// field strings in payload order and the next-page reference, when the
/// text is JSON of the expected shape; nothing otherwise. The reading is
/// a function of the text alone; this name stands for its result.
pub uninterp spec fn md_payload_v(s: Seq<char>) -> Option<(Seq<MdRowV>, Option<Seq<char>>)>;

/// Relies on serde_json (`from_str::<Value>`, `Value::get`, `as_array`,
/// `as_str`, `is_null`): reads the payload's `Row` objects' six field
/// strings, in order, and the `NextHref` reference (absent or null means
/// none); nothing when the text is not JSON of that shape. None of these
/// calls panics; the result depends on the text alone.
#[verifier::external_body]
fn md_extract(text: &str) -> (r: Option<(Vec<MdRow>, Option<String>)>)
    ensures
        r is Some <==> md_payload_v(text@) is Some,
        r matches Some(p) ==> p.0@.map_values(|x: MdRow| md_row_v(x)) == md_payload_v(
            text@,
        )->Some_0.0 && crate::dto::opt_str_view(p.1) == md_payload_v(text@)->Some_0.1,
{
    let val: serde_json::Value = serde_json::from_str(text).ok()?;
    let mut rows: Vec<MdRow> = Vec::new();
    for r in val.get("Row")?.as_array()? {
        let get = |k: &str| Some(r.get(k)?.as_str()?.to_string());
        rows.push(MdRow {
            title: get("Case_x0020_Title")?, file_ref: get("FileRef")?,
            date_received: get("Date_x0020_Received")?,
            residents: get("No_x0020_of_x0020_MD_x0020_Residents")?,
            info: get("Information_x0020_Breached")?, how: get("How_x0020_Breach_x0020_Occurred")?,
        });
    }
    match val.get("NextHref") {
        Some(t) if t.is_null() == false => Some((rows, Some(t.as_str()?.to_string()))),
        _ => Some((rows, None)),
    }
}

/// Adapter for the Maryland listing.
pub struct MdParser {}

/// What one row's six field strings normalize to, if anything: an empty
/// received date stands for the listing's earliest sentinel day; the
/// resident count keeps only a clean number; the notice link is resolved
/// against the attorney general's site.
pub open spec fn md_record_v(
    title: Seq<char>,
    file_ref: Seq<char>,
    date_received: Seq<char>,
    residents: Seq<char>,
    info: Seq<char>,
    how: Seq<char>,
) -> Option<BreachV> {
    let dr: Option<Date> = if date_received.len() == 0 {
        Some(Date { year: 1, month: 1, day: 1 })
    } else {
        spec_parse_mdy(date_received)
    };
    if dr is None {
        None
    } else {
        let ac: Option<i32> = match spec_parse_i32(
            spec_replace(spec_trim(residents), ","@, Seq::<char>::empty()),
        ) {
            Some(v) => Some(v as i32),
            None => None,
        };
        Some(
            BreachV {
                id: 0,
                date_reported: dr->Some_0,
                organization_name: title,
                date_of_breach: None,
                affected_count: None,
                affected_count_local: ac,
                loc: State::MD,
                breach_type: md_breach_type(how),
                link: Some("https://www.marylandattorneygeneral.gov/"@ + file_ref),
                leaked: spec_md_leaked_info(info),
            },
        )
    }
}

/// The continuation token carried by a next-page reference: everything
/// between the listing page's query marker and its view parameter,
/// re-anchored as an additional query parameter.
pub open spec fn md_token_v(next_raw: Seq<char>) -> Option<Seq<char>> {
    let parts = spec_split(next_raw, "breachnotices.aspx?"@);
    if parts.len() < 2 {
        None
    } else {
        Some("&"@ + spec_split(parts[1], "View="@)[0])
    }
}

/// What the payload's rows normalize to, row by row and in order: one
/// record per row, none silently dropped; one bad row fails the page.
pub open spec fn md_records_of(rows: Seq<MdRowV>) -> Option<Seq<BreachV>>
    decreases rows.len(),
{
    if rows.len() == 0 {
        Some(Seq::<BreachV>::empty())
    } else {
        match (md_record_v(
            rows[0].title,
            rows[0].file_ref,
            rows[0].date_received,
            rows[0].residents,
            rows[0].info,
            rows[0].how,
        ), md_records_of(rows.skip(1))) {
            (Some(b), Some(rest)) => Some(seq![b] + rest),
            _ => None,
        }
    }
}

/// What one whole Maryland payload parses to: the records of its rows
/// and the continuation token derived from its next-page reference —
/// present exactly when the payload names one.
pub open spec fn md_page(s: Seq<char>) -> Option<(Seq<BreachV>, Option<Seq<char>>)> {
    match md_payload_v(s) {
        None => None,
        Some((rows, next)) => match md_records_of(rows) {
            None => None,
            Some(bs) => match next {
                None => Some((bs, None)),
                Some(raw) => match md_token_v(raw) {
                    None => None,
                    Some(t) => Some((bs, Some(t))),
                },
            },
        },
    }
}

impl MdParser {
    /// Normalizes one row's six field strings into a record.
    pub fn md_record(
        title: String,
        file_ref: String,
        date_received: String,
        residents: String,
        info: String,
        how: String,
    ) -> (r: Result<Breach, ParseFailure>)
        ensures
            r matches Ok(b) ==> md_record_v(
                title@,
                file_ref@,
                date_received@,
                residents@,
                info@,
                how@,
            ) == Some(breach_v(b)) && wf_breach(b),
            r is Err <==> md_record_v(title@, file_ref@, date_received@, residents@, info@, how@)
                is None,
            r matches Err(e) ==> e.fragment@ == date_received@,
    {
        proof {
            reveal_strlit(",");
            reveal_strlit("https://www.marylandattorneygeneral.gov/");
        }
        let date_chars = to_chars(date_received.as_str());
        let dr: Date = if date_chars.len() == 0 {
            Date { year: 1, month: 1, day: 1 }
        } else {
            match parse_mdy(&date_chars) {
                Some(d) => d,
                None => {
                    return Err(ParseFailure { fragment: date_received });
                },
            }
        };
        let residents_chars = to_chars(residents.as_str());
        let comma = to_chars(",");
        let empty_rep: Vec<char> = Vec::new();
        let ac = parse_i32(&replace_seq(&trim(&residents_chars), &comma, &empty_rep));
        let mut link_chars = to_chars("https://www.marylandattorneygeneral.gov/");
        crate::text::append_copy(&mut link_chars, &to_chars(file_ref.as_str()));
        let link = chars_to_string(&link_chars);
        let info_chars = to_chars(info.as_str());
        let leaked = md_leaked_info(&info_chars);
        let how_chars = to_chars(how.as_str());
        let bt = md_parse_breach_type(&how_chars);
        let b = Breach {
            id: 0,
            date_reported: dr,
            organization_name: title,
            date_of_breach: None,
            affected_count: None,
            affected_count_local: ac,
            loc: State::MD,
            breach_type: bt,
            link: Some(link),
            leaked_info: leaked,
        };
        proof {
            assert(breach_v(b) == md_record_v(
                title@,
                file_ref@,
                date_received@,
                residents@,
                info@,
                how@,
            )->Some_0);
        }
        Ok(b)
    }

    /// Extracts the continuation token from a next-page reference.
    pub fn md_token(next_raw: String) -> (r: Result<String, ParseFailure>)
        ensures
            r matches Ok(t) ==> md_token_v(next_raw@) == Some(t@),
            r is Err <==> md_token_v(next_raw@) is None,
            r matches Err(e) ==> e.fragment@ == next_raw@,
    {
        proof {
            reveal_strlit("breachnotices.aspx?");
            reveal_strlit("View=");
            reveal_strlit("&");
        }
        let chars = to_chars(next_raw.as_str());
        let parts = split_lit(&chars, "breachnotices.aspx?");
        if parts.len() < 2 {
            return Err(ParseFailure { fragment: next_raw });
        }
        let sub = split_lit(&parts[1], "View=");
        let mut tok = to_chars("&");
        crate::text::append_copy(&mut tok, &sub[0]);
        Ok(chars_to_string(&tok))
    }

    /// Parses one whole JSON payload into records and the continuation
    /// token of the next page, if the payload names one: the JSON reading
    /// goes through `md_extract`, everything after it is verified.
    pub fn parse_body(text: &str) -> (r: Result<(Vec<Breach>, Option<String>), ParseFailure>)
        ensures
            r matches Ok((bs, tok)) ==> md_page(text@) == Some(
                (bs@.map_values(|b: Breach| breach_v(b)), crate::dto::opt_str_view(tok)),
            ) && (forall|i: int|
                0 <= i < bs@.len() ==> wf_breach(#[trigger] bs@[i]) && bs@[i].loc is MD),
            r is Err <==> md_page(text@) is None,
    {
        let (rows, next) = match md_extract(text) {
            Some(p) => p,
            None => {
                return Err(ParseFailure { fragment: String::from_str(text) });
            },
        };
        let ghost rows_v = rows@.map_values(|x: MdRow| md_row_v(x));
        let n: usize = rows.len();
        let mut out: Vec<Breach> = Vec::new();
        let mut k: usize = 0;
        proof {
            assert(rows_v.skip(0) =~= rows_v);
            assert(out@.map_values(|b: Breach| breach_v(b)) =~= Seq::<BreachV>::empty());
        }
        while k < n
            invariant
                k <= n,
                n == rows_v.len() == rows@.len(),
                rows_v == rows@.map_values(|x: MdRow| md_row_v(x)),
                md_payload_v(text@) is Some,
                md_payload_v(text@)->Some_0.0 == rows_v,
                md_records_of(rows_v) matches Some(vs) ==> md_records_of(
                    rows_v.skip(k as int),
                ) matches Some(tail) && vs == out@.map_values(|b: Breach| breach_v(b)) + tail,
                md_records_of(rows_v) is None ==> md_records_of(rows_v.skip(k as int)) is None,
                forall|i: int|
                    0 <= i < out@.len() ==> wf_breach(#[trigger] out@[i]) && out@[i].loc is MD,
            decreases n - k,
        {
            proof {
                assert(rows_v.skip(k as int)[0] == rows_v[k as int]);
                assert(rows_v[k as int] == md_row_v(rows@[k as int]));
                assert(rows_v.skip(k as int).skip(1) =~= rows_v.skip(k + 1 as int));
            }
            let row = &rows[k];
            match MdParser::md_record(
                row.title.clone(),
                row.file_ref.clone(),
                row.date_received.clone(),
                row.residents.clone(),
                row.info.clone(),
                row.how.clone(),
            ) {
                Ok(b) => {
                    let ghost prior = out@;
                    out.push(b);
                    proof {
                        assert(out@.map_values(|x: Breach| breach_v(x)) =~= prior.map_values(
                            |x: Breach| breach_v(x),
                        ) + seq![breach_v(b)]);
                        match md_records_of(rows_v) {
                            Some(vs) => {
                                assert(md_records_of(rows_v.skip(k as int)) matches Some(tail2)
                                    && tail2 == seq![breach_v(b)] + md_records_of(
                                    rows_v.skip(k + 1 as int),
                                )->Some_0);
                            },
                            None => {},
                        }
                    }
                },
                Err(e) => {
                    proof {
                        assert(md_records_of(rows_v.skip(k as int)) is None);
                    }
                    return Err(e);
                },
            }
            k = k + 1;
        }
        proof {
            assert(rows_v.skip(n as int).len() == 0);
            assert(md_records_of(rows_v.skip(n as int)) == Some(Seq::<BreachV>::empty()));
            match md_records_of(rows_v) {
                Some(vs) => {
                    assert(vs =~= out@.map_values(|b: Breach| breach_v(b)));
                },
                None => {},
            }
        }
        let token: Option<String> = match next {
            None => None,
            Some(next_raw) => {
                match MdParser::md_token(next_raw) {
                    Ok(t) => Some(t),
                    Err(e) => {
                        return Err(e);
                    },
                }
            },
        };
        Ok((out, token))
    }
}

impl MdParser {
    /// Classifies a free-form list of exposed categories by keyword
    /// groups.
    pub fn parse_leaked_info(text: &str) -> (r: Vec<crate::dto::ClassificationType>)
        ensures
            crate::dto::classes_view(r@) == spec_md_leaked_info(text@),
            forall|i: int| 0 <= i < r@.len() ==> crate::dto::wf_class(#[trigger] r@[i]),
    {
        md_leaked_info(&to_chars(text))
    }

    /// Reads the breach cause from a free-form description.
    pub fn parse_breach_type(text: &str) -> (r: crate::dto::BreachType)
        ensures
            r == md_breach_type(text@),
    {
        md_parse_breach_type(&to_chars(text))
    }
}

impl Parser for MdParser {
    fn parse_page(&self, page: &str) -> Result<(Vec<Breach>, Option<String>), ParseFailure> {
        MdParser::parse_body(page)
    }
}

} // verus!

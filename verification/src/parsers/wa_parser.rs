//! The Washington listing: an HTML table whose second body holds one row
//! per disclosure, with reported date, linked organization, breach date,
//! affected count and a controlled-vocabulary list of exposed categories.

use vstd::prelude::*;
use vstd::string::StringExecFns;
use crate::classify::{spec_wa_classifications, wa_classifications};
use crate::dates::{parse_mdy, spec_parse_mdy, valid_date, Date};
use crate::dto::{breach_v, wf_breach, wf_class, Breach, BreachType, BreachV, State};
use crate::text::{chars_to_string, spec_split, spec_trim, to_chars, trim};
use super::{split_lit, ParseFailure, Parser};

verus! {

/// Adapter for the Washington listing.
pub struct WaParser {}

/// What one table row of the Washington listing parses to, if anything:
/// the functional mirror of `WaParser::parse_breach`.
pub open spec fn wa_row_breach(row: Seq<char>) -> Option<BreachV> {
    let p = spec_split(row, "</td>"@);
    let f0 = spec_split(p[0], ">"@);
    if f0.len() < 4 {
        None
    } else {
        let dr = spec_parse_mdy(spec_trim(spec_split(f0[3], "<"@)[0]));
        if dr is None || p.len() < 2 {
            None
        } else {
            let f1 = spec_split(p[1], ">"@);
            if f1.len() < 3 {
                None
            } else {
                let href = spec_split(f1[1], "href=\""@);
                if href.len() < 2 {
                    None
                } else {
                    let link = spec_split(href[1], "\""@)[0];
                    let org = spec_trim(spec_split(f1[2], "<"@)[0]);
                    if p.len() < 3 {
                        None
                    } else {
                        let f2 = spec_split(p[2], ">"@);
                        let dob: Option<Option<Date>> = if f2.len() >= 3 {
                            match spec_parse_mdy(spec_trim(spec_split(f2[2], "<"@)[0])) {
                                Some(d) => Some(Some(d)),
                                None => None,
                            }
                        } else {
                            Some(None)
                        };
                        if dob is None || p.len() < 4 {
                            None
                        } else {
                            let f3 = spec_split(p[3], ">"@);
                            if f3.len() < 2 {
                                None
                            } else {
                                let count_txt = spec_trim(f3[1]);
                                let cnt: Option<int> = if count_txt == "Unknown"@ || count_txt.len()
                                    == 0 {
                                    Some(0)
                                } else {
                                    crate::text::spec_parse_i32(count_txt)
                                };
                                if cnt is None {
                                    None
                                } else {
                                    let leaked: Option<Seq<(int, Seq<char>)>> = if p.len() >= 5 {
                                        let f4 = spec_split(p[4], ">"@);
                                        if f4.len() < 2 {
                                            None
                                        } else {
                                            Some(spec_wa_classifications(spec_trim(f4[1])))
                                        }
                                    } else {
                                        Some(Seq::<(int, Seq<char>)>::empty())
                                    };
                                    if leaked is None {
                                        None
                                    } else {
                                        Some(
                                            BreachV {
                                                id: 0,
                                                date_reported: dr->Some_0,
                                                organization_name: org,
                                                date_of_breach: dob->Some_0,
                                                affected_count: Some(cnt->Some_0 as i32),
                                                affected_count_local: None,
                                                loc: State::WA,
                                                breach_type: BreachType::Unknown,
                                                link: Some(link),
                                                leaked: leaked->Some_0,
                                            },
                                        )
                                    }
                                }
                            }
                        }
                    }
                }
            }
        }
    }
}

/// What the rows of one page parse to: one malformed row aborts the page.
pub open spec fn wa_rows_breaches(rows: Seq<Seq<char>>) -> Option<Seq<BreachV>>
    decreases rows.len(),
{
    if rows.len() == 0 {
        Some(Seq::<BreachV>::empty())
    } else {
        match (wa_row_breach(rows[0]), wa_rows_breaches(rows.skip(1))) {
            (Some(b), Some(rest)) => Some(seq![b] + rest),
            _ => None,
        }
    }
}

/// What one whole Washington page parses to: a page without the expected
/// second table body is structurally implausible and fails; a table body
/// without rows is a legitimate empty page.
pub open spec fn wa_page_breaches(text: Seq<char>) -> Option<Seq<BreachV>> {
    let cp = spec_split(text, "<tbody>"@);
    if cp.len() < 3 {
        None
    } else {
        let rows = spec_split(spec_split(cp[2], "</tbody>"@)[0], "<tr "@);
        wa_rows_breaches(rows.skip(1))
    }
}

impl WaParser {
    /// Parses one table row into a record.
    pub fn parse_breach(row: &Vec<char>) -> (r: Result<Breach, ParseFailure>)
        ensures
            r matches Ok(b) ==> wa_row_breach(row@) == Some(breach_v(b)) && wf_breach(b),
            r is Err <==> wa_row_breach(row@) is None,
            r matches Err(e) ==> e.fragment@ == row@,
    {
        proof {
            reveal_strlit("</td>");
            reveal_strlit(">");
            reveal_strlit("<");
            reveal_strlit("href=\"");
            reveal_strlit("\"");
            reveal_strlit("Unknown");
        }
        let p = split_lit(row, "</td>");
        let f0 = split_lit(&p[0], ">");
        if f0.len() < 4 {
            return Err(ParseFailure { fragment: chars_to_string(row) });
        }
        let dr_txt = trim(&split_lit(&f0[3], "<")[0]);
        let dr = match parse_mdy(&dr_txt) {
            Some(d) => d,
            None => {
                return Err(ParseFailure { fragment: chars_to_string(row) });
            },
        };
        if p.len() < 2 {
            return Err(ParseFailure { fragment: chars_to_string(row) });
        }
        let f1 = split_lit(&p[1], ">");
        if f1.len() < 3 {
            return Err(ParseFailure { fragment: chars_to_string(row) });
        }
        let href = split_lit(&f1[1], "href=\"");
        if href.len() < 2 {
            return Err(ParseFailure { fragment: chars_to_string(row) });
        }
        let link = chars_to_string(&split_lit(&href[1], "\"")[0]);
        let org = chars_to_string(&trim(&split_lit(&f1[2], "<")[0]));
        if p.len() < 3 {
            return Err(ParseFailure { fragment: chars_to_string(row) });
        }
        let f2 = split_lit(&p[2], ">");
        let dob: Option<Date> = if f2.len() >= 3 {
            let dob_txt = trim(&split_lit(&f2[2], "<")[0]);
            match parse_mdy(&dob_txt) {
                Some(d) => Some(d),
                None => {
                    return Err(ParseFailure { fragment: chars_to_string(row) });
                },
            }
        } else {
            None
        };
        if p.len() < 4 {
            return Err(ParseFailure { fragment: chars_to_string(row) });
        }
        let f3 = split_lit(&p[3], ">");
        if f3.len() < 2 {
            return Err(ParseFailure { fragment: chars_to_string(row) });
        }
        let count_txt = trim(&f3[1]);
        let unknown_lit = to_chars("Unknown");
        let cnt: i32 = if crate::text::chars_eq(&count_txt, &unknown_lit) || count_txt.len() == 0 {
            0
        } else {
            match crate::text::parse_i32(&count_txt) {
                Some(c) => c,
                None => {
                    return Err(ParseFailure { fragment: chars_to_string(row) });
                },
            }
        };
        let leaked: Vec<crate::dto::ClassificationType> = if p.len() >= 5 {
            let f4 = split_lit(&p[4], ">");
            if f4.len() < 2 {
                return Err(ParseFailure { fragment: chars_to_string(row) });
            }
            wa_classifications(&trim(&f4[1]))
        } else {
            Vec::new()
        };
        let b = Breach {
            id: 0,
            date_reported: dr,
            organization_name: org,
            date_of_breach: dob,
            affected_count: Some(cnt),
            affected_count_local: None,
            loc: State::WA,
            breach_type: BreachType::Unknown,
            link: Some(link),
            leaked_info: leaked,
        };
        proof {
            assert(crate::dto::classes_view(b.leaked_info@) =~= wa_row_breach(
                row@,
            )->Some_0.leaked);
            assert(breach_v(b) == wa_row_breach(row@)->Some_0);
        }
        Ok(b)
    }

    /// Parses one whole page into records.
    pub fn parse_body(text: &str) -> (r: Result<Vec<Breach>, ParseFailure>)
        ensures
            r matches Ok(bs) ==> wa_page_breaches(text@) == Some(bs@.map_values(|b: Breach| breach_v(b)))
                && (forall|i: int| 0 <= i < bs@.len() ==> wf_breach(#[trigger] bs@[i])),
            r is Err <==> wa_page_breaches(text@) is None,
    {
        proof {
            reveal_strlit("<tbody>");
            reveal_strlit("</tbody>");
            reveal_strlit("<tr ");
        }
        let chars = to_chars(text);
        let cp = split_lit(&chars, "<tbody>");
        if cp.len() < 3 {
            return Err(ParseFailure { fragment: String::from_str(text) });
        }
        let body = split_lit(&cp[2], "</tbody>");
        let rows = split_lit(&body[0], "<tr ");
        let ghost rows_v = rows.deep_view();
        let n: usize = rows.len();
        let mut out: Vec<Breach> = Vec::new();
        let mut k: usize = 1;
        proof {
            assert(wa_rows_breaches(rows_v.skip(1)) == wa_page_breaches(text@));
            assert(out@.map_values(|b: Breach| breach_v(b)) =~= Seq::<BreachV>::empty());
        }
        while k < n
            invariant
                1 <= k <= n,
                n == rows_v.len(),
                rows_v == rows.deep_view(),
                rows_v.len() == rows@.len(),
                forall|i: int| 0 <= i < rows@.len() ==> (#[trigger] rows@[i])@ == rows_v[i],
                wa_page_breaches(text@) == wa_rows_breaches(rows_v.skip(1)),
                wa_rows_breaches(rows_v.skip(1)) matches Some(vs) ==> wa_rows_breaches(
                    rows_v.skip(k as int),
                ) matches Some(tail) && vs == out@.map_values(|b: Breach| breach_v(b)) + tail,
                wa_rows_breaches(rows_v.skip(1)) is None ==> wa_rows_breaches(
                    rows_v.skip(k as int),
                ) is None,
                forall|i: int| 0 <= i < out@.len() ==> wf_breach(#[trigger] out@[i]),
            decreases n - k,
        {
            proof {
                assert(rows_v.skip(k as int)[0] == rows_v[k as int]);
                assert(rows_v.skip(k as int).skip(1) =~= rows_v.skip(k + 1 as int));
            }
            match WaParser::parse_breach(&rows[k]) {
                Ok(b) => {
                    let ghost prior = out@;
                    out.push(b);
                    proof {
                        assert(out@.map_values(|x: Breach| breach_v(x)) =~= prior.map_values(
                            |x: Breach| breach_v(x),
                        ) + seq![breach_v(b)]);
                        match wa_rows_breaches(rows_v.skip(1)) {
                            Some(vs) => {
                                assert(wa_rows_breaches(rows_v.skip(k as int))
                                    matches Some(tail2) && tail2 == seq![breach_v(b)]
                                    + wa_rows_breaches(rows_v.skip(k + 1 as int))->Some_0);
                            },
                            None => {},
                        }
                    }
                },
                Err(e) => {
                    proof {
                        assert(wa_row_breach(rows_v[k as int]) is None);
                        assert(wa_rows_breaches(rows_v.skip(k as int)) is None);
                    }
                    return Err(e);
                },
            }
            k = k + 1;
        }
        proof {
            assert(rows_v.skip(n as int).len() == 0);
            assert(wa_rows_breaches(rows_v.skip(n as int)) == Some(Seq::<BreachV>::empty()));
            match wa_rows_breaches(rows_v.skip(1)) {
                Some(vs) => {
                    assert(vs =~= out@.map_values(|b: Breach| breach_v(b)));
                },
                None => {},
            }
        }
        Ok(out)
    }
}

impl WaParser {
    /// Classifies the controlled-vocabulary list of exposed categories.
    pub fn parse_classifications(text: &str) -> (r: Vec<crate::dto::ClassificationType>)
        ensures
            crate::dto::classes_view(r@) == spec_wa_classifications(text@),
            forall|i: int| 0 <= i < r@.len() ==> crate::dto::wf_class(#[trigger] r@[i]),
    {
        wa_classifications(&to_chars(text))
    }
}

impl Parser for WaParser {
    fn parse_page(&self, page: &str) -> Result<(Vec<Breach>, Option<String>), ParseFailure> {
        match WaParser::parse_body(page) {
            Ok(bs) => Ok((bs, None)),
            Err(e) => Err(e),
        }
    }
}

} // verus!

//! The Hawaii listing: an HTML table with one row per disclosure, with
//! reported date (year first), case number, organization, breach cause
//! from a fixed vocabulary, affected count and notice link.

use vstd::prelude::*;
use vstd::string::StringExecFns;
use crate::dates::{parse_ymd_dots, spec_parse_ymd_dots, Date};
use crate::dto::{breach_v, wf_breach, Breach, BreachType, BreachV, State};
use crate::text::{
    chars_eq, chars_to_string, parse_i32, replace_seq, spec_parse_i32, spec_replace, spec_split,
    spec_trim, subvec, to_chars, trim,
};
use super::{split_lit, ParseFailure, Parser};

verus! {

/// Adapter for the Hawaii listing.
pub struct HiParser {}

/// The fixed breach-cause vocabulary of the Hawaii listing.
pub open spec fn hi_breach_type(t: Seq<char>) -> BreachType {
    if t == "Hackers/Unauthorized Access"@ || t == "Hackers/ Unauthorized Access"@ {
        BreachType::HackerUnauthorizedAccess
    } else if t == "Stolen Laptops, Computers &amp; Equipment"@ {
        BreachType::StolenEquipment
    } else if t == "Lost in Transit"@ {
        BreachType::LostInTransit
    } else if t == "Release/Display of Information"@ {
        BreachType::ReleaseOrDisplayOfInformation
    } else if t == "Data Theft by Employee or Contractor"@ {
        BreachType::TheftByEmployeeOrContractor
    } else if t == "Phishing"@ {
        BreachType::Phishing
    } else {
        BreachType::Unknown
    }
}

/// The leading ten characters of a trimmed date cell.
pub open spec fn hi_date_head(s: Seq<char>) -> Seq<char> {
    let t = spec_trim(s);
    if t.len() > 10 {
        t.take(10)
    } else {
        t
    }
}

/// What one table row of the Hawaii listing parses to, if anything.
pub open spec fn hi_row_breach(row: Seq<char>) -> Option<BreachV> {
    let p = spec_split(row, "</td>"@);
    let f0 = spec_split(p[0], ">"@);
    if f0.len() < 3 {
        None
    } else {
        let dr = spec_parse_ymd_dots(hi_date_head(f0[2]));
        if dr is None || p.len() < 3 {
            None
        } else {
            let f2 = spec_split(p[2], ">"@);
            if f2.len() < 2 {
                None
            } else {
                let org = spec_split(f2[1], "<"@)[0];
                let bt: BreachType = if p.len() >= 4 {
                    let f3 = spec_split(p[3], ">"@);
                    if f3.len() >= 2 {
                        hi_breach_type(spec_split(f3[1], "<"@)[0])
                    } else {
                        BreachType::Unknown
                    }
                } else {
                    BreachType::Unknown
                };
                let ac: Option<i32> = if p.len() >= 5 {
                    let f4 = spec_split(p[4], ">"@);
                    if f4.len() >= 2 {
                        let c = spec_split(f4[1], "<"@)[0];
                        match spec_parse_i32(
                            spec_replace(spec_trim(c), ","@, Seq::<char>::empty()),
                        ) {
                            Some(v) => Some(v as i32),
                            None => None,
                        }
                    } else {
                        None
                    }
                } else {
                    None
                };
                let link: Option<Option<Seq<char>>> = if p.len() >= 6 {
                    let f5 = spec_split(p[5], ">"@);
                    if f5.len() < 2 {
                        None
                    } else {
                        let href = spec_split(f5[1], "href=\""@);
                        if href.len() >= 2 {
                            Some(Some(spec_split(href[1], "\""@)[0]))
                        } else {
                            Some(None)
                        }
                    }
                } else {
                    Some(None)
                };
                if link is None {
                    None
                } else {
                    Some(
                        BreachV {
                            id: 0,
                            date_reported: dr->Some_0,
                            organization_name: org,
                            date_of_breach: None,
                            affected_count: None,
                            affected_count_local: ac,
                            loc: State::HI,
                            breach_type: bt,
                            link: link->Some_0,
                            leaked: Seq::<(int, Seq<char>)>::empty(),
                        },
                    )
                }
            }
        }
    }
}

/// What the rows of one page parse to: one malformed row aborts the page.
pub open spec fn hi_rows_breaches(rows: Seq<Seq<char>>) -> Option<Seq<BreachV>>
    decreases rows.len(),
{
    if rows.len() == 0 {
        Some(Seq::<BreachV>::empty())
    } else {
        match (hi_row_breach(rows[0]), hi_rows_breaches(rows.skip(1))) {
            (Some(b), Some(rest)) => Some(seq![b] + rest),
            _ => None,
        }
    }
}

/// What one whole Hawaii page parses to: a page without the expected
/// table body is structurally implausible and fails.
pub open spec fn hi_page_breaches(text: Seq<char>) -> Option<Seq<BreachV>> {
    let cp = spec_split(text, "<tbody class=\"row-hover\">"@);
    if cp.len() < 2 {
        None
    } else {
        let rows = spec_split(spec_split(cp[1], "</tbody>"@)[0], "<tr "@);
        hi_rows_breaches(rows.skip(1))
    }
}

impl HiParser {
    /// Parses one table row into a record.
    pub fn parse_breach(row: &Vec<char>) -> (r: Result<Breach, ParseFailure>)
        ensures
            r matches Ok(b) ==> hi_row_breach(row@) == Some(breach_v(b)) && wf_breach(b),
            r is Err <==> hi_row_breach(row@) is None,
            r matches Err(e) ==> e.fragment@ == row@,
    {
        proof {
            reveal_strlit("</td>");
            reveal_strlit(">");
            reveal_strlit("<");
            reveal_strlit("href=\"");
            reveal_strlit("\"");
            reveal_strlit(",");
            reveal_strlit("Hackers/Unauthorized Access");
            reveal_strlit("Hackers/ Unauthorized Access");
            reveal_strlit("Stolen Laptops, Computers &amp; Equipment");
            reveal_strlit("Lost in Transit");
            reveal_strlit("Release/Display of Information");
            reveal_strlit("Data Theft by Employee or Contractor");
            reveal_strlit("Phishing");
        }
        let p = split_lit(row, "</td>");
        let f0 = split_lit(&p[0], ">");
        if f0.len() < 3 {
            return Err(ParseFailure { fragment: chars_to_string(row) });
        }
        let t = trim(&f0[2]);
        let head = if t.len() > 10 {
            subvec(&t, 0, 10)
        } else {
            t
        };
        let dr = match parse_ymd_dots(&head) {
            Some(d) => d,
            None => {
                return Err(ParseFailure { fragment: chars_to_string(row) });
            },
        };
        if p.len() < 3 {
            return Err(ParseFailure { fragment: chars_to_string(row) });
        }
        let f2 = split_lit(&p[2], ">");
        if f2.len() < 2 {
            return Err(ParseFailure { fragment: chars_to_string(row) });
        }
        let org = chars_to_string(&split_lit(&f2[1], "<")[0]);
        let bt: BreachType = if p.len() >= 4 {
            let f3 = split_lit(&p[3], ">");
            if f3.len() >= 2 {
                let bt_txt = &split_lit(&f3[1], "<")[0];
                if chars_eq(bt_txt, &to_chars("Hackers/Unauthorized Access")) || chars_eq(
                    bt_txt,
                    &to_chars("Hackers/ Unauthorized Access"),
                ) {
                    BreachType::HackerUnauthorizedAccess
                } else if chars_eq(bt_txt, &to_chars("Stolen Laptops, Computers &amp; Equipment")) {
                    BreachType::StolenEquipment
                } else if chars_eq(bt_txt, &to_chars("Lost in Transit")) {
                    BreachType::LostInTransit
                } else if chars_eq(bt_txt, &to_chars("Release/Display of Information")) {
                    BreachType::ReleaseOrDisplayOfInformation
                } else if chars_eq(bt_txt, &to_chars("Data Theft by Employee or Contractor")) {
                    BreachType::TheftByEmployeeOrContractor
                } else if chars_eq(bt_txt, &to_chars("Phishing")) {
                    BreachType::Phishing
                } else {
                    BreachType::Unknown
                }
            } else {
                BreachType::Unknown
            }
        } else {
            BreachType::Unknown
        };
        let ac: Option<i32> = if p.len() >= 5 {
            let f4 = split_lit(&p[4], ">");
            if f4.len() >= 2 {
                let c = &split_lit(&f4[1], "<")[0];
                let comma = to_chars(",");
                let empty_rep: Vec<char> = Vec::new();
                let cleaned = replace_seq(&trim(c), &comma, &empty_rep);
                parse_i32(&cleaned)
            } else {
                None
            }
        } else {
            None
        };
        let link: Option<String> = if p.len() >= 6 {
            let f5 = split_lit(&p[5], ">");
            if f5.len() < 2 {
                return Err(ParseFailure { fragment: chars_to_string(row) });
            }
            let href = split_lit(&f5[1], "href=\"");
            if href.len() >= 2 {
                Some(chars_to_string(&split_lit(&href[1], "\"")[0]))
            } else {
                None
            }
        } else {
            None
        };
        let b = Breach {
            id: 0,
            date_reported: dr,
            organization_name: org,
            date_of_breach: None,
            affected_count: None,
            affected_count_local: ac,
            loc: State::HI,
            breach_type: bt,
            link,
            leaked_info: Vec::new(),
        };
        proof {
            assert(crate::dto::classes_view(b.leaked_info@) =~= Seq::<(int, Seq<char>)>::empty());
            assert(breach_v(b) == hi_row_breach(row@)->Some_0);
        }
        Ok(b)
    }

    /// Parses one whole page into records.
    pub fn parse_body(text: &str) -> (r: Result<Vec<Breach>, ParseFailure>)
        ensures
            r matches Ok(bs) ==> hi_page_breaches(text@) == Some(
                bs@.map_values(|b: Breach| breach_v(b)),
            ) && (forall|i: int| 0 <= i < bs@.len() ==> wf_breach(#[trigger] bs@[i])),
            r is Err <==> hi_page_breaches(text@) is None,
    {
        proof {
            reveal_strlit("<tbody class=\"row-hover\">");
            reveal_strlit("</tbody>");
            reveal_strlit("<tr ");
        }
        let chars = to_chars(text);
        let cp = split_lit(&chars, "<tbody class=\"row-hover\">");
        if cp.len() < 2 {
            return Err(ParseFailure { fragment: String::from_str(text) });
        }
        let body = split_lit(&cp[1], "</tbody>");
        let rows = split_lit(&body[0], "<tr ");
        let ghost rows_v = rows.deep_view();
        let n: usize = rows.len();
        let mut out: Vec<Breach> = Vec::new();
        let mut k: usize = 1;
        proof {
            assert(hi_rows_breaches(rows_v.skip(1)) == hi_page_breaches(text@));
            assert(out@.map_values(|b: Breach| breach_v(b)) =~= Seq::<BreachV>::empty());
        }
        while k < n
            invariant
                1 <= k <= n,
                n == rows_v.len(),
                rows_v == rows.deep_view(),
                rows_v.len() == rows@.len(),
                forall|i: int| 0 <= i < rows@.len() ==> (#[trigger] rows@[i])@ == rows_v[i],
                hi_page_breaches(text@) == hi_rows_breaches(rows_v.skip(1)),
                hi_rows_breaches(rows_v.skip(1)) matches Some(vs) ==> hi_rows_breaches(
                    rows_v.skip(k as int),
                ) matches Some(tail) && vs == out@.map_values(|b: Breach| breach_v(b)) + tail,
                hi_rows_breaches(rows_v.skip(1)) is None ==> hi_rows_breaches(
                    rows_v.skip(k as int),
                ) is None,
                forall|i: int| 0 <= i < out@.len() ==> wf_breach(#[trigger] out@[i]),
            decreases n - k,
        {
            proof {
                assert(rows_v.skip(k as int)[0] == rows_v[k as int]);
                assert(rows_v.skip(k as int).skip(1) =~= rows_v.skip(k + 1 as int));
            }
            match HiParser::parse_breach(&rows[k]) {
                Ok(b) => {
                    let ghost prior = out@;
                    out.push(b);
                    proof {
                        assert(out@.map_values(|x: Breach| breach_v(x)) =~= prior.map_values(
                            |x: Breach| breach_v(x),
                        ) + seq![breach_v(b)]);
                        match hi_rows_breaches(rows_v.skip(1)) {
                            Some(vs) => {
                                assert(hi_rows_breaches(rows_v.skip(k as int))
                                    matches Some(tail2) && tail2 == seq![breach_v(b)]
                                    + hi_rows_breaches(rows_v.skip(k + 1 as int))->Some_0);
                            },
                            None => {},
                        }
                    }
                },
                Err(e) => {
                    proof {
                        assert(hi_rows_breaches(rows_v.skip(k as int)) is None);
                    }
                    return Err(e);
                },
            }
            k = k + 1;
        }
        proof {
            assert(rows_v.skip(n as int).len() == 0);
            assert(hi_rows_breaches(rows_v.skip(n as int)) == Some(Seq::<BreachV>::empty()));
            match hi_rows_breaches(rows_v.skip(1)) {
                Some(vs) => {
                    assert(vs =~= out@.map_values(|b: Breach| breach_v(b)));
                },
                None => {},
            }
        }
        Ok(out)
    }
}

impl Parser for HiParser {
    fn parse_page(&self, page: &str) -> Result<(Vec<Breach>, Option<String>), ParseFailure> {
        match HiParser::parse_body(page) {
            Ok(bs) => Ok((bs, None)),
            Err(e) => Err(e),
        }
    }
}

} // verus!

//! The Oregon listing: an HTML table with one row per disclosure; a row
//! may name several breach dates, and yields one record per breach date.

use vstd::prelude::*;
use vstd::string::StringExecFns;
use crate::dates::{parse_mdy, spec_parse_mdy, valid_date, Date};
use crate::dto::{breach_v, wf_breach, Breach, BreachType, BreachV, State};
use crate::text::{
    chars_to_string, contains, contains_seq, spec_split, spec_trim, subvec, to_chars, trim,
};
use super::{split_lit, ParseFailure, Parser};

verus! {

/// Adapter for the Oregon listing.
pub struct OrParser {}

/// The leading ten characters of a trimmed date cell.
pub open spec fn date_head(s: Seq<char>) -> Seq<char> {
    let t = spec_trim(s);
    if t.len() > 10 {
        t.take(10)
    } else {
        t
    }
}

/// The breach dates of a comma-separated date cell, one per part: a part
/// of fewer than ten characters counts as an unknown date.
pub open spec fn or_date_list(parts: Seq<Seq<char>>) -> Option<Seq<Option<Date>>>
    decreases parts.len(),
{
    if parts.len() == 0 {
        Some(Seq::<Option<Date>>::empty())
    } else {
        let head: Option<Option<Date>> = if parts[0].len() >= 10 {
            match spec_parse_mdy(date_head(parts[0])) {
                Some(d) => Some(Some(d)),
                None => None,
            }
        } else {
            Some(None)
        };
        match (head, or_date_list(parts.skip(1))) {
            (Some(h), Some(rest)) => Some(seq![h] + rest),
            _ => None,
        }
    }
}

/// The breach dates named by one date cell.
pub open spec fn or_dates(b: Seq<char>) -> Option<Seq<Option<Date>>> {
    if b.len() == 0 {
        Some(seq![None])
    } else if contains_seq(b, ","@) {
        or_date_list(spec_split(b, ","@))
    } else {
        match spec_parse_mdy(date_head(b)) {
            Some(d) => Some(seq![Some(d)]),
            None => None,
        }
    }
}

/// What one table row of the Oregon listing parses to, if anything: one
/// record per named breach date.
pub open spec fn or_row_breaches(row: Seq<char>) -> Option<Seq<BreachV>> {
    let p = spec_split(row, "</td>"@);
    let f0 = spec_split(p[0], ">"@);
    if f0.len() < 3 {
        None
    } else {
        let href = spec_split(f0[1], "href=\""@);
        if href.len() < 2 {
            None
        } else {
            let link = "https://justice.oregon.gov"@ + spec_split(href[1], "\""@)[0];
            let org = spec_trim(spec_split(f0[2], "<"@)[0]);
            let dates: Option<Seq<Option<Date>>> = if p.len() < 2 {
                Some(Seq::<Option<Date>>::empty())
            } else {
                let f1 = spec_split(p[1], ">"@);
                if f1.len() < 2 {
                    Some(seq![None])
                } else {
                    or_dates(spec_trim(spec_split(f1[1], "<"@)[0]))
                }
            };
            if dates is None || dates->Some_0.len() == 0 || p.len() < 3 {
                None
            } else {
                let f2 = spec_split(p[2], ">"@);
                if f2.len() < 2 {
                    None
                } else {
                    match spec_parse_mdy(spec_trim(spec_split(f2[1], "<"@)[0])) {
                        None => None,
                        Some(dr) => Some(
                            dates->Some_0.map_values(
                                |dob: Option<Date>|
                                    BreachV {
                                        id: 0,
                                        date_reported: dr,
                                        organization_name: org,
                                        date_of_breach: dob,
                                        affected_count: None,
                                        affected_count_local: None,
                                        loc: State::OR,
                                        breach_type: BreachType::Unknown,
                                        link: Some(link),
                                        leaked: Seq::<(int, Seq<char>)>::empty(),
                                    },
                            ),
                        ),
                    }
                }
            }
        }
    }
}

/// What the rows of one page parse to: one malformed row aborts the page.
pub open spec fn or_rows_breaches(rows: Seq<Seq<char>>) -> Option<Seq<BreachV>>
    decreases rows.len(),
{
    if rows.len() == 0 {
        Some(Seq::<BreachV>::empty())
    } else {
        match (or_row_breaches(rows[0]), or_rows_breaches(rows.skip(1))) {
            (Some(b), Some(rest)) => Some(b + rest),
            _ => None,
        }
    }
}

/// What one whole Oregon page parses to: a page without the expected
/// table body is structurally implausible and fails.
pub open spec fn or_page_breaches(text: Seq<char>) -> Option<Seq<BreachV>> {
    let cp = spec_split(text, "<tbody>"@);
    if cp.len() < 2 {
        None
    } else {
        let rows = spec_split(spec_split(cp[1], "</tbody>"@)[0], "<tr>"@);
        or_rows_breaches(rows.skip(1))
    }
}

impl OrParser {
    /// Parses the date cell into breach dates.
    fn parse_dates(b: &Vec<char>) -> (r: Result<Vec<Option<Date>>, ParseFailure>)
        ensures
            r matches Ok(ds) ==> or_dates(b@) == Some(ds@) && (forall|i: int|
                0 <= i < ds@.len() ==> ((#[trigger] ds@[i]) matches Some(d) ==> valid_date(d))),
            r is Err <==> or_dates(b@) is None,
    {
        proof {
            reveal_strlit(",");
        }
        if b.len() == 0 {
            let mut ds: Vec<Option<Date>> = Vec::new();
            ds.push(None);
            proof {
                assert(ds@ =~= seq![None::<Date>]);
            }
            return Ok(ds);
        }
        let comma = to_chars(",");
        if contains(b, &comma) {
            let parts = split_lit(b, ",");
            let ghost parts_v = parts.deep_view();
            let n: usize = parts.len();
            let mut ds: Vec<Option<Date>> = Vec::new();
            let mut k: usize = 0;
            proof {
                assert(parts_v.skip(0) =~= parts_v);
            }
            while k < n
                invariant
                    k <= n,
                    n == parts_v.len() == parts@.len(),
                    parts_v == parts.deep_view(),
                    forall|i: int| 0 <= i < parts@.len() ==> (#[trigger] parts@[i])@ == parts_v[i],
                    or_dates(b@) == or_date_list(parts_v),
                    or_date_list(parts_v) matches Some(all) ==> or_date_list(
                        parts_v.skip(k as int),
                    ) matches Some(tail) && all == ds@ + tail,
                    or_date_list(parts_v) is None ==> or_date_list(parts_v.skip(k as int)) is None,
                    forall|i: int|
                        0 <= i < ds@.len() ==> ((#[trigger] ds@[i]) matches Some(d)
                            ==> valid_date(d)),
                decreases n - k,
            {
                proof {
                    assert(parts_v.skip(k as int)[0] == parts_v[k as int]);
                    assert(parts_v.skip(k as int).skip(1) =~= parts_v.skip(k + 1 as int));
                }
                let part = &parts[k];
                if part.len() >= 10 {
                    let t = trim(part);
                    let head = if t.len() > 10 {
                        subvec(&t, 0, 10)
                    } else {
                        t
                    };
                    proof {
                        assert(head@ == date_head(parts_v[k as int]));
                    }
                    match parse_mdy(&head) {
                        Some(d) => {
                            let ghost prior = ds@;
                            ds.push(Some(d));
                            proof {
                                assert(ds@ =~= prior + seq![Some(d)]);
                            }
                        },
                        None => {
                            proof {
                                assert(or_date_list(parts_v.skip(k as int)) is None);
                            }
                            return Err(ParseFailure { fragment: chars_to_string(b) });
                        },
                    }
                } else {
                    let ghost prior = ds@;
                    ds.push(None);
                    proof {
                        assert(ds@ =~= prior + seq![None::<Date>]);
                    }
                }
                k = k + 1;
            }
            proof {
                assert(parts_v.skip(n as int).len() == 0);
                assert(or_date_list(parts_v.skip(n as int)) == Some(Seq::<Option<Date>>::empty()));
                match or_date_list(parts_v) {
                    Some(all) => {
                        assert(all =~= ds@);
                    },
                    None => {},
                }
            }
            Ok(ds)
        } else {
            let t = trim(b);
            let head = if t.len() > 10 {
                subvec(&t, 0, 10)
            } else {
                t
            };
            proof {
                assert(head@ == date_head(b@));
            }
            match parse_mdy(&head) {
                Some(d) => {
                    let mut ds: Vec<Option<Date>> = Vec::new();
                    ds.push(Some(d));
                    proof {
                        assert(ds@ =~= seq![Some(d)]);
                    }
                    Ok(ds)
                },
                None => Err(ParseFailure { fragment: chars_to_string(b) }),
            }
        }
    }

    /// Parses one table row into its records, one per breach date.
    pub fn parse_breach(row: &Vec<char>) -> (r: Result<Vec<Breach>, ParseFailure>)
        ensures
            r matches Ok(bs) ==> or_row_breaches(row@) == Some(
                bs@.map_values(|b: Breach| breach_v(b)),
            ) && (forall|i: int| 0 <= i < bs@.len() ==> wf_breach(#[trigger] bs@[i])),
            r is Err <==> or_row_breaches(row@) is None,
            r matches Err(e) ==> e.fragment@ == row@,
    {
        proof {
            reveal_strlit("</td>");
            reveal_strlit(">");
            reveal_strlit("<");
            reveal_strlit("href=\"");
            reveal_strlit("\"");
            reveal_strlit("https://justice.oregon.gov");
        }
        let p = split_lit(row, "</td>");
        let f0 = split_lit(&p[0], ">");
        if f0.len() < 3 {
            return Err(ParseFailure { fragment: chars_to_string(row) });
        }
        let href = split_lit(&f0[1], "href=\"");
        if href.len() < 2 {
            return Err(ParseFailure { fragment: chars_to_string(row) });
        }
        let mut link_chars = to_chars("https://justice.oregon.gov");
        crate::text::append_copy(&mut link_chars, &split_lit(&href[1], "\"")[0]);
        let link = chars_to_string(&link_chars);
        let org = chars_to_string(&trim(&split_lit(&f0[2], "<")[0]));
        let dates: Vec<Option<Date>> = if p.len() < 2 {
            Vec::new()
        } else {
            let f1 = split_lit(&p[1], ">");
            if f1.len() < 2 {
                let mut ds: Vec<Option<Date>> = Vec::new();
                ds.push(None);
                proof {
                    assert(ds@ =~= seq![None::<Date>]);
                }
                ds
            } else {
                match OrParser::parse_dates(&trim(&split_lit(&f1[1], "<")[0])) {
                    Ok(ds) => ds,
                    Err(_) => {
                        return Err(ParseFailure { fragment: chars_to_string(row) });
                    },
                }
            }
        };
        if dates.len() == 0 {
            return Err(ParseFailure { fragment: chars_to_string(row) });
        }
        if p.len() < 3 {
            return Err(ParseFailure { fragment: chars_to_string(row) });
        }
        let f2 = split_lit(&p[2], ">");
        if f2.len() < 2 {
            return Err(ParseFailure { fragment: chars_to_string(row) });
        }
        let dr = match parse_mdy(&trim(&split_lit(&f2[1], "<")[0])) {
            Some(d) => d,
            None => {
                return Err(ParseFailure { fragment: chars_to_string(row) });
            },
        };
        let ghost dates_v = dates@;
        let n: usize = dates.len();
        proof {
            assert(or_row_breaches(row@) matches Some(vs) && vs == dates_v.map_values(
                |dob: Option<Date>|
                    BreachV {
                        id: 0,
                        date_reported: dr,
                        organization_name: org@,
                        date_of_breach: dob,
                        affected_count: None,
                        affected_count_local: None,
                        loc: State::OR,
                        breach_type: BreachType::Unknown,
                        link: Some(link@),
                        leaked: Seq::<(int, Seq<char>)>::empty(),
                    },
            ));
        }
        let mut out: Vec<Breach> = Vec::new();
        let mut k: usize = 0;
        while k < n
            invariant
                k <= n,
                n == dates_v.len(),
                dates@ == dates_v,
                out@.len() == k,
                valid_date(dr),
                forall|i: int|
                    0 <= i < n ==> ((#[trigger] dates_v[i]) matches Some(d) ==> valid_date(d)),
                or_row_breaches(row@) matches Some(vs) && vs.len() == n && (forall|i: int|
                    0 <= i < n ==> #[trigger] vs[i] == (BreachV {
                        id: 0,
                        date_reported: dr,
                        organization_name: org@,
                        date_of_breach: dates_v[i],
                        affected_count: None,
                        affected_count_local: None,
                        loc: State::OR,
                        breach_type: BreachType::Unknown,
                        link: Some(link@),
                        leaked: Seq::<(int, Seq<char>)>::empty(),
                    })),
                forall|i: int|
                    0 <= i < k ==> breach_v(#[trigger] out@[i]) == or_row_breaches(
                        row@,
                    )->Some_0[i] && wf_breach(out@[i]),
            decreases n - k,
        {
            let b = Breach {
                id: 0,
                date_reported: dr,
                organization_name: org.clone(),
                date_of_breach: dates[k],
                affected_count: None,
                affected_count_local: None,
                loc: State::OR,
                breach_type: BreachType::Unknown,
                link: Some(link.clone()),
                leaked_info: Vec::new(),
            };
            proof {
                assert(crate::dto::classes_view(b.leaked_info@) =~= Seq::<(int, Seq<char>)>::empty());
                assert(breach_v(b) == or_row_breaches(row@)->Some_0[k as int]);
            }
            out.push(b);
            k = k + 1;
        }
        proof {
            assert(out@.map_values(|b: Breach| breach_v(b)) =~= or_row_breaches(row@)->Some_0);
        }
        Ok(out)
    }

    /// Parses one whole page into records.
    pub fn parse_body(text: &str) -> (r: Result<Vec<Breach>, ParseFailure>)
        ensures
            r matches Ok(bs) ==> or_page_breaches(text@) == Some(
                bs@.map_values(|b: Breach| breach_v(b)),
            ) && (forall|i: int| 0 <= i < bs@.len() ==> wf_breach(#[trigger] bs@[i])),
            r is Err <==> or_page_breaches(text@) is None,
    {
        proof {
            reveal_strlit("<tbody>");
            reveal_strlit("</tbody>");
            reveal_strlit("<tr>");
        }
        let chars = to_chars(text);
        let cp = split_lit(&chars, "<tbody>");
        if cp.len() < 2 {
            return Err(ParseFailure { fragment: String::from_str(text) });
        }
        let body = split_lit(&cp[1], "</tbody>");
        let rows = split_lit(&body[0], "<tr>");
        let ghost rows_v = rows.deep_view();
        let n: usize = rows.len();
        let mut out: Vec<Breach> = Vec::new();
        let mut k: usize = 1;
        proof {
            assert(or_rows_breaches(rows_v.skip(1)) == or_page_breaches(text@));
            assert(out@.map_values(|b: Breach| breach_v(b)) =~= Seq::<BreachV>::empty());
        }
        while k < n
            invariant
                1 <= k <= n,
                n == rows_v.len(),
                rows_v == rows.deep_view(),
                rows_v.len() == rows@.len(),
                forall|i: int| 0 <= i < rows@.len() ==> (#[trigger] rows@[i])@ == rows_v[i],
                or_page_breaches(text@) == or_rows_breaches(rows_v.skip(1)),
                or_rows_breaches(rows_v.skip(1)) matches Some(vs) ==> or_rows_breaches(
                    rows_v.skip(k as int),
                ) matches Some(tail) && vs == out@.map_values(|b: Breach| breach_v(b)) + tail,
                or_rows_breaches(rows_v.skip(1)) is None ==> or_rows_breaches(
                    rows_v.skip(k as int),
                ) is None,
                forall|i: int| 0 <= i < out@.len() ==> wf_breach(#[trigger] out@[i]),
            decreases n - k,
        {
            proof {
                assert(rows_v.skip(k as int)[0] == rows_v[k as int]);
                assert(rows_v.skip(k as int).skip(1) =~= rows_v.skip(k + 1 as int));
            }
            match OrParser::parse_breach(&rows[k]) {
                Ok(mut bs) => {
                    let ghost prior = out@;
                    let ghost part = bs@;
                    out.append(&mut bs);
                    proof {
                        assert(out@.map_values(|x: Breach| breach_v(x)) =~= prior.map_values(
                            |x: Breach| breach_v(x),
                        ) + part.map_values(|x: Breach| breach_v(x)));
                    }
                },
                Err(e) => {
                    proof {
                        assert(or_rows_breaches(rows_v.skip(k as int)) is None);
                    }
                    return Err(e);
                },
            }
            k = k + 1;
        }
        proof {
            assert(rows_v.skip(n as int).len() == 0);
            assert(or_rows_breaches(rows_v.skip(n as int)) == Some(Seq::<BreachV>::empty()));
            match or_rows_breaches(rows_v.skip(1)) {
                Some(vs) => {
                    assert(vs =~= out@.map_values(|b: Breach| breach_v(b)));
                },
                None => {},
            }
        }
        Ok(out)
    }
}

impl Parser for OrParser {
    fn parse_page(&self, page: &str) -> Result<(Vec<Breach>, Option<String>), ParseFailure> {
        match OrParser::parse_body(page) {
            Ok(bs) => Ok((bs, None)),
            Err(e) => Err(e),
        }
    }
}

} // verus!

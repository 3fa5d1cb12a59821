//! Behavior of the source adapters on synthetic pages.

use breach_tracker::dates::Date;
use breach_tracker::dto::{BreachType, ClassificationType, Sensitivity, State};
use breach_tracker::parsers::ca_parser::CaParser;
use breach_tracker::parsers::hi_parser::HiParser;
use breach_tracker::parsers::md_parser::MdParser;
use breach_tracker::parsers::or_parser::OrParser;
use breach_tracker::parsers::wa_parser::WaParser;
use breach_tracker::retrievers::ca::CaRetriever;
use breach_tracker::retrievers::or::OrRetriever;

fn d(y: i32, m: u8, day: u8) -> Date {
    Date { year: y, month: m, day }
}

fn wa_row(reported: &str, link: &str, org: &str, breach: &str, count: &str, info: &str) -> String {
    format!(
        "a>b>c>{} <</td>a><a href=\"{}\">{}<</td>a>b>{} <</td>a>{} </td>a>{}</td>",
        reported, link, org, breach, count, info
    )
}

fn wa_page(row: &str) -> String {
    format!("pre<tbody>first</tbody><tbody>junk<tr {}</tbody>", row)
}

#[test]
fn wa_page_parses_rows_into_records() {
    let row = wa_row(
        "05/01/2024",
        "https://example.gov/n1",
        "Acme Corp",
        "04/20/2024",
        "1234",
        "Name; Social Security Number",
    );
    let got = WaParser::parse_body(&wa_page(&row)).expect("page should parse");
    assert_eq!(got.len(), 1);
    let b = &got[0];
    assert_eq!(b.date_reported, d(2024, 5, 1));
    assert_eq!(b.organization_name, "Acme Corp");
    assert_eq!(b.date_of_breach, Some(d(2024, 4, 20)));
    assert_eq!(b.affected_count, Some(1234));
    assert_eq!(b.loc, State::WA);
    assert_eq!(b.link.as_deref(), Some("https://example.gov/n1"));
    assert_eq!(
        b.leaked_info,
        vec![
            ClassificationType::Name(Sensitivity::Low),
            ClassificationType::SocialSecurity(Sensitivity::High),
        ]
    );
}

#[test]
fn wa_unknown_count_is_zero_and_bad_date_fails_the_page() {
    let ok_row = wa_row("05/01/2024", "l", "Org", "04/20/2024", "Unknown", "Name");
    let got = WaParser::parse_body(&wa_page(&ok_row)).expect("page should parse");
    assert_eq!(got[0].affected_count, Some(0));

    let bad_row = wa_row("99/99/2024", "l", "Org", "04/20/2024", "5", "Name");
    let err = WaParser::parse_body(&wa_page(&bad_row)).unwrap_err();
    // The failure carries the offending row.
    assert_eq!(err.fragment, bad_row);
}

#[test]
fn wa_page_without_the_table_fails() {
    assert!(WaParser::parse_body("<html>nothing here</html>").is_err());
    // A present table body without rows is a legitimate empty page.
    let got = WaParser::parse_body("pre<tbody>first</tbody><tbody>no rows</tbody>").unwrap();
    assert!(got.is_empty());
}

#[test]
fn or_row_with_two_breach_dates_yields_two_records() {
    let row = "a><a href=\"/notice/1\">Beaver Books<</td>a>01/02/2024,1/5/24<</td>a>01/10/2024<</td>";
    let page = format!("x<tbody>junk<tr>{}</tbody>", row);
    let got = OrParser::parse_body(&page).expect("page should parse");
    assert_eq!(got.len(), 2);
    assert_eq!(got[0].organization_name, "Beaver Books");
    assert_eq!(got[0].date_reported, d(2024, 1, 10));
    assert_eq!(got[0].date_of_breach, Some(d(2024, 1, 2)));
    // A comma-separated part of fewer than ten characters counts as an
    // unknown breach date.
    assert_eq!(got[1].date_of_breach, None);
    assert_eq!(got[0].link.as_deref(), Some("https://justice.oregon.gov/notice/1"));
    assert_eq!(got[0].loc, State::OR);
}

#[test]
fn ca_machine_readable_dates_and_na() {
    let row = "cls><td m><a href=\"https://oag.example/n\">Golden Gate Groceries<</td>a>m content=\"2024-02-03T00:00:00\" content=\"2024-02-05T00:00:00\" </td>a>02/10/2024<</td>";
    let page = format!("x<tbody>junk<tr {}</tbody>", row);
    let got = CaParser::parse_body(&page).expect("page should parse");
    assert_eq!(got.len(), 2);
    assert_eq!(got[0].organization_name, "Golden Gate Groceries");
    assert_eq!(got[0].link.as_deref(), Some("https://oag.example/n"));
    assert_eq!(got[0].date_of_breach, Some(d(2024, 2, 3)));
    assert_eq!(got[1].date_of_breach, Some(d(2024, 2, 5)));
    assert_eq!(got[0].date_reported, d(2024, 2, 10));
    assert_eq!(got[0].loc, State::CA);

    let row_na = "cls><td m><a href=\"https://oag.example/n\">Org Two<</td>a>says n/a here</td>a>02/11/2024<</td>";
    let page2 = format!("x<tbody>junk<tr {}</tbody>", row_na);
    let got2 = CaParser::parse_body(&page2).expect("page should parse");
    assert_eq!(got2.len(), 1);
    assert_eq!(got2[0].date_of_breach, None);
}

#[test]
fn hi_row_parses_fixed_vocabulary_and_count() {
    let row = "a>b> 2024/05.17 rest</td>case</td>a>Aloha Airlines<</td>a>Phishing<</td>a>12,345<</td>a><a href=\"https://cca.example/n\">x</td>";
    let page = format!("x<tbody class=\"row-hover\">junk<tr {}</tbody>", row);
    let got = HiParser::parse_body(&page).expect("page should parse");
    assert_eq!(got.len(), 1);
    let b = &got[0];
    assert_eq!(b.date_reported, d(2024, 5, 17));
    assert_eq!(b.organization_name, "Aloha Airlines");
    assert!(matches!(b.breach_type, BreachType::Phishing));
    assert_eq!(b.affected_count_local, Some(12345));
    assert_eq!(b.affected_count, None);
    assert_eq!(b.link.as_deref(), Some("https://cca.example/n"));
    assert_eq!(b.loc, State::HI);
}

#[test]
fn md_payload_parses_rows_and_token() {
    let payload = "{\"Row\":[{\"Case_x0020_Title\":\"Chesapeake Clinic\",\"FileRef\":\"pages/notice7.pdf\",\"Date_x0020_Received\":\"5/17/2022\",\"No_x0020_of_x0020_MD_x0020_Residents\":\" 2,500 \",\"Information_x0020_Breached\":\"Names and SSN\",\"How_x0020_Breach_x0020_Occurred\":\"Phishing email\"}],\"NextHref\":\"/x/breachnotices.aspx?Paged=TRUE&p_ID=30&View=abc\"}";
    let (got, token) = MdParser::parse_body(payload).expect("payload should parse");
    assert_eq!(got.len(), 1);
    let b = &got[0];
    assert_eq!(b.date_reported, d(2022, 5, 17));
    assert_eq!(b.organization_name, "Chesapeake Clinic");
    assert_eq!(b.affected_count_local, Some(2500));
    assert_eq!(
        b.link.as_deref(),
        Some("https://www.marylandattorneygeneral.gov/pages/notice7.pdf")
    );
    assert!(matches!(b.breach_type, BreachType::Phishing));
    assert_eq!(
        b.leaked_info,
        vec![
            ClassificationType::Name(Sensitivity::Low),
            ClassificationType::SocialSecurity(Sensitivity::High),
        ]
    );
    assert_eq!(token.as_deref(), Some("&Paged=TRUE&p_ID=30&"));
}

#[test]
fn md_empty_received_date_gets_the_sentinel_day() {
    let payload = "{\"Row\":[{\"Case_x0020_Title\":\"Old Case\",\"FileRef\":\"pages/old.pdf\",\"Date_x0020_Received\":\"\",\"No_x0020_of_x0020_MD_x0020_Residents\":\"none\",\"Information_x0020_Breached\":\"Names\",\"How_x0020_Breach_x0020_Occurred\":\"unclear\"}],\"NextHref\":null}";
    let (got, token) = MdParser::parse_body(payload).expect("payload should parse");
    assert_eq!(got[0].date_reported, d(1, 1, 1));
    assert_eq!(got[0].affected_count_local, None);
    assert!(token.is_none());
}

#[test]
fn md_malformed_payload_is_a_parse_failure() {
    assert!(MdParser::parse_body("this is not json").is_err());
    assert!(MdParser::parse_body("{\"NoRows\":true}").is_err());
}

#[test]
fn legacy_retrievers_share_the_adapters() {
    assert!(CaRetriever {}.parse_page("<p>no table</p>").is_err());
    assert!(OrRetriever {}.parse_page("<p>no table</p>").is_err());
    let got = CaRetriever {}.parse_page("x<tbody>no rows</tbody>").unwrap();
    assert!(got.is_empty());
    let got2 = OrRetriever {}.parse_page("x<tbody>no rows</tbody>").unwrap();
    assert!(got2.is_empty());
    assert_eq!(CaRetriever::create_headers().len(), 2);
    assert_eq!(OrRetriever::create_headers().len(), 3);
}

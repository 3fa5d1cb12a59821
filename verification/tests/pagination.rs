//! Behavior of the pagination controller and the run configuration.

use breach_tracker::dates::Date;
use breach_tracker::dto::{Breach, BreachType, State};
use breach_tracker::process::{
    create_headers, get_ca_options, get_md_options, get_page_incrementer, get_parser,
    get_retriever, get_url_generator, get_wa_options, ParserKind, Processor, ProcessorBuilder,
    RetrieverChoice,
};
use breach_tracker::retrievers::multi_page::MultiPage;
use breach_tracker::retrievers::single_page::SinglePage;
use breach_tracker::retrievers::{CrawlState, PageIncrementer, RetrieverOptions, UrlGenerator, WebRequestType};

fn d(y: i32, m: u8, day: u8) -> Date {
    Date { year: y, month: m, day }
}

fn rec(org: &str, date: Date) -> Breach {
    Breach {
        id: 0,
        date_reported: date,
        organization_name: org.to_string(),
        date_of_breach: None,
        affected_count: None,
        affected_count_local: None,
        loc: State::WA,
        breach_type: BreachType::Unknown,
        link: None,
        leaked_info: Vec::new(),
    }
}

fn options(cutoff: Date) -> RetrieverOptions {
    RetrieverOptions {
        collect_until: cutoff,
        base_url: "https://example.gov/list?page=".to_string(),
        headers: Vec::new(),
        state: State::WA,
        request_type: WebRequestType::Get,
    }
}

#[test]
fn cutoff_stops_the_crawl_and_filters_old_records() {
    // Pages of strictly decreasing dates; with the cutoff between the
    // second and third record, exactly the records after the cutoff come
    // back, and the crawl stops on the second page.
    let pages: Vec<(Vec<Breach>, Option<String>)> = vec![
        (vec![rec("a", d(2024, 5, 1)), rec("b", d(2024, 4, 20))], None),
        (vec![rec("c", d(2024, 4, 10)), rec("d", d(2024, 3, 1))], None),
    ];
    let opts = options(d(2024, 4, 15));
    let got = MultiPage {}.retrieve(pages, &opts, &PageIncrementer::ByOne);
    assert_eq!(got.len(), 2);
    assert_eq!(got[0].organization_name, "a");
    assert_eq!(got[1].organization_name, "b");
}

#[test]
fn empty_page_stops_the_crawl() {
    let pages: Vec<(Vec<Breach>, Option<String>)> = vec![
        (vec![rec("a", d(2024, 5, 1))], None),
        (Vec::new(), None),
        (vec![rec("zombie", d(2024, 5, 2))], None),
    ];
    let opts = options(d(2024, 1, 1));
    let got = MultiPage {}.retrieve(pages, &opts, &PageIncrementer::ByOne);
    // The empty second page ends the crawl; the page after it is never
    // reached.
    assert_eq!(got.len(), 1);
}

#[test]
fn terminal_page_served_twice_is_collected_once() {
    let page = vec![rec("a", d(2024, 5, 1)), rec("b", d(2024, 4, 20))];
    let pages: Vec<(Vec<Breach>, Option<String>)> = vec![
        (page.clone(), None),
        (page.clone(), None),
    ];
    let opts = options(d(2024, 1, 1));
    let got = MultiPage {}.retrieve(pages, &opts, &PageIncrementer::ByOne);
    assert_eq!(got.len(), 2);
    assert_eq!(got[0].organization_name, "a");
    assert_eq!(got[1].organization_name, "b");
}

#[test]
fn token_exhaustion_stops_the_crawl() {
    let pages: Vec<(Vec<Breach>, Option<String>)> = vec![
        (vec![rec("a", d(2024, 5, 3))], Some("cursor-1".to_string())),
        (vec![rec("b", d(2024, 5, 2))], None),
        (vec![rec("c", d(2024, 5, 1))], None),
    ];
    let opts = options(d(2024, 1, 1));
    let got = MultiPage {}.retrieve(pages, &opts, &PageIncrementer::ByOne);
    // The second page hands back no token although the first did: the
    // cursor is exhausted and the crawl stops after appending it.
    assert_eq!(got.len(), 2);
}

#[test]
fn crawl_state_tracks_page_token_and_urls() {
    let opts = options(d(2024, 1, 1));
    let mut st = CrawlState::new();
    assert_eq!(
        st.next_url(&opts, &UrlGenerator::AppendPage).as_deref(),
        Some("https://example.gov/list?page=0")
    );
    st.crawl_step(
        vec![rec("a", d(2024, 5, 3))],
        Some("cursor-9".to_string()),
        &opts,
        &PageIncrementer::ByOne,
    );
    assert!(!st.done);
    assert_eq!(st.page, 1);
    // Once a cursor exists it names the next page instead of the index.
    assert_eq!(
        st.next_url(&opts, &UrlGenerator::AppendPage).as_deref(),
        Some("https://example.gov/list?page=cursor-9")
    );
    st.crawl_step(vec![], None, &opts, &PageIncrementer::ByOne);
    assert!(st.done);
    assert!(st.next_url(&opts, &UrlGenerator::AppendPage).is_none());
    assert_eq!(st.collected.len(), 1);
}

#[test]
fn single_page_returns_exactly_the_one_page() {
    let got = SinglePage {}.retrieve((vec![rec("a", d(2024, 5, 1))], Some("ignored".to_string())));
    assert_eq!(got.len(), 1);
    assert_eq!(got[0].organization_name, "a");
}

#[test]
fn url_generators_follow_their_jurisdiction() {
    assert_eq!(
        get_url_generator(&State::WA).generate("https://b/?page=", "3"),
        "https://b/?page=3"
    );
    assert_eq!(get_url_generator(&State::CA).generate("https://b/list", "3"), "https://b/list");
    assert_eq!(get_url_generator(&State::MD).generate("https://b/q", "0"), "https://b/q");
    assert_eq!(get_url_generator(&State::MD).generate("https://b/q", "30"), "https://b/q30");
}

#[test]
fn page_incrementers_follow_their_jurisdiction() {
    assert_eq!(get_page_incrementer(&State::WA).increment(4), 5);
    assert_eq!(get_page_incrementer(&State::OR).increment(4), 0);
    assert_eq!(get_page_incrementer(&State::MD).increment(30), 60);
}

#[test]
fn options_take_the_watermark_minus_one_day_or_the_epoch() {
    let with = get_wa_options(Some(d(2024, 5, 1)));
    assert_eq!(with.collect_until, d(2024, 4, 30));
    assert_eq!(with.state, State::WA);
    assert!(matches!(with.request_type, WebRequestType::Get));
    let without = get_ca_options(None);
    assert_eq!(without.collect_until, d(1970, 1, 1));
    let md = get_md_options(None);
    assert_eq!(md.len(), 4);
    assert_eq!(md[0].collect_until, d(-1, 1, 1));
    assert!(matches!(md[0].request_type, WebRequestType::Post));
    assert!(md[1].base_url.contains("%3B%232020%3B%23"));
}

#[test]
fn headers_follow_their_jurisdiction() {
    let wa = create_headers(State::WA);
    assert_eq!(wa.len(), 2);
    assert_eq!(wa[0], ("accept".to_string(), "*/*".to_string()));
    let md = create_headers(State::MD);
    assert_eq!(md.len(), 3);
    assert_eq!(md[2], ("content-length".to_string(), "0".to_string()));
}

#[test]
fn builder_rejects_an_empty_run() {
    assert!(ProcessorBuilder::new().build().is_err());
    let p: Processor = ProcessorBuilder::new()
        .process_option(options(d(2024, 1, 1)))
        .process_options(vec![options(d(2024, 1, 2)), options(d(2024, 1, 3))])
        .build()
        .unwrap();
    assert_eq!(p.options().len(), 3);
}

#[test]
fn dispatch_matches_the_jurisdictions() {
    assert!(matches!(get_retriever(&State::WA), RetrieverChoice::Multi(_)));
    assert!(matches!(get_retriever(&State::HI), RetrieverChoice::Single(_)));
    assert!(matches!(get_parser(&State::MD), ParserKind::Md(_)));
    // The dispatched adapter parses like the adapter itself.
    assert!(get_parser(&State::WA).parse_page("<html>nothing</html>").is_err());
    let got = get_parser(&State::WA)
        .parse_page("pre<tbody>first</tbody><tbody>no rows</tbody>")
        .unwrap();
    assert!(got.0.is_empty());
    assert!(got.1.is_none());
}

//! Behavior of the dedup/persistence engine and the watermark tracker.

use breach_tracker::data::Store;
use breach_tracker::dates::Date;
use breach_tracker::dto::{Breach, BreachType, ClassificationType, Sensitivity, State};
use breach_tracker::process::process_breaches;

fn record(org: &str, date: Date, cats: Vec<ClassificationType>) -> Breach {
    Breach {
        id: 0,
        date_reported: date,
        organization_name: org.to_string(),
        date_of_breach: None,
        affected_count: Some(10),
        affected_count_local: None,
        loc: State::WA,
        breach_type: BreachType::Phishing,
        link: Some("https://example.gov/notice".to_string()),
        leaked_info: cats,
    }
}

fn d(y: i32, m: u8, day: u8) -> Date {
    Date { year: y, month: m, day }
}

#[test]
fn storing_twice_is_idempotent() {
    let mut store = Store::new();
    let r = record(
        "Acme Corp",
        d(2024, 5, 1),
        vec![
            ClassificationType::Name(Sensitivity::Low),
            ClassificationType::SocialSecurity(Sensitivity::High),
        ],
    );
    let first = store.create_breach_data(&r).unwrap();
    assert_eq!(first, (1, 2));
    let second = store.create_breach_data(&r).unwrap();
    assert_eq!(second, (0, 0));
}

#[test]
fn repeated_category_within_one_record_is_stored_once() {
    let mut store = Store::new();
    let r = record(
        "Acme Corp",
        d(2024, 5, 1),
        vec![
            ClassificationType::Name(Sensitivity::Low),
            ClassificationType::Name(Sensitivity::Low),
            ClassificationType::Email(Sensitivity::Low),
        ],
    );
    let res = store.create_breach_data(&r).unwrap();
    assert_eq!(res, (1, 2));
}

#[test]
fn same_identity_enriches_with_new_categories_only() {
    let mut store = Store::new();
    let r1 = record(
        "Acme Corp",
        d(2024, 5, 1),
        vec![ClassificationType::Name(Sensitivity::Low)],
    );
    let r2 = record(
        "Acme Corp",
        d(2024, 5, 1),
        vec![
            ClassificationType::Name(Sensitivity::Low),
            ClassificationType::PassportNumber(Sensitivity::Medium),
        ],
    );
    assert_eq!(store.create_breach_data(&r1).unwrap(), (1, 1));
    // The repeated category is skipped; exactly the new one is inserted,
    // and no second disclosure row appears.
    assert_eq!(store.create_breach_data(&r2).unwrap(), (0, 1));
    let breaches = store.get_breaches();
    assert_eq!(breaches.len(), 1);
    assert_eq!(breaches[0].leaked_info.len(), 2);
}

#[test]
fn different_identity_is_a_new_disclosure() {
    let mut store = Store::new();
    let r1 = record("Acme Corp", d(2024, 5, 1), vec![]);
    let mut r2 = record("Acme Corp", d(2024, 5, 2), vec![]);
    r2.loc = State::WA;
    let r3 = {
        let mut r = record("Other Org", d(2024, 5, 1), vec![]);
        r.loc = State::WA;
        r
    };
    assert_eq!(store.create_breach_data(&r1).unwrap(), (1, 0));
    assert_eq!(store.create_breach_data(&r2).unwrap(), (1, 0));
    assert_eq!(store.create_breach_data(&r3).unwrap(), (1, 0));
    assert_eq!(store.get_breaches().len(), 3);
}

#[test]
fn stored_fields_come_back_unchanged() {
    let mut store = Store::new();
    let r = record(
        "Acme Corp",
        d(2023, 12, 31),
        vec![ClassificationType::Unknown("mystery data".to_string(), Sensitivity::Unknown)],
    );
    store.create_breach_data(&r).unwrap();
    let breaches = store.get_breaches();
    assert_eq!(breaches.len(), 1);
    let b = &breaches[0];
    assert_eq!(b.organization_name, "Acme Corp");
    assert_eq!(b.date_reported, d(2023, 12, 31));
    assert_eq!(b.affected_count, Some(10));
    assert_eq!(b.link.as_deref(), Some("https://example.gov/notice"));
    assert!(matches!(b.breach_type, BreachType::Phishing));
    assert_eq!(
        b.leaked_info,
        vec![ClassificationType::Unknown("mystery data".to_string(), Sensitivity::Unknown)]
    );
}

#[test]
fn watermark_is_recorded_only_after_an_insertion() {
    let mut store = Store::new();
    let rs: Vec<Breach> = vec![record("Acme Corp", d(2024, 5, 1), vec![])];
    let inserted = process_breaches(&mut store, State::WA, &rs);
    assert_eq!(inserted, 1);
    let wm = store.get_last_retrieved(State::WA).expect("watermark expected");
    assert_eq!(wm.retrieved_date, d(2024, 5, 1));
    // A second run with the same record inserts nothing and must not
    // advance the watermark.
    let inserted2 = process_breaches(&mut store, State::WA, &rs);
    assert_eq!(inserted2, 0);
    let wm2 = store.get_last_retrieved(State::WA).expect("watermark still there");
    assert_eq!(wm2.retrieved_date, d(2024, 5, 1));
    assert_eq!(wm2.id, wm.id);
}

#[test]
fn watermark_takes_the_most_recent_inserted_date() {
    let mut store = Store::new();
    // An older record was already stored; the run re-sends it plus two
    // new ones out of order.
    let old = record("Old Org", d(2024, 6, 1), vec![]);
    store.create_breach_data(&old).unwrap();
    let rs: Vec<Breach> = vec![
        record("Old Org", d(2024, 6, 1), vec![]),
        record("Mid Org", d(2024, 4, 20), vec![]),
        record("New Org", d(2024, 5, 5), vec![]),
    ];
    let inserted = process_breaches(&mut store, State::WA, &rs);
    assert_eq!(inserted, 2);
    let wm = store.get_last_retrieved(State::WA).unwrap();
    // The re-sent record was not inserted, so its newer date must not
    // win; the newest *inserted* date does.
    assert_eq!(wm.retrieved_date, d(2024, 5, 5));
}

#[test]
fn latest_watermark_per_jurisdiction_is_independent() {
    let mut store = Store::new();
    let wa: Vec<Breach> = vec![record("A", d(2024, 1, 2), vec![])];
    let hi: Vec<Breach> = {
        let mut r = record("B", d(2024, 3, 4), vec![]);
        r.loc = State::HI;
        vec![r]
    };
    process_breaches(&mut store, State::WA, &wa);
    process_breaches(&mut store, State::HI, &hi);
    assert_eq!(store.get_last_retrieved(State::WA).unwrap().retrieved_date, d(2024, 1, 2));
    assert_eq!(store.get_last_retrieved(State::HI).unwrap().retrieved_date, d(2024, 3, 4));
    assert!(store.get_last_retrieved(State::OR).is_none());
}

#[test]
fn codes_round_trip() {
    assert_eq!(State::WA.code(), 1);
    assert_eq!(State::from_code(5), Some(State::HI));
    assert_eq!(State::from_code(6), None);
    assert_eq!(BreachType::Ransomware.code(), 3);
    assert_eq!(BreachType::from_code(8), Some(BreachType::Malicious3rdParty));
    assert_eq!(BreachType::from_code(9), None);
    assert_eq!(ClassificationType::DriversLicense(Sensitivity::Medium).code(), 9);
    assert_eq!(
        ClassificationType::from_parts(21, String::new()),
        Some(ClassificationType::EmploymentInformation(Sensitivity::Low))
    );
    assert_eq!(ClassificationType::from_parts(22, String::new()), None);
}

//! Behavior of the classification normalizer, both matching styles.

use breach_tracker::classify::{md_classify_token, md_leaked_info, md_parse_breach_type, wa_classifications};
use breach_tracker::dto::{BreachType, ClassificationType, Sensitivity};

fn chars(s: &str) -> Vec<char> {
    s.chars().collect()
}

#[test]
fn wa_exact_phrases_map_to_their_categories() {
    let got = wa_classifications(&chars("Name; Social Security Number"));
    assert_eq!(
        got,
        vec![
            ClassificationType::Name(Sensitivity::Low),
            ClassificationType::SocialSecurity(Sensitivity::High),
        ]
    );
}

#[test]
fn wa_one_phrase_may_yield_two_categories() {
    let got = wa_classifications(&chars("Health Insurance Policy or ID Number"));
    assert_eq!(
        got,
        vec![
            ClassificationType::HealthInsurancePolicy(Sensitivity::Medium),
            ClassificationType::MedicalInformation(Sensitivity::Medium),
        ]
    );
}

#[test]
fn wa_unrecognized_phrase_becomes_unknown_with_trimmed_text() {
    let got = wa_classifications(&chars("  Carrier Pigeon Routes  "));
    assert_eq!(
        got,
        vec![ClassificationType::Unknown("Carrier Pigeon Routes".to_string(), Sensitivity::Unknown)]
    );
}

#[test]
fn md_token_matching_both_license_and_state_id_yields_both() {
    // One token names both a driver's license and a state identification
    // number: every matching category is emitted, not just the first.
    let got = md_classify_token(&chars("driver's license and state id numbers"));
    assert!(got.contains(&ClassificationType::DriversLicense(Sensitivity::Medium)));
    assert!(got.contains(&ClassificationType::StateId(Sensitivity::Medium)));
}

#[test]
fn md_unknown_token_degrades_to_exactly_one_unknown_item() {
    let got = md_classify_token(&chars("quantum flux readings"));
    assert_eq!(
        got,
        vec![ClassificationType::Unknown("quantum flux readings".to_string(), Sensitivity::Unknown)]
    );
    // Determinism: the same input always classifies the same way.
    let again = md_classify_token(&chars("quantum flux readings"));
    assert_eq!(got, again);
}

#[test]
fn md_descriptor_is_cleaned_split_and_lower_cased() {
    let got = md_leaked_info(&chars("Names and/or Passport Numbers"));
    assert_eq!(
        got,
        vec![
            ClassificationType::Name(Sensitivity::Low),
            ClassificationType::PassportNumber(Sensitivity::Medium),
        ]
    );
}

#[test]
fn md_unmatched_descriptor_token_keeps_lower_cased_trimmed_text() {
    let got = md_leaked_info(&chars("Sundial Calibration, SSN"));
    assert_eq!(
        got,
        vec![
            ClassificationType::Unknown("sundial calibration".to_string(), Sensitivity::Unknown),
            ClassificationType::SocialSecurity(Sensitivity::High),
        ]
    );
}

#[test]
fn empty_tokens_are_dropped_never_emitted_as_unknown() {
    // A descriptor of only delimiters has only empty tokens.
    assert!(md_leaked_info(&chars(",")).is_empty());
    assert!(md_leaked_info(&chars("  ,  ")).is_empty());
    assert!(md_classify_token(&chars("")).is_empty());
    // A trailing delimiter adds nothing.
    let got = wa_classifications(&chars("Name; "));
    assert_eq!(got, vec![ClassificationType::Name(Sensitivity::Low)]);
}

#[test]
fn md_chain_takes_only_the_first_alternative() {
    // "name" wins over "password" within the exclusive first group.
    let got = md_classify_token(&chars("name or password"));
    assert_eq!(got, vec![ClassificationType::Name(Sensitivity::Low)]);
}

#[test]
fn md_breach_type_keywords() {
    assert!(matches!(
        md_parse_breach_type(&chars("Ransomware attack on servers")),
        BreachType::Ransomware
    ));
    assert!(matches!(
        md_parse_breach_type(&chars("server encryption")),
        BreachType::Ransomware
    ));
    assert!(matches!(
        md_parse_breach_type(&chars("An unauthorized party accessed files")),
        BreachType::HackerUnauthorizedAccess
    ));
    assert!(matches!(
        md_parse_breach_type(&chars("Phishing email campaign")),
        BreachType::Phishing
    ));
    assert!(matches!(
        md_parse_breach_type(&chars("third-party vendor incident")),
        BreachType::Malicious3rdParty
    ));
    assert!(matches!(
        md_parse_breach_type(&chars("records inadvertently being disclosed")),
        BreachType::ReleaseOrDisplayOfInformation
    ));
    assert!(matches!(
        md_parse_breach_type(&chars("taken by a former employee")),
        BreachType::TheftByEmployeeOrContractor
    ));
    assert!(matches!(md_parse_breach_type(&chars("meteor strike")), BreachType::Unknown));
}

//! The classification normalizer: free-text disclosure descriptions are
//! turned into ordered lists of classified personal-information categories.
//!
//! Two matching styles exist. Sources with a controlled vocabulary are
//! matched phrase for phrase (`wa_classifications`); sources with free-form
//! prose are matched by keyword groups (`md_leaked_info`), where one token
//! may legitimately match several categories and every match is emitted.
//! A token matching nothing degrades to the unknown category carrying the
//! trimmed, lower-cased token; a token that is empty after trimming is
//! dropped, never emitted as unknown.

use vstd::prelude::*;
use crate::dto::{class_view, classes_view, wf_class, BreachType, ClassificationType, Sensitivity};
use crate::text::{
    chars_eq, chars_to_string, contains, contains_seq, lower, replace_seq, spec_lower,
    spec_replace, spec_split, spec_trim, split_seq, to_chars, trim,
};

verus! {

/// Extends a classification view by category `code` when `b` holds.
pub open spec fn add_cond(v: Seq<(int, Seq<char>)>, b: bool, code: int) -> Seq<(int, Seq<char>)> {
    if b {
        v.push((code, Seq::<char>::empty()))
    } else {
        v
    }
}

/// Appends one well-formed classification.
fn push_class(out: &mut Vec<ClassificationType>, c: ClassificationType)
    requires
        wf_class(c),
        forall|i: int| 0 <= i < old(out)@.len() ==> wf_class(#[trigger] old(out)@[i]),
    ensures
        final(out)@ == old(out)@.push(c),
        classes_view(final(out)@) == classes_view(old(out)@).push(class_view(c)),
        forall|i: int| 0 <= i < final(out)@.len() ==> wf_class(#[trigger] final(out)@[i]),
{
    let ghost prior = out@;
    out.push(c);
    proof {
        assert(classes_view(out@) =~= classes_view(prior).push(class_view(c)));
    }
}

fn has(t: &Vec<char>, lit: &str) -> (r: bool)
    ensures
        r == contains_seq(t@, lit@),
{
    let p = to_chars(lit);
    contains(t, &p)
}

fn is_lit(t: &Vec<char>, lit: &str) -> (r: bool)
    ensures
        r == (t@ == lit@),
{
    let p = to_chars(lit);
    chars_eq(t, &p)
}

// The keyword groups of the free-form prose matcher. The first six are
// mutually exclusive alternatives tried in order; the rest fire
// independently, so one token may yield several categories.
#[verifier::opaque]
pub open spec fn md_name_guard(t: Seq<char>) -> bool {
    contains_seq(t, "name"@)
}

#[verifier::opaque]
pub open spec fn md_password_guard(t: Seq<char>) -> bool {
    contains_seq(t, "password"@)
}

#[verifier::opaque]
pub open spec fn md_username_guard(t: Seq<char>) -> bool {
    contains_seq(t, "username"@) || contains_seq(t, "user id"@)
}

#[verifier::opaque]
pub open spec fn md_dob_guard(t: Seq<char>) -> bool {
    (contains_seq(t, "date"@) && contains_seq(t, "birth"@)) || contains_seq(t, "dob"@)
}

#[verifier::opaque]
pub open spec fn md_ssn_guard(t: Seq<char>) -> bool {
    contains_seq(t, "social security"@) || contains_seq(t, "ssn"@) || t == "ss #"@
}

#[verifier::opaque]
pub open spec fn md_address_guard(t: Seq<char>) -> bool {
    (contains_seq(t, "address"@) && !contains_seq(t, "email"@)) || contains_seq(t, "zip code"@)
}

#[verifier::opaque]
pub open spec fn md_student_guard(t: Seq<char>) -> bool {
    contains_seq(t, "student"@) && contains_seq(t, "id"@)
}

#[verifier::opaque]
pub open spec fn md_demographic_guard(t: Seq<char>) -> bool {
    contains_seq(t, "personal information"@) || contains_seq(t, "race"@) || contains_seq(t, "age"@)
        || contains_seq(t, "gender"@) || contains_seq(t, "education"@) || contains_seq(
        t,
        "marital"@,
    ) || contains_seq(t, "demographic"@) || contains_seq(t, "nationality"@)
}

#[verifier::opaque]
pub open spec fn md_voter_guard(t: Seq<char>) -> bool {
    contains_seq(t, "voter"@)
}

#[verifier::opaque]
pub open spec fn md_employment_guard(t: Seq<char>) -> bool {
    contains_seq(t, "employee"@) || contains_seq(t, "employment"@) || contains_seq(t, "employer"@)
        || contains_seq(t, "work"@) || contains_seq(t, "human resource"@)
}

#[verifier::opaque]
pub open spec fn md_secq_guard(t: Seq<char>) -> bool {
    contains_seq(t, "security"@) && (contains_seq(t, "question"@) || contains_seq(t, "code"@)
        || contains_seq(t, "word"@))
}

#[verifier::opaque]
pub open spec fn md_passport_guard(t: Seq<char>) -> bool {
    contains_seq(t, "passport"@)
}

#[verifier::opaque]
pub open spec fn md_dl_guard(t: Seq<char>) -> bool {
    contains_seq(t, "driver"@) && contains_seq(t, "license"@)
}

#[verifier::opaque]
pub open spec fn md_stateid_guard(t: Seq<char>) -> bool {
    (contains_seq(t, "state"@) || contains_seq(t, "government"@) || contains_seq(t, "federal"@))
        && contains_seq(t, "id"@)
}

#[verifier::opaque]
pub open spec fn md_email_guard(t: Seq<char>) -> bool {
    contains_seq(t, "email"@)
}

#[verifier::opaque]
pub open spec fn md_phone_guard(t: Seq<char>) -> bool {
    contains_seq(t, "phone number"@) || contains_seq(t, "tele #"@) || contains_seq(t, "tel num"@)
}

#[verifier::opaque]
pub open spec fn md_financial_guard(t: Seq<char>) -> bool {
    contains_seq(t, "w-9"@) || contains_seq(t, "pay"@) || contains_seq(t, "401k"@) || contains_seq(
        t,
        "dependent"@,
    ) || contains_seq(t, "beneficiar"@) || contains_seq(t, "withholding"@) || contains_seq(
        t,
        "1095"@,
    ) || contains_seq(t, "1098"@) || contains_seq(t, "tin"@) || contains_seq(t, "w4"@)
        || contains_seq(t, "billed"@) || contains_seq(t, "billing"@) || contains_seq(t, "income"@)
        || contains_seq(t, "payroll"@) || contains_seq(t, "w2"@) || contains_seq(t, "w-2"@)
        || contains_seq(t, "1099"@) || contains_seq(t, "compensation"@) || contains_seq(
        t,
        "charges"@,
    ) || contains_seq(t, "donation"@) || contains_seq(t, "purchase"@) || contains_seq(
        t,
        "transaction"@,
    ) || contains_seq(t, "financial"@) || contains_seq(t, "payer information"@) || contains_seq(
        t,
        "loan"@,
    ) || contains_seq(t, "tax"@)
}

#[verifier::opaque]
pub open spec fn md_banking_guard(t: Seq<char>) -> bool {
    contains_seq(t, "pin"@) || contains_seq(t, "routing"@) || contains_seq(t, "direct deposit"@)
        || contains_seq(t, "bank"@) || contains_seq(t, "debit"@) || contains_seq(
        t,
        "payment card"@,
    ) || contains_seq(t, "credit"@) || contains_seq(t, "cvv"@) || contains_seq(t, "benefit"@)
        || contains_seq(t, "wage"@) || contains_seq(t, "card number"@)
}

#[verifier::opaque]
pub open spec fn md_medical_guard(t: Seq<char>) -> bool {
    contains_seq(t, "immunization"@) || contains_seq(t, "medication"@) || contains_seq(t, "drugs"@)
        || contains_seq(t, "provider"@) || contains_seq(t, "procedure"@) || contains_seq(
        t,
        "illness"@,
    ) || contains_seq(t, "injury"@) || contains_seq(t, "hipaa"@) || contains_seq(t, "vaccination"@)
        || contains_seq(t, "prescription"@) || contains_seq(t, "dentist"@) || contains_seq(
        t,
        "diagnosis"@,
    ) || contains_seq(t, "physician"@) || contains_seq(t, "medical"@) || contains_seq(
        t,
        "treatment"@,
    ) || contains_seq(t, "health info"@) || contains_seq(t, "patient"@) || contains_seq(
        t,
        "clinic"@,
    ) || contains_seq(t, "visit"@) || contains_seq(t, "dental"@) || contains_seq(t, "vision"@)
}

#[verifier::opaque]
pub open spec fn md_health_insurance_guard(t: Seq<char>) -> bool {
    contains_seq(t, "deductible"@) || contains_seq(t, "group plan"@) || contains_seq(
        t,
        "health insurance"@,
    ) || contains_seq(t, "medicare"@) || contains_seq(t, "medicade"@) || contains_seq(
        t,
        "medicaid"@,
    ) || contains_seq(t, "insurance"@) || contains_seq(t, "health plan"@)
}

fn md_name(t: &Vec<char>) -> (r: bool)
    ensures
        r == md_name_guard(t@),
{
    proof {
        reveal(md_name_guard);
    }
    has(t, "name")
}

fn md_password(t: &Vec<char>) -> (r: bool)
    ensures
        r == md_password_guard(t@),
{
    proof {
        reveal(md_password_guard);
    }
    has(t, "password")
}

fn md_username(t: &Vec<char>) -> (r: bool)
    ensures
        r == md_username_guard(t@),
{
    proof {
        reveal(md_username_guard);
    }
    has(t, "username") || has(t, "user id")
}

fn md_dob(t: &Vec<char>) -> (r: bool)
    ensures
        r == md_dob_guard(t@),
{
    proof {
        reveal(md_dob_guard);
    }
    (has(t, "date") && has(t, "birth")) || has(t, "dob")
}

fn md_ssn(t: &Vec<char>) -> (r: bool)
    ensures
        r == md_ssn_guard(t@),
{
    proof {
        reveal(md_ssn_guard);
    }
    has(t, "social security") || has(t, "ssn") || is_lit(t, "ss #")
}

fn md_address(t: &Vec<char>) -> (r: bool)
    ensures
        r == md_address_guard(t@),
{
    proof {
        reveal(md_address_guard);
    }
    {
        let adr = has(t, "address");
        let eml = has(t, "email");
        (adr && !eml) || has(t, "zip code")
    }
}

fn md_student(t: &Vec<char>) -> (r: bool)
    ensures
        r == md_student_guard(t@),
{
    proof {
        reveal(md_student_guard);
    }
    has(t, "student") && has(t, "id")
}

fn md_demographic(t: &Vec<char>) -> (r: bool)
    ensures
        r == md_demographic_guard(t@),
{
    proof {
        reveal(md_demographic_guard);
    }
    has(t, "personal information") || has(t, "race") || has(t, "age") || has(t, "gender")
        || has(t, "education") || has(t, "marital") || has(t, "demographic") || has(t, "nationality")
}

fn md_voter(t: &Vec<char>) -> (r: bool)
    ensures
        r == md_voter_guard(t@),
{
    proof {
        reveal(md_voter_guard);
    }
    has(t, "voter")
}

fn md_employment(t: &Vec<char>) -> (r: bool)
    ensures
        r == md_employment_guard(t@),
{
    proof {
        reveal(md_employment_guard);
    }
    has(t, "employee") || has(t, "employment") || has(t, "employer") || has(t, "work")
        || has(t, "human resource")
}

fn md_secq(t: &Vec<char>) -> (r: bool)
    ensures
        r == md_secq_guard(t@),
{
    proof {
        reveal(md_secq_guard);
    }
    has(t, "security") && (has(t, "question") || has(t, "code") || has(t, "word"))
}

fn md_passport(t: &Vec<char>) -> (r: bool)
    ensures
        r == md_passport_guard(t@),
{
    proof {
        reveal(md_passport_guard);
    }
    has(t, "passport")
}

fn md_dl(t: &Vec<char>) -> (r: bool)
    ensures
        r == md_dl_guard(t@),
{
    proof {
        reveal(md_dl_guard);
    }
    has(t, "driver") && has(t, "license")
}

fn md_stateid(t: &Vec<char>) -> (r: bool)
    ensures
        r == md_stateid_guard(t@),
{
    proof {
        reveal(md_stateid_guard);
    }
    (has(t, "state") || has(t, "government") || has(t, "federal")) && has(t, "id")
}

fn md_email(t: &Vec<char>) -> (r: bool)
    ensures
        r == md_email_guard(t@),
{
    proof {
        reveal(md_email_guard);
    }
    has(t, "email")
}

fn md_phone(t: &Vec<char>) -> (r: bool)
    ensures
        r == md_phone_guard(t@),
{
    proof {
        reveal(md_phone_guard);
    }
    has(t, "phone number") || has(t, "tele #") || has(t, "tel num")
}

fn md_financial(t: &Vec<char>) -> (r: bool)
    ensures
        r == md_financial_guard(t@),
{
    proof {
        reveal(md_financial_guard);
    }
    has(t, "w-9") || has(t, "pay") || has(t, "401k") || has(t, "dependent") || has(t,
        "beneficiar") || has(t, "withholding") || has(t, "1095") || has(t, "1098") || has(t, "tin")
        || has(t, "w4") || has(t, "billed") || has(t, "billing") || has(t, "income") || has(t,
        "payroll") || has(t, "w2") || has(t, "w-2") || has(t, "1099") || has(t, "compensation")
        || has(t, "charges") || has(t, "donation") || has(t, "purchase") || has(t, "transaction")
        || has(t, "financial") || has(t, "payer information") || has(t, "loan") || has(t, "tax")
}

fn md_banking(t: &Vec<char>) -> (r: bool)
    ensures
        r == md_banking_guard(t@),
{
    proof {
        reveal(md_banking_guard);
    }
    has(t, "pin") || has(t, "routing") || has(t, "direct deposit") || has(t, "bank") || has(t,
        "debit") || has(t, "payment card") || has(t, "credit") || has(t, "cvv") || has(t,
        "benefit") || has(t, "wage") || has(t, "card number")
}

fn md_medical(t: &Vec<char>) -> (r: bool)
    ensures
        r == md_medical_guard(t@),
{
    proof {
        reveal(md_medical_guard);
    }
    has(t, "immunization") || has(t, "medication") || has(t, "drugs") || has(t, "provider")
        || has(t, "procedure") || has(t, "illness") || has(t, "injury") || has(t, "hipaa") || has(t,
        "vaccination") || has(t, "prescription") || has(t, "dentist") || has(t, "diagnosis")
        || has(t, "physician") || has(t, "medical") || has(t, "treatment") || has(t, "health info")
        || has(t, "patient") || has(t, "clinic") || has(t, "visit") || has(t, "dental") || has(t,
        "vision")
}

fn md_health_insurance(t: &Vec<char>) -> (r: bool)
    ensures
        r == md_health_insurance_guard(t@),
{
    proof {
        reveal(md_health_insurance_guard);
    }
    has(t, "deductible") || has(t, "group plan") || has(t, "health insurance") || has(t,
        "medicare") || has(t, "medicade") || has(t, "medicaid") || has(t, "insurance") || has(t,
        "health plan")
}

/// The first six keyword groups are alternatives: only the first that
/// matches is emitted.
pub open spec fn md_chain_class(t: Seq<char>) -> Seq<(int, Seq<char>)> {
    if md_name_guard(t) {
        seq![(1int, Seq::<char>::empty())]
    } else if md_password_guard(t) {
        seq![(3int, Seq::<char>::empty())]
    } else if md_username_guard(t) {
        seq![(2int, Seq::<char>::empty())]
    } else if md_dob_guard(t) {
        seq![(7int, Seq::<char>::empty())]
    } else if md_ssn_guard(t) {
        seq![(8int, Seq::<char>::empty())]
    } else if md_address_guard(t) {
        seq![(18int, Seq::<char>::empty())]
    } else {
        Seq::<(int, Seq<char>)>::empty()
    }
}

/// Does the token match any keyword group at all?
#[verifier::opaque]
pub open spec fn md_any_guard(t: Seq<char>) -> bool {
    md_name_guard(t) || md_password_guard(t) || md_username_guard(t) || md_dob_guard(t)
        || md_ssn_guard(t) || md_address_guard(t) || md_student_guard(t) || md_demographic_guard(t)
        || md_voter_guard(t) || md_employment_guard(t) || md_secq_guard(t) || md_passport_guard(t)
        || md_dl_guard(t) || md_stateid_guard(t) || md_email_guard(t) || md_phone_guard(t)
        || md_financial_guard(t) || md_banking_guard(t) || md_medical_guard(t)
        || md_health_insurance_guard(t)
}

/// All categories a trimmed, lower-cased token yields, in emission order;
/// a token matching no group yields exactly one unknown item carrying the
/// token itself.
pub open spec fn md_token_classes(t: Seq<char>) -> Seq<(int, Seq<char>)> {
    if t.len() == 0 {
        Seq::<(int, Seq<char>)>::empty()
    } else if md_any_guard(t) {
        add_cond(add_cond(add_cond(add_cond(add_cond(add_cond(add_cond(add_cond(add_cond(add_cond(add_cond(add_cond(add_cond(add_cond(md_chain_class(t), md_student_guard(t), 6), md_demographic_guard(t), 19), md_voter_guard(t), 20), md_employment_guard(t), 21), md_secq_guard(t), 4), md_passport_guard(t), 13), md_dl_guard(t), 9), md_stateid_guard(t), 10), md_email_guard(t), 5), md_phone_guard(t), 17), md_financial_guard(t), 12), md_banking_guard(t), 11), md_medical_guard(t), 15), md_health_insurance_guard(t), 14)
    } else {
        seq![(0int, t)]
    }
}

/// Appends classification `c` when `g` holds, taking the running view
/// from `prev` to `add_cond(prev, g, code)`.
fn apply_group(
    out: &mut Vec<ClassificationType>,
    g: bool,
    c: ClassificationType,
    Ghost(code): Ghost<int>,
    Ghost(prev): Ghost<Seq<(int, Seq<char>)>>,
)
    requires
        wf_class(c),
        g ==> class_view(c) == (code, Seq::<char>::empty()),
        forall|i: int| 0 <= i < old(out)@.len() ==> wf_class(#[trigger] old(out)@[i]),
        classes_view(old(out)@) == prev,
    ensures
        classes_view(final(out)@) == add_cond(prev, g, code),
        forall|i: int| 0 <= i < final(out)@.len() ==> wf_class(#[trigger] final(out)@[i]),
{
    if g {
        push_class(out, c);
    }
}

/// Classifies one trimmed, lower-cased token by keyword groups.
#[verifier::rlimit(50)]
#[verifier::spinoff_prover]
pub fn md_classify_token(t: &Vec<char>) -> (r: Vec<ClassificationType>)
    ensures
        classes_view(r@) == md_token_classes(t@),
        forall|i: int| 0 <= i < r@.len() ==> wf_class(#[trigger] r@[i]),
{
    if t.len() == 0 {
        let out: Vec<ClassificationType> = Vec::new();
        proof {
            assert(classes_view(out@) =~= Seq::<(int, Seq<char>)>::empty());
        }
        return out;
    }
    let g_name = md_name(t);
    let g_password = md_password(t);
    let g_username = md_username(t);
    let g_dob = md_dob(t);
    let g_ssn = md_ssn(t);
    let g_address = md_address(t);
    let g_student = md_student(t);
    let g_demographic = md_demographic(t);
    let g_voter = md_voter(t);
    let g_employment = md_employment(t);
    let g_secq = md_secq(t);
    let g_passport = md_passport(t);
    let g_dl = md_dl(t);
    let g_stateid = md_stateid(t);
    let g_email = md_email(t);
    let g_phone = md_phone(t);
    let g_financial = md_financial(t);
    let g_banking = md_banking(t);
    let g_medical = md_medical(t);
    let g_health_insurance = md_health_insurance(t);
    let any = g_name || g_password || g_username || g_dob || g_ssn || g_address || g_student
        || g_demographic || g_voter || g_employment || g_secq || g_passport || g_dl
        || g_stateid || g_email || g_phone || g_financial || g_banking || g_medical
        || g_health_insurance;
    proof {
        assert(any == md_any_guard(t@)) by {
            reveal(md_any_guard);
        }
    }
    let mut out: Vec<ClassificationType> = Vec::new();
    let ghost mut expected: Seq<(int, Seq<char>)> = md_chain_class(t@);
    if g_name {
        push_class(&mut out, ClassificationType::Name(Sensitivity::Low));
    } else if g_password {
        push_class(&mut out, ClassificationType::Password(Sensitivity::High));
    } else if g_username {
        push_class(&mut out, ClassificationType::Username(Sensitivity::Low));
    } else if g_dob {
        push_class(&mut out, ClassificationType::DateOfBirth(Sensitivity::Medium));
    } else if g_ssn {
        push_class(&mut out, ClassificationType::SocialSecurity(Sensitivity::High));
    } else if g_address {
        push_class(&mut out, ClassificationType::Address(Sensitivity::Medium));
    }
    proof {
        assert(classes_view(out@) =~= expected);
    }
    apply_group(
        &mut out,
        g_student,
        ClassificationType::StudentId(Sensitivity::Medium),
        Ghost(6int),
        Ghost(expected),
    );
    proof {
        expected = add_cond(expected, md_student_guard(t@), 6);
    }
    apply_group(
        &mut out,
        g_demographic,
        ClassificationType::DemographicInformation(Sensitivity::Low),
        Ghost(19int),
        Ghost(expected),
    );
    proof {
        expected = add_cond(expected, md_demographic_guard(t@), 19);
    }
    apply_group(
        &mut out,
        g_voter,
        ClassificationType::VoterRegistrationNumber(Sensitivity::Low),
        Ghost(20int),
        Ghost(expected),
    );
    proof {
        expected = add_cond(expected, md_voter_guard(t@), 20);
    }
    apply_group(
        &mut out,
        g_employment,
        ClassificationType::EmploymentInformation(Sensitivity::Low),
        Ghost(21int),
        Ghost(expected),
    );
    proof {
        expected = add_cond(expected, md_employment_guard(t@), 21);
    }
    apply_group(
        &mut out,
        g_secq,
        ClassificationType::SecurityQuestionOrAnswer(Sensitivity::High),
        Ghost(4int),
        Ghost(expected),
    );
    proof {
        expected = add_cond(expected, md_secq_guard(t@), 4);
    }
    apply_group(
        &mut out,
        g_passport,
        ClassificationType::PassportNumber(Sensitivity::Medium),
        Ghost(13int),
        Ghost(expected),
    );
    proof {
        expected = add_cond(expected, md_passport_guard(t@), 13);
    }
    apply_group(
        &mut out,
        g_dl,
        ClassificationType::DriversLicense(Sensitivity::Medium),
        Ghost(9int),
        Ghost(expected),
    );
    proof {
        expected = add_cond(expected, md_dl_guard(t@), 9);
    }
    apply_group(
        &mut out,
        g_stateid,
        ClassificationType::StateId(Sensitivity::Medium),
        Ghost(10int),
        Ghost(expected),
    );
    proof {
        expected = add_cond(expected, md_stateid_guard(t@), 10);
    }
    apply_group(
        &mut out,
        g_email,
        ClassificationType::Email(Sensitivity::Low),
        Ghost(5int),
        Ghost(expected),
    );
    proof {
        expected = add_cond(expected, md_email_guard(t@), 5);
    }
    apply_group(
        &mut out,
        g_phone,
        ClassificationType::PhoneNumber(Sensitivity::Medium),
        Ghost(17int),
        Ghost(expected),
    );
    proof {
        expected = add_cond(expected, md_phone_guard(t@), 17);
    }
    apply_group(
        &mut out,
        g_financial,
        ClassificationType::FinancialInformation(Sensitivity::Medium),
        Ghost(12int),
        Ghost(expected),
    );
    proof {
        expected = add_cond(expected, md_financial_guard(t@), 12);
    }
    apply_group(
        &mut out,
        g_banking,
        ClassificationType::BankingInformation(Sensitivity::High),
        Ghost(11int),
        Ghost(expected),
    );
    proof {
        expected = add_cond(expected, md_banking_guard(t@), 11);
    }
    apply_group(
        &mut out,
        g_medical,
        ClassificationType::MedicalInformation(Sensitivity::Medium),
        Ghost(15int),
        Ghost(expected),
    );
    proof {
        expected = add_cond(expected, md_medical_guard(t@), 15);
    }
    apply_group(
        &mut out,
        g_health_insurance,
        ClassificationType::HealthInsurancePolicy(Sensitivity::Medium),
        Ghost(14int),
        Ghost(expected),
    );
    proof {
        expected = add_cond(expected, md_health_insurance_guard(t@), 14);
    }
    if !any {
        let raw = chars_to_string(t);
        push_class(&mut out, ClassificationType::Unknown(raw, Sensitivity::Unknown));
        proof {
            assert(classes_view(out@) =~= seq![(0int, t@)]);
        }
    }
    out
}

/// The categories of every token of an already cleaned descriptor, token
/// by token, each token trimmed and lower-cased before matching.
pub open spec fn md_tokens_classes(toks: Seq<Seq<char>>) -> Seq<(int, Seq<char>)>
    decreases toks.len(),
{
    if toks.len() == 0 {
        Seq::<(int, Seq<char>)>::empty()
    } else {
        md_token_classes(spec_lower(spec_trim(toks[0]))) + md_tokens_classes(toks.skip(1))
    }
}

/// The cleaning pass of the free-form matcher: conjunctions become the
/// list delimiter, stray punctuation and quotation is dropped.
pub open spec fn md_clean(s: Seq<char>) -> Seq<char> {
    spec_replace(
        spec_replace(
            spec_replace(
                spec_replace(spec_replace(s, "and/or"@, ","@), "and"@, ","@),
                "."@,
                Seq::<char>::empty(),
            ),
            "&quot;"@,
            Seq::<char>::empty(),
        ),
        "\""@,
        Seq::<char>::empty(),
    )
}

/// The full keyword classification of a free-form descriptor.
pub open spec fn spec_md_leaked_info(s: Seq<char>) -> Seq<(int, Seq<char>)> {
    md_tokens_classes(spec_split(md_clean(s), seq![',']))
}

/// Classifies a free-form descriptor: cleaning, splitting on commas, and
/// keyword matching per token.
pub fn md_leaked_info(text: &Vec<char>) -> (r: Vec<ClassificationType>)
    ensures
        classes_view(r@) == spec_md_leaked_info(text@),
        forall|i: int| 0 <= i < r@.len() ==> wf_class(#[trigger] r@[i]),
{
    let and_or = to_chars("and/or");
    let and = to_chars("and");
    let dot = to_chars(".");
    let quot_ent = to_chars("&quot;");
    let quot = to_chars("\"");
    let comma_str = to_chars(",");
    let empty: Vec<char> = Vec::new();
    proof {
        reveal_strlit("and/or");
        reveal_strlit("and");
        reveal_strlit(".");
        reveal_strlit("&quot;");
        reveal_strlit("\"");
        reveal_strlit(",");
    }
    let c1 = replace_seq(text, &and_or, &comma_str);
    let c2 = replace_seq(&c1, &and, &comma_str);
    let c3 = replace_seq(&c2, &dot, &empty);
    let c4 = replace_seq(&c3, &quot_ent, &empty);
    let cleaned = replace_seq(&c4, &quot, &empty);
    proof {
        assert(cleaned@ == md_clean(text@));
    }
    let mut comma: Vec<char> = Vec::new();
    comma.push(',');
    proof {
        assert(comma@ =~= seq![',']);
    }
    let toks = split_seq(&cleaned, &comma);
    let ghost toks_v = toks.deep_view();
    let n: usize = toks.len();
    let mut out: Vec<ClassificationType> = Vec::new();
    proof {
        assert(toks_v.skip(0) =~= toks_v);
        assert(classes_view(out@) =~= Seq::<(int, Seq<char>)>::empty());
        assert(classes_view(out@) + md_tokens_classes(toks_v) =~= md_tokens_classes(toks_v));
    }
    let mut k: usize = 0;
    while k < n
        invariant
            n == toks_v.len(),
            toks_v == toks.deep_view(),
            k <= n,
            classes_view(out@) + md_tokens_classes(toks_v.skip(k as int)) == md_tokens_classes(
                toks_v,
            ),
            forall|i: int| 0 <= i < out@.len() ==> wf_class(#[trigger] out@[i]),
        decreases n - k,
    {
        let t = lower(&trim(&toks[k]));
        proof {
            assert(toks.deep_view()[k as int] == toks@[k as int]@);
            assert(t@ == spec_lower(spec_trim(toks_v[k as int])));
        }
        let mut part = md_classify_token(&t);
        let ghost old_out = out@;
        let ghost part_v = part@;
        out.append(&mut part);
        proof {
            assert(classes_view(out@) =~= classes_view(old_out) + classes_view(part_v));
            assert(toks_v.skip(k as int)[0] == toks_v[k as int]);
            assert(toks_v.skip(k as int).skip(1) =~= toks_v.skip(k + 1 as int));
            assert(md_tokens_classes(toks_v.skip(k as int)) == md_token_classes(
                spec_lower(spec_trim(toks_v[k as int])),
            ) + md_tokens_classes(toks_v.skip(k + 1 as int)));
            assert(classes_view(out@) + md_tokens_classes(toks_v.skip(k + 1 as int))
                =~= classes_view(old_out) + md_tokens_classes(toks_v.skip(k as int)));
        }
        k = k + 1;
    }
    proof {
        assert(toks_v.skip(n as int).len() == 0);
        assert(md_tokens_classes(toks_v.skip(n as int)) =~= Seq::<(int, Seq<char>)>::empty());
        assert(classes_view(out@) =~= classes_view(out@) + md_tokens_classes(
            toks_v.skip(n as int),
        ));
    }
    out
}

/// A non-empty token that matches no keyword group yields exactly one
/// unknown item carrying the token itself — classification never fails,
/// it degrades. An empty token yields nothing at all.
pub proof fn lemma_md_unknown_fallback(t: Seq<char>)
    requires
        t.len() != 0,
        !md_name_guard(t),
        !md_password_guard(t),
        !md_username_guard(t),
        !md_dob_guard(t),
        !md_ssn_guard(t),
        !md_address_guard(t),
        !md_student_guard(t),
        !md_demographic_guard(t),
        !md_voter_guard(t),
        !md_employment_guard(t),
        !md_secq_guard(t),
        !md_passport_guard(t),
        !md_dl_guard(t),
        !md_stateid_guard(t),
        !md_email_guard(t),
        !md_phone_guard(t),
        !md_financial_guard(t),
        !md_banking_guard(t),
        !md_medical_guard(t),
        !md_health_insurance_guard(t),
    ensures
        md_token_classes(t) == seq![(0int, t)],
{
    reveal(md_any_guard);
}

/// One token may match several keyword groups, and every match is
/// emitted: a token naming both a driver's license and a state
/// identification number yields both categories.
pub proof fn lemma_md_many_match(t: Seq<char>)
    requires
        md_dl_guard(t),
        md_stateid_guard(t),
    ensures
        md_token_classes(t).contains((9int, Seq::<char>::empty())),
        md_token_classes(t).contains((10int, Seq::<char>::empty())),
{
    reveal(md_any_guard);
    assert(t.len() != 0) by {
        reveal(md_dl_guard);
        reveal_strlit("driver");
        let w = choose|i: int| crate::text::match_at(t, "driver"@, i);
        assert(crate::text::match_at(t, "driver"@, w));
    }
    let v = md_token_classes(t);
    let after_dl = add_cond(
        add_cond(
            add_cond(
                add_cond(
                    add_cond(
                        add_cond(
                            add_cond(md_chain_class(t), md_student_guard(t), 6),
                            md_demographic_guard(t),
                            19,
                        ),
                        md_voter_guard(t),
                        20,
                    ),
                    md_employment_guard(t),
                    21,
                ),
                md_secq_guard(t),
                4,
            ),
            md_passport_guard(t),
            13,
        ),
        md_dl_guard(t),
        9,
    );
    let dl_at = after_dl.len() - 1;
    let after_sid = add_cond(after_dl, md_stateid_guard(t), 10);
    let sid_at = after_sid.len() - 1;
    assert(after_dl[dl_at] == (9int, Seq::<char>::empty()));
    assert(after_sid[sid_at] == (10int, Seq::<char>::empty()));
    assert(v[dl_at] == (9int, Seq::<char>::empty()));
    assert(v[sid_at] == (10int, Seq::<char>::empty()));
    assert(0 <= dl_at < v.len());
    assert(0 <= sid_at < v.len());
}

/// The controlled-vocabulary matching of the Washington listing: one
/// phrase maps to one or two categories; an unrecognized phrase becomes
/// the unknown category carrying the trimmed phrase.
pub open spec fn wa_token_classes(t: Seq<char>) -> Seq<(int, Seq<char>)> {
    if t.len() == 0 {
        Seq::<(int, Seq<char>)>::empty()
    } else if t == "Name"@ {
        seq![(1int, Seq::<char>::empty())]
    } else if t == "Username and Password/Security Question Answers"@ {
        seq![(3int, Seq::<char>::empty()), (4int, Seq::<char>::empty())]
    } else if t == "Email Address and Password/Security Question Answers"@ {
        seq![(5int, Seq::<char>::empty()), (4int, Seq::<char>::empty())]
    } else if t == "Student ID Number"@ {
        seq![(6int, Seq::<char>::empty())]
    } else if t == "Social Security Number"@ {
        seq![(8int, Seq::<char>::empty())]
    } else if t == "Full Date of Birth"@ {
        seq![(7int, Seq::<char>::empty())]
    } else if t == "Driver&#039"@ {
        seq![(9int, Seq::<char>::empty())]
    } else if t == "s License or Washington ID Card Number"@ {
        seq![(10int, Seq::<char>::empty())]
    } else if t == "Financial &amp"@ {
        seq![(12int, Seq::<char>::empty())]
    } else if t == "Banking Information"@ {
        seq![(11int, Seq::<char>::empty())]
    } else if t == "Passport Number"@ {
        seq![(13int, Seq::<char>::empty())]
    } else if t == "Health Insurance Policy or ID Number"@ {
        seq![(14int, Seq::<char>::empty()), (15int, Seq::<char>::empty())]
    } else if t == "Biometric Data"@ {
        seq![(16int, Seq::<char>::empty())]
    } else if t == "Medical Information"@ {
        seq![(15int, Seq::<char>::empty())]
    } else {
        seq![(0int, t)]
    }
}

/// Classifies one trimmed phrase of the controlled vocabulary.
#[verifier::rlimit(30)]
pub fn wa_classify_token(t: &Vec<char>) -> (r: Vec<ClassificationType>)
    ensures
        classes_view(r@) == wa_token_classes(t@),
        forall|i: int| 0 <= i < r@.len() ==> wf_class(#[trigger] r@[i]),
{
    let mut out: Vec<ClassificationType> = Vec::new();
    if t.len() == 0 {
        proof {
            assert(classes_view(out@) =~= wa_token_classes(t@));
        }
        return out;
    }
    if is_lit(t, "Name") {
        push_class(&mut out, ClassificationType::Name(Sensitivity::Low));
    } else if is_lit(t, "Username and Password/Security Question Answers") {
        push_class(&mut out, ClassificationType::Password(Sensitivity::High));
        push_class(&mut out, ClassificationType::SecurityQuestionOrAnswer(Sensitivity::High));
    } else if is_lit(t, "Email Address and Password/Security Question Answers") {
        push_class(&mut out, ClassificationType::Email(Sensitivity::Low));
        push_class(&mut out, ClassificationType::SecurityQuestionOrAnswer(Sensitivity::High));
    } else if is_lit(t, "Student ID Number") {
        push_class(&mut out, ClassificationType::StudentId(Sensitivity::Medium));
    } else if is_lit(t, "Social Security Number") {
        push_class(&mut out, ClassificationType::SocialSecurity(Sensitivity::High));
    } else if is_lit(t, "Full Date of Birth") {
        push_class(&mut out, ClassificationType::DateOfBirth(Sensitivity::Medium));
    } else if is_lit(t, "Driver&#039") {
        push_class(&mut out, ClassificationType::DriversLicense(Sensitivity::Medium));
    } else if is_lit(t, "s License or Washington ID Card Number") {
        push_class(&mut out, ClassificationType::StateId(Sensitivity::Medium));
    } else if is_lit(t, "Financial &amp") {
        push_class(&mut out, ClassificationType::FinancialInformation(Sensitivity::Medium));
    } else if is_lit(t, "Banking Information") {
        push_class(&mut out, ClassificationType::BankingInformation(Sensitivity::High));
    } else if is_lit(t, "Passport Number") {
        push_class(&mut out, ClassificationType::PassportNumber(Sensitivity::Medium));
    } else if is_lit(t, "Health Insurance Policy or ID Number") {
        push_class(&mut out, ClassificationType::HealthInsurancePolicy(Sensitivity::Medium));
        push_class(&mut out, ClassificationType::MedicalInformation(Sensitivity::Medium));
    } else if is_lit(t, "Biometric Data") {
        push_class(&mut out, ClassificationType::BiometricData(Sensitivity::High));
    } else if is_lit(t, "Medical Information") {
        push_class(&mut out, ClassificationType::MedicalInformation(Sensitivity::Medium));
    } else {
        let raw = chars_to_string(t);
        push_class(&mut out, ClassificationType::Unknown(raw, Sensitivity::Unknown));
    }
    proof {
        assert(classes_view(out@) =~= wa_token_classes(t@));
    }
    out
}

/// The categories of every phrase of a controlled-vocabulary descriptor,
/// phrase by phrase, each phrase trimmed before matching.
pub open spec fn wa_tokens_classes(toks: Seq<Seq<char>>) -> Seq<(int, Seq<char>)>
    decreases toks.len(),
{
    if toks.len() == 0 {
        Seq::<(int, Seq<char>)>::empty()
    } else {
        wa_token_classes(spec_trim(toks[0])) + wa_tokens_classes(toks.skip(1))
    }
}

/// The full classification of a controlled-vocabulary descriptor:
/// phrases are separated by semicolons.
pub open spec fn spec_wa_classifications(s: Seq<char>) -> Seq<(int, Seq<char>)> {
    wa_tokens_classes(spec_split(s, seq![';']))
}

/// Classifies a controlled-vocabulary descriptor, phrase for phrase.
pub fn wa_classifications(text: &Vec<char>) -> (r: Vec<ClassificationType>)
    ensures
        classes_view(r@) == spec_wa_classifications(text@),
        forall|i: int| 0 <= i < r@.len() ==> wf_class(#[trigger] r@[i]),
{
    let mut semi: Vec<char> = Vec::new();
    semi.push(';');
    proof {
        assert(semi@ =~= seq![';']);
    }
    let toks = split_seq(text, &semi);
    let ghost toks_v = toks.deep_view();
    let n: usize = toks.len();
    let mut out: Vec<ClassificationType> = Vec::new();
    proof {
        assert(toks_v.skip(0) =~= toks_v);
        assert(classes_view(out@) =~= Seq::<(int, Seq<char>)>::empty());
        assert(classes_view(out@) + wa_tokens_classes(toks_v) =~= wa_tokens_classes(toks_v));
    }
    let mut k: usize = 0;
    while k < n
        invariant
            n == toks_v.len(),
            toks_v == toks.deep_view(),
            k <= n,
            classes_view(out@) + wa_tokens_classes(toks_v.skip(k as int)) == wa_tokens_classes(
                toks_v,
            ),
            forall|i: int| 0 <= i < out@.len() ==> wf_class(#[trigger] out@[i]),
        decreases n - k,
    {
        let t = trim(&toks[k]);
        proof {
            assert(toks.deep_view()[k as int] == toks@[k as int]@);
            assert(t@ == spec_trim(toks_v[k as int]));
        }
        let mut part = wa_classify_token(&t);
        let ghost old_out = out@;
        let ghost part_v = part@;
        out.append(&mut part);
        proof {
            assert(classes_view(out@) =~= classes_view(old_out) + classes_view(part_v));
            assert(toks_v.skip(k as int)[0] == toks_v[k as int]);
            assert(toks_v.skip(k as int).skip(1) =~= toks_v.skip(k + 1 as int));
            assert(wa_tokens_classes(toks_v.skip(k as int)) == wa_token_classes(
                spec_trim(toks_v[k as int]),
            ) + wa_tokens_classes(toks_v.skip(k + 1 as int)));
            assert(classes_view(out@) + wa_tokens_classes(toks_v.skip(k + 1 as int))
                =~= classes_view(old_out) + wa_tokens_classes(toks_v.skip(k as int)));
        }
        k = k + 1;
    }
    proof {
        assert(toks_v.skip(n as int).len() == 0);
        assert(wa_tokens_classes(toks_v.skip(n as int)) =~= Seq::<(int, Seq<char>)>::empty());
        assert(classes_view(out@) =~= classes_view(out@) + wa_tokens_classes(
            toks_v.skip(n as int),
        ));
    }
    out
}

// The breach-cause keyword groups of the free-form matcher, tried in
// order on the lower-cased text; the ransomware group also matches one
// exact phrase of the original casing.
#[verifier::opaque]
pub open spec fn mdb_ransomware_guard(l: Seq<char>, raw: Seq<char>) -> bool {
    contains_seq(l, "ransomware"@) || raw == "server encryption"@
}

#[verifier::opaque]
pub open spec fn mdb_hacker_guard(l: Seq<char>) -> bool {
    contains_seq(l, "unauthorized party"@) || contains_seq(l, "unauthorized network access"@)
        || contains_seq(l, "unauthorized access"@) || contains_seq(l, "credential stuffing"@)
        || contains_seq(l, "cyber-attack"@) || contains_seq(l, "unauthorized actor"@)
        || contains_seq(l, "data security incident"@) || contains_seq(l, "data breach incident"@)
        || contains_seq(l, "data privacy event"@) || contains_seq(
        l,
        "impersonation of policy holder"@,
    )
}

#[verifier::opaque]
pub open spec fn mdb_phishing_guard(l: Seq<char>) -> bool {
    contains_seq(l, "phishing"@)
}

#[verifier::opaque]
pub open spec fn mdb_third_party_guard(l: Seq<char>) -> bool {
    contains_seq(l, "third-party"@) || contains_seq(l, "third party"@) || contains_seq(
        l,
        "malicious code"@,
    )
}

#[verifier::opaque]
pub open spec fn mdb_release_guard(l: Seq<char>) -> bool {
    contains_seq(l, "inadvertently being disclosed"@)
}

#[verifier::opaque]
pub open spec fn mdb_employee_guard(l: Seq<char>) -> bool {
    contains_seq(l, "a former employee"@)
}

/// The breach cause read from a free-form description of how the breach
/// came about.
pub open spec fn md_breach_type(s: Seq<char>) -> BreachType {
    let l = spec_lower(s);
    if mdb_ransomware_guard(l, s) {
        BreachType::Ransomware
    } else if mdb_hacker_guard(l) {
        BreachType::HackerUnauthorizedAccess
    } else if mdb_phishing_guard(l) {
        BreachType::Phishing
    } else if mdb_third_party_guard(l) {
        BreachType::Malicious3rdParty
    } else if mdb_release_guard(l) {
        BreachType::ReleaseOrDisplayOfInformation
    } else if mdb_employee_guard(l) {
        BreachType::TheftByEmployeeOrContractor
    } else {
        BreachType::Unknown
    }
}

/// Classifies how a breach came about, by keyword groups over the
/// lower-cased description.
pub fn md_parse_breach_type(text: &Vec<char>) -> (r: BreachType)
    ensures
        r == md_breach_type(text@),
{
    let l = lower(text);
    let g_ransomware = {
        let c = has(&l, "ransomware") || is_lit(text, "server encryption");
        proof {
            reveal(mdb_ransomware_guard);
        }
        c
    };
    if g_ransomware {
        return BreachType::Ransomware;
    }
    let g_hacker = {
        let c = has(&l, "unauthorized party") || has(&l, "unauthorized network access") || has(
            &l,
            "unauthorized access",
        ) || has(&l, "credential stuffing") || has(&l, "cyber-attack") || has(
            &l,
            "unauthorized actor",
        ) || has(&l, "data security incident") || has(&l, "data breach incident") || has(
            &l,
            "data privacy event",
        ) || has(&l, "impersonation of policy holder");
        proof {
            reveal(mdb_hacker_guard);
        }
        c
    };
    if g_hacker {
        return BreachType::HackerUnauthorizedAccess;
    }
    let g_phishing = {
        let c = has(&l, "phishing");
        proof {
            reveal(mdb_phishing_guard);
        }
        c
    };
    if g_phishing {
        return BreachType::Phishing;
    }
    let g_third = {
        let c = has(&l, "third-party") || has(&l, "third party") || has(&l, "malicious code");
        proof {
            reveal(mdb_third_party_guard);
        }
        c
    };
    if g_third {
        return BreachType::Malicious3rdParty;
    }
    let g_release = {
        let c = has(&l, "inadvertently being disclosed");
        proof {
            reveal(mdb_release_guard);
        }
        c
    };
    if g_release {
        return BreachType::ReleaseOrDisplayOfInformation;
    }
    let g_employee = {
        let c = has(&l, "a former employee");
        proof {
            reveal(mdb_employee_guard);
        }
        c
    };
    if g_employee {
        return BreachType::TheftByEmployeeOrContractor;
    }
    BreachType::Unknown
}

} // verus!

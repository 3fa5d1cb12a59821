//! The domain model: jurisdictions, breach-cause taxonomy, the
//! personal-information classification taxonomy with its fixed sensitivity
//! table, and the normalized disclosure record.

use vstd::prelude::*;
use crate::dates::{valid_date, Date};

verus! {

/// The jurisdictions whose listings are ingested: a closed set.
#[derive(Clone, Copy, PartialEq, Eq, Structural, Debug)]
pub enum State {
    WA,
    OR,
    CA,
    MD,
    HI,
}

/// The integer a jurisdiction is stored under.
pub open spec fn state_code(s: State) -> int {
    match s {
        State::WA => 1,
        State::OR => 2,
        State::CA => 3,
        State::MD => 4,
        State::HI => 5,
    }
}

impl State {
    /// The integer this jurisdiction is stored under.
    pub fn code(&self) -> (r: i32)
        ensures
            r as int == state_code(*self),
    {
        match self {
            State::WA => 1,
            State::OR => 2,
            State::CA => 3,
            State::MD => 4,
            State::HI => 5,
        }
    }

    /// The jurisdiction stored under `code`, if any.
    pub fn from_code(code: i32) -> (r: Option<State>)
        ensures
            r matches Some(s) ==> state_code(s) == code as int,
            r is None <==> !(1 <= code <= 5),
    {
        match code {
            1 => Some(State::WA),
            2 => Some(State::OR),
            3 => Some(State::CA),
            4 => Some(State::MD),
            5 => Some(State::HI),
            _ => None,
        }
    }
}

/// How a breach came about.
#[derive(Clone, Copy, PartialEq, Eq, Structural, Debug)]
pub enum BreachType {
    Unknown,
    HackerUnauthorizedAccess,
    StolenEquipment,
    Ransomware,
    LostInTransit,
    ReleaseOrDisplayOfInformation,
    TheftByEmployeeOrContractor,
    Phishing,
    Malicious3rdParty,
}

/// The integer a breach cause is stored under.
pub open spec fn breach_type_code(b: BreachType) -> int {
    match b {
        BreachType::Unknown => 0,
        BreachType::HackerUnauthorizedAccess => 1,
        BreachType::StolenEquipment => 2,
        BreachType::Ransomware => 3,
        BreachType::LostInTransit => 4,
        BreachType::ReleaseOrDisplayOfInformation => 5,
        BreachType::TheftByEmployeeOrContractor => 6,
        BreachType::Phishing => 7,
        BreachType::Malicious3rdParty => 8,
    }
}

impl BreachType {
    /// The integer this breach cause is stored under.
    pub fn code(&self) -> (r: i32)
        ensures
            r as int == breach_type_code(*self),
    {
        match self {
            BreachType::Unknown => 0,
            BreachType::HackerUnauthorizedAccess => 1,
            BreachType::StolenEquipment => 2,
            BreachType::Ransomware => 3,
            BreachType::LostInTransit => 4,
            BreachType::ReleaseOrDisplayOfInformation => 5,
            BreachType::TheftByEmployeeOrContractor => 6,
            BreachType::Phishing => 7,
            BreachType::Malicious3rdParty => 8,
        }
    }

    /// The breach cause stored under `code`, if any.
    pub fn from_code(code: i32) -> (r: Option<BreachType>)
        ensures
            r matches Some(b) ==> breach_type_code(b) == code as int,
            r is None <==> !(0 <= code <= 8),
    {
        match code {
            0 => Some(BreachType::Unknown),
            1 => Some(BreachType::HackerUnauthorizedAccess),
            2 => Some(BreachType::StolenEquipment),
            3 => Some(BreachType::Ransomware),
            4 => Some(BreachType::LostInTransit),
            5 => Some(BreachType::ReleaseOrDisplayOfInformation),
            6 => Some(BreachType::TheftByEmployeeOrContractor),
            7 => Some(BreachType::Phishing),
            8 => Some(BreachType::Malicious3rdParty),
            _ => None,
        }
    }
}

/// How sensitive an exposed category of personal information is.
#[derive(Clone, Copy, PartialEq, Eq, Structural, Debug)]
pub enum Sensitivity {
    Unknown,
    Low,
    Medium,
    High,
}

/// One classified category of exposed personal information. The `Unknown`
/// variant carries the raw token that could not be classified.
#[derive(Clone, PartialEq, Eq, Debug)]
pub enum ClassificationType {
    Unknown(String, Sensitivity),
    Name(Sensitivity),
    Username(Sensitivity),
    Password(Sensitivity),
    SecurityQuestionOrAnswer(Sensitivity),
    Email(Sensitivity),
    StudentId(Sensitivity),
    DateOfBirth(Sensitivity),
    SocialSecurity(Sensitivity),
    DriversLicense(Sensitivity),
    StateId(Sensitivity),
    BankingInformation(Sensitivity),
    FinancialInformation(Sensitivity),
    PassportNumber(Sensitivity),
    HealthInsurancePolicy(Sensitivity),
    MedicalInformation(Sensitivity),
    BiometricData(Sensitivity),
    PhoneNumber(Sensitivity),
    Address(Sensitivity),
    DemographicInformation(Sensitivity),
    VoterRegistrationNumber(Sensitivity),
    EmploymentInformation(Sensitivity),
}

/// The integer a classification category is stored under.
pub open spec fn class_code(c: ClassificationType) -> int {
    match c {
        ClassificationType::Unknown(_, _) => 0,
        ClassificationType::Name(_) => 1,
        ClassificationType::Username(_) => 2,
        ClassificationType::Password(_) => 3,
        ClassificationType::SecurityQuestionOrAnswer(_) => 4,
        ClassificationType::Email(_) => 5,
        ClassificationType::StudentId(_) => 6,
        ClassificationType::DateOfBirth(_) => 7,
        ClassificationType::SocialSecurity(_) => 8,
        ClassificationType::DriversLicense(_) => 9,
        ClassificationType::StateId(_) => 10,
        ClassificationType::BankingInformation(_) => 11,
        ClassificationType::FinancialInformation(_) => 12,
        ClassificationType::PassportNumber(_) => 13,
        ClassificationType::HealthInsurancePolicy(_) => 14,
        ClassificationType::MedicalInformation(_) => 15,
        ClassificationType::BiometricData(_) => 16,
        ClassificationType::PhoneNumber(_) => 17,
        ClassificationType::Address(_) => 18,
        ClassificationType::DemographicInformation(_) => 19,
        ClassificationType::VoterRegistrationNumber(_) => 20,
        ClassificationType::EmploymentInformation(_) => 21,
    }
}

/// The sensitivity carried by a classification value.
pub open spec fn class_sensitivity(c: ClassificationType) -> Sensitivity {
    match c {
        ClassificationType::Unknown(_, s) => s,
        ClassificationType::Name(s) => s,
        ClassificationType::Username(s) => s,
        ClassificationType::Password(s) => s,
        ClassificationType::SecurityQuestionOrAnswer(s) => s,
        ClassificationType::Email(s) => s,
        ClassificationType::StudentId(s) => s,
        ClassificationType::DateOfBirth(s) => s,
        ClassificationType::SocialSecurity(s) => s,
        ClassificationType::DriversLicense(s) => s,
        ClassificationType::StateId(s) => s,
        ClassificationType::BankingInformation(s) => s,
        ClassificationType::FinancialInformation(s) => s,
        ClassificationType::PassportNumber(s) => s,
        ClassificationType::HealthInsurancePolicy(s) => s,
        ClassificationType::MedicalInformation(s) => s,
        ClassificationType::BiometricData(s) => s,
        ClassificationType::PhoneNumber(s) => s,
        ClassificationType::Address(s) => s,
        ClassificationType::DemographicInformation(s) => s,
        ClassificationType::VoterRegistrationNumber(s) => s,
        ClassificationType::EmploymentInformation(s) => s,
    }
}

/// The raw text preserved for an uncategorized token; empty otherwise.
pub open spec fn class_raw(c: ClassificationType) -> Seq<char> {
    match c {
        ClassificationType::Unknown(t, _) => t@,
        _ => Seq::<char>::empty(),
    }
}

/// The fixed category-to-sensitivity table of the taxonomy. It does not
/// vary per source.
pub open spec fn table_sensitivity(code: int) -> Sensitivity {
    if code == 0 {
        Sensitivity::Unknown
    } else if code == 1 || code == 2 || code == 5 || code == 19 || code == 20 || code == 21 {
        Sensitivity::Low
    } else if code == 3 || code == 4 || code == 8 || code == 11 || code == 16 {
        Sensitivity::High
    } else {
        Sensitivity::Medium
    }
}

/// A classification value is well formed when it carries the sensitivity
/// that the fixed table assigns to its category.
pub open spec fn wf_class(c: ClassificationType) -> bool {
    class_sensitivity(c) == table_sensitivity(class_code(c))
}

/// What identifies a classification value: its category code and, for the
/// unknown category, the preserved raw text.
pub open spec fn class_view(c: ClassificationType) -> (int, Seq<char>) {
    (class_code(c), class_raw(c))
}

/// The sequence of classification views of a list of classifications.
pub open spec fn classes_view(s: Seq<ClassificationType>) -> Seq<(int, Seq<char>)> {
    s.map_values(|c: ClassificationType| class_view(c))
}

impl ClassificationType {
    /// The integer this category is stored under.
    pub fn code(&self) -> (r: i32)
        ensures
            r as int == class_code(*self),
    {
        match self {
            ClassificationType::Unknown(_, _) => 0,
            ClassificationType::Name(_) => 1,
            ClassificationType::Username(_) => 2,
            ClassificationType::Password(_) => 3,
            ClassificationType::SecurityQuestionOrAnswer(_) => 4,
            ClassificationType::Email(_) => 5,
            ClassificationType::StudentId(_) => 6,
            ClassificationType::DateOfBirth(_) => 7,
            ClassificationType::SocialSecurity(_) => 8,
            ClassificationType::DriversLicense(_) => 9,
            ClassificationType::StateId(_) => 10,
            ClassificationType::BankingInformation(_) => 11,
            ClassificationType::FinancialInformation(_) => 12,
            ClassificationType::PassportNumber(_) => 13,
            ClassificationType::HealthInsurancePolicy(_) => 14,
            ClassificationType::MedicalInformation(_) => 15,
            ClassificationType::BiometricData(_) => 16,
            ClassificationType::PhoneNumber(_) => 17,
            ClassificationType::Address(_) => 18,
            ClassificationType::DemographicInformation(_) => 19,
            ClassificationType::VoterRegistrationNumber(_) => 20,
            ClassificationType::EmploymentInformation(_) => 21,
        }
    }

    /// The raw text preserved for an uncategorized token; empty otherwise.
    pub fn raw_text(&self) -> (r: String)
        ensures
            r@ == class_raw(*self),
    {
        match self {
            ClassificationType::Unknown(t, _) => t.clone(),
            _ => String::new(),
        }
    }

    /// Builds the classification stored under `code`, carrying the
    /// sensitivity the fixed table assigns and, for the unknown category,
    /// the preserved raw text.
    pub fn from_parts(code: i32, content: String) -> (r: Option<ClassificationType>)
        ensures
            r matches Some(c) ==> class_code(c) == code as int && wf_class(c) && (code == 0 ==>
                class_raw(c) == content@) && (code != 0 ==> class_raw(c) == Seq::<char>::empty()),
            r is None <==> !(0 <= code <= 21),
    {
        match code {
            0 => Some(ClassificationType::Unknown(content, Sensitivity::Unknown)),
            1 => Some(ClassificationType::Name(Sensitivity::Low)),
            2 => Some(ClassificationType::Username(Sensitivity::Low)),
            3 => Some(ClassificationType::Password(Sensitivity::High)),
            4 => Some(ClassificationType::SecurityQuestionOrAnswer(Sensitivity::High)),
            5 => Some(ClassificationType::Email(Sensitivity::Low)),
            6 => Some(ClassificationType::StudentId(Sensitivity::Medium)),
            7 => Some(ClassificationType::DateOfBirth(Sensitivity::Medium)),
            8 => Some(ClassificationType::SocialSecurity(Sensitivity::High)),
            9 => Some(ClassificationType::DriversLicense(Sensitivity::Medium)),
            10 => Some(ClassificationType::StateId(Sensitivity::Medium)),
            11 => Some(ClassificationType::BankingInformation(Sensitivity::High)),
            12 => Some(ClassificationType::FinancialInformation(Sensitivity::Medium)),
            13 => Some(ClassificationType::PassportNumber(Sensitivity::Medium)),
            14 => Some(ClassificationType::HealthInsurancePolicy(Sensitivity::Medium)),
            15 => Some(ClassificationType::MedicalInformation(Sensitivity::Medium)),
            16 => Some(ClassificationType::BiometricData(Sensitivity::High)),
            17 => Some(ClassificationType::PhoneNumber(Sensitivity::Medium)),
            18 => Some(ClassificationType::Address(Sensitivity::Medium)),
            19 => Some(ClassificationType::DemographicInformation(Sensitivity::Low)),
            20 => Some(ClassificationType::VoterRegistrationNumber(Sensitivity::Low)),
            21 => Some(ClassificationType::EmploymentInformation(Sensitivity::Low)),
            _ => None,
        }
    }

    /// A structural copy of this classification.
    pub fn duplicate(&self) -> (r: ClassificationType)
        ensures
            r == *self,
    {
        match self {
            ClassificationType::Unknown(t, s) => ClassificationType::Unknown(t.clone(), *s),
            ClassificationType::Name(s) => ClassificationType::Name(*s),
            ClassificationType::Username(s) => ClassificationType::Username(*s),
            ClassificationType::Password(s) => ClassificationType::Password(*s),
            ClassificationType::SecurityQuestionOrAnswer(s) => {
                ClassificationType::SecurityQuestionOrAnswer(*s)
            },
            ClassificationType::Email(s) => ClassificationType::Email(*s),
            ClassificationType::StudentId(s) => ClassificationType::StudentId(*s),
            ClassificationType::DateOfBirth(s) => ClassificationType::DateOfBirth(*s),
            ClassificationType::SocialSecurity(s) => ClassificationType::SocialSecurity(*s),
            ClassificationType::DriversLicense(s) => ClassificationType::DriversLicense(*s),
            ClassificationType::StateId(s) => ClassificationType::StateId(*s),
            ClassificationType::BankingInformation(s) => {
                ClassificationType::BankingInformation(*s)
            },
            ClassificationType::FinancialInformation(s) => {
                ClassificationType::FinancialInformation(*s)
            },
            ClassificationType::PassportNumber(s) => ClassificationType::PassportNumber(*s),
            ClassificationType::HealthInsurancePolicy(s) => {
                ClassificationType::HealthInsurancePolicy(*s)
            },
            ClassificationType::MedicalInformation(s) => {
                ClassificationType::MedicalInformation(*s)
            },
            ClassificationType::BiometricData(s) => ClassificationType::BiometricData(*s),
            ClassificationType::PhoneNumber(s) => ClassificationType::PhoneNumber(*s),
            ClassificationType::Address(s) => ClassificationType::Address(*s),
            ClassificationType::DemographicInformation(s) => {
                ClassificationType::DemographicInformation(*s)
            },
            ClassificationType::VoterRegistrationNumber(s) => {
                ClassificationType::VoterRegistrationNumber(*s)
            },
            ClassificationType::EmploymentInformation(s) => {
                ClassificationType::EmploymentInformation(*s)
            },
        }
    }
}

/// One normalized disclosure record, as a source adapter emits it.
#[derive(Clone, Debug)]
pub struct Breach {
    pub id: i32,
    pub date_reported: Date,
    pub organization_name: String,
    pub date_of_breach: Option<Date>,
    pub affected_count: Option<i32>,
    pub affected_count_local: Option<i32>,
    pub loc: State,
    pub breach_type: BreachType,
    pub link: Option<String>,
    pub leaked_info: Vec<ClassificationType>,
}

/// A record is well formed when its dates name existing days and its
/// classifications carry the table sensitivities.
pub open spec fn wf_breach(b: Breach) -> bool {
    &&& valid_date(b.date_reported)
    &&& (b.date_of_breach matches Some(d) ==> valid_date(d))
    &&& forall|i: int| 0 <= i < b.leaked_info@.len() ==> wf_class(#[trigger] b.leaked_info@[i])
}

/// Two records describe the same logical disclosure: the identity triple
/// (reported date, organization, jurisdiction) matches exactly.
pub open spec fn same_identity(a: Breach, b: Breach) -> bool {
    a.date_reported == b.date_reported && a.organization_name@ == b.organization_name@ && a.loc
        == b.loc
}

/// View of an optional string as an optional character sequence.
pub open spec fn opt_str_view(o: Option<String>) -> Option<Seq<char>> {
    match o {
        Some(s) => Some(s@),
        None => None,
    }
}

/// Are two optional strings equal as text?
pub fn opt_str_eq(a: &Option<String>, b: &Option<String>) -> (r: bool)
    ensures
        r == (opt_str_view(*a) == opt_str_view(*b)),
{
    match (a, b) {
        (None, None) => true,
        (Some(x), Some(y)) => {
            let eq = x.eq(y);
            proof {
                if x@ == y@ {
                    assert(opt_str_view(*a) == opt_str_view(*b));
                } else {
                    assert(opt_str_view(*a) != opt_str_view(*b));
                }
            }
            eq
        },
        _ => false,
    }
}

/// Copy of an optional string.
pub fn opt_str_clone(o: &Option<String>) -> (r: Option<String>)
    ensures
        opt_str_view(r) == opt_str_view(*o),
{
    match o {
        Some(s) => Some(s.clone()),
        None => None,
    }
}

impl Breach {
    /// Do `self` and `other` describe the same logical disclosure?
    pub fn is_same_identity(&self, other: &Breach) -> (r: bool)
        ensures
            r == same_identity(*self, *other),
    {
        self.date_reported == other.date_reported && self.organization_name
            == other.organization_name && self.loc == other.loc
    }
}

/// A normalized disclosure record as plain values: the view the source
/// adapters' contracts speak of.
pub struct BreachV {
    pub id: int,
    pub date_reported: Date,
    pub organization_name: Seq<char>,
    pub date_of_breach: Option<Date>,
    pub affected_count: Option<i32>,
    pub affected_count_local: Option<i32>,
    pub loc: State,
    pub breach_type: BreachType,
    pub link: Option<Seq<char>>,
    pub leaked: Seq<(int, Seq<char>)>,
}

/// The view of a record.
pub open spec fn breach_v(b: Breach) -> BreachV {
    BreachV {
        id: b.id as int,
        date_reported: b.date_reported,
        organization_name: b.organization_name@,
        date_of_breach: b.date_of_breach,
        affected_count: b.affected_count,
        affected_count_local: b.affected_count_local,
        loc: b.loc,
        breach_type: b.breach_type,
        link: opt_str_view(b.link),
        leaked: classes_view(b.leaked_info@),
    }
}

} // verus!

use vstd::prelude::*;

verus! {

/// A keyword or key phrase extracted from a job description, with the
/// context it appears in.
#[derive(Debug, Clone, PartialEq, Eq)]
pub struct Keyword {
    pub keyword: String,
    pub context: String,
}

/// General metadata about the job: title, company, locations, dates and
/// classification.
#[derive(Debug, Clone, PartialEq, Eq)]
pub struct Metadata {
    pub job_title: Option<String>,
    pub company: Option<String>,
    pub locations: Option<Vec<String>>,
    pub remote_eligible: Option<bool>,
    pub date_posted: Option<String>,
    pub application_deadline: Option<String>,
    pub employment_type: Option<String>,
    pub role_type: Option<String>,
    pub profession: Option<String>,
    pub discipline: Option<String>,
    pub travel_percentage: Option<String>,
    pub job_number: Option<String>,
    pub tags: Option<Vec<String>>,
}

/// Overview of the job: a summary and optional extra details.
#[derive(Debug, Clone, PartialEq, Eq)]
pub struct Overview {
    pub description: Option<String>,
    pub additional_details: Option<String>,
}

/// Qualifications for the role.
#[derive(Debug, Clone, PartialEq, Eq)]
pub struct Qualifications {
    pub minimum_qualifications: Option<Vec<String>>,
    pub preferred_qualifications: Option<Vec<String>>,
}

/// Compensation and benefits information.
#[derive(Debug, Clone, PartialEq, Eq)]
pub struct CompensationAndBenefits {
    pub base_pay_range: Option<String>,
    pub additional_compensation: Option<String>,
    pub compensation_note: Option<String>,
    pub benefits_link: Option<String>,
}

/// Information about the company behind the posting.
#[derive(Debug, Clone, PartialEq, Eq)]
pub struct CompanyInfo {
    pub mission: Option<String>,
    pub about: Option<String>,
    pub equal_employment_opportunity: Option<String>,
}

/// How and where to apply.
#[derive(Debug, Clone, PartialEq, Eq)]
pub struct ApplicationInstructions {
    pub apply_url: Option<String>,
    pub required_documents: Option<Vec<String>>,
    pub additional_info: Option<String>,
}

/// A job description in structured form, as the parsing step hands it
/// back.
#[derive(Debug, Clone, PartialEq, Eq)]
pub struct ParsedJobDescription {
    pub name_slug: Option<String>,
    pub metadata: Option<Metadata>,
    pub overview: Option<Overview>,
    pub qualifications: Option<Qualifications>,
    pub responsibilities: Option<Vec<String>>,
    pub compensation_and_benefits: Option<CompensationAndBenefits>,
    pub company_info: Option<CompanyInfo>,
    pub application_instructions: Option<ApplicationInstructions>,
    pub keywords: Option<Vec<Keyword>>,
}

impl Default for ParsedJobDescription {
    /// The placeholder value: a "not-set" slug and nothing else.
    fn default() -> (r: ParsedJobDescription)
        ensures
            r.name_slug matches Some(s) && s@ == "not-set"@,
            r.metadata is None,
            r.overview is None,
            r.qualifications is None,
            r.responsibilities is None,
            r.compensation_and_benefits is None,
            r.company_info is None,
            r.application_instructions is None,
            r.keywords is None,
    {
        ParsedJobDescription {
            name_slug: Some("not-set".to_owned()),
            metadata: None,
            overview: None,
            qualifications: None,
            responsibilities: None,
            compensation_and_benefits: None,
            company_info: None,
            application_instructions: None,
            keywords: None,
        }
    }
}

} // verus!

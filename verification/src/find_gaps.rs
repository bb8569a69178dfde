use vstd::prelude::*;

verus! {

/// Form data carrying a résumé and a job description to compare.
#[derive(Debug, Clone, PartialEq, Eq)]
pub struct AnalyzeFormData {
    pub resume_text: String,
    pub job_description: String,
}

/// One part of the analysis: the text it points at and the reason it
/// was singled out.
#[derive(Debug, Clone, PartialEq, Eq)]
pub struct AnalysisPart {
    pub text: String,
    pub reason: String,
}

/// The gap analysis between a résumé and a job description.
#[derive(Debug, Clone, PartialEq, Eq)]
pub struct FindGapsSchema {
    pub candidate_name: String,
    pub candidate_email: String,
    pub candidate_phone: String,
    pub candidate_address: String,
    pub candidate_title: String,
    pub companies_worked: Vec<String>,
    pub good_parts: Vec<AnalysisPart>,
    pub bad_parts: Vec<AnalysisPart>,
    pub job_basic_qualifications: Vec<String>,
    pub job_preferred_qualifications: Vec<String>,
    pub job_role: String,
    pub job_company: String,
    pub job_location: String,
}

} // verus!

use vstd::prelude::*;

verus! {

/// Form data carrying the raw text of a résumé to be parsed.
#[derive(Debug, Clone, PartialEq, Eq)]
pub struct ResumeFormData {
    pub resume_text: String,
}

/// Form data naming the résumé a score is requested for.
#[derive(Debug, Clone, PartialEq, Eq)]
pub struct ScoreFormData {
    pub resume_id: String,
}

} // verus!

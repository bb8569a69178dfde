use vstd::prelude::*;

use crate::resume::Persona;

verus! {

/// One field's score out of a maximum, with an optional explanation.
#[derive(Debug, Clone, PartialEq, Eq)]
pub struct FieldScore {
    pub field: String,
    pub score: i32,
    pub max: i32,
    pub description: Option<String>,
}

/// A gap in a subfield category, with the specific missing items.
#[derive(Debug, Clone, PartialEq, Eq)]
pub struct SubfieldGap {
    pub subfield: String,
    pub missing: Vec<String>,
    pub description: Option<String>,
}

/// An array-based résumé scoring result for tracking completeness.
#[derive(Debug, Clone, PartialEq, Eq)]
pub struct ResumeScore {
    pub persona: Persona,
    pub overall_score: i32,
    pub maximum_possible_score: i32,
    pub missing_points: i32,
    pub required_field_scores: Option<Vec<FieldScore>>,
    pub optional_field_scores: Option<Vec<FieldScore>>,
    pub missing_fields: Option<Vec<String>>,
    pub subfield_gaps: Option<Vec<SubfieldGap>>,
}

impl Default for ResumeScore {
    /// The empty score: catchall persona, zero points, no detail.
    fn default() -> (r: ResumeScore)
        ensures
            r.persona == Persona::TechProfessional,
            r.overall_score == 0,
            r.maximum_possible_score == 0,
            r.missing_points == 0,
            r.required_field_scores is None,
            r.optional_field_scores is None,
            r.missing_fields is None,
            r.subfield_gaps is None,
    {
        ResumeScore {
            persona: Persona::TechProfessional,
            overall_score: 0,
            maximum_possible_score: 0,
            missing_points: 0,
            required_field_scores: None,
            optional_field_scores: None,
            missing_fields: None,
            subfield_gaps: None,
        }
    }
}

impl ResumeScore {
    /// Points left on the table: the maximum minus what was awarded.
    pub fn gap(&self) -> (r: i32)
        requires
            0 <= self.overall_score <= self.maximum_possible_score,
        ensures
            r == self.maximum_possible_score - self.overall_score,
    {
        self.maximum_possible_score - self.overall_score
    }
}

} // verus!

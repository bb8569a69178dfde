use vstd::prelude::*;

verus! {

/// Form data naming the résumé an alignment is requested for.
#[derive(Debug, Clone, PartialEq, Eq)]
pub struct AlignmentFormData {
    pub resume_id: String,
}

/// Basic identifying information about the candidate.
#[derive(Debug, Clone, PartialEq, Eq)]
pub struct PersonalInfo {
    pub candidate_name: String,
    pub headline: String,
    pub contact_info: Option<String>,
}

/// An online presence or link.
#[derive(Debug, Clone, PartialEq, Eq)]
pub struct Website {
    pub label: String,
    pub url: String,
}

/// A skill with a proficiency level.
#[derive(Debug, Clone, PartialEq, Eq)]
pub struct Skill {
    pub skill_name: String,
    pub proficiency: String,
}

/// A single work experience entry in the aligned form.
#[derive(Debug, Clone, PartialEq, Eq)]
pub struct WorkExperience {
    pub company: String,
    pub position: String,
    pub location: String,
    pub start_date: String,
    pub end_date: String,
    pub achievements: Vec<String>,
}

/// An educational qualification in the aligned form.
#[derive(Debug, Clone, PartialEq, Eq)]
pub struct Education {
    pub institution: String,
    pub degree: String,
    pub field_of_study: String,
    pub start_date: String,
    pub end_date: String,
    pub grade: String,
}

/// A professional certification in the aligned form.
#[derive(Debug, Clone, PartialEq, Eq)]
pub struct Certification {
    pub cert_name: String,
    pub issuing_organization: String,
}

/// A published work.
#[derive(Debug, Clone, PartialEq, Eq)]
pub struct Publication {
    pub title: String,
    pub publisher: String,
}

/// A notable project in the aligned form.
#[derive(Debug, Clone, PartialEq, Eq)]
pub struct Project {
    pub project_name: String,
    pub role: String,
    pub technologies: Vec<String>,
}

/// A contribution to an open source project.
#[derive(Debug, Clone, PartialEq, Eq)]
pub struct OpenSourceContribution {
    pub oss_name: String,
    pub date: String,
}

/// An award or honor.
#[derive(Debug, Clone, PartialEq, Eq)]
pub struct Award {
    pub title: String,
    pub issuer: String,
}

/// A patent in the aligned form.
#[derive(Debug, Clone, PartialEq, Eq)]
pub struct Patent {
    pub title: String,
    pub patent_id: String,
}

/// Volunteer work in the aligned form.
#[derive(Debug, Clone, PartialEq, Eq)]
pub struct VolunteerExperience {
    pub organization: String,
    pub role: String,
}

/// A speaking engagement or presentation.
#[derive(Debug, Clone, PartialEq, Eq)]
pub struct SpeakingEngagement {
    pub event_name: Option<String>,
    pub topic: Option<String>,
}

/// A complete, ideal résumé: the target shape an alignment rewrites
/// toward.
#[derive(Debug, Clone, PartialEq, Eq)]
pub struct ResumeAlignmentSchema {
    pub personal_info: PersonalInfo,
    pub summary: String,
    pub skills: Vec<Skill>,
    pub work_experience: Vec<WorkExperience>,
    pub education: Vec<Education>,
    pub certifications: Option<Vec<Certification>>,
    pub publications: Option<Vec<Publication>>,
    pub projects: Option<Vec<Project>>,
    pub open_source_contributions: Option<Vec<OpenSourceContribution>>,
    pub awards: Option<Vec<Award>>,
    pub patents: Option<Vec<Patent>>,
    pub volunteer_experience: Option<Vec<VolunteerExperience>>,
    pub speaking_engagements: Option<Vec<SpeakingEngagement>>,
}

} // verus!

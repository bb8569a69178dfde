use vstd::prelude::*;

verus! {

/// How a stored résumé came to be.
#[derive(Debug, Clone, Copy, PartialEq, Eq, Structural)]
pub enum ResumeKind {
    Uploaded,
    Edited,
    Unknown,
}

impl ResumeKind {
    /// The kind's name as stored alongside a document.
    pub fn label(&self) -> (r: &'static str)
        ensures
            match self {
                ResumeKind::Uploaded => r@ == "Uploaded"@,
                ResumeKind::Edited => r@ == "Edited"@,
                ResumeKind::Unknown => r@ == "Unknown"@,
            },
    {
        match self {
            ResumeKind::Uploaded => "Uploaded",
            ResumeKind::Edited => "Edited",
            ResumeKind::Unknown => "Unknown",
        }
    }
}

/// The professional role a résumé speaks for.
#[derive(Debug, Clone, Copy, PartialEq, Eq, Structural)]
pub enum Persona {
    ApplicationDeveloper,
    SoftwareEngineer,
    EngineeringManager,
    ProductManager,
    ProgramManager,
    SolutionArchitect,
    SolutionArchitectManager,
    /// Catchall for unknown or unclassified roles.
    TechProfessional,
}

impl Persona {
    /// The human-readable label of the persona.
    pub fn label(&self) -> (r: &'static str)
        ensures
            match self {
                Persona::ApplicationDeveloper => r@ == "Application Developer"@,
                Persona::SoftwareEngineer => r@ == "Software Engineer"@,
                Persona::EngineeringManager => r@ == "Engineering Manager"@,
                Persona::ProductManager => r@ == "Product Manager"@,
                Persona::ProgramManager => r@ == "Program Manager"@,
                Persona::SolutionArchitect => r@ == "Solution Architect"@,
                Persona::SolutionArchitectManager => r@ == "Solution Architect Manager"@,
                Persona::TechProfessional => r@ == "Tech Professional"@,
            },
    {
        match self {
            Persona::ApplicationDeveloper => "Application Developer",
            Persona::SoftwareEngineer => "Software Engineer",
            Persona::EngineeringManager => "Engineering Manager",
            Persona::ProductManager => "Product Manager",
            Persona::ProgramManager => "Program Manager",
            Persona::SolutionArchitect => "Solution Architect",
            Persona::SolutionArchitectManager => "Solution Architect Manager",
            Persona::TechProfessional => "Tech Professional",
        }
    }
}

/// Contact details.
#[derive(Debug, Clone, PartialEq, Eq)]
pub struct Contact {
    pub phone: Option<String>,
    pub email: Option<String>,
    pub linkedin: Option<String>,
    pub github: Option<String>,
    pub website: Option<String>,
    pub twitter: Option<String>,
}

/// An educational qualification.
#[derive(Debug, Clone, PartialEq, Eq)]
pub struct Education {
    pub institution: String,
    pub location: Option<String>,
    pub degree: Option<String>,
    pub field_of_study: Option<String>,
    pub gpa: Option<String>,
    pub dates: String,
}

/// One work experience entry.
#[derive(Debug, Clone, PartialEq, Eq)]
pub struct WorkExperience {
    pub company: String,
    pub location: Option<String>,
    pub title: String,
    pub dates: String,
    pub responsibilities: Vec<String>,
}

/// What a rewrite of the work experience changed: the entries it put in
/// and the entries it replaced.
#[derive(Debug, Clone, PartialEq, Eq)]
pub struct WorkExDiff {
    pub added: Vec<WorkExperience>,
    pub removed: Vec<WorkExperience>,
}

/// A project, personal or professional.
#[derive(Debug, Clone, PartialEq, Eq)]
pub struct Project {
    pub name: String,
    pub description: Option<String>,
    pub dates: Option<String>,
    pub technologies: Vec<String>,
    pub link: Option<String>,
}

/// Skill sets.
#[derive(Debug, Clone, PartialEq, Eq)]
pub struct Skills {
    pub technical: Vec<String>,
    pub soft_skills: Vec<String>,
    pub other_skills: Vec<String>,
}

/// A professional certification.
#[derive(Debug, Clone, PartialEq, Eq)]
pub struct Certification {
    pub name: String,
    pub issuer: Option<String>,
    pub date: Option<String>,
    pub link: Option<String>,
}

/// A keyword/context pair.
#[derive(Debug, Clone, PartialEq, Eq)]
pub struct Keyword {
    pub keyword: String,
    pub context: String,
}

/// A notable achievement.
#[derive(Debug, Clone, PartialEq, Eq)]
pub struct Achievement {
    pub title: String,
    pub details: Option<String>,
    pub date: Option<String>,
    pub link: Option<String>,
}

/// A publication reference.
#[derive(Debug, Clone, PartialEq, Eq)]
pub struct Publication {
    pub title: Option<String>,
    pub journal_or_conference: Option<String>,
    pub date: Option<String>,
    pub link: Option<String>,
}

/// Volunteer work.
#[derive(Debug, Clone, PartialEq, Eq)]
pub struct VolunteerExperience {
    pub organization: Option<String>,
    pub role: Option<String>,
    pub dates: Option<String>,
    pub description: Option<String>,
}

/// A blog entry.
#[derive(Debug, Clone, PartialEq, Eq)]
pub struct Blog {
    pub title: String,
    pub date: Option<String>,
    pub link: Option<String>,
    pub summary: Option<String>,
}

/// An open-source contribution.
#[derive(Debug, Clone, PartialEq, Eq)]
pub struct OpenSourceContribution {
    pub project_name: String,
    pub description: Option<String>,
    pub link: Option<String>,
    pub dates: Option<String>,
    pub technologies: Vec<String>,
}

/// Authored content: books, long-form articles, other published works.
#[derive(Debug, Clone, PartialEq, Eq)]
pub struct Authoring {
    pub title: String,
    pub publisher: Option<String>,
    pub date: Option<String>,
    pub link: Option<String>,
    pub description: Option<String>,
}

/// A patent record.
#[derive(Debug, Clone, PartialEq, Eq)]
pub struct Patent {
    pub title: String,
    pub patent_number: Option<String>,
    pub date: Option<String>,
    pub link: Option<String>,
    pub inventors: Option<Vec<String>>,
}

/// A résumé in structured form, as the parsing step hands it back.
#[derive(Debug, Clone, PartialEq, Eq)]
pub struct ParsedResume {
    pub name_slug: String,
    pub name: String,
    pub persona: Persona,
    pub contact: Contact,
    pub summary: Option<String>,
    pub education: Vec<Education>,
    pub work_experience: Vec<WorkExperience>,
    pub work_experience_diff: Option<WorkExDiff>,
    pub projects: Option<Vec<Project>>,
    pub skills: Option<Skills>,
    pub certifications: Option<Vec<Certification>>,
    pub achievements: Option<Vec<Achievement>>,
    pub publications: Option<Vec<Publication>>,
    pub volunteer_experience: Option<Vec<VolunteerExperience>>,
    pub interests_hobbies: Option<Vec<String>>,
    pub keywords: Option<Vec<Keyword>>,
    pub blogs: Option<Vec<Blog>>,
    pub open_source_contributions: Option<Vec<OpenSourceContribution>>,
    pub authoring: Option<Vec<Authoring>>,
    pub patents: Option<Vec<Patent>>,
}

impl ParsedResume {
    /// Records what a rewrite of the work experience changed, for
    /// display: which entries it would add and which it would replace.
    /// Everything else about the résumé stays as it was.
    pub fn record_work_diff(&mut self, added: Vec<WorkExperience>, removed: Vec<WorkExperience>)
        ensures
            (final(self).work_experience_diff matches Some(d) && d.added@ == added@ && d.removed@
                == removed@),
            (*final(self) == ParsedResume {
                work_experience_diff: final(self).work_experience_diff,
                ..*old(self)
            }),
    {
        self.work_experience_diff = Some(WorkExDiff { added, removed });
    }
}

} // verus!

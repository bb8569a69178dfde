use workq::environ_ops::Environment;
use workq::google::GoogleUserModel;
use workq::login_interceptor::{GateDecision, LoginInterceptor};
use workq::job_description::ParsedJobDescription;
use workq::jwt_ops::Claims;
use workq::resume::{Persona, ResumeKind, WorkExperience};
use workq::resume_score::ResumeScore;

fn work(company: &str) -> WorkExperience {
    WorkExperience {
        company: company.to_string(),
        location: None,
        title: "engineer".to_string(),
        dates: "2020-2024".to_string(),
        responsibilities: vec![],
    }
}

#[test]
fn parsed_jd_default_is_placeholder() {
    let jd = ParsedJobDescription::default();
    assert_eq!(jd.name_slug.as_deref(), Some("not-set"));
    assert!(jd.metadata.is_none());
    assert!(jd.keywords.is_none());
}

#[test]
fn resume_kind_labels() {
    assert_eq!(ResumeKind::Uploaded.label(), "Uploaded");
    assert_eq!(ResumeKind::Edited.label(), "Edited");
    assert_eq!(ResumeKind::Unknown.label(), "Unknown");
}

#[test]
fn persona_labels() {
    assert_eq!(Persona::ApplicationDeveloper.label(), "Application Developer");
    assert_eq!(Persona::SoftwareEngineer.label(), "Software Engineer");
    assert_eq!(Persona::EngineeringManager.label(), "Engineering Manager");
    assert_eq!(Persona::ProductManager.label(), "Product Manager");
    assert_eq!(Persona::ProgramManager.label(), "Program Manager");
    assert_eq!(Persona::SolutionArchitect.label(), "Solution Architect");
    assert_eq!(Persona::SolutionArchitectManager.label(), "Solution Architect Manager");
    assert_eq!(Persona::TechProfessional.label(), "Tech Professional");
}

#[test]
fn work_diff_records_both_sides() {
    let mut resume = workq::resume::ParsedResume {
        name_slug: "jane-doe".to_string(),
        name: "Jane Doe".to_string(),
        persona: Persona::SoftwareEngineer,
        contact: workq::resume::Contact {
            phone: None,
            email: None,
            linkedin: None,
            github: None,
            website: None,
            twitter: None,
        },
        summary: None,
        education: vec![],
        work_experience: vec![work("acme")],
        work_experience_diff: None,
        projects: None,
        skills: None,
        certifications: None,
        achievements: None,
        publications: None,
        volunteer_experience: None,
        interests_hobbies: None,
        keywords: None,
        blogs: None,
        open_source_contributions: None,
        authoring: None,
        patents: None,
    };
    let edited = vec![work("acme, improved")];
    let previous = resume.work_experience.clone();
    resume.record_work_diff(edited.clone(), previous);
    let diff = resume.work_experience_diff.as_ref().unwrap();
    assert_eq!(diff.added, edited);
    assert_eq!(diff.removed, vec![work("acme")]);
    assert_eq!(resume.work_experience, vec![work("acme")]);
}

#[test]
fn score_default_and_gap() {
    let score = ResumeScore::default();
    assert_eq!(score.overall_score, 0);
    assert_eq!(score.maximum_possible_score, 0);
    assert!(matches!(score.persona, Persona::TechProfessional));
    let better = ResumeScore { overall_score: 70, maximum_possible_score: 100, ..score };
    assert_eq!(better.gap(), 30);
}

#[test]
fn google_model_default_is_placeholder() {
    let g = GoogleUserModel::default();
    assert_eq!(g.id, "not-set");
    assert_eq!(g.email, "not-set");
    assert!(!g.verified_email);
    assert_eq!(g.picture, "not-set");
}

#[test]
fn claims_default_and_validity() {
    let empty = Claims::default();
    assert_eq!(empty.sub, "");
    assert_eq!(empty.exp, 0);
    assert!(!empty.valid_at(0));
    let live = Claims { sub: "user@example.com".to_string(), exp: 1000 };
    assert!(live.valid_at(999));
    assert!(!live.valid_at(1000));
    assert!(!live.valid_at(2000));
}

#[test]
fn claims_issue_lives_two_hours() {
    let c = workq::jwt_ops::Claims::issue("user@example.com", 1000);
    assert_eq!(c.sub, "user@example.com");
    assert_eq!(c.exp, 8200);
    assert!(c.valid_at(8199));
    assert!(!c.valid_at(8200));
}

#[test]
fn login_gate_rules() {
    let service = LoginInterceptor {}.new_transform(());
    // development passes only while debugging is allowed
    assert_eq!(service.decide_gate(Environment::Dev, true, false, false), GateDecision::Proceed);
    assert_eq!(
        service.decide_gate(Environment::Dev, false, true, true),
        GateDecision::RedirectToLogin
    );
    // production needs a valid token with readable claims
    assert_eq!(service.decide_gate(Environment::Prod, true, true, true), GateDecision::Proceed);
    assert_eq!(
        service.decide_gate(Environment::Prod, true, true, false),
        GateDecision::RedirectToLogin
    );
    assert_eq!(
        service.decide_gate(Environment::Prod, true, false, false),
        GateDecision::RedirectToLogin
    );
}

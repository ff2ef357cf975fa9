use vstd::prelude::*;

verus! {

#[derive(Debug, Clone, Copy, PartialEq, Eq, Structural)]
pub enum ReuseStrategy {
    New,
    Reused,
    EditedReuse,
}

/// The truthful source of a resume.  Tailoring may reorder and select, but
/// never fabricate.
#[derive(Debug, Clone)]
pub struct CanonicalProfile {
    pub name: String,
    pub headline: Option<String>,
    pub contact: Contact,
    pub summary: Option<String>,
    pub skills: Vec<SkillGroup>,
    pub experience: Vec<ExperienceEntry>,
    pub projects: Vec<ProjectEntry>,
    pub education: Vec<EducationEntry>,
    pub certifications: Vec<CertificationEntry>,
}

#[derive(Debug, Clone)]
pub struct Contact {
    pub email: Option<String>,
    pub phone: Option<String>,
    pub location: Option<String>,
    pub website: Option<String>,
    pub linkedin: Option<String>,
    pub github: Option<String>,
}

#[derive(Debug, Clone)]
pub struct SkillGroup {
    pub category: String,
    pub skills: Vec<String>,
}

#[derive(Debug, Clone)]
pub struct ExperienceEntry {
    pub company: String,
    pub title: String,
    pub location: Option<String>,
    pub start_date: String,
    pub end_date: Option<String>,
    /// Full truthful bullet list.  Tailoring selects a subset.
    pub bullets: Vec<String>,
    /// Optional per-bullet skill tags, parallel to `bullets`.
    pub bullet_tags: Vec<Vec<String>>,
}

#[derive(Debug, Clone)]
pub struct ProjectEntry {
    pub name: String,
    pub link: Option<String>,
    /// Tools line shown under the project name, if any.
    pub tools: Option<String>,
    pub bullets: Vec<String>,
    pub bullet_tags: Vec<Vec<String>>,
}

#[derive(Debug, Clone)]
pub struct EducationEntry {
    pub institution: String,
    pub degree: String,
    pub field: Option<String>,
    pub start_date: Option<String>,
    pub end_date: Option<String>,
    pub gpa: Option<String>,
    pub highlights: Vec<String>,
}

#[derive(Debug, Clone)]
pub struct CertificationEntry {
    pub name: String,
    pub issuer: Option<String>,
    pub date: Option<String>,
}

} // verus!

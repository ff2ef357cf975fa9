use vstd::prelude::*;

verus! {

/// Where a posting was discovered.
#[derive(Debug, Clone, Copy, PartialEq, Eq, Structural)]
pub enum SourceName {
    Greenhouse,
    Lever,
    Ashby,
    Indeed,
    Linkedin,
    Manual,
    EmployerPortal,
    Other,
}

pub open spec fn source_name_text(s: SourceName) -> Seq<char> {
    match s {
        SourceName::Greenhouse => "greenhouse"@,
        SourceName::Lever => "lever"@,
        SourceName::Ashby => "ashby"@,
        SourceName::Indeed => "indeed"@,
        SourceName::Linkedin => "linkedin"@,
        SourceName::Manual => "manual"@,
        SourceName::EmployerPortal => "employer_portal"@,
        SourceName::Other => "other"@,
    }
}

/// Different sources have different names.
pub proof fn lemma_source_name_text_injective(a: SourceName, b: SourceName)
    requires
        a != b,
    ensures
        source_name_text(a) != source_name_text(b),
{
    reveal_strlit("greenhouse");
    reveal_strlit("lever");
    reveal_strlit("ashby");
    reveal_strlit("indeed");
    reveal_strlit("linkedin");
    reveal_strlit("manual");
    reveal_strlit("employer_portal");
    reveal_strlit("other");
    let x = source_name_text(a);
    let y = source_name_text(b);
    if x.len() == y.len() {
        assert(x[0] != y[0]);
    }
}

impl SourceName {
    pub fn as_str(&self) -> (r: &'static str)
        ensures
            r@ == source_name_text(*self),
    {
        match self {
            SourceName::Greenhouse => "greenhouse",
            SourceName::Lever => "lever",
            SourceName::Ashby => "ashby",
            SourceName::Indeed => "indeed",
            SourceName::Linkedin => "linkedin",
            SourceName::Manual => "manual",
            SourceName::EmployerPortal => "employer_portal",
            SourceName::Other => "other",
        }
    }
}

#[derive(Debug, Clone, Copy, PartialEq, Eq, Structural)]
pub enum WorkMode {
    Remote,
    Hybrid,
    Onsite,
    Unknown,
}

#[derive(Debug, Clone, Copy, PartialEq, Eq, Structural)]
pub enum RecencyBucket {
    Today,
    Yesterday,
    Week,
    TwoWeeks,
    Month,
    Older,
}

/// Sponsorship confidence for a STEM OPT candidate.
#[derive(Debug, Clone, Copy, PartialEq, Eq, Structural)]
pub enum SponsorshipConfidence {
    ExplicitSponsor,
    SponsorLikely,
    SponsorUnclear,
    SponsorUnlikely,
    ExplicitNoSponsorship,
}

#[derive(Debug, Clone, Copy, PartialEq, Eq, Structural)]
pub enum JobStatus {
    New,
    ResumePrepared,
    ReadyToApply,
    Applied,
    OaReceived,
    Interview,
    Rejected,
    Closed,
    Skipped,
}

/// The shape the ingestion layer produces before the row is persisted.
/// Computed fields (recency bucket, match score, paths, status) are filled
/// later in the pipeline.
#[derive(Debug, Clone)]
pub struct JobIngest {
    pub company_name: String,
    pub source_name: SourceName,
    pub source_url: Option<String>,
    pub apply_url: Option<String>,
    pub role_title: String,
    pub job_external_id: Option<String>,
    pub location: Option<String>,
    pub work_mode: WorkMode,
    pub posted_date: Option<String>,
    pub jd_text: Option<String>,
    pub required_skills: Vec<String>,
    pub preferred_skills: Vec<String>,
}

} // verus!

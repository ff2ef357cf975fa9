//! Greenhouse public board connector:
//! `GET https://boards-api.greenhouse.io/v1/boards/{slug}/jobs?content=true`.
use crate::domain::job::{JobIngest, SourceName, WorkMode};
use crate::ingestion::normalize::{html_text, html_to_text, iso_date, iso_to_date};
use crate::int_text::{decimal, i64_text};
use crate::text::{chars_of, extend, owned, string_of};
use crate::urls::{form_encode, form_encoded};
use vstd::prelude::*;

verus! {

#[derive(Debug, Clone)]
pub struct GreenhouseLocation {
    pub name: Option<String>,
}

/// One posting of the board's JSON.
#[derive(Debug, Clone)]
pub struct GreenhousePosting {
    pub id: i64,
    pub title: String,
    pub location: Option<GreenhouseLocation>,
    /// ISO timestamp.
    pub updated_at: Option<String>,
    pub absolute_url: Option<String>,
    /// HTML job description.
    pub content: Option<String>,
    pub company_name: Option<String>,
}

pub open spec fn board_url_text(slug: Seq<char>) -> Seq<char> {
    "https://boards-api.greenhouse.io/v1/boards/"@ + form_encoded(slug) + "/jobs?content=true"@
}

/// The board URL, with the slug form-encoded.
pub fn board_url(slug: &str) -> (r: String)
    ensures
        r@ == board_url_text(slug@),
{
    let mut v = chars_of("https://boards-api.greenhouse.io/v1/boards/");
    extend(&mut v, &chars_of(&form_encode(slug)));
    extend(&mut v, &chars_of("/jobs?content=true"));
    string_of(&v)
}

pub fn to_ingest(slug: &str, p: GreenhousePosting) -> (r: JobIngest)
    ensures
        r.company_name@ == match p.company_name {
            Some(c) => c@,
            None => slug@,
        },
        r.source_name == SourceName::Greenhouse,
        r.source_url.deep_view() == p.absolute_url.deep_view(),
        r.apply_url.deep_view() == p.absolute_url.deep_view(),
        r.role_title@ == p.title@,
        r.job_external_id.deep_view() == Some(decimal(p.id as int)),
        r.location.deep_view() == match p.location {
            Some(l) => l.name.deep_view(),
            None => None,
        },
        r.work_mode == WorkMode::Unknown,
        r.posted_date.deep_view() == match p.updated_at {
            Some(u) => iso_date(u@),
            None => None,
        },
        r.jd_text.deep_view() == match p.content {
            Some(c) => Some(html_text(c@)),
            None => None,
        },
        r.required_skills@.len() == 0,
        r.preferred_skills@.len() == 0,
{
    let jd = match &p.content {
        Some(c) => Some(html_to_text(c.as_str())),
        None => None,
    };
    let loc = match p.location {
        Some(l) => l.name,
        None => None,
    };
    let posted = match &p.updated_at {
        Some(u) => iso_to_date(u.as_str()),
        None => None,
    };
    let company_name = match p.company_name {
        Some(c) => c,
        None => owned(slug),
    };
    let apply_url = p.absolute_url.clone();
    JobIngest {
        company_name,
        source_name: SourceName::Greenhouse,
        source_url: p.absolute_url,
        apply_url,
        role_title: p.title,
        job_external_id: Some(i64_text(p.id)),
        location: loc,
        work_mode: WorkMode::Unknown,
        posted_date: posted,
        jd_text: jd,
        required_skills: Vec::new(),
        preferred_skills: Vec::new(),
    }
}

} // verus!

//! Ashby public board connector:
//! `GET https://api.ashbyhq.com/posting-api/job-board/{slug}`.
use crate::domain::job::{JobIngest, SourceName, WorkMode};
use crate::ingestion::normalize::{html_text, html_to_text, iso_date, iso_to_date};
use crate::text::{chars_of, extend, owned, string_of};
use vstd::prelude::*;

verus! {

/// One posting of the board's JSON.
#[derive(Debug, Clone)]
pub struct AshbyPosting {
    pub id: String,
    pub title: String,
    pub job_url: Option<String>,
    pub application_url: Option<String>,
    pub description_html: Option<String>,
    pub location_name: Option<String>,
    pub published_date: Option<String>,
    pub is_remote: Option<bool>,
}

pub open spec fn board_url_text(slug: Seq<char>) -> Seq<char> {
    "https://api.ashbyhq.com/posting-api/job-board/"@ + slug
}

pub fn board_url(slug: &str) -> (r: String)
    ensures
        r@ == board_url_text(slug@),
{
    let mut v = chars_of("https://api.ashbyhq.com/posting-api/job-board/");
    extend(&mut v, &chars_of(slug));
    string_of(&v)
}

pub fn to_ingest(slug: &str, p: AshbyPosting) -> (r: JobIngest)
    ensures
        r.company_name@ == slug@,
        r.source_name == SourceName::Ashby,
        r.source_url.deep_view() == p.job_url.deep_view(),
        r.apply_url.deep_view() == match p.application_url {
            Some(a) => Some(a@),
            None => p.job_url.deep_view(),
        },
        r.role_title@ == p.title@,
        r.job_external_id.deep_view() == Some(p.id@),
        r.location.deep_view() == p.location_name.deep_view(),
        r.work_mode == (if p.is_remote == Some(true) {
            WorkMode::Remote
        } else {
            WorkMode::Unknown
        }),
        r.posted_date.deep_view() == match p.published_date {
            Some(u) => iso_date(u@),
            None => None,
        },
        r.jd_text.deep_view() == match p.description_html {
            Some(c) => Some(html_text(c@)),
            None => None,
        },
        r.required_skills@.len() == 0,
        r.preferred_skills@.len() == 0,
{
    let jd = match &p.description_html {
        Some(c) => Some(html_to_text(c.as_str())),
        None => None,
    };
    let posted = match &p.published_date {
        Some(u) => iso_to_date(u.as_str()),
        None => None,
    };
    let source_url = p.job_url.clone();
    let apply_url = match p.application_url {
        Some(a) => Some(a),
        None => p.job_url,
    };
    let work_mode = match p.is_remote {
        Some(true) => WorkMode::Remote,
        _ => WorkMode::Unknown,
    };
    JobIngest {
        company_name: owned(slug),
        source_name: SourceName::Ashby,
        source_url,
        apply_url,
        role_title: p.title,
        job_external_id: Some(p.id),
        location: p.location_name,
        work_mode,
        posted_date: posted,
        jd_text: jd,
        required_skills: Vec::new(),
        preferred_skills: Vec::new(),
    }
}

} // verus!

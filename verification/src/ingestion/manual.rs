//! Manual import: the user pastes a URL or raw JD text.  For URLs the host
//! picks a better `source_name`; the page itself is not scraped here.
use crate::domain::job::{JobIngest, SourceName, WorkMode};
use crate::error::AppError;
use crate::text::{ascii_lower, ascii_lower_vec, chars_of, contains_str, contains_sub, owned, string_of, trim, trim_vec, TrimSet};
use crate::urls::{parse_url, url_parse};
use vstd::prelude::*;

verus! {

/// The source a posting URL's (lower-cased) host points to.
pub open spec fn source_for_host(host: Seq<char>) -> SourceName {
    if contains_sub(host, "greenhouse.io"@) {
        SourceName::Greenhouse
    } else if contains_sub(host, "lever.co"@) {
        SourceName::Lever
    } else if contains_sub(host, "ashbyhq.com"@) {
        SourceName::Ashby
    } else if contains_sub(host, "indeed."@) {
        SourceName::Indeed
    } else if contains_sub(host, "linkedin.com"@) {
        SourceName::Linkedin
    } else if contains_sub(host, "myworkdayjobs"@) || contains_sub(host, "icims"@) || contains_sub(
        host,
        "smartrecruiters"@,
    ) {
        SourceName::EmployerPortal
    } else {
        SourceName::Other
    }
}

pub fn sniff_source(host: &str) -> (r: SourceName)
    ensures
        r == source_for_host(host@),
{
    let h = chars_of(host);
    if contains_str(&h, "greenhouse.io") {
        SourceName::Greenhouse
    } else if contains_str(&h, "lever.co") {
        SourceName::Lever
    } else if contains_str(&h, "ashbyhq.com") {
        SourceName::Ashby
    } else if contains_str(&h, "indeed.") {
        SourceName::Indeed
    } else if contains_str(&h, "linkedin.com") {
        SourceName::Linkedin
    } else if contains_str(&h, "myworkdayjobs") || contains_str(&h, "icims") || contains_str(
        &h,
        "smartrecruiters",
    ) {
        SourceName::EmployerPortal
    } else {
        SourceName::Other
    }
}

/// A manual import carries only what the user typed: trimmed company and
/// title, the given links and JD, nothing inferred.
pub open spec fn manual_ingest(
    r: JobIngest,
    company_name: Seq<char>,
    role_title: Seq<char>,
    source: SourceName,
    url: Option<Seq<char>>,
    jd: Option<Seq<char>>,
) -> bool {
    &&& r.company_name@ == trim(company_name)
    &&& r.source_name == source
    &&& r.source_url.deep_view() == url
    &&& r.apply_url.deep_view() == url
    &&& r.role_title@ == trim(role_title)
    &&& r.job_external_id is None
    &&& r.location is None
    &&& r.work_mode == WorkMode::Unknown
    &&& r.posted_date is None
    &&& r.jd_text.deep_view() == jd
    &&& r.required_skills@.len() == 0
    &&& r.preferred_skills@.len() == 0
}

fn trimmed(s: &str) -> (r: String)
    ensures
        r@ == trim(s@),
{
    string_of(&trim_vec(&chars_of(s), TrimSet::Whitespace))
}

/// Build a `JobIngest` from pasted JD text plus title and company.
pub fn from_text(company_name: &str, role_title: &str, jd_text: String) -> (r: JobIngest)
    ensures
        manual_ingest(r, company_name@, role_title@, SourceName::Manual, None, Some(jd_text@)),
{
    JobIngest {
        company_name: trimmed(company_name),
        source_name: SourceName::Manual,
        source_url: None,
        apply_url: None,
        role_title: trimmed(role_title),
        job_external_id: None,
        location: None,
        work_mode: WorkMode::Unknown,
        posted_date: None,
        jd_text: Some(jd_text),
        required_skills: Vec::new(),
        preferred_skills: Vec::new(),
    }
}

/// Build a `JobIngest` from a pasted URL plus the fields that cannot be
/// inferred (title, company).  A URL that does not parse is refused as
/// invalid input; a URL without a host counts as "other".
pub fn from_url(url: &str, company_name: &str, role_title: &str, jd_text: Option<String>) -> (r:
    Result<JobIngest, AppError>)
    ensures
        url_parse(url@) is None <==> r is Err,
        r matches Err(e) ==> (e matches AppError::Invalid(m) && m@ == "invalid URL"@),
        r matches Ok(j) ==> manual_ingest(
            j,
            company_name@,
            role_title@,
            source_for_host(
                ascii_lower(
                    match (url_parse(url@)->0).1 {
                        Some(h) => h,
                        None => seq![],
                    },
                ),
            ),
            Some(url@),
            jd_text.deep_view(),
        ),
{
    let parsed = match parse_url(url) {
        Some(p) => p,
        None => {
            return Err(AppError::invalid("invalid URL"));
        },
    };
    let ghost raw_host: Seq<char> = match (url_parse(url@)->0).1 {
        Some(h) => h,
        None => seq![],
    };
    let host = match &parsed.host {
        Some(h) => ascii_lower_vec(&chars_of(h.as_str())),
        None => Vec::new(),
    };
    assert(host@ == ascii_lower(raw_host));
    let source_name = sniff_source(string_of(&host).as_str());
    Ok(
        JobIngest {
            company_name: trimmed(company_name),
            source_name,
            source_url: Some(owned(url)),
            apply_url: Some(owned(url)),
            role_title: trimmed(role_title),
            job_external_id: None,
            location: None,
            work_mode: WorkMode::Unknown,
            posted_date: None,
            jd_text,
            required_skills: Vec::new(),
            preferred_skills: Vec::new(),
        },
    )
}

} // verus!

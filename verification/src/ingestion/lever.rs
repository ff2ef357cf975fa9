//! Lever public board connector:
//! `GET https://api.lever.co/v0/postings/{slug}?mode=json`.
use crate::dates::{
    date_of_day, epoch_day, format_ymd, lemma_date_of_day, utc_date_of_timestamp, ymd_text,
    CalendarDate,
};
use crate::domain::job::{JobIngest, SourceName, WorkMode};
use crate::text::{chars_of, extend, owned, string_of};
use vstd::prelude::*;

verus! {

#[derive(Debug, Clone)]
pub struct LeverCategories {
    pub location: Option<String>,
    /// Full-time, etc.
    pub commitment: Option<String>,
    pub all_locations: Vec<String>,
}

/// One posting of the board's JSON.
#[derive(Debug, Clone)]
pub struct LeverPosting {
    pub id: String,
    pub text: String,
    pub hosted_url: Option<String>,
    pub apply_url: Option<String>,
    pub description_plain: Option<String>,
    /// Milliseconds since the Unix epoch.
    pub created_at: Option<i64>,
    pub categories: LeverCategories,
}

pub open spec fn board_url_text(slug: Seq<char>) -> Seq<char> {
    "https://api.lever.co/v0/postings/"@ + slug + "?mode=json"@
}

pub fn board_url(slug: &str) -> (r: String)
    ensures
        r@ == board_url_text(slug@),
{
    let mut v = chars_of("https://api.lever.co/v0/postings/");
    extend(&mut v, &chars_of(slug));
    extend(&mut v, &chars_of("?mode=json"));
    string_of(&v)
}

/// `ms / 1000` rounded toward zero, as Rust's integer division does.
pub open spec fn whole_seconds(ms: i64) -> i64 {
    if ms >= 0 {
        (ms / 1000) as i64
    } else {
        (-((-ms) / 1000)) as i64
    }
}

/// The UTC date of a millisecond timestamp, as `YYYY-MM-DD`; a timestamp
/// outside chrono's range gives the Unix epoch's date.
pub open spec fn created_date(ms: i64) -> Seq<char> {
    match date_of_day(epoch_day() + whole_seconds(ms) / 86400) {
        Some(d) => ymd_text(d.year, d.month, d.day),
        None => ymd_text(1970, 1, 1),
    }
}

fn seconds_of(ms: i64) -> (s: i64)
    ensures
        s == whole_seconds(ms),
{
    if ms >= 0 {
        ms / 1000
    } else if ms == i64::MIN {
        -9223372036854775
    } else {
        let pos: i64 = -ms;
        -(pos / 1000)
    }
}

pub fn to_ingest(slug: &str, p: LeverPosting) -> (r: JobIngest)
    ensures
        r.company_name@ == slug@,
        r.source_name == SourceName::Lever,
        r.source_url.deep_view() == p.hosted_url.deep_view(),
        r.apply_url.deep_view() == match p.apply_url {
            Some(a) => Some(a@),
            None => p.hosted_url.deep_view(),
        },
        r.role_title@ == p.text@,
        r.job_external_id.deep_view() == Some(p.id@),
        r.location.deep_view() == match p.categories.location {
            Some(l) => Some(l@),
            None => if p.categories.all_locations@.len() > 0 {
                Some(p.categories.all_locations@[0]@)
            } else {
                None
            },
        },
        r.work_mode == WorkMode::Unknown,
        r.posted_date.deep_view() == match p.created_at {
            Some(ms) => Some(created_date(ms)),
            None => None,
        },
        r.jd_text.deep_view() == p.description_plain.deep_view(),
        r.required_skills@.len() == 0,
        r.preferred_skills@.len() == 0,
{
    let location = match p.categories.location {
        Some(l) => Some(l),
        None => if p.categories.all_locations.len() > 0 {
            Some(p.categories.all_locations[0].clone())
        } else {
            None
        },
    };
    let posted = match p.created_at {
        Some(ms) => {
            let secs = seconds_of(ms);
            let d = match utc_date_of_timestamp(secs) {
                Some(d) => {
                    proof {
                        lemma_date_of_day(d);
                    }
                    d
                },
                None => CalendarDate { year: 1970, month: 1, day: 1 },
            };
            Some(format_ymd(d))
        },
        None => None,
    };
    let source_url = p.hosted_url.clone();
    let apply_url = match p.apply_url {
        Some(a) => Some(a),
        None => p.hosted_url,
    };
    JobIngest {
        company_name: owned(slug),
        source_name: SourceName::Lever,
        source_url,
        apply_url,
        role_title: p.text,
        job_external_id: Some(p.id),
        location,
        work_mode: WorkMode::Unknown,
        posted_date: posted,
        jd_text: p.description_plain,
        required_skills: Vec::new(),
        preferred_skills: Vec::new(),
    }
}

} // verus!

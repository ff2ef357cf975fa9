//! LinkedIn discovery-only flow.  The user pastes a LinkedIn job URL; the
//! official employer / ATS URL is taken as the source of truth when it can
//! be found, either where LinkedIn redirects to or in the page's hints.
//! Otherwise the LinkedIn URL is kept as a provisional pointer.
use crate::error::AppError;
use crate::html::{first_attr, select_attr};
use crate::text::{chars_of, contains_sub, extend, owned, str_eq, vec_eq};
use crate::urls::{parse_url, url_parse};
use vstd::prelude::*;

verus! {

pub const ATS_HOSTS: [&'static str; 10] = [
    "boards.greenhouse.io",
    "job-boards.greenhouse.io",
    "jobs.lever.co",
    "jobs.ashbyhq.com",
    "myworkdayjobs.com",
    "icims.com",
    "smartrecruiters.com",
    "jobs.smartrecruiters.com",
    "careers.oracle.com",
    "workday.com",
];

/// What the discovery flow found.
#[derive(Debug, Clone)]
pub struct Resolution {
    /// Best-guess canonical URL (either an ATS URL or the LinkedIn URL).
    pub canonical_url: String,
    /// Set when `canonical_url` is an ATS/employer URL.
    pub resolved_to_ats: bool,
    pub ats_host: Option<String>,
    pub title_hint: Option<String>,
    pub company_hint: Option<String>,
}

/// The resolution as the user interface receives it.
#[derive(Debug, Clone)]
pub struct LinkedinResolution {
    pub canonical_url: String,
    pub resolved_to_ats: bool,
    pub ats_host: Option<String>,
    pub title_hint: Option<String>,
    pub company_hint: Option<String>,
}

impl LinkedinResolution {
    pub fn from_resolution(r: Resolution) -> (l: LinkedinResolution)
        ensures
            l.canonical_url == r.canonical_url,
            l.resolved_to_ats == r.resolved_to_ats,
            l.ats_host == r.ats_host,
            l.title_hint == r.title_hint,
            l.company_hint == r.company_hint,
    {
        LinkedinResolution {
            canonical_url: r.canonical_url,
            resolved_to_ats: r.resolved_to_ats,
            ats_host: r.ats_host,
            title_hint: r.title_hint,
            company_hint: r.company_hint,
        }
    }
}

pub open spec fn ends_with(s: Seq<char>, suffix: Seq<char>) -> bool {
    suffix.len() <= s.len() && s.skip(s.len() - suffix.len()) == suffix
}

/// `host` is `h` or a subdomain of it.
pub open spec fn host_is(host: Seq<char>, h: Seq<char>) -> bool {
    host == h || ends_with(host, seq!['.'] + h)
}

/// The first ATS host (in table order from `k`) that `host` belongs to.
pub open spec fn ats_from(host: Seq<char>, k: int) -> Option<Seq<char>>
    decreases 10 - k,
{
    if k < 0 || k >= 10 {
        None
    } else if host_is(host, ATS_HOSTS@[k]@) {
        Some(ATS_HOSTS@[k]@)
    } else {
        ats_from(host, k + 1)
    }
}

fn vec_ends_with(v: &Vec<char>, suffix: &Vec<char>) -> (b: bool)
    ensures
        b == ends_with(v@, suffix@),
{
    if suffix.len() > v.len() {
        return false;
    }
    let off = v.len() - suffix.len();
    let tail = crate::text::sub_vec(v, off, v.len());
    assert(tail@ =~= v@.skip(off as int));
    vec_eq(&tail, suffix)
}

pub fn match_ats(host: &str) -> (r: Option<&'static str>)
    ensures
        match r {
            Some(h) => ats_from(host@, 0) == Some(h@),
            None => ats_from(host@, 0) is None,
        },
{
    let hv = chars_of(host);
    let mut k: usize = 0;
    while k < 10
        invariant
            k <= 10,
            hv@ == host@,
            ats_from(host@, 0) == ats_from(host@, k as int),
        decreases 10 - k,
    {
        let h = ATS_HOSTS[k];
        let mut dotted: Vec<char> = Vec::new();
        dotted.push('.');
        extend(&mut dotted, &chars_of(h));
        assert(dotted@ =~= seq!['.'] + h@);
        if str_eq(host, h) || vec_ends_with(&hv, &dotted) {
            return Some(h);
        }
        k = k + 1;
    }
    None
}

/// Only LinkedIn URLs enter the discovery flow.
pub open spec fn linkedin_url_ok(li_url: Seq<char>) -> Result<(), ()> {
    match url_parse(li_url) {
        None => Err(()),
        Some(u) => if u.1 matches Some(h) && ends_with(h, "linkedin.com"@) {
            Ok(())
        } else {
            Err(())
        },
    }
}

/// Refuse what is not a LinkedIn URL: a string that does not parse is a
/// URL error, a URL on another host is invalid input.
pub fn check_linkedin_url(li_url: &str) -> (r: Result<(), AppError>)
    ensures
        r is Ok <==> linkedin_url_ok(li_url@) is Ok,
        url_parse(li_url@) is None ==> r == Err::<(), AppError>(AppError::Url),
        url_parse(li_url@) is Some && r is Err ==> (r matches Err(AppError::Invalid(m)) && m@
            == "not a linkedin URL"@),
{
    let parsed = match parse_url(li_url) {
        Some(p) => p,
        None => {
            return Err(AppError::Url);
        },
    };
    let host = match &parsed.host {
        Some(h) => Some(h.as_str()),
        None => None,
    };
    if is_linkedin_host(host) {
        Ok(())
    } else {
        Err(AppError::invalid("not a linkedin URL"))
    }
}

/// Whether a parsed URL's host (if it has one) is LinkedIn's.
pub fn is_linkedin_host(host: Option<&str>) -> (b: bool)
    ensures
        b == (host matches Some(h) && ends_with(h@, "linkedin.com"@)),
{
    match host {
        Some(h) => vec_ends_with(&chars_of(h), &chars_of("linkedin.com")),
        None => false,
    }
}

/// The ATS URL a candidate string names, if any: its serialization and the
/// ATS host it belongs to.
pub open spec fn ats_target(candidate: Option<Seq<char>>) -> Option<(Seq<char>, Seq<char>)> {
    match candidate {
        None => None,
        Some(c) => match url_parse(c) {
            None => None,
            Some(u) => match u.1 {
                None => None,
                Some(host) => match ats_from(host, 0) {
                    None => None,
                    Some(h) => Some((u.0, h)),
                },
            },
        },
    }
}

fn ats_target_of(candidate: &Option<String>) -> (r: Option<(String, &'static str)>)
    ensures
        match r {
            Some(p) => ats_target(candidate.deep_view()) == Some((p.0@, p.1@)),
            None => ats_target(candidate.deep_view()) is None,
        },
{
    let c = match candidate {
        Some(c) => c,
        None => {
            return None;
        },
    };
    let u = match parse_url(c.as_str()) {
        Some(u) => u,
        None => {
            return None;
        },
    };
    let host = match &u.host {
        Some(h) => h,
        None => {
            return None;
        },
    };
    match match_ats(host.as_str()) {
        Some(h) => Some((u.serialized, h)),
        None => None,
    }
}

pub const SEL_OG_URL: &'static str = r#"meta[property="og:url"]"#;

pub const SEL_CANONICAL: &'static str = r#"link[rel="canonical"]"#;

pub const SEL_OG_TITLE: &'static str = r#"meta[property="og:title"]"#;

pub const SEL_AUTHOR: &'static str = r#"meta[name="author"]"#;

pub const SEL_ORG_NAME: &'static str = r#"a[data-tracking-control-name="public_jobs_topcard-org-name"]"#;

pub const SEL_APPLY_BUTTON: &'static str = "a.apply-button";

pub const SEL_APPLY_OFFSITE: &'static str = "a[data-tracking-control-name=\"public_jobs_apply-link-offsite\"]";

/// The hints a LinkedIn job page carries.
pub open spec fn page_title(body: Seq<char>) -> Option<Seq<char>> {
    first_attr(body, SEL_OG_TITLE@, "content"@)
}

pub open spec fn page_company(body: Seq<char>) -> Option<Seq<char>> {
    if first_attr(body, SEL_AUTHOR@, "content"@) is Some {
        first_attr(body, SEL_AUTHOR@, "content"@)
    } else {
        first_attr(body, SEL_ORG_NAME@, "href"@)
    }
}

pub open spec fn page_apply_href(body: Seq<char>) -> Option<Seq<char>> {
    if first_attr(body, SEL_APPLY_BUTTON@, "href"@) is Some {
        first_attr(body, SEL_APPLY_BUTTON@, "href"@)
    } else {
        first_attr(body, SEL_APPLY_OFFSITE@, "href"@)
    }
}

/// The resolution, as (canonical URL, resolved to ATS, ATS host, title
/// hint, company hint): where the redirect landed if that is an ATS,
/// else the first of the page's apply link, `og:url` and canonical link
/// that is an ATS URL, else the LinkedIn URL itself.
pub open spec fn resolution_of(li_url: Seq<char>, final_url: Seq<char>, body: Seq<char>) -> (
    Seq<char>,
    bool,
    Option<Seq<char>>,
    Option<Seq<char>>,
    Option<Seq<char>>,
) {
    if ats_target(Some(final_url)) is Some {
        let t = ats_target(Some(final_url))->0;
        (t.0, true, Some(t.1), None, None)
    } else {
        hints_resolution(
            li_url,
            ats_target(page_apply_href(body)),
            ats_target(first_attr(body, SEL_OG_URL@, "content"@)),
            ats_target(first_attr(body, SEL_CANONICAL@, "href"@)),
            page_title(body),
            page_company(body),
        )
    }
}

/// The resolution from a page's hints: the first of the apply link's,
/// `og:url`'s and canonical link's ATS targets, else the LinkedIn URL.
pub open spec fn hints_resolution(
    li_url: Seq<char>,
    apply: Option<(Seq<char>, Seq<char>)>,
    og: Option<(Seq<char>, Seq<char>)>,
    canonical: Option<(Seq<char>, Seq<char>)>,
    title: Option<Seq<char>>,
    company: Option<Seq<char>>,
) -> (Seq<char>, bool, Option<Seq<char>>, Option<Seq<char>>, Option<Seq<char>>) {
    if apply is Some {
        ((apply->0).0, true, Some((apply->0).1), title, company)
    } else if og is Some {
        ((og->0).0, true, Some((og->0).1), title, company)
    } else if canonical is Some {
        ((canonical->0).0, true, Some((canonical->0).1), title, company)
    } else {
        (li_url, false, None, title, company)
    }
}

pub open spec fn target_view(t: Option<(String, &'static str)>) -> Option<(Seq<char>, Seq<char>)> {
    match t {
        Some(p) => Some((p.0@, p.1@)),
        None => None,
    }
}

pub open spec fn resolution_view(r: Resolution) -> (
    Seq<char>,
    bool,
    Option<Seq<char>>,
    Option<Seq<char>>,
    Option<Seq<char>>,
) {
    (
        r.canonical_url@,
        r.resolved_to_ats,
        r.ats_host.deep_view(),
        r.title_hint.deep_view(),
        r.company_hint.deep_view(),
    )
}

/// Decide the resolution of a fetched LinkedIn page: `final_url` is where
/// the request for `li_url` ended after redirects, `body` the page text.
pub fn resolve_page(li_url: &str, final_url: &str, body: &str) -> (r: Resolution)
    ensures
        resolution_view(r) == resolution_of(li_url@, final_url@, body@),
{
    let fin = Some(owned(final_url));
    if let Some((url, h)) = ats_target_of(&fin) {
        return Resolution {
            canonical_url: url,
            resolved_to_ats: true,
            ats_host: Some(owned(h)),
            title_hint: None,
            company_hint: None,
        };
    }
    let og = select_attr(body, SEL_OG_URL, "content");
    let canonical = select_attr(body, SEL_CANONICAL, "href");
    let title = select_attr(body, SEL_OG_TITLE, "content");
    let company = match select_attr(body, SEL_AUTHOR, "content") {
        Some(c) => Some(c),
        None => select_attr(body, SEL_ORG_NAME, "href"),
    };
    let apply_href = match select_attr(body, SEL_APPLY_BUTTON, "href") {
        Some(a) => Some(a),
        None => select_attr(body, SEL_APPLY_OFFSITE, "href"),
    };
    let apply = ats_target_of(&apply_href);
    let og = ats_target_of(&og);
    let canonical = ats_target_of(&canonical);
    resolution_from(li_url, apply, og, canonical, title, company)
}

/// Decide a resolution from a page's hints, each candidate already turned
/// into its ATS target (URL and ATS host) where it has one.
pub fn resolution_from(
    li_url: &str,
    apply: Option<(String, &'static str)>,
    og: Option<(String, &'static str)>,
    canonical: Option<(String, &'static str)>,
    title: Option<String>,
    company: Option<String>,
) -> (r: Resolution)
    ensures
        resolution_view(r) == hints_resolution(
            li_url@,
            target_view(apply),
            target_view(og),
            target_view(canonical),
            title.deep_view(),
            company.deep_view(),
        ),
{
    let target = match apply {
        Some(t) => Some(t),
        None => match og {
            Some(t) => Some(t),
            None => canonical,
        },
    };
    match target {
        Some((url, h)) => Resolution {
            canonical_url: url,
            resolved_to_ats: true,
            ats_host: Some(owned(h)),
            title_hint: title,
            company_hint: company,
        },
        None => Resolution {
            canonical_url: owned(li_url),
            resolved_to_ats: false,
            ats_host: None,
            title_hint: title,
            company_hint: company,
        },
    }
}

} // verus!

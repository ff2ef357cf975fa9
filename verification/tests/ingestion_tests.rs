use job_search_tool::dates::CalendarDate;
use job_search_tool::domain::ingestion_run::SourceOutcome;
use job_search_tool::domain::settings::SponsorshipSensitivity;
use job_search_tool::domain::job::{
    JobIngest, RecencyBucket, SourceName, SponsorshipConfidence, WorkMode,
};
use job_search_tool::error::AppError;
use job_search_tool::ingestion::ashby::{self, AshbyPosting};
use job_search_tool::ingestion::greenhouse::{self, GreenhouseLocation, GreenhousePosting};
use job_search_tool::ingestion::lever::{self, LeverCategories, LeverPosting};
use job_search_tool::ingestion::linkedin::{check_linkedin_url, match_ats, resolve_page};
use job_search_tool::ingestion::manual::{from_text, from_url, sniff_source};
use job_search_tool::ingestion::runner::{
    ingest_one_result, keeps_after_window, plan_persist, should_prepare, strip_html, summarize,
    truncate_err, PersistOutcome, RunTally,
};
use job_search_tool::ingestion::Source;

fn s(x: &str) -> String {
    x.to_string()
}

fn ingest(jd: Option<&str>, work_mode: WorkMode, posted: Option<&str>) -> JobIngest {
    JobIngest {
        company_name: s("Acme"),
        source_name: SourceName::Manual,
        source_url: None,
        apply_url: Some(s("https://jobs.example.com/1")),
        role_title: s("Senior Backend Engineer"),
        job_external_id: Some(s("42")),
        location: Some(s("Austin, Texas")),
        work_mode,
        posted_date: posted.map(s),
        jd_text: jd.map(s),
        required_skills: vec![],
        preferred_skills: vec![],
    }
}

#[test]
fn greenhouse_posting_becomes_ingest() {
    let p = GreenhousePosting {
        id: 4012,
        title: s("Data Engineer"),
        location: Some(GreenhouseLocation { name: Some(s("Remote, US")) }),
        updated_at: Some(s("2026-04-20T10:00:00-04:00")),
        absolute_url: Some(s("https://boards.greenhouse.io/acme/jobs/4012")),
        content: Some(s("<p>Build pipelines</p>")),
        company_name: None,
    };
    let j = greenhouse::to_ingest("acme", p);
    assert_eq!(j.company_name, "acme");
    assert_eq!(j.source_name, SourceName::Greenhouse);
    assert_eq!(j.job_external_id, Some(s("4012")));
    assert_eq!(j.location, Some(s("Remote, US")));
    assert_eq!(j.posted_date, Some(s("2026-04-20")));
    assert_eq!(j.apply_url, j.source_url);
    assert_eq!(j.jd_text.as_deref().map(str::trim), Some("Build pipelines"));
    assert_eq!(
        greenhouse::board_url("acme co"),
        "https://boards-api.greenhouse.io/v1/boards/acme+co/jobs?content=true"
    );
}

#[test]
fn lever_posting_becomes_ingest() {
    let p = LeverPosting {
        id: s("abc-123"),
        text: s("Platform Engineer"),
        hosted_url: Some(s("https://jobs.lever.co/acme/abc-123")),
        apply_url: None,
        description_plain: Some(s("Run the platform")),
        created_at: Some(1_700_000_000_000),
        categories: LeverCategories {
            location: None,
            commitment: Some(s("Full-time")),
            all_locations: vec![s("Tampa, FL"), s("Remote")],
        },
    };
    let j = lever::to_ingest("acme", p);
    assert_eq!(j.company_name, "acme");
    assert_eq!(j.apply_url, Some(s("https://jobs.lever.co/acme/abc-123")));
    assert_eq!(j.location, Some(s("Tampa, FL")));
    assert_eq!(j.posted_date, Some(s("2023-11-14")));
    assert_eq!(lever::board_url("acme"), "https://api.lever.co/v0/postings/acme?mode=json");
}

#[test]
fn ashby_posting_becomes_ingest() {
    let p = AshbyPosting {
        id: s("u-1"),
        title: s("ML Engineer"),
        job_url: Some(s("https://jobs.ashbyhq.com/acme/u-1")),
        application_url: Some(s("https://jobs.ashbyhq.com/acme/u-1/application")),
        description_html: None,
        location_name: Some(s("NYC")),
        published_date: Some(s("2026-01-02")),
        is_remote: Some(true),
    };
    let j = ashby::to_ingest("acme", p);
    assert_eq!(j.work_mode, WorkMode::Remote);
    assert_eq!(j.apply_url, Some(s("https://jobs.ashbyhq.com/acme/u-1/application")));
    assert_eq!(j.source_url, Some(s("https://jobs.ashbyhq.com/acme/u-1")));
    assert_eq!(j.posted_date, Some(s("2026-01-02")));
    assert_eq!(j.jd_text, None);
}

#[test]
fn source_names_and_boards() {
    let src = Source::Lever { slug: s("acme") };
    assert_eq!(src.name(), "lever");
    assert_eq!(src.board_url(), "https://api.lever.co/v0/postings/acme?mode=json");
    assert_eq!(Source::Ashby { slug: s("a") }.name(), "ashby");
}

#[test]
fn manual_import_from_text_and_url() {
    let j = from_text("  Acme  ", " Engineer ", s("JD"));
    assert_eq!(j.company_name, "Acme");
    assert_eq!(j.role_title, "Engineer");
    assert_eq!(j.source_name, SourceName::Manual);
    assert_eq!(j.jd_text, Some(s("JD")));
    let u = from_url("https://jobs.LEVER.co/acme/1", "Acme", "Eng", None).unwrap();
    assert_eq!(u.source_name, SourceName::Lever);
    assert_eq!(u.apply_url, Some(s("https://jobs.LEVER.co/acme/1")));
    match from_url("not a url", "Acme", "Eng", None) {
        Err(AppError::Invalid(m)) => assert_eq!(m, "invalid URL"),
        other => panic!("unexpected {other:?}"),
    }
    assert_eq!(sniff_source("acme.myworkdayjobs.com"), SourceName::EmployerPortal);
    assert_eq!(sniff_source("example.com"), SourceName::Other);
}

#[test]
fn linkedin_resolution() {
    assert_eq!(match_ats("jobs.lever.co"), Some("jobs.lever.co"));
    assert_eq!(match_ats("acme.wd5.myworkdayjobs.com"), Some("myworkdayjobs.com"));
    assert_eq!(match_ats("notlever.co"), None);
    assert!(check_linkedin_url("https://www.linkedin.com/jobs/view/1").is_ok());
    assert!(check_linkedin_url("https://example.com/jobs/1").is_err());
    let li = "https://www.linkedin.com/jobs/view/1";
    let redirected = resolve_page(li, "https://jobs.lever.co/acme/9", "");
    assert!(redirected.resolved_to_ats);
    assert_eq!(redirected.ats_host, Some(s("jobs.lever.co")));
    let body = r#"<html><head><meta property="og:title" content="Backend Engineer">
        <meta name="author" content="Acme"></head><body>
        <a class="apply-button" href="https://boards.greenhouse.io/acme/jobs/7">Apply</a>
        </body></html>"#;
    let hinted = resolve_page(li, li, body);
    assert!(hinted.resolved_to_ats);
    assert_eq!(hinted.canonical_url, "https://boards.greenhouse.io/acme/jobs/7");
    assert_eq!(hinted.title_hint, Some(s("Backend Engineer")));
    assert_eq!(hinted.company_hint, Some(s("Acme")));
    let unresolved = resolve_page(li, li, "<html></html>");
    assert!(!unresolved.resolved_to_ats);
    assert_eq!(unresolved.canonical_url, li);
}

#[test]
fn strip_html_drops_tags_and_collapses_space() {
    assert_eq!(strip_html("<p>Hello</p>\n\n<b>world</b>  !"), "Hello world !");
    assert_eq!(strip_html("  a<br/>b  "), "a b");
    assert_eq!(strip_html("<<x>>y"), "y");
    assert_eq!(strip_html(""), "");
}

#[test]
fn summaries_are_single_line_and_capped() {
    assert_eq!(summarize(None), None);
    assert_eq!(summarize(Some("  <p> </p> ")), None);
    assert_eq!(summarize(Some("<h1>Role</h1>\n<p>Do things</p>")), Some(s("Role Do things")));
    let long = "word ".repeat(200);
    let sum = summarize(Some(&long)).unwrap();
    assert_eq!(sum.chars().count(), 400);
    assert_eq!(truncate_err(&"e".repeat(250)).len(), 200);
    assert_eq!(truncate_err("short"), "short");
}

#[test]
fn run_tally_keeps_sorted_entries_and_totals() {
    let mut t = RunTally::new(2);
    let l = t.source_entry("lever");
    t.record_fetched(l, 3);
    t.record_persisted(l, true, true);
    t.record_persisted(l, false, false);
    let g = t.source_entry("greenhouse");
    assert_eq!(g, 0);
    let l = t.source_entry("lever");
    assert_eq!(l, 1);
    t.record_error(g, &"x".repeat(300));
    t.record_fetched(g, 2);
    assert!(!t.at_cap());
    t.record_persisted(g, true, true);
    t.record_posting_error(g, "db locked");
    assert_eq!(t.summary[0].source, "greenhouse");
    assert_eq!(t.summary[1].outcome.fetched, 3);
    assert_eq!(t.summary[1].outcome.filtered, 2);
    assert_eq!(t.summary[1].outcome.prepared, 1);
    assert_eq!(t.summary[0].outcome.errors[0].len(), 200);
    assert_eq!(t.summary[0].outcome.errors[1], "db locked");
    let o = t.outcome(7);
    assert_eq!((o.run_id, o.total_fetched, o.total_filtered, o.total_prepared), (7, 5, 3, 2));
    assert_eq!(t.trees_built, 2);
    assert!(t.at_cap());
    // At the cap a prepared job gets no new tree.
    t.record_persisted(l, true, false);
    assert_eq!(t.trees_built, 2);
    assert!(t.total_filtered <= t.total_fetched);
    let fresh = SourceOutcome::new();
    assert_eq!((fresh.fetched, fresh.filtered, fresh.prepared), (0, 0, 0));
}

#[test]
fn persist_plan_derives_fields() {
    let today = CalendarDate { year: 2026, month: 4, day: 23 };
    let skills = vec![s("Rust"), s("Go")];
    let aliases = vec![(s("Kubernetes"), vec![s("k8s")])];
    let i = ingest(
        Some("Fully remote. We will sponsor H-1B visas. Rust and k8s."),
        WorkMode::Unknown,
        Some("2026-04-22"),
    );
    let p = plan_persist(&i, SponsorshipSensitivity::Balanced, true, &skills, &aliases, today).unwrap();
    assert_eq!(p.work_mode, WorkMode::Remote);
    assert_eq!(p.sponsorship, SponsorshipConfidence::ExplicitSponsor);
    assert_eq!(p.jd_skills, vec![s("Kubernetes"), s("Rust")]);
    assert_eq!(p.recency_bucket, Some(RecencyBucket::Yesterday));
    assert_eq!(p.state_or_region, Some(s("TX")));
    assert_eq!(p.normalized_role_title, "senior-backend-engineer");
    assert!(p.jd_summary.is_some());
    let blocked = ingest(Some("Must be US citizen."), WorkMode::Onsite, None);
    assert!(plan_persist(&blocked, SponsorshipSensitivity::Balanced, true, &skills, &aliases, today).is_none());
    assert!(plan_persist(&blocked, SponsorshipSensitivity::Strict, false, &skills, &aliases, today).is_none());
    assert!(plan_persist(&blocked, SponsorshipSensitivity::Balanced, false, &skills, &aliases, today).is_none());
    assert!(plan_persist(&blocked, SponsorshipSensitivity::Permissive, true, &skills, &aliases, today).is_none());
    let kept = plan_persist(&blocked, SponsorshipSensitivity::Permissive, false, &skills, &aliases, today).unwrap();
    assert_eq!(kept.work_mode, WorkMode::Onsite);
    assert_eq!(kept.sponsorship, SponsorshipConfidence::ExplicitNoSponsorship);
}

#[test]
fn window_and_preparation_decisions() {
    assert!(keeps_after_window(false, None, 7));
    assert!(!keeps_after_window(true, Some(RecencyBucket::Month), 14));
    assert!(keeps_after_window(true, Some(RecencyBucket::Week), 14));
    assert!(should_prepare(false, false, false, false, Some(RecencyBucket::Yesterday)));
    assert!(!should_prepare(false, false, false, false, Some(RecencyBucket::Week)));
    assert!(should_prepare(false, false, true, false, None));
    assert!(!should_prepare(true, false, true, true, None));
    assert!(!should_prepare(false, true, true, true, None));
    assert_eq!(ingest_one_result(PersistOutcome::Prepared(9)), 9);
    assert_eq!(ingest_one_result(PersistOutcome::FilteredOut), -1);
}

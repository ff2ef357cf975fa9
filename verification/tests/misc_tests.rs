use job_search_tool::dates::{
    day_number, format_ymd, is_valid_date, parse_rfc2822, parse_rfc3339, parse_ymd,
    utc_date_of_timestamp, CalendarDate,
};
use job_search_tool::db_codes::{
    parse_recency, parse_status, parse_workmode, recency_str, status_str, workmode_str,
};
use job_search_tool::digest::{hex_encode, sha256};
use job_search_tool::domain::job::{JobIngest, JobStatus, RecencyBucket, SourceName, WorkMode};
use job_search_tool::error::AppError;
use job_search_tool::files::folder::{first_keyword, plan_job_tree};
use job_search_tool::files::serve::{content_type_for, inline_disposition, is_web_url};
use job_search_tool::ingestion::normalize::{cut_is_clean, jd_cut_is_clean};
use job_search_tool::int_text::{i64_text, usize_text};
use job_search_tool::job_query::{filter_query, SELECT_BASE};
use job_search_tool::ranking::{skill_overlap, title_overlap, token_set, TitleOverlap};
use job_search_tool::secrets::{key_for, SERVICE};
use job_search_tool::urls::form_encode;

fn s(x: &str) -> String {
    x.to_string()
}

#[test]
fn account_secret_keys() {
    assert_eq!(key_for(17), "jobsearch:account:17");
    assert_eq!(key_for(-3), "jobsearch:account:-3");
    assert_eq!(SERVICE, "jobsearchtool");
}

#[test]
fn integer_text() {
    assert_eq!(i64_text(i64::MIN), "-9223372036854775808");
    assert_eq!(i64_text(0), "0");
    assert_eq!(usize_text(1200), "1200");
}

#[test]
fn digest_and_hex() {
    let d = sha256(b"abc");
    assert_eq!(
        hex_encode(&d),
        "ba7816bf8f01cfea414140de5dae2223b00361a396177a9cb410ff61f20015ad"
    );
    assert_eq!(hex_encode(&[0x00, 0x0f, 0xa0]), "000fa0");
}

#[test]
fn dates() {
    let d = CalendarDate { year: 2026, month: 4, day: 23 };
    assert!(is_valid_date(d));
    assert!(!is_valid_date(CalendarDate { year: 2026, month: 2, day: 29 }));
    assert_eq!(format_ymd(d), "2026-04-23");
    assert_eq!(parse_ymd("2026-04-23"), Some(d));
    assert_eq!(parse_ymd("2026-4-xx"), None);
    assert_eq!(parse_rfc3339("2026-04-23T23:30:00-02:00"), Some(d));
    assert_eq!(parse_rfc2822("Thu, 23 Apr 2026 10:00:00 +0000"), Some(d));
    assert_eq!(
        utc_date_of_timestamp(0),
        Some(CalendarDate { year: 1970, month: 1, day: 1 })
    );
    assert_eq!(day_number(d) - day_number(CalendarDate { year: 2026, month: 4, day: 10 }), 13);
}

#[test]
fn date_edges() {
    assert_eq!(day_number(CalendarDate { year: 1, month: 1, day: 1 }), 1);
    assert_eq!(day_number(CalendarDate { year: 1970, month: 1, day: 1 }), 719_163);
    assert_eq!(day_number(CalendarDate { year: 0, month: 1, day: 1 }), -365);
    assert_eq!(format_ymd(CalendarDate { year: 5, month: 1, day: 2 }), "0005-01-02");
    assert_eq!(format_ymd(CalendarDate { year: -5, month: 12, day: 31 }), "-0005-12-31");
    assert_eq!(format_ymd(CalendarDate { year: 12345, month: 6, day: 7 }), "+12345-06-07");
    assert_eq!(
        utc_date_of_timestamp(-1),
        Some(CalendarDate { year: 1969, month: 12, day: 31 })
    );
    assert_eq!(
        utc_date_of_timestamp(951_782_400),
        Some(CalendarDate { year: 2000, month: 2, day: 29 })
    );
    assert_eq!(utc_date_of_timestamp(i64::MAX), None);
    assert!(is_valid_date(CalendarDate { year: 262142, month: 12, day: 31 }));
    assert!(!is_valid_date(CalendarDate { year: 262143, month: 1, day: 1 }));
    assert!(is_valid_date(CalendarDate { year: -262143, month: 1, day: 1 }));
    assert!(!is_valid_date(CalendarDate { year: -262144, month: 12, day: 31 }));
}

#[test]
fn form_encoding() {
    assert_eq!(form_encode("a b&\u{fc}*-._~"), "a+b%26%C3%BC*-._%7E");
    assert_eq!(form_encode(""), "");
    assert_eq!(form_encode("\u{1F600}"), "%F0%9F%98%80");
}

#[test]
fn db_words_round_trip() {
    assert_eq!(workmode_str(WorkMode::Hybrid), "hybrid");
    assert_eq!(parse_workmode("bogus"), WorkMode::Unknown);
    assert_eq!(parse_status(status_str(JobStatus::OaReceived)), JobStatus::OaReceived);
    assert_eq!(parse_status("???"), JobStatus::New);
    assert_eq!(recency_str(Some(RecencyBucket::TwoWeeks)), Some("two_weeks"));
    assert_eq!(parse_recency(Some(s("two_weeks"))), Some(RecencyBucket::TwoWeeks));
    assert_eq!(parse_recency(None), None);
}

#[test]
fn errors_read_like_display() {
    assert_eq!(AppError::invalid("bad").message(), "invalid input: bad");
    assert_eq!(AppError::not_found("job 3").message(), "not found: job 3");
    assert_eq!(AppError::Url.message(), "url parse error");
}

#[test]
fn first_keyword_picks_first_short_line() {
    assert_eq!(first_keyword(None), None);
    let jd = format!("\n   \n{}\n  Backend Engineer  \nMore", "X".repeat(81));
    assert_eq!(first_keyword(Some(&jd)), Some(s("Backend Engineer")));
    assert_eq!(first_keyword(Some("")), None);
    assert_eq!(
        first_keyword(Some("we are hiring\nBackend Engineer")),
        Some(s("Backend Engineer"))
    );
    assert_eq!(first_keyword(Some("all lower case\n- bullet")), None);
}

#[test]
fn job_tree_plan() {
    let ingest = JobIngest {
        company_name: s("Acme / Corp"),
        source_name: SourceName::Greenhouse,
        source_url: Some(s("https://boards.greenhouse.io/acme/jobs/1")),
        apply_url: None,
        role_title: s("Data Engineer"),
        job_external_id: Some(s("4012")),
        location: None,
        work_mode: WorkMode::Unknown,
        posted_date: None,
        jd_text: None,
        required_skills: vec![],
        preferred_skills: vec![],
    };
    let plan = plan_job_tree(None, "2026-04-23", &ingest, Some("short"));
    assert_eq!(plan.date, "2026-04-23");
    assert_eq!(plan.company_segment, "Acme_Corp");
    assert_eq!(plan.role_segment, "4012_Data_Engineer");
    assert_eq!(plan.jd_contents, "");
    assert_eq!(plan.summary_contents, "short");
    assert_eq!(
        plan.apply_link_contents,
        "[InternetShortcut]\r\nURL=https://boards.greenhouse.io/acme/jobs/1\r\n"
    );
    let dated = plan_job_tree(Some("2026-01-02"), "2026-04-23", &ingest, None);
    assert_eq!(dated.date, "2026-01-02");
    assert_eq!(dated.summary_contents, "");
}

#[test]
fn served_file_headers() {
    assert_eq!(content_type_for(Some("pdf")), "application/pdf");
    assert_eq!(content_type_for(Some("html")), "text/html");
    assert_eq!(content_type_for(Some("txt")), "application/octet-stream");
    assert_eq!(content_type_for(None), "application/octet-stream");
    assert_eq!(inline_disposition(Some("a.pdf")), "inline; filename=\"a.pdf\"");
    assert_eq!(inline_disposition(None), "inline; filename=\"file\"");
}

#[test]
fn filtered_job_query() {
    let all = filter_query(false, None, None, None, true);
    assert_eq!(all.sql, format!("{} WHERE 1=1 ORDER BY match_score DESC, posted_date DESC", SELECT_BASE));
    assert!(all.text_binds.is_empty());
    let buckets = vec![RecencyBucket::Today, RecencyBucket::Week];
    let q = filter_query(true, Some(JobStatus::Applied), Some(&buckets), Some(4), false);
    assert_eq!(
        q.sql,
        format!(
            "{} WHERE 1=1 AND match_score >= :min_score AND status = :status AND recency_bucket IN (:r0,:r1) AND company_id = :company_id AND sponsorship_confidence <> 'explicit_no_sponsorship' ORDER BY match_score DESC, posted_date DESC",
            SELECT_BASE
        )
    );
    assert_eq!(
        q.text_binds,
        vec![(s(":status"), s("applied")), (s(":r0"), s("today")), (s(":r1"), s("week"))]
    );
    let empty: Vec<RecencyBucket> = vec![];
    let e = filter_query(false, None, Some(&empty), None, true);
    assert!(!e.sql.contains("IN ("));
}

#[test]
fn skill_and_title_overlap_counts() {
    assert_eq!(skill_overlap(&[s("Rust")], &[]), None);
    let c = skill_overlap(&[s("rust"), s("Go"), s("go")], &[s("Rust"), s("SQL"), s("RUST")]);
    // targets {rust, sql}, JD {go, rust}: one shared, union of three.
    assert_eq!(c, Some((1, 2, 3)));
    assert_eq!(token_set("Senior Backend Engineer, backend"), vec![s("backend"), s("engineer"), s("senior")]);
    match title_overlap("Senior Backend Engineer", &[s("Backend Engineer"), s("QA"), s("Data Engineer")]) {
        TitleOverlap::Roles(v) => assert_eq!(v, vec![Some((2, 3)), None, Some((1, 4))]),
        other => panic!("unexpected {other:?}"),
    }
    assert!(matches!(title_overlap("Senior Backend", &[]), TitleOverlap::NoPreferences));
    assert!(matches!(title_overlap("QA", &[s("QA Lead")]), TitleOverlap::NoTitleTokens));
}

#[test]
fn jd_cut_boundaries() {
    assert!(jd_cut_is_clean(None));
    assert!(jd_cut_is_clean(Some("short")));
    let exact = format!("{}é", "a".repeat(1998));
    assert!(jd_cut_is_clean(Some(&exact)));
    let split = format!("{}é tail", "a".repeat(1999));
    assert!(!jd_cut_is_clean(Some(&split)));
    assert!(cut_is_clean("héllo", 3));
    assert!(!cut_is_clean("héllo", 2));
}

#[test]
fn only_web_urls_are_opened() {
    assert!(is_web_url("https://example.com"));
    assert!(is_web_url("http://x"));
    assert!(!is_web_url("file:///etc/passwd"));
    assert!(!is_web_url("http:/"));
}

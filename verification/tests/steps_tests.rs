use job_search_tool::dates::CalendarDate;
use job_search_tool::domain::job::{RecencyBucket, WorkMode};
use job_search_tool::error::AppError;
use job_search_tool::files::paths::{finish_segment, safe_segments, safe_slug, sanitize_segment};
use job_search_tool::ingestion::linkedin::{is_linkedin_host, resolution_from};
use job_search_tool::ingestion::normalize::{
    dash_key, detect_work_mode, names_us_region, reason_text, recency_between, state_named,
    text_of_nodes, work_mode_text,
};
use job_search_tool::ranking::{has_florida_hint, region_score_pct, remote_text_is_us};
use job_search_tool::resume::ai_rewrite::{array_parse_error, json_array_slice};
use job_search_tool::resume::tailor::{hash_tag, hashed_bytes, short_hash, term_hits};

fn s(x: &str) -> String {
    x.to_string()
}

#[test]
fn text_of_parsed_nodes() {
    let nodes = vec![s("  Hello  "), s(""), s("\n"), s("World\nagain ")];
    assert_eq!(text_of_nodes(&nodes), "Hello\n\nWorld\nagain");
    assert_eq!(text_of_nodes(&vec![]), "");
}

#[test]
fn dash_keys_of_lowered_text() {
    assert_eq!(dash_key("acme co., inc."), "acme-co-inc");
    assert_eq!(dash_key("--a__b--"), "a-b");
    assert_eq!(dash_key("\u{e9}t\u{e9}"), "t");
    assert_eq!(dash_key("!!!"), "");
}

#[test]
fn slug_halves() {
    assert_eq!(sanitize_segment("  Acme / Corp. "), "Acme_Corp");
    assert_eq!(sanitize_segment("a\u{7}b"), "ab");
    assert_eq!(finish_segment("CON", "con"), "_CON");
    assert_eq!(finish_segment("Acme", "acme"), "Acme");
    assert_eq!(finish_segment("", ""), "untitled");
    let long = "x".repeat(90);
    assert_eq!(finish_segment(&long, &long), "x".repeat(80));
    assert_eq!(safe_slug("com1"), "_com1");
    assert_eq!(safe_segments(&["..", "etc", "a/b"]), vec![s("untitled"), s("etc"), s("a_b")]);
}

#[test]
fn slugging_a_slug_again() {
    for x in ["  Acme / Corp. ", "CON", "", "...", "Data Engineer (Remote)", &"ab ".repeat(40)] {
        let r = safe_slug(x);
        if !r.ends_with('_') && !r.ends_with('.') {
            assert_eq!(safe_slug(&r), r);
        }
    }
}

#[test]
fn sponsorship_reason_quotes_the_match_text() {
    assert_eq!(reason_text("will sponsor"), "matched: \"will sponsor\"");
    let long = "y".repeat(85);
    assert_eq!(
        reason_text(&long),
        format!("matched: \"{}\u{2026}\"", "y".repeat(80))
    );
}

#[test]
fn recency_between_dates() {
    let today = CalendarDate { year: 2026, month: 4, day: 23 };
    let posted = CalendarDate { year: 2026, month: 4, day: 16 };
    assert_eq!(recency_between(posted, today), Some(RecencyBucket::Week));
    assert_eq!(recency_between(today, today), Some(RecencyBucket::Today));
    let bad = CalendarDate { year: 2026, month: 13, day: 1 };
    assert_eq!(recency_between(posted, bad), None);
}

#[test]
fn variant_hash_halves() {
    let parts = vec![s("rust"), s("go")];
    assert_eq!(hashed_bytes(&parts), b"rust\ngo\n".to_vec());
    assert_eq!(hash_tag(&[0xde, 0xad, 0xbe, 0xef, 0x01]), "deadbeef");
    let digest_hex = short_hash(&parts);
    assert_eq!(digest_hex.len(), 8);
}

#[test]
fn json_array_halves() {
    assert_eq!(json_array_slice("Sure: [\"a\", \"b\"] done").unwrap(), "[\"a\", \"b\"]");
    assert_eq!(json_array_slice("[[1], [2]] and [3]").unwrap(), "[[1], [2]]");
    assert!(matches!(
        json_array_slice("no array"),
        Err(AppError::Other(m)) if m == "AI response missing JSON array"
    ));
    assert!(matches!(
        json_array_slice("] then ["),
        Err(AppError::Other(m)) if m == "AI response missing closing ]"
    ));
    match array_parse_error("expected value", "[oops]") {
        AppError::Other(m) => {
            assert_eq!(m, "AI JSON parse error: expected value \u{2014} slice: [oops]")
        }
        _ => panic!("wrong error"),
    }
}

#[test]
fn linkedin_decisions() {
    assert!(is_linkedin_host(Some("www.linkedin.com")));
    assert!(!is_linkedin_host(Some("linkedin.com.evil.io")));
    assert!(!is_linkedin_host(None));
    let li = "https://www.linkedin.com/jobs/view/1";
    let r = resolution_from(
        li,
        None,
        Some((s("https://jobs.lever.co/acme/1"), "jobs.lever.co")),
        Some((s("https://boards.greenhouse.io/acme/1"), "boards.greenhouse.io")),
        Some(s("Engineer")),
        None,
    );
    assert_eq!(r.canonical_url, "https://jobs.lever.co/acme/1");
    assert!(r.resolved_to_ats);
    assert_eq!(r.ats_host.as_deref(), Some("jobs.lever.co"));
    assert_eq!(r.title_hint.as_deref(), Some("Engineer"));
    let none = resolution_from(li, None, None, None, None, Some(s("Acme")));
    assert_eq!(none.canonical_url, li);
    assert!(!none.resolved_to_ats);
    assert_eq!(none.ats_host, None);
    assert_eq!(none.company_hint.as_deref(), Some("Acme"));
}

#[test]
fn location_text_rules() {
    assert!(remote_text_is_us("remote, united states"));
    assert!(!remote_text_is_us("remote - emea"));
    assert!(!remote_text_is_us("berlin"));
    assert!(has_florida_hint("tampa, fl"));
    assert!(!has_florida_hint("jacksonville, fl"));
    assert_eq!(region_score_pct("somewhere, usa"), 55);
    assert_eq!(region_score_pct("toronto, canada"), 20);
    assert_eq!(region_score_pct("mars"), 45);
    assert_eq!(state_named("austin, texas"), Some(s("TX")));
    assert_eq!(state_named("nowhere"), None);
    assert!(names_us_region("remote (us)"));
    assert!(!names_us_region("remote, canada"));
    assert!(names_us_region("remote"));
}

#[test]
fn work_mode_text_and_terms() {
    assert_eq!(work_mode_text("Dev", Some("NYC"), Some("Hybrid role")), "Dev | NYC | Hybrid role");
    assert_eq!(work_mode_text("Dev", None, None), "Dev |  | ");
    assert_eq!(detect_work_mode("Dev", Some("Remote"), None), WorkMode::Remote);
    let needle = vec![s("go"), s("rust")];
    assert_eq!(term_hits("we use rust and go", &needle), 2);
    assert_eq!(term_hits("python", &needle), 0);
}

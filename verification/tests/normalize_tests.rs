use job_search_tool::dates::CalendarDate;
use job_search_tool::ranking::{in_window, recency_score_pct};
use job_search_tool::domain::job::{RecencyBucket, SponsorshipConfidence, WorkMode};
use job_search_tool::ingestion::normalize::{
    contains_word, detect_sponsorship, detect_state, detect_work_mode, extract_skills,
    html_to_text, is_us_remote, iso_to_date, normalize_name, recency_bucket, truncate,
};

#[test]
fn detects_no_sponsorship() {
    let (c, _) = detect_sponsorship(Some("Must be US citizen or permanent resident."));
    assert_eq!(c, SponsorshipConfidence::ExplicitNoSponsorship);
}

#[test]
fn detects_explicit_sponsorship() {
    let (c, _) = detect_sponsorship(Some("We will sponsor H-1B visas for this role."));
    assert_eq!(c, SponsorshipConfidence::ExplicitSponsor);
}

#[test]
fn sponsorship_reason_quotes_the_match() {
    let (c, r) = detect_sponsorship(Some("Visa sponsorship available."));
    assert_eq!(c, SponsorshipConfidence::ExplicitSponsor);
    assert_eq!(r.as_deref(), Some("matched: \"Visa sponsorship available\""));
    assert_eq!(detect_sponsorship(None), (SponsorshipConfidence::SponsorUnclear, None));
    let (c, r) = detect_sponsorship(Some("Great team."));
    assert_eq!(c, SponsorshipConfidence::SponsorUnclear);
    assert_eq!(r, None);
    let (c, _) = detect_sponsorship(Some("We may sponsor."));
    assert_eq!(c, SponsorshipConfidence::SponsorLikely);
    let (c, _) = detect_sponsorship(Some("Limited sponsorship."));
    assert_eq!(c, SponsorshipConfidence::SponsorUnlikely);
}

#[test]
fn state_from_suffix() {
    assert_eq!(detect_state(Some("San Francisco, CA")), Some("CA".into()));
    assert_eq!(detect_state(Some("Austin, Texas")), Some("TX".into()));
}

#[test]
fn state_edge_cases() {
    assert_eq!(detect_state(None), None);
    assert_eq!(detect_state(Some("   ")), None);
    assert_eq!(detect_state(Some("Portland, or.")), Some("OR".into()));
    assert_eq!(detect_state(Some("Remote")), None);
    assert_eq!(detect_state(Some("West Virginia")), Some("VA".into()));
}

#[test]
fn recency_buckets() {
    let today = CalendarDate { year: 2026, month: 4, day: 23 };
    assert_eq!(recency_bucket(Some("2026-04-23"), today), Some(RecencyBucket::Today));
    assert_eq!(recency_bucket(Some("2026-04-22"), today), Some(RecencyBucket::Yesterday));
    assert_eq!(recency_bucket(Some("2026-04-18"), today), Some(RecencyBucket::Week));
    assert_eq!(recency_bucket(Some("2026-04-10"), today), Some(RecencyBucket::TwoWeeks));
}

#[test]
fn recency_bucket_edges() {
    let today = CalendarDate { year: 2026, month: 4, day: 23 };
    assert_eq!(recency_bucket(None, today), None);
    assert_eq!(recency_bucket(Some("not a date"), today), None);
    assert_eq!(recency_bucket(Some("2026-03-26"), today), Some(RecencyBucket::Month));
    assert_eq!(recency_bucket(Some("2026-03-25"), today), Some(RecencyBucket::Older));
    assert_eq!(recency_bucket(Some("2026-05-01"), today), Some(RecencyBucket::Today));
    let bad = CalendarDate { year: 2026, month: 2, day: 30 };
    assert_eq!(recency_bucket(Some("2026-02-01"), bad), None);
}

#[test]
fn older_postings_rank_no_fresher() {
    let today = CalendarDate { year: 2026, month: 4, day: 23 };
    let newer = recency_bucket(Some("2026-04-20"), today);
    let older = recency_bucket(Some("2026-04-10"), today);
    assert_eq!(newer, Some(RecencyBucket::Week));
    assert_eq!(older, Some(RecencyBucket::TwoWeeks));
    assert!(recency_score_pct(older) <= recency_score_pct(newer));
    // A ten-day-old posting is outside a seven-day window.
    assert!(!in_window(older, 7));
    assert!(in_window(older, 14));
}

#[test]
fn normalize_company() {
    assert_eq!(normalize_name("Acme Co., Inc."), "acme-co-inc");
    assert_eq!(normalize_name("\u{dc}ber Corp"), "uber-corp");
}

#[test]
fn iso_dates() {
    assert_eq!(iso_to_date("2024-05-06T10:00:00Z"), Some("2024-05-06".to_string()));
    assert_eq!(iso_to_date("2024-05-06T23:30:00-05:00"), Some("2024-05-06".to_string()));
    assert_eq!(iso_to_date("Mon, 06 May 2024 10:00:00 +0000"), Some("2024-05-06".to_string()));
    assert_eq!(iso_to_date("2024-05-06"), Some("2024-05-06".to_string()));
    assert_eq!(iso_to_date("yesterday"), None);
}

#[test]
fn work_mode_detection() {
    assert_eq!(detect_work_mode("Engineer", Some("Remote - US"), None), WorkMode::Remote);
    assert_eq!(detect_work_mode("Engineer", None, Some("This is a hybrid role")), WorkMode::Hybrid);
    assert_eq!(detect_work_mode("Engineer", Some("On-site in Austin"), None), WorkMode::Onsite);
    assert_eq!(detect_work_mode("Engineer", None, None), WorkMode::Unknown);
    // Only the first 2000 bytes of the JD are looked at.
    let jd = format!("{}remote", "a ".repeat(1000));
    assert_eq!(detect_work_mode("Engineer", None, Some(&jd)), WorkMode::Unknown);
}

#[test]
fn us_remote_detection() {
    assert!(is_us_remote(Some("Remote, US")));
    assert!(!is_us_remote(Some("Remote - Canada")));
    assert!(!is_us_remote(Some("New York")));
    assert!(!is_us_remote(None));
}

#[test]
fn skills_are_whole_words_sorted_and_unique() {
    let targets = vec!["Rust".to_string(), "Go".to_string(), "C++".to_string(), "rust".to_string()];
    let aliases = vec![("Kubernetes".to_string(), vec!["k8s".to_string(), "kube".to_string()])];
    let got = extract_skills(Some("We use rust, Go and K8S; no golang."), &targets, &aliases);
    assert_eq!(got, vec!["Go".to_string(), "Kubernetes".to_string(), "Rust".to_string(), "rust".to_string()]);
    assert!(extract_skills(None, &targets, &aliases).is_empty());
    assert!(contains_word("we use c++ daily", "c++"));
    assert!(contains_word("c#", "c#"));
    assert!(!contains_word("c++x", "c++"));
    assert_eq!(
        extract_skills(Some("Experience with C++ required"), &["C++".to_string()], &[]),
        vec!["C++".to_string()]
    );
    assert_eq!(extract_skills(Some("Knows C#."), &["C#".to_string()], &[]), vec!["C#".to_string()]);
    assert!(!contains_word("anything", ""));
    assert!(contains_word("use python here", "python"));
    assert!(!contains_word("pythonic", "python"));
}

#[test]
fn truncation() {
    assert_eq!(truncate("abc", 3), "abc");
    assert_eq!(truncate("abcd", 3), "abc\u{2026}");
}

#[test]
fn html_text_collapses_blank_lines() {
    assert_eq!(html_to_text("<p>Hello</p><p></p><p></p><p>World</p>"), "Hello\nWorld");
    assert_eq!(html_to_text("<ul><li> a </li>\n\n\n<li>b</li></ul>"), "a\n\nb");
}

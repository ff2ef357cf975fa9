use job_search_tool::domain::job::{RecencyBucket, SponsorshipConfidence, WorkMode};
use job_search_tool::domain::settings::RemotePreference;
use job_search_tool::ranking::{
    bucket_for_days, in_window, is_remote_us, is_us_state_code, location_score_pct,
    recency_label, recency_score_pct, sponsorship_score_pct, tokenize, work_mode_fit_pct,
};

#[test]
fn recency_window_membership() {
    assert!(in_window(Some(RecencyBucket::Today), 7));
    assert!(in_window(Some(RecencyBucket::Week), 7));
    assert!(!in_window(Some(RecencyBucket::TwoWeeks), 7));
    assert!(in_window(Some(RecencyBucket::TwoWeeks), 14));
}

#[test]
fn window_edges() {
    assert!(!in_window(None, u32::MAX));
    assert!(in_window(Some(RecencyBucket::Older), u32::MAX));
    assert!(!in_window(Some(RecencyBucket::Older), u32::MAX - 1));
    assert!(!in_window(Some(RecencyBucket::Yesterday), 0));
}

#[test]
fn buckets_for_window_stops() {
    assert_eq!(bucket_for_days(0), RecencyBucket::Yesterday);
    assert_eq!(bucket_for_days(2), RecencyBucket::Week);
    assert_eq!(bucket_for_days(14), RecencyBucket::TwoWeeks);
    assert_eq!(bucket_for_days(21), RecencyBucket::Month);
    assert_eq!(bucket_for_days(29), RecencyBucket::Older);
}

#[test]
fn labels() {
    assert_eq!(recency_label(Some(RecencyBucket::Week)), "Last 7 days");
    assert_eq!(recency_label(None), "Older / unknown");
}

#[test]
fn explicit_no_sponsorship_zero_contribution() {
    assert_eq!(sponsorship_score_pct(SponsorshipConfidence::ExplicitNoSponsorship), 0);
    assert_eq!(sponsorship_score_pct(SponsorshipConfidence::ExplicitSponsor), 100);
}

#[test]
fn ny_included_not_penalized_below_other_states() {
    let ny = location_score_pct(WorkMode::Onsite, Some("New York, NY"), Some("NY"));
    let il = location_score_pct(WorkMode::Onsite, Some("Chicago, IL"), Some("IL"));
    assert_eq!(ny, il);
    assert_eq!(ny, 70);
}

#[test]
fn florida_central_gets_extra_boost() {
    let tampa = location_score_pct(WorkMode::Onsite, Some("Tampa, FL"), Some("FL"));
    let other = location_score_pct(WorkMode::Onsite, Some("Jacksonville, FL"), Some("FL"));
    assert!(tampa > other);
    assert_eq!((tampa, other), (90, 85));
}

#[test]
fn location_tiers() {
    assert_eq!(location_score_pct(WorkMode::Remote, Some("Remote, United States"), None), 100);
    assert_eq!(location_score_pct(WorkMode::Remote, Some("Remote - Canada"), None), 85);
    assert_eq!(location_score_pct(WorkMode::Remote, None, None), 100);
    assert_eq!(location_score_pct(WorkMode::Onsite, Some("San Francisco, CA"), Some("CA")), 88);
    assert_eq!(location_score_pct(WorkMode::Onsite, Some("Somewhere, USA"), None), 55);
    assert_eq!(location_score_pct(WorkMode::Onsite, Some("London, UK"), Some("XX")), 20);
    assert_eq!(location_score_pct(WorkMode::Unknown, None, None), 45);
}

#[test]
fn remote_us_rules() {
    assert!(is_remote_us(None));
    assert!(is_remote_us(Some("Anywhere")));
    assert!(!is_remote_us(Some("Remote (EMEA)")));
    assert!(!is_remote_us(Some("Berlin")));
    assert!(is_us_state_code("NY"));
    assert!(!is_us_state_code("ny"));
}

#[test]
fn recency_and_work_mode_tiers() {
    assert_eq!(recency_score_pct(Some(RecencyBucket::Today)), 100);
    assert_eq!(recency_score_pct(None), 0);
    assert_eq!(work_mode_fit_pct(WorkMode::Hybrid, RemotePreference::HybridOk), 85);
    assert_eq!(work_mode_fit_pct(WorkMode::Unknown, RemotePreference::OnsiteOk), 60);
}

#[test]
fn tokens() {
    assert_eq!(tokenize("Sr. Backend Engineer (Go/Rust)"), vec!["backend", "engineer", "rust"]);
    assert!(tokenize("").is_empty());
}

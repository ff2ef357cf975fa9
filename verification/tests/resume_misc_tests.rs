use job_search_tool::domain::resume::ReuseStrategy;
use job_search_tool::error::AppError;
use job_search_tool::resume::ai_profile::{
    ai_variant_name, profile_api_error, profile_json_error, profile_rewrite_message,
};
use job_search_tool::resume::ai_rewrite::{
    accept_rewrite, api_status_error, build_prompt, parse_json_array, truncate, PROMPT_RULES,
};
use job_search_tool::resume::reuse::{bag, strategy_for, ReuseDecision};

fn s(x: &str) -> String {
    x.to_string()
}

fn other(e: AppError) -> String {
    match e {
        AppError::Other(m) => m,
        e => panic!("unexpected {e:?}"),
    }
}

#[test]
fn bag_counts_words_without_stop_words() {
    let b = bag("The Rust team and the rust-lang crew; we write RUST, go and SQL.");
    assert_eq!(
        b,
        vec![(s("crew"), 1), (s("lang"), 1), (s("rust"), 3), (s("sql"), 1), (s("team"), 1), (s("write"), 1)]
    );
    assert!(bag("a an the of").is_empty());
}

#[test]
fn reuse_strategy_follows_decision() {
    assert_eq!(strategy_for(ReuseDecision::Reuse), ReuseStrategy::Reused);
    assert_eq!(strategy_for(ReuseDecision::EditedReuse), ReuseStrategy::EditedReuse);
    assert_eq!(strategy_for(ReuseDecision::New), ReuseStrategy::New);
}

#[test]
fn prompt_numbers_bullets_and_quotes_skills() {
    let p = build_prompt(&[s("Built X"), s("Led Y")], &[s("Rust"), s("SQL")], "JD here");
    assert!(p.starts_with(PROMPT_RULES));
    assert!(p.contains("(when honestly applicable): Rust, SQL\n\nJD EXCERPT:\nJD here\n\n"));
    assert!(p.contains("ORIGINAL BULLETS:\n1. Built X\n2. Led Y\n\n"));
    assert!(p.ends_with(
        "Respond with ONLY a JSON array of 2 rewritten bullets in the same order. No prose, no markdown, no code fences."
    ));
    let long = "x".repeat(2500);
    let q = build_prompt(&[s("b")], &[], &long);
    assert!(q.contains(&format!("JD EXCERPT:\n{}\n\nORIGINAL", "x".repeat(2000))));
}

#[test]
fn json_array_extraction() {
    assert_eq!(
        parse_json_array("Sure! [\"a\", \"b\"] hope this helps").unwrap(),
        vec![s("a"), s("b")]
    );
    assert_eq!(other(parse_json_array("no array").unwrap_err()), "AI response missing JSON array");
    assert_eq!(other(parse_json_array("[ oops").unwrap_err()), "AI response missing closing ]");
    assert_eq!(other(parse_json_array("] then [").unwrap_err()), "AI response missing closing ]");
    assert_eq!(
        parse_json_array("Sure: [\"a\",\"b\"] (see note [1])").unwrap(),
        vec![s("a"), s("b")]
    );
    assert_eq!(
        parse_json_array("x [\"a]\", \"q\\\"]\"] y").unwrap(),
        vec![s("a]"), s("q\"]")]
    );
    let bad = other(parse_json_array("[1, 2]").unwrap_err());
    assert!(bad.starts_with("AI JSON parse error: "));
    assert!(bad.ends_with(" \u{2014} slice: [1, 2]"));
}

#[test]
fn rewrite_must_keep_bullet_count() {
    assert_eq!(accept_rewrite(2, Some("[\"x\",\"y\"]")).unwrap(), vec![s("x"), s("y")]);
    assert_eq!(
        other(accept_rewrite(3, Some("[\"x\",\"y\"]")).unwrap_err()),
        "AI returned 2 bullets but expected 3 \u{2014} keeping original"
    );
    assert_eq!(
        other(accept_rewrite(1, None).unwrap_err()),
        "Anthropic response had no text content"
    );
    assert_eq!(
        other(api_status_error("401 Unauthorized", &"b".repeat(300))),
        format!("Anthropic API returned 401 Unauthorized: {}", "b".repeat(240))
    );
    assert_eq!(truncate("héllo", 2), "hé");
}

#[test]
fn profile_rewrite_texts() {
    assert_eq!(
        profile_rewrite_message("Eng", "JD", "{}"),
        "Role: Eng\n\nJob Description:\nJD\n\nCanonical Profile:\n{}"
    );
    assert_eq!(ai_variant_name("Senior Backend Engineer II"), "ai-tailored-Senior Backend Engin");
    assert_eq!(ai_variant_name("Dev"), "ai-tailored-Dev");
    match profile_api_error("500 Internal Server Error", "oops") {
        AppError::Invalid(m) => assert_eq!(m, "Anthropic API error 500 Internal Server Error: oops"),
        e => panic!("unexpected {e:?}"),
    }
    match profile_json_error("bad", "x") {
        AppError::Invalid(m) => assert_eq!(m, "AI returned invalid JSON: bad\n\nResponse was:\nx"),
        e => panic!("unexpected {e:?}"),
    }
}

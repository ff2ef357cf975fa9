use job_search_tool::domain::resume::{
    CanonicalProfile, CertificationEntry, Contact, EducationEntry, ExperienceEntry, ProjectEntry,
    SkillGroup,
};
use job_search_tool::resume::tailor::{
    build_needle, bullet_score, count_matches, count_matches_checked, needle_has,
    project_relevance, reorder_skills, short_hash, tailor, tailor_experience, tailor_project,
    top_indices, try_project_relevance, try_tailor, try_tailor_experience, TailoringRequest,
};

fn s(x: &str) -> String {
    x.to_string()
}

fn strings(xs: &[&str]) -> Vec<String> {
    xs.iter().map(|x| x.to_string()).collect()
}

fn contact() -> Contact {
    Contact {
        email: Some(s("me@example.com")),
        phone: None,
        location: Some(s("Tampa, FL")),
        website: None,
        linkedin: None,
        github: Some(s("gh/me")),
    }
}

fn role(bullets: &[&str], tags: Vec<Vec<String>>) -> ExperienceEntry {
    ExperienceEntry {
        company: s("Acme"),
        title: s("Engineer"),
        location: Some(s("Remote")),
        start_date: s("2020-01"),
        end_date: None,
        bullets: strings(bullets),
        bullet_tags: tags,
    }
}

fn project(name: &str, bullets: &[&str], tags: Vec<Vec<String>>) -> ProjectEntry {
    ProjectEntry {
        name: s(name),
        link: None,
        tools: Some(s("Rust")),
        bullets: strings(bullets),
        bullet_tags: tags,
    }
}

fn profile() -> CanonicalProfile {
    CanonicalProfile {
        name: s("Jane Doe"),
        headline: Some(s("Backend engineer")),
        contact: contact(),
        summary: None,
        skills: vec![
            SkillGroup { category: s("Languages"), skills: strings(&["Go", "Rust", "Python"]) },
            SkillGroup { category: s("Empty"), skills: vec![] },
            SkillGroup { category: s("Data"), skills: strings(&["Excel", "SQL"]) },
        ],
        experience: vec![role(
            &[
                "Wrote docs",
                "Built Rust services",
                "Tuned SQL queries in Rust",
                "Led a team",
                "Owned on-call",
            ],
            vec![vec![], vec![], vec![], vec![s("Leadership")]],
        )],
        projects: vec![
            project("Blog", &["Static site", "Themes"], vec![]),
            project("Engine", &["A Rust engine", "Benchmarks"], vec![vec![s("sql")]]),
            project("Notes", &["Note app", "Sync", "Search"], vec![]),
        ],
        education: vec![EducationEntry {
            institution: s("State U"),
            degree: s("BS"),
            field: Some(s("CS")),
            start_date: None,
            end_date: Some(s("2019")),
            gpa: None,
            highlights: strings(&["Dean's list"]),
        }],
        certifications: vec![CertificationEntry { name: s("AWS"), issuer: None, date: None }],
    }
}

#[test]
fn needle_is_lowercase_sorted_and_deduplicated() {
    let n = build_needle(&strings(&["Rust", "SQL"]), &strings(&["rust", "Leadership"]));
    assert_eq!(n, strings(&["leadership", "rust", "sql"]));
    assert!(needle_has(&n, "RUST"));
    assert!(!needle_has(&n, "go"));
}

#[test]
fn bullet_score_counts_terms_once() {
    let n = build_needle(&strings(&["Rust", "SQL"]), &[]);
    assert_eq!(bullet_score("Tuned SQL queries in Rust, more Rust", &n), 2);
    assert_eq!(bullet_score("Wrote docs", &n), 0);
    // An empty term is no word of any bullet.
    let with_empty = build_needle(&strings(&[""]), &[]);
    assert_eq!(bullet_score("anything", &with_empty), 0);
}

#[test]
fn bullet_terms_match_whole_words_only() {
    let rust = build_needle(&strings(&["rust"]), &[]);
    assert_eq!(bullet_score("Built trust with stakeholders", &rust), 0);
    assert_eq!(bullet_score("Rusty pipes", &rust), 0);
    assert_eq!(bullet_score("Rust-based tooling", &rust), 1);
    assert_eq!(bullet_score("(Rust)", &rust), 1);
    let multi = build_needle(&strings(&["node.js", "c++", "machine learning"]), &[]);
    assert_eq!(bullet_score("Shipped Node.js and C++ services", &multi), 2);
    assert_eq!(bullet_score("Applied machine learning", &multi), 1);
}

#[test]
fn skills_matched_first_and_empty_groups_dropped() {
    let n = build_needle(&strings(&["python", "sql"]), &[]);
    let groups = reorder_skills(&profile().skills, &n);
    assert_eq!(groups.len(), 2);
    assert_eq!(groups[0].category, "Languages");
    assert_eq!(groups[0].skills, strings(&["Python", "Go", "Rust"]));
    assert_eq!(groups[1].skills, strings(&["SQL", "Excel"]));
}

#[test]
fn top_indices_is_a_stable_descending_prefix() {
    assert_eq!(top_indices(&vec![1, 3, 3, 0, 5], 3), vec![4, 1, 2]);
    assert_eq!(top_indices(&vec![2, 2, 2], 5), vec![0, 1, 2]);
    assert_eq!(top_indices(&vec![], 2), Vec::<usize>::new());
    assert_eq!(top_indices(&vec![7, 1], 0), Vec::<usize>::new());
}

#[test]
fn experience_keeps_best_bullets_in_original_order() {
    let n = build_needle(&strings(&["Rust", "SQL"]), &strings(&["leadership"]));
    let e = &profile().experience[0];
    let t = tailor_experience(e, &n, 3);
    // Scores: docs 0, services 1, queries 2, team 0 + 2 (tag), on-call 0.
    assert_eq!(
        t.bullets,
        strings(&["Built Rust services", "Tuned SQL queries in Rust", "Led a team"])
    );
    assert_eq!(t.company, "Acme");
    assert_eq!(t.location, Some(s("Remote")));
    let all = tailor_experience(e, &n, 10);
    assert_eq!(all.bullets, e.bullets);
    let checked = try_tailor_experience(e, &n, 3).expect("small scores fit");
    assert_eq!(checked.bullets, t.bullets);
}

#[test]
fn project_keeps_relevant_bullets_or_first_two() {
    let n = build_needle(&strings(&["Rust", "SQL"]), &[]);
    let p = profile();
    let engine = tailor_project(&p.projects[1], &n);
    // "Benchmarks" has no term, but the first bullet's tag is `sql`.
    assert_eq!(engine.bullets, strings(&["A Rust engine"]));
    let notes = tailor_project(&p.projects[2], &n);
    assert_eq!(notes.bullets, strings(&["Note app", "Sync"]));
    assert_eq!(notes.tools, Some(s("Rust")));
}

#[test]
fn project_relevance_adds_points_and_tags() {
    let n = build_needle(&strings(&["Rust", "SQL"]), &[]);
    let p = profile();
    assert_eq!(project_relevance(&p.projects[0], &n), 0);
    assert_eq!(project_relevance(&p.projects[1], &n), 1 + 2);
    assert_eq!(try_project_relevance(&p.projects[1], &n), Some(3));
}

#[test]
fn short_hash_is_first_four_sha256_bytes_in_hex() {
    assert_eq!(short_hash(&strings(&["Rust", "SQL"])), "add4ba60");
    assert_eq!(short_hash(&[]), "e3b0c442");
    assert_eq!(short_hash(&strings(&["python"])), "27ecf4a6");
}

#[test]
fn tailor_whole_profile() {
    let p = profile();
    let skills = strings(&["Rust", "SQL"]);
    let mut req = TailoringRequest::new(&p);
    assert_eq!(req.max_experience_bullets, 4);
    assert_eq!(req.max_projects, 3);
    req.jd_skills = &skills;
    req.max_projects = 2;
    let r = tailor(req);
    assert_eq!(r.name, "Jane Doe");
    assert_eq!(r.variant_name, "tailored-add4ba60");
    assert_eq!(r.skills[0].skills, strings(&["Rust", "Go", "Python"]));
    assert_eq!(r.skills[1].skills, strings(&["SQL", "Excel"]));
    assert_eq!(
        r.experience[0].bullets,
        strings(&["Wrote docs", "Built Rust services", "Tuned SQL queries in Rust", "Led a team"])
    );
    // Engine (relevance 3) first, then the tie between Blog and Notes keeps
    // profile order.
    let names: Vec<&str> = r.projects.iter().map(|p| p.name.as_str()).collect();
    assert_eq!(names, vec!["Engine", "Blog"]);
    assert_eq!(r.education.len(), 1);
    assert_eq!(r.certifications[0].name, "AWS");
    // Skills Rust + SQL, bullets 1 + 2, project bullet 1.
    assert_eq!(r.tokens_matched, 2 + 3 + 1);
    let n = build_needle(&skills, &[]);
    assert_eq!(count_matches(&r.skills, &r.experience, &r.projects, &n), r.tokens_matched);
    assert_eq!(
        count_matches_checked(&r.skills, &r.experience, &r.projects, &n),
        Some(r.tokens_matched)
    );
}

#[test]
fn try_tailor_agrees_with_tailor() {
    let p = profile();
    let skills = strings(&["Rust", "SQL"]);
    let mut req = TailoringRequest::new(&p);
    req.jd_skills = &skills;
    req.max_projects = 2;
    let t = try_tailor(req).expect("small profiles fit");
    let mut req2 = TailoringRequest::new(&p);
    req2.jd_skills = &skills;
    req2.max_projects = 2;
    let r = tailor(req2);
    assert_eq!(t.variant_name, r.variant_name);
    assert_eq!(t.tokens_matched, r.tokens_matched);
    assert_eq!(t.experience[0].bullets, r.experience[0].bullets);
    let tn: Vec<&str> = t.projects.iter().map(|p| p.name.as_str()).collect();
    assert_eq!(tn, vec!["Engine", "Blog"]);
}

use job_search_tool::files::paths::{role_folder_name, safe_slug};

#[test]
fn slug_strips_separators() {
    // We preserve case but collapse whitespace and separators to `_`.
    assert_eq!(safe_slug("Acme / Corp"), "Acme_Corp");
    assert_eq!(safe_slug("   My Role   "), "My_Role");
}

#[test]
fn rejects_reserved_names() {
    assert!(safe_slug("CON").starts_with('_'));
    assert!(safe_slug("com1").starts_with('_'));
}

#[test]
fn slug_of_nothing_is_untitled() {
    assert_eq!(safe_slug(""), "untitled");
    assert_eq!(safe_slug(" ../.. "), "untitled");
    assert_eq!(safe_slug("\u{7}"), "untitled");
}

#[test]
fn slug_escapes_reserved_keeping_case() {
    assert_eq!(safe_slug("CON"), "_CON");
    assert_eq!(safe_slug("lpt9"), "_lpt9");
    assert_eq!(safe_slug("console"), "console");
}

#[test]
fn slug_is_cut_to_eighty_chars() {
    let long = "x".repeat(200);
    assert_eq!(safe_slug(&long).chars().count(), 80);
}

#[test]
fn slug_trims_dots_and_underscores() {
    assert_eq!(safe_slug("..hidden.."), "hidden");
    assert_eq!(safe_slug("__a__b__"), "a_b");
    assert_eq!(safe_slug("a<b>c:d"), "a_b_c_d");
}

#[test]
fn slug_decomposes_compatibility_forms() {
    // NFKD splits the ligature into two letters.
    assert_eq!(safe_slug("\u{FB01}le"), "file");
}

#[test]
fn role_folder_prefers_job_id() {
    assert_eq!(role_folder_name(Some("123"), "Backend Engineer", None), "123_Backend_Engineer");
    assert_eq!(role_folder_name(None, "Backend Engineer", Some("x")), "Backend_Engineer");
    assert_eq!(role_folder_name(Some(""), "", Some("Data Role")), "Data_Role");
    assert_eq!(role_folder_name(None, "", None), "untitled");
}

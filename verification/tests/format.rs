use online_media_ingest::format::{filename_cut_is_clean, sanitize_filename};

#[test]
fn sanitize_filename_replaces_unsafe_characters() {
    assert_eq!(sanitize_filename("a/b\\c:d*e?f\"g<h>i|j"), "a_b_c_d_e_f_g_h_i_j");
    assert_eq!(sanitize_filename("tab\there"), "tab_here");
}

#[test]
fn sanitize_filename_trims_and_collapses() {
    assert_eq!(sanitize_filename("  ..My Video..  "), "My Video");
    assert_eq!(sanitize_filename("a//b___c"), "a_b_c");
    assert_eq!(sanitize_filename("   "), "download");
    assert_eq!(sanitize_filename("..."), "download");
    assert_eq!(sanitize_filename(""), "download");
}

#[test]
fn sanitize_filename_cuts_at_200_bytes() {
    let long = "x".repeat(250);
    assert!(filename_cut_is_clean(&long));
    assert_eq!(sanitize_filename(&long).len(), 200);
    let wide = "é".repeat(150);
    assert!(filename_cut_is_clean(&wide));
    assert_eq!(sanitize_filename(&wide), "é".repeat(100));
    let odd = format!("x{}", "é".repeat(150));
    assert!(!filename_cut_is_clean(&odd));
}

#[test]
fn sanitized_names_hold_no_unsafe_character_or_double_underscore() {
    for input in ["a::b", "__x__", "<<>>", "\u{1}\u{2}name", "ok"] {
        let out = sanitize_filename(input);
        assert!(!out.is_empty());
        assert!(!out.contains("__"));
        assert!(!out.chars().any(|c| "/\\:*?\"<>|".contains(c) || c.is_control()));
        assert!(out.len() <= 200);
    }
}

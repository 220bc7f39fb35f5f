use download_mtc::content::{format_content, trim_artifacts, unescape};
use download_mtc::download::sanitize_filename;

#[test]
fn normalize_strips_artifacts_and_collapses_newlines() {
    assert_eq!(format_content("XHello.\n\n\nWorld.X".to_string()), "Hello.\nWorld.");
}

#[test]
fn normalize_json_encoded_text() {
    let raw = "\"Line one.\\n\\nLine two.\"".to_string();
    assert_eq!(format_content(raw), "Line one.\nLine two.");
}

#[test]
fn normalize_empty_and_single_character() {
    assert_eq!(format_content(String::new()), "");
    assert_eq!(format_content("X".to_string()), "");
}

#[test]
fn unescape_resolves_escapes() {
    assert_eq!(unescape("a\\nb\\c"), "a\nbc");
    assert_eq!(unescape("\\\\n"), "\n");
    assert_eq!(unescape("\\"), "");
}

#[test]
fn trim_artifacts_drops_both_ends() {
    assert_eq!(trim_artifacts("\"abc\"".to_string()), "abc");
    assert_eq!(trim_artifacts("ab".to_string()), "");
    assert_eq!(trim_artifacts("a".to_string()), "");
}

#[test]
fn sanitize_replaces_punctuation() {
    assert_eq!(sanitize_filename("Chương 1: Mở đầu!"), "download/Chương 1_ Mở đầu_");
}

#[test]
fn sanitize_keeps_digits_and_letters() {
    assert_eq!(sanitize_filename("abc 123"), "download/abc 123");
    assert_eq!(sanitize_filename("a/b.c"), "download/a_b_c");
    assert_eq!(sanitize_filename(""), "download/");
}

#[test]
fn normalize_leaves_no_double_newline() {
    let out = format_content("[a\n\n\nb\n\nc\n\n]".to_string());
    assert_eq!(out, "a\nb\nc\n");
    assert!(!out.contains("\n\n"));
}

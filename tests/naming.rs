use brain_down::naming::{document_file_name, sanitize_filename};
use brain_down::paths::is_document_path;

#[test]
fn sanitize_strips_punctuation_and_keeps_spaces() {
    assert_eq!(sanitize_filename("My Note!!"), "My Note");
}

#[test]
fn sanitize_keeps_hyphen_underscore_period() {
    assert_eq!(sanitize_filename("a-b_c.d"), "a-b_c.d");
}

#[test]
fn sanitize_drops_path_separators() {
    assert_eq!(sanitize_filename("../etc/passwd"), "..etcpasswd");
    assert_eq!(sanitize_filename("C:\\dir\\x"), "Cdirx");
}

#[test]
fn sanitize_trims_both_ends() {
    assert_eq!(sanitize_filename("   padded name  "), "padded name");
    assert_eq!(sanitize_filename(" !x! "), "x");
}

#[test]
fn sanitize_keeps_inner_runs_of_spaces() {
    assert_eq!(sanitize_filename("a   b"), "a   b");
}

#[test]
fn sanitize_empty_and_all_dropped() {
    assert_eq!(sanitize_filename(""), "");
    assert_eq!(sanitize_filename("!@#$%^&*()"), "");
    assert_eq!(sanitize_filename("   "), "");
}

#[test]
fn sanitize_keeps_unicode_letters_and_digits() {
    assert_eq!(sanitize_filename("Café 日本 42"), "Café 日本 42");
}

#[test]
fn sanitize_drops_tabs_and_newlines() {
    assert_eq!(sanitize_filename("\ta\nb\t"), "ab");
}

#[test]
fn document_file_name_appends_extension() {
    assert_eq!(document_file_name("My Note!!"), "My Note.mschema");
    assert_eq!(document_file_name(""), ".mschema");
}

#[test]
fn document_path_is_judged_by_extension() {
    assert!(is_document_path("/vault/a.mschema"));
    assert!(is_document_path("a.b.mschema"));
    assert!(!is_document_path("/vault/a.txt"));
    assert!(!is_document_path("/vault/a.MSCHEMA"));
    assert!(!is_document_path("/vault/.mschema"));
    assert!(!is_document_path("/vault/mschema"));
    assert!(!is_document_path(""));
}

#[test]
fn sanitize_agrees_with_char_filter_and_trim() {
    let inputs = [
        " \u{3000}Notes\u{2003}2024 ",
        "\u{a0}a\u{a0}",
        "x\u{85}y",
        "Ünïcödé—dash_under.score",
        "  \t ",
        "١٢٣ arabic digits",
    ];
    for s in inputs {
        let expected: String = s
            .chars()
            .filter(|c| c.is_alphanumeric() || *c == ' ' || *c == '-' || *c == '_' || *c == '.')
            .collect::<String>()
            .trim()
            .to_string();
        assert_eq!(sanitize_filename(s), expected);
    }
}

use file_classifier::sanitize::{keep_alphanumeric, sanitize, FALLBACK_CATEGORY};

#[test]
fn sanitize_empty_is_other() {
    assert_eq!(sanitize(""), "Other");
}

#[test]
fn sanitize_punctuation_only_is_other() {
    assert_eq!(sanitize("!!!"), "Other");
}

#[test]
fn sanitize_whitespace_only_is_other() {
    assert_eq!(sanitize(" \t\n"), "Other");
}

#[test]
fn sanitize_strips_spaces_and_punctuation() {
    assert_eq!(sanitize("My Invoices 2024!"), "MyInvoices2024");
}

#[test]
fn sanitize_leaves_clean_category_alone() {
    assert_eq!(sanitize("Images"), "Images");
}

#[test]
fn sanitize_preserves_case() {
    assert_eq!(sanitize("tax-RETURNS_q3"), "taxRETURNSq3");
}

#[test]
fn sanitize_keeps_letters_and_digits_of_other_scripts() {
    assert_eq!(sanitize("音楽 ファイル!"), "音楽ファイル");
    assert_eq!(sanitize("Übung №5 — ٣"), "Übung5٣");
}

#[test]
fn sanitize_drops_path_separators_and_dots() {
    assert_eq!(sanitize("../etc/passwd"), "etcpasswd");
    assert_eq!(sanitize("a\\b:c"), "abc");
}

#[test]
fn sanitize_result_is_never_empty_and_only_alphanumeric() {
    let inputs = [
        "",
        " ",
        "!!!",
        "Docs",
        "My Invoices 2024!",
        "a/b/c",
        "音楽",
        "\u{00a0}\u{2003}",
        "x\ty\nz",
        "💾 backups",
        "....",
    ];
    for raw in inputs {
        let name = sanitize(raw);
        assert!(!name.is_empty(), "empty for {:?}", raw);
        assert!(name.chars().all(|c| c.is_alphanumeric()), "{:?} gave {:?}", raw, name);
    }
}

#[test]
fn sanitize_is_idempotent_on_its_results() {
    for raw in ["My Invoices 2024!", "", "音楽 ファイル", "Other"] {
        let once = sanitize(raw);
        assert_eq!(sanitize(&once), once);
    }
}

#[test]
fn keep_alphanumeric_may_be_empty() {
    assert_eq!(keep_alphanumeric("-- !"), "");
    assert_eq!(keep_alphanumeric("a-b c"), "abc");
}

#[test]
fn fallback_is_other() {
    assert_eq!(FALLBACK_CATEGORY, "Other");
}

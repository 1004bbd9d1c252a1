use cli_agent::path_validate::sanitize_terminal_preview_token;
use cli_agent::policy::sanitize_preview_tokens;

#[test]
fn terminal_preview_sanitizer_escapes_ansi_and_preserves_unicode() {
    let raw = "src/فائل.rs\u{1b}[2J\u{1b}]0;pwnd\u{7}";
    let sanitized = sanitize_terminal_preview_token(raw);

    assert!(sanitized.contains("src/فائل.rs"));
    assert!(!sanitized.contains('\u{1b}'));
    assert!(!sanitized.contains('\u{7}'));
    assert!(sanitized.contains("\\x1B[2J"));
    assert!(sanitized.contains("\\u{0007}"));
}

#[test]
fn terminal_preview_sanitizer_escapes_bidi_overrides() {
    let raw = "safe-name\u{202E}gpj.exe";
    let sanitized = sanitize_terminal_preview_token(raw);

    assert!(!sanitized.contains('\u{202E}'));
    assert!(sanitized.contains("\\u{202E}"));
    assert!(sanitized.starts_with("safe-name"));
}

#[test]
fn previews_write_out_each_control_character() {
    let shown = sanitize_terminal_preview_token("\u{1b}\0\n\r\t\u{7f}\u{9f}\u{202a}\u{202b}\u{202c}\u{202d}");
    assert_eq!(
        shown,
        "\\x1B\\0\\n\\r\t\\u{007F}\\u{009F}\\u{202A}\\u{202B}\\u{202C}\\u{202D}"
    );
}

#[test]
fn previews_are_stable_and_keep_plain_text() {
    for raw in ["", "plain", "tab\there", "日本語", "\u{1b}[0m", "a\nb"] {
        let once = sanitize_terminal_preview_token(raw);
        assert_eq!(sanitize_terminal_preview_token(&once), once);
    }
    assert_eq!(sanitize_terminal_preview_token("日本語 ok"), "日本語 ok");
}

#[test]
fn previews_of_two_texts_in_a_row_are_two_previews_in_a_row() {
    let (a, b) = ("x\n", "\u{1b}y");
    let whole = sanitize_terminal_preview_token(&format!("{}{}", a, b));
    assert_eq!(
        whole,
        format!("{}{}", sanitize_terminal_preview_token(a), sanitize_terminal_preview_token(b))
    );
}

#[test]
fn every_token_of_a_preview_is_sanitized() {
    let shown = sanitize_preview_tokens(&vec!["git".to_owned(), "a\nb".to_owned()]);
    assert_eq!(shown, vec!["git".to_owned(), "a\\nb".to_owned()]);
}

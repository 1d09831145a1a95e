use git_ai_commit_core::message::{
    first_line, sanitize_message, trim_to_utf8_bytes, trim_with_notice_at_line_boundary,
    validate_message, MAX_SUBJECT_CHARS,
};

const DIFF_HUNK_TRUNCATED_NOTICE: &str = "[hunk truncated]\n";

#[test]
fn keeps_utf8_valid_when_trimming() {
    let trimmed = trim_to_utf8_bytes("你好abc", 5);
    assert_eq!(trimmed, "你");
    assert!(trimmed.is_char_boundary(trimmed.len()));
}

#[test]
fn prefers_line_boundaries() {
    let input = "line-1\nline-2\nline-3\nline-4\nline-5\n";
    let max = "line-1\nline-2\n".len() + DIFF_HUNK_TRUNCATED_NOTICE.len();
    let (trimmed, truncated) =
        trim_with_notice_at_line_boundary(input, max, DIFF_HUNK_TRUNCATED_NOTICE);

    assert!(truncated);
    assert!(trimmed.starts_with("line-1\nline-2\n"));
    assert!(trimmed.ends_with(DIFF_HUNK_TRUNCATED_NOTICE));
}

#[test]
fn falls_back_to_notice_for_tiny_budget() {
    let (trimmed, truncated) =
        trim_with_notice_at_line_boundary("abcdef", 4, DIFF_HUNK_TRUNCATED_NOTICE);

    assert!(truncated);
    assert!(!trimmed.is_empty());
    assert!(trimmed.len() <= 4);
}

#[test]
fn removes_code_fences() {
    let sanitized = sanitize_message("```text\nfeat: add tests\n\nbody\n```");
    assert!(!sanitized.contains("```"));
    assert!(sanitized.contains("feat: add tests"));
}

#[test]
fn truncates_overlong_subject_at_word_boundary() {
    let sanitized = sanitize_message(
        "feat: add OpenRouter model context auto-detection and provider debug logging\n\n- body",
    );
    assert!(first_line(&sanitized).chars().count() <= MAX_SUBJECT_CHARS);
    assert_eq!(
        first_line(&sanitized),
        "feat: add OpenRouter model context auto-detection and provider"
    );
    assert!(sanitized.contains("\n\n- body"));
}

#[test]
fn validation_rejects_empty_and_overlong_subjects() {
    assert_eq!(
        validate_message("  \n "),
        Err("model returned an empty message".to_string())
    );
    let long = "x".repeat(MAX_SUBJECT_CHARS + 1);
    assert_eq!(
        validate_message(&long),
        Err("generated subject exceeds 72 characters".to_string())
    );
    assert_eq!(validate_message(&"x".repeat(MAX_SUBJECT_CHARS)), Ok(()));
}

#[test]
fn trimming_to_bytes_keeps_text_that_fits() {
    assert_eq!(trim_to_utf8_bytes("abc", 3), "abc");
    assert_eq!(trim_to_utf8_bytes("abc", 0), "");
    assert_eq!(trim_to_utf8_bytes("é", 1), "");
}

#[test]
fn text_within_budget_is_not_cut() {
    let (trimmed, truncated) = trim_with_notice_at_line_boundary("short", 10, "[cut]\n");
    assert!(!truncated);
    assert_eq!(trimmed, "short");
}

#[test]
fn sanitizing_strips_trailing_blanks_and_crlf() {
    let sanitized = sanitize_message("fix: tidy   \r\n\r\nbody line\t\r\n");
    assert_eq!(sanitized, "fix: tidy\n\nbody line");
}

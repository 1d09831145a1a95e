use git_ai_commit_core::diff_sampling::budget::{DiffBudget, DiffBudgetConfig};
use git_ai_commit_core::git::{
    current_branch, format_redaction_preview, preview_value, redaction_notice,
    repo_context_from, sampling_notice, RedactionEntry, RedactionResult,
    REDACTION_PREVIEW_VALUE_CHARS,
};

#[test]
fn formats_redaction_preview_with_occurrences_and_hint() {
    let preview = format_redaction_preview(&[
        RedactionEntry {
            kind: "secret".to_string(),
            replacement: "__R_SECRET_001__".to_string(),
            original: "sk_live_1234567890ABCDEF".to_string(),
            display_value: Some("<secret>".to_string()),
            occurrences: 2,
        },
        RedactionEntry {
            kind: "domain".to_string(),
            replacement: "__R_DOMAIN_001__".to_string(),
            original: "prod.internal.example.com".to_string(),
            display_value: Some("prod.internal.example.com".to_string()),
            occurrences: 1,
        },
    ]);

    assert!(preview.contains("redaction preview before sending the diff"));
    assert!(preview.contains("secret __R_SECRET_001__ x2 <="));
    assert!(preview.contains("sk_live_1234567890ABCDEF"));
    assert!(preview.contains("(hint <secret>)"));
    assert!(preview.contains("domain __R_DOMAIN_001__ <= prod.internal.example.com"));
}

#[test]
fn truncates_long_values_and_reports_overflow_entries() {
    let preview = format_redaction_preview(
        &(0..9)
            .map(|idx| RedactionEntry {
                kind: "url".to_string(),
                replacement: format!("__R_URL_{idx:03}__"),
                original: format!(
                    "https://example.com/{}",
                    "a".repeat(REDACTION_PREVIEW_VALUE_CHARS + 20)
                ),
                display_value: None,
                occurrences: 1,
            })
            .collect::<Vec<_>>(),
    );

    assert!(preview.contains("https://example.com/"));
    assert!(preview.contains("..."));
    assert!(preview.contains("... and 1 more redacted value(s)"));
}

#[test]
fn preview_values_are_escaped_like_escape_default() {
    for value in ["plain", "tab\there", "quote\"'\\", "line\nbreak", "é中🙂", "\u{7f}\u{0}"] {
        assert_eq!(preview_value(value), value.escape_default().to_string());
    }
    assert_eq!(format_redaction_preview(&[]), "");
}

#[test]
fn notices_name_the_budget_and_counts() {
    assert_eq!(
        sampling_notice(DiffBudget::Bytes { max_bytes: 6000 }, 2, 3),
        "git-ai-commit: staged diff selectively sampled within 6000 byte budget (2/3) files represented"
    );
    assert_eq!(
        sampling_notice(
            DiffBudget::Tokens { configured_tokens: 1000, effective_tokens: 800 },
            1,
            4
        ),
        "git-ai-commit: staged diff selectively sampled within configured 1000 tokens, effective 800 tokens after context clamp (1/4) files represented"
    );
    assert_eq!(
        sampling_notice(
            DiffBudget::Tokens { configured_tokens: 1000, effective_tokens: 1000 },
            4,
            4
        ),
        "git-ai-commit: staged diff selectively sampled within configured 1000 tokens (4/4) files represented"
    );
    assert_eq!(redaction_notice(0, 0), None);
    assert_eq!(
        redaction_notice(3, 2).unwrap(),
        "git-ai-commit: redacted 2 unique sensitive-looking value(s) across 3 occurrence(s) before sending the diff to the model"
    );
    assert_eq!(
        redaction_notice(3, 0).unwrap(),
        "git-ai-commit: redacted 3 sensitive-looking occurrence(s) before sending the diff to the model"
    );
}

#[test]
fn branch_falls_back_to_the_detached_commit() {
    assert_eq!(
        current_branch(Ok("main\n".to_string()), || -> Result<String, String> {
            panic!("not asked")
        }),
        Ok("main".to_string())
    );
    assert_eq!(
        current_branch(Err("no branch".to_string()), || Ok("abc1234\n".to_string())),
        Ok("detached-abc1234".to_string())
    );
    assert_eq!(
        current_branch(Err("no branch".to_string()), || Err("no head".to_string())),
        Err("no head".to_string())
    );
}

#[test]
fn repo_context_fits_the_diff_to_its_budget() {
    let patch = "diff --git a/a.txt b/a.txt\n@@ -1 +1 @@\n-a\n+b\n";
    let redacted = RedactionResult {
        text: patch.to_string(),
        replacement_occurrences: 0,
        unique_values: 0,
        entries: vec![],
    };
    let (ctx, notices) = repo_context_from(
        DiffBudgetConfig::Bytes { max_bytes: 6000 },
        "repo".to_string(),
        "main".to_string(),
        " a.txt | 2 +-\n",
        patch,
        redacted,
    )
    .expect("context");
    assert_eq!(ctx.repo_name, "repo");
    assert_eq!(ctx.diff_stat, "a.txt | 2 +-");
    assert_eq!(ctx.diff_patch, patch.trim());
    assert_eq!(ctx.changed_file_count, 1);
    assert_eq!(ctx.represented_file_count, 1);
    assert!(!ctx.diff_truncated);
    assert!(!ctx.diff_budget_is_token_mode);
    assert!(notices.is_empty());
}

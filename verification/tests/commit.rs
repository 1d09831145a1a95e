use git_ai_commit_core::commit::args::{
    build_ai_commit_args, parse_ai_commit_args, should_bypass_ai_commit, ParsedAiCommitArgs,
};
use git_ai_commit_core::commit::commit_message_preview_with;
use git_ai_commit_core::commit::confirm::{
    commit_confirmation_prompt_with, parse_commit_confirmation, CommitConfirmation,
};
use git_ai_commit_core::terminal_ui::{
    style_accent, style_edit, style_label, style_muted, style_subject, style_success,
    TerminalUiEnv,
};

#[test]
fn bypass_rules_match_go_behavior() {
    let cases = vec![
        (vec![], false),
        (vec!["-s"], false),
        (vec!["--no-verify"], false),
        (vec!["--edit"], false),
        (vec!["--no-edit"], false),
        (vec!["-m", "msg"], true),
        (vec!["-mmsg"], true),
        (vec!["--message=msg"], true),
        (vec!["--amend"], true),
        (vec!["--fixup=reword:HEAD"], true),
        (vec!["-a"], true),
        (vec!["README.md"], true),
    ];

    for (args, want) in cases {
        let args = args.into_iter().map(str::to_string).collect::<Vec<_>>();
        assert_eq!(should_bypass_ai_commit(&args), want, "args: {args:?}");
    }
}

#[test]
fn parses_commit_control_flags_without_forwarding_them() {
    let parsed = parse_ai_commit_args(&[
        "--no-confirm".to_string(),
        "--show-redactions".to_string(),
        "-s".to_string(),
    ])
    .expect("expected parsed args");

    assert_eq!(
        parsed,
        ParsedAiCommitArgs {
            forward_args: vec!["-s".to_string()],
            confirm_override: Some(false),
            show_redactions: true,
            debug_provider: false,
        }
    );
}

#[test]
fn rejects_legacy_edit_flags() {
    let err = parse_ai_commit_args(&["--edit".to_string()]).expect_err("expected error");
    assert!(err.contains("unknown git-ai-commit flag"));
    assert!(err.contains("--edit"));
}

#[test]
fn builds_commit_args_from_table() {
    let cases = vec![
        (
            false,
            vec![
                "commit".to_string(),
                "-F".to_string(),
                "message.txt".to_string(),
                "-s".to_string(),
            ],
        ),
        (
            true,
            vec![
                "commit".to_string(),
                "-e".to_string(),
                "-F".to_string(),
                "message.txt".to_string(),
                "-s".to_string(),
            ],
        ),
    ];

    for (open_editor, expected) in cases {
        let args = build_ai_commit_args("message.txt".to_string(), open_editor, &["-s".to_string()]);
        assert_eq!(args, expected);
    }
}

#[test]
fn plain_confirmation_prompt_still_contains_question() {
    let prompt = commit_confirmation_prompt_with(&TerminalUiEnv {
        stderr_is_terminal: false,
        no_color: false,
        term: Some("xterm-256color".to_string()),
    });
    assert!(prompt.contains("continue?"));
    assert!(prompt.contains("y=commit"));
    assert!(prompt.contains("["));
}

#[test]
fn colored_confirmation_prompt_uses_expected_styles_when_enabled() {
    let env = TerminalUiEnv {
        stderr_is_terminal: true,
        no_color: false,
        term: Some("xterm-256color".to_string()),
    };
    let prompt = commit_confirmation_prompt_with(&env);
    assert!(prompt.contains(&style_label(true, "git-ai-commit")));
    assert!(prompt.contains(&style_success(true, "y=commit")));
    assert!(prompt.contains(&style_edit(true, "e=edit")));
    assert!(prompt.contains(&style_muted(true, "N=cancel")));
}

#[test]
fn prompt_colors_disabled_for_no_color_or_dumb_term() {
    for env in [
        TerminalUiEnv {
            stderr_is_terminal: true,
            no_color: true,
            term: Some("xterm-256color".to_string()),
        },
        TerminalUiEnv {
            stderr_is_terminal: true,
            no_color: false,
            term: Some("dumb".to_string()),
        },
    ] {
        let prompt = commit_confirmation_prompt_with(&env);
        assert!(!prompt.contains("\x1b["));
    }
}

#[test]
fn parses_confirmation_answers() {
    assert_eq!(
        parse_commit_confirmation("y"),
        Some(CommitConfirmation::Proceed)
    );
    assert_eq!(
        parse_commit_confirmation("edit"),
        Some(CommitConfirmation::Edit)
    );
    assert_eq!(
        parse_commit_confirmation(""),
        Some(CommitConfirmation::Cancel)
    );
    assert_eq!(parse_commit_confirmation("wat"), None);
}

#[test]
fn plain_preview_formats_subject_and_body() {
    let preview = commit_message_preview_with(
        &TerminalUiEnv {
            stderr_is_terminal: false,
            no_color: false,
            term: Some("xterm-256color".to_string()),
        },
        "feat: add preview\n\nExplain body",
    );

    assert!(preview.contains("generated commit message"));
    assert!(preview.contains("  > feat: add preview"));
    assert!(preview.contains("  |  "));
    assert!(preview.contains("  | Explain body"));
}

#[test]
fn colored_preview_uses_expected_styles() {
    let env = TerminalUiEnv {
        stderr_is_terminal: true,
        no_color: false,
        term: Some("xterm-256color".to_string()),
    };
    let preview = commit_message_preview_with(&env, "fix: tighten prompt");

    assert!(preview.contains(&style_label(true, "git-ai-commit")));
    assert!(preview.contains(&style_accent(true, ">")));
    assert!(preview.contains(&style_subject(true, "fix: tighten prompt")));
}

#[test]
fn confirmation_answers_ignore_case_and_whitespace() {
    assert_eq!(
        parse_commit_confirmation("  YES \n"),
        Some(CommitConfirmation::Proceed)
    );
    assert_eq!(parse_commit_confirmation("E"), Some(CommitConfirmation::Edit));
    assert_eq!(parse_commit_confirmation("No"), Some(CommitConfirmation::Cancel));
}

#[test]
fn plain_preview_is_exact() {
    let env = TerminalUiEnv {
        stderr_is_terminal: false,
        no_color: true,
        term: None,
    };
    assert_eq!(
        commit_message_preview_with(&env, "feat: x\n\nbody"),
        "\ngit-ai-commit: generated commit message\n  > feat: x\n  |  \n  | body\n"
    );
    assert_eq!(
        commit_confirmation_prompt_with(&env),
        "git-ai-commit: continue? [y=commit/e=edit/N=cancel] "
    );
}

#[test]
fn forwarded_arguments_keep_their_order() {
    let parsed = parse_ai_commit_args(&[
        "-s".to_string(),
        "--no-confirm".to_string(),
        "--no-verify".to_string(),
    ])
    .expect("parsed");
    assert_eq!(parsed.forward_args, vec!["-s".to_string(), "--no-verify".to_string()]);
    assert_eq!(parsed.confirm_override, Some(false));
    assert!(!parsed.show_redactions);
    let err = parse_ai_commit_args(&["-s".to_string(), "--no-edit".to_string()]).unwrap_err();
    assert_eq!(err, "unknown git-ai-commit flag: --no-edit");
}

#[test]
fn debug_provider_is_a_flag_of_its_own() {
    let parsed = parse_ai_commit_args(&[
        "-s".to_string(),
        "--debug-provider".to_string(),
        "--no-verify".to_string(),
    ])
    .expect("parsed");
    assert_eq!(parsed.forward_args, vec!["-s".to_string(), "--no-verify".to_string()]);
    assert!(parsed.debug_provider);
    assert!(!parsed.show_redactions);
    assert_eq!(parsed.confirm_override, None);
    assert!(!parse_ai_commit_args(&["-s".to_string()]).expect("parsed").debug_provider);
}

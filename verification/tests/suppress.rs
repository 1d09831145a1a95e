use git_ai_commit_core::diff_parse::parse_diff_files;
use git_ai_commit_core::diff_sampling::notices::DIFF_SUPPRESSED_CONTENT_NOTICE;
use git_ai_commit_core::diff_sampling::suppress::{
    path_in_dirs, rebuild_patch_from_files, suppress_generated_content,
};

fn suppressed_diff() -> String {
    vec![
        "diff --git a/.sqlx/query-aaa.json b/.sqlx/query-aaa.json",
        "index 111..222 100644",
        "--- a/.sqlx/query-aaa.json",
        "+++ b/.sqlx/query-aaa.json",
        "@@ -1 +1 @@",
        "-{\"query\": \"SELECT 1\"}",
        "+{\"query\": \"SELECT 2\"}",
        "diff --git a/src/app.rs b/src/app.rs",
        "index 333..444 100644",
        "--- a/src/app.rs",
        "+++ b/src/app.rs",
        "@@ -1 +1 @@",
        "-old-app",
        "+new-app",
        "",
    ]
    .join("\n")
}

#[test]
fn strips_hunks_and_keeps_header_for_matching_dirs() {
    let files = parse_diff_files(&suppressed_diff());
    let result = suppress_generated_content(&files, &[".sqlx".to_string()]);

    assert_eq!(result.suppressed_count, 1);
    assert_eq!(result.files[0].path, ".sqlx/query-aaa.json");
    assert!(result.files[0].hunks.is_empty());
    assert!(
        result.files[0]
            .header
            .contains(DIFF_SUPPRESSED_CONTENT_NOTICE.trim())
    );
    assert_eq!(result.files[1].hunks.len(), 1);
    assert!(
        !result.files[1]
            .header
            .contains(DIFF_SUPPRESSED_CONTENT_NOTICE.trim())
    );
}

#[test]
fn matches_nested_paths_but_not_prefix_siblings() {
    let diff = [
        "diff --git a/.sqlx/query-aaa.json b/.sqlx/query-aaa.json",
        "@@ -1 +1 @@",
        "-a",
        "+b",
        "diff --git a/.sqlx_extra/x.json b/.sqlx_extra/x.json",
        "@@ -1 +1 @@",
        "-x",
        "+y",
        "diff --git a/other/.sqlx/y.json b/other/.sqlx/y.json",
        "@@ -1 +1 @@",
        "-y",
        "+z",
        "",
    ]
    .join("\n");
    let files = parse_diff_files(&diff);

    let result = suppress_generated_content(&files, &[".sqlx".to_string()]);

    assert_eq!(result.suppressed_count, 1);
    assert_eq!(result.files[0].path, ".sqlx/query-aaa.json");
    assert_eq!(result.files[1].hunks.len(), 1);
    assert_eq!(result.files[2].hunks.len(), 1);
}

#[test]
fn empty_dirs_list_disables_suppression() {
    let files = parse_diff_files(&suppressed_diff());
    let result = suppress_generated_content(&files, &[]);

    assert_eq!(result.suppressed_count, 0);
    assert_eq!(result.files, files);
}

#[test]
fn header_only_matched_files_are_not_counted_as_suppressed() {
    let diff = [
        "diff --git a/.sqlx/old.json b/.sqlx/new.json",
        "similarity index 100%",
        "rename from .sqlx/old.json",
        "rename to .sqlx/new.json",
        "",
    ]
    .join("\n");
    let files = parse_diff_files(&diff);

    let result = suppress_generated_content(&files, &[".sqlx".to_string()]);

    assert_eq!(result.suppressed_count, 0);
    assert!(
        !result.files[0]
            .header
            .contains(DIFF_SUPPRESSED_CONTENT_NOTICE.trim())
    );
}

#[test]
fn rebuilt_patch_keeps_headers_and_drops_suppressed_hunks() {
    let files = parse_diff_files(&suppressed_diff());
    let result = suppress_generated_content(&files, &[".sqlx".to_string()]);

    let rebuilt = rebuild_patch_from_files(&result.files);

    assert!(rebuilt.contains("diff --git a/.sqlx/query-aaa.json"));
    assert!(rebuilt.contains(DIFF_SUPPRESSED_CONTENT_NOTICE.trim()));
    assert!(!rebuilt.contains("SELECT 1"));
    assert!(!rebuilt.contains("SELECT 2"));
    assert!(rebuilt.contains("+new-app"));
}

#[test]
fn rebuild_is_lossless_without_suppression() {
    let diff = suppressed_diff();
    let files = parse_diff_files(&diff);
    let result = suppress_generated_content(&files, &[]);

    assert_eq!(rebuild_patch_from_files(&result.files), diff);
}

#[test]
fn suppression_round_trip_rebuild_matches_raw_shape() {
    let diff = suppressed_diff();
    let files = parse_diff_files(&diff);
    let result = suppress_generated_content(&files, &[".sqlx".to_string()]);

    let rebuilt = rebuild_patch_from_files(&result.files);

    assert!(rebuilt.starts_with("diff --git a/.sqlx/query-aaa.json"));
    assert_eq!(
        rebuilt
            .lines()
            .filter(|line| line.starts_with("diff --git "))
            .count(),
        2
    );
}

#[test]
fn rebuild_after_parse_gives_the_diff_back_with_crlf_read_as_lf() {
    let diff = "diff --git a/x b/x\r\nindex 1..2\r\n@@ -1 +1 @@\r\n-a\r\n+b\r\n";
    let files = parse_diff_files(diff);
    assert_eq!(rebuild_patch_from_files(&files), diff.replace("\r\n", "\n"));
}

#[test]
fn path_matching_needs_a_separator_after_the_dir() {
    let dirs = vec!["dist".to_string(), "target/generated".to_string()];
    assert!(path_in_dirs("dist", &dirs));
    assert!(path_in_dirs("dist/app.js", &dirs));
    assert!(path_in_dirs("target/generated/x.rs", &dirs));
    assert!(!path_in_dirs("distribution/app.js", &dirs));
    assert!(!path_in_dirs("", &dirs));
}

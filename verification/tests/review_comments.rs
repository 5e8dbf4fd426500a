use ripr_reports::json_record::{get_canonical, get_field, JsonEntry, JsonField, JsonRecord};
use ripr_reports::review_comments::{
    run_receipt, mark_receipt_complete, empty_review_packet, error_review_packet,
    cargo_target_dir, target_dir_from_value, failed_run_status, producer_run_outcome, producer_runs,
    canonical_root_identity, first_line, has_changed_paths, non_empty_arg, normalize_path_text,
    parse_options, render_empty_review_comments_markdown, render_error_review_comments_markdown,
    resolve_revision_identity, reusable_cache_identity, review_comments_timeout_ms,
    review_comments_timeout_secs, timeout_ms_from_secs, verify_revision, with_run_cause,
    ReviewCommentsOptions, ReviewCommentsRunError,
};
use sha2::{Digest, Sha256};

fn options() -> ReviewCommentsOptions {
    ReviewCommentsOptions {
        root: ".".to_string(),
        base: "origin/main".to_string(),
        head: "HEAD".to_string(),
        check_output: None,
        check: false,
    }
}

#[test]
fn parse_defaults_and_check_mode() -> Result<(), String> {
    assert_eq!(parse_options(&[])?, options());
    let parsed = parse_options(&["--base".into(), "main".into(), "--check".into()])?;
    assert_eq!(parsed.base, "main");
    assert!(parsed.check);
    Ok(())
}

#[test]
fn parse_rejects_unknown_or_empty_args() {
    assert_eq!(
        parse_options(&["--bad".into()]),
        Err("unknown ripr-review-comments argument \"--bad\"".to_string())
    );
    assert_eq!(
        parse_options(&["--head".into(), "".into()]),
        Err("ripr-review-comments --head requires a non-empty value".to_string())
    );
}

#[test]
fn validation_failure_names_the_run_cause() {
    let wrapped = with_run_cause(
        "review comments contract violations:\n- status mismatch".to_string(),
        Some("ripr review-comments timed out after 60 seconds"),
    );
    assert!(wrapped.contains("status mismatch"));
    assert!(wrapped.contains("timed out after 60 seconds"));
    let cause_pos = wrapped.find("timed out after 60 seconds");
    let validation_pos = wrapped.find("status mismatch");
    assert!(
        matches!((cause_pos, validation_pos), (Some(cause), Some(validation)) if cause < validation),
        "the run cause must lead the validation diagnostics: {wrapped}"
    );
    assert_eq!(with_run_cause("violation".to_string(), None), "violation");
}

#[test]
fn parse_reads_every_flag_and_reports_missing_values() {
    let parsed = parse_options(&[
        "--root".into(),
        "crates".into(),
        "--head".into(),
        "topic".into(),
        "--check-output".into(),
        "out.json".into(),
    ])
    .unwrap();
    assert_eq!(parsed.root, "crates");
    assert_eq!(parsed.head, "topic");
    assert_eq!(parsed.check_output.as_deref(), Some("out.json"));
    assert!(!parsed.check);
    assert_eq!(
        parse_options(&["--root".into()]),
        Err("missing value for --root".to_string())
    );
    assert_eq!(ReviewCommentsOptions::default(), options());
    let args = vec!["--base".to_string(), "  ".to_string()];
    assert_eq!(
        non_empty_arg(&args, 1, "--base"),
        Err("ripr-review-comments --base requires a non-empty value".to_string())
    );
    assert_eq!(non_empty_arg(&args, 0, "--x"), Ok("--base"));
}

#[test]
fn run_errors_record_whether_the_producer_timed_out() {
    let timed = ReviewCommentsRunError::timed_out("slow".to_string());
    assert!(timed.timed_out);
    assert_eq!(timed.message, "slow");
    let failed = ReviewCommentsRunError::from("boom".to_string());
    assert!(!failed.timed_out);
    assert_eq!(failed.message, "boom");
}

#[test]
fn timeout_defaults_parses_and_refuses_zero_and_overflow() {
    assert_eq!(review_comments_timeout_secs(None), Ok(120));
    assert_eq!(review_comments_timeout_ms(None), Ok(120_000));
    assert_eq!(review_comments_timeout_ms(Some(" 7 ")), Ok(7_000));
    assert_eq!(
        review_comments_timeout_ms(Some("0")),
        Err("RIPR_REVIEW_COMMENTS_TIMEOUT_SECS must be a positive integer".to_string())
    );
    let err = review_comments_timeout_secs(Some("abc")).unwrap_err();
    assert!(err.starts_with("RIPR_REVIEW_COMMENTS_TIMEOUT_SECS must be a positive integer: "));
    assert_eq!(
        timeout_ms_from_secs(u64::MAX),
        Err("RIPR_REVIEW_COMMENTS_TIMEOUT_SECS is too large".to_string())
    );
    assert_eq!(timeout_ms_from_secs(18_446_744_073_709_551), Ok(18_446_744_073_709_551_000));
}

#[test]
fn revision_helpers_follow_git_results() {
    assert!(has_changed_paths("src/lib.rs\n"));
    assert!(!has_changed_paths("\n  \n"));
    assert!(!has_changed_paths(""));
    assert_eq!(verify_revision("main", Ok("abc\n".to_string())), Ok(()));
    assert_eq!(
        verify_revision("nope", Err("fatal".to_string())),
        Err("bad base/head revision \"nope\": fatal".to_string())
    );
    assert_eq!(resolve_revision_identity("HEAD", Ok(" abc \n".to_string())), "abc");
    assert_eq!(resolve_revision_identity("HEAD", Ok("  ".to_string())), "HEAD");
    assert_eq!(resolve_revision_identity("HEAD", Err("x".to_string())), "HEAD");
}

#[test]
fn paths_and_identities_are_normalized() {
    assert_eq!(normalize_path_text("a\\b\\c"), "a/b/c");
    assert_eq!(canonical_root_identity("\\\\?\\C:\\repo"), "C:/repo");
    assert_eq!(canonical_root_identity("/home/repo"), "/home/repo");
    let mut hasher = Sha256::new();
    hasher.update(b"ripr-review-comments\0");
    hasher.update(b"/repo");
    hasher.update([0]);
    hasher.update(b"main");
    hasher.update([0]);
    hasher.update(b"HEAD");
    let expected = format!("sha256:{:x}", hasher.finalize());
    assert_eq!(reusable_cache_identity("/repo", "main", "HEAD"), expected);
    assert_ne!(reusable_cache_identity("/repo", "main", "HEAD"), reusable_cache_identity("/repo", "mai", "nHEAD"));
}

#[test]
fn fallback_markdown_uses_defaults_and_escapes_the_warning() {
    assert_eq!(first_line("  first  \nsecond"), "first");
    assert_eq!(first_line(""), "ripr review-comments failed");
    let md = render_error_review_comments_markdown(None, Some("topic"), Some("a|b\nc"));
    assert_eq!(
        md,
        "# RIPR PR Guidance\n\n- status: error\n- base: `origin/main`\n- head: `topic`\n- line annotations: 0\n- summary-only recommendations: 0\n- suppressed recommendations: 0\n\nNo review guidance was generated.\n\n## Warnings\n\n- tool_error: a\\|b c\n"
    );
    let md = render_error_review_comments_markdown(None, None, None);
    assert!(md.ends_with("- tool_error: review guidance generation did not complete\n"));
    let md = render_empty_review_comments_markdown(Some("b"), None);
    assert_eq!(
        md,
        "# RIPR PR Guidance\n\n- status: advisory\n- base: `b`\n- head: `HEAD`\n- line annotations: 0\n- summary-only recommendations: 0\n- suppressed recommendations: 0\n\nNo changed paths were detected.\n"
    );
}

#[test]
fn target_dir_honors_default_absolute_and_relative_cargo_target_dir() {
    let repo = "/tmp/ripr-review-repo";
    let cwd = "/tmp/ripr-review-cwd";
    let absolute_target = "/tmp/ripr-review-target";
    assert_eq!(cargo_target_dir(repo, cwd, None), "/tmp/ripr-review-repo/target");
    assert_eq!(cargo_target_dir(repo, cwd, Some("")), "/tmp/ripr-review-repo/target");
    assert_eq!(cargo_target_dir(repo, cwd, Some(absolute_target)), absolute_target);
    assert_eq!(target_dir_from_value(repo, cwd, absolute_target), absolute_target);
    assert_eq!(target_dir_from_value(repo, cwd, "target-alt"), "/tmp/ripr-review-cwd/target-alt");
    assert_eq!(
        target_dir_from_value(repo, "relative-cwd", "target-alt"),
        "/tmp/ripr-review-repo/target-alt"
    );
}

#[test]
fn producer_runs_only_for_changed_paths_or_supplied_check_output() {
    assert!(producer_runs("src/lib.rs\n", None));
    assert!(!producer_runs("\n", None));
    assert!(!producer_runs("", None));
    assert!(producer_runs("", Some("target/check-output.json")));
}

#[test]
fn producer_run_outcome_distinguishes_timeout_failure_and_success() {
    let timeout = producer_run_outcome(true, 60, false, "", "").unwrap_err();
    assert!(timeout.timed_out);
    assert_eq!(timeout.message, "ripr review-comments timed out after 60 seconds");
    assert_eq!(failed_run_status(&timeout), "limited_timeout");
    assert!(producer_run_outcome(false, 3, true, "x", "y").is_ok());
    let failed = producer_run_outcome(false, 3, false, " out \n", "\nerr ").unwrap_err();
    assert!(!failed.timed_out);
    assert_eq!(failed.message, "ripr review-comments failed\nstdout:\nout\nstderr:\nerr");
    assert_eq!(failed_run_status(&failed), "failed");
}

#[test]
fn timeout_secs_accept_only_documented_u64_text() {
    assert_eq!(review_comments_timeout_secs(None), Ok(120));
    assert_eq!(review_comments_timeout_secs(Some(" +42 ")), Ok(42));
    assert_eq!(review_comments_timeout_secs(Some("18446744073709551615")), Ok(u64::MAX));
    assert!(review_comments_timeout_secs(Some("18446744073709551616")).is_err());
    assert!(review_comments_timeout_secs(Some("-1")).is_err());
    assert!(review_comments_timeout_secs(Some("4 2")).is_err());
    assert!(review_comments_timeout_secs(Some("")).is_err());
}

fn text_entry(key: &str, value: &str) -> JsonEntry {
    JsonEntry {
        key: key.to_string(),
        value: JsonField::Text(value.to_string()),
        canonical: format!("{value:?}"),
    }
}

#[test]
fn new_timeout_receipt_records_phase_limitation_and_non_claims() {
    let r = run_receipt(None, "root-id", "b1", "h1", Some(5000), "cache-1", "limited_timeout", None);
    assert_eq!(get_field(&r, "status"), &JsonField::Text("limited_timeout".to_string()));
    assert_eq!(get_field(&r, "base_sha"), &JsonField::Text("b1".to_string()));
    assert_eq!(get_field(&r, "configured_timeout_ms"), &JsonField::Number(Some(5000)));
    assert_eq!(get_field(&r, "active_phase"), &JsonField::Text("review_comments_process".to_string()));
    assert_eq!(
        get_canonical(&r, "limitations"),
        Some("[{\"category\":\"analysis_timeout\",\"repair_route\":\"perf/review-comments-phase-budget\"}]")
    );
    assert_eq!(get_canonical(&r, "non_claims"), Some("[\"no complete route inventory\",\"no all-clear\"]"));
    assert_eq!(get_canonical(&r, "missing_artifacts"), Some("[\"target/ripr/review/comments.json\",\"target/ripr/review/comments.md\"]"));
    let default_timeout = run_receipt(None, "root-id", "b1", "h1", None, "cache-1", "failed", None);
    assert_eq!(get_field(&default_timeout, "configured_timeout_ms"), &JsonField::Number(Some(120000)));
    assert_eq!(get_canonical(&default_timeout, "non_claims"), Some("[\"failure: unknown failure\"]"));
}

#[test]
fn stored_receipt_is_reused_only_for_the_same_commits() {
    let stored = JsonRecord {
        entries: vec![text_entry("base_sha", "b1"), text_entry("head_sha", "h1"), text_entry("custom", "kept")],
    };
    let reused = run_receipt(Some(stored.clone()), "root-id", "b1", "h1", Some(1), "cache", "failed", Some("boom\nmore"));
    assert_eq!(get_field(&reused, "custom"), &JsonField::Text("kept".to_string()));
    assert_eq!(get_field(&reused, "root_identity"), &JsonField::Missing);
    assert_eq!(get_canonical(&reused, "non_claims"), Some("[\"failure: boom\"]"));
    let fresh = run_receipt(Some(stored), "root-id", "b1", "h2", Some(1), "cache", "complete", None);
    assert_eq!(get_field(&fresh, "custom"), &JsonField::Missing);
    assert_eq!(get_field(&fresh, "status"), &JsonField::Text("complete".to_string()));
    assert_eq!(get_field(&fresh, "last_completed_phase"), &JsonField::Text("artifact_io".to_string()));
    assert_eq!(get_field(&fresh, "active_phase"), &JsonField::Null);
    let mut marked = JsonRecord { entries: vec![text_entry("status", "failed")] };
    mark_receipt_complete(&mut marked);
    assert_eq!(get_field(&marked, "status"), &JsonField::Text("complete".to_string()));
    assert_eq!(get_canonical(&marked, "missing_artifacts"), Some("[]"));
}

#[test]
fn fallback_packets_carry_status_warning_and_retained_outcome() {
    let empty = empty_review_packet("repo\\sub", "b", "h", "{\"status\":\"complete\"}");
    assert_eq!(get_field(&empty, "status"), &JsonField::Text("advisory".to_string()));
    assert_eq!(get_field(&empty, "root"), &JsonField::Text("repo/sub".to_string()));
    assert_eq!(get_canonical(&empty, "warnings"), Some("[]"));
    assert_eq!(get_canonical(&empty, "run_receipt"), Some("{\"status\":\"complete\"}"));
    let error = error_review_packet("repo", "b", "h", "boom\ndetails", "{}", Some("{\"kind\":\"x\"}"));
    assert_eq!(get_field(&error, "status"), &JsonField::Text("error".to_string()));
    assert_eq!(
        get_canonical(&error, "warnings"),
        Some("[{\"kind\":\"tool_error\",\"message\":\"boom\",\"path\":null}]")
    );
    assert_eq!(get_canonical(&error, "analysis_outcome"), Some("{\"kind\":\"x\"}"));
    let plain = error_review_packet("repo", "b", "h", "boom", "{}", Some("null"));
    assert_eq!(get_field(&plain, "analysis_outcome"), &JsonField::Missing);
    assert_eq!(
        get_field(&plain, "limits_note"),
        &JsonField::Text("Review guidance generation is advisory. The producer did not complete, so no comments are emitted.".to_string())
    );
}

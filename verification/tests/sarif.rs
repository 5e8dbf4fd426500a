use ripr_reports::sarif::{parse_sarif_policy_results, sarif_policy_exit, SarifResultFacts, 
    build_sarif_policy_report, filtered_sarif_policy_results, parse_sarif_policy_args,
    sarif_policy_report_markdown, sarif_policy_usage, SarifMissingBaseline, SarifPolicyMode,
    SarifPolicyResult, SarifPolicyThreshold,
};

fn args(values: &[&str]) -> Vec<String> {
    values.iter().map(|v| v.to_string()).collect()
}

fn result(rule: &str, level: &str, fingerprint: &str, line: Option<usize>) -> SarifPolicyResult {
    SarifPolicyResult {
        key: format!("{rule}|{fingerprint}"),
        rule_id: rule.to_string(),
        level: level.to_string(),
        fingerprint: fingerprint.to_string(),
        uri: "src/lib.rs".to_string(),
        line,
        message: "gap | here".to_string(),
    }
}

#[test]
fn sarif_args_default_and_override() {
    let parsed = parse_sarif_policy_args(&args(&["--current", "a.sarif"])).unwrap();
    assert_eq!(parsed.current, "a.sarif");
    assert_eq!(parsed.baseline, None);
    assert_eq!(parsed.mode, SarifPolicyMode::Advisory);
    assert_eq!(parsed.threshold, SarifPolicyThreshold::Warning);
    assert_eq!(parsed.missing_baseline, SarifMissingBaseline::Advisory);

    let parsed = parse_sarif_policy_args(&args(&[
        "--sarif",
        "c.sarif",
        "--baseline",
        "b.sarif",
        "--mode",
        "fail-on-new-warning",
        "--threshold",
        "note",
        "--missing-baseline",
        "error",
    ]))
    .unwrap();
    assert_eq!(parsed.current, "c.sarif");
    assert_eq!(parsed.baseline.as_deref(), Some("b.sarif"));
    assert_eq!(parsed.mode, SarifPolicyMode::FailOnNewWarning);
    assert_eq!(parsed.threshold, SarifPolicyThreshold::Note);
    assert_eq!(parsed.missing_baseline, SarifMissingBaseline::Error);
}

#[test]
fn sarif_args_reject_bad_input() {
    let usage = sarif_policy_usage();
    assert_eq!(
        parse_sarif_policy_args(&args(&[])).unwrap_err(),
        format!("sarif-policy requires `--current <path>`\n{usage}")
    );
    assert_eq!(
        parse_sarif_policy_args(&args(&["--current"])).unwrap_err(),
        format!("missing value for `--current`\n{usage}")
    );
    assert_eq!(
        parse_sarif_policy_args(&args(&["--current", "x", "--mode", "loud"])).unwrap_err(),
        "unsupported SARIF policy mode `loud`; expected advisory, baseline-check, or fail-on-new-warning"
    );
    assert_eq!(
        parse_sarif_policy_args(&args(&["--current", "x", "--threshold", "error"])).unwrap_err(),
        "unsupported SARIF policy threshold; expected warning or note"
    );
    assert_eq!(
        parse_sarif_policy_args(&args(&["--current", "x", "--missing-baseline", "x"])).unwrap_err(),
        "unsupported missing-baseline behavior; expected advisory or error"
    );
    assert_eq!(
        parse_sarif_policy_args(&args(&["--frob"])).unwrap_err(),
        format!("unknown sarif-policy option `--frob`\n{usage}")
    );
    assert_eq!(
        parse_sarif_policy_args(&args(&["stray"])).unwrap_err(),
        format!("unexpected positional argument `stray`\n{usage}")
    );
    assert_eq!(parse_sarif_policy_args(&args(&["-h"])).unwrap_err(), usage);
}

#[test]
fn sarif_modes_and_thresholds_round_trip() {
    for mode in [
        SarifPolicyMode::Advisory,
        SarifPolicyMode::BaselineCheck,
        SarifPolicyMode::FailOnNewWarning,
    ] {
        assert_eq!(SarifPolicyMode::from_str(mode.as_str()), Some(mode));
    }
    assert!(SarifPolicyThreshold::Warning.includes("warning"));
    assert!(!SarifPolicyThreshold::Warning.includes("note"));
    assert!(SarifPolicyThreshold::Note.includes("note"));
    assert!(!SarifPolicyThreshold::Note.includes("error"));
    assert_eq!(SarifMissingBaseline::from_str("error"), Some(SarifMissingBaseline::Error));
    assert_eq!(SarifMissingBaseline::from_str("fail"), None);
}

#[test]
fn sarif_report_finds_only_new_results_at_threshold() {
    let current = vec![
        result("r1", "warning", "a", Some(3)),
        result("r2", "warning", "b", None),
        result("r3", "note", "c", Some(9)),
    ];
    let baseline = vec![result("r1", "warning", "a", Some(3))];
    let filtered = filtered_sarif_policy_results(&current, SarifPolicyThreshold::Warning);
    assert_eq!(filtered.len(), 2);
    let report = build_sarif_policy_report(
        SarifPolicyMode::FailOnNewWarning,
        SarifPolicyThreshold::Warning,
        "current.sarif".to_string(),
        Some("base.sarif".to_string()),
        &current,
        Some(&baseline),
        false,
    );
    assert_eq!(report.status, "fail");
    assert_eq!(report.new_results, vec![result("r2", "warning", "b", None)]);
    assert_eq!(report.current_results_total, 3);
    assert_eq!(report.current_compared_results, 2);
    assert_eq!(report.baseline_results_total, 1);
    assert_eq!(report.baseline_compared_results, 1);
    let markdown = sarif_policy_report_markdown(&report);
    assert_eq!(
        markdown,
        "# ripr SARIF policy report\n\nStatus: fail\n\n- mode: `fail-on-new-warning`\n- threshold: `warning`\n- current: `current.sarif`\n- baseline: `base.sarif`\n- current compared results: 2\n- baseline compared results: 1\n\n## New results\n\n- `r2` `warning` src/lib.rs:? \u{2014} gap \\| here\n"
    );

    let advisory = build_sarif_policy_report(
        SarifPolicyMode::Advisory,
        SarifPolicyThreshold::Note,
        "current.sarif".to_string(),
        None,
        &current,
        None,
        true,
    );
    assert_eq!(advisory.status, "advisory_missing_baseline");
    assert!(advisory.new_results.is_empty());
    assert!(sarif_policy_report_markdown(&advisory).ends_with(
        "\nBaseline is missing; this is advisory unless `--missing-baseline error` is set.\n"
    ));

    let same = build_sarif_policy_report(
        SarifPolicyMode::BaselineCheck,
        SarifPolicyThreshold::Note,
        "current.sarif".to_string(),
        None,
        &current,
        Some(&current),
        false,
    );
    assert_eq!(same.status, "pass");
}

fn facts(rule: Option<&str>, fingerprint: Option<&str>, uri: Option<&str>, line: Option<usize>) -> SarifResultFacts {
    SarifResultFacts {
        suppressed: false,
        rule_id: rule.map(str::to_string),
        level: None,
        ripr_fingerprint: fingerprint.map(str::to_string),
        first_fingerprint: None,
        uri: uri.map(str::to_string),
        normalized_uri: uri.unwrap_or("unknown").replace('\\', "/"),
        line,
        message: Some("gap".to_string()),
    }
}

#[test]
fn sarif_results_are_sorted_by_key_keeping_the_first_of_each() {
    let mut first = facts(Some("ripr/b"), Some("fp-1"), Some("src/lib.rs"), Some(3));
    first.message = Some("first".to_string());
    let mut repeat = facts(Some("ripr/b"), Some("fp-1"), Some("src/other.rs"), Some(9));
    repeat.message = Some("second".to_string());
    let mut suppressed = facts(Some("ripr/0"), Some("fp-0"), None, None);
    suppressed.suppressed = true;
    let earlier = facts(Some("ripr/a"), Some("fp-9"), None, None);
    let results = parse_sarif_policy_results(&vec![first, repeat, suppressed, earlier]);
    let keys: Vec<&str> = results.iter().map(|r| r.key.as_str()).collect();
    assert_eq!(keys, vec!["ripr/a|fp-9", "ripr/b|fp-1"]);
    assert_eq!(results[1].message, "first");
    assert_eq!(results[1].uri, "src/lib.rs");
    assert_eq!(results[0].uri, "unknown");
    assert_eq!(results[0].level, "warning");
}

#[test]
fn sarif_fingerprint_falls_back_to_location_and_message() {
    let mut f = facts(None, None, Some("src\\lib.rs"), Some(12));
    let named = parse_sarif_policy_results(&vec![f.clone()]);
    assert_eq!(named[0].fingerprint, "src/lib.rs|12|gap");
    assert_eq!(named[0].key, "unknown|src/lib.rs|12|gap");
    f.first_fingerprint = Some("partial".to_string());
    let partial = parse_sarif_policy_results(&vec![f.clone()]);
    assert_eq!(partial[0].fingerprint, "partial");
    f.ripr_fingerprint = Some("ripr".to_string());
    let own = parse_sarif_policy_results(&vec![f]);
    assert_eq!(own[0].fingerprint, "ripr");
    let mut bare = facts(Some("r"), None, None, None);
    bare.message = None;
    let bare = parse_sarif_policy_results(&vec![bare]);
    assert_eq!(bare[0].fingerprint, "unknown|0|");
    assert_eq!(bare[0].message, "ripr SARIF result");
}

#[test]
fn sarif_exit_fails_on_missing_baseline_or_new_results_in_fail_mode() {
    let current = vec![result("r1", "warning", "a", Some(3)), result("r2", "warning", "b", None)];
    let failing = build_sarif_policy_report(
        SarifPolicyMode::FailOnNewWarning,
        SarifPolicyThreshold::Warning,
        "current.sarif".to_string(),
        Some("base.sarif".to_string()),
        &current,
        Some(&current[..0]),
        false,
    );
    assert_eq!(
        sarif_policy_exit(&failing, SarifMissingBaseline::Advisory),
        Err("SARIF policy found 2 new warning result(s)".to_string())
    );
    let advisory = build_sarif_policy_report(
        SarifPolicyMode::Advisory,
        SarifPolicyThreshold::Warning,
        "current.sarif".to_string(),
        Some("base.sarif".to_string()),
        &current,
        Some(&current[..0]),
        false,
    );
    assert_eq!(sarif_policy_exit(&advisory, SarifMissingBaseline::Error), Ok(()));
    let missing = build_sarif_policy_report(
        SarifPolicyMode::FailOnNewWarning,
        SarifPolicyThreshold::Warning,
        "current.sarif".to_string(),
        None,
        &current,
        None,
        true,
    );
    assert_eq!(
        sarif_policy_exit(&missing, SarifMissingBaseline::Error),
        Err("SARIF policy baseline is missing".to_string())
    );
    assert_eq!(sarif_policy_exit(&missing, SarifMissingBaseline::Advisory), Ok(()));
}

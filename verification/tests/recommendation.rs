use ripr_reports::recommendation::{
    build_recommendation_calibration_report, calibrated_recommendation, calibrated_suppression,
    combine_latency, display_path, expect_arg, find_guidance_item, guidance_paths,
    markdown_path_for, normalize_path_text, parse_recommendation_calibration_args,
    read_static_movement, receipt_for_case, recommendation_calibration_markdown,
    same_path_text, static_movement_from_sources, summarize_recommendation_calibration,
    warning_matches, AgentReceiptSeam, ExpectedCase, GuidanceDoc, GuidanceInput, GuidanceItem,
    GuidancePlacement, GuidanceSeam, GuidanceSuggestedTest, Latency, ListedSeam, MovedSeam,
    MovementBySeam, OutcomeReceipt, RecommendationCalibrationArgs, StaticMovement,
    TargetedTestOutcome,
};

const DEFAULT_EXPECTATIONS: &str =
    "fixtures/boundary_gap/expected/recommendation-calibration/expectations.json";

#[test]
fn recommendation_calibration_args_parse_defaults_and_inputs() -> Result<(), String> {
    let parsed = parse_recommendation_calibration_args(&[
        "--root".to_string(),
        ".".to_string(),
        "--pr-guidance".to_string(),
        "target/ripr/review/comments.json".to_string(),
        "--outcome-receipts".to_string(),
        "fixtures/outcomes".to_string(),
        "--targeted-test-outcome".to_string(),
        "target/ripr/outcome.json".to_string(),
        "--out".to_string(),
        "target/ripr/reports/recommendation-calibration.json".to_string(),
    ])?;
    assert_eq!(parsed.root, ".");
    assert_eq!(parsed.pr_guidance, vec!["target/ripr/review/comments.json".to_string()]);
    assert_eq!(parsed.expectations, DEFAULT_EXPECTATIONS);
    assert_eq!(parsed.out_md, "target/ripr/reports/recommendation-calibration.md");
    Ok(())
}

#[test]
fn calibration_args_reject_unknown_missing_and_help() {
    let usage = "usage: cargo xtask recommendation-calibration [--root <path>] [--pr-guidance <path>] [--calibration-expectations <path>] [--outcome-receipts <path>] [--targeted-test-outcome <path>] [--agent-receipt <path>] [--out <json-path>] [--out-md <markdown-path>]";
    assert_eq!(
        parse_recommendation_calibration_args(&["--bogus".to_string()]),
        Err(format!("unknown recommendation-calibration option `--bogus`\n{usage}"))
    );
    assert_eq!(parse_recommendation_calibration_args(&["-h".to_string()]), Err(usage.to_string()));
    assert_eq!(
        parse_recommendation_calibration_args(&["--expectations".to_string(), " ".to_string()]),
        Err("recommendation-calibration --calibration-expectations requires a value".to_string())
    );
    let args = vec!["--out".to_string()];
    assert_eq!(
        expect_arg(&args, 1, "--out"),
        Err("recommendation-calibration --out requires a value".to_string())
    );
    let parsed = parse_recommendation_calibration_args(&[
        "--out-md".to_string(),
        "x.md".to_string(),
        "--agent-receipt".to_string(),
        "r.json".to_string(),
    ])
    .unwrap();
    assert_eq!(parsed.out_md, "x.md");
    assert_eq!(parsed.agent_receipt.as_deref(), Some("r.json"));
}

#[test]
fn markdown_paths_replace_or_add_the_extension() {
    assert_eq!(markdown_path_for("a/b/report.json"), "a/b/report.md");
    assert_eq!(markdown_path_for("a.b/report"), "a.b/report.md");
    assert_eq!(markdown_path_for("dir/.hidden"), "dir/.hidden.md");
    assert_eq!(markdown_path_for("x.tar.gz"), "x.tar.md");
    assert_eq!(markdown_path_for("foo/"), "foo.md");
    assert_eq!(markdown_path_for("a/."), "a.md");
    assert_eq!(markdown_path_for("a/.."), "a/..");
    assert_eq!(normalize_path_text("./a\\b"), "a/b");
    assert_eq!(normalize_path_text(""), ".");
    assert_eq!(display_path("./x/y"), "x/y");
    assert!(same_path_text("./a/b", "a\\b"));
    assert!(!same_path_text("a/b", "a/c"));
}

fn case(id: &str, collection: &str, item: Option<&str>) -> ExpectedCase {
    ExpectedCase {
        id: id.to_string(),
        source_artifact: "guidance.json".to_string(),
        source_collection: collection.to_string(),
        source_item_id: item.map(str::to_string),
        outcome: "useful".to_string(),
        placement_quality: "exact".to_string(),
        suggested_test_target_quality: "correct".to_string(),
        suppressed_reason: Some("duplicate".to_string()),
        suppression_quality: Some("correct".to_string()),
        static_movement: "unchanged".to_string(),
        seam_id: format!("seam-{id}"),
        expected_test_file: Some("tests/a.rs".to_string()),
        missing_discriminator: None,
        reason: "expected reason".to_string(),
    }
}

fn item(id: &str, seam: &str) -> GuidanceItem {
    GuidanceItem {
        id: Some(id.to_string()),
        seam_id: Some(seam.to_string()),
        grip_class: Some("weak".to_string()),
        severity: None,
        missing_discriminator: Some("boundary".to_string()),
        suggested_test: Some(GuidanceSuggestedTest {
            recommended_file: Some("tests/b.rs".to_string()),
            near_test: None,
        }),
        placement: None,
        seam: Some(GuidanceSeam { file: Some("src/lib.rs".to_string()), line: Some(7) }),
    }
}

fn receipt(case_id: Option<&str>, outcome: &str) -> OutcomeReceipt {
    OutcomeReceipt {
        path: "receipts/r.json".to_string(),
        case_id: case_id.map(str::to_string),
        guidance_artifact: None,
        guidance_id: None,
        seam_id: None,
        outcome: outcome.to_string(),
        source: "human".to_string(),
        reason: String::new(),
        placement_quality: "near".to_string(),
        suggested_test_target_quality: "wrong".to_string(),
        expected_file: None,
        actual_file: Some("tests/c.rs".to_string()),
        suppression_reason: Some("none".to_string()),
        suppression_quality: Some("not_applicable".to_string()),
        static_movement: "improved".to_string(),
        latency: Latency {
            guidance_generated_unix_ms: Some(5),
            annotation_emitted_unix_ms: None,
            outcome_recorded_unix_ms: Some(9),
            annotation_latency_ms: None,
            outcome_latency_ms: None,
        },
    }
}

#[test]
fn receipts_are_matched_by_case_then_guidance_then_seam() {
    let c = case("c1", "comments", Some("item-1"));
    let mut by_guidance = receipt(None, "noisy");
    by_guidance.guidance_artifact = Some("guidance.json".to_string());
    by_guidance.guidance_id = Some("item-1".to_string());
    let by_case = receipt(Some("c1"), "useful");
    let receipts = vec![by_guidance.clone(), by_case.clone()];
    assert_eq!(receipt_for_case(&c, &receipts), Some(&by_case));
    let receipts = vec![by_guidance.clone()];
    assert_eq!(receipt_for_case(&c, &receipts), Some(&by_guidance));
    let mut by_seam = receipt(None, "useful");
    by_seam.seam_id = Some("seam-c1".to_string());
    assert_eq!(receipt_for_case(&c, &[by_seam.clone()]), None);
    let item_less = case("c1", "comments", None);
    assert_eq!(receipt_for_case(&item_less, &[by_seam.clone()]), Some(&by_seam));
}

#[test]
fn recommendation_is_calibrated_from_item_receipt_and_case() {
    let c = case("c1", "comments", Some("item-1"));
    let it = item("item-1", "seam-c1");
    let r = receipt(Some("c1"), "noisy");
    let rec = calibrated_recommendation(&c, &it, Some(&r), None, 3);
    assert_eq!(rec.id, "item-1");
    assert_eq!(rec.rank, 3);
    assert_eq!(rec.placement.path.as_deref(), Some("src/lib.rs"));
    assert_eq!(rec.placement.line, Some(7));
    assert_eq!(rec.placement.quality, "near");
    assert_eq!(rec.severity, "unknown");
    assert_eq!(rec.missing_discriminator.as_deref(), Some("boundary"));
    assert_eq!(rec.suggested_test.recommended_file.as_deref(), Some("tests/b.rs"));
    assert_eq!(rec.suggested_test.target_quality, "wrong");
    assert_eq!(rec.suggested_test.expected_file.as_deref(), Some("tests/a.rs"));
    assert_eq!(rec.outcome, "noisy");
    assert_eq!(rec.outcome_source, "outcome_receipt:human");
    assert_eq!(rec.outcome_reason, "expected reason");
    assert_eq!(rec.static_movement.state, "improved");
    assert_eq!(rec.static_movement.source, "outcome_receipt");
    let bare = calibrated_recommendation(&case("c2", "comments", None), &GuidanceItem {
        id: None,
        seam_id: None,
        grip_class: None,
        severity: None,
        missing_discriminator: None,
        suggested_test: None,
        placement: Some(GuidancePlacement { path: Some("p.rs".to_string()), line: None, mode: Some("line".to_string()) }),
        seam: None,
    }, None, None, 1);
    assert_eq!(bare.id, "ripr-review-seam-c2");
    assert_eq!(bare.outcome_source, "fixture_expectation");
    assert_eq!(bare.static_movement.source, "fixture_expectation");
}

#[test]
fn suppression_ignores_placeholder_receipt_values() {
    let c = case("s1", "suppressed", None);
    let r = receipt(Some("s1"), "suppressed_correctly");
    let s = calibrated_suppression(&c, Some(&r));
    assert_eq!(s.id, "ripr-review-s1");
    assert_eq!(s.reason, "duplicate");
    assert_eq!(s.quality, "correct");
    assert_eq!(s.outcome, "suppressed_correctly");
    let movement = StaticMovement {
        state: "regressed".to_string(),
        source: "agent_receipt".to_string(),
        before_class: None,
        after_class: None,
    };
    assert_eq!(static_movement_from_sources(&c, None, Some(&movement)), movement);
}

#[test]
fn static_movement_keeps_the_last_word_per_seam() {
    let targeted = TargetedTestOutcome {
        moved: vec![MovedSeam {
            seam_id: Some("a".to_string()),
            direction: None,
            before: Some("x".to_string()),
            after: Some("y".to_string()),
        }],
        unchanged: vec![],
        regressed: vec![MovedSeam {
            seam_id: Some("b".to_string()),
            direction: Some("up".to_string()),
            before: None,
            after: None,
        }],
        new: vec![ListedSeam { seam_id: Some("c".to_string()), grip_class: Some("g".to_string()) }],
        removed: vec![ListedSeam { seam_id: Some("a".to_string()), grip_class: None }],
    };
    let agent = AgentReceiptSeam {
        seam_id: Some("b".to_string()),
        change: None,
        before: None,
        after: Some("z".to_string()),
    };
    let by_seam = read_static_movement(Some(&targeted), Some(&agent));
    assert_eq!(by_seam.get("a").unwrap().state, "resolved");
    assert_eq!(by_seam.get("b").unwrap().state, "unknown");
    assert_eq!(by_seam.get("b").unwrap().source, "agent_receipt");
    assert_eq!(by_seam.get("c").unwrap().after_class.as_deref(), Some("g"));
    assert!(by_seam.get("d").is_none());
    let empty = read_static_movement(None, None);
    assert!(empty.get("a").is_none());
}

#[test]
fn calibration_report_counts_and_warns() {
    let cases = vec![
        case("c1", "comments", Some("item-1")),
        case("c2", "suppressed", None),
        case("c3", "warnings", None),
        case("c4", "comments", Some("missing")),
        case("c5", "other", None),
    ];
    let doc = GuidanceDoc {
        comments: Some(vec![item("item-1", "seam-c1")]),
        summary_only: None,
        suppressed: Some(vec![item("s", "seam-c2")]),
        warnings: vec!["about seam-c3 here".to_string()],
    };
    assert!(find_guidance_item(&doc, "comments", &cases[0]).is_some());
    assert!(find_guidance_item(&doc, "comments", &cases[3]).is_none());
    assert!(warning_matches(&doc, &cases[2]));
    let inputs = vec![
        GuidanceInput { path: "./guidance.json".to_string(), value: Some(doc), error: None },
        GuidanceInput { path: "other.json".to_string(), value: None, error: Some("missing or invalid".to_string()) },
    ];
    let args = RecommendationCalibrationArgs {
        root: "./".to_string(),
        pr_guidance: vec![],
        expectations: "./e.json".to_string(),
        outcome_receipts: vec![],
        targeted_test_outcome: None,
        agent_receipt: None,
        out: "o.json".to_string(),
        out_md: "o.md".to_string(),
    };
    assert_eq!(guidance_paths(&args, &cases), vec!["guidance.json".to_string()]);
    let receipts = vec![receipt(Some("c1"), "useful")];
    let report = build_recommendation_calibration_report(&args, &cases, inputs, receipts.clone(), &MovementBySeam::new());
    assert_eq!(report.status, "advisory");
    assert_eq!(report.recommendations.len(), 1);
    assert_eq!(report.suppressed.len(), 2);
    assert_eq!(report.summary.recommendations_evaluated, 3);
    assert_eq!(report.summary.useful, 3);
    assert_eq!(report.summary.top_recommendation_outcome, "useful");
    assert_eq!(report.summary.static_improved, 1);
    assert_eq!(
        report.warnings,
        vec![
            "missing or invalid".to_string(),
            "c4 did not find missing in guidance.json".to_string(),
            "c5 uses unsupported source collection `other`".to_string(),
        ]
    );
    assert_eq!(report.inputs.calibration_expectations, "e.json");
    assert_eq!(report.latency, combine_latency(&receipts));
    assert_eq!(report.latency.guidance_generated_unix_ms, Some(5));
    let md = recommendation_calibration_markdown(&report);
    assert!(md.starts_with("# Recommendation Calibration\n\nStatus: advisory\n\n## Summary\n\n"));
    assert!(md.contains("| recommendations_evaluated | 3 |\n"));
    assert!(md.contains("## Top Recommendation\n\n- `seam-c1` `near` `useful`\n- placement: `src/lib.rs`:7 `unknown`\n"));
    assert!(md.contains("| 1 | `seam-c1` | `c1` | `near` | `useful` | `wrong` | `improved` |\n"));
    assert!(md.contains("## Warnings\n\n- missing or invalid\n"));
    assert!(md.ends_with("## Limits\n\nAdvisory recommendation-quality evidence only; no telemetry, generated tests, source edits, runtime execution, or CI blocking.\n"));
    let summary = summarize_recommendation_calibration(&[], &[]);
    assert_eq!(summary.top_recommendation_outcome, "unknown");
}

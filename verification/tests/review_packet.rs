use ripr_reports::review_packet::{
    validate_packet_value, violations_result, CheckOutputRead, FieldValue, PacketExpectations,
    PacketFacts, ProducerFacts, ReceiptFacts, RenderingLimitsFacts, SummaryFacts,
};

fn s(value: &str) -> Option<String> {
    Some(value.to_string())
}

fn expectations() -> PacketExpectations {
    PacketExpectations {
        base: "origin/main".to_string(),
        head: "HEAD".to_string(),
        root: "/repo/.".to_string(),
        base_sha: "base-sha".to_string(),
        head_sha: "head-sha".to_string(),
        check_output: None,
        markdown_required: false,
        markdown_exists: false,
    }
}

fn receipt() -> ReceiptFacts {
    ReceiptFacts {
        keys: [
            "schema_version",
            "status",
            "root_identity",
            "base_sha",
            "head_sha",
            "configured_timeout_ms",
            "last_completed_phase",
            "active_phase",
            "completed_artifacts",
            "missing_artifacts",
            "reusable_cache_identity",
            "limitations",
            "non_claims",
            "atomic_write_status",
        ]
        .iter()
        .map(|k| k.to_string())
        .collect(),
        schema_version: s("0.1"),
        status: s("complete"),
        base_sha: s("base-sha"),
        head_sha: s("head-sha"),
        configured_timeout_ms: Some(120000),
        last_completed_phase: s("artifact_io"),
        active_phase: FieldValue::Null,
        completed_artifacts: Some(2),
        missing_artifacts: Some(0),
        limitations: Some(0),
        non_claims: Some(1),
    }
}

fn valid_packet() -> PacketFacts {
    PacketFacts {
        schema_version: s("0.1"),
        tool: s("ripr"),
        base: s("origin/main"),
        head: s("HEAD"),
        root: s("/repo/."),
        status: s("advisory"),
        mode: s("fast"),
        rendering_limits: Some(RenderingLimitsFacts {
            max_inline_comments_is_u64: true,
            max_summary_items_is_u64: true,
        }),
        summary: Some(SummaryFacts {
            comments: Some(0),
            summary_only: Some(0),
            suppressed: Some(0),
            unchanged_tests_is_bool: true,
        }),
        comments: Some(0),
        summary_only: Some(0),
        suppressed: Some(0),
        warnings: Some(0),
        limits_note: s("Comments are capped and advisory; summary-only items never annotate."),
        run_receipt: Some(receipt()),
        analysis_outcome: None,
    }
}

#[test]
fn a_valid_packet_has_no_violations() {
    assert!(validate_packet_value(&valid_packet(), &expectations()).is_empty());
    assert_eq!(violations_result(&Vec::new()), Ok(()));
}

#[test]
fn validation_rejects_summary_count_drift() {
    let mut packet = valid_packet();
    if let Some(summary) = packet.summary.as_mut() {
        summary.comments = Some(99);
    }
    let violations = validate_packet_value(&packet, &expectations());
    assert!(
        violations.iter().any(|violation| violation.contains("summary.comments is 99, expected 0")),
        "{violations:#?}"
    );
}

#[test]
fn validation_rejects_incomplete_complete_receipt() {
    let mut packet = valid_packet();
    if let Some(receipt) = packet.run_receipt.as_mut() {
        receipt.active_phase = FieldValue::Text("artifact_io".to_string());
        receipt.completed_artifacts = Some(0);
    }
    let violations = validate_packet_value(&packet, &expectations());
    assert!(violations.iter().any(|violation| violation.contains("active_phase must be null")));
    assert!(violations.iter().any(|violation| violation.contains("completed_artifacts must not be empty")));
}

#[test]
fn validation_requires_markdown_artifact() {
    let mut expected = expectations();
    expected.markdown_required = true;
    expected.markdown_exists = false;
    let violations = validate_packet_value(&valid_packet(), &expected);
    assert!(violations.contains(&"target/ripr/review/comments.md is missing".to_string()));
}

#[test]
fn check_output_missing_artifact_is_not_accepted() {
    let mut expected = expectations();
    expected.check_output = Some((
        "/repo/target/missing-check-output.json".to_string(),
        CheckOutputRead::Unreadable("No such file or directory (os error 2)".to_string()),
    ));
    let violations = validate_packet_value(&valid_packet(), &expected);
    assert!(violations.iter().any(|violation| violation.contains("is unreadable")), "{violations:#?}");
}

#[test]
fn check_output_outcome_mismatch_is_reported() {
    let mut expected = expectations();
    expected.check_output = Some((
        "out.json".to_string(),
        CheckOutputRead::Parsed(ProducerFacts {
            schema_version: s("0.2"),
            tool: s("ripr"),
            mode: s("draft"),
            root: s("/repo"),
            base: s("origin/main"),
            summary_is_object: true,
            findings_is_array: true,
            analysis_outcome: s("{\"analysis_complete\":true}"),
        }),
    ));
    let violations = validate_packet_value(&valid_packet(), &expected);
    assert_eq!(
        violations,
        vec!["--check-output out.json analysis_outcome does not match rendered review packet".to_string()]
    );
}

#[test]
fn identity_and_enum_fields_are_reported_with_quoted_values() {
    let mut packet = valid_packet();
    packet.tool = s("other");
    packet.mode = s("turbo");
    packet.base = None;
    let violations = validate_packet_value(&packet, &expectations());
    assert_eq!(
        violations,
        vec![
            "tool is \"other\", expected \"ripr\"".to_string(),
            "base is missing or not a string".to_string(),
            "mode \"turbo\" is not contract-valid".to_string(),
        ]
    );
}

#[test]
fn interrupted_receipts_name_their_phase_and_missing_artifacts() {
    let mut packet = valid_packet();
    if let Some(receipt) = packet.run_receipt.as_mut() {
        receipt.status = s("failed");
        receipt.active_phase = FieldValue::Null;
        receipt.missing_artifacts = Some(0);
        receipt.keys.retain(|k| k != "atomic_write_status");
    }
    let violations = validate_packet_value(&packet, &expectations());
    assert_eq!(
        violations,
        vec![
            "run_receipt.atomic_write_status is missing".to_string(),
            "Some(\"failed\") run_receipt.active_phase must name the interrupted phase".to_string(),
            "Some(\"failed\") run_receipt.missing_artifacts must not be empty".to_string(),
        ]
    );
    assert_eq!(
        violations_result(&violations),
        Err(format!("review comments contract violations:\n- {}\n- {}\n- {}", violations[0], violations[1], violations[2]))
    );
}

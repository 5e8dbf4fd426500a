use ripr_reports::adjudication::{
    adjudicate, adjudication_outcome, AdjudicationBatch, AdjudicationManifest,
};
use ripr_reports::release_denominator::{
    accepted_execution_excluded_paths, apply_provisional_cutoff_boundary,
    body_issue_or_pr_references, is_adjudication_review_ref, normalize_reference_projections,
    normalize_snapshot, normalized_exclusion_paths, project_candidate_tree, reconcile_snapshot,
    sorted_references, validate_capture_repository, validate_sha_list, AdjudicationOverride,
    CommitRecord, LiveFacts, ReferenceEvidence, Snapshot, SnapshotSource,
};

fn sha(c: char) -> String {
    std::iter::repeat(c).take(40).collect()
}

fn record(commit: &str, position: usize, disposition: &str, state: &str) -> CommitRecord {
    CommitRecord {
        commit_sha: commit.to_string(),
        first_parent_position: position,
        subject: format!("commit {position}"),
        pr_refs: Vec::new(),
        issue_refs: Vec::new(),
        references: Vec::new(),
        claim_refs: Vec::new(),
        reference_capture_status: "not_captured".to_string(),
        reference_capture_limitation: String::new(),
        theme_or_surface: "release".to_string(),
        release_disposition: disposition.to_string(),
        acceptance_owner: "release owner".to_string(),
        candidate_tree_state: state.to_string(),
        candidate_only_excluded_paths: Vec::new(),
        candidate_only_exclusion_granularity: None,
        replacement_commit_sha: None,
        review_refs: Vec::new(),
        proof_refs: Vec::new(),
        source_survivor_or_swarm_exclusion_effect: "included".to_string(),
        limitation_or_operator_decision: "none".to_string(),
    }
}

fn ledger() -> Snapshot {
    let a = sha('a');
    let b = sha('b');
    Snapshot {
        schema_version: "0.1".to_string(),
        kind: "release_denominator_snapshot".to_string(),
        captured_at: "2026-07-29T20:30:00Z".to_string(),
        source: SnapshotSource {
            mode: "captured".to_string(),
            stage: "provisional".to_string(),
            freshness: "current".to_string(),
            historical_base_sha: sha('c'),
            provisional_review_cutoff_sha: Some(a.clone()),
            github_repository: None,
            candidate_ref: "refs/heads/main".to_string(),
            candidate_sha: b.clone(),
            range_commits: vec![a.clone(), b.clone()],
            candidate_tree_commits: vec![a.clone(), b.clone()],
        },
        records: vec![
            record(&a, 1, "include_product", "present_in_candidate"),
            record(&b, 2, "include_release_infrastructure", "present_in_candidate"),
        ],
    }
}

fn reference(kind: &str, number: u64, source: &str, commit: &str, url: &str) -> ReferenceEvidence {
    ReferenceEvidence {
        kind: kind.to_string(),
        number,
        source: source.to_string(),
        evidence_url: Some(url.to_string()),
        github_identity: None,
        observed_for_commit_sha: commit.to_string(),
        reviewed: true,
        limitation: String::new(),
    }
}

fn batch(id: &str, positions: Vec<usize>, disposition: &str, state: &str) -> AdjudicationBatch {
    AdjudicationBatch {
        id: id.to_string(),
        positions,
        disposition: disposition.to_string(),
        candidate_tree_state: state.to_string(),
        review_ref: "review:2832:batch-A-product".to_string(),
        rationale: "reviewed product change".to_string(),
    }
}

fn manifest(batches: Vec<AdjudicationBatch>) -> AdjudicationManifest {
    AdjudicationManifest {
        schema_version: "0.1".to_string(),
        kind: "release_denominator_adjudication".to_string(),
        cutoff_sha: sha('a'),
        batches,
        overrides: Vec::new(),
    }
}

fn exclusion_override(paths: Vec<&str>) -> AdjudicationOverride {
    AdjudicationOverride {
        position: 1,
        batch_id: "A".to_string(),
        exclusion_id: Some("exclusion:2767:verification-execution".to_string()),
        disposition: "candidate_only_exclusion".to_string(),
        candidate_tree_state: "present_in_candidate".to_string(),
        review_ref: "review:2832:exception-2767".to_string(),
        delivered_delta: "verification execution".to_string(),
        challenged_disposition: "include_product".to_string(),
        candidate_effect: "paths excluded".to_string(),
        residual_acceptance: "Accepted by #2767.".to_string(),
        candidate_only_excluded_paths: paths.into_iter().map(str::to_string).collect(),
        candidate_only_exclusion_granularity: Some("hunk_or_symbol".to_string()),
        review_evidence: vec!["evidence:one".to_string()],
    }
}

#[test]
fn github_body_reference_parser_handles_unicode_context() {
    assert_eq!(
        body_issue_or_pr_references("Decision — Closes #2393."),
        vec![(2393, "closing_reference")],
        "Unicode PR body context was not parsed safely"
    );
}

#[test]
fn github_body_reference_parser_requires_explicit_closing_syntax() {
    assert_eq!(
        body_issue_or_pr_references("Add fixture #123"),
        vec![(123, "body_reference")],
        "ordinary fixture reference was misclassified as closing"
    );
    assert_eq!(
        body_issue_or_pr_references("Does not close #123"),
        vec![(123, "body_reference")],
        "negated closing reference was misclassified"
    );
    assert_eq!(
        body_issue_or_pr_references("Fixes #123"),
        vec![(123, "closing_reference")],
        "explicit closing reference was not recognized"
    );
}

#[test]
fn github_capture_repository_must_match_pinned_source() {
    assert!(
        validate_capture_repository(Some("EffortlessMetrics/ripr-swarm"), "attacker/fork").is_err(),
        "capture from a different repository was accepted"
    );
    assert!(
        validate_capture_repository(
            Some("EffortlessMetrics/ripr-swarm"),
            "EffortlessMetrics/ripr-swarm",
        )
        .is_ok(),
        "matching capture repository was rejected"
    );
}

#[test]
fn adjudication_review_refs_require_a_complete_slug_shape() {
    for accepted in [
        "review:2832:batch-A-product",
        "review:2832:exception-2767",
        "review:2825:batch-E-product",
        "review:2825:batch-J-defer",
    ] {
        assert!(
            is_adjudication_review_ref(accepted),
            "established review ref {accepted} was rejected"
        );
    }
    for rejected in [
        "review:2825:",
        "review:2825:bad value",
        "review:2825:trailing ",
        "review:2825:snake_case",
        "review:2825:dot.slug",
        "review:2825:path/slug",
        "review:2825:-leading-hyphen",
        "review:2825:trailing-hyphen-",
        "review:2825:double--hyphen",
        "review:9999:unknown-issue",
    ] {
        assert!(
            !is_adjudication_review_ref(rejected),
            "malformed review ref {rejected} was accepted"
        );
    }
    let overlong = format!("review:2825:{}", "a".repeat(65));
    assert!(!is_adjudication_review_ref(&overlong), "overlong review-ref slug was accepted");
}

#[test]
fn body_references_are_numbered_once_each_in_order() {
    assert_eq!(
        body_issue_or_pr_references("Refs #7 and resolves #8; x#9 is not a reference"),
        vec![(7, "body_reference"), (8, "closing_reference")]
    );
}

#[test]
fn a_complete_small_ledger_reconciles_and_is_ready() {
    let ledger = reconcile_snapshot(ledger(), None);
    assert!(ledger.reasons.is_empty(), "unexpected reasons: {:?}", ledger.reasons);
    let report = normalize_snapshot(ledger, b"[]", b"[]", b"[]");
    assert_eq!(report.status, "ready");
    assert_eq!(
        report.next_action,
        "Review every provisional disposition before promoting this ledger to the final candidate."
    );
    assert_eq!(report.record_set_digest, report.range_digest);
    assert!(report.record_set_digest.starts_with("sha256:"));
    assert_eq!(report.record_set_digest.len(), "sha256:".len() + 64);
    assert_eq!(
        report.counts_by_disposition,
        vec![
            ("include_product".to_string(), 1),
            ("include_release_infrastructure".to_string(), 1)
        ]
    );
    assert_eq!(report.counts_by_tree_state, vec![("present_in_candidate".to_string(), 2)]);
}

#[test]
fn ledger_digests_differ_for_different_bytes() {
    let report = normalize_snapshot(reconcile_snapshot(ledger(), None), b"[1]", b"[2]", b"[]");
    assert_ne!(report.record_set_digest, report.range_digest);
}

#[test]
fn a_missing_record_and_wrong_order_fail_closed() {
    let mut missing = ledger();
    missing.records.pop();
    let reconciled = reconcile_snapshot(missing, None);
    assert!(reconciled
        .reasons
        .contains(&"record count 1 does not reconcile with range count 2".to_string()));

    let mut swapped = ledger();
    swapped.records.swap(0, 1);
    let reconciled = reconcile_snapshot(swapped, None);
    assert!(reconciled
        .reasons
        .contains(&"record at position 1 does not match first-parent range order".to_string()));
    let report = normalize_snapshot(reconciled, b"", b"", b"");
    assert_eq!(report.status, "reconcile_required");
}

#[test]
fn a_duplicate_and_out_of_range_record_fail_closed() {
    let mut ledger = ledger();
    let a = sha('a');
    let d = sha('d');
    ledger.records[1].commit_sha = a.clone();
    ledger.records.push(record(&d, 3, "include_product", "present_in_candidate"));
    let reasons = reconcile_snapshot(ledger, None).reasons;
    assert!(reasons.contains(&format!("commit {a} appears more than once")));
    assert!(reasons.contains(&format!("commit {d} is outside the captured range")));
}

#[test]
fn final_operator_decision_fails_closed() {
    let mut ledger = ledger();
    ledger.source.stage = "final".to_string();
    ledger.records[1].release_disposition = "operator_decision_required".to_string();
    let report = normalize_snapshot(reconcile_snapshot(ledger, None), b"", b"", b"");
    assert_eq!(report.status, "reconcile_required");
    assert_eq!(
        report.reconciliation_reasons.last().map(String::as_str),
        Some("final ledger retains operator_decision_required")
    );
}

#[test]
fn live_observation_mismatch_fails_closed() {
    let facts = LiveFacts {
        candidate_sha: None,
        range_commits: vec![sha('a')],
        candidate_tree_commits: vec![sha('a'), sha('b')],
        errors: vec!["git unavailable".to_string()],
    };
    let reasons = reconcile_snapshot(ledger(), Some(&facts)).reasons;
    assert_eq!(
        reasons,
        vec![
            "git unavailable".to_string(),
            "live candidate ref does not resolve to captured candidate_sha".to_string(),
            "live first-parent range differs from captured range_commits".to_string(),
        ]
    );
}

#[test]
fn sha_lists_report_empty_invalid_and_duplicate_values() {
    let mut reasons = Vec::new();
    validate_sha_list("range_commits", &[], &mut reasons);
    validate_sha_list("tree", &[sha('a'), "xyz".to_string(), sha('a')], &mut reasons);
    assert_eq!(
        reasons,
        vec![
            "range_commits must not be empty".to_string(),
            "tree contains invalid SHA xyz".to_string(),
            format!("tree contains duplicate SHA {}", sha('a')),
        ]
    );
}

#[test]
fn references_are_sorted_and_projections_filled() {
    let commit = sha('a');
    let refs = vec![
        reference("merge_pr", 20, "associated_pull_request", &commit, "u2"),
        reference("issue", 9, "closing_reference", &commit, "u3"),
        reference("merge_pr", 10, "associated_pull_request", &commit, "u1"),
    ];
    let sorted = sorted_references(refs.clone());
    let order: Vec<(String, u64)> = sorted.iter().map(|r| (r.kind.clone(), r.number)).collect();
    assert_eq!(
        order,
        vec![
            ("issue".to_string(), 9),
            ("merge_pr".to_string(), 10),
            ("merge_pr".to_string(), 20)
        ]
    );
    let mut rec = record(&commit, 1, "include_product", "present_in_candidate");
    rec.references = refs;
    let mut reasons = Vec::new();
    normalize_reference_projections(&mut rec, &mut reasons);
    assert!(reasons.is_empty());
    assert_eq!(rec.pr_refs, vec![10, 20]);
    assert_eq!(rec.issue_refs, vec![9]);

    let mut mismatched = record(&commit, 1, "include_product", "present_in_candidate");
    mismatched.references = vec![reference("issue", 9, "closing_reference", &commit, "u3")];
    mismatched.issue_refs = vec![8];
    normalize_reference_projections(&mut mismatched, &mut reasons);
    assert_eq!(
        reasons,
        vec![format!("commit {commit} issue_refs compatibility projection disagrees with references")]
    );
}

#[test]
fn contradictory_reference_identity_fails_closed() {
    let mut ledger = ledger();
    let commit = sha('a');
    ledger.records[0].reference_capture_status = "captured".to_string();
    ledger.records[0].references = vec![
        reference("issue", 9, "closing_reference", &commit, "same"),
        reference("issue", 10, "closing_reference", &commit, "same"),
    ];
    let reasons = reconcile_snapshot(ledger, None).reasons;
    assert!(reasons.contains(&format!(
        "commit {commit} evidence identity has contradictory reference claims"
    )));
}

#[test]
fn capture_status_requires_typed_reference_evidence() {
    let mut ledger = ledger();
    let commit = sha('a');
    ledger.records[0].reference_capture_status = "captured".to_string();
    let reasons = reconcile_snapshot(ledger, None).reasons;
    assert_eq!(
        reasons,
        vec![format!("commit {commit} is marked captured without typed reference evidence")]
    );
}

#[test]
fn claim_refs_without_selected_authority_fail_closed() {
    let mut ledger = ledger();
    let commit = sha('b');
    ledger.records[1].claim_refs = vec!["claim:a".to_string(), "claim:a".to_string()];
    let reasons = reconcile_snapshot(ledger, None).reasons;
    assert_eq!(
        reasons,
        vec![
            format!("commit {commit} repeats claim_ref claim:a"),
            format!("commit {commit} has claim_refs but the selected claim authority is absent"),
        ]
    );
}

#[test]
fn cutoff_boundary_reopens_later_records() {
    let mut ledger = ledger();
    apply_provisional_cutoff_boundary(&mut ledger).expect("cutoff is in the ledger");
    assert_eq!(ledger.records[0].release_disposition, "include_product");
    assert_eq!(ledger.records[1].release_disposition, "operator_decision_required");
    assert_eq!(ledger.records[1].candidate_tree_state, "candidate_tree_state_pending");
    let mut missing = ledger.clone();
    missing.source.provisional_review_cutoff_sha = Some(sha('f'));
    assert_eq!(
        apply_provisional_cutoff_boundary(&mut missing),
        Err(format!("provisional review cutoff {} is not in the captured range", sha('f')))
    );
}

#[test]
fn exclusion_paths_are_normalized_and_checked() {
    let paths = normalized_exclusion_paths(&exclusion_override(vec![" b\\x.rs ", "a.rs"]))
        .expect("safe paths");
    assert_eq!(paths, vec!["a.rs".to_string(), "b/x.rs".to_string()]);
    assert_eq!(
        normalized_exclusion_paths(&exclusion_override(vec!["a/../b"])),
        Err("adjudication override at position 1 has blank, unsafe, or duplicate exclusion paths"
            .to_string())
    );
    assert!(normalized_exclusion_paths(&exclusion_override(vec!["a", " a"])).is_err());
    assert_eq!(
        accepted_execution_excluded_paths(Some(vec![Some("x\\y".to_string()), None])),
        Err("accepted execution scope contains a non-string path".to_string())
    );
    assert_eq!(
        accepted_execution_excluded_paths(None),
        Err("accepted execution scope has no candidate_excluded_paths".to_string())
    );
}

#[test]
fn adjudication_closes_records_through_the_cutoff() {
    let m = manifest(vec![batch("A", vec![1], "include_product", "present_in_candidate")]);
    let out = adjudicate(ledger(), &m, &Vec::new()).expect("adjudication applies");
    let first = &out.records[0];
    assert_eq!(first.release_disposition, "include_product");
    assert_eq!(
        first.review_refs,
        vec!["review:2832:batch-A-product".to_string(), "batch:A".to_string()]
    );
    assert_eq!(
        first.source_survivor_or_swarm_exclusion_effect,
        format!(
            "#2832 A reviewed commit {} at first-parent position 1: reviewed product change",
            sha('a')
        )
    );
    assert_eq!(
        first.limitation_or_operator_decision,
        "This provisional disposition does not close the owning issue, prove candidate qualification, or claim source promotion. Residual acceptance remains with release owner."
    );
    assert_eq!(out.records[1], ledger().records[1]);
    assert_eq!(out.source.candidate_tree_commits, vec![sha('a'), sha('b')]);
}

#[test]
fn adjudication_override_replaces_the_batch_decision() {
    let mut m = manifest(vec![batch("A", vec![1], "include_product", "present_in_candidate")]);
    m.overrides = vec![exclusion_override(vec!["src/x.rs"])];
    let accepted = vec!["src/x.rs".to_string()];
    let out = adjudicate(ledger(), &m, &accepted).expect("override applies");
    let first = &out.records[0];
    assert_eq!(first.release_disposition, "candidate_only_exclusion");
    assert_eq!(first.candidate_only_excluded_paths, vec!["src/x.rs".to_string()]);
    assert_eq!(
        first.review_refs,
        vec![
            "review:2832:batch-A-product".to_string(),
            "batch:A".to_string(),
            "review:2832:exception-2767".to_string(),
            "evidence:one".to_string(),
            "override:1".to_string(),
        ]
    );
    assert_eq!(
        adjudicate(ledger(), &m, &vec!["src/y.rs".to_string()]),
        Err("adjudication override at position 1 does not match the accepted #2767 path set"
            .to_string())
    );
}

#[test]
fn adjudication_refuses_gaps_overlaps_and_open_batches() {
    let gap = manifest(vec![batch("A", vec![2], "include_product", "present_in_candidate")]);
    assert_eq!(
        adjudicate(ledger(), &gap, &Vec::new()),
        Err("adjudication batch A has an invalid first-parent position list".to_string())
    );
    let overlap = manifest(vec![
        batch("A", vec![1], "include_product", "present_in_candidate"),
        batch("B", vec![1], "include_product", "present_in_candidate"),
    ]);
    assert_eq!(
        adjudicate(ledger(), &overlap, &Vec::new()),
        Err("adjudication batches overlap at first-parent position 1".to_string())
    );
    let open = manifest(vec![batch("A", vec![1], "operator_decision_required", "present_in_candidate")]);
    assert_eq!(
        adjudicate(ledger(), &open, &Vec::new()),
        Err("adjudication batch A has a non-closed disposition operator_decision_required".to_string())
    );
    let mut wrong = manifest(Vec::new());
    wrong.kind = "other".to_string();
    assert_eq!(
        adjudicate(ledger(), &wrong, &Vec::new()),
        Err("denominator adjudication has an unsupported schema or kind".to_string())
    );
    let none = manifest(Vec::new());
    assert_eq!(
        adjudicate(ledger(), &none, &Vec::new()),
        Err("adjudication has no decision for first-parent position 1".to_string())
    );
}

#[test]
fn adjudication_outcome_requires_a_ready_report() {
    let report = normalize_snapshot(reconcile_snapshot(ledger(), None), b"", b"", b"");
    assert_eq!(adjudication_outcome(&report), Ok(()));
    let mut broken = ledger();
    broken.records.pop();
    let report = normalize_snapshot(reconcile_snapshot(broken, None), b"", b"", b"");
    assert_eq!(
        adjudication_outcome(&report),
        Err("adjudication produced a non-reconciling ledger: record count 1 does not reconcile with range count 2".to_string())
    );
}

#[test]
fn candidate_tree_projection_follows_range_order() {
    let mut ledger = ledger();
    ledger.records[0].candidate_tree_state = "absent_by_candidate_only_exclusion".to_string();
    let tree = project_candidate_tree(&ledger.records, &ledger.source.range_commits);
    assert_eq!(tree, vec![sha('b')]);
}

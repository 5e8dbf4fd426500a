use ripr_reports::denominator_report::report_markdown;
use ripr_reports::release_denominator::{CommitRecord, NormalizedReport, SnapshotSource};

fn record(position: usize, subject: &str) -> CommitRecord {
    CommitRecord {
        commit_sha: format!("{position:0>40}"),
        first_parent_position: position,
        subject: subject.to_string(),
        pr_refs: Vec::new(),
        issue_refs: Vec::new(),
        references: Vec::new(),
        claim_refs: Vec::new(),
        reference_capture_status: "not_captured".to_string(),
        reference_capture_limitation: String::new(),
        theme_or_surface: "release".to_string(),
        release_disposition: "include_product".to_string(),
        acceptance_owner: "owner".to_string(),
        candidate_tree_state: "present_in_candidate".to_string(),
        candidate_only_excluded_paths: Vec::new(),
        candidate_only_exclusion_granularity: None,
        replacement_commit_sha: None,
        review_refs: Vec::new(),
        proof_refs: Vec::new(),
        source_survivor_or_swarm_exclusion_effect: "included".to_string(),
        limitation_or_operator_decision: "none".to_string(),
    }
}

fn report(reasons: Vec<String>) -> NormalizedReport {
    NormalizedReport {
        status: "ready".to_string(),
        captured_at: "now".to_string(),
        source: SnapshotSource {
            mode: "captured".to_string(),
            stage: "final".to_string(),
            freshness: "current".to_string(),
            historical_base_sha: "base".to_string(),
            provisional_review_cutoff_sha: None,
            github_repository: None,
            candidate_ref: "refs/heads/main".to_string(),
            candidate_sha: "cand".to_string(),
            range_commits: Vec::new(),
            candidate_tree_commits: Vec::new(),
        },
        records: vec![record(1, "fix a|b\nc")],
        counts_by_disposition: vec![("include_product".to_string(), 1)],
        counts_by_tree_state: vec![("present_in_candidate".to_string(), 1)],
        range_digest: "sha256:r".to_string(),
        candidate_tree_digest: "sha256:t".to_string(),
        record_set_digest: "sha256:s".to_string(),
        reconciliation_reasons: reasons,
        next_action: "Proceed.".to_string(),
    }
}

#[test]
fn denominator_markdown_renders_header_counts_and_records() {
    let md = report_markdown(&report(Vec::new()));
    assert!(md.starts_with(
        "# Supplemental release denominator\n\n- Status: `ready`\n- Stage: `final`\n- Historical base: `base`\n- Provisional review cutoff: `not selected`\n- Candidate: `refs/heads/main` (`cand`)\n"
    ));
    assert!(md.contains("| `include_product` | 1 |\n"));
    assert!(md.contains(&format!(
        "| 1 | `{:0>40}` | `include_product` | `present_in_candidate` | fix a\\|b c |\n",
        1
    )));
    assert!(md.contains("The captured range, record order, dispositions, and candidate tree reconcile.\n\n## Next action\n\nProceed.\n\n## Must not claim\n"));
}

#[test]
fn denominator_markdown_lists_reconciliation_reasons() {
    let md = report_markdown(&report(vec!["range differs".to_string(), "a|b".to_string()]));
    assert!(md.contains("\n## Reconciliation\n\n- range differs\n- a\\|b\n\n## Next action"));
}

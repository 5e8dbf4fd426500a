use ripr_reports::release_control::{
    normalize_snapshot, normalize_snapshot_with_origin, parse_args, report_markdown,
    NormalizedReport, ReleaseControlInput, Snapshot, SnapshotPr, SnapshotSource,
};

fn pr(
    number: u64,
    title: &str,
    head_sha: &str,
    linked: u64,
    disposition: &str,
    reason: &str,
) -> SnapshotPr {
    SnapshotPr {
        number,
        title: title.to_string(),
        state: "open".to_string(),
        is_draft: false,
        head_sha: head_sha.to_string(),
        base_ref: "main".to_string(),
        linked_issue_refs: vec![linked],
        release_disposition: Some(disposition.to_string()),
        disposition_reason: Some(reason.to_string()),
    }
}

fn snapshot() -> Snapshot {
    Snapshot {
        schema_version: "0.1".to_string(),
        kind: "release_control_snapshot".to_string(),
        captured_at: "2026-07-29T20:30:00Z".to_string(),
        source: SnapshotSource {
            mode: "captured".to_string(),
            freshness: "current".to_string(),
            main_sha: "19849177ce9418d0024e4cc839eb8382e4f716a8".to_string(),
            authority_issue: 2379,
            authority_state: "open".to_string(),
            authority_main_sha: "19849177ce9418d0024e4cc839eb8382e4f716a8".to_string(),
            portfolio_state: "complete".to_string(),
            open_prs_complete: true,
            active_claims_complete: true,
            worktree_inventory_complete: true,
            worktree_count: 1,
            graph_digest: "sha256:release-graph-fixture".to_string(),
        },
        prs: vec![
            pr(
                2765,
                "held unrelated PR",
                "54437cdc7591395070c68e4b759aa01b0761d5f0",
                2764,
                "hold_post_release",
                "outside the accepted 0.11 release graph",
            ),
            pr(
                2528,
                "release editor qualification",
                "aaaaaaaaaaaaaaaaaaaaaaaaaaaaaaaaaaaaaaaa",
                2528,
                "release_required",
                "named by the accepted #2379 release graph",
            ),
        ],
        collector_errors: Vec::new(),
    }
}

fn any_eligible(report: &NormalizedReport) -> bool {
    report.prs.iter().any(|pr| pr.merge_eligible)
}

#[test]
fn complete_snapshot_is_ready_and_only_required_rows_are_merge_eligible() {
    let report = normalize_snapshot(snapshot());
    assert_eq!(report.status, "ready");
    let required = report.prs.iter().find(|pr| pr.number == 2528).expect("missing required PR");
    assert!(required.merge_eligible, "release-required PR should be merge eligible");
    let held = report.prs.iter().find(|pr| pr.number == 2765).expect("missing held PR");
    assert!(!held.merge_eligible, "post-release PR must remain held");
}

#[test]
fn missing_disposition_fails_closed() {
    let mut changed = snapshot();
    changed.prs[0].release_disposition = None;
    changed.prs[0].disposition_reason = None;
    let normalized = normalize_snapshot(changed);
    assert_eq!(normalized.status, "reconcile_required");
    assert!(!any_eligible(&normalized), "reconciliation-required report cannot expose merge eligibility");
}

#[test]
fn input_order_does_not_change_normalized_output() {
    let first = normalize_snapshot(snapshot());
    let mut reversed = snapshot();
    reversed.prs.reverse();
    let second = normalize_snapshot(reversed);
    assert_eq!(first, second, "normalized report changed with input order");
    assert_eq!(report_markdown(&first), report_markdown(&second), "normalized Markdown changed with input order");
}

#[test]
fn stale_authority_cannot_be_merge_eligible() {
    let mut stale = snapshot();
    stale.source.authority_main_sha = "bbbbbbbbbbbbbbbbbbbbbbbbbbbbbbbbbbbbbbbb".to_string();
    let report = normalize_snapshot(stale);
    assert_eq!(report.status, "reconcile_required");
    assert!(!any_eligible(&report), "stale authority must not permit merge eligibility");
}

#[test]
fn unsupported_live_mode_cannot_be_merge_eligible() {
    let mut live = snapshot();
    live.source.mode = "live".to_string();
    let report = normalize_snapshot(live);
    assert_eq!(report.status, "reconcile_required");
    assert!(!any_eligible(&report), "unsupported live mode must not permit merge eligibility");
}

#[test]
fn live_origin_is_required_before_live_snapshot_can_be_ready() {
    let mut live = snapshot();
    live.source.mode = "live".to_string();
    assert_eq!(normalize_snapshot(live.clone()).status, "reconcile_required");
    let collected = normalize_snapshot_with_origin(live, true);
    assert_eq!(collected.status, "ready", "collector-owned complete live snapshot should be ready");
}

#[test]
fn collector_error_fails_closed_and_clears_eligibility() {
    let mut live = snapshot();
    live.source.mode = "live".to_string();
    live.collector_errors.push("open PR inventory unavailable".to_string());
    let report = normalize_snapshot_with_origin(live, true);
    assert_eq!(report.status, "reconcile_required");
    assert!(!any_eligible(&report), "collector errors must clear merge eligibility");
    assert!(report.reconciliation_reasons.iter().any(|r| r == "open PR inventory unavailable"));
}

#[test]
fn non_main_base_cannot_be_merge_eligible() {
    let mut non_main = snapshot();
    non_main.prs[1].base_ref = "release/0.11".to_string();
    let report = normalize_snapshot(non_main);
    assert_eq!(report.status, "reconcile_required");
    assert!(!any_eligible(&report), "non-main base must not permit merge eligibility");
}

#[test]
fn release_control_args_select_input_or_live() {
    let input = vec!["--input".to_string(), "snap.json".to_string()];
    assert_eq!(parse_args(&input), Ok(ReleaseControlInput::Captured("snap.json")));
    let live = vec!["--live".to_string()];
    assert_eq!(parse_args(&live), Ok(ReleaseControlInput::Live));
    let blank = vec!["--input".to_string(), "  ".to_string()];
    assert!(parse_args(&blank).is_err());
}

#[test]
fn normalized_rows_are_sorted_by_number() {
    let report = normalize_snapshot(snapshot());
    let numbers: Vec<u64> = report.prs.iter().map(|pr| pr.number).collect();
    assert_eq!(numbers, vec![2528, 2765]);
}

#[test]
fn input_order_keeps_rows_and_reasons_of_an_unready_snapshot() {
    let mut base = snapshot();
    base.prs[0].release_disposition = None;
    base.prs[1].state = "closed".to_string();
    let first = normalize_snapshot(base.clone());
    let mut reversed = base;
    reversed.prs.reverse();
    let second = normalize_snapshot(reversed);
    assert_eq!(first.status, "reconcile_required");
    assert_eq!(first.status, second.status);
    assert_eq!(first.prs, second.prs);
    let mut a = first.reconciliation_reasons.clone();
    let mut b = second.reconciliation_reasons.clone();
    assert_ne!(a, b);
    a.sort();
    b.sort();
    assert_eq!(a, b);
}

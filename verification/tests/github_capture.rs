use ripr_reports::github_capture::{
    build_github_capture, capture_record, import_github_capture, GithubCapture, GithubCaptureRecord,
    GithubPullRequest,
};
use ripr_reports::release_denominator::{CommitRecord, ReferenceEvidence, Snapshot, SnapshotSource};
use ripr_reports::release_server::sha256_hex;

fn sha(c: char) -> String {
    std::iter::repeat(c).take(40).collect()
}

fn pr(number: u64, merge: Option<&str>, body: Option<&str>) -> GithubPullRequest {
    GithubPullRequest {
        number,
        url: format!("https://github.com/o/r/pull/{number}"),
        body: body.map(str::to_string),
        merge_commit: merge.map(str::to_string),
    }
}

fn record(commit: &str) -> CommitRecord {
    CommitRecord {
        commit_sha: commit.to_string(),
        first_parent_position: 1,
        subject: "commit".to_string(),
        pr_refs: vec![7],
        issue_refs: vec![8],
        references: Vec::new(),
        claim_refs: Vec::new(),
        reference_capture_status: "not_captured".to_string(),
        reference_capture_limitation: String::new(),
        theme_or_surface: "release".to_string(),
        release_disposition: "include_product".to_string(),
        acceptance_owner: "owner".to_string(),
        candidate_tree_state: "present_in_candidate".to_string(),
        candidate_only_excluded_paths: Vec::new(),
        candidate_only_exclusion_granularity: None,
        replacement_commit_sha: None,
        review_refs: Vec::new(),
        proof_refs: Vec::new(),
        source_survivor_or_swarm_exclusion_effect: "included".to_string(),
        limitation_or_operator_decision: "none".to_string(),
    }
}

fn ledger() -> Snapshot {
    Snapshot {
        schema_version: "0.1".to_string(),
        kind: "release_denominator_snapshot".to_string(),
        captured_at: "2026-07-29T20:30:00Z".to_string(),
        source: SnapshotSource {
            mode: "captured".to_string(),
            stage: "provisional".to_string(),
            freshness: "current".to_string(),
            historical_base_sha: sha('c'),
            provisional_review_cutoff_sha: None,
            github_repository: Some("o/r".to_string()),
            candidate_ref: "refs/heads/main".to_string(),
            candidate_sha: sha('b'),
            range_commits: vec![sha('a'), sha('b')],
            candidate_tree_commits: vec![sha('a'), sha('b')],
        },
        records: vec![record(&sha('a')), record(&sha('b'))],
    }
}

const RANGE_JSON: &[u8] = b"[\"a\",\"b\"]";

fn range_digest() -> String {
    format!("sha256:{}", sha256_hex(RANGE_JSON))
}

fn capture_of(records: Vec<GithubCaptureRecord>) -> GithubCapture {
    GithubCapture {
        schema_version: "0.1".to_string(),
        kind: "release_denominator_github_capture".to_string(),
        repository: "o/r".to_string(),
        observed_for_candidate_sha: sha('b'),
        observed_range_digest: range_digest(),
        records,
    }
}

fn captured(commit: &str, status: &str) -> GithubCaptureRecord {
    GithubCaptureRecord {
        commit_sha: commit.to_string(),
        status: status.to_string(),
        limitation: "limit".to_string(),
        references: vec![ReferenceEvidence {
            kind: "merge_pr".to_string(),
            number: 3,
            source: "associated_pull_request".to_string(),
            evidence_url: None,
            github_identity: None,
            observed_for_commit_sha: commit.to_string(),
            reviewed: false,
            limitation: "l".to_string(),
        }],
    }
}

#[test]
fn commit_without_a_merged_pr_has_no_linked_authority() {
    let r = capture_record(&vec![pr(1, Some(&sha('f')), None)], &sha('a'));
    assert_eq!(r.status, "no_linked_authority");
    assert!(r.references.is_empty());
    assert_eq!(
        r.limitation,
        "No merged PR or linked PR/issue reference was found in retained GitHub metadata."
    );
}

#[test]
fn commit_claimed_by_two_prs_is_ambiguous() {
    let a = sha('a');
    let r = capture_record(&vec![pr(4, Some(&a), None), pr(9, Some(&a), None)], &a);
    assert_eq!(r.status, "ambiguous");
    assert_eq!(r.limitation, format!("Multiple merged PRs claim commit {a}: #4, #9."));
    assert!(r.references.is_empty());
}

#[test]
fn captured_references_are_sorted_and_deduplicated() {
    let a = sha('a');
    let prs = vec![
        pr(10, Some(&a), Some("Fixes #12 and relates to #5; see #5 again and #10.")),
        pr(12, None, None),
    ];
    let r = capture_record(&prs, &a);
    assert_eq!(r.status, "captured");
    let keys: Vec<(&str, u64, &str)> =
        r.references.iter().map(|x| (x.kind.as_str(), x.number, x.source.as_str())).collect();
    assert_eq!(
        keys,
        vec![
            ("issue", 5, "body_reference"),
            ("merge_pr", 10, "associated_pull_request"),
            ("pull_request", 12, "closing_reference"),
        ]
    );
    assert_eq!(r.references[1].evidence_url.as_deref(), Some("https://github.com/o/r/pull/10"));
    assert_eq!(r.references[2].github_identity.as_deref(), Some("pr-body:10:closing_reference:12"));
    assert!(r.references.iter().all(|x| x.observed_for_commit_sha == a && !x.reviewed));
}

#[test]
fn capture_stamps_candidate_and_range_digest() {
    let c = build_github_capture(&ledger(), "o/r", &vec![pr(3, Some(&sha('b')), None)], RANGE_JSON);
    assert_eq!(c.kind, "release_denominator_github_capture");
    assert_eq!(c.observed_for_candidate_sha, sha('b'));
    assert_eq!(c.observed_range_digest, range_digest());
    assert_eq!(c.records[0].status, "no_linked_authority");
    assert_eq!(c.records[1].status, "captured");
}

#[test]
fn import_takes_each_commits_capture() {
    let mut s = ledger();
    let capture = capture_of(vec![captured(&sha('b'), "captured"), captured(&sha('a'), "ambiguous")]);
    assert_eq!(import_github_capture(&mut s, &capture, RANGE_JSON), Ok(()));
    assert_eq!(s.records[0].reference_capture_status, "ambiguous");
    assert_eq!(s.records[1].reference_capture_status, "captured");
    assert!(s.records[0].pr_refs.is_empty() && s.records[0].issue_refs.is_empty());
    assert_eq!(s.records[1].references[0].number, 3);
    assert_eq!(s.records[1].reference_capture_limitation, "limit");
}

#[test]
fn import_refuses_mismatched_or_incomplete_captures() {
    let original = ledger();
    let mut s = ledger();
    let mut c = capture_of(vec![captured(&sha('a'), "captured")]);
    assert_eq!(
        import_github_capture(&mut s, &c, RANGE_JSON),
        Err(format!("GitHub denominator capture is missing commit {}", sha('b')))
    );
    assert_eq!(s, original);
    c.records.push(captured(&sha('b'), "invented"));
    assert_eq!(
        import_github_capture(&mut s, &c, RANGE_JSON),
        Err(format!("GitHub denominator capture has invalid status invented for {}", sha('b')))
    );
    c.records.push(captured(&sha('a'), "captured"));
    assert_eq!(
        import_github_capture(&mut s, &c, RANGE_JSON),
        Err("GitHub denominator capture contains a duplicate commit".to_string())
    );
    assert_eq!(
        import_github_capture(&mut s, &c, b"[]"),
        Err("GitHub denominator capture range digest does not match input ledger".to_string())
    );
    c.observed_for_candidate_sha = sha('e');
    assert_eq!(
        import_github_capture(&mut s, &c, RANGE_JSON),
        Err("GitHub denominator capture candidate SHA does not match input ledger".to_string())
    );
    c.repository = "x/y".to_string();
    assert_eq!(
        import_github_capture(&mut s, &c, RANGE_JSON),
        Err("GitHub denominator capture repository x/y does not match expected o/r".to_string())
    );
    c.kind = "other".to_string();
    assert_eq!(
        import_github_capture(&mut s, &c, RANGE_JSON),
        Err("GitHub denominator capture has an unsupported schema or kind".to_string())
    );
    assert_eq!(s, original);
}

use ripr_reports::release::CommandResult;
use ripr_reports::release_negative::{
    agent_verify_argv, case_artifact_commitment_duplicate, case_artifact_commitment_malformed,
    case_artifact_producer_tool, case_artifact_wrong_repository_root, case_specs,
    content_commitment_value_span, deferred_dispositions, evaluate_rejection, family_coverage,
    first_stderr_line, fixture_blob_revision, fixture_head_revision, insert_duplicate_commitment,
    malformed_commitment_digest, md_escape_inline, negative_corpus_markdown,
    negative_corpus_run_status, negative_corpus_status, parse_release_negative_args,
    recommit_repo_exposure_bytes, recompute_content_commitment, replace_once, retain_pair,
    snapshot_identity, ArtifactDigestRecord, BaselineContext, CandidateIdentity, CaseReceipt,
    CaseSpec, Expectation, Mutation, NegativeCorpusReport,
};

const CONTENT_PLACEHOLDER: &str =
    "sha256:0000000000000000000000000000000000000000000000000000000000000000";

fn args(values: &[&str]) -> Vec<String> {
    values.iter().map(|value| (*value).to_string()).collect()
}

fn command_result(success: bool, stdout: &str, stderr: &str) -> CommandResult {
    CommandResult {
        status: Some(if success { 0 } else { 1 }),
        success,
        stdout: stdout.to_string(),
        stderr: stderr.to_string(),
    }
}

#[test]
fn release_negative_args_parse_version() -> Result<(), String> {
    let parsed = parse_release_negative_args(&args(&["--version", "0.10.0"]))?;
    if parsed.version != "0.10.0" {
        return Err(format!("unexpected version {}", parsed.version));
    }
    Ok(())
}

#[test]
fn release_negative_args_require_version() -> Result<(), String> {
    for argv in [
        args(&[]),
        args(&["--version"]),
        args(&["--version", "  "]),
        args(&["--bogus"]),
    ] {
        if parse_release_negative_args(&argv).is_ok() {
            return Err(format!("argv {argv:?} must be rejected"));
        }
    }
    Ok(())
}

fn sample_artifact() -> String {
    format!(
        r#"{{"schema_version":"0.3","artifact":{{"content_sha256":"{CONTENT_PLACEHOLDER}"}},"scope":"repo"}}"#
    )
}

#[test]
fn recommit_binds_mutated_bytes_and_detects_stale_commitment() -> Result<(), String> {
    let committed = recommit_repo_exposure_bytes(&sample_artifact())?;
    if committed.contains(CONTENT_PLACEHOLDER) {
        return Err("recommit left the placeholder in the artifact".to_string());
    }
    let declared = recompute_content_commitment(&committed)?;
    if !committed.contains(&declared) {
        return Err("recommitted artifact does not contain its recomputed commitment".to_string());
    }
    let mut tampered = committed;
    tampered.push(' ');
    let recomputed = recompute_content_commitment(&tampered)?;
    if recomputed == declared {
        return Err("stale commitment was not detected after a byte change".to_string());
    }
    Ok(())
}

#[test]
fn rejection_evaluation_checks_exit_status_before_the_token() -> Result<(), String> {
    let (outcome, _, _) = evaluate_rejection(
        "[not_canonical]",
        &command_result(true, "", "error: [not_canonical]"),
    );
    if outcome != "unexpected_pass" {
        return Err(format!("unexpected outcome for passing command: {outcome}"));
    }
    let (outcome, actual, _) = evaluate_rejection(
        "[not_canonical]",
        &command_result(false, "", "error: [unsupported_schema]"),
    );
    if outcome != "wrong_failure_kind" {
        return Err(format!("unexpected outcome for wrong token: {outcome}"));
    }
    if !actual.contains("[unsupported_schema]") {
        return Err(format!("actual failure kind was not captured: {actual}"));
    }
    let (outcome, actual, violations) = evaluate_rejection(
        "[not_canonical]",
        &command_result(false, "", "error: agent receipt verify input [not_canonical]: ..."),
    );
    if outcome != "rejected_as_expected" || actual != "[not_canonical]" {
        return Err(format!("unexpected outcome: {outcome} / {actual}"));
    }
    if !violations.is_empty() {
        return Err(format!("unexpected violations: {violations:?}"));
    }
    let (_, _, violations) =
        evaluate_rejection("[x]", &command_result(false, "partial output", "error: [x]"));
    if violations.is_empty() {
        return Err("stdout on a rejected command must be flagged".to_string());
    }
    Ok(())
}

#[test]
fn rejection_evaluation_discriminates_repository_root_from_snapshot_mismatch(
) -> Result<(), String> {
    let snapshot_rejection = "error: agent verify after artifact snapshot identity does not match the declared analysis input identity and repository head";
    if !snapshot_rejection.contains("does not match") {
        return Err("test premise drifted: snapshot rejection lost does-not-match".to_string());
    }
    let (outcome, actual, _) =
        evaluate_rejection("repository root", &command_result(false, "", snapshot_rejection));
    if outcome != "wrong_failure_kind" {
        return Err(format!(
            "snapshot rejection must not satisfy the root token: {outcome} / {actual}"
        ));
    }
    let root_rejection =
        "error: agent verify before artifact repository root /clone-b does not match /clone-a";
    let (outcome, actual, violations) =
        evaluate_rejection("repository root", &command_result(false, "", root_rejection));
    if outcome != "rejected_as_expected" || actual != "repository root" {
        return Err(format!("root rejection must satisfy the root token: {outcome} / {actual}"));
    }
    if !violations.is_empty() {
        return Err(format!("unexpected violations: {violations:?}"));
    }
    Ok(())
}

fn sample_receipt() -> CaseReceipt {
    let spec = CaseSpec {
        id: "case".to_string(),
        group: "artifact".to_string(),
        description: "case".to_string(),
    };
    let candidate = CandidateIdentity {
        path: "p".to_string(),
        version_output: "ripr 0.10.0".to_string(),
        sha256: "sha256:0".to_string(),
    };
    let baseline = BaselineContext {
        fixture_root: "fixture".to_string(),
        before_sha: "b".to_string(),
        after_sha: "a".to_string(),
        artifacts: Vec::new(),
    };
    CaseReceipt::new(&spec, &candidate, &baseline)
}

#[test]
fn case_receipt_finalize_requires_the_full_chain() -> Result<(), String> {
    let mut receipt = sample_receipt();
    receipt.process_outcome = "rejected_as_expected".to_string();
    receipt.restoration_outcome = "restored_byte_exact".to_string();
    receipt.control_outcome = "pass".to_string();
    receipt.cleanup_outcome = "removed".to_string();
    receipt.finalize();
    if receipt.status != "pass" {
        return Err("a complete chain must pass".to_string());
    }
    receipt.control_outcome = "fail".to_string();
    receipt.finalize();
    if receipt.status != "fail" {
        return Err("a failed control rerun must fail the case".to_string());
    }
    receipt.control_outcome = "pass".to_string();
    receipt
        .violations
        .push("a rejected command must render nothing to stdout".to_string());
    receipt.finalize();
    if receipt.status != "fail" {
        return Err("a recorded violation must fail the case".to_string());
    }
    receipt.violations.clear();
    receipt.finalize();
    if receipt.status != "pass" {
        return Err("clearing violations must restore the pass".to_string());
    }
    Ok(())
}

#[test]
fn corpus_covers_every_landed_case_once() -> Result<(), String> {
    let specs = case_specs();
    let mut ids = std::collections::BTreeSet::new();
    for spec in &specs {
        if !ids.insert(spec.id.clone()) {
            return Err(format!("duplicate case id {}", spec.id));
        }
    }
    let required = [
        "artifact-producer-tool",
        "artifact-repo-exposure-schema",
        "artifact-wrong-repository-root",
        "artifact-revision-symbolic",
        "artifact-revision-absent",
        "artifact-revision-noncommit",
        "artifact-snapshot-wrong-revision",
        "artifact-commitment-tampered",
        "artifact-commitment-missing",
        "artifact-commitment-duplicate",
        "artifact-commitment-malformed",
    ];
    for id in required {
        if !ids.contains(id) {
            return Err(format!("required case {id} is missing from the corpus"));
        }
    }
    if specs.len() != required.len() {
        return Err(format!(
            "corpus has {} cases; the landed matrix has {}",
            specs.len(),
            required.len()
        ));
    }
    Ok(())
}

#[test]
fn family_coverage_discloses_the_deferred_families() -> Result<(), String> {
    let (covered, deferred) = family_coverage();
    if covered != vec!["artifact".to_string()] {
        return Err(format!("this slice covers only the artifact family: {covered:?}"));
    }
    let expected_deferred = vec!["pair".to_string(), "verify".to_string(), "receipt".to_string()];
    if deferred != expected_deferred {
        return Err(format!(
            "deferred families must be derived from the case registry: {deferred:?}"
        ));
    }
    Ok(())
}

#[test]
fn replace_once_requires_a_unique_anchor() -> Result<(), String> {
    if replace_once("nothing to find here", "anchor", "x").is_ok() {
        return Err("replace_once accepted a missing anchor".to_string());
    }
    if replace_once("anchor anchor", "anchor", "x").is_ok() {
        return Err("replace_once accepted a repeated anchor".to_string());
    }
    let replaced = replace_once("one anchor only", "anchor", "x")?;
    if replaced != "one x only" {
        return Err(format!("unexpected replacement: {replaced}"));
    }
    Ok(())
}

#[test]
fn deferred_dispositions_record_both_unproducible_negatives() -> Result<(), String> {
    let dispositions = deferred_dispositions();
    if dispositions.len() != 2 {
        return Err(format!("expected two deferred dispositions, got {}", dispositions.len()));
    }
    for (case_id, disposition) in &dispositions {
        if !disposition.starts_with("not_applicable:") {
            return Err(format!(
                "disposition for {case_id} must be an explicit not_applicable record"
            ));
        }
    }
    let ids = dispositions.iter().map(|(id, _)| id.as_str()).collect::<Vec<_>>();
    for required in ["migration-claims-fresh-production", "binary-artifact-inventory-disagreement"]
    {
        if !ids.contains(&required) {
            return Err(format!("deferred disposition {required} is missing"));
        }
    }
    Ok(())
}

#[test]
fn replace_once_reports_the_anchor_count() {
    let err = replace_once("a-a-a", "a", "b").unwrap_err();
    assert_eq!(err, "mutation anchor \"a\" occurs 3 times (expected exactly one)");
    let err = replace_once("none", "q\"x", "b").unwrap_err();
    assert_eq!(err, "mutation anchor \"q\\\"x\" occurs 0 times (expected exactly one)");
}

#[test]
fn first_stderr_line_skips_blank_lines_and_truncates() {
    assert_eq!(first_stderr_line(""), "<no stderr>");
    assert_eq!(first_stderr_line("\n   \n\t\n"), "<no stderr>");
    assert_eq!(first_stderr_line("\n  error: boom  \nnext"), "error: boom");
    let long = "x".repeat(250);
    assert_eq!(first_stderr_line(&long), "x".repeat(200));
    let (outcome, actual, _) = evaluate_rejection("[t]", &command_result(false, "", ""));
    assert_eq!(outcome, "wrong_failure_kind");
    assert_eq!(actual, "<no stderr>");
}

#[test]
fn passing_command_reports_unexpected_pass_details() {
    let (outcome, actual, violations) =
        evaluate_rejection("[t]", &command_result(true, "out", "[t]"));
    assert_eq!(outcome, "unexpected_pass");
    assert_eq!(actual, "none (command passed)");
    assert_eq!(violations, vec!["command passed; a rejection was expected".to_string()]);
}

#[test]
fn commitment_span_is_measured_in_bytes() -> Result<(), String> {
    let text = r#"{"root":"é","content_sha256":"sha256:abc"}"#;
    let span = content_commitment_value_span(text)?;
    assert_eq!(&text[span.clone()], "sha256:abc");
    assert_eq!(span.start, 31);
    Ok(())
}

#[test]
fn commitment_span_errors_name_the_broken_shape() {
    assert_eq!(
        content_commitment_value_span("{}").unwrap_err(),
        "expected exactly one \"content_sha256\" key"
    );
    assert_eq!(
        content_commitment_value_span(r#"{"content_sha256":"a","content_sha256":"b"}"#)
            .unwrap_err(),
        "expected exactly one \"content_sha256\" key"
    );
    assert_eq!(
        content_commitment_value_span(r#"{"content_sha256": 3}"#).unwrap_err(),
        "\"content_sha256\" must have a string value"
    );
    assert_eq!(
        content_commitment_value_span(r#"{"content_sha256": "abc"#).unwrap_err(),
        "\"content_sha256\" value must be terminated"
    );
    assert!(recommit_repo_exposure_bytes("{}").is_err());
}

#[test]
fn recommitted_digest_is_the_sha256_of_the_staged_bytes() -> Result<(), String> {
    let committed = recommit_repo_exposure_bytes(&sample_artifact())?;
    // SHA-256 of the staged sample (the placeholder in its slot).
    let staged = sample_artifact();
    let declared = recompute_content_commitment(&staged)?;
    assert!(declared.starts_with("sha256:"));
    assert_eq!(declared.len(), 71);
    assert_eq!(committed, staged.replace(CONTENT_PLACEHOLDER, &declared));
    assert_ne!(declared, CONTENT_PLACEHOLDER);
    Ok(())
}

#[test]
fn duplicate_commitment_is_inserted_after_the_value() -> Result<(), String> {
    let text = r#"{"content_sha256": "sha256:ab"}"#;
    let mutated = insert_duplicate_commitment(text)?;
    assert_eq!(
        mutated,
        "{\"content_sha256\": \"sha256:ab\",\n    \"content_sha256\": \"sha256:1111111111111111111111111111111111111111111111111111111111111111\"}"
    );
    Ok(())
}

#[test]
fn case_plans_declare_their_tokens_and_retention() {
    let plan = case_artifact_producer_tool();
    assert_eq!(plan.targets, vec!["before.repo-exposure.json", "after.repo-exposure.json"]);
    assert!(matches!(
        &plan.change,
        Mutation::SetJsonString { pointer, value }
            if pointer == "/artifact/producer/tool" && value == "forged-tool"
    ));
    assert_eq!(plan.expected.expected_kind(), "invalid or unknown producer identity");
    assert_eq!(plan.retain, retain_pair());
    let plan = case_artifact_wrong_repository_root();
    assert_eq!(plan.expected.expected_kind(), "repository root");
    assert_eq!(plan.retain[1].1, "workspace-b/after.repo-exposure.json");
    let plan = case_artifact_commitment_duplicate();
    assert!(matches!(plan.change, Mutation::DuplicateCommitmentKey));
    let plan = case_artifact_commitment_malformed();
    assert_eq!(plan.expected.expected_kind(), "must be a sha256:<64 hex> value");
    assert!(matches!(
        Expectation::reject("t"),
        Expectation::Reject { out_absent: None, out_preserved: None, .. }
    ));
    let digest = malformed_commitment_digest();
    assert_eq!(digest, format!("sha256:{}", "z".repeat(64)));
}

#[test]
fn blob_revisions_must_be_full_object_names() {
    let sha = "0123456789abcdef0123456789abcdef01234567";
    assert_eq!(fixture_blob_revision(&format!("{sha}\n")).unwrap(), sha);
    assert_eq!(
        fixture_blob_revision("HEAD~1").unwrap_err(),
        "fixture blob revision is not a full SHA: HEAD~1"
    );
    assert!(fixture_blob_revision(&"g".repeat(40)).is_err());
    assert_eq!(fixture_head_revision(&format!("  {sha}\n")).unwrap(), sha);
    assert_eq!(
        fixture_head_revision("abc123").unwrap_err(),
        "fixture HEAD is not a full commit SHA: abc123"
    );
    assert_eq!(snapshot_identity("in", "rev"), "snapshot:in;revision:rev");
    assert_eq!(
        agent_verify_argv("b.json", "a.json"),
        vec!["agent", "verify", "--root", ".", "--before", "b.json", "--after", "a.json", "--json"]
    );
}

#[test]
fn corpus_verdict_requires_cleanup_and_every_case() {
    let mut passing = sample_receipt();
    passing.status = "pass".to_string();
    let failing = sample_receipt();
    assert_eq!(negative_corpus_status("removed", &[passing.clone()]), "pass");
    assert_eq!(negative_corpus_status("failed: busy", &[passing.clone()]), "fail");
    assert_eq!(negative_corpus_status("removed", &[passing, failing]), "fail");
    assert_eq!(negative_corpus_run_status(&Vec::new()), "complete");
    assert_eq!(negative_corpus_run_status(&vec!["pair".to_string()]), "families_deferred");
}

#[test]
fn corpus_markdown_renders_matrix_violations_and_dispositions() {
    let mut case = sample_receipt();
    case.expected_failure_kind = "a|b".to_string();
    case.actual_failure_kind = "a|b".to_string();
    case.exit_status = Some(-1);
    case.process_outcome = "rejected_as_expected".to_string();
    case.violations.push("stdout leaked".to_string());
    let report = NegativeCorpusReport {
        version: "0.10.0".to_string(),
        status: "fail".to_string(),
        run_status: "families_deferred".to_string(),
        covered_families: vec!["artifact".to_string()],
        deferred_families: vec!["pair".to_string(), "verify".to_string()],
        candidate: CandidateIdentity {
            path: "bin/ripr".to_string(),
            version_output: "ripr 0.10.0".to_string(),
            sha256: "sha256:00".to_string(),
        },
        baseline_root: "/tmp/fixture".to_string(),
        baseline_before_sha: "b".to_string(),
        baseline_after_sha: "a".to_string(),
        baseline_artifacts: vec![ArtifactDigestRecord {
            name: "before.repo-exposure.json".to_string(),
            sha256: "sha256:11".to_string(),
            input_identity: None,
            snapshot_identity: None,
        }],
        baseline_cleanup: "removed".to_string(),
        cases: vec![case],
        dispositions: deferred_dispositions(),
    };
    let md = negative_corpus_markdown(&report);
    assert!(md.starts_with("# release-negative-corpus\n\nStatus: fail\n\n"));
    assert!(md.contains(
        "Run status: `families_deferred` — covered families: artifact; deferred families: pair, verify\n\n"
    ));
    assert!(md.contains("  - `before.repo-exposure.json` `sha256:11`\n"));
    assert!(md.contains(
        "| case | artifact | a\\|b | a\\|b | -1 | rejected_as_expected | not_run | not_run | 1 | fail |\n"
    ));
    assert!(md.contains("## Violations\n\n- `case`: stdout leaked\n"));
    assert!(md.contains("- `migration-claims-fresh-production`: not_applicable:"));
    assert!(md.ends_with("cases/<case_id>/.\n"));
    assert_eq!(md_escape_inline("x|y\nz"), "x\\|y\nz");
}

#[test]
fn clean_corpus_markdown_says_so() {
    let report = NegativeCorpusReport {
        version: "1".to_string(),
        status: "pass".to_string(),
        run_status: "complete".to_string(),
        covered_families: vec![],
        deferred_families: vec![],
        candidate: CandidateIdentity {
            path: "p".to_string(),
            version_output: "v".to_string(),
            sha256: "s".to_string(),
        },
        baseline_root: "r".to_string(),
        baseline_before_sha: "b".to_string(),
        baseline_after_sha: "a".to_string(),
        baseline_artifacts: vec![],
        baseline_cleanup: "removed".to_string(),
        cases: vec![sample_receipt()],
        dispositions: vec![],
    };
    let md = negative_corpus_markdown(&report);
    assert!(md.contains("deferred families: none\n\n"));
    assert!(md.contains("| n/a |"));
    assert!(md.contains("None recorded — every case is clean.\n"));
}

use ripr_reports::negative_case::{
    candidate_gate, candidate_identity, close_case, declared_token_check, install_gate,
    note_missing_retained, output_violation_list, record_control, record_receipt_write,
    record_rejection, record_restoration,
};
use ripr_reports::release::CommandResult;
use ripr_reports::release_checks::PackageInstallResult;
use ripr_reports::release_negative::{
    BaselineContext, CandidateIdentity, CaseReceipt, CaseSpec, Expectation,
};

fn receipt() -> CaseReceipt {
    let spec = CaseSpec {
        id: "case".to_string(),
        group: "artifact".to_string(),
        description: "case".to_string(),
    };
    let candidate = CandidateIdentity {
        path: "p".to_string(),
        version_output: "ripr 0.10.0".to_string(),
        sha256: "sha256:0".to_string(),
    };
    let baseline = BaselineContext {
        fixture_root: "fixture".to_string(),
        before_sha: "b".to_string(),
        after_sha: "a".to_string(),
        artifacts: Vec::new(),
    };
    CaseReceipt::new(&spec, &candidate, &baseline)
}

fn result(success: bool, stdout: &str, stderr: &str) -> CommandResult {
    CommandResult {
        status: Some(if success { 0 } else { 1 }),
        success,
        stdout: stdout.to_string(),
        stderr: stderr.to_string(),
    }
}

#[test]
fn an_empty_expected_token_is_refused() {
    assert_eq!(
        declared_token_check("c1", &Expectation::reject("")),
        Err("case c1 did not declare an expected failure token".to_string())
    );
    assert_eq!(declared_token_check("c1", &Expectation::reject("bad_digest")), Ok(()));
}

#[test]
fn output_violations_name_created_and_changed_files() {
    let v = output_violation_list(
        Some(("out.json", true)),
        Some(("keep.json", "sha256:a", Ok("sha256:b".to_string()))),
    );
    assert_eq!(
        v,
        vec![
            "a rejected issuance must not create output file out.json".to_string(),
            "a rejected issuance must not update keep.json: digest changed from sha256:a to sha256:b"
                .to_string(),
        ]
    );
    assert!(output_violation_list(Some(("out.json", false)), Some(("k", "d", Ok("d".to_string())))).is_empty());
    assert_eq!(
        output_violation_list(None, Some(("k", "d", Err("gone".to_string())))),
        vec!["a rejected issuance must preserve k: gone".to_string()]
    );
}

#[test]
fn a_clean_rejection_restoration_and_control_pass_the_case() {
    let mut r = receipt();
    record_rejection(&mut r, "bad_digest", &result(false, "", "error: bad_digest found\n"), Vec::new());
    assert_eq!(r.process_outcome, "rejected_as_expected");
    assert_eq!(r.exit_status, Some(1));
    record_restoration(&mut r, Ok(vec!["restored a".to_string()]));
    record_control(&mut r, &result(true, "", ""));
    close_case(&mut r, Ok(()), Ok(()));
    assert_eq!(r.status, "pass");
    assert_eq!(r.details, vec!["restored a".to_string()]);
}

#[test]
fn any_failed_step_fails_the_case() {
    let mut r = receipt();
    record_rejection(&mut r, "bad_digest", &result(false, "", "error: bad_digest\n"), Vec::new());
    record_restoration(&mut r, Err("digest mismatch".to_string()));
    record_control(&mut r, &result(false, "", "boom\n"));
    note_missing_retained(&mut r, "after.json");
    close_case(&mut r, Err("busy".to_string()), Err("stopped".to_string()));
    assert_eq!(r.status, "fail");
    assert_eq!(r.restoration_outcome, "failed: digest mismatch");
    assert_eq!(r.cleanup_outcome, "failed: busy");
    assert_eq!(
        r.details,
        vec![
            "control rerun after restoration failed: exit code: 1; stderr: boom".to_string(),
            "stopped".to_string(),
        ]
    );
    assert_eq!(r.violations, vec!["retained mutation source after.json is missing".to_string()]);
    record_receipt_write(&mut r, Err("disk full".to_string()));
    assert_eq!(r.details.last().map(String::as_str), Some("write case receipt failed: disk full"));
}

#[test]
fn a_passing_command_fails_the_case_even_after_restoration() {
    let mut r = receipt();
    record_rejection(&mut r, "bad_digest", &result(true, "", ""), Vec::new());
    record_restoration(&mut r, Ok(Vec::new()));
    record_control(&mut r, &result(true, "", ""));
    close_case(&mut r, Ok(()), Ok(()));
    assert_eq!(r.status, "fail");
    assert_eq!(r.process_outcome, "unexpected_pass");
}

#[test]
fn the_candidate_must_be_the_committed_requested_version() {
    assert!(candidate_gate("0.2.0", None, Ok(true)).is_err());
    assert_eq!(
        candidate_gate("0.2.0", Some("0.1.0"), Ok(true)),
        Err("requested version 0.2.0 does not match crates/ripr version 0.1.0".to_string())
    );
    assert!(candidate_gate("0.2.0", Some("0.2.0"), Ok(false)).is_err());
    assert_eq!(candidate_gate("0.2.0", Some("0.2.0"), Err("git".to_string())), Err("git".to_string()));
    assert_eq!(candidate_gate("0.2.0", Some("0.2.0"), Ok(true)), Ok(()));
    let failed = PackageInstallResult {
        success: false,
        artifacts: Vec::new(),
        details: vec!["a".to_string(), "b".to_string()],
    };
    assert_eq!(install_gate(&failed), Err("packaged install failed: a; b".to_string()));
    let identity = candidate_identity("bin/ripr", &result(true, " ripr 0.2.0 \n", ""), "ab").expect("identity");
    assert_eq!(identity.version_output, "ripr 0.2.0");
    assert_eq!(identity.sha256, "sha256:ab");
    assert!(candidate_identity("bin/ripr", &result(false, "", ""), "ab").is_err());
}

use ripr_reports::release::{
    readiness_check, release_readiness_markdown, validate_binary_identity, validate_doctor_result,
    validate_installed_version, CommandResult, ReleaseReadinessReport,
};
use ripr_reports::release_checks::{validate_authentic_artifact, artifact_text_at,
    validate_journey_pilot, validate_pilot_artifact_written, ArtifactText, AuthenticArtifactFacts,
    agent_receipt_verdict, agent_verify_unusable_binary, agent_verify_verdict,
    command_surface_verdict, github_workflow_verdict, installed_command_surface_command,
    journey_setup_failure, known_limits_verdict, lsp_cockpit_verdict, missing_surface_binary,
    outcome_fixture_verdict, package_install_check, packaged_cli_journey_command,
    packaged_cli_journey_verdict, pilot_fixture_verdict, release_gate_check,
    repo_exposure_latency_verdict, surface_step_failure, validate_journey_check,
    validate_journey_context, validate_journey_diff, validate_journey_explain,
    validate_package_entry, validate_pilot_packet, validate_pilot_summary,
    vsix_packaging_verdict, vsix_start_current_repair_command_present, JourneyCheckOutput,
    JourneyRecord, JourneySetup, PackageInstallResult, SurfaceStep, VsixFacts,
};

fn result(success: bool, stdout: &str) -> CommandResult {
    CommandResult {
        status: Some(if success { 0 } else { 2 }),
        success,
        stdout: stdout.to_string(),
        stderr: String::new(),
    }
}

#[test]
fn packaged_crate_entry_validation_rejects_traversal_components() {
    for path in ["ripr-0.1.0/foo/../escape", "/escape"] {
        assert!(
            validate_package_entry(path, false, "ripr-0.1.0").is_err(),
            "package entry validation accepted {path:?}"
        );
    }
}

#[test]
fn packaged_install_validates_identity_version_and_doctor_status() {
    assert!(
        validate_binary_identity("same", "same").is_err(),
        "matching workspace and installed digests were accepted"
    );
    assert_eq!(validate_binary_identity("workspace", "installed"), Ok(()));
    assert!(
        validate_installed_version(true, "ripr 0.9.0\n", "0.10.0").is_err(),
        "wrong installed version was accepted"
    );
    assert_eq!(validate_installed_version(true, "ripr 0.10.0\n", "0.10.0"), Ok(()));
    assert!(
        validate_installed_version(false, "ripr 0.10.0\n", "0.10.0").is_err(),
        "failed version command was accepted"
    );
    assert_eq!(validate_doctor_result(true, Some("pass")), Ok(()));
    assert!(validate_doctor_result(false, Some("pass")).is_err(), "failed doctor command was accepted");
    assert!(validate_doctor_result(true, Some("warn")).is_err(), "non-pass doctor status was accepted");
}

#[test]
fn release_readiness_json_and_markdown_are_structured() {
    let checks = vec![readiness_check(
        "installed-command-surface",
        "pass",
        true,
        "target/ripr/release-readiness/install/bin/ripr --help",
        "installed binary exposes commands",
        vec!["target/ripr/release-readiness/install/bin/ripr".to_string()],
        Vec::new(),
    )];
    let report = ReleaseReadinessReport {
        version: "0.8.0".to_string(),
        status: "pass".to_string(),
        checks,
        next_commands: vec!["cargo xtask release-readiness --version 0.8.0".to_string()],
    };
    let markdown = release_readiness_markdown(&report);
    assert!(markdown.contains("# ripr release readiness"), "expected release readiness markdown heading");
    assert!(markdown.contains("installed-command-surface"), "expected check id in markdown");
}

#[test]
fn package_entries_under_the_root_are_accepted_and_links_refused() {
    assert_eq!(validate_package_entry("ripr-0.1.0/src/lib.rs", false, "ripr-0.1.0"), Ok(()));
    assert_eq!(
        validate_package_entry("other/src/lib.rs", false, "ripr-0.1.0"),
        Err("package entry \"other/src/lib.rs\" is outside expected root \"ripr-0.1.0\"".to_string())
    );
    assert_eq!(
        validate_package_entry("ripr-0.1.0/foo/../escape", false, "ripr-0.1.0"),
        Err("package entry \"ripr-0.1.0/foo/../escape\" escapes extraction root".to_string())
    );
    assert_eq!(
        validate_package_entry("ripr-0.1.0/link", true, "ripr-0.1.0"),
        Err("package entry \"ripr-0.1.0/link\" is a link".to_string())
    );
    assert!(validate_package_entry("ripr-0.1.0x/a", false, "ripr-0.1.0").is_err());
}

#[test]
fn release_gate_runs_only_on_the_crate_version_and_a_clean_tree() {
    let unreadable = release_gate_check("package-list", "cmd", "0.2.0", None, Ok(true), || {
        panic!("must not run")
    });
    assert_eq!(unreadable.status, "not_run");
    assert!(!unreadable.required);
    let lagging = release_gate_check("package-list", "cmd", "0.2.0", Some("0.1.0"), Ok(true), || {
        panic!("must not run")
    });
    assert_eq!(lagging.details, vec!["requested version: 0.2.0; crates/ripr version: 0.1.0".to_string()]);
    let dirty = release_gate_check("package-list", "cmd", "0.2.0", Some("0.2.0"), Ok(false), || {
        panic!("must not run")
    });
    assert_eq!(dirty.summary, "dirty tree; release-prep should rerun this on the committed version bump");
    let passed = release_gate_check("package-list", "cmd", "0.2.0", Some("0.2.0"), Ok(true), || {
        Ok(result(true, "listed\n"))
    });
    assert_eq!(passed.status, "pass");
    assert!(passed.required);
    assert_eq!(passed.details, vec!["exit code: 0".to_string(), "stdout: listed".to_string()]);
    let failed = release_gate_check("package-list", "cmd", "0.2.0", Some("0.2.0"), Ok(true), || {
        Ok(result(false, ""))
    });
    assert_eq!(failed.summary, "release gate failed");
    let broken = release_gate_check("package-list", "cmd", "0.2.0", Some("0.2.0"), Ok(true), || {
        Err("no cargo".to_string())
    });
    assert_eq!(broken.details, vec!["no cargo".to_string()]);
    let unknown = release_gate_check("package-list", "cmd", "0.2.0", Some("0.2.0"), Err("git".to_string()), || {
        panic!("must not run")
    });
    assert_eq!(unknown.summary, "git worktree state could not be verified");
}

#[test]
fn package_install_rechecks_the_tree_and_reports_the_install() {
    let dirty = package_install_check("0.2.0", Some("0.2.0"), "bin/ripr", || Ok(false), || {
        panic!("must not install")
    });
    assert_eq!(dirty.status, "fail");
    assert!(dirty.command.contains("ripr-0.2.0 --locked"));
    let passed = package_install_check("0.2.0", Some("0.2.0"), "bin/ripr", || Ok(true), || {
        Ok(PackageInstallResult { success: true, artifacts: vec!["a".to_string()], details: vec![] })
    });
    assert_eq!(passed.status, "pass");
    assert_eq!(passed.artifacts, vec!["a".to_string()]);
    let broken = package_install_check("0.2.0", Some("0.2.0"), "bin/ripr", || Ok(true), || {
        Err("boom".to_string())
    });
    assert_eq!(broken.artifacts, vec!["bin/ripr".to_string()]);
    assert_eq!(broken.summary, "packaged crate install could not run");
}

#[test]
fn command_surface_steps_and_verdict() {
    assert_eq!(installed_command_surface_command("b"), "b --version && b --help && b help --all && b first-pr --help");
    assert_eq!(missing_surface_binary("b").summary, "installed ripr binary is missing");
    assert!(surface_step_failure("b", SurfaceStep::Help, &Ok(result(true, ""))).is_none());
    let failed = surface_step_failure("b", SurfaceStep::HelpAll, &Ok(result(false, ""))).expect("failure");
    assert_eq!(failed.summary, "installed binary help --all failed");
    let unrun = surface_step_failure("b", SurfaceStep::FirstPrHelp, &Err("x".to_string())).expect("failure");
    assert_eq!(unrun.summary, "installed ripr first-pr --help could not run");
    let help = "ripr doctor\nripr check\nripr first-pr";
    let all = "ripr pilot ripr outcome ripr first-pr ripr calibrate cargo-mutants ripr agent verify ripr agent receipt";
    let first_pr = "Create the start-here packet\nusage: ripr first-pr --gap-ledger --receipts-dir --out-dir";
    let pass = command_surface_verdict("b", &result(true, "ripr 1.0"), help, all, first_pr);
    assert_eq!(pass.status, "pass");
    let fail = command_surface_verdict("b", &result(true, "ripr 1.0"), "ripr doctor", all, first_pr);
    assert_eq!(fail.details, vec!["missing: ripr check, ripr first-pr".to_string()]);
}

#[test]
fn fixture_verdicts_follow_the_run_and_its_artifacts() {
    let pass = pilot_fixture_verdict("b", &Ok(result(true, "")), &vec![true; 5]);
    assert_eq!(pass.status, "pass");
    assert_eq!(pass.artifacts.len(), 5);
    let partial = pilot_fixture_verdict("b", &Ok(result(true, "")), &vec![true, false, true, true, true]);
    assert_eq!(
        partial.details,
        vec!["missing: target/ripr/release-readiness/pilot/repo-exposure.md".to_string()]
    );
    let outcome = outcome_fixture_verdict("b", &Ok(result(true, "")), false);
    assert_eq!(outcome.summary, "ripr outcome failed or did not write its artifact");
    let agent = agent_verify_verdict("b", Ok(vec!["d".to_string()]));
    assert_eq!(agent.status, "pass");
    assert_eq!(agent.details, vec!["d".to_string()]);
    assert_eq!(agent_verify_unusable_binary("b", "e".to_string()).details, vec!["e".to_string()]);
}

#[test]
fn receipt_and_report_verdicts() {
    let missing = agent_receipt_verdict("b", false, true, Ok(None));
    assert_eq!(missing.summary, "agent verify artifact is missing");
    let incomplete = agent_receipt_verdict("b", true, true, Ok(None));
    assert_eq!(incomplete.details, vec!["analysis_outcome_status: missing".to_string()]);
    let complete = agent_receipt_verdict("b", true, true, Ok(Some("complete".to_string())));
    assert_eq!(complete.status, "pass");
    let warn = repo_exposure_latency_verdict(Ok(()), Ok("warn".to_string()));
    assert_eq!(warn.status, "warn");
    assert!(!warn.required);
    assert_eq!(warn.details, vec!["report status: warn".to_string()]);
    let lsp = lsp_cockpit_verdict(Ok(()), Ok("fail".to_string()));
    assert_eq!(lsp.status, "fail");
    assert_eq!(lsp_cockpit_verdict(Err("x".to_string()), Ok(String::new())).summary, "LSP cockpit report command failed");
}

#[test]
fn workflow_vsix_and_docs_verdicts() {
    let workflow = github_workflow_verdict("b", &Ok(result(true, "continue-on-error: true")));
    assert_eq!(workflow.status, "fail");
    assert!(workflow.details[0].starts_with("missing: ripr pilot, ripr agent start"));
    let commands = vec![
        (Some("ripr.other".to_string()), None),
        (Some("ripr.startCurrentRepair".to_string()), Some("ripr: Start Current Repair".to_string())),
    ];
    assert!(vsix_start_current_repair_command_present(&commands));
    assert!(!vsix_start_current_repair_command_present(&commands[..1].to_vec()));
    let facts = VsixFacts {
        package_json_present: true,
        release_doc_present: true,
        icon_present: false,
        package_script_present: true,
        release_doc_text: Some("run vsce package".to_string()),
        start_repair_command_present: true,
    };
    let vsix = vsix_packaging_verdict(&facts);
    assert_eq!(vsix.details, vec!["missing: editors/vscode/icon.png".to_string()]);
    let docs = known_limits_verdict(
        &vec![true, true, false],
        &vec![Some("runtime mutation".to_string()), Some("CI blocking".to_string()), None],
    );
    assert_eq!(
        docs.details,
        vec!["missing: docs/EDITOR_EXTENSION.md, known-limit text: unsaved-buffer".to_string()]
    );
}

#[test]
fn packaged_cli_journey_steps_validate_their_outputs() {
    assert!(packaged_cli_journey_command("b").starts_with("b --version; b check --root"));
    let setup = journey_setup_failure("cmd", JourneySetup::FixtureRoot, "e".to_string());
    assert_eq!(setup.summary, "external CLI fixture root could not be created");
    let out = JourneyCheckOutput {
        base: Some("base".to_string()),
        analysis_complete: true,
        first_finding: Some("probe:1".to_string()),
    };
    assert_eq!(
        validate_journey_check(&result(true, ""), &Ok(out.clone()), "base", true, "a.json"),
        Ok("probe:1".to_string())
    );
    assert_eq!(
        validate_journey_check(&result(true, ""), &Ok(out.clone()), "other", true, "a.json"),
        Err("packaged CLI check did not retain the requested base identity".to_string())
    );
    assert_eq!(
        validate_journey_check(&result(true, ""), &Ok(out), "base", false, "a.json"),
        Err("packaged CLI check did not write artifact a.json".to_string())
    );
    assert_eq!(
        validate_journey_check(&result(false, ""), &Err("x".to_string()), "base", true, "a"),
        Err("packaged CLI check failed: exit code: 2".to_string())
    );
    assert!(validate_journey_diff(&result(true, ""), &Ok((Some("b".to_string()), Some("h".to_string()))), "b", "h").is_ok());
    assert!(validate_journey_diff(&result(true, ""), &Ok((Some("b".to_string()), None)), "b", "h").is_err());
    assert!(validate_journey_explain(&result(true, "about probe:1"), "probe:1").is_ok());
    assert_eq!(
        validate_journey_explain(&result(true, "other"), "probe:1"),
        Err("packaged CLI explain did not retain the requested finding identity".to_string())
    );
    assert!(validate_journey_context(&result(true, ""), &Ok(Some("probe:1".to_string())), "probe:1").is_ok());
    let mut details = Vec::new();
    assert!(validate_pilot_packet(Some("complete"), Some(3), &mut details).is_ok());
    assert!(validate_pilot_summary(Some("complete"), &mut details).is_ok());
    assert_eq!(
        details,
        vec![
            "pilot run status: complete".to_string(),
            "pilot packets: 3".to_string(),
            "pilot summary status: complete".to_string(),
        ]
    );
    assert_eq!(
        validate_pilot_packet(Some("partial"), Some(3), &mut details),
        Err("packaged CLI pilot did not complete: run_status=partial".to_string())
    );
}

#[test]
fn packaged_cli_journey_verdict_combines_journey_cleanup_and_receipt() {
    let journey = JourneyRecord { artifacts: vec!["a".to_string()], details: vec!["d".to_string()] };
    let pass = packaged_cli_journey_verdict("cmd", Ok(journey.clone()), Ok(()), Vec::new(), || {
        Ok("receipt.json".to_string())
    });
    assert_eq!(pass.status, "pass");
    assert_eq!(pass.artifacts, vec!["receipt.json".to_string(), "a".to_string()]);
    let cleanup = packaged_cli_journey_verdict("cmd", Ok(journey), Err("busy".to_string()), Vec::new(), || {
        panic!("no receipt without cleanup")
    });
    assert_eq!(cleanup.details, vec!["d".to_string(), "cleanup error: busy".to_string()]);
    let both = packaged_cli_journey_verdict(
        "cmd",
        Err("failed".to_string()),
        Err("busy".to_string()),
        vec!["platform: linux".to_string()],
        || panic!("no receipt"),
    );
    assert_eq!(
        both.details,
        vec!["platform: linux".to_string(), "failed".to_string(), "cleanup error: busy".to_string()]
    );
}

fn authentic(head: &str) -> AuthenticArtifactFacts {
    AuthenticArtifactFacts {
        run_status: Some("complete".to_string()),
        producer_tool: ArtifactText::Text("ripr".to_string()),
        head: ArtifactText::Text(head.to_string()),
        has_seams: true,
    }
}

#[test]
fn authentic_artifact_accepts_complete_ripr_output_for_the_fixture_head() {
    assert_eq!(validate_authentic_artifact(&authentic("abc"), "abc", "before"), Ok(()));
}

#[test]
fn authentic_artifact_reports_the_first_failure() {
    let mut f = authentic("abc");
    f.run_status = Some("limited".to_string());
    assert_eq!(
        validate_authentic_artifact(&f, "abc", "before"),
        Err("authentic before artifact is not complete".to_string())
    );
    let mut f = authentic("abc");
    f.producer_tool = ArtifactText::Missing;
    assert_eq!(
        validate_authentic_artifact(&f, "abc", "after"),
        Err("artifact is missing artifact.producer.tool".to_string())
    );
    let mut f = authentic("abc");
    f.producer_tool = ArtifactText::Text("other".to_string());
    assert_eq!(
        validate_authentic_artifact(&f, "abc", "after"),
        Err("authentic after artifact producer is not ripr".to_string())
    );
    let mut f = authentic("abc");
    f.head = ArtifactText::NotText;
    assert_eq!(
        validate_authentic_artifact(&f, "abc", "after"),
        Err("artifact artifact.repository.head is not a string".to_string())
    );
    assert_eq!(
        validate_authentic_artifact(&authentic("def"), "abc", "after"),
        Err("authentic after artifact head does not match fixture commit".to_string())
    );
    let mut f = authentic("abc");
    f.has_seams = false;
    assert_eq!(
        validate_authentic_artifact(&f, "abc", "after"),
        Err("authentic after artifact contains no analyzed seams".to_string())
    );
}

#[test]
fn artifact_text_names_a_missing_or_non_text_path() {
    let text = ArtifactText::Text("ripr".to_string());
    assert_eq!(artifact_text_at(&text, "artifact.producer.tool"), Ok("ripr"));
    assert_eq!(
        artifact_text_at(&ArtifactText::Missing, "artifact.snapshot_identity"),
        Err("artifact is missing artifact.snapshot_identity".to_string())
    );
    assert_eq!(
        artifact_text_at(&ArtifactText::NotText, "artifact.repository.head"),
        Err("artifact artifact.repository.head is not a string".to_string())
    );
}

#[test]
fn journey_pilot_must_succeed_and_write_its_artifacts() {
    assert_eq!(validate_journey_pilot(&result(true, "")), Ok(()));
    assert_eq!(validate_journey_pilot(&result(false, "")), Err("packaged CLI pilot failed".to_string()));
    assert_eq!(validate_pilot_artifact_written("/x/pilot-summary.json", true), Ok(()));
    assert_eq!(
        validate_pilot_artifact_written("/x/pilot-summary.json", false),
        Err("packaged CLI pilot did not write /x/pilot-summary.json".to_string())
    );
}

use ripr_reports::json_record::{JsonEntry, JsonField, JsonRecord};
use ripr_reports::repair_scorecard::{build_report, markdown_report, RepairTrustCorpus, RepairTrustReport};
use serde_json::Value;

const SHA: &str = "0123456789abcdef0123456789abcdef01234567";
const REPOS: [&str; 3] = [
    "EffortlessMetrics/ripr-swarm",
    "EffortlessMetrics/perl-lsp-swarm",
    "EffortlessMetrics/ub-review",
];

fn parse(text: &str) -> Value {
    serde_json::from_str(text).expect("test JSON parses")
}

fn field_of(value: &Value) -> JsonField {
    match value {
        Value::Null => JsonField::Null,
        Value::Bool(b) => JsonField::Bool(*b),
        Value::Number(n) => JsonField::Number(n.as_u64()),
        Value::String(s) => JsonField::Text(s.clone()),
        Value::Array(items) => {
            JsonField::Array(items.iter().map(|item| item.as_str().map(str::to_string)).collect())
        }
        Value::Object(_) => JsonField::Object,
    }
}

fn record(value: &Value) -> JsonRecord {
    let mut entries = Vec::new();
    if let Value::Object(map) = value {
        for (key, item) in map {
            entries.push(JsonEntry {
                key: key.clone(),
                value: field_of(item),
                canonical: serde_json::to_string(item).expect("serializes"),
            });
        }
    }
    JsonRecord { entries }
}

fn records(value: Option<&Value>) -> Option<Vec<JsonRecord>> {
    value.and_then(Value::as_array).map(|items| items.iter().map(record).collect())
}

fn corpus(value: &Value) -> RepairTrustCorpus {
    let authorization = value.get("authorization");
    RepairTrustCorpus {
        schema_version: value.get("schema_version").and_then(Value::as_str).map(str::to_string),
        kind: value.get("kind").and_then(Value::as_str).map(str::to_string),
        authorization_status: authorization
            .and_then(|a| a.get("status"))
            .and_then(Value::as_str)
            .map(str::to_string),
        authorization_repositories: records(authorization.and_then(|a| a.get("repositories"))),
        cases: records(value.get("cases")),
        exclusions: records(value.get("exclusions")).unwrap_or_default(),
        observations: records(value.get("observations")).unwrap_or_default(),
    }
}

fn report_of(text: &str) -> RepairTrustReport {
    build_report(&corpus(&parse(text)))
}

fn authorization_json(status: &str) -> String {
    let entries: Vec<String> = REPOS
        .iter()
        .map(|name| {
            format!(
                "{{\"name\": \"{name}\", \"authorization_ref\": \"issue-1\", \"authorized_revision_or_branch\": \"main\", \"write_policy\": \"read-only\", \"authorization_date\": \"2026-01-01\", \"allowed_artifact_paths\": [\"target/ripr\"], \"allowed_analysis_actions\": [\"pilot\"], \"authorized_observation_heads\": [\"{SHA}\"]}}"
            )
        })
        .collect();
    format!("{{\"status\": \"{status}\", \"repositories\": [{}]}}", entries.join(", "))
}

fn valid_attempt(id: &str, repository: &str, gap: &str, attempt: u64, movement: &str, limitations: &[&str]) -> String {
    let limitations: Vec<String> = limitations.iter().map(|l| format!("\"{l}\"")).collect();
    format!(
        "{{\"attempt_id\": \"{id}\", \"repository\": \"{repository}\", \"analyzed_head_sha\": \"{SHA}\", \"canonical_gap_id\": \"{gap}\", \"seam_id\": \"seam:{id}\", \"file_line\": \"src/lib.rs:10\", \"changed_behavior\": \"changed call effect\", \"missing_discriminator\": \"test observes the effect\", \"related_test_or_production_caller\": \"tests::observes_effect\", \"focused_test_intent\": \"assert the changed effect\", \"before_receipt\": \"target/receipts/{id}-before.json\", \"repair_intent\": \"add one focused test-only assertion\", \"verification_command\": \"cargo test\", \"verification_result\": \"passed\", \"targeted_rerun_command\": \"cargo xtask targeted-rerun\", \"receipt_command\": \"cargo xtask rust-repair-trust-report\", \"inspection_command\": \"git diff --check\", \"after_receipt\": \"target/receipts/{id}-after.json\", \"claim_boundary\": \"static route evidence only\", \"attempt_number\": {attempt}, \"changed_test_files\": [\"tests/observes_effect.rs\"], \"allowed_edit_surface\": [\"tests/observes_effect.rs\"], \"limitations\": [{}], \"source_refs\": [\"pr:1\"], \"movement\": \"{movement}\", \"test_only\": true, \"production_files_changed\": false, \"false_actionability\": {}, \"known_impossible_recommendation\": {}, \"parity_failure\": {}, \"artifact_archaeology\": {}}}",
        limitations.join(", "),
        attempt == 3,
        attempt == 4,
        attempt == 5,
        attempt == 6
    )
}

fn corpus_json(status: &str, cases: &[String], exclusions: &[String], observations: &[String]) -> String {
    format!(
        "{{\"schema_version\": \"0.1\", \"kind\": \"rust_repair_trust_corpus\", \"authorization\": {}, \"cases\": [{}], \"exclusions\": [{}], \"observations\": [{}]}}",
        authorization_json(status),
        cases.join(", "),
        exclusions.join(", "),
        observations.join(", ")
    )
}

fn exclusion(id: &str, repository: &str, sha: &str, reason: &str) -> String {
    format!(
        "{{\"exclusion_id\": \"{id}\", \"repository\": \"{repository}\", \"analyzed_head_sha\": \"{sha}\", \"source_ref\": \"pilot\", \"canonical_candidate_id\": \"candidate-1\", \"reason\": \"{reason}\", \"evidence_ref\": \"target/ripr/pilot/pilot-summary.json\", \"command\": \"ripr pilot\", \"claim_boundary\": \"timeout is not a route result\"}}"
    )
}

fn observation(id: &str, classification: &str, reason: &str, duplicate_of: Option<&str>) -> String {
    let duplicate = duplicate_of.map(|d| format!(", \"duplicate_of\": \"{d}\"")).unwrap_or_default();
    format!(
        "{{\"observation_id\": \"{id}\", \"repository\": \"{}\", \"analyzed_head_sha\": \"{SHA}\", \"source_ref\": \"pilot\", \"canonical_candidate_id\": \"candidate-1\", \"reason\": \"{reason}\", \"evidence_ref\": \"receipt\", \"classification\": \"{classification}\", \"claim_boundary\": \"boundary\"{duplicate}}}",
        REPOS[2]
    )
}

fn twenty_attempts() -> Vec<String> {
    (0..20u64)
        .map(|index| {
            let repository = REPOS[(index as usize) % REPOS.len()];
            let movement = match index % 5 {
                0 => "improved",
                1 => "closed",
                2 => "unchanged",
                3 => "regressed",
                _ => "limited",
            };
            let limitations: &[&str] = if index == 7 {
                &["call_presence_effect_observer_unresolved"]
            } else if index == 8 {
                &["selected_scope_parity_unknown"]
            } else {
                &[]
            };
            valid_attempt(
                &format!("attempt-{index}"),
                repository,
                &format!("gap:behavior-{}", index % 3),
                (index % 3) + 1,
                movement,
                limitations,
            )
        })
        .collect()
}

fn pairs(v: &[(String, usize)]) -> Vec<(&str, usize)> {
    v.iter().map(|(k, n)| (k.as_str(), *n)).collect()
}

#[test]
fn empty_corpus_is_limited_and_preserves_missing_denominators() {
    let report = report_of(
        "{\"schema_version\": \"0.1\", \"kind\": \"rust_repair_trust_corpus\", \"authorization\": {\"status\": \"missing\", \"repositories\": []}, \"cases\": []}",
    );
    assert!(!report.threshold_met, "empty corpus must remain limited");
    assert_eq!(report.attempt_count, 0);
    assert_eq!(report.groups.group_count, 0, "empty corpus must not invent an improvement rate");
    assert_eq!(
        report.limitations,
        vec![
            "authorization_missing",
            "fewer_than_three_authorized_repositories",
            "fewer_than_twenty_eligible_attempts",
            "no_real_rust_attempts_recorded",
        ]
    );
    assert_eq!(report.authorization_status, "missing");
}

#[test]
fn malformed_attempt_cannot_enter_the_scorecard() {
    let report = report_of(
        "{\"schema_version\": \"0.1\", \"kind\": \"rust_repair_trust_corpus\", \"authorization\": {\"status\": \"complete\", \"repositories\": [{\"name\": \"example\", \"authorization_ref\": \"issue-1\"}]}, \"cases\": [{\"attempt_id\": \"attempt-1\", \"repository\": \"example\", \"analyzed_head_sha\": \"not-a-commit\", \"movement\": \"improved\", \"attempt_number\": 1, \"test_only\": false, \"production_files_changed\": false}]}",
    );
    assert!(!report.threshold_met, "malformed attempt must keep the report limited");
    assert_eq!(report.eligible_attempt_count, 0);
    assert!(report.limitations.iter().any(|l| l == "no_real_rust_attempts_recorded"));
    assert!(pairs(&report.missing_route_fields).contains(&("seam_id", 1)));
}

#[test]
fn corpus_header_errors_come_first_in_order() {
    let report = report_of(
        "{\"schema_version\": \"0.2\", \"kind\": \"other\", \"authorization\": {\"status\": \"complete\", \"repositories\": [{\"name\": \"example\", \"authorization_ref\": \"issue-1\"}]}}",
    );
    assert_eq!(
        report.validation_errors,
        vec![
            "schema_version must be 0.1",
            "kind must be rust_repair_trust_corpus",
            "every authorization repository requires revision/branch, artifact paths, analysis actions, write policy, and date",
            "at least 3 authorized repositories are required",
            "cases must be an array",
            "at least 20 eligible attempts are required",
        ]
    );
    assert_eq!(report.authorized_repository_count, 0);
}

#[test]
fn complete_corpus_scores_metrics_with_explicit_denominators() {
    let report = report_of(&corpus_json("complete", &twenty_attempts(), &[], &[]));
    assert!(report.threshold_met, "errors: {:?}", report.validation_errors);
    assert!(report.validation_errors.is_empty());
    assert!(report.limitations.is_empty());
    assert_eq!(report.eligible_attempt_count, 20);
    assert_eq!(report.authorized_repository_count, 3);
    assert_eq!(report.repository_count, 3);
    assert_eq!(report.limited_attempt_count, 2);
    assert_eq!(report.call_presence_attempt_count, 1);
    assert_eq!(report.groups.group_count, 3);
    assert_eq!(report.groups.improved_at_once, 1);
    assert_eq!(report.groups.improved_groups, 3);
    assert_eq!(report.groups.first_attempt_sum, 6);
    assert_eq!(report.false_actionability_incidents, 6);
    assert_eq!(report.known_impossible_recommendations, 0);
    assert_eq!(
        pairs(&report.movement_counts),
        vec![("closed", 4), ("improved", 4), ("unchanged", 4), ("regressed", 4), ("limited", 4)]
    );
    assert!(report.missing_route_fields.is_empty());
    let markdown = markdown_report(&report, "0.333", "0.100", "0.050");
    assert!(markdown.contains("CallPresence limitation frequency: `0.050` (1 / 20)"));
    assert!(markdown.starts_with(
        "# Rust repair trust report\n\nStatus: `complete`\nRun status: `full`\n\n## Denominators\n\n- Attempts supplied: 20\n"
    ));
    assert!(markdown.contains("- One-attempt improvement rate: `0.333` (1 / 3)\n"));
    assert!(markdown.contains("| `closed` | 4 |\n"));
    assert!(markdown.contains("- Missing route fields: \n"));
}

#[test]
fn repeated_attempt_ids_fail_the_later_attempt() {
    let attempts = vec![
        valid_attempt("same", REPOS[0], "gap:a", 1, "closed", &[]),
        valid_attempt("same", REPOS[1], "gap:b", 1, "closed", &[]),
    ];
    let report = report_of(&corpus_json("complete", &attempts, &[], &[]));
    assert_eq!(report.eligible_attempt_count, 1);
    assert!(report.validation_errors.contains(&"cases[1]: duplicate id same".to_string()));
}

#[test]
fn exclusions_are_validated_and_stay_out_of_attempt_denominators() {
    let exclusions = vec![
        exclusion("pilot-timeout", REPOS[2], SHA, "analysis_timeout"),
        exclusion("bad", "not-authorized", "short", "invented"),
    ];
    let report = report_of(&corpus_json("complete", &[], &exclusions, &[]));
    assert_eq!(report.exclusion_count, 2);
    assert_eq!(report.valid_exclusion_count, 1);
    assert_eq!(pairs(&report.exclusion_reason_counts), vec![("analysis_timeout", 1)]);
    assert_eq!(report.eligible_attempt_count, 0);
    assert!(report
        .validation_errors
        .iter()
        .any(|e| e.contains("exclusions[1]") && e.contains("not authorized")));
    assert!(report
        .validation_errors
        .contains(&"exclusions[1]: reason invented is not in the exclusion vocabulary".to_string()));
}

#[test]
fn exclusion_ids_cannot_reuse_attempt_ids() {
    let attempts = vec![valid_attempt("shared", REPOS[0], "gap:a", 1, "closed", &[])];
    let exclusions = vec![exclusion("shared", REPOS[0], SHA, "analysis_timeout")];
    let report = report_of(&corpus_json("complete", &attempts, &exclusions, &[]));
    assert_eq!(report.valid_exclusion_count, 0);
    assert!(report
        .validation_errors
        .contains(&"exclusions[0]: exclusion id shared collides with an attempt id".to_string()));
}

#[test]
fn repeated_observations_do_not_inflate_unique_exclusions_or_timeouts() {
    let exclusions = vec![exclusion("pilot-timeout", REPOS[2], SHA, "analysis_timeout")];
    let observations = vec![
        observation("obs-1", "new_exclusion", "analysis_timeout", None),
        observation("obs-2", "duplicate_observation", "analysis_timeout", Some("pilot-timeout")),
    ];
    let report = report_of(&corpus_json("complete", &[], &exclusions, &observations));
    assert_eq!(report.valid_observation_count, 2, "errors: {:?}", report.validation_errors);
    assert_eq!(report.observation_count, 2);
    assert_eq!(report.valid_exclusion_count, 1);
    assert_eq!(report.duplicate_observation_count, 1);
    assert_eq!(report.timeout_observation_count, 2);
    assert_eq!(
        pairs(&report.observation_classification_counts),
        vec![("duplicate_observation", 1), ("new_exclusion", 1)]
    );
}

#[test]
fn observations_require_non_empty_authorized_head_allowlists() {
    let text = corpus_json(
        "complete",
        &[],
        &[],
        &[observation("obs-1", "new_exclusion", "analysis_timeout", None)],
    )
    .replace(&format!("\"authorized_observation_heads\": [\"{SHA}\"]"), "\"authorized_observation_heads\": []");
    let report = report_of(&text);
    assert_eq!(report.valid_observation_count, 0);
    assert!(report
        .validation_errors
        .iter()
        .any(|e| e.contains("empty authorized observation head allowlist")));
}

#[test]
fn duplicate_observations_require_valid_exclusion_targets() {
    let exclusions = vec![exclusion("invalid-target", REPOS[2], SHA, "not-a-governed-reason")];
    let observations = vec![observation(
        "duplicate-invalid-target",
        "duplicate_observation",
        "analysis_timeout",
        Some("invalid-target"),
    )];
    let report = report_of(&corpus_json("complete", &[], &exclusions, &observations));
    assert_eq!(report.duplicate_observation_count, 0);
    assert!(report
        .validation_errors
        .iter()
        .any(|e| e.contains("duplicate_of invalid-target names an invalid exclusion")));
}

#[test]
fn invalid_attempt_fields_fail_closed_without_entering_denominators() {
    let case = "{\"attempt_id\": \"invalid-1\", \"repository\": \"not-authorized\", \"analyzed_head_sha\": \"not-a-sha\", \"canonical_gap_id\": \"wrong-prefix\", \"seam_id\": \"seam:invalid-1\", \"file_line\": \"src/lib.rs:10\", \"changed_behavior\": \"changed behavior\", \"missing_discriminator\": \"missing discriminator\", \"related_test_or_production_caller\": \"caller\", \"focused_test_intent\": \"observe behavior\", \"before_receipt\": \"before.json\", \"repair_intent\": \"add assertion\", \"verification_command\": \"cargo test\", \"verification_result\": \"failed\", \"targeted_rerun_command\": \"cargo xtask targeted-rerun\", \"receipt_command\": \"cargo xtask receipt\", \"inspection_command\": \"git diff --check\", \"after_receipt\": \"after.json\", \"claim_boundary\": \"static evidence\", \"attempt_number\": 0, \"changed_test_files\": [], \"allowed_edit_surface\": [\"\"], \"limitations\": \"not-an-array\", \"source_refs\": [], \"movement\": \"invented\", \"test_only\": false, \"production_files_changed\": true, \"false_actionability\": \"unknown\", \"known_impossible_recommendation\": false, \"parity_failure\": false, \"artifact_archaeology\": false}".to_string();
    let report = report_of(&corpus_json("complete", &[case], &[], &[]));
    assert_eq!(report.eligible_attempt_count, 0);
    for expected in [
        "repository not-authorized is not authorized",
        "revision must be a 40-character commit SHA",
        "movement invented is not in the closed vocabulary",
        "attempt_number must be a positive integer",
        "changed_test_files must not be empty",
        "limitations must be an array",
        "source_refs must not be empty",
        "test_only must be true",
        "production_files_changed must be false",
        "canonical_gap_id must start with gap:",
    ] {
        assert!(
            report.validation_errors.iter().any(|e| e.contains(expected)),
            "missing validation error: {expected}"
        );
    }
}

#[test]
fn limited_markdown_lists_limitations_and_exclusions() {
    let exclusions = vec![exclusion("pilot-timeout", REPOS[2], SHA, "analysis_timeout")];
    let report = report_of(&corpus_json("missing", &[], &exclusions, &[]));
    let markdown = markdown_report(&report, "N/A", "N/A", "N/A");
    assert!(markdown.starts_with(
        "# Rust repair trust report\n\nStatus: `limited`\nRun status: `limited_incomplete_input`\n\n"
    ));
    assert!(markdown.contains("\n## Limitations\n\n- `authorization_missing`\n- `fewer_than_twenty_eligible_attempts`\n- `no_real_rust_attempts_recorded`\n"));
    assert!(markdown.contains("\n## Exclusions\n\n- `analysis_timeout`: 1\n"));
    assert!(markdown.contains("- Valid/unique exclusions: 1 / 1\n"));
    assert!(markdown.ends_with("Synthetic and preview cases do not satisfy the Rust corpus threshold.\n"));
}

use ripr_reports::reverse_authorization::{
    evaluate_reverse_authorization, AuthorizationDecision, EvidenceState, PredicateEvidence,
    ReverseAuthorizationInput,
};

fn valid() -> ReverseAuthorizationInput {
    let pass = || PredicateEvidence::pass("current and verified");
    ReverseAuthorizationInput {
        candidate_identity: pass(),
        source_origin: pass(),
        admission: pass(),
        review_decision: pass(),
        review_dimensions: pass(),
        unresolved_threads: pass(),
        live_protection: pass(),
        required_checks: pass(),
        movement: pass(),
        provenance: pass(),
        retention: pass(),
        merge_method: pass(),
        capability_boundary: pass(),
    }
}

#[test]
fn exact_current_candidate_is_authorized() {
    let receipt = evaluate_reverse_authorization(&valid());
    assert_eq!(receipt.decision, AuthorizationDecision::Authorized);
    assert!(receipt.blockers.is_empty());
    assert_eq!(receipt.predicates.len(), 13);
}

#[test]
fn incomplete_evidence_blocks_without_authorizing() {
    for state in [
        EvidenceState::Missing,
        EvidenceState::Stale,
        EvidenceState::Partial,
        EvidenceState::Contradictory,
    ] {
        let mut input = valid();
        input.live_protection = PredicateEvidence {
            state,
            detail: "ruleset observation is incomplete".to_string(),
        };
        let receipt = evaluate_reverse_authorization(&input);
        assert_eq!(receipt.decision, AuthorizationDecision::Blocked);
        assert_eq!(receipt.blockers.len(), 1);
    }
}

#[test]
fn a_failed_identity_rejects_even_when_everything_else_passes() {
    let mut input = valid();
    input.candidate_identity = PredicateEvidence::fail("Q head differs from immutable receipt");
    let receipt = evaluate_reverse_authorization(&input);
    assert_eq!(receipt.decision, AuthorizationDecision::Rejected);
}

#[test]
fn multiple_incomplete_predicates_are_all_reported() {
    let mut input = valid();
    input.review_dimensions = PredicateEvidence::missing("affected dimension review unavailable");
    input.required_checks = PredicateEvidence::missing("required context set is partial");
    let receipt = evaluate_reverse_authorization(&input);
    assert_eq!(receipt.decision, AuthorizationDecision::Blocked);
    assert_eq!(receipt.blockers.len(), 2);
    assert!(receipt.blockers[0].starts_with("required_checks:"));
    assert!(receipt.blockers[1].starts_with("review_dimensions:"));
}

#[test]
fn failed_policy_takes_precedence_over_other_blockers() {
    let mut input = valid();
    input.merge_method = PredicateEvidence::fail("bypass merge requested");
    input.provenance = PredicateEvidence::missing("receipt producer unavailable");
    let receipt = evaluate_reverse_authorization(&input);
    assert_eq!(receipt.decision, AuthorizationDecision::Rejected);
    assert_eq!(receipt.blockers.len(), 2);
}

#[test]
fn manual_review_is_not_collapsed_into_admission() {
    let mut input = valid();
    input.review_decision = PredicateEvidence::missing("manual semantic review not recorded");
    let receipt = evaluate_reverse_authorization(&input);
    assert_eq!(receipt.decision, AuthorizationDecision::Blocked);
    assert!(receipt.predicates.contains_key("review_decision"));
}

#[test]
fn receipt_is_deterministically_ordered() {
    let receipt = evaluate_reverse_authorization(&valid());
    let keys = receipt.predicates.keys();
    assert!(keys.windows(2).all(|pair| pair[0] < pair[1]));
}

#[test]
fn blocker_lines_join_name_and_detail() {
    let mut input = valid();
    input.retention = PredicateEvidence::missing("receipt retention unknown");
    let receipt = evaluate_reverse_authorization(&input);
    assert_eq!(receipt.blockers, vec!["retention: receipt retention unknown".to_string()]);
    assert_eq!(
        receipt.required_operation,
        "protected merge commit of the exact Q head into the declared swarm parent; no bypass"
    );
    let evidence = receipt.predicates.get("retention").expect("retention is recorded");
    assert_eq!(evidence.state, EvidenceState::Missing);
    assert_eq!(EvidenceState::Contradictory.as_str(), "contradictory");
}

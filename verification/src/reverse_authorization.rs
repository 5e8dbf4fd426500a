//! Fail-closed authorization of an exact reverse landing candidate.
//!
//! The evaluator consumes already-normalized observations: each predicate
//! carries an evidence state and a detail. Only a complete set of passing
//! predicates authorizes; any failed predicate rejects; anything else blocks.

use vstd::prelude::*;
use crate::text::{owned, str_eq, concat3, seq_less};

verus! {

/// The state of one piece of evidence.
#[derive(Clone, Copy, Debug, PartialEq, Eq, Structural)]
pub enum EvidenceState {
    Pass,
    Fail,
    Missing,
    Stale,
    Partial,
    Contradictory,
}

impl EvidenceState {
    /// Whether this state is a terminal failure (only `Fail` is).
    pub fn is_terminal_failure(self) -> (r: bool)
        ensures
            r == (self == EvidenceState::Fail),
    {
        matches!(self, EvidenceState::Fail)
    }

    /// Whether this state is a pass.
    pub fn is_pass(self) -> (r: bool)
        ensures
            r == (self == EvidenceState::Pass),
    {
        matches!(self, EvidenceState::Pass)
    }

    /// The snake_case name of the state.
    pub fn as_str(self) -> (r: &'static str)
        ensures
            r@ == evidence_state_name(self),
    {
        match self {
            EvidenceState::Pass => "pass",
            EvidenceState::Fail => "fail",
            EvidenceState::Missing => "missing",
            EvidenceState::Stale => "stale",
            EvidenceState::Partial => "partial",
            EvidenceState::Contradictory => "contradictory",
        }
    }
}

pub open spec fn evidence_state_name(s: EvidenceState) -> Seq<char> {
    match s {
        EvidenceState::Pass => "pass"@,
        EvidenceState::Fail => "fail"@,
        EvidenceState::Missing => "missing"@,
        EvidenceState::Stale => "stale"@,
        EvidenceState::Partial => "partial"@,
        EvidenceState::Contradictory => "contradictory"@,
    }
}

/// One predicate's evidence: its state and a human-readable detail.
#[derive(Clone, Debug)]
pub struct PredicateEvidence {
    pub state: EvidenceState,
    pub detail: String,
}

impl View for PredicateEvidence {
    type V = (EvidenceState, Seq<char>);

    open spec fn view(&self) -> (EvidenceState, Seq<char>) {
        (self.state, self.detail@)
    }
}

impl PredicateEvidence {
    /// Passing evidence with the given detail.
    pub fn pass(detail: &str) -> (r: Self)
        ensures
            r@ == (EvidenceState::Pass, detail@),
    {
        PredicateEvidence { state: EvidenceState::Pass, detail: owned(detail) }
    }

    /// Failed evidence with the given detail.
    pub fn fail(detail: &str) -> (r: Self)
        ensures
            r@ == (EvidenceState::Fail, detail@),
    {
        PredicateEvidence { state: EvidenceState::Fail, detail: owned(detail) }
    }

    /// Missing evidence with the given detail.
    pub fn missing(detail: &str) -> (r: Self)
        ensures
            r@ == (EvidenceState::Missing, detail@),
    {
        PredicateEvidence { state: EvidenceState::Missing, detail: owned(detail) }
    }

    /// A copy of this evidence.
    pub fn duplicate(&self) -> (r: Self)
        ensures
            r@ == self@,
    {
        PredicateEvidence { state: self.state, detail: owned(self.detail.as_str()) }
    }
}

/// The thirteen normalized observations about a candidate.
#[derive(Clone, Debug)]
pub struct ReverseAuthorizationInput {
    pub candidate_identity: PredicateEvidence,
    pub source_origin: PredicateEvidence,
    pub admission: PredicateEvidence,
    pub review_decision: PredicateEvidence,
    pub review_dimensions: PredicateEvidence,
    pub unresolved_threads: PredicateEvidence,
    pub live_protection: PredicateEvidence,
    pub required_checks: PredicateEvidence,
    pub movement: PredicateEvidence,
    pub provenance: PredicateEvidence,
    pub retention: PredicateEvidence,
    pub merge_method: PredicateEvidence,
    pub capability_boundary: PredicateEvidence,
}

/// The authorization outcome.
#[derive(Clone, Copy, Debug, PartialEq, Eq, Structural)]
pub enum AuthorizationDecision {
    Authorized,
    Blocked,
    Rejected,
}

/// Predicates keyed by name, in ascending name order.
#[derive(Clone, Debug)]
pub struct PredicateTable {
    pub entries: Vec<(String, PredicateEvidence)>,
}

impl View for PredicateTable {
    type V = Seq<(Seq<char>, (EvidenceState, Seq<char>))>;

    open spec fn view(&self) -> Seq<(Seq<char>, (EvidenceState, Seq<char>))> {
        self.entries@.map_values(|e: (String, PredicateEvidence)| (e.0@, e.1@))
    }
}

impl PredicateTable {
    /// Number of predicates.
    pub fn len(&self) -> (n: usize)
        ensures
            n == self@.len(),
    {
        self.entries.len()
    }

    /// Whether a predicate with this name is present.
    pub fn contains_key(&self, key: &str) -> (r: bool)
        ensures
            r == exists|i: int| 0 <= i < self@.len() && (#[trigger] self@[i]).0 == key@,
    {
        let mut i: usize = 0;
        while i < self.entries.len()
            invariant
                i <= self@.len(),
                self@.len() == self.entries@.len(),
                forall|j: int| 0 <= j < i ==> (#[trigger] self@[j]).0 != key@,
            decreases self.entries.len() - i,
        {
            if str_eq(self.entries[i].0.as_str(), key) {
                assert(self@[i as int].0 == key@);
                return true;
            }
            i += 1;
        }
        false
    }

    /// The predicate names, in table order.
    pub fn keys(&self) -> (r: Vec<String>)
        ensures
            r@.len() == self@.len(),
            forall|i: int| 0 <= i < r@.len() ==> (#[trigger] r@[i])@ == self@[i].0,
    {
        let mut r: Vec<String> = Vec::new();
        let mut i: usize = 0;
        while i < self.entries.len()
            invariant
                i <= self@.len(),
                self@.len() == self.entries@.len(),
                r@.len() == i,
                forall|j: int| 0 <= j < i ==> (#[trigger] r@[j])@ == self@[j].0,
            decreases self.entries.len() - i,
        {
            r.push(owned(self.entries[i].0.as_str()));
            i += 1;
        }
        r
    }

    /// The evidence recorded for a predicate name.
    pub fn get(&self, key: &str) -> (r: Option<&PredicateEvidence>)
        ensures
            r matches Some(e) ==> exists|i: int|
                0 <= i < self@.len() && (#[trigger] self@[i]).0 == key@ && self@[i].1 == e@,
            r is None ==> forall|i: int| 0 <= i < self@.len() ==> (#[trigger] self@[i]).0 != key@,
    {
        let mut i: usize = 0;
        while i < self.entries.len()
            invariant
                i <= self@.len(),
                self@.len() == self.entries@.len(),
                forall|j: int| 0 <= j < i ==> (#[trigger] self@[j]).0 != key@,
            decreases self.entries.len() - i,
        {
            if str_eq(self.entries[i].0.as_str(), key) {
                assert(self@[i as int].0 == key@);
                return Some(&self.entries[i].1);
            }
            i += 1;
        }
        None
    }
}

/// The receipt of one evaluation.
#[derive(Clone, Debug)]
pub struct ReverseAuthorizationReceipt {
    pub decision: AuthorizationDecision,
    pub predicates: PredicateTable,
    pub blockers: Vec<String>,
    pub required_operation: String,
}

pub open spec fn required_operation_text() -> Seq<char> {
    "protected merge commit of the exact Q head into the declared swarm parent; no bypass"@
}

/// The named predicates of an input, in ascending name order.
pub open spec fn predicate_entries(input: ReverseAuthorizationInput) -> Seq<
    (Seq<char>, (EvidenceState, Seq<char>)),
> {
    seq![
        ("admission"@, input.admission@),
        ("candidate_identity"@, input.candidate_identity@),
        ("capability_boundary"@, input.capability_boundary@),
        ("live_protection"@, input.live_protection@),
        ("merge_method"@, input.merge_method@),
        ("movement"@, input.movement@),
        ("provenance"@, input.provenance@),
        ("required_checks"@, input.required_checks@),
        ("retention"@, input.retention@),
        ("review_decision"@, input.review_decision@),
        ("review_dimensions"@, input.review_dimensions@),
        ("source_origin"@, input.source_origin@),
        ("unresolved_threads"@, input.unresolved_threads@),
    ]
}

/// `name: detail` for every predicate whose state is not a pass, in
/// predicate order.
pub open spec fn blocker_lines(entries: Seq<(Seq<char>, (EvidenceState, Seq<char>))>) -> Seq<
    Seq<char>,
>
    decreases entries.len(),
{
    if entries.len() == 0 {
        seq![]
    } else {
        let last = entries.last();
        let rest = blocker_lines(entries.drop_last());
        if last.1.0 != EvidenceState::Pass {
            rest.push(last.0 + ": "@ + last.1.1)
        } else {
            rest
        }
    }
}

pub open spec fn any_state(
    entries: Seq<(Seq<char>, (EvidenceState, Seq<char>))>,
    state: EvidenceState,
) -> bool {
    exists|i: int| 0 <= i < entries.len() && (#[trigger] entries[i]).1.0 == state
}

/// The decision: any failure rejects; otherwise only a full pass authorizes.
pub open spec fn decide(entries: Seq<(Seq<char>, (EvidenceState, Seq<char>))>) -> AuthorizationDecision {
    if any_state(entries, EvidenceState::Fail) {
        AuthorizationDecision::Rejected
    } else if blocker_lines(entries).len() == 0 {
        AuthorizationDecision::Authorized
    } else {
        AuthorizationDecision::Blocked
    }
}

fn entry(name: &str, evidence: &PredicateEvidence) -> (r: (String, PredicateEvidence))
    ensures
        r.0@ == name@,
        r.1@ == evidence@,
{
    (owned(name), evidence.duplicate())
}

/// Joins the normalized evidence into a receipt.
pub fn evaluate_reverse_authorization(input: &ReverseAuthorizationInput) -> (r:
    ReverseAuthorizationReceipt)
    ensures
        r.predicates@ == predicate_entries(*input),
        r.blockers@.map_values(|b: String| b@) == blocker_lines(predicate_entries(*input)),
        r.decision == decide(predicate_entries(*input)),
        r.required_operation@ == required_operation_text(),
{
    let mut entries: Vec<(String, PredicateEvidence)> = Vec::new();
    entries.push(entry("admission", &input.admission));
    entries.push(entry("candidate_identity", &input.candidate_identity));
    entries.push(entry("capability_boundary", &input.capability_boundary));
    entries.push(entry("live_protection", &input.live_protection));
    entries.push(entry("merge_method", &input.merge_method));
    entries.push(entry("movement", &input.movement));
    entries.push(entry("provenance", &input.provenance));
    entries.push(entry("required_checks", &input.required_checks));
    entries.push(entry("retention", &input.retention));
    entries.push(entry("review_decision", &input.review_decision));
    entries.push(entry("review_dimensions", &input.review_dimensions));
    entries.push(entry("source_origin", &input.source_origin));
    entries.push(entry("unresolved_threads", &input.unresolved_threads));
    let predicates = PredicateTable { entries };
    assert(predicates@ =~= predicate_entries(*input));
    let ghost all = predicates@;

    let mut blockers: Vec<String> = Vec::new();
    let mut rejected = false;
    let mut i: usize = 0;
    while i < predicates.entries.len()
        invariant
            i <= all.len(),
            all == predicates@,
            all.len() == predicates.entries@.len(),
            blockers@.map_values(|b: String| b@) == blocker_lines(all.take(i as int)),
            rejected == any_state(all.take(i as int), EvidenceState::Fail),
        decreases predicates.entries.len() - i,
    {
        let name = &predicates.entries[i].0;
        let evidence = &predicates.entries[i].1;
        let ghost before = blockers@;
        assert(all.take(i + 1).drop_last() =~= all.take(i as int));
        assert(all.take(i + 1).last() == all[i as int]);
        if !evidence.state.is_pass() {
            let line = concat3(name.as_str(), ": ", evidence.detail.as_str());
            blockers.push(line);
            assert(blockers@.map_values(|b: String| b@) =~= before.map_values(|b: String| b@).push(
                line@,
            ));
        }
        if evidence.state.is_terminal_failure() {
            rejected = true;
        }
        assert(any_state(all.take(i + 1), EvidenceState::Fail) == (any_state(
            all.take(i as int),
            EvidenceState::Fail,
        ) || all[i as int].1.0 == EvidenceState::Fail)) by {
            if any_state(all.take(i + 1), EvidenceState::Fail) {
                let k = choose|k: int|
                    0 <= k < all.take(i + 1).len() && (#[trigger] all.take(i + 1)[k]).1.0
                        == EvidenceState::Fail;
                if k < i {
                    assert(all.take(i as int)[k] == all.take(i + 1)[k]);
                }
            }
            if any_state(all.take(i as int), EvidenceState::Fail) {
                let k = choose|k: int|
                    0 <= k < all.take(i as int).len() && (#[trigger] all.take(i as int)[k]).1.0
                        == EvidenceState::Fail;
                assert(all.take(i as int)[k] == all.take(i + 1)[k]);
            }
            if all[i as int].1.0 == EvidenceState::Fail {
                assert(all.take(i + 1)[i as int] == all[i as int]);
            }
        }
        i += 1;
    }
    assert(all.take(all.len() as int) =~= all);
    let decision = if rejected {
        AuthorizationDecision::Rejected
    } else if blockers.len() == 0 {
        AuthorizationDecision::Authorized
    } else {
        AuthorizationDecision::Blocked
    };
    ReverseAuthorizationReceipt {
        decision,
        predicates,
        blockers,
        required_operation: owned(
            "protected merge commit of the exact Q head into the declared swarm parent; no bypass",
        ),
    }
}

proof fn lemma_blockers_empty_iff_all_pass(entries: Seq<(Seq<char>, (EvidenceState, Seq<char>))>)
    ensures
        (blocker_lines(entries).len() == 0) == (forall|i: int|
            0 <= i < entries.len() ==> (#[trigger] entries[i]).1.0 == EvidenceState::Pass),
    decreases entries.len(),
{
    if entries.len() > 0 {
        let rest = entries.drop_last();
        lemma_blockers_empty_iff_all_pass(rest);
        if blocker_lines(entries).len() == 0 {
            assert forall|i: int| 0 <= i < entries.len() implies (#[trigger] entries[i]).1.0
                == EvidenceState::Pass by {
                if i < entries.len() - 1 {
                    assert(entries[i] == rest[i]);
                }
            }
        }
        if forall|i: int| 0 <= i < entries.len() ==> (#[trigger] entries[i]).1.0 == EvidenceState::Pass {
            assert(entries[entries.len() - 1] == entries.last());
            assert forall|i: int| 0 <= i < rest.len() implies (#[trigger] rest[i]).1.0
                == EvidenceState::Pass by {
                assert(rest[i] == entries[i]);
            }
        }
    }
}

/// A candidate is authorized exactly when every one of its thirteen
/// predicates passes.
pub proof fn law_authorized_iff_every_predicate_passes(input: ReverseAuthorizationInput)
    ensures
        (decide(predicate_entries(input)) == AuthorizationDecision::Authorized) == (forall|i: int|
            0 <= i < predicate_entries(input).len() ==> (#[trigger] predicate_entries(input)[i]).1.0
                == EvidenceState::Pass),
{
    let e = predicate_entries(input);
    lemma_blockers_empty_iff_all_pass(e);
    if any_state(e, EvidenceState::Fail) {
        let k = choose|k: int| 0 <= k < e.len() && (#[trigger] e[k]).1.0 == EvidenceState::Fail;
        assert(e[k].1.0 != EvidenceState::Pass);
    }
}

/// A failed predicate rejects the candidate, whatever the others say.
pub proof fn law_failure_takes_precedence(input: ReverseAuthorizationInput, i: int)
    requires
        0 <= i < 13,
        predicate_entries(input)[i].1.0 == EvidenceState::Fail,
    ensures
        decide(predicate_entries(input)) == AuthorizationDecision::Rejected,
{
    assert(any_state(predicate_entries(input), EvidenceState::Fail));
}

/// Incomplete evidence (no failure, some predicate not passing) blocks:
/// it never authorizes and never rejects.
pub proof fn law_incomplete_evidence_blocks(input: ReverseAuthorizationInput, i: int)
    requires
        0 <= i < 13,
        predicate_entries(input)[i].1.0 != EvidenceState::Pass,
        forall|j: int| 0 <= j < 13 ==> (#[trigger] predicate_entries(input)[j]).1.0
            != EvidenceState::Fail,
    ensures
        decide(predicate_entries(input)) == AuthorizationDecision::Blocked,
{
    let e = predicate_entries(input);
    lemma_blockers_empty_iff_all_pass(e);
    assert(!any_state(e, EvidenceState::Fail));
}

/// The receipt lists its thirteen predicates in strictly ascending name
/// order, whatever the input.
pub proof fn law_predicates_strictly_ordered(input: ReverseAuthorizationInput)
    ensures
        predicate_entries(input).len() == 13,
        forall|i: int| 0 <= i < 12 ==> seq_less(
            (#[trigger] predicate_entries(input)[i]).0,
            predicate_entries(input)[i + 1].0,
        ),
{
    reveal_strlit("admission");
    reveal_strlit("candidate_identity");
    reveal_strlit("capability_boundary");
    reveal_strlit("live_protection");
    reveal_strlit("merge_method");
    reveal_strlit("movement");
    reveal_strlit("provenance");
    reveal_strlit("required_checks");
    reveal_strlit("retention");
    reveal_strlit("review_decision");
    reveal_strlit("review_dimensions");
    reveal_strlit("source_origin");
    reveal_strlit("unresolved_threads");
    reveal_with_fuel(seq_less, 10);
    let e = predicate_entries(input);
    assert(seq_less(e[0].0, e[1].0));
    assert(seq_less(e[1].0, e[2].0));
    assert(seq_less(e[2].0, e[3].0));
    assert(seq_less(e[3].0, e[4].0));
    assert(seq_less(e[4].0, e[5].0));
    assert(seq_less(e[5].0, e[6].0));
    assert(seq_less(e[6].0, e[7].0));
    assert(seq_less(e[7].0, e[8].0));
    assert(seq_less(e[8].0, e[9].0));
    assert(seq_less(e[9].0, e[10].0));
    assert(seq_less(e[10].0, e[11].0));
    assert(seq_less(e[11].0, e[12].0));
}

} // verus!

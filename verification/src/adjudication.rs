//! Record-level adjudication of a provisional denominator ledger: reviewed
//! batches close every record through the provisional cutoff, and reviewed
//! overrides replace a batch's decision for single positions.

use vstd::prelude::*;
use crate::release_denominator::{
    AdjudicationOverride, CommitRecord, Snapshot, is_review_ref, is_disposition, is_tree_state,
    is_adjudication_review_ref, position_message, seen_before, override_paths_check,
    validate_override_exclusion_paths, exclusion_paths_spec, apply_candidate_only_override,
    opt_text, issue_tag, adjudication_issue_tag, first_with_sha, find_sha, candidate_tree_spec,
    project_candidate_tree, SnapshotSource,
};
use crate::text::extend_strings;
use crate::text::{owned, str_eq, str_is_blank, push_str, views, trim, decimal, usize_to_string, concat};

verus! {

/// A reviewed decision that closes a list of first-parent positions.
#[derive(Clone, Debug, PartialEq, Eq)]
pub struct AdjudicationBatch {
    pub id: String,
    pub positions: Vec<usize>,
    pub disposition: String,
    pub candidate_tree_state: String,
    pub review_ref: String,
    pub rationale: String,
}

/// The reviewed batches and overrides for one provisional cutoff.
#[derive(Clone, Debug, PartialEq, Eq)]
pub struct AdjudicationManifest {
    pub schema_version: String,
    pub kind: String,
    pub cutoff_sha: String,
    pub batches: Vec<AdjudicationBatch>,
    pub overrides: Vec<AdjudicationOverride>,
}

// ---------------------------------------------------------------------------
// Batches
// ---------------------------------------------------------------------------

pub open spec fn batch_shape_message() -> Seq<char> {
    "adjudication batches require unique id, a well-formed review:<issue>:<slug> review_ref, and rationale"@
}

/// Whether batch `k`'s id was used by an earlier batch.
pub open spec fn id_repeated(bs: Seq<AdjudicationBatch>, k: int) -> bool {
    exists|j: int| 0 <= j < k && (#[trigger] bs[j]).id@ == bs[k].id@
}

pub open spec fn batch_has_position(b: AdjudicationBatch, p: int) -> bool {
    exists|i: int| 0 <= i < b.positions@.len() && b.positions@[i] == p
}

/// Whether a batch before `k` lists position `p`.
pub open spec fn earlier_covers(bs: Seq<AdjudicationBatch>, k: int, p: int) -> bool {
    exists|j: int| 0 <= j < k && batch_has_position(#[trigger] bs[j], p)
}

/// The first of the first `n` positions of batch `k` that an earlier batch,
/// or an earlier entry of the same list, already claims.
pub open spec fn overlap_upto(bs: Seq<AdjudicationBatch>, k: int, n: int) -> Option<usize>
    decreases n,
{
    if n <= 0 {
        None
    } else {
        match overlap_upto(bs, k, n - 1) {
            Some(p) => Some(p),
            None => {
                let ps = bs[k].positions@;
                let p = ps[n - 1];
                if earlier_covers(bs, k, p as int) || ps.take(n - 1).contains(p) {
                    Some(p)
                } else {
                    None
                }
            },
        }
    }
}

pub open spec fn positions_invalid(b: AdjudicationBatch, cutoff: int) -> bool {
    b.positions@.len() == 0 || exists|i: int|
        0 <= i < b.positions@.len() && (b.positions@[i] == 0 || b.positions@[i] > cutoff)
}

/// Why batch `k` is refused, if it is, given that the batches before it
/// passed; `cutoff` is the cutoff's first-parent position.
pub open spec fn batch_error(bs: Seq<AdjudicationBatch>, k: int, cutoff: int) -> Option<Seq<char>> {
    let b = bs[k];
    if trim(b.id@).len() == 0 || id_repeated(bs, k) || trim(b.review_ref@).len() == 0
        || !is_review_ref(b.review_ref@) || trim(b.rationale@).len() == 0 {
        Some(batch_shape_message())
    } else if positions_invalid(b, cutoff) {
        Some("adjudication batch "@ + b.id@ + " has an invalid first-parent position list"@)
    } else if !is_disposition(b.disposition@) || b.disposition@ == "operator_decision_required"@ {
        Some("adjudication batch "@ + b.id@ + " has a non-closed disposition "@ + b.disposition@)
    } else if !is_tree_state(b.candidate_tree_state@) || b.candidate_tree_state@
        == "candidate_tree_state_pending"@ {
        Some(
            "adjudication batch "@ + b.id@ + " has a non-closed candidate-tree state "@
                + b.candidate_tree_state@,
        )
    } else {
        match overlap_upto(bs, k, b.positions@.len() as int) {
            Some(p) => Some(
                "adjudication batches overlap at first-parent position "@ + decimal(p as nat),
            ),
            None => None,
        }
    }
}

/// The first refusal among the first `n` batches.
pub open spec fn batches_error(bs: Seq<AdjudicationBatch>, n: int, cutoff: int) -> Option<Seq<char>>
    decreases n,
{
    if n <= 0 {
        None
    } else {
        match batches_error(bs, n - 1, cutoff) {
            Some(e) => Some(e),
            None => batch_error(bs, n - 1, cutoff),
        }
    }
}

proof fn lemma_overlap_stable(bs: Seq<AdjudicationBatch>, k: int, i: int, n: int)
    requires
        i <= n,
        overlap_upto(bs, k, i) is Some,
    ensures
        overlap_upto(bs, k, n) == overlap_upto(bs, k, i),
    decreases n - i,
{
    if i < n {
        lemma_overlap_stable(bs, k, i, n - 1);
    }
}

proof fn lemma_batches_error_stable(bs: Seq<AdjudicationBatch>, i: int, n: int, cutoff: int)
    requires
        i <= n,
        batches_error(bs, i, cutoff) is Some,
    ensures
        batches_error(bs, n, cutoff) == batches_error(bs, i, cutoff),
    decreases n - i,
{
    if i < n {
        lemma_batches_error_stable(bs, i, n - 1, cutoff);
    }
}

fn id_repeated_exec(bs: &Vec<AdjudicationBatch>, k: usize) -> (r: bool)
    requires
        k < bs@.len(),
    ensures
        r == id_repeated(bs@, k as int),
{
    let mut j: usize = 0;
    while j < k
        invariant
            j <= k < bs@.len(),
            forall|i: int| 0 <= i < j ==> (#[trigger] bs@[i]).id@ != bs@[k as int].id@,
        decreases k - j,
    {
        if str_eq(bs[j].id.as_str(), bs[k].id.as_str()) {
            return true;
        }
        j += 1;
    }
    false
}

fn has_position_exec(b: &AdjudicationBatch, p: usize) -> (r: bool)
    ensures
        r == batch_has_position(*b, p as int),
{
    let mut i: usize = 0;
    while i < b.positions.len()
        invariant
            i <= b.positions@.len(),
            forall|k: int| 0 <= k < i ==> b.positions@[k] != p,
        decreases b.positions.len() - i,
    {
        if b.positions[i] == p {
            return true;
        }
        i += 1;
    }
    false
}

fn earlier_covers_exec(bs: &Vec<AdjudicationBatch>, k: usize, p: usize) -> (r: bool)
    requires
        k <= bs@.len(),
    ensures
        r == earlier_covers(bs@, k as int, p as int),
{
    let mut j: usize = 0;
    while j < k
        invariant
            j <= k <= bs@.len(),
            forall|i: int| 0 <= i < j ==> !batch_has_position(#[trigger] bs@[i], p as int),
        decreases k - j,
    {
        if has_position_exec(&bs[j], p) {
            return true;
        }
        j += 1;
    }
    false
}

fn prefix_has(ps: &Vec<usize>, n: usize, p: usize) -> (r: bool)
    requires
        n <= ps@.len(),
    ensures
        r == ps@.take(n as int).contains(p),
{
    let mut i: usize = 0;
    while i < n
        invariant
            i <= n <= ps@.len(),
            forall|k: int| 0 <= k < i ==> ps@[k] != p,
        decreases n - i,
    {
        if ps[i] == p {
            assert(ps@.take(n as int)[i as int] == p);
            return true;
        }
        i += 1;
    }
    assert(forall|k: int| 0 <= k < n ==> ps@.take(n as int)[k] != p);
    false
}

fn overlap_exec(bs: &Vec<AdjudicationBatch>, k: usize) -> (r: Option<usize>)
    requires
        k < bs@.len(),
    ensures
        r == overlap_upto(bs@, k as int, bs@[k as int].positions@.len() as int),
{
    let ps = &bs[k].positions;
    let mut i: usize = 0;
    while i < ps.len()
        invariant
            i <= ps@.len(),
            k < bs@.len(),
            ps@ == bs@[k as int].positions@,
            overlap_upto(bs@, k as int, i as int) is None,
        decreases ps.len() - i,
    {
        let p = ps[i];
        if earlier_covers_exec(bs, k, p) || prefix_has(ps, i, p) {
            proof {
                lemma_overlap_stable(bs@, k as int, i + 1, ps@.len() as int);
            }
            return Some(p);
        }
        i += 1;
    }
    None
}

fn positions_invalid_exec(b: &AdjudicationBatch, cutoff: usize) -> (r: bool)
    ensures
        r == positions_invalid(*b, cutoff as int),
{
    if b.positions.len() == 0 {
        return true;
    }
    let mut i: usize = 0;
    while i < b.positions.len()
        invariant
            i <= b.positions@.len(),
            forall|k: int| 0 <= k < i ==> !(b.positions@[k] == 0 || b.positions@[k] > cutoff),
        decreases b.positions.len() - i,
    {
        if b.positions[i] == 0 || b.positions[i] > cutoff {
            return true;
        }
        i += 1;
    }
    false
}

fn is_closed_disposition(d: &str) -> (r: bool)
    ensures
        r == (crate::release_denominator::is_disposition(d@) && d@ != "operator_decision_required"@),
{
    (str_eq(d, "include_product") || str_eq(d, "include_release_infrastructure") || str_eq(
        d,
        "include_control_or_honesty",
    ) || str_eq(d, "structural_no_semantic_delta") || str_eq(d, "candidate_only_exclusion")
        || str_eq(d, "source_only_followup") || str_eq(d, "safe_defer_post_0_11") || str_eq(
        d,
        "operator_decision_required",
    )) && !str_eq(d, "operator_decision_required")
}

fn is_closed_tree_state(t: &str) -> (r: bool)
    ensures
        r == (is_tree_state(t@) && t@ != "candidate_tree_state_pending"@),
{
    (str_eq(t, "present_in_candidate") || str_eq(t, "absent_by_candidate_only_exclusion") || str_eq(
        t,
        "replaced_by_later_commit",
    ) || str_eq(t, "source_only_not_in_swarm_candidate") || str_eq(
        t,
        "candidate_tree_state_pending",
    )) && !str_eq(t, "candidate_tree_state_pending")
}

fn batch_error_exec(bs: &Vec<AdjudicationBatch>, k: usize, cutoff: usize) -> (r: Option<String>)
    requires
        k < bs@.len(),
    ensures
        crate::release_denominator::opt_text(r) == batch_error(bs@, k as int, cutoff as int),
{
    let b = &bs[k];
    if str_is_blank(b.id.as_str()) || id_repeated_exec(bs, k) || str_is_blank(b.review_ref.as_str())
        || !is_adjudication_review_ref(b.review_ref.as_str()) || str_is_blank(b.rationale.as_str()) {
        return Some(
            owned(
                "adjudication batches require unique id, a well-formed review:<issue>:<slug> review_ref, and rationale",
            ),
        );
    }
    if positions_invalid_exec(b, cutoff) {
        let mut m = concat("adjudication batch ", b.id.as_str());
        push_str(&mut m, " has an invalid first-parent position list");
        return Some(m);
    }
    if !is_closed_disposition(b.disposition.as_str()) {
        let mut m = concat("adjudication batch ", b.id.as_str());
        push_str(&mut m, " has a non-closed disposition ");
        push_str(&mut m, b.disposition.as_str());
        return Some(m);
    }
    if !is_closed_tree_state(b.candidate_tree_state.as_str()) {
        let mut m = concat("adjudication batch ", b.id.as_str());
        push_str(&mut m, " has a non-closed candidate-tree state ");
        push_str(&mut m, b.candidate_tree_state.as_str());
        return Some(m);
    }
    match overlap_exec(bs, k) {
        Some(p) => Some(
            concat(
                "adjudication batches overlap at first-parent position ",
                usize_to_string(p).as_str(),
            ),
        ),
        None => None,
    }
}

/// Checks every batch in order: a unique id, a well-formed review ref and
/// rationale, positions within the cutoff, a closed disposition and tree
/// state, and no position claimed twice.
pub fn validate_batches(bs: &Vec<AdjudicationBatch>, cutoff: usize) -> (r: Result<(), String>)
    ensures
        match r {
            Ok(()) => batches_error(bs@, bs@.len() as int, cutoff as int) is None,
            Err(e) => batches_error(bs@, bs@.len() as int, cutoff as int) == Some(e@),
        },
{
    let mut k: usize = 0;
    while k < bs.len()
        invariant
            k <= bs@.len(),
            batches_error(bs@, k as int, cutoff as int) is None,
        decreases bs.len() - k,
    {
        match batch_error_exec(bs, k, cutoff) {
            Some(e) => {
                proof {
                    lemma_batches_error_stable(bs@, k + 1, bs@.len() as int, cutoff as int);
                }
                return Err(e);
            },
            None => {},
        }
        k += 1;
    }
    Ok(())
}

// ---------------------------------------------------------------------------
// Overrides
// ---------------------------------------------------------------------------

pub open spec fn batch_id_known(bs: Seq<AdjudicationBatch>, id: Seq<char>) -> bool {
    exists|k: int| 0 <= k < bs.len() && (#[trigger] bs[k]).id@ == id
}

/// The first of the first `n` batches that lists position `p`.
pub open spec fn first_cover(bs: Seq<AdjudicationBatch>, p: int, n: int) -> Option<int>
    decreases n,
{
    if n <= 0 {
        None
    } else {
        match first_cover(bs, p, n - 1) {
            Some(k) => Some(k),
            None => if batch_has_position(bs[n - 1], p) {
                Some(n - 1)
            } else {
                None
            },
        }
    }
}

/// The batch that decides position `p`.
pub open spec fn covering_batch(bs: Seq<AdjudicationBatch>, p: int) -> Option<int> {
    first_cover(bs, p, bs.len() as int)
}

pub open spec fn evidence_blank(o: AdjudicationOverride) -> bool {
    exists|i: int|
        0 <= i < o.review_evidence@.len() && trim((#[trigger] o.review_evidence@[i])@).len() == 0
}

/// Whether an override is out of range, unbound, unreviewed, or not closed.
pub open spec fn override_malformed(o: AdjudicationOverride, bs: Seq<AdjudicationBatch>, cutoff: int) -> bool {
    ||| o.position == 0
    ||| o.position > cutoff
    ||| trim(o.batch_id@).len() == 0
    ||| !batch_id_known(bs, o.batch_id@)
    ||| !is_review_ref(o.review_ref@)
    ||| trim(o.delivered_delta@).len() == 0
    ||| trim(o.challenged_disposition@).len() == 0
    ||| trim(o.candidate_effect@).len() == 0
    ||| trim(o.residual_acceptance@).len() == 0
    ||| evidence_blank(o)
    ||| !is_disposition(o.disposition@)
    ||| o.disposition@ == "operator_decision_required"@
    ||| !is_tree_state(o.candidate_tree_state@)
    ||| o.candidate_tree_state@ == "candidate_tree_state_pending"@
}

pub open spec fn position_taken(os: Seq<AdjudicationOverride>, m: int) -> bool {
    exists|j: int| 0 <= j < m && (#[trigger] os[j]).position == os[m].position
}

/// Why override `m` is refused, if it is, given that the overrides before
/// it passed.
pub open spec fn override_error(
    os: Seq<AdjudicationOverride>,
    m: int,
    bs: Seq<AdjudicationBatch>,
    cutoff: int,
    accepted: Seq<Seq<char>>,
) -> Option<Seq<char>> {
    let o = os[m];
    let at = "adjudication override at position "@ + decimal(o.position as nat);
    if override_malformed(o, bs, cutoff) {
        Some(at + " is malformed or not closed"@)
    } else if override_paths_check(o, accepted) is Err {
        Some(override_paths_check(o, accepted)->Err_0)
    } else if position_taken(os, m) {
        Some("adjudication overrides overlap at first-parent position "@ + decimal(o.position as nat))
    } else {
        match covering_batch(bs, o.position as int) {
            Some(k) => if bs[k].id@ == o.batch_id@ {
                None
            } else {
                Some(at + " does not belong to batch "@ + o.batch_id@)
            },
            None => Some(at + " does not belong to batch "@ + o.batch_id@),
        }
    }
}

/// The first refusal among the first `n` overrides.
pub open spec fn overrides_error(
    os: Seq<AdjudicationOverride>,
    n: int,
    bs: Seq<AdjudicationBatch>,
    cutoff: int,
    accepted: Seq<Seq<char>>,
) -> Option<Seq<char>>
    decreases n,
{
    if n <= 0 {
        None
    } else {
        match overrides_error(os, n - 1, bs, cutoff, accepted) {
            Some(e) => Some(e),
            None => override_error(os, n - 1, bs, cutoff, accepted),
        }
    }
}

proof fn lemma_overrides_error_stable(
    os: Seq<AdjudicationOverride>,
    i: int,
    n: int,
    bs: Seq<AdjudicationBatch>,
    cutoff: int,
    accepted: Seq<Seq<char>>,
)
    requires
        i <= n,
        overrides_error(os, i, bs, cutoff, accepted) is Some,
    ensures
        overrides_error(os, n, bs, cutoff, accepted) == overrides_error(os, i, bs, cutoff, accepted),
    decreases n - i,
{
    if i < n {
        lemma_overrides_error_stable(os, i, n - 1, bs, cutoff, accepted);
    }
}

proof fn lemma_first_cover_stable(bs: Seq<AdjudicationBatch>, p: int, i: int, n: int)
    requires
        i <= n,
        first_cover(bs, p, i) is Some,
    ensures
        first_cover(bs, p, n) == first_cover(bs, p, i),
    decreases n - i,
{
    if i < n {
        lemma_first_cover_stable(bs, p, i, n - 1);
    }
}

/// The batch that decides position `p`, if any.
pub fn covering_batch_exec(bs: &Vec<AdjudicationBatch>, p: usize) -> (r: Option<usize>)
    ensures
        match covering_batch(bs@, p as int) {
            Some(k) => r is Some && r->0 as int == k && 0 <= k < bs@.len(),
            None => r is None,
        },
{
    let mut k: usize = 0;
    while k < bs.len()
        invariant
            k <= bs@.len(),
            first_cover(bs@, p as int, k as int) is None,
        decreases bs.len() - k,
    {
        if has_position_exec(&bs[k], p) {
            proof {
                lemma_first_cover_stable(bs@, p as int, k + 1, bs@.len() as int);
            }
            return Some(k);
        }
        k += 1;
    }
    None
}

fn batch_id_known_exec(bs: &Vec<AdjudicationBatch>, id: &str) -> (r: bool)
    ensures
        r == batch_id_known(bs@, id@),
{
    let mut k: usize = 0;
    while k < bs.len()
        invariant
            k <= bs@.len(),
            forall|j: int| 0 <= j < k ==> (#[trigger] bs@[j]).id@ != id@,
        decreases bs.len() - k,
    {
        if str_eq(bs[k].id.as_str(), id) {
            return true;
        }
        k += 1;
    }
    false
}

fn evidence_blank_exec(o: &AdjudicationOverride) -> (r: bool)
    ensures
        r == evidence_blank(*o),
{
    let mut i: usize = 0;
    while i < o.review_evidence.len()
        invariant
            i <= o.review_evidence@.len(),
            forall|k: int| 0 <= k < i ==> trim((#[trigger] o.review_evidence@[k])@).len() != 0,
        decreases o.review_evidence.len() - i,
    {
        if str_is_blank(o.review_evidence[i].as_str()) {
            return true;
        }
        i += 1;
    }
    false
}

fn override_malformed_exec(o: &AdjudicationOverride, bs: &Vec<AdjudicationBatch>, cutoff: usize) -> (r:
    bool)
    ensures
        r == override_malformed(*o, bs@, cutoff as int),
{
    o.position == 0 || o.position > cutoff || str_is_blank(o.batch_id.as_str())
        || !batch_id_known_exec(bs, o.batch_id.as_str()) || !is_adjudication_review_ref(
        o.review_ref.as_str(),
    ) || str_is_blank(o.delivered_delta.as_str()) || str_is_blank(
        o.challenged_disposition.as_str(),
    ) || str_is_blank(o.candidate_effect.as_str()) || str_is_blank(o.residual_acceptance.as_str())
        || evidence_blank_exec(o) || !is_closed_disposition(o.disposition.as_str())
        || !is_closed_tree_state(o.candidate_tree_state.as_str())
}

fn position_taken_exec(os: &Vec<AdjudicationOverride>, m: usize) -> (r: bool)
    requires
        m < os@.len(),
    ensures
        r == position_taken(os@, m as int),
{
    let mut j: usize = 0;
    while j < m
        invariant
            j <= m < os@.len(),
            forall|i: int| 0 <= i < j ==> (#[trigger] os@[i]).position != os@[m as int].position,
        decreases m - j,
    {
        if os[j].position == os[m].position {
            return true;
        }
        j += 1;
    }
    false
}

fn override_error_exec(
    os: &Vec<AdjudicationOverride>,
    m: usize,
    bs: &Vec<AdjudicationBatch>,
    cutoff: usize,
    accepted: &Vec<String>,
) -> (r: Option<String>)
    requires
        m < os@.len(),
    ensures
        crate::release_denominator::opt_text(r) == override_error(
            os@,
            m as int,
            bs@,
            cutoff as int,
            views(accepted@),
        ),
{
    let o = &os[m];
    if override_malformed_exec(o, bs, cutoff) {
        return Some(position_message(o.position, " is malformed or not closed"));
    }
    match validate_override_exclusion_paths(o, accepted) {
        Err(e) => {
            return Some(e);
        },
        Ok(()) => {},
    }
    if position_taken_exec(os, m) {
        return Some(
            concat(
                "adjudication overrides overlap at first-parent position ",
                usize_to_string(o.position).as_str(),
            ),
        );
    }
    let belongs = match covering_batch_exec(bs, o.position) {
        Some(k) => str_eq(bs[k].id.as_str(), o.batch_id.as_str()),
        None => false,
    };
    if belongs {
        None
    } else {
        let mut m = position_message(o.position, " does not belong to batch ");
        push_str(&mut m, o.batch_id.as_str());
        Some(m)
    }
}

/// Checks every override in order: in range, bound to a known batch,
/// reviewed and closed, with valid exclusion paths, no position overridden
/// twice, and each override inside the batch it names.
pub fn validate_overrides(
    os: &Vec<AdjudicationOverride>,
    bs: &Vec<AdjudicationBatch>,
    cutoff: usize,
    accepted: &Vec<String>,
) -> (r: Result<(), String>)
    ensures
        match r {
            Ok(()) => overrides_error(os@, os@.len() as int, bs@, cutoff as int, views(accepted@)) is None,
            Err(e) => overrides_error(os@, os@.len() as int, bs@, cutoff as int, views(accepted@))
                == Some(e@),
        },
{
    let mut m: usize = 0;
    while m < os.len()
        invariant
            m <= os@.len(),
            overrides_error(os@, m as int, bs@, cutoff as int, views(accepted@)) is None,
        decreases os.len() - m,
    {
        match override_error_exec(os, m, bs, cutoff, accepted) {
            Some(e) => {
                proof {
                    lemma_overrides_error_stable(
                        os@,
                        m + 1,
                        os@.len() as int,
                        bs@,
                        cutoff as int,
                        views(accepted@),
                    );
                }
                return Err(e);
            },
            None => {},
        }
        m += 1;
    }
    Ok(())
}

// ---------------------------------------------------------------------------
// Applying decisions
// ---------------------------------------------------------------------------

/// The first of the first `n` overrides at position `p`.
pub open spec fn first_override(os: Seq<AdjudicationOverride>, p: int, n: int) -> Option<int>
    decreases n,
{
    if n <= 0 {
        None
    } else {
        match first_override(os, p, n - 1) {
            Some(k) => Some(k),
            None => if os[n - 1].position == p {
                Some(n - 1)
            } else {
                None
            },
        }
    }
}

pub open spec fn override_at(os: Seq<AdjudicationOverride>, p: int) -> Option<AdjudicationOverride> {
    match first_override(os, p, os.len() as int) {
        Some(k) => Some(os[k]),
        None => None,
    }
}

pub open spec fn non_claim() -> Seq<char> {
    "this provisional disposition does not close the owning issue, prove candidate qualification, or claim source promotion."@
}

pub open spec fn review_head(b: AdjudicationBatch, sha: Seq<char>, p: int) -> Seq<char> {
    "#"@ + issue_tag(b.review_ref@) + " "@ + b.id@ + " reviewed commit "@ + sha
        + " at first-parent position "@ + decimal(p as nat) + ": "@
}

/// The effect text a decision records.
pub open spec fn decision_effect(b: AdjudicationBatch, o: Option<AdjudicationOverride>, sha: Seq<char>, p: int) -> Seq<char> {
    match o {
        Some(o) => review_head(b, sha, p) + "delivered delta: "@ + o.delivered_delta@
            + "; challenged disposition: "@ + o.challenged_disposition@
            + "; accepted disposition: "@ + o.disposition@ + "; candidate effect: "@
            + o.candidate_effect@ + "."@,
        None => review_head(b, sha, p) + b.rationale@,
    }
}

/// The limitation text a decision records.
pub open spec fn decision_limitation(o: Option<AdjudicationOverride>, owner: Seq<char>) -> Seq<char> {
    match o {
        Some(o) => o.residual_acceptance@ + " Release non-claim: "@ + non_claim(),
        None => "This provisional disposition does not close the owning issue, prove candidate qualification, or claim source promotion. Residual acceptance remains with "@
            + owner + "."@,
    }
}

/// The review references a decision records.
pub open spec fn decision_review_refs(b: AdjudicationBatch, o: Option<AdjudicationOverride>, p: int) -> Seq<
    Seq<char>,
> {
    seq![b.review_ref@, "batch:"@ + b.id@] + match o {
        Some(o) => seq![o.review_ref@] + views(o.review_evidence@) + seq![
            "override:"@ + decimal(p as nat),
        ],
        None => seq![],
    }
}

/// `new_r` is `old_r` closed at position `p` by batch `b`, or by override
/// `o` when one is given.
pub open spec fn adjudicated_record(
    old_r: CommitRecord,
    new_r: CommitRecord,
    b: AdjudicationBatch,
    o: Option<AdjudicationOverride>,
    p: int,
) -> bool {
    &&& new_r.release_disposition@ == match o {
        Some(o) => o.disposition@,
        None => b.disposition@,
    }
    &&& new_r.candidate_tree_state@ == match o {
        Some(o) => o.candidate_tree_state@,
        None => b.candidate_tree_state@,
    }
    &&& match o {
        Some(o) => exclusion_paths_spec(o) == Ok::<Seq<Seq<char>>, Seq<char>>(
            views(new_r.candidate_only_excluded_paths@),
        ) && opt_text(new_r.candidate_only_exclusion_granularity) == opt_text(
            o.candidate_only_exclusion_granularity,
        ),
        None => new_r.candidate_only_excluded_paths@.len() == 0
            && new_r.candidate_only_exclusion_granularity is None,
    }
    &&& views(new_r.review_refs@) == decision_review_refs(b, o, p)
    &&& new_r.source_survivor_or_swarm_exclusion_effect@ == decision_effect(b, o, old_r.commit_sha@, p)
    &&& new_r.limitation_or_operator_decision@ == decision_limitation(o, old_r.acceptance_owner@)
    &&& new_r.commit_sha == old_r.commit_sha
    &&& new_r.first_parent_position == old_r.first_parent_position
    &&& new_r.subject == old_r.subject
    &&& new_r.pr_refs == old_r.pr_refs
    &&& new_r.issue_refs == old_r.issue_refs
    &&& new_r.references == old_r.references
    &&& new_r.claim_refs == old_r.claim_refs
    &&& new_r.reference_capture_status == old_r.reference_capture_status
    &&& new_r.reference_capture_limitation == old_r.reference_capture_limitation
    &&& new_r.theme_or_surface == old_r.theme_or_surface
    &&& new_r.acceptance_owner == old_r.acceptance_owner
    &&& new_r.replacement_commit_sha == old_r.replacement_commit_sha
    &&& new_r.proof_refs == old_r.proof_refs
}

/// The first position through `n` that no batch decides, or whose ledger
/// record is misnumbered.
pub open spec fn positions_error(records: Seq<CommitRecord>, bs: Seq<AdjudicationBatch>, n: int) -> Option<
    Seq<char>,
>
    decreases n,
{
    if n <= 0 {
        None
    } else {
        match positions_error(records, bs, n - 1) {
            Some(e) => Some(e),
            None => if covering_batch(bs, n) is None {
                Some("adjudication has no decision for first-parent position "@ + decimal(n as nat))
            } else if records[n - 1].first_parent_position != n {
                Some(
                    "ledger record at position "@ + decimal(n as nat) + " has first_parent_position "@
                        + decimal(records[n - 1].first_parent_position as nat),
                )
            } else {
                None
            },
        }
    }
}

proof fn lemma_positions_error_stable(records: Seq<CommitRecord>, bs: Seq<AdjudicationBatch>, i: int, n: int)
    requires
        i <= n,
        positions_error(records, bs, i) is Some,
    ensures
        positions_error(records, bs, n) == positions_error(records, bs, i),
    decreases n - i,
{
    if i < n {
        lemma_positions_error_stable(records, bs, i, n - 1);
    }
}

proof fn lemma_first_override_stable(os: Seq<AdjudicationOverride>, p: int, i: int, n: int)
    requires
        i <= n,
        first_override(os, p, i) is Some,
    ensures
        first_override(os, p, n) == first_override(os, p, i),
    decreases n - i,
{
    if i < n {
        lemma_first_override_stable(os, p, i, n - 1);
    }
}

fn override_at_exec(os: &Vec<AdjudicationOverride>, p: usize) -> (r: Option<&AdjudicationOverride>)
    ensures
        match override_at(os@, p as int) {
            Some(o) => r is Some && *(r->0) == o,
            None => r is None,
        },
{
    let mut k: usize = 0;
    while k < os.len()
        invariant
            k <= os@.len(),
            first_override(os@, p as int, k as int) is None,
        decreases os.len() - k,
    {
        if os[k].position == p {
            proof {
                lemma_first_override_stable(os@, p as int, k + 1, os@.len() as int);
            }
            return Some(&os[k]);
        }
        k += 1;
    }
    None
}

fn check_positions(records: &Vec<CommitRecord>, bs: &Vec<AdjudicationBatch>, cutoff: usize) -> (r: Result<
    (),
    String,
>)
    requires
        cutoff <= records@.len(),
    ensures
        match r {
            Ok(()) => positions_error(records@, bs@, cutoff as int) is None,
            Err(e) => positions_error(records@, bs@, cutoff as int) == Some(e@),
        },
{
    let mut p: usize = 0;
    while p < cutoff
        invariant
            p <= cutoff <= records@.len(),
            positions_error(records@, bs@, p as int) is None,
        decreases cutoff - p,
    {
        let position = p + 1;
        if covering_batch_exec(bs, position).is_none() {
            proof {
                lemma_positions_error_stable(records@, bs@, position as int, cutoff as int);
            }
            return Err(
                concat(
                    "adjudication has no decision for first-parent position ",
                    usize_to_string(position).as_str(),
                ),
            );
        }
        if records[p].first_parent_position != position {
            let mut m = concat("ledger record at position ", usize_to_string(position).as_str());
            push_str(&mut m, " has first_parent_position ");
            push_str(&mut m, usize_to_string(records[p].first_parent_position).as_str());
            proof {
                lemma_positions_error_stable(records@, bs@, position as int, cutoff as int);
            }
            return Err(m);
        }
        p += 1;
    }
    Ok(())
}

fn review_head_exec(b: &AdjudicationBatch, sha: &str, p: usize) -> (r: String)
    ensures
        r@ == review_head(*b, sha@, p as int),
{
    let mut m = owned("#");
    push_str(&mut m, adjudication_issue_tag(b.review_ref.as_str()).as_str());
    push_str(&mut m, " ");
    push_str(&mut m, b.id.as_str());
    push_str(&mut m, " reviewed commit ");
    push_str(&mut m, sha);
    push_str(&mut m, " at first-parent position ");
    push_str(&mut m, usize_to_string(p).as_str());
    push_str(&mut m, ": ");
    m
}

fn decision_effect_exec(b: &AdjudicationBatch, o: Option<&AdjudicationOverride>, sha: &str, p: usize) -> (r:
    String)
    ensures
        r@ == decision_effect(
            *b,
            match o {
                Some(x) => Some(*x),
                None => None,
            },
            sha@,
            p as int,
        ),
{
    let mut m = review_head_exec(b, sha, p);
    match o {
        Some(o) => {
            push_str(&mut m, "delivered delta: ");
            push_str(&mut m, o.delivered_delta.as_str());
            push_str(&mut m, "; challenged disposition: ");
            push_str(&mut m, o.challenged_disposition.as_str());
            push_str(&mut m, "; accepted disposition: ");
            push_str(&mut m, o.disposition.as_str());
            push_str(&mut m, "; candidate effect: ");
            push_str(&mut m, o.candidate_effect.as_str());
            push_str(&mut m, ".");
        },
        None => {
            push_str(&mut m, b.rationale.as_str());
        },
    }
    m
}

fn decision_limitation_exec(o: Option<&AdjudicationOverride>, owner: &str) -> (r: String)
    ensures
        r@ == decision_limitation(
            match o {
                Some(x) => Some(*x),
                None => None,
            },
            owner@,
        ),
{
    match o {
        Some(o) => {
            let mut m = owned(o.residual_acceptance.as_str());
            push_str(&mut m, " Release non-claim: ");
            push_str(
                &mut m,
                "this provisional disposition does not close the owning issue, prove candidate qualification, or claim source promotion.",
            );
            m
        },
        None => {
            let mut m = owned(
                "This provisional disposition does not close the owning issue, prove candidate qualification, or claim source promotion. Residual acceptance remains with ",
            );
            push_str(&mut m, owner);
            push_str(&mut m, ".");
            m
        },
    }
}

fn decision_review_refs_exec(b: &AdjudicationBatch, o: Option<&AdjudicationOverride>, p: usize) -> (r: Vec<
    String,
>)
    ensures
        views(r@) == decision_review_refs(
            *b,
            match o {
                Some(x) => Some(*x),
                None => None,
            },
            p as int,
        ),
{
    let mut refs: Vec<String> = Vec::new();
    refs.push(owned(b.review_ref.as_str()));
    refs.push(concat("batch:", b.id.as_str()));
    let ghost head = views(refs@);
    match o {
        Some(o) => {
            refs.push(owned(o.review_ref.as_str()));
            assert(views(refs@) =~= head.push(o.review_ref@));
            extend_strings(&mut refs, &o.review_evidence);
            let ghost mid = views(refs@);
            assert(mid == head.push(o.review_ref@) + views(o.review_evidence@));
            let last = concat("override:", usize_to_string(p).as_str());
            let ghost lv = last@;
            refs.push(last);
            assert(views(refs@) =~= mid.push(lv));
            assert(views(refs@) =~= head + (seq![o.review_ref@] + views(o.review_evidence@) + seq![
                "override:"@ + decimal(p as nat),
            ]));
        },
        None => {
            assert(views(refs@) =~= head + Seq::<Seq<char>>::empty());
        },
    }
    refs
}

/// Closes one ledger record at position `p` with its batch's decision, or
/// with the override's when one is given.
pub fn adjudicate_record(
    record: CommitRecord,
    b: &AdjudicationBatch,
    o: Option<&AdjudicationOverride>,
    p: usize,
) -> (r: CommitRecord)
    requires
        o matches Some(x) ==> exclusion_paths_spec(*x) is Ok,
    ensures
        adjudicated_record(
            record,
            r,
            *b,
            match o {
                Some(x) => Some(*x),
                None => None,
            },
            p as int,
        ),
{
    let ghost original = record;
    let mut record = record;
    record.release_disposition = match o {
        Some(x) => owned(x.disposition.as_str()),
        None => owned(b.disposition.as_str()),
    };
    record.candidate_tree_state = match o {
        Some(x) => owned(x.candidate_tree_state.as_str()),
        None => owned(b.candidate_tree_state.as_str()),
    };
    let applied = apply_candidate_only_override(&mut record, o);
    record.review_refs = decision_review_refs_exec(b, o, p);
    let effect = decision_effect_exec(b, o, record.commit_sha.as_str(), p);
    record.source_survivor_or_swarm_exclusion_effect = effect;
    let limitation = decision_limitation_exec(o, record.acceptance_owner.as_str());
    record.limitation_or_operator_decision = limitation;
    record
}

// ---------------------------------------------------------------------------
// Adjudication
// ---------------------------------------------------------------------------

/// The cutoff's first-parent position in the ledger, when it is there.
pub open spec fn cutoff_position(s: Snapshot) -> Option<int> {
    match s.source.provisional_review_cutoff_sha {
        Some(c) => match first_with_sha(s.records@, c@) {
            Some(i) => Some(i + 1),
            None => None,
        },
        None => None,
    }
}

/// Why a manifest cannot adjudicate a ledger, if it cannot; `accepted` is
/// the accepted execution exclusion path set.
pub open spec fn adjudication_error(s: Snapshot, m: AdjudicationManifest, accepted: Seq<Seq<char>>) -> Option<
    Seq<char>,
> {
    if m.schema_version@ != "0.1"@ || m.kind@ != "release_denominator_adjudication"@ {
        Some("denominator adjudication has an unsupported schema or kind"@)
    } else {
        match s.source.provisional_review_cutoff_sha {
            None => Some("input ledger has no provisional review cutoff"@),
            Some(c) => if m.cutoff_sha@ != c@ {
                Some("denominator adjudication cutoff does not match input ledger"@)
            } else {
                match first_with_sha(s.records@, c@) {
                    None => Some("adjudication cutoff "@ + c@ + " is not in the input ledger"@),
                    Some(i) => {
                        let cutoff = i + 1;
                        match batches_error(m.batches@, m.batches@.len() as int, cutoff) {
                            Some(e) => Some(e),
                            None => match overrides_error(
                                m.overrides@,
                                m.overrides@.len() as int,
                                m.batches@,
                                cutoff,
                                accepted,
                            ) {
                                Some(e) => Some(e),
                                None => positions_error(s.records@, m.batches@, cutoff),
                            },
                        }
                    },
                }
            },
        }
    }
}

/// `out` is `s` with every record through the cutoff closed by its batch
/// or override, later records untouched, and the candidate tree projected
/// again from the decisions.
pub open spec fn adjudicated(s: Snapshot, m: AdjudicationManifest, out: Snapshot, cutoff: int) -> bool {
    &&& out.schema_version == s.schema_version
    &&& out.kind == s.kind
    &&& out.captured_at == s.captured_at
    &&& out.records@.len() == s.records@.len()
    &&& forall|i: int|
        0 <= i < s.records@.len() ==> if i < cutoff {
            adjudicated_record(
                #[trigger] s.records@[i],
                out.records@[i],
                m.batches@[covering_batch(m.batches@, i + 1)->0],
                override_at(m.overrides@, i + 1),
                i + 1,
            )
        } else {
            out.records@[i] == s.records@[i]
        }
    &&& out.source.mode == s.source.mode
    &&& out.source.stage == s.source.stage
    &&& out.source.freshness == s.source.freshness
    &&& out.source.historical_base_sha == s.source.historical_base_sha
    &&& out.source.provisional_review_cutoff_sha == s.source.provisional_review_cutoff_sha
    &&& out.source.github_repository == s.source.github_repository
    &&& out.source.candidate_ref == s.source.candidate_ref
    &&& out.source.candidate_sha == s.source.candidate_sha
    &&& out.source.range_commits == s.source.range_commits
    &&& views(out.source.candidate_tree_commits@) == candidate_tree_spec(
        out.records@,
        views(s.source.range_commits@),
    )
}

proof fn lemma_positions_ok(records: Seq<CommitRecord>, bs: Seq<AdjudicationBatch>, n: int, p: int)
    requires
        positions_error(records, bs, n) is None,
        1 <= p <= n,
    ensures
        covering_batch(bs, p) is Some,
        records[p - 1].first_parent_position == p,
    decreases n,
{
    if p < n {
        lemma_positions_ok(records, bs, n - 1, p);
    }
}

proof fn lemma_override_paths_ok(
    os: Seq<AdjudicationOverride>,
    n: int,
    bs: Seq<AdjudicationBatch>,
    cutoff: int,
    accepted: Seq<Seq<char>>,
    k: int,
)
    requires
        overrides_error(os, n, bs, cutoff, accepted) is None,
        0 <= k < n,
    ensures
        exclusion_paths_spec(os[k]) is Ok,
    decreases n,
{
    if k < n - 1 {
        lemma_override_paths_ok(os, n - 1, bs, cutoff, accepted, k);
    } else {
        assert(override_error(os, k, bs, cutoff, accepted) is None);
    }
}

proof fn lemma_first_override_index(os: Seq<AdjudicationOverride>, p: int, n: int)
    requires
        first_override(os, p, n) is Some,
        n <= os.len(),
    ensures
        0 <= first_override(os, p, n)->0 < n,
    decreases n,
{
    if first_override(os, p, n - 1) is Some {
        lemma_first_override_index(os, p, n - 1);
    }
}

proof fn lemma_first_cover_index(bs: Seq<AdjudicationBatch>, p: int, n: int)
    requires
        first_cover(bs, p, n) is Some,
        n <= bs.len(),
    ensures
        0 <= first_cover(bs, p, n)->0 < n,
    decreases n,
{
    if first_cover(bs, p, n - 1) is Some {
        lemma_first_cover_index(bs, p, n - 1);
    }
}

fn apply_decisions(
    records: Vec<CommitRecord>,
    m: &AdjudicationManifest,
    cutoff: usize,
    Ghost(accepted): Ghost<Seq<Seq<char>>>,
) -> (r: Vec<CommitRecord>)
    requires
        cutoff <= records@.len(),
        positions_error(records@, m.batches@, cutoff as int) is None,
        overrides_error(m.overrides@, m.overrides@.len() as int, m.batches@, cutoff as int, accepted)
            is None,
    ensures
        r@.len() == records@.len(),
        forall|i: int|
            0 <= i < records@.len() ==> if i < cutoff {
                adjudicated_record(
                    #[trigger] records@[i],
                    r@[i],
                    m.batches@[covering_batch(m.batches@, i + 1)->0],
                    override_at(m.overrides@, i + 1),
                    i + 1,
                )
            } else {
                r@[i] == records@[i]
            },
{
    let ghost olds = records@;
    let mut records = records;
    let mut i: usize = 0;
    while i < cutoff
        invariant
            i <= cutoff <= olds.len(),
            records@.len() == olds.len(),
            positions_error(olds, m.batches@, cutoff as int) is None,
            overrides_error(m.overrides@, m.overrides@.len() as int, m.batches@, cutoff as int, accepted)
                is None,
            forall|k: int|
                0 <= k < i ==> adjudicated_record(
                    #[trigger] olds[k],
                    records@[k],
                    m.batches@[covering_batch(m.batches@, k + 1)->0],
                    override_at(m.overrides@, k + 1),
                    k + 1,
                ),
            forall|k: int| i <= k < olds.len() ==> #[trigger] records@[k] == olds[k],
        decreases cutoff - i,
    {
        let position = i + 1;
        proof {
            lemma_positions_ok(olds, m.batches@, cutoff as int, position as int);
        }
        let k = match covering_batch_exec(&m.batches, position) {
            Some(k) => k,
            None => {
                return records;
            },
        };
        let o = override_at_exec(&m.overrides, position);
        proof {
            match first_override(m.overrides@, position as int, m.overrides@.len() as int) {
                Some(j) => {
                    lemma_first_override_index(m.overrides@, position as int, m.overrides@.len() as int);
                    lemma_override_paths_ok(
                        m.overrides@,
                        m.overrides@.len() as int,
                        m.batches@,
                        cutoff as int,
                        accepted,
                        j,
                    );
                },
                None => {},
            }
        }
        let record = records.remove(i);
        assert(record == olds[i as int]);
        let updated = adjudicate_record(record, &m.batches[k], o, position);
        records.insert(i, updated);
        i += 1;
    }
    records
}

/// Adjudicates a provisional ledger with a reviewed manifest, given the
/// accepted execution exclusion path set: every record through the
/// provisional cutoff takes its batch's decision, or its override's, and
/// the candidate tree is projected again from those decisions. The first
/// refusal, in the order the checks run, is the error.
pub fn adjudicate(snapshot: Snapshot, manifest: &AdjudicationManifest, accepted: &Vec<String>) -> (r:
    Result<Snapshot, String>)
    ensures
        match r {
            Ok(out) => adjudication_error(snapshot, *manifest, views(accepted@)) is None
                && adjudicated(snapshot, *manifest, out, cutoff_position(snapshot)->0),
            Err(e) => adjudication_error(snapshot, *manifest, views(accepted@)) == Some(e@),
        },
{
    if !str_eq(manifest.schema_version.as_str(), "0.1") || !str_eq(
        manifest.kind.as_str(),
        "release_denominator_adjudication",
    ) {
        return Err(owned("denominator adjudication has an unsupported schema or kind"));
    }
    let cutoff_sha = match &snapshot.source.provisional_review_cutoff_sha {
        None => {
            return Err(owned("input ledger has no provisional review cutoff"));
        },
        Some(c) => owned(c.as_str()),
    };
    if !str_eq(manifest.cutoff_sha.as_str(), cutoff_sha.as_str()) {
        return Err(owned("denominator adjudication cutoff does not match input ledger"));
    }
    let index = match find_sha(&snapshot.records, cutoff_sha.as_str()) {
        None => {
            let mut m = concat("adjudication cutoff ", cutoff_sha.as_str());
            push_str(&mut m, " is not in the input ledger");
            return Err(m);
        },
        Some(i) => i,
    };
    assert(snapshot.records@.len() == snapshot.records.len());
    let cutoff = index + 1;
    validate_batches(&manifest.batches, cutoff)?;
    validate_overrides(&manifest.overrides, &manifest.batches, cutoff, accepted)?;
    check_positions(&snapshot.records, &manifest.batches, cutoff)?;
    let ghost original = snapshot;
    let Snapshot { schema_version, kind, captured_at, source, records } = snapshot;
    let records = apply_decisions(records, manifest, cutoff, Ghost(views(accepted@)));
    let tree = project_candidate_tree(records.as_slice(), source.range_commits.as_slice());
    let source = SnapshotSource {
        mode: source.mode,
        stage: source.stage,
        freshness: source.freshness,
        historical_base_sha: source.historical_base_sha,
        provisional_review_cutoff_sha: source.provisional_review_cutoff_sha,
        github_repository: source.github_repository,
        candidate_ref: source.candidate_ref,
        candidate_sha: source.candidate_sha,
        range_commits: source.range_commits,
        candidate_tree_commits: tree,
    };
    Ok(Snapshot { schema_version, kind, captured_at, source, records })
}

/// The adjudicated ledger is accepted only when its normalized report is
/// ready; otherwise the error lists every reconciliation reason.
pub fn adjudication_outcome(report: &crate::release_denominator::NormalizedReport) -> (r: Result<
    (),
    String,
>)
    ensures
        report.status@ == "ready"@ ==> r is Ok,
        report.status@ != "ready"@ ==> (r matches Err(e) && e@
            == "adjudication produced a non-reconciling ledger: "@ + crate::text::join(
            views(report.reconciliation_reasons@),
            "; "@,
        )),
{
    if str_eq(report.status.as_str(), "ready") {
        Ok(())
    } else {
        let mut m = owned("adjudication produced a non-reconciling ledger: ");
        crate::text::push_joined(&mut m, &report.reconciliation_reasons, "; ");
        Err(m)
    }
}

proof fn lemma_batch_ok(bs: Seq<AdjudicationBatch>, n: int, cutoff: int, k: int)
    requires
        batches_error(bs, n, cutoff) is None,
        0 <= k < n,
    ensures
        batch_error(bs, k, cutoff) is None,
    decreases n,
{
    if k < n - 1 {
        lemma_batch_ok(bs, n - 1, cutoff, k);
    }
}

proof fn lemma_override_ok(
    os: Seq<AdjudicationOverride>,
    n: int,
    bs: Seq<AdjudicationBatch>,
    cutoff: int,
    accepted: Seq<Seq<char>>,
    k: int,
)
    requires
        overrides_error(os, n, bs, cutoff, accepted) is None,
        0 <= k < n,
    ensures
        override_error(os, k, bs, cutoff, accepted) is None,
    decreases n,
{
    if k < n - 1 {
        lemma_override_ok(os, n - 1, bs, cutoff, accepted, k);
    }
}

/// An accepted adjudication leaves no record through the cutoff awaiting
/// an operator decision or a pending candidate-tree state.
pub proof fn law_adjudication_closes_every_record_through_cutoff(
    s: Snapshot,
    m: AdjudicationManifest,
    accepted: Seq<Seq<char>>,
    out: Snapshot,
    i: int,
)
    requires
        adjudication_error(s, m, accepted) is None,
        adjudicated(s, m, out, cutoff_position(s)->0),
        0 <= i < cutoff_position(s)->0,
        i < s.records@.len(),
    ensures
        out.records@[i].release_disposition@ != "operator_decision_required"@,
        out.records@[i].candidate_tree_state@ != "candidate_tree_state_pending"@,
{
    let c = s.source.provisional_review_cutoff_sha->0;
    let cutoff = cutoff_position(s)->0;
    let bs = m.batches@;
    let os = m.overrides@;
    lemma_positions_ok(s.records@, bs, cutoff, i + 1);
    lemma_first_cover_index(bs, i + 1, bs.len() as int);
    let k = covering_batch(bs, i + 1)->0;
    lemma_batch_ok(bs, bs.len() as int, cutoff, k);
    assert(adjudicated_record(s.records@[i], out.records@[i], bs[k], override_at(os, i + 1), i + 1));
    match first_override(os, i + 1, os.len() as int) {
        Some(j) => {
            lemma_first_override_index(os, i + 1, os.len() as int);
            lemma_override_ok(os, os.len() as int, bs, cutoff, accepted, j);
        },
        None => {},
    }
}

/// Records after the cutoff are left exactly as captured.
pub proof fn law_adjudication_leaves_records_after_cutoff(
    s: Snapshot,
    m: AdjudicationManifest,
    out: Snapshot,
    i: int,
)
    requires
        adjudicated(s, m, out, cutoff_position(s)->0),
        0 <= i,
        cutoff_position(s)->0 <= i < s.records@.len(),
    ensures
        out.records@[i] == s.records@[i],
{
}

} // verus!

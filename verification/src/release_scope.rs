//! Candidate-only release scope reconciliation: a captured scope decision
//! is checked against observed git facts and normalized into a report whose
//! status is `ready` only when no reconciliation reason remains.

use vstd::prelude::*;
use crate::release_server::{sha256_hex, hex, sha256_digest};
use crate::text::{
    owned, str_eq, str_less, str_is_blank, str_trim, push_str, views, trim, lines, seq_less,
    lemma_seq_less_irreflexive, lemma_seq_less_transitive, lemma_seq_less_total,
    split_lines, is_ascii_hex, is_ascii_hex_exec, chars_of, concat_all, push_wrapped_items,
    wrapped,
};

verus! {

pub open spec fn expected_outcome() -> Seq<char> {
    "preserve_accepted_0_11"@
}

pub open spec fn expected_non_claim() -> Seq<char> {
    "RIPR 0.11.0 does not execute verification commands and does not issue RepairReceiptV2."@
}

// ---------------------------------------------------------------------------
// Inputs and facts
// ---------------------------------------------------------------------------

/// The candidate tree operation a scope decision asks for.
#[derive(Clone, Debug)]
pub struct CandidateTreeInput {
    pub state: String,
    pub operation: String,
    pub source_history_unchanged: bool,
}

/// A captured scope decision.
#[derive(Clone, Debug)]
pub struct ScopeInput {
    pub schema_version: String,
    pub kind: String,
    pub outcome: String,
    pub candidate_parent_ref: String,
    pub candidate_parent_sha: String,
    pub execution_commit: String,
    pub strictly_dependent_commits: Vec<String>,
    pub execution_only_paths: Vec<String>,
    pub candidate_excluded_paths: Vec<String>,
    pub preserved_paths: Vec<String>,
    pub release_non_claim: String,
    pub issue_2332_state: String,
    pub candidate_tree: CandidateTreeInput,
}

/// What git shows of the repository the decision speaks about.
#[derive(Clone, Debug)]
pub struct GitFacts {
    pub observed_candidate_parent_sha: Option<String>,
    pub execution_commit_is_present: bool,
    pub observed_execution_paths: Vec<String>,
    pub preserved_paths_present: bool,
    pub execution_commit_parents: Vec<String>,
    pub missing_dependent_commits: Vec<String>,
}

// ---------------------------------------------------------------------------
// Arguments
// ---------------------------------------------------------------------------

pub open spec fn scope_usage() -> Seq<char> {
    "usage: cargo xtask release-scope --input <scope.json>"@
}

/// The input path of `release-scope --input <path>`: exactly two arguments,
/// the first `--input`, the second not blank.
pub fn parse_input_path(args: &[String]) -> (r: Result<String, String>)
    ensures
        match r {
            Ok(p) => args@.len() == 2 && args@[0]@ == "--input"@ && trim(args@[1]@).len() != 0
                && p@ == args@[1]@,
            Err(e) => !(args@.len() == 2 && args@[0]@ == "--input"@ && trim(args@[1]@).len()
                != 0) && e@ == scope_usage(),
        },
{
    if args.len() != 2 || !str_eq(args[0].as_str(), "--input") || str_is_blank(args[1].as_str()) {
        return Err(owned("usage: cargo xtask release-scope --input <scope.json>"));
    }
    Ok(owned(args[1].as_str()))
}

// ---------------------------------------------------------------------------
// Sorted inventories
// ---------------------------------------------------------------------------

/// `x` inserted into the sorted, duplicate-free `r` (unchanged when present).
pub open spec fn insert_sorted(r: Seq<Seq<char>>, x: Seq<char>) -> Seq<Seq<char>>
    decreases r.len(),
{
    if r.len() == 0 {
        seq![x]
    } else if r[0] == x {
        r
    } else if seq_less(x, r[0]) {
        seq![x] + r
    } else {
        seq![r[0]] + insert_sorted(r.drop_first(), x)
    }
}

/// The distinct values in ascending order (a `BTreeSet` walked in order).
pub open spec fn sorted_unique_spec(s: Seq<Seq<char>>) -> Seq<Seq<char>>
    decreases s.len(),
{
    if s.len() == 0 {
        seq![]
    } else {
        insert_sorted(sorted_unique_spec(s.drop_last()), s.last())
    }
}

proof fn lemma_insert_at(r: Seq<Seq<char>>, x: Seq<char>, i: int)
    requires
        0 <= i <= r.len(),
        forall|j: int| 0 <= j < i ==> r[j] != x && !seq_less(x, #[trigger] r[j]),
    ensures
        insert_sorted(r, x) == r.take(i) + insert_sorted(r.skip(i), x),
    decreases i,
{
    if i == 0 {
        assert(r.skip(0) =~= r);
        assert(r.take(0) + insert_sorted(r.skip(0), x) =~= insert_sorted(r, x));
    } else {
        let t = r.drop_first();
        assert forall|j: int| 0 <= j < i - 1 implies t[j] != x && !seq_less(x, #[trigger] t[j]) by {
            assert(t[j] == r[j + 1]);
        }
        lemma_insert_at(t, x, i - 1);
        assert(r[0] != x && !seq_less(x, r[0]));
        assert(t.skip(i - 1) =~= r.skip(i));
        assert(seq![r[0]] + t.take(i - 1) =~= r.take(i));
        assert(seq![r[0]] + (t.take(i - 1) + insert_sorted(r.skip(i), x)) =~= r.take(i)
            + insert_sorted(r.skip(i), x));
    }
}

fn insert_sorted_exec(r: &mut Vec<String>, x: &str)
    ensures
        views(final(r)@) == insert_sorted(views(old(r)@), x@),
{
    let ghost v = views(r@);
    let mut i: usize = 0;
    while i < r.len() && !str_eq(r[i].as_str(), x) && !str_less(x, r[i].as_str())
        invariant
            i <= r@.len(),
            v == views(r@),
            v.len() == r@.len(),
            forall|j: int| 0 <= j < i ==> v[j] != x@ && !seq_less(x@, #[trigger] v[j]),
        decreases r.len() - i,
    {
        assert(v[i as int] == r@[i as int]@);
        i += 1;
    }
    proof {
        lemma_insert_at(v, x@, i as int);
    }
    if i < r.len() {
        assert(v.skip(i as int)[0] == v[i as int]);
        assert(v[i as int] == r@[i as int]@);
        if str_eq(r[i].as_str(), x) {
            assert(insert_sorted(v.skip(i as int), x@) == v.skip(i as int));
            assert(v.take(i as int) + v.skip(i as int) =~= v);
            return;
        }
        assert(insert_sorted(v.skip(i as int), x@) == seq![x@] + v.skip(i as int));
        let ghost before = r@;
        let item = owned(x);
        r.insert(i, item);
        assert(r@ == before.insert(i as int, item));
        assert(views(r@) =~= v.take(i as int) + (seq![x@] + v.skip(i as int)));
    } else {
        let ghost before = r@;
        r.push(owned(x));
        assert(v.skip(i as int) =~= Seq::<Seq<char>>::empty());
        assert(insert_sorted(v.skip(i as int), x@) == seq![x@]);
        assert(views(r@) =~= v.take(i as int) + seq![x@]);
    }
}

/// The distinct values, in ascending order.
pub fn sorted_unique(values: &[String]) -> (r: Vec<String>)
    ensures
        views(r@) == sorted_unique_spec(views(values@)),
{
    let ghost s = views(values@);
    let mut r: Vec<String> = Vec::new();
    let mut i: usize = 0;
    assert(s.take(0) =~= Seq::<Seq<char>>::empty());
    while i < values.len()
        invariant
            i <= values@.len(),
            s == views(values@),
            views(r@) == sorted_unique_spec(s.take(i as int)),
        decreases values.len() - i,
    {
        insert_sorted_exec(&mut r, values[i].as_str());
        assert(s.take(i + 1).drop_last() =~= s.take(i as int));
        assert(s.take(i + 1).last() == values@[i as int]@);
        i += 1;
    }
    assert(s.take(values@.len() as int) =~= s);
    r
}

/// Whether some value occurs twice.
pub fn has_duplicates(values: &[String]) -> (r: bool)
    ensures
        r == !views(values@).no_duplicates(),
{
    let ghost s = views(values@);
    let mut i: usize = 0;
    while i < values.len()
        invariant
            i <= values@.len(),
            s == views(values@),
            s.len() == values@.len(),
            forall|a: int, b: int| 0 <= a < b < s.len() && a < i ==> s[a] != s[b],
        decreases values.len() - i,
    {
        let mut j: usize = i + 1;
        while j < values.len()
            invariant
                i < j <= values@.len(),
                s == views(values@),
                s.len() == values@.len(),
                forall|a: int, b: int| 0 <= a < b < s.len() && a < i ==> s[a] != s[b],
                forall|b: int| i < b < j ==> s[i as int] != s[b],
            decreases values.len() - j,
        {
            assert(s[i as int] == values@[i as int]@ && s[j as int] == values@[j as int]@);
            if str_eq(values[i].as_str(), values[j].as_str()) {
                return true;
            }
            j += 1;
        }
        i += 1;
    }
    false
}

/// A full 40-digit hex commit name.
pub open spec fn is_sha_spec(value: Seq<char>) -> bool {
    value.len() == 40 && forall|i: int| 0 <= i < value.len() ==> is_ascii_hex(#[trigger] value[i])
}

/// Whether `value` is a full 40-hex commit SHA.
pub fn is_sha(value: &str) -> (r: bool)
    ensures
        r == is_sha_spec(value@),
{
    let v = chars_of(value);
    if v.len() != 40 {
        return false;
    }
    let mut i: usize = 0;
    while i < v.len()
        invariant
            i <= v@.len(),
            v@ == value@,
            forall|j: int| 0 <= j < i ==> is_ascii_hex(#[trigger] v@[j]),
        decreases v.len() - i,
    {
        if !is_ascii_hex_exec(v[i]) {
            return false;
        }
        i += 1;
    }
    true
}

/// The non-blank lines of a git command's output, trimmed; nothing when
/// the command failed.
pub open spec fn nonblank_lines(ls: Seq<Seq<char>>) -> Seq<Seq<char>>
    decreases ls.len(),
{
    if ls.len() == 0 {
        seq![]
    } else {
        let rest = nonblank_lines(ls.drop_last());
        if trim(ls.last()).len() == 0 {
            rest
        } else {
            rest.push(trim(ls.last()))
        }
    }
}

/// The trimmed, non-blank lines of a git output (none when git failed).
pub fn git_output_lines(output: Option<String>) -> (r: Vec<String>)
    ensures
        views(r@) == match output {
            Some(o) => nonblank_lines(lines(o@)),
            None => Seq::<Seq<char>>::empty(),
        },
{
    match output {
        None => Vec::new(),
        Some(o) => {
            let ls = split_lines(o.as_str());
            let ghost all = ls@.map_values(|l: String| l@);
            let mut r: Vec<String> = Vec::new();
            let mut i: usize = 0;
            assert(all.take(0) =~= Seq::<Seq<char>>::empty());
            while i < ls.len()
                invariant
                    i <= ls@.len(),
                    all == ls@.map_values(|l: String| l@),
                    views(r@) == nonblank_lines(all.take(i as int)),
                decreases ls.len() - i,
            {
                assert(all.take(i + 1).drop_last() =~= all.take(i as int));
                assert(all.take(i + 1).last() == ls@[i as int]@);
                let t = str_trim(ls[i].as_str());
                if chars_of(t.as_str()).len() != 0 {
                    let ghost before = r@;
                    r.push(t);
                    assert(views(r@) =~= views(before).push(trim(ls@[i as int]@)));
                }
                i += 1;
            }
            assert(all.take(ls@.len() as int) =~= all);
            r
        },
    }
}

// ---------------------------------------------------------------------------
// The report
// ---------------------------------------------------------------------------

#[derive(Clone, Debug)]
pub struct DecisionReport {
    pub outcome: String,
    pub issue_2332_state: String,
    pub release_non_claim: String,
    pub decision_digest: String,
}

#[derive(Clone, Debug)]
pub struct SourceReport {
    pub candidate_parent_ref: String,
    pub candidate_parent_sha: String,
    pub observed_candidate_parent_sha: Option<String>,
    pub execution_commit: String,
    pub execution_commit_parents: Vec<String>,
    pub strictly_dependent_commits: Vec<String>,
    pub execution_only_paths: Vec<String>,
    pub observed_execution_paths: Vec<String>,
    pub preserved_paths: Vec<String>,
}

#[derive(Clone, Debug)]
pub struct CandidateTreeReport {
    pub state: String,
    pub operation: String,
    pub source_history_unchanged: bool,
    pub excluded_commit: String,
    pub excluded_paths: Vec<String>,
    pub candidate_tree_constructed: bool,
}

#[derive(Clone, Copy, Debug, PartialEq, Eq)]
pub struct ChecksReport {
    pub outcome_is_explicit: bool,
    pub execution_commit_is_present: bool,
    pub execution_paths_match_commit: bool,
    pub exclusion_is_complete: bool,
    pub preserved_paths_are_outside_exclusion: bool,
    pub candidate_parent_is_current: bool,
    pub issue_2332_remains_open: bool,
    pub candidate_tree_is_not_claimed: bool,
}

/// The normalized release scope report.
#[derive(Clone, Debug)]
pub struct ScopeReport {
    pub schema_version: String,
    pub kind: String,
    pub status: String,
    pub decision: DecisionReport,
    pub source: SourceReport,
    pub candidate_tree_delta: CandidateTreeReport,
    pub checks: ChecksReport,
    pub reconciliation_reasons: Vec<String>,
    pub authority_boundary: String,
    pub must_not_claim: Vec<String>,
}

pub open spec fn reason_if(b: bool, m: Seq<char>) -> Seq<Seq<char>> {
    if b {
        seq![m]
    } else {
        seq![]
    }
}

pub open spec fn opt_seq(o: Option<String>) -> Option<Seq<char>> {
    match o {
        Some(s) => Some(s@),
        None => None,
    }
}

pub open spec fn parent_is_current(i: ScopeInput, f: GitFacts) -> bool {
    is_sha_spec(i.candidate_parent_sha@) && opt_seq(f.observed_candidate_parent_sha) == Some(
        i.candidate_parent_sha@,
    )
}

pub open spec fn paths_match(i: ScopeInput, f: GitFacts) -> bool {
    sorted_unique_spec(views(i.execution_only_paths@)) == sorted_unique_spec(
        views(f.observed_execution_paths@),
    ) && sorted_unique_spec(views(i.execution_only_paths@)).len() > 0
}

pub open spec fn exclusion_complete(i: ScopeInput) -> bool {
    sorted_unique_spec(views(i.candidate_excluded_paths@)) == sorted_unique_spec(
        views(i.execution_only_paths@),
    ) && sorted_unique_spec(views(i.candidate_excluded_paths@)).len() > 0
}

pub open spec fn preserved_outside(i: ScopeInput, f: GitFacts) -> bool {
    f.preserved_paths_present && forall|k: int|
        0 <= k < i.preserved_paths@.len() ==> !sorted_unique_spec(
            views(i.candidate_excluded_paths@),
        ).contains(#[trigger] i.preserved_paths@[k]@)
}

/// The reasons the decision cannot be accepted as captured, in order.
pub open spec fn decision_reasons(i: ScopeInput) -> Seq<Seq<char>> {
    reason_if(
        i.schema_version@ != "0.1"@,
        "unsupported scope schema `"@ + i.schema_version@ + "`; expected `0.1`"@,
    ) + reason_if(i.kind@ != "release_execution_scope"@, "input kind is not release_execution_scope"@)
        + reason_if(
        i.outcome@ != expected_outcome(),
        "outcome `"@ + i.outcome@ + "` is not the accepted 0.11 preservation decision"@,
    ) + reason_if(
        i.issue_2332_state@ != "open"@,
        "#2332 must remain open for undelivered execution acceptance"@,
    ) + reason_if(
        i.release_non_claim@ != expected_non_claim(),
        "release non-claim does not match the accepted authority"@,
    ) + reason_if(
        i.candidate_tree.state@ != "candidate_only_exclusion"@,
        "candidate tree state must be candidate_only_exclusion"@,
    ) + reason_if(
        i.candidate_tree.operation@ != "exclude_commit_paths"@,
        "candidate tree operation must be exclude_commit_paths"@,
    ) + reason_if(
        !i.candidate_tree.source_history_unchanged,
        "candidate-only scope must preserve development history"@,
    )
}

pub open spec fn dependent_reason(d: Seq<char>) -> Seq<char> {
    "dependent commit `"@ + d + "` is not present"@
}

/// The reasons the observed repository contradicts the decision.
pub open spec fn fact_reasons(i: ScopeInput, f: GitFacts) -> Seq<Seq<char>> {
    reason_if(
        !f.execution_commit_is_present,
        "execution commit `"@ + i.execution_commit@ + "` is not present"@,
    ) + views(f.missing_dependent_commits@).map_values(|d: Seq<char>| dependent_reason(d))
        + reason_if(
        !parent_is_current(i, f),
        "candidate parent `"@ + i.candidate_parent_ref@ + "` is stale or unavailable; expected "@
            + i.candidate_parent_sha@,
    )
}

/// The reasons the inventories are inconsistent.
pub open spec fn inventory_reasons(i: ScopeInput, f: GitFacts) -> Seq<Seq<char>> {
    reason_if(
        !views(i.execution_only_paths@).no_duplicates(),
        "execution-only path inventory contains duplicates"@,
    ) + reason_if(
        !views(i.candidate_excluded_paths@).no_duplicates(),
        "candidate exclusion path inventory contains duplicates"@,
    ) + reason_if(
        !views(i.preserved_paths@).no_duplicates(),
        "preserved path inventory contains duplicates"@,
    ) + reason_if(
        !views(i.strictly_dependent_commits@).no_duplicates(),
        "strictly dependent commits inventory contains duplicates"@,
    ) + reason_if(
        !paths_match(i, f),
        "execution-only path inventory does not match the named commit"@,
    ) + reason_if(
        !exclusion_complete(i),
        "candidate exclusion does not cover the complete execution surface"@,
    ) + reason_if(
        !preserved_outside(i, f),
        "preserved provenance/static-assurance paths are missing or excluded"@,
    )
}

pub open spec fn scope_reasons(i: ScopeInput, f: GitFacts) -> Seq<Seq<char>> {
    decision_reasons(i) + fact_reasons(i, f) + inventory_reasons(i, f)
}

pub open spec fn must_not_claim_spec() -> Seq<Seq<char>> {
    seq![
        "candidate qualification"@,
        "verification command execution"@,
        "RepairReceiptV2 issuance"@,
        "merge approval"@,
        "release publication"@,
    ]
}

pub fn push_when(v: &mut Vec<String>, b: bool, m: String)
    ensures
        views(final(v)@) == views(old(v)@) + reason_if(b, m@),
{
    let ghost before = v@;
    if b {
        v.push(m);
        assert(views(v@) =~= views(before) + seq![m@]);
    } else {
        assert(views(v@) =~= views(before) + Seq::<Seq<char>>::empty());
    }
}

fn concat3(a: &str, b: &str, c: &str) -> (r: String)
    ensures
        r@ == a@ + b@ + c@,
{
    crate::text::concat3(a, b, c)
}

fn decision_reason_list(i: &ScopeInput) -> (r: Vec<String>)
    ensures
        views(r@) == decision_reasons(*i),
{
    let mut list: Vec<String> = Vec::new();
    let v = &mut list;
    push_when(
        v,
        !str_eq(i.schema_version.as_str(), "0.1"),
        concat3("unsupported scope schema `", i.schema_version.as_str(), "`; expected `0.1`"),
    );
    assert(views(v@) =~= reason_if(
        i.schema_version@ != "0.1"@,
        "unsupported scope schema `"@ + i.schema_version@ + "`; expected `0.1`"@,
    ));
    push_when(
        v,
        !str_eq(i.kind.as_str(), "release_execution_scope"),
        owned("input kind is not release_execution_scope"),
    );
    push_when(
        v,
        !str_eq(i.outcome.as_str(), "preserve_accepted_0_11"),
        concat3("outcome `", i.outcome.as_str(), "` is not the accepted 0.11 preservation decision"),
    );
    push_when(
        v,
        !str_eq(i.issue_2332_state.as_str(), "open"),
        owned("#2332 must remain open for undelivered execution acceptance"),
    );
    push_when(
        v,
        !str_eq(
            i.release_non_claim.as_str(),
            "RIPR 0.11.0 does not execute verification commands and does not issue RepairReceiptV2.",
        ),
        owned("release non-claim does not match the accepted authority"),
    );
    push_when(
        v,
        !str_eq(i.candidate_tree.state.as_str(), "candidate_only_exclusion"),
        owned("candidate tree state must be candidate_only_exclusion"),
    );
    push_when(
        v,
        !str_eq(i.candidate_tree.operation.as_str(), "exclude_commit_paths"),
        owned("candidate tree operation must be exclude_commit_paths"),
    );
    push_when(
        v,
        !i.candidate_tree.source_history_unchanged,
        owned("candidate-only scope must preserve development history"),
    );
    list
}

fn opt_str_eq(o: &Option<String>, s: &str) -> (r: bool)
    ensures
        r == (opt_seq(*o) == Some(s@)),
{
    match o {
        Some(x) => str_eq(x.as_str(), s),
        None => false,
    }
}

fn fact_reason_list(i: &ScopeInput, f: &GitFacts) -> (r: (Vec<String>, bool))
    ensures
        views(r.0@) == fact_reasons(*i, *f),
        r.1 == parent_is_current(*i, *f),
{
    let mut list: Vec<String> = Vec::new();
    let v = &mut list;
    push_when(
        v,
        !f.execution_commit_is_present,
        concat3("execution commit `", i.execution_commit.as_str(), "` is not present"),
    );
    assert(views(v@) =~= reason_if(
        !f.execution_commit_is_present,
        "execution commit `"@ + i.execution_commit@ + "` is not present"@,
    ));
    let ghost mid = views(v@);
    let ghost deps = views(f.missing_dependent_commits@).map_values(
        |d: Seq<char>| dependent_reason(d),
    );
    let mut k: usize = 0;
    while k < f.missing_dependent_commits.len()
        invariant
            k <= f.missing_dependent_commits@.len(),
            deps == views(f.missing_dependent_commits@).map_values(
                |d: Seq<char>| dependent_reason(d),
            ),
            views(v@) == mid + deps.take(k as int),
        decreases f.missing_dependent_commits.len() - k,
    {
        let ghost before = v@;
        v.push(
            concat3("dependent commit `", f.missing_dependent_commits[k].as_str(), "` is not present"),
        );
        assert(views(v@) =~= views(before).push(deps[k as int]));
        assert(deps.take(k + 1) =~= deps.take(k as int).push(deps[k as int]));
        k += 1;
    }
    assert(deps.take(deps.len() as int) =~= deps);
    let current = is_sha(i.candidate_parent_sha.as_str()) && opt_str_eq(
        &f.observed_candidate_parent_sha,
        i.candidate_parent_sha.as_str(),
    );
    let mut m = concat3(
        "candidate parent `",
        i.candidate_parent_ref.as_str(),
        "` is stale or unavailable; expected ",
    );
    push_str(&mut m, i.candidate_parent_sha.as_str());
    push_when(v, !current, m);
    (list, current)
}

fn vec_eq(a: &Vec<String>, b: &Vec<String>) -> (r: bool)
    ensures
        r == (views(a@) == views(b@)),
{
    if a.len() != b.len() {
        assert(views(a@).len() != views(b@).len());
        return false;
    }
    let mut i: usize = 0;
    while i < a.len()
        invariant
            i <= a@.len(),
            a@.len() == b@.len(),
            forall|j: int| 0 <= j < i ==> views(a@)[j] == views(b@)[j],
        decreases a.len() - i,
    {
        if !str_eq(a[i].as_str(), b[i].as_str()) {
            assert(views(a@)[i as int] != views(b@)[i as int]);
            return false;
        }
        i += 1;
    }
    assert(views(a@) =~= views(b@));
    true
}

fn vec_contains(v: &Vec<String>, x: &str) -> (r: bool)
    ensures
        r == views(v@).contains(x@),
{
    let mut i: usize = 0;
    while i < v.len()
        invariant
            i <= v@.len(),
            forall|j: int| 0 <= j < i ==> views(v@)[j] != x@,
        decreases v.len() - i,
    {
        if str_eq(v[i].as_str(), x) {
            assert(views(v@)[i as int] == x@);
            return true;
        }
        i += 1;
    }
    false
}

/// The computed checks of a decision against the facts (the tree is never
/// constructed here).
pub open spec fn scope_checks(i: ScopeInput, f: GitFacts) -> ChecksReport {
    ChecksReport {
        outcome_is_explicit: i.outcome@ == expected_outcome(),
        execution_commit_is_present: f.execution_commit_is_present,
        execution_paths_match_commit: paths_match(i, f),
        exclusion_is_complete: exclusion_complete(i),
        preserved_paths_are_outside_exclusion: preserved_outside(i, f),
        candidate_parent_is_current: parent_is_current(i, f),
        issue_2332_remains_open: i.issue_2332_state@ == "open"@,
        candidate_tree_is_not_claimed: true,
    }
}

fn inventory_reason_list(i: &ScopeInput, f: &GitFacts) -> (r: (Vec<String>, (bool, bool, bool)))
    ensures
        views(r.0@) == inventory_reasons(*i, *f),
        r.1 == (paths_match(*i, *f), exclusion_complete(*i), preserved_outside(*i, *f)),
{
    let mut list: Vec<String> = Vec::new();
    let v = &mut list;
    push_when(
        v,
        has_duplicates(i.execution_only_paths.as_slice()),
        owned("execution-only path inventory contains duplicates"),
    );
    assert(views(v@) =~= reason_if(
        !views(i.execution_only_paths@).no_duplicates(),
        "execution-only path inventory contains duplicates"@,
    ));
    push_when(
        v,
        has_duplicates(i.candidate_excluded_paths.as_slice()),
        owned("candidate exclusion path inventory contains duplicates"),
    );
    push_when(
        v,
        has_duplicates(i.preserved_paths.as_slice()),
        owned("preserved path inventory contains duplicates"),
    );
    push_when(
        v,
        has_duplicates(i.strictly_dependent_commits.as_slice()),
        owned("strictly dependent commits inventory contains duplicates"),
    );
    let expected = sorted_unique(i.execution_only_paths.as_slice());
    let observed = sorted_unique(f.observed_execution_paths.as_slice());
    let matches = vec_eq(&expected, &observed) && expected.len() > 0;
    push_when(v, !matches, owned("execution-only path inventory does not match the named commit"));
    let exclusion = sorted_unique(i.candidate_excluded_paths.as_slice());
    let complete = vec_eq(&exclusion, &expected) && exclusion.len() > 0;
    push_when(
        v,
        !complete,
        owned("candidate exclusion does not cover the complete execution surface"),
    );
    let mut outside = f.preserved_paths_present;
    let mut k: usize = 0;
    while k < i.preserved_paths.len()
        invariant
            k <= i.preserved_paths@.len(),
            views(exclusion@) == sorted_unique_spec(views(i.candidate_excluded_paths@)),
            outside == (f.preserved_paths_present && forall|j: int|
                0 <= j < k ==> !sorted_unique_spec(views(i.candidate_excluded_paths@)).contains(
                    #[trigger] i.preserved_paths@[j]@,
                )),
        decreases i.preserved_paths.len() - k,
    {
        if vec_contains(&exclusion, i.preserved_paths[k].as_str()) {
            outside = false;
        }
        k += 1;
    }
    push_when(
        v,
        !outside,
        owned("preserved provenance/static-assurance paths are missing or excluded"),
    );
    (list, (matches, complete, outside))
}

fn append_all(a: &mut Vec<String>, b: Vec<String>)
    ensures
        views(final(a)@) == views(old(a)@) + views(b@),
{
    let mut i: usize = 0;
    let ghost start = views(a@);
    while i < b.len()
        invariant
            i <= b@.len(),
            views(a@) == start + views(b@).take(i as int),
        decreases b.len() - i,
    {
        let ghost before = a@;
        a.push(owned(b[i].as_str()));
        assert(views(a@) =~= views(before).push(b@[i as int]@));
        assert(views(b@).take(i + 1) =~= views(b@).take(i as int).push(b@[i as int]@));
        i += 1;
    }
    assert(views(b@).take(b@.len() as int) =~= views(b@));
}

/// The prefixed digest of the canonical decision bytes.
pub open spec fn digest_of(bytes: Seq<u8>) -> Seq<char> {
    "sha256:"@ + hex(sha256_digest(bytes))
}

#[verifier::rlimit(30)]
/// Builds the report for a decision, the observed facts, and the canonical
/// serialized decision (path and commit lists sorted) whose digest the
/// report records.
pub fn build_report_with_facts(input: &ScopeInput, facts: GitFacts, canonical_decision: &[u8]) -> (r:
    ScopeReport)
    ensures
        views(r.reconciliation_reasons@) == scope_reasons(*input, facts),
        r.status@ == (if scope_reasons(*input, facts).len() == 0 {
            "ready"@
        } else {
            "reconcile_required"@
        }),
        r.checks == scope_checks(*input, facts),
        r.schema_version@ == "0.1"@,
        r.kind@ == "release-scope"@,
        r.authority_boundary@ == "candidate_scope_decision_only"@,
        views(r.must_not_claim@) == must_not_claim_spec(),
        r.decision.outcome@ == input.outcome@,
        r.decision.issue_2332_state@ == input.issue_2332_state@,
        r.decision.release_non_claim@ == input.release_non_claim@,
        r.decision.decision_digest@ == digest_of(canonical_decision@),
        r.source.candidate_parent_ref@ == input.candidate_parent_ref@,
        r.source.candidate_parent_sha@ == input.candidate_parent_sha@,
        opt_seq(r.source.observed_candidate_parent_sha) == opt_seq(
            facts.observed_candidate_parent_sha,
        ),
        r.source.execution_commit@ == input.execution_commit@,
        r.source.execution_commit_parents@ == facts.execution_commit_parents@,
        views(r.source.strictly_dependent_commits@) == sorted_unique_spec(
            views(input.strictly_dependent_commits@),
        ),
        views(r.source.execution_only_paths@) == sorted_unique_spec(
            views(input.execution_only_paths@),
        ),
        views(r.source.observed_execution_paths@) == sorted_unique_spec(
            views(facts.observed_execution_paths@),
        ),
        views(r.source.preserved_paths@) == sorted_unique_spec(views(input.preserved_paths@)),
        r.candidate_tree_delta.state@ == input.candidate_tree.state@,
        r.candidate_tree_delta.operation@ == input.candidate_tree.operation@,
        r.candidate_tree_delta.source_history_unchanged
            == input.candidate_tree.source_history_unchanged,
        r.candidate_tree_delta.excluded_commit@ == input.execution_commit@,
        views(r.candidate_tree_delta.excluded_paths@) == sorted_unique_spec(
            views(input.candidate_excluded_paths@),
        ),
        !r.candidate_tree_delta.candidate_tree_constructed,
{
    let mut reasons = decision_reason_list(input);
    let (fact_list, current) = fact_reason_list(input, &facts);
    append_all(&mut reasons, fact_list);
    let (inventory_list, (matches, complete, outside)) = inventory_reason_list(input, &facts);
    append_all(&mut reasons, inventory_list);
    let mut digest = owned("sha256:");
    let h = sha256_hex(canonical_decision);
    push_str(&mut digest, h.as_str());
    let status = if reasons.len() == 0 {
        owned("ready")
    } else {
        owned("reconcile_required")
    };
    let mut must_not_claim: Vec<String> = Vec::new();
    must_not_claim.push(owned("candidate qualification"));
    must_not_claim.push(owned("verification command execution"));
    must_not_claim.push(owned("RepairReceiptV2 issuance"));
    must_not_claim.push(owned("merge approval"));
    must_not_claim.push(owned("release publication"));
    assert(views(must_not_claim@) =~= must_not_claim_spec());
    let checks = ChecksReport {
        outcome_is_explicit: str_eq(input.outcome.as_str(), "preserve_accepted_0_11"),
        execution_commit_is_present: facts.execution_commit_is_present,
        execution_paths_match_commit: matches,
        exclusion_is_complete: complete,
        preserved_paths_are_outside_exclusion: outside,
        candidate_parent_is_current: current,
        issue_2332_remains_open: str_eq(input.issue_2332_state.as_str(), "open"),
        candidate_tree_is_not_claimed: true,
    };
    let observed_parent = match &facts.observed_candidate_parent_sha {
        Some(s) => Some(owned(s.as_str())),
        None => None,
    };
    ScopeReport {
        schema_version: owned("0.1"),
        kind: owned("release-scope"),
        status,
        decision: DecisionReport {
            outcome: owned(input.outcome.as_str()),
            issue_2332_state: owned(input.issue_2332_state.as_str()),
            release_non_claim: owned(input.release_non_claim.as_str()),
            decision_digest: digest,
        },
        source: SourceReport {
            candidate_parent_ref: owned(input.candidate_parent_ref.as_str()),
            candidate_parent_sha: owned(input.candidate_parent_sha.as_str()),
            observed_candidate_parent_sha: observed_parent,
            execution_commit: owned(input.execution_commit.as_str()),
            execution_commit_parents: facts.execution_commit_parents,
            strictly_dependent_commits: sorted_unique(input.strictly_dependent_commits.as_slice()),
            execution_only_paths: sorted_unique(input.execution_only_paths.as_slice()),
            observed_execution_paths: sorted_unique(facts.observed_execution_paths.as_slice()),
            preserved_paths: sorted_unique(input.preserved_paths.as_slice()),
        },
        candidate_tree_delta: CandidateTreeReport {
            state: owned(input.candidate_tree.state.as_str()),
            operation: owned(input.candidate_tree.operation.as_str()),
            source_history_unchanged: input.candidate_tree.source_history_unchanged,
            excluded_commit: owned(input.execution_commit.as_str()),
            excluded_paths: sorted_unique(input.candidate_excluded_paths.as_slice()),
            candidate_tree_constructed: false,
        },
        checks,
        reconciliation_reasons: reasons,
        authority_boundary: owned("candidate_scope_decision_only"),
        must_not_claim,
    }
}

/// A report is `ready` only when every check it records holds.
pub proof fn law_ready_means_every_check_holds(i: ScopeInput, f: GitFacts)
    requires
        scope_reasons(i, f).len() == 0,
    ensures
        scope_checks(i, f).outcome_is_explicit,
        scope_checks(i, f).execution_commit_is_present,
        scope_checks(i, f).execution_paths_match_commit,
        scope_checks(i, f).exclusion_is_complete,
        scope_checks(i, f).preserved_paths_are_outside_exclusion,
        scope_checks(i, f).candidate_parent_is_current,
        scope_checks(i, f).issue_2332_remains_open,
        f.missing_dependent_commits@.len() == 0,
        views(i.execution_only_paths@).no_duplicates(),
        views(i.candidate_excluded_paths@).no_duplicates(),
        views(i.preserved_paths@).no_duplicates(),
        views(i.strictly_dependent_commits@).no_duplicates(),
{
    assert(decision_reasons(i).len() == 0);
    assert(fact_reasons(i, f).len() == 0);
    assert(inventory_reasons(i, f).len() == 0);
    assert(views(f.missing_dependent_commits@).len() == 0);
}

// ---------------------------------------------------------------------------
// Markdown
// ---------------------------------------------------------------------------

pub open spec fn bool_text(b: bool) -> Seq<char> {
    if b {
        "true"@
    } else {
        "false"@
    }
}

pub open spec fn scope_markdown(r: ScopeReport) -> Seq<char> {
    "# Release execution scope\n\n- Status: `"@ + r.status@ + "`\n- Outcome: `"@
        + r.decision.outcome@ + "`\n- Candidate parent: `"@ + r.source.candidate_parent_ref@
        + "` (`"@ + r.source.candidate_parent_sha@ + "`)\n- Execution commit: `"@
        + r.source.execution_commit@ + "`\n- Decision digest: `"@ + r.decision.decision_digest@
        + "`\n\n"@ + "## Candidate-only decision\n\n"@
        + "The accepted 0.11 verification non-claim remains in force. "@
        + r.decision.release_non_claim@ + "\n\n"@ + "## Exclusion\n\n"@ + "- State: `"@
        + r.candidate_tree_delta.state@ + "`\n- Operation: `"@ + r.candidate_tree_delta.operation@
        + "`\n- Commit: `"@ + r.candidate_tree_delta.excluded_commit@ + "`\n- Constructed here: `"@
        + bool_text(r.candidate_tree_delta.candidate_tree_constructed) + "`\n\n"@
        + "## Reconciliation\n\n"@ + (if r.reconciliation_reasons@.len() == 0 {
        "All captured scope checks passed.\n\n"@
    } else {
        concat_all(wrapped(views(r.reconciliation_reasons@), "- "@, "\n"@)) + "\n"@
    }) + "## Must not claim\n\n"@ + concat_all(wrapped(views(r.must_not_claim@), "- "@, "\n"@))
}

fn push_scope_head(out: &mut String, r: &ScopeReport)
    ensures
        final(out)@ == old(out)@ + "# Release execution scope\n\n- Status: `"@ + r.status@
            + "`\n- Outcome: `"@ + r.decision.outcome@ + "`\n- Candidate parent: `"@
            + r.source.candidate_parent_ref@ + "` (`"@ + r.source.candidate_parent_sha@
            + "`)\n- Execution commit: `"@ + r.source.execution_commit@ + "`\n- Decision digest: `"@
            + r.decision.decision_digest@ + "`\n\n"@,
{
    push_str(out, "# Release execution scope\n\n- Status: `");
    push_str(out, r.status.as_str());
    push_str(out, "`\n- Outcome: `");
    push_str(out, r.decision.outcome.as_str());
    push_str(out, "`\n- Candidate parent: `");
    push_str(out, r.source.candidate_parent_ref.as_str());
    push_str(out, "` (`");
    push_str(out, r.source.candidate_parent_sha.as_str());
    push_str(out, "`)\n- Execution commit: `");
    push_str(out, r.source.execution_commit.as_str());
    push_str(out, "`\n- Decision digest: `");
    push_str(out, r.decision.decision_digest.as_str());
    push_str(out, "`\n\n");
}

/// Renders the scope report as Markdown.
pub fn report_markdown(report: &ScopeReport) -> (r: String)
    ensures
        r@ == scope_markdown(*report),
{
    let mut out = String::new();
    push_scope_head(&mut out, report);
    push_str(&mut out, "## Candidate-only decision\n\n");
    push_str(&mut out, "The accepted 0.11 verification non-claim remains in force. ");
    push_str(&mut out, report.decision.release_non_claim.as_str());
    push_str(&mut out, "\n\n");
    push_str(&mut out, "## Exclusion\n\n");
    push_str(&mut out, "- State: `");
    push_str(&mut out, report.candidate_tree_delta.state.as_str());
    push_str(&mut out, "`\n- Operation: `");
    push_str(&mut out, report.candidate_tree_delta.operation.as_str());
    push_str(&mut out, "`\n- Commit: `");
    push_str(&mut out, report.candidate_tree_delta.excluded_commit.as_str());
    push_str(&mut out, "`\n- Constructed here: `");
    push_str(
        &mut out,
        if report.candidate_tree_delta.candidate_tree_constructed {
            "true"
        } else {
            "false"
        },
    );
    push_str(&mut out, "`\n\n");
    push_str(&mut out, "## Reconciliation\n\n");
    if report.reconciliation_reasons.len() == 0 {
        push_str(&mut out, "All captured scope checks passed.\n\n");
    } else {
        push_wrapped_items(&mut out, &report.reconciliation_reasons, "- ", "\n");
        push_str(&mut out, "\n");
    }
    push_str(&mut out, "## Must not claim\n\n");
    push_wrapped_items(&mut out, &report.must_not_claim, "- ", "\n");
    assert(out@ =~= scope_markdown(*report));
    out
}


/// Values strictly increase along `r`.
pub open spec fn strictly_ascending(r: Seq<Seq<char>>) -> bool {
    forall|i: int, j: int| #![trigger r[i], r[j]] 0 <= i < j < r.len() ==> seq_less(r[i], r[j])
}

proof fn lemma_insert_sorted_members(r: Seq<Seq<char>>, x: Seq<char>, y: Seq<char>)
    ensures
        insert_sorted(r, x).contains(y) <==> (r.contains(y) || y == x),
    decreases r.len(),
{
    let ins = insert_sorted(r, x);
    if r.len() == 0 {
        assert(ins == seq![x]);
        if y == x {
            assert(ins[0] == y);
        }
    } else if r[0] == x {
        if y == x {
            assert(r[0] == y);
        }
    } else if seq_less(x, r[0]) {
        assert(ins == seq![x] + r);
        if ins.contains(y) {
            let k = choose|k: int| 0 <= k < ins.len() && ins[k] == y;
            if k > 0 {
                assert(r[k - 1] == y);
            }
        }
        if r.contains(y) {
            let m = choose|m: int| 0 <= m < r.len() && r[m] == y;
            assert(ins[m + 1] == y);
        }
        if y == x {
            assert(ins[0] == y);
        }
    } else {
        let t = r.drop_first();
        let it = insert_sorted(t, x);
        lemma_insert_sorted_members(t, x, y);
        assert(ins == seq![r[0]] + it);
        if ins.contains(y) {
            let k = choose|k: int| 0 <= k < ins.len() && ins[k] == y;
            if k == 0 {
                assert(r[0] == y);
            } else {
                assert(it[k - 1] == y);
                if t.contains(y) {
                    let m = choose|m: int| 0 <= m < t.len() && t[m] == y;
                    assert(r[m + 1] == y);
                }
            }
        }
        if r.contains(y) {
            let m = choose|m: int| 0 <= m < r.len() && r[m] == y;
            if m == 0 {
                assert(ins[0] == y);
            } else {
                assert(t[m - 1] == y);
                let k = choose|k: int| 0 <= k < it.len() && it[k] == y;
                assert(ins[k + 1] == y);
            }
        }
        if y == x {
            let k = choose|k: int| 0 <= k < it.len() && it[k] == y;
            assert(ins[k + 1] == y);
        }
    }
}

proof fn lemma_insert_sorted_lower_bound(r: Seq<Seq<char>>, x: Seq<char>, lo: Seq<char>)
    requires
        forall|j: int| 0 <= j < r.len() ==> seq_less(lo, #[trigger] r[j]),
        seq_less(lo, x),
    ensures
        forall|k: int| 0 <= k < insert_sorted(r, x).len() ==> seq_less(lo, #[trigger] insert_sorted(r, x)[k]),
    decreases r.len(),
{
    if r.len() == 0 || r[0] == x || seq_less(x, r[0]) {
        if r.len() > 0 && r[0] != x && seq_less(x, r[0]) {
            let ins = insert_sorted(r, x);
            assert(ins == seq![x] + r);
            assert forall|k: int| 0 <= k < ins.len() implies seq_less(lo, #[trigger] ins[k]) by {
                if k > 0 {
                    assert(ins[k] == r[k - 1]);
                }
            }
        }
    } else {
        let t = r.drop_first();
        assert forall|j: int| 0 <= j < t.len() implies seq_less(lo, #[trigger] t[j]) by {
            assert(t[j] == r[j + 1]);
        }
        lemma_insert_sorted_lower_bound(t, x, lo);
        let ins = insert_sorted(r, x);
        assert(ins == seq![r[0]] + insert_sorted(t, x));
        assert forall|k: int| 0 <= k < ins.len() implies seq_less(lo, #[trigger] ins[k]) by {
            if k > 0 {
                assert(ins[k] == insert_sorted(t, x)[k - 1]);
            }
        }
    }
}

proof fn lemma_insert_sorted_ascending(r: Seq<Seq<char>>, x: Seq<char>)
    requires
        strictly_ascending(r),
    ensures
        strictly_ascending(insert_sorted(r, x)),
    decreases r.len(),
{
    let ins = insert_sorted(r, x);
    if r.len() == 0 || r[0] == x {
    } else if seq_less(x, r[0]) {
        assert(ins == seq![x] + r);
        assert forall|i: int, j: int| #![trigger ins[i], ins[j]] 0 <= i < j < ins.len() implies seq_less(
            ins[i],
            ins[j],
        ) by {
            if i == 0 {
                assert(ins[j] == r[j - 1]);
                if j - 1 > 0 {
                    assert(seq_less(r[0], r[j - 1]));
                    lemma_seq_less_transitive(x, r[0], r[j - 1]);
                }
            } else {
                assert(ins[i] == r[i - 1] && ins[j] == r[j - 1]);
            }
        }
    } else {
        let t = r.drop_first();
        assert forall|i: int, j: int| #![trigger t[i], t[j]] 0 <= i < j < t.len() implies seq_less(t[i], t[j]) by {
            assert(t[i] == r[i + 1] && t[j] == r[j + 1]);
        }
        lemma_insert_sorted_ascending(t, x);
        assert forall|j: int| 0 <= j < t.len() implies seq_less(r[0], #[trigger] t[j]) by {
            assert(t[j] == r[j + 1]);
        }
        lemma_seq_less_total(x, r[0]);
        lemma_insert_sorted_lower_bound(t, x, r[0]);
        let it = insert_sorted(t, x);
        assert(ins == seq![r[0]] + it);
        assert forall|i: int, j: int| #![trigger ins[i], ins[j]] 0 <= i < j < ins.len() implies seq_less(
            ins[i],
            ins[j],
        ) by {
            assert(ins[j] == it[j - 1]);
            if i > 0 {
                assert(ins[i] == it[i - 1]);
            }
        }
    }
}

proof fn lemma_sorted_unique_facts(s: Seq<Seq<char>>, y: Seq<char>)
    ensures
        strictly_ascending(sorted_unique_spec(s)),
        sorted_unique_spec(s).contains(y) <==> s.contains(y),
    decreases s.len(),
{
    if s.len() == 0 {
    } else {
        let dl = s.drop_last();
        lemma_sorted_unique_facts(dl, y);
        lemma_insert_sorted_ascending(sorted_unique_spec(dl), s.last());
        lemma_insert_sorted_members(sorted_unique_spec(dl), s.last(), y);
        if s.contains(y) {
            let m = choose|m: int| 0 <= m < s.len() && s[m] == y;
            if m < s.len() - 1 {
                assert(dl[m] == y);
            }
        }
        if dl.contains(y) {
            let m = choose|m: int| 0 <= m < dl.len() && dl[m] == y;
            assert(s[m] == y);
        }
        if y == s.last() {
            assert(s[s.len() - 1] == y);
        }
    }
}

/// A sorted inventory is strictly ascending, so holds no value twice, and
/// holds exactly the values of its input.
pub proof fn law_sorted_inventory_is_ascending_with_the_same_members(s: Seq<Seq<char>>)
    ensures
        strictly_ascending(sorted_unique_spec(s)),
        forall|i: int, j: int|
            #![trigger sorted_unique_spec(s)[i], sorted_unique_spec(s)[j]]
            0 <= i < j < sorted_unique_spec(s).len() ==> sorted_unique_spec(s)[i] != sorted_unique_spec(s)[j],
        forall|y: Seq<char>| #[trigger] sorted_unique_spec(s).contains(y) <==> s.contains(y),
{
    let r = sorted_unique_spec(s);
    lemma_sorted_unique_facts(s, seq![]);
    assert forall|i: int, j: int| #![trigger r[i], r[j]] 0 <= i < j < r.len() implies r[i] != r[j] by {
        lemma_seq_less_irreflexive(r[i]);
    }
    assert forall|y: Seq<char>| #[trigger] r.contains(y) <==> s.contains(y) by {
        lemma_sorted_unique_facts(s, y);
    }
}

} // verus!

//! The Rust repair trust corpus: which attempts, exclusions and
//! observations are valid evidence, and the scorecard computed from the
//! valid ones with explicit denominators.

use vstd::prelude::*;
use crate::json_record::{
    JsonField, JsonRecord, field, canonical, as_str, as_u64, as_bool, as_array, str_field,
    get_field, get_str, get_canonical,
};
use crate::release_scope::{reason_if, push_when, is_sha_spec};
use crate::text::{owned, str_eq, str_starts_with, push_str, views, concat, concat3, starts_with, opt_view};

verus! {

// ---------------------------------------------------------------------------
// Vocabularies
// ---------------------------------------------------------------------------

pub open spec fn route_fields() -> Seq<Seq<char>> {
    seq![
        "attempt_id"@,
        "repository"@,
        "analyzed_head_sha"@,
        "canonical_gap_id"@,
        "seam_id"@,
        "file_line"@,
        "changed_behavior"@,
        "missing_discriminator"@,
        "related_test_or_production_caller"@,
        "focused_test_intent"@,
        "before_receipt"@,
        "repair_intent"@,
        "verification_command"@,
        "verification_result"@,
        "targeted_rerun_command"@,
        "receipt_command"@,
        "inspection_command"@,
        "after_receipt"@,
        "claim_boundary"@,
    ]
}

pub fn route_field_names() -> (r: Vec<&'static str>)
    ensures
        r@.map_values(|s: &str| s@) == route_fields(),
{
    let r = vec![
        "attempt_id",
        "repository",
        "analyzed_head_sha",
        "canonical_gap_id",
        "seam_id",
        "file_line",
        "changed_behavior",
        "missing_discriminator",
        "related_test_or_production_caller",
        "focused_test_intent",
        "before_receipt",
        "repair_intent",
        "verification_command",
        "verification_result",
        "targeted_rerun_command",
        "receipt_command",
        "inspection_command",
        "after_receipt",
        "claim_boundary",
    ];
    assert(r@.map_values(|s: &str| s@) =~= route_fields());
    r
}

pub open spec fn movements() -> Seq<Seq<char>> {
    seq!["closed"@, "improved"@, "unchanged"@, "regressed"@, "limited"@]
}

pub open spec fn exclusion_reasons() -> Seq<Seq<char>> {
    seq![
        "analysis_timeout"@,
        "diff_scope_oversized"@,
        "static_limitation_no_repair_packet"@,
        "false_actionability"@,
        "production_test_path_rejected"@,
        "verification_failed"@,
        "no_current_behavior_change"@,
    ]
}

pub open spec fn observation_classifications() -> Seq<Seq<char>> {
    seq!["new_exclusion"@, "duplicate_observation"@]
}

pub(crate) fn in_vocabulary(value: &str, words: &[&str]) -> (r: bool)
    ensures
        r == words@.map_values(|s: &str| s@).contains(value@),
{
    let ghost ws = words@.map_values(|s: &str| s@);
    let mut i: usize = 0;
    while i < words.len()
        invariant
            i <= words@.len(),
            ws == words@.map_values(|s: &str| s@),
            forall|k: int| 0 <= k < i ==> ws[k] != value@,
        decreases words.len() - i,
    {
        if str_eq(words[i], value) {
            assert(ws[i as int] == value@);
            return true;
        }
        i += 1;
    }
    false
}

pub(crate) fn is_movement(value: &str) -> (r: bool)
    ensures
        r == movements().contains(value@),
{
    let words = ["closed", "improved", "unchanged", "regressed", "limited"];
    assert(words@.map_values(|s: &str| s@) =~= movements());
    in_vocabulary(value, &words)
}

pub(crate) fn is_exclusion_reason(value: &str) -> (r: bool)
    ensures
        r == exclusion_reasons().contains(value@),
{
    let words = [
        "analysis_timeout",
        "diff_scope_oversized",
        "static_limitation_no_repair_packet",
        "false_actionability",
        "production_test_path_rejected",
        "verification_failed",
        "no_current_behavior_change",
    ];
    assert(words@.map_values(|s: &str| s@) =~= exclusion_reasons());
    in_vocabulary(value, &words)
}

pub(crate) fn is_classification(value: &str) -> (r: bool)
    ensures
        r == observation_classifications().contains(value@),
{
    let words = ["new_exclusion", "duplicate_observation"];
    assert(words@.map_values(|s: &str| s@) =~= observation_classifications());
    in_vocabulary(value, &words)
}

pub(crate) fn contains_text(values: &Vec<String>, x: &str) -> (r: bool)
    ensures
        r == views(values@).contains(x@),
{
    crate::release_denominator::in_list(values, x)
}

// ---------------------------------------------------------------------------
// Field rules
// ---------------------------------------------------------------------------

pub open spec fn nonempty_str(r: JsonRecord, key: Seq<char>) -> bool {
    str_field(r, key) matches Some(s) && s.len() != 0
}

/// One error per key, among the first `n`, that is not a non-empty string.
pub open spec fn required_string_errors(r: JsonRecord, keys: Seq<Seq<char>>, n: int) -> Seq<Seq<char>>
    decreases n,
{
    if n <= 0 || n > keys.len() {
        seq![]
    } else {
        required_string_errors(r, keys, n - 1) + reason_if(
            !nonempty_str(r, keys[n - 1]),
            keys[n - 1] + " must be a non-empty string"@,
        )
    }
}

fn push_required_strings(r: &JsonRecord, keys: &[&str], errors: &mut Vec<String>)
    ensures
        views(final(errors)@) == views(old(errors)@) + required_string_errors(
            *r,
            keys@.map_values(|s: &str| s@),
            keys@.len() as int,
        ),
{
    let ghost start = views(errors@);
    let ghost ks = keys@.map_values(|s: &str| s@);
    let mut i: usize = 0;
    while i < keys.len()
        invariant
            i <= keys@.len(),
            ks == keys@.map_values(|s: &str| s@),
            views(errors@) == start + required_string_errors(*r, ks, i as int),
        decreases keys.len() - i,
    {
        assert(ks[i as int] == keys@[i as int]@);
        let ok = match get_str(r, keys[i]) {
            Some(s) => crate::text::chars_of(s).len() != 0,
            None => false,
        };
        push_when(errors, !ok, concat(keys[i], " must be a non-empty string"));
        assert(views(errors@) =~= start + required_string_errors(*r, ks, i + 1));
        i += 1;
    }
}

pub open spec fn all_filled(vals: Seq<Option<Seq<char>>>) -> bool {
    forall|i: int| 0 <= i < vals.len() ==> (#[trigger] vals[i] matches Some(s) && s.len() != 0)
}

/// The error of an array field that must hold non-empty strings (and,
/// unless `may_be_empty`, at least one).
pub open spec fn array_field_errors(r: JsonRecord, key: Seq<char>, may_be_empty: bool) -> Seq<Seq<char>> {
    match as_array(field(r, key)) {
        Some(vals) => if !may_be_empty && vals.len() == 0 {
            seq![key + " must not be empty"@]
        } else if !all_filled(vals) {
            seq![key + " must contain only non-empty strings"@]
        } else {
            seq![]
        },
        None => seq![key + " must be an array"@],
    }
}

fn all_filled_exec(items: &Vec<Option<String>>) -> (r: bool)
    ensures
        r == all_filled(items@.map_values(|e: Option<String>| opt_view(e))),
{
    let ghost vs = items@.map_values(|e: Option<String>| opt_view(e));
    let mut i: usize = 0;
    while i < items.len()
        invariant
            i <= items@.len(),
            vs == items@.map_values(|e: Option<String>| opt_view(e)),
            forall|k: int| 0 <= k < i ==> (#[trigger] vs[k] matches Some(s) && s.len() != 0),
        decreases items.len() - i,
    {
        assert(vs[i as int] == opt_view(items@[i as int]));
        let ok = match &items[i] {
            Some(s) => crate::text::chars_of(s.as_str()).len() != 0,
            None => false,
        };
        if !ok {
            return false;
        }
        i += 1;
    }
    true
}

fn push_array_field(r: &JsonRecord, key: &str, may_be_empty: bool, errors: &mut Vec<String>)
    ensures
        views(final(errors)@) == views(old(errors)@) + array_field_errors(*r, key@, may_be_empty),
{
    let ghost start = views(errors@);
    match get_field(r, key) {
        JsonField::Array(items) => {
            if !may_be_empty && items.len() == 0 {
                errors.push(concat(key, " must not be empty"));
            } else if !all_filled_exec(items) {
                errors.push(concat(key, " must contain only non-empty strings"));
            }
        },
        _ => {
            errors.push(concat(key, " must be an array"));
        },
    }
    assert(views(errors@) =~= start + array_field_errors(*r, key@, may_be_empty));
}

pub open spec fn bool_field_errors(r: JsonRecord, key: Seq<char>) -> Seq<Seq<char>> {
    reason_if(as_bool(field(r, key)) is None, key + " must be a boolean"@)
}

fn push_bool_field(r: &JsonRecord, key: &str, errors: &mut Vec<String>)
    ensures
        views(final(errors)@) == views(old(errors)@) + bool_field_errors(*r, key@),
{
    let missing = match get_field(r, key) {
        JsonField::Bool(_) => false,
        _ => true,
    };
    push_when(errors, missing, concat(key, " must be a boolean"));
}

fn bool_of(r: &JsonRecord, key: &str) -> (b: Option<bool>)
    ensures
        b == as_bool(field(*r, key@)),
{
    match get_field(r, key) {
        JsonField::Bool(b) => Some(*b),
        _ => None,
    }
}

fn u64_of(r: &JsonRecord, key: &str) -> (n: Option<u64>)
    ensures
        n == as_u64(field(*r, key@)),
{
    match get_field(r, key) {
        JsonField::Number(n) => *n,
        _ => None,
    }
}

// ---------------------------------------------------------------------------
// Attempts
// ---------------------------------------------------------------------------

/// The errors of an attempt's number, arrays, flags, and gap id.
pub open spec fn case_tail_errors(r: JsonRecord) -> Seq<Seq<char>> {
    case_shape_errors(r) + case_flag_errors(r)
}

pub open spec fn case_shape_errors(r: JsonRecord) -> Seq<Seq<char>> {
    reason_if(
        !(as_u64(field(r, "attempt_number"@)) matches Some(n) && n != 0),
        "attempt_number must be a positive integer"@,
    ) + array_field_errors(r, "changed_test_files"@, false) + array_field_errors(
        r,
        "allowed_edit_surface"@,
        false,
    ) + array_field_errors(r, "limitations"@, true) + array_field_errors(r, "source_refs"@, false)
}

pub open spec fn case_flag_errors(r: JsonRecord) -> Seq<Seq<char>> {
    case_bool_errors(r) + case_value_errors(r)
}

pub open spec fn case_bool_errors(r: JsonRecord) -> Seq<Seq<char>> {
    bool_field_errors(r, "test_only"@) + bool_field_errors(r, "production_files_changed"@)
        + bool_field_errors(r, "false_actionability"@) + bool_field_errors(
        r,
        "known_impossible_recommendation"@,
    ) + bool_field_errors(r, "parity_failure"@) + bool_field_errors(r, "artifact_archaeology"@)
}

pub open spec fn case_value_errors(r: JsonRecord) -> Seq<Seq<char>> {
    reason_if(as_bool(field(r, "test_only"@)) != Some(true), "test_only must be true"@)
        + reason_if(
        as_bool(field(r, "production_files_changed"@)) != Some(false),
        "production_files_changed must be false"@,
    ) + reason_if(
        str_field(r, "canonical_gap_id"@) matches Some(id) && !starts_with(id, "gap:"@),
        "canonical_gap_id must start with gap:"@,
    )
}

/// Every error of an attempt, in order; a missing repository or revision
/// stops the checks, and a missing movement ends them with its error.
pub open spec fn case_errors(r: JsonRecord, authorized: Seq<Seq<char>>) -> Seq<Seq<char>> {
    required_string_errors(r, route_fields(), 19) + match str_field(r, "repository"@) {
        None => seq![],
        Some(repo) => reason_if(
            !authorized.contains(repo),
            "repository "@ + repo + " is not authorized"@,
        ) + match str_field(r, "analyzed_head_sha"@) {
            None => seq![],
            Some(rev) => reason_if(!is_sha_spec(rev), "revision must be a 40-character commit SHA"@)
                + match str_field(r, "movement"@) {
                None => seq!["movement must use the closed vocabulary"@],
                Some(m) => reason_if(
                    !movements().contains(m),
                    "movement "@ + m + " is not in the closed vocabulary"@,
                ) + case_tail_errors(r),
            },
        },
    }
}

proof fn lemma_add_assoc(a: Seq<Seq<char>>, b: Seq<Seq<char>>, c: Seq<Seq<char>>)
    ensures
        a + b + c == a + (b + c),
{
    assert(a + b + c =~= a + (b + c));
}

fn push_case_bool_errors(r: &JsonRecord, errors: &mut Vec<String>)
    ensures
        views(final(errors)@) == views(old(errors)@) + case_bool_errors(*r),
{
    let ghost start = views(errors@);
    push_bool_field(r, "test_only", errors);
    push_bool_field(r, "production_files_changed", errors);
    push_bool_field(r, "false_actionability", errors);
    push_bool_field(r, "known_impossible_recommendation", errors);
    push_bool_field(r, "parity_failure", errors);
    push_bool_field(r, "artifact_archaeology", errors);
    assert(views(errors@) =~= start + case_bool_errors(*r));
}

fn push_case_value_errors(r: &JsonRecord, errors: &mut Vec<String>)
    ensures
        views(final(errors)@) == views(old(errors)@) + case_value_errors(*r),
{
    let ghost start = views(errors@);
    let test_only = bool_of(r, "test_only");
    push_when(errors, !(test_only == Some(true)), owned("test_only must be true"));
    let production = bool_of(r, "production_files_changed");
    push_when(
        errors,
        !(production == Some(false)),
        owned("production_files_changed must be false"),
    );
    let bad_gap = match get_str(r, "canonical_gap_id") {
        Some(id) => !str_starts_with(id, "gap:"),
        None => false,
    };
    push_when(errors, bad_gap, owned("canonical_gap_id must start with gap:"));
    assert(views(errors@) =~= start + case_value_errors(*r));
}

fn push_case_shape_errors(r: &JsonRecord, errors: &mut Vec<String>)
    ensures
        views(final(errors)@) == views(old(errors)@) + case_shape_errors(*r),
{
    let ghost start = views(errors@);
    let positive = match u64_of(r, "attempt_number") {
        Some(n) => n != 0,
        None => false,
    };
    push_when(errors, !positive, owned("attempt_number must be a positive integer"));
    push_array_field(r, "changed_test_files", false, errors);
    push_array_field(r, "allowed_edit_surface", false, errors);
    push_array_field(r, "limitations", true, errors);
    push_array_field(r, "source_refs", false, errors);
    assert(views(errors@) =~= start + case_shape_errors(*r));
}

fn push_case_tail_errors(r: &JsonRecord, errors: &mut Vec<String>)
    ensures
        views(final(errors)@) == views(old(errors)@) + case_tail_errors(*r),
{
    let ghost start = views(errors@);
    push_case_shape_errors(r, errors);
    let ghost a = views(errors@);
    push_case_bool_errors(r, errors);
    push_case_value_errors(r, errors);
    proof {
        lemma_add_assoc(a, case_bool_errors(*r), case_value_errors(*r));
        lemma_add_assoc(start, case_shape_errors(*r), case_flag_errors(*r));
    }
}

/// Every error of an attempt against the authorized repositories.
pub fn case_errors_exec(r: &JsonRecord, authorized: &Vec<String>) -> (errors: Vec<String>)
    ensures
        views(errors@) == case_errors(*r, views(authorized@)),
{
    let mut errors: Vec<String> = Vec::new();
    let fields = route_field_names();
    push_required_strings(r, fields.as_slice(), &mut errors);
    let ghost base = views(errors@);
    let repo = match get_str(r, "repository") {
        None => {
            assert(views(errors@) =~= case_errors(*r, views(authorized@)));
            return errors;
        },
        Some(repo) => repo,
    };
    push_when(
        &mut errors,
        !contains_text(authorized, repo),
        concat3("repository ", repo, " is not authorized"),
    );
    let ghost after_repo = views(errors@);
    let rev = match get_str(r, "analyzed_head_sha") {
        None => {
            assert(views(errors@) =~= case_errors(*r, views(authorized@)));
            return errors;
        },
        Some(rev) => rev,
    };
    push_when(
        &mut errors,
        !crate::release_scope::is_sha(rev),
        owned("revision must be a 40-character commit SHA"),
    );
    let ghost after_rev = views(errors@);
    match get_str(r, "movement") {
        None => {
            errors.push(owned("movement must use the closed vocabulary"));
            assert(views(errors@) =~= after_rev + seq!["movement must use the closed vocabulary"@]);
        },
        Some(m) => {
            push_when(
                &mut errors,
                !is_movement(m),
                concat3("movement ", m, " is not in the closed vocabulary"),
            );
            let ghost after_m = views(errors@);
            push_case_tail_errors(r, &mut errors);
            proof {
                lemma_add_assoc(
                    after_rev,
                    reason_if(!movements().contains(m@), "movement "@ + m@ + " is not in the closed vocabulary"@),
                    case_tail_errors(*r),
                );
            }
        },
    }
    let ghost tail = match str_field(*r, "movement"@) {
        None => seq!["movement must use the closed vocabulary"@],
        Some(m) => reason_if(
            !movements().contains(m),
            "movement "@ + m + " is not in the closed vocabulary"@,
        ) + case_tail_errors(*r),
    };
    assert(views(errors@) == after_rev + tail);
    let ghost rv = reason_if(!is_sha_spec(rev@), "revision must be a 40-character commit SHA"@);
    let ghost rp = reason_if(!views(authorized@).contains(repo@), "repository "@ + repo@ + " is not authorized"@);
    proof {
        lemma_add_assoc(after_repo, rv, tail);
        lemma_add_assoc(base, rp, rv + tail);
    }
    errors
}

// ---------------------------------------------------------------------------
// Exclusions and observations
// ---------------------------------------------------------------------------

pub open spec fn exclusion_fields() -> Seq<Seq<char>> {
    seq![
        "exclusion_id"@,
        "repository"@,
        "analyzed_head_sha"@,
        "source_ref"@,
        "reason"@,
        "evidence_ref"@,
        "command"@,
        "claim_boundary"@,
    ]
}

/// Every error of an exclusion against the authorized repositories.
pub open spec fn exclusion_errors(r: JsonRecord, authorized: Seq<Seq<char>>) -> Seq<Seq<char>> {
    required_string_errors(r, exclusion_fields(), 8) + reason_if(
        str_field(r, "repository"@) matches Some(repo) && !authorized.contains(repo),
        "repository "@ + str_field(r, "repository"@)->0 + " is not authorized"@,
    ) + reason_if(
        str_field(r, "analyzed_head_sha"@) matches Some(rev) && !is_sha_spec(rev),
        "revision must be a 40-character commit SHA"@,
    ) + reason_if(
        str_field(r, "reason"@) matches Some(reason) && !exclusion_reasons().contains(reason),
        "reason "@ + str_field(r, "reason"@)->0 + " is not in the exclusion vocabulary"@,
    )
}

/// Every error of an exclusion against the authorized repositories.
pub fn exclusion_errors_exec(r: &JsonRecord, authorized: &Vec<String>) -> (errors: Vec<String>)
    ensures
        views(errors@) == exclusion_errors(*r, views(authorized@)),
{
    let mut errors: Vec<String> = Vec::new();
    let fields = [
        "exclusion_id",
        "repository",
        "analyzed_head_sha",
        "source_ref",
        "reason",
        "evidence_ref",
        "command",
        "claim_boundary",
    ];
    assert(fields@.map_values(|s: &str| s@) =~= exclusion_fields());
    push_required_strings(r, &fields, &mut errors);
    let ghost base = views(errors@);
    match get_str(r, "repository") {
        Some(repo) => {
            push_when(
                &mut errors,
                !contains_text(authorized, repo),
                concat3("repository ", repo, " is not authorized"),
            );
        },
        None => {},
    }
    match get_str(r, "analyzed_head_sha") {
        Some(rev) => {
            push_when(
                &mut errors,
                !crate::release_scope::is_sha(rev),
                owned("revision must be a 40-character commit SHA"),
            );
        },
        None => {},
    }
    match get_str(r, "reason") {
        Some(reason) => {
            push_when(
                &mut errors,
                !is_exclusion_reason(reason),
                concat3("reason ", reason, " is not in the exclusion vocabulary"),
            );
        },
        None => {},
    }
    assert(views(errors@) =~= exclusion_errors(*r, views(authorized@)));
    errors
}

pub open spec fn observation_fields() -> Seq<Seq<char>> {
    seq![
        "observation_id"@,
        "repository"@,
        "analyzed_head_sha"@,
        "source_ref"@,
        "canonical_candidate_id"@,
        "reason"@,
        "evidence_ref"@,
        "classification"@,
        "claim_boundary"@,
    ]
}

/// The errors of an observation's revision against its repository's
/// authorized observation heads (`heads`: the allowlist, when the
/// repository has one).
pub open spec fn head_errors(repo: Seq<char>, rev: Seq<char>, heads: Option<Seq<Seq<char>>>) -> Seq<Seq<char>> {
    match heads {
        None => seq!["repository "@ + repo + " has no authorized observation heads"@],
        Some(h) => if h.len() == 0 {
            seq!["repository "@ + repo + " has an empty authorized observation head allowlist"@]
        } else if !h.contains(rev) {
            seq!["revision "@ + rev + " is not explicitly authorized for observation"@]
        } else {
            seq![]
        },
    }
}

/// The first exclusion whose id is `id`.
pub open spec fn exclusion_with_id(exclusions: Seq<JsonRecord>, id: Seq<char>, n: int) -> Option<int>
    decreases n,
{
    if n <= 0 {
        None
    } else {
        match exclusion_with_id(exclusions, id, n - 1) {
            Some(i) => Some(i),
            None => if str_field(exclusions[n - 1], "exclusion_id"@) == Some(id) {
                Some(n - 1)
            } else {
                None
            },
        }
    }
}

pub open spec fn mismatch(obs: JsonRecord, target: JsonRecord, key: Seq<char>) -> bool {
    canonical(obs, key) != canonical(target, key)
}

/// The errors of a duplicate observation against the exclusion it names.
pub open spec fn duplicate_errors(
    obs: JsonRecord,
    exclusions: Seq<JsonRecord>,
    valid_ids: Seq<Seq<char>>,
) -> Seq<Seq<char>> {
    match str_field(obs, "duplicate_of"@) {
        None => seq!["duplicate_of is required for duplicate observations"@],
        Some(d) => match exclusion_with_id(exclusions, d, exclusions.len() as int) {
            None => seq!["duplicate_of "@ + d + " does not name an exclusion"@],
            Some(t) => {
                let target = exclusions[t];
                let head = "duplicate observation does not match exclusion "@ + d;
                reason_if(!valid_ids.contains(d), "duplicate_of "@ + d + " names an invalid exclusion"@)
                    + reason_if(mismatch(obs, target, "repository"@), head + " field repository"@)
                    + reason_if(
                    mismatch(obs, target, "analyzed_head_sha"@),
                    head + " field analyzed_head_sha"@,
                ) + reason_if(mismatch(obs, target, "source_ref"@), head + " field source_ref"@)
                    + reason_if(
                    mismatch(obs, target, "canonical_candidate_id"@),
                    head + " candidate identity"@,
                )
            },
        },
    }
}

/// The errors of an observation's classification and duplicate link.
pub open spec fn classification_errors(
    obs: JsonRecord,
    exclusions: Seq<JsonRecord>,
    valid_ids: Seq<Seq<char>>,
) -> Seq<Seq<char>> {
    match str_field(obs, "classification"@) {
        None => seq![],
        Some(c) => reason_if(
            !observation_classifications().contains(c),
            "classification "@ + c + " is not in the observation vocabulary"@,
        ) + if c == "duplicate_observation"@ {
            duplicate_errors(obs, exclusions, valid_ids)
        } else {
            reason_if(
                str_field(obs, "duplicate_of"@) is Some,
                "duplicate_of is only valid for duplicate observations"@,
            )
        },
    }
}

/// Every error of an observation, in order; a missing repository or
/// revision stops the checks.
pub open spec fn observation_errors(
    obs: JsonRecord,
    authorized: Seq<Seq<char>>,
    heads: spec_fn(Seq<char>) -> Option<Seq<Seq<char>>>,
    exclusions: Seq<JsonRecord>,
    valid_ids: Seq<Seq<char>>,
) -> Seq<Seq<char>> {
    required_string_errors(obs, observation_fields(), 9) + match str_field(obs, "repository"@) {
        None => seq![],
        Some(repo) => reason_if(
            !authorized.contains(repo),
            "repository "@ + repo + " is not authorized"@,
        ) + match str_field(obs, "analyzed_head_sha"@) {
            None => seq![],
            Some(rev) => reason_if(!is_sha_spec(rev), "revision must be a 40-character commit SHA"@)
                + head_errors(repo, rev, heads(repo)) + reason_if(
                str_field(obs, "reason"@) matches Some(reason) && !exclusion_reasons().contains(
                    reason,
                ),
                "reason "@ + str_field(obs, "reason"@)->0 + " is not in the exclusion vocabulary"@,
            ) + classification_errors(obs, exclusions, valid_ids),
        },
    }
}

proof fn lemma_exclusion_with_id_stable(exclusions: Seq<JsonRecord>, id: Seq<char>, i: int, n: int)
    requires
        i <= n,
        exclusion_with_id(exclusions, id, i) is Some,
    ensures
        exclusion_with_id(exclusions, id, n) == exclusion_with_id(exclusions, id, i),
    decreases n - i,
{
    if i < n {
        lemma_exclusion_with_id_stable(exclusions, id, i, n - 1);
    }
}

fn find_exclusion(exclusions: &Vec<JsonRecord>, id: &str) -> (r: Option<usize>)
    ensures
        match exclusion_with_id(exclusions@, id@, exclusions@.len() as int) {
            Some(i) => r is Some && r->0 as int == i && 0 <= i < exclusions@.len(),
            None => r is None,
        },
{
    let mut i: usize = 0;
    while i < exclusions.len()
        invariant
            i <= exclusions@.len(),
            exclusion_with_id(exclusions@, id@, i as int) is None,
        decreases exclusions.len() - i,
    {
        let hit = match get_str(&exclusions[i], "exclusion_id") {
            Some(x) => str_eq(x, id),
            None => false,
        };
        if hit {
            proof {
                lemma_exclusion_with_id_stable(exclusions@, id@, i + 1, exclusions@.len() as int);
            }
            return Some(i);
        }
        i += 1;
    }
    None
}

fn opt_str_eq(a: Option<&str>, b: Option<&str>) -> (r: bool)
    ensures
        r == (crate::text::opt_str_view(a) == crate::text::opt_str_view(b)),
{
    match (a, b) {
        (Some(x), Some(y)) => str_eq(x, y),
        (None, None) => true,
        _ => false,
    }
}

fn push_duplicate_errors(
    obs: &JsonRecord,
    exclusions: &Vec<JsonRecord>,
    valid_ids: &Vec<String>,
    errors: &mut Vec<String>,
)
    ensures
        views(final(errors)@) == views(old(errors)@) + duplicate_errors(
            *obs,
            exclusions@,
            views(valid_ids@),
        ),
{
    let ghost start = views(errors@);
    let d = match get_str(obs, "duplicate_of") {
        None => {
            errors.push(owned("duplicate_of is required for duplicate observations"));
            assert(views(errors@) =~= start + duplicate_errors(*obs, exclusions@, views(valid_ids@)));
            return;
        },
        Some(d) => d,
    };
    let t = match find_exclusion(exclusions, d) {
        None => {
            errors.push(concat3("duplicate_of ", d, " does not name an exclusion"));
            assert(views(errors@) =~= start + duplicate_errors(*obs, exclusions@, views(valid_ids@)));
            return;
        },
        Some(t) => t,
    };
    let target = &exclusions[t];
    push_when(
        errors,
        !contains_text(valid_ids, d),
        concat3("duplicate_of ", d, " names an invalid exclusion"),
    );
    let head = concat("duplicate observation does not match exclusion ", d);
    push_when(
        errors,
        !opt_str_eq(get_canonical(obs, "repository"), get_canonical(target, "repository")),
        concat(head.as_str(), " field repository"),
    );
    push_when(
        errors,
        !opt_str_eq(get_canonical(obs, "analyzed_head_sha"), get_canonical(target, "analyzed_head_sha")),
        concat(head.as_str(), " field analyzed_head_sha"),
    );
    push_when(
        errors,
        !opt_str_eq(get_canonical(obs, "source_ref"), get_canonical(target, "source_ref")),
        concat(head.as_str(), " field source_ref"),
    );
    push_when(
        errors,
        !opt_str_eq(
            get_canonical(obs, "canonical_candidate_id"),
            get_canonical(target, "canonical_candidate_id"),
        ),
        concat(head.as_str(), " candidate identity"),
    );
    assert(views(errors@) =~= start + duplicate_errors(*obs, exclusions@, views(valid_ids@)));
}

fn push_classification_errors(
    obs: &JsonRecord,
    exclusions: &Vec<JsonRecord>,
    valid_ids: &Vec<String>,
    errors: &mut Vec<String>,
)
    ensures
        views(final(errors)@) == views(old(errors)@) + classification_errors(
            *obs,
            exclusions@,
            views(valid_ids@),
        ),
{
    let ghost start = views(errors@);
    match get_str(obs, "classification") {
        None => {
            assert(views(errors@) =~= start + classification_errors(*obs, exclusions@, views(valid_ids@)));
        },
        Some(c) => {
            push_when(
                errors,
                !is_classification(c),
                concat3("classification ", c, " is not in the observation vocabulary"),
            );
            let ghost mid = views(errors@);
            if str_eq(c, "duplicate_observation") {
                push_duplicate_errors(obs, exclusions, valid_ids, errors);
            } else {
                push_when(
                    errors,
                    get_str(obs, "duplicate_of").is_some(),
                    owned("duplicate_of is only valid for duplicate observations"),
                );
            }
            proof {
                let first = reason_if(
                    !observation_classifications().contains(c@),
                    "classification "@ + c@ + " is not in the observation vocabulary"@,
                );
                let rest = if c@ == "duplicate_observation"@ {
                    duplicate_errors(*obs, exclusions@, views(valid_ids@))
                } else {
                    reason_if(
                        str_field(*obs, "duplicate_of"@) is Some,
                        "duplicate_of is only valid for duplicate observations"@,
                    )
                };
                lemma_add_assoc(start, first, rest);
            }
        },
    }
}

/// An authorized repository's observation allowlist.
#[derive(Clone, Debug, PartialEq, Eq)]
pub struct ObservationHeads {
    pub repository: String,
    pub heads: Vec<String>,
}

/// The allowlist of `repo`: the last entry naming it.
pub open spec fn heads_of(entries: Seq<ObservationHeads>, repo: Seq<char>) -> Option<Seq<Seq<char>>>
    decreases entries.len(),
{
    if entries.len() == 0 {
        None
    } else if entries.last().repository@ == repo {
        Some(views(entries.last().heads@))
    } else {
        heads_of(entries.drop_last(), repo)
    }
}

fn heads_of_exec<'a>(entries: &'a Vec<ObservationHeads>, repo: &str) -> (r: Option<&'a Vec<String>>)
    ensures
        match heads_of(entries@, repo@) {
            Some(h) => r matches Some(v) && views(v@) == h,
            None => r is None,
        },
{
    let mut i = entries.len();
    assert(entries@.take(i as int) =~= entries@);
    while i > 0
        invariant
            i <= entries@.len(),
            heads_of(entries@, repo@) == heads_of(entries@.take(i as int), repo@),
        decreases i,
    {
        assert(entries@.take(i as int).drop_last() =~= entries@.take(i - 1));
        assert(entries@.take(i as int).last() == entries@[i - 1]);
        if str_eq(entries[i - 1].repository.as_str(), repo) {
            return Some(&entries[i - 1].heads);
        }
        i -= 1;
    }
    None
}

pub open spec fn heads_fn(entries: Seq<ObservationHeads>) -> spec_fn(Seq<char>) -> Option<Seq<Seq<char>>> {
    |repo: Seq<char>| heads_of(entries, repo)
}

/// Every error of an observation against the authorized repositories,
/// their observation allowlists, the exclusions, and the valid exclusion
/// ids.
pub fn observation_errors_exec(
    obs: &JsonRecord,
    authorized: &Vec<String>,
    heads: &Vec<ObservationHeads>,
    exclusions: &Vec<JsonRecord>,
    valid_ids: &Vec<String>,
) -> (errors: Vec<String>)
    ensures
        views(errors@) == observation_errors(
            *obs,
            views(authorized@),
            heads_fn(heads@),
            exclusions@,
            views(valid_ids@),
        ),
{
    let mut errors: Vec<String> = Vec::new();
    let fields = [
        "observation_id",
        "repository",
        "analyzed_head_sha",
        "source_ref",
        "canonical_candidate_id",
        "reason",
        "evidence_ref",
        "classification",
        "claim_boundary",
    ];
    assert(fields@.map_values(|s: &str| s@) =~= observation_fields());
    push_required_strings(obs, &fields, &mut errors);
    let ghost base = views(errors@);
    let repo = match get_str(obs, "repository") {
        None => {
            assert(views(errors@) =~= base + Seq::<Seq<char>>::empty());
            return errors;
        },
        Some(repo) => repo,
    };
    push_when(
        &mut errors,
        !contains_text(authorized, repo),
        concat3("repository ", repo, " is not authorized"),
    );
    let ghost after_repo = views(errors@);
    let rev = match get_str(obs, "analyzed_head_sha") {
        None => {
            assert(views(errors@) =~= base + (reason_if(
                !views(authorized@).contains(repo@),
                "repository "@ + repo@ + " is not authorized"@,
            ) + Seq::<Seq<char>>::empty()));
            return errors;
        },
        Some(rev) => rev,
    };
    push_when(
        &mut errors,
        !crate::release_scope::is_sha(rev),
        owned("revision must be a 40-character commit SHA"),
    );
    let ghost after_rev = views(errors@);
    match heads_of_exec(heads, repo) {
        None => {
            errors.push(concat3("repository ", repo, " has no authorized observation heads"));
        },
        Some(h) => {
            if h.len() == 0 {
                errors.push(
                    concat3("repository ", repo, " has an empty authorized observation head allowlist"),
                );
            } else if !contains_text(h, rev) {
                errors.push(concat3("revision ", rev, " is not explicitly authorized for observation"));
            }
        },
    }
    assert(views(errors@) =~= after_rev + head_errors(repo@, rev@, heads_of(heads@, repo@)));
    let ghost after_heads = views(errors@);
    match get_str(obs, "reason") {
        Some(reason) => {
            push_when(
                &mut errors,
                !is_exclusion_reason(reason),
                concat3("reason ", reason, " is not in the exclusion vocabulary"),
            );
        },
        None => {},
    }
    let ghost rr = reason_if(
        str_field(*obs, "reason"@) matches Some(reason) && !exclusion_reasons().contains(reason),
        "reason "@ + str_field(*obs, "reason"@)->0 + " is not in the exclusion vocabulary"@,
    );
    assert(views(errors@) =~= after_heads + rr);
    let ghost after_reason = views(errors@);
    push_classification_errors(obs, exclusions, valid_ids, &mut errors);
    proof {
        let rv = reason_if(!is_sha_spec(rev@), "revision must be a 40-character commit SHA"@);
        let he = head_errors(repo@, rev@, heads_of(heads@, repo@));
        let ce = classification_errors(*obs, exclusions@, views(valid_ids@));
        let rp = reason_if(
            !views(authorized@).contains(repo@),
            "repository "@ + repo@ + " is not authorized"@,
        );
        assert((heads_fn(heads@))(repo@) == heads_of(heads@, repo@));
        lemma_add_assoc(after_heads, rr, ce);
        lemma_add_assoc(after_rev, he, rr + ce);
        lemma_add_assoc(after_repo, rv, he + (rr + ce));
        lemma_add_assoc(base, rp, rv + (he + (rr + ce)));
        assert(rv + he + rr + ce == rv + (he + (rr + ce))) by {
            lemma_add_assoc(rv, he, rr);
            lemma_add_assoc(rv + he, rr, ce);
            lemma_add_assoc(rv, he + rr, ce);
            lemma_add_assoc(he, rr, ce);
        }
    }
    errors
}

} // verus!

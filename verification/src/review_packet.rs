//! The contract of a rendered review-comments packet: which fields it must
//! carry, how its counts and run receipt must agree, and how it must match
//! the producer output it was rendered from. The packet is read into plain
//! facts (what each field holds) before it is checked here.

use vstd::prelude::*;
use crate::release_scope::{reason_if, push_when};
use crate::text::{
    owned, str_eq, str_is_blank, push_str, views, concat, concat3, trim, decimal, debug_quoted,
    debug_quote, u64_to_string, usize_to_string, join, push_joined, opt_view,
};

verus! {

/// The counts of a packet's `summary` object.
#[derive(Clone, Debug, PartialEq, Eq)]
pub struct SummaryFacts {
    pub comments: Option<u64>,
    pub summary_only: Option<u64>,
    pub suppressed: Option<u64>,
    pub unchanged_tests_is_bool: bool,
}

/// Whether each rendering limit is an unsigned integer.
#[derive(Clone, Debug, PartialEq, Eq)]
pub struct RenderingLimitsFacts {
    pub max_inline_comments_is_u64: bool,
    pub max_summary_items_is_u64: bool,
}

/// What a JSON field holds, as far as phases are concerned.
#[derive(Clone, Debug, PartialEq, Eq)]
pub enum FieldValue {
    Missing,
    Null,
    Text(String),
    Other,
}

/// The fields of a packet's `run_receipt` object.
#[derive(Clone, Debug, PartialEq, Eq)]
pub struct ReceiptFacts {
    pub keys: Vec<String>,
    pub schema_version: Option<String>,
    pub status: Option<String>,
    pub base_sha: Option<String>,
    pub head_sha: Option<String>,
    pub configured_timeout_ms: Option<u64>,
    pub last_completed_phase: Option<String>,
    pub active_phase: FieldValue,
    pub completed_artifacts: Option<usize>,
    pub missing_artifacts: Option<usize>,
    pub limitations: Option<usize>,
    pub non_claims: Option<usize>,
}

/// The fields of the producer's check output.
#[derive(Clone, Debug, PartialEq, Eq)]
pub struct ProducerFacts {
    pub schema_version: Option<String>,
    pub tool: Option<String>,
    pub mode: Option<String>,
    pub root: Option<String>,
    pub base: Option<String>,
    pub summary_is_object: bool,
    pub findings_is_array: bool,
    pub analysis_outcome: Option<String>,
}

/// How reading the producer's check output went.
#[derive(Clone, Debug, PartialEq, Eq)]
pub enum CheckOutputRead {
    Unreadable(String),
    Invalid(String),
    Parsed(ProducerFacts),
}

/// The fields of a rendered packet; `analysis_outcome` is the field's
/// canonical JSON text.
#[derive(Clone, Debug, PartialEq, Eq)]
pub struct PacketFacts {
    pub schema_version: Option<String>,
    pub tool: Option<String>,
    pub base: Option<String>,
    pub head: Option<String>,
    pub root: Option<String>,
    pub status: Option<String>,
    pub mode: Option<String>,
    pub rendering_limits: Option<RenderingLimitsFacts>,
    pub summary: Option<SummaryFacts>,
    pub comments: Option<usize>,
    pub summary_only: Option<usize>,
    pub suppressed: Option<usize>,
    pub warnings: Option<usize>,
    pub limits_note: Option<String>,
    pub run_receipt: Option<ReceiptFacts>,
    pub analysis_outcome: Option<String>,
}

/// What the packet must agree with: the requested base and head, the
/// expected root, the resolved base and head identities, the producer
/// output when one was named (its display path and how reading it went),
/// and whether the Markdown artifact is required and exists.
#[derive(Clone, Debug, PartialEq, Eq)]
pub struct PacketExpectations {
    pub base: String,
    pub head: String,
    pub root: String,
    pub base_sha: String,
    pub head_sha: String,
    pub check_output: Option<(String, CheckOutputRead)>,
    pub markdown_required: bool,
    pub markdown_exists: bool,
}

// ---------------------------------------------------------------------------
// Field checks
// ---------------------------------------------------------------------------

/// The violation of a field that must be the string `expected`.
pub open spec fn expect_string_spec(key: Seq<char>, actual: Option<Seq<char>>, expected: Seq<char>) -> Seq<Seq<char>> {
    match actual {
        Some(a) => reason_if(
            a != expected,
            key + " is "@ + debug_quoted(a) + ", expected "@ + debug_quoted(expected),
        ),
        None => seq![key + " is missing or not a string"@],
    }
}

/// Appends the violation of a field that must be the string `expected`.
pub fn expect_string(key: &str, actual: &Option<String>, expected: &str, violations: &mut Vec<String>)
    ensures
        views(final(violations)@) == views(old(violations)@) + expect_string_spec(
            key@,
            opt_view(*actual),
            expected@,
        ),
{
    let ghost start = views(violations@);
    match actual {
        Some(a) => {
            let mut m = concat(key, " is ");
            push_str(&mut m, debug_quote(a.as_str()).as_str());
            push_str(&mut m, ", expected ");
            push_str(&mut m, debug_quote(expected).as_str());
            push_when(violations, !str_eq(a.as_str(), expected), m);
        },
        None => {
            violations.push(concat(key, " is missing or not a string"));
            assert(views(violations@) =~= start + seq![key@ + " is missing or not a string"@]);
        },
    }
}

/// The violation of a field that must be one of `allowed`.
pub open spec fn expect_one_of_spec(key: Seq<char>, actual: Option<Seq<char>>, allowed: Seq<Seq<char>>) -> Seq<
    Seq<char>,
> {
    match actual {
        Some(a) => reason_if(
            !allowed.contains(a),
            key + " "@ + debug_quoted(a) + " is not contract-valid"@,
        ),
        None => seq![key + " is missing or not a string"@],
    }
}

fn one_of(a: &str, allowed: &[&str]) -> (r: bool)
    ensures
        r == allowed@.map_values(|s: &str| s@).contains(a@),
{
    let ghost al = allowed@.map_values(|s: &str| s@);
    let mut i: usize = 0;
    while i < allowed.len()
        invariant
            i <= allowed@.len(),
            al == allowed@.map_values(|s: &str| s@),
            forall|k: int| 0 <= k < i ==> al[k] != a@,
        decreases allowed.len() - i,
    {
        if str_eq(allowed[i], a) {
            assert(al[i as int] == a@);
            return true;
        }
        i += 1;
    }
    false
}

fn expect_one_of(key: &str, actual: &Option<String>, allowed: &[&str], violations: &mut Vec<String>)
    ensures
        views(final(violations)@) == views(old(violations)@) + expect_one_of_spec(
            key@,
            opt_view(*actual),
            allowed@.map_values(|s: &str| s@),
        ),
{
    let ghost start = views(violations@);
    match actual {
        Some(a) => {
            let mut m = concat(key, " ");
            push_str(&mut m, debug_quote(a.as_str()).as_str());
            push_str(&mut m, " is not contract-valid");
            push_when(violations, !one_of(a.as_str(), allowed), m);
        },
        None => {
            violations.push(concat(key, " is missing or not a string"));
            assert(views(violations@) =~= start + seq![key@ + " is missing or not a string"@]);
        },
    }
}

pub open spec fn packet_statuses() -> Seq<Seq<char>> {
    seq!["advisory"@, "incomplete"@, "error"@]
}

pub open spec fn packet_modes() -> Seq<Seq<char>> {
    seq!["instant"@, "draft"@, "fast"@, "deep"@, "ready"@]
}

/// The violations of the packet's identity fields.
pub open spec fn string_field_violations(p: PacketFacts, x: PacketExpectations) -> Seq<Seq<char>> {
    expect_string_spec("schema_version"@, opt_view(p.schema_version), "0.1"@) + expect_string_spec(
        "tool"@,
        opt_view(p.tool),
        "ripr"@,
    ) + expect_string_spec("base"@, opt_view(p.base), x.base@) + expect_string_spec(
        "head"@,
        opt_view(p.head),
        x.head@,
    ) + expect_string_spec("root"@, opt_view(p.root), x.root@)
}

/// The violations of the packet's status and mode.
pub open spec fn enum_field_violations(p: PacketFacts) -> Seq<Seq<char>> {
    expect_one_of_spec("status"@, opt_view(p.status), packet_statuses()) + expect_one_of_spec(
        "mode"@,
        opt_view(p.mode),
        packet_modes(),
    )
}

/// The violations of the packet's identity fields, status and mode.
pub open spec fn identity_violations(p: PacketFacts, x: PacketExpectations) -> Seq<Seq<char>> {
    string_field_violations(p, x) + enum_field_violations(p)
}

fn push_string_field_violations(p: &PacketFacts, x: &PacketExpectations, v: &mut Vec<String>)
    ensures
        views(final(v)@) == views(old(v)@) + string_field_violations(*p, *x),
{
    let ghost start = views(v@);
    expect_string("schema_version", &p.schema_version, "0.1", v);
    expect_string("tool", &p.tool, "ripr", v);
    expect_string("base", &p.base, x.base.as_str(), v);
    expect_string("head", &p.head, x.head.as_str(), v);
    expect_string("root", &p.root, x.root.as_str(), v);
    assert(views(v@) =~= start + string_field_violations(*p, *x));
}

fn push_enum_field_violations(p: &PacketFacts, v: &mut Vec<String>)
    ensures
        views(final(v)@) == views(old(v)@) + enum_field_violations(*p),
{
    let ghost start = views(v@);
    let statuses = ["advisory", "incomplete", "error"];
    assert(statuses@.map_values(|s: &str| s@) =~= packet_statuses());
    expect_one_of("status", &p.status, &statuses, v);
    let modes = ["instant", "draft", "fast", "deep", "ready"];
    assert(modes@.map_values(|s: &str| s@) =~= packet_modes());
    expect_one_of("mode", &p.mode, &modes, v);
    assert(views(v@) =~= start + enum_field_violations(*p));
}

proof fn lemma_assoc(a: Seq<Seq<char>>, b: Seq<Seq<char>>, c: Seq<Seq<char>>)
    ensures
        a + b + c == a + (b + c),
{
    assert(a + b + c =~= a + (b + c));
}

fn push_identity_violations(p: &PacketFacts, x: &PacketExpectations, v: &mut Vec<String>)
    ensures
        views(final(v)@) == views(old(v)@) + identity_violations(*p, *x),
{
    let ghost start = views(v@);
    push_string_field_violations(p, x, v);
    push_enum_field_violations(p, v);
    proof {
        lemma_assoc(start, string_field_violations(*p, *x), enum_field_violations(*p));
    }
}

// ---------------------------------------------------------------------------
// Limits and counts
// ---------------------------------------------------------------------------

/// The violations of the packet's rendering limits.
pub open spec fn limits_violations(l: Option<RenderingLimitsFacts>) -> Seq<Seq<char>> {
    match l {
        None => seq!["rendering_limits is missing or not an object"@],
        Some(f) => reason_if(
            !f.max_inline_comments_is_u64,
            "rendering_limits.max_inline_comments is missing or not an integer"@,
        ) + reason_if(
            !f.max_summary_items_is_u64,
            "rendering_limits.max_summary_items is missing or not an integer"@,
        ),
    }
}

pub fn validate_rendering_limits(l: &Option<RenderingLimitsFacts>, v: &mut Vec<String>)
    ensures
        views(final(v)@) == views(old(v)@) + limits_violations(*l),
{
    let ghost start = views(v@);
    match l {
        None => {
            v.push(owned("rendering_limits is missing or not an object"));
        },
        Some(f) => {
            push_when(
                v,
                !f.max_inline_comments_is_u64,
                owned("rendering_limits.max_inline_comments is missing or not an integer"),
            );
            push_when(
                v,
                !f.max_summary_items_is_u64,
                owned("rendering_limits.max_summary_items is missing or not an integer"),
            );
        },
    }
    assert(views(v@) =~= start + limits_violations(*l));
}

pub open spec fn len_or_zero(n: Option<usize>) -> nat {
    match n {
        Some(k) => k as nat,
        None => 0,
    }
}

/// The violation of one summary count against its array's length.
pub open spec fn count_violation(key: Seq<char>, value: Option<u64>, len: nat) -> Seq<Seq<char>> {
    match value {
        Some(x) => reason_if(
            x != len,
            "summary."@ + key + " is "@ + decimal(x as nat) + ", expected "@ + decimal(len),
        ),
        None => seq!["summary."@ + key + " is missing or not a non-negative integer"@],
    }
}

/// The violations of the packet's summary counts.
pub open spec fn summary_violations(p: PacketFacts) -> Seq<Seq<char>> {
    match p.summary {
        None => seq!["summary is missing or not an object"@],
        Some(s) => count_violation("comments"@, s.comments, len_or_zero(p.comments)) + count_violation(
            "summary_only"@,
            s.summary_only,
            len_or_zero(p.summary_only),
        ) + count_violation("suppressed"@, s.suppressed, len_or_zero(p.suppressed)) + reason_if(
            !s.unchanged_tests_is_bool,
            "summary.unchanged_tests is missing or not a boolean"@,
        ),
    }
}

fn push_count_violation(key: &str, value: Option<u64>, len: Option<usize>, v: &mut Vec<String>)
    ensures
        views(final(v)@) == views(old(v)@) + count_violation(key@, value, len_or_zero(len)),
{
    let ghost start = views(v@);
    let n: usize = match len {
        Some(k) => k,
        None => 0,
    };
    match value {
        Some(x) => {
            let mut m = concat3("summary.", key, " is ");
            push_str(&mut m, u64_to_string(x).as_str());
            push_str(&mut m, ", expected ");
            push_str(&mut m, usize_to_string(n).as_str());
            push_when(v, x as u128 != n as u128, m);
        },
        None => {
            v.push(concat3("summary.", key, " is missing or not a non-negative integer"));
            assert(views(v@) =~= start + count_violation(key@, value, len_or_zero(len)));
        },
    }
}

pub fn validate_summary_counts(p: &PacketFacts, v: &mut Vec<String>)
    ensures
        views(final(v)@) == views(old(v)@) + summary_violations(*p),
{
    let ghost start = views(v@);
    match &p.summary {
        None => {
            v.push(owned("summary is missing or not an object"));
        },
        Some(s) => {
            push_count_violation("comments", s.comments, p.comments, v);
            push_count_violation("summary_only", s.summary_only, p.summary_only, v);
            push_count_violation("suppressed", s.suppressed, p.suppressed, v);
            push_when(
                v,
                !s.unchanged_tests_is_bool,
                owned("summary.unchanged_tests is missing or not a boolean"),
            );
        },
    }
    assert(views(v@) =~= start + summary_violations(*p));
}

// ---------------------------------------------------------------------------
// The run receipt
// ---------------------------------------------------------------------------

pub open spec fn receipt_keys() -> Seq<Seq<char>> {
    seq![
        "schema_version"@,
        "status"@,
        "root_identity"@,
        "base_sha"@,
        "head_sha"@,
        "last_completed_phase"@,
        "active_phase"@,
        "reusable_cache_identity"@,
        "atomic_write_status"@,
    ]
}

/// One violation per required receipt key the receipt lacks, over the
/// first `n` required keys.
pub open spec fn missing_key_violations(keys: Seq<Seq<char>>, required: Seq<Seq<char>>, n: int) -> Seq<Seq<char>>
    decreases n,
{
    if n <= 0 || n > required.len() {
        seq![]
    } else {
        missing_key_violations(keys, required, n - 1) + reason_if(
            !keys.contains(required[n - 1]),
            "run_receipt."@ + required[n - 1] + " is missing"@,
        )
    }
}

pub open spec fn receipt_statuses() -> Seq<Seq<char>> {
    seq!["in_progress"@, "complete"@, "limited_timeout"@, "failed"@]
}

pub open spec fn array_violation(key: Seq<char>, len: Option<usize>) -> Seq<Seq<char>> {
    reason_if(len is None, "run_receipt."@ + key + " is missing or not an array"@)
}

/// `Some("<status>")`, the debug rendering of a present status.
pub open spec fn some_debug(s: Seq<char>) -> Seq<char> {
    "Some("@ + debug_quoted(s) + ")"@
}

/// The violations of a receipt's status-specific fields: a complete run
/// ended its last phase and wrote every artifact; an interrupted run names
/// its phase and its missing artifacts.
pub open spec fn status_rule_violations(r: ReceiptFacts) -> Seq<Seq<char>> {
    match opt_view(r.status) {
        Some(st) => if st == "complete"@ {
            reason_if(
                opt_view(r.last_completed_phase) != Some("artifact_io"@),
                "complete run_receipt.last_completed_phase must be artifact_io"@,
            ) + reason_if(
                !(r.active_phase is Null),
                "complete run_receipt.active_phase must be null"@,
            ) + reason_if(
                len_or_zero(r.completed_artifacts) == 0,
                "complete run_receipt.completed_artifacts must not be empty"@,
            ) + reason_if(
                len_or_zero(r.missing_artifacts) != 0,
                "complete run_receipt.missing_artifacts must be empty"@,
            )
        } else if st == "limited_timeout"@ || st == "failed"@ {
            reason_if(
                !(r.active_phase matches FieldValue::Text(t) && trim(t@).len() != 0),
                some_debug(st) + " run_receipt.active_phase must name the interrupted phase"@,
            ) + reason_if(
                len_or_zero(r.missing_artifacts) == 0,
                some_debug(st) + " run_receipt.missing_artifacts must not be empty"@,
            )
        } else {
            seq![]
        },
        None => seq![],
    }
}

/// The violations of a receipt's required keys, pinned values, status and
/// timeout, and arrays.
pub open spec fn receipt_field_violations(r: ReceiptFacts, x: PacketExpectations) -> Seq<Seq<char>> {
    missing_key_violations(views(r.keys@), receipt_keys(), 9) + expect_string_spec(
        "run_receipt.schema_version"@,
        opt_view(r.schema_version),
        "0.1"@,
    ) + expect_string_spec("run_receipt.base_sha"@, opt_view(r.base_sha), x.base_sha@)
        + expect_string_spec("run_receipt.head_sha"@, opt_view(r.head_sha), x.head_sha@)
        + expect_one_of_spec("run_receipt.status"@, opt_view(r.status), receipt_statuses())
        + reason_if(
        !(r.configured_timeout_ms matches Some(t) && t != 0),
        "run_receipt.configured_timeout_ms is missing or invalid"@,
    )
}

pub open spec fn receipt_array_violations(r: ReceiptFacts) -> Seq<Seq<char>> {
    array_violation("completed_artifacts"@, r.completed_artifacts) + array_violation(
        "missing_artifacts"@,
        r.missing_artifacts,
    ) + array_violation("limitations"@, r.limitations) + array_violation(
        "non_claims"@,
        r.non_claims,
    )
}

/// Every violation of the packet's run receipt, in order.
pub open spec fn receipt_violations(p: PacketFacts, x: PacketExpectations) -> Seq<Seq<char>> {
    match p.run_receipt {
        None => seq!["run_receipt is missing or not an object"@],
        Some(r) => receipt_field_violations(r, x) + receipt_array_violations(r)
            + status_rule_violations(r),
    }
}

fn has_key(keys: &Vec<String>, key: &str) -> (r: bool)
    ensures
        r == views(keys@).contains(key@),
{
    crate::release_denominator::in_list(keys, key)
}

fn push_missing_keys(keys: &Vec<String>, v: &mut Vec<String>)
    ensures
        views(final(v)@) == views(old(v)@) + missing_key_violations(views(keys@), receipt_keys(), 9),
{
    let ghost start = views(v@);
    let required = [
        "schema_version",
        "status",
        "root_identity",
        "base_sha",
        "head_sha",
        "last_completed_phase",
        "active_phase",
        "reusable_cache_identity",
        "atomic_write_status",
    ];
    let ghost req = receipt_keys();
    assert(required@.map_values(|s: &str| s@) =~= req);
    let mut i: usize = 0;
    while i < 9
        invariant
            i <= 9,
            required@.len() == 9,
            required@.map_values(|s: &str| s@) == req,
            req == receipt_keys(),
            views(v@) == start + missing_key_violations(views(keys@), req, i as int),
        decreases 9 - i,
    {
        assert(req[i as int] == required@[i as int]@);
        let key = required[i];
        push_when(v, !has_key(keys, key), concat3("run_receipt.", key, " is missing"));
        assert(views(v@) =~= start + missing_key_violations(views(keys@), req, i + 1));
        i += 1;
    }
}

fn push_receipt_field_violations(r: &ReceiptFacts, x: &PacketExpectations, v: &mut Vec<String>)
    ensures
        views(final(v)@) == views(old(v)@) + receipt_field_violations(*r, *x),
{
    let ghost start = views(v@);
    push_missing_keys(&r.keys, v);
    expect_string("run_receipt.schema_version", &r.schema_version, "0.1", v);
    expect_string("run_receipt.base_sha", &r.base_sha, x.base_sha.as_str(), v);
    expect_string("run_receipt.head_sha", &r.head_sha, x.head_sha.as_str(), v);
    let statuses = ["in_progress", "complete", "limited_timeout", "failed"];
    assert(statuses@.map_values(|s: &str| s@) =~= receipt_statuses());
    expect_one_of("run_receipt.status", &r.status, &statuses, v);
    let timeout_ok = match r.configured_timeout_ms {
        Some(t) => t != 0,
        None => false,
    };
    push_when(v, !timeout_ok, owned("run_receipt.configured_timeout_ms is missing or invalid"));
    assert(views(v@) =~= start + receipt_field_violations(*r, *x));
}

fn push_array_violation(key: &str, len: Option<usize>, v: &mut Vec<String>)
    ensures
        views(final(v)@) == views(old(v)@) + array_violation(key@, len),
{
    push_when(v, len.is_none(), concat3("run_receipt.", key, " is missing or not an array"));
}

fn push_receipt_array_violations(r: &ReceiptFacts, v: &mut Vec<String>)
    ensures
        views(final(v)@) == views(old(v)@) + receipt_array_violations(*r),
{
    let ghost start = views(v@);
    push_array_violation("completed_artifacts", r.completed_artifacts, v);
    push_array_violation("missing_artifacts", r.missing_artifacts, v);
    push_array_violation("limitations", r.limitations, v);
    push_array_violation("non_claims", r.non_claims, v);
    assert(views(v@) =~= start + receipt_array_violations(*r));
}

fn len_or_zero_exec(n: Option<usize>) -> (r: usize)
    ensures
        r == len_or_zero(n),
{
    match n {
        Some(k) => k,
        None => 0,
    }
}

fn push_status_rule_violations(r: &ReceiptFacts, v: &mut Vec<String>)
    ensures
        views(final(v)@) == views(old(v)@) + status_rule_violations(*r),
{
    let ghost start = views(v@);
    match &r.status {
        Some(st) => {
            if str_eq(st.as_str(), "complete") {
                let finished = match &r.last_completed_phase {
                    Some(p) => str_eq(p.as_str(), "artifact_io"),
                    None => false,
                };
                push_when(
                    v,
                    !finished,
                    owned("complete run_receipt.last_completed_phase must be artifact_io"),
                );
                let null = match &r.active_phase {
                    FieldValue::Null => true,
                    _ => false,
                };
                push_when(v, !null, owned("complete run_receipt.active_phase must be null"));
                push_when(
                    v,
                    len_or_zero_exec(r.completed_artifacts) == 0,
                    owned("complete run_receipt.completed_artifacts must not be empty"),
                );
                push_when(
                    v,
                    len_or_zero_exec(r.missing_artifacts) != 0,
                    owned("complete run_receipt.missing_artifacts must be empty"),
                );
            } else if str_eq(st.as_str(), "limited_timeout") || str_eq(st.as_str(), "failed") {
                let named = match &r.active_phase {
                    FieldValue::Text(t) => !str_is_blank(t.as_str()),
                    _ => false,
                };
                let shown = concat3("Some(", debug_quote(st.as_str()).as_str(), ")");
                push_when(
                    v,
                    !named,
                    concat(shown.as_str(), " run_receipt.active_phase must name the interrupted phase"),
                );
                push_when(
                    v,
                    len_or_zero_exec(r.missing_artifacts) == 0,
                    concat(shown.as_str(), " run_receipt.missing_artifacts must not be empty"),
                );
            }
        },
        None => {},
    }
    assert(views(v@) =~= start + status_rule_violations(*r));
}

/// Appends every violation of the packet's run receipt.
pub fn validate_run_receipt(p: &PacketFacts, x: &PacketExpectations, v: &mut Vec<String>)
    ensures
        views(final(v)@) == views(old(v)@) + receipt_violations(*p, *x),
{
    let ghost start = views(v@);
    match &p.run_receipt {
        None => {
            v.push(owned("run_receipt is missing or not an object"));
            assert(views(v@) =~= start + receipt_violations(*p, *x));
        },
        Some(r) => {
            push_receipt_field_violations(r, x, v);
            let ghost a = views(v@);
            push_receipt_array_violations(r, v);
            push_status_rule_violations(r, v);
            proof {
                lemma_assoc(start, receipt_field_violations(*r, *x), receipt_array_violations(*r));
                lemma_assoc(
                    start,
                    receipt_field_violations(*r, *x) + receipt_array_violations(*r),
                    status_rule_violations(*r),
                );
            }
        },
    }
}

// ---------------------------------------------------------------------------
// The producer output
// ---------------------------------------------------------------------------

pub open spec fn filled(o: Option<String>) -> bool {
    opt_view(o) matches Some(t) && trim(t).len() != 0
}

pub open spec fn at_path(path: Seq<char>) -> Seq<char> {
    "--check-output "@ + path
}

/// The violations of the producer output against the packet.
pub open spec fn check_output_violations(p: PacketFacts, x: PacketExpectations) -> Seq<Seq<char>> {
    match x.check_output {
        None => seq![],
        Some((path, read)) => match read {
            CheckOutputRead::Unreadable(e) => seq![at_path(path@) + " is unreadable: "@ + e@],
            CheckOutputRead::Invalid(e) => seq![at_path(path@) + " is invalid JSON: "@ + e@],
            CheckOutputRead::Parsed(f) => producer_violations(path@, f, p),
        },
    }
}

pub open spec fn field_missing(path: Seq<char>, field: Seq<char>, value: Option<String>) -> Seq<Seq<char>> {
    reason_if(!filled(value), at_path(path) + " is missing producer field "@ + field)
}

pub open spec fn producer_violations(path: Seq<char>, f: ProducerFacts, p: PacketFacts) -> Seq<Seq<char>> {
    field_missing(path, "schema_version"@, f.schema_version) + field_missing(path, "tool"@, f.tool)
        + field_missing(path, "mode"@, f.mode) + field_missing(path, "root"@, f.root)
        + field_missing(path, "base"@, f.base) + reason_if(
        opt_view(f.tool) != Some("ripr"@),
        at_path(path) + " producer tool must be ripr"@,
    ) + reason_if(
        !f.summary_is_object || !f.findings_is_array,
        at_path(path) + " requires producer summary and findings"@,
    ) + reason_if(
        opt_view(f.analysis_outcome) != opt_view(p.analysis_outcome),
        at_path(path) + " analysis_outcome does not match rendered review packet"@,
    )
}

fn filled_exec(o: &Option<String>) -> (r: bool)
    ensures
        r == filled(*o),
{
    match o {
        Some(t) => !str_is_blank(t.as_str()),
        None => false,
    }
}

fn opt_text_eq(a: &Option<String>, b: &Option<String>) -> (r: bool)
    ensures
        r == (opt_view(*a) == opt_view(*b)),
{
    match (a, b) {
        (Some(x), Some(y)) => str_eq(x.as_str(), y.as_str()),
        (None, None) => true,
        _ => false,
    }
}

fn push_field_missing(path: &str, field: &str, value: &Option<String>, v: &mut Vec<String>)
    ensures
        views(final(v)@) == views(old(v)@) + field_missing(path@, field@, *value),
{
    let mut m = concat3("--check-output ", path, " is missing producer field ");
    push_str(&mut m, field);
    push_when(v, !filled_exec(value), m);
}

fn push_producer_violations(path: &str, f: &ProducerFacts, p: &PacketFacts, v: &mut Vec<String>)
    ensures
        views(final(v)@) == views(old(v)@) + producer_violations(path@, *f, *p),
{
    let ghost start = views(v@);
    push_field_missing(path, "schema_version", &f.schema_version, v);
    push_field_missing(path, "tool", &f.tool, v);
    push_field_missing(path, "mode", &f.mode, v);
    push_field_missing(path, "root", &f.root, v);
    push_field_missing(path, "base", &f.base, v);
    let is_ripr = match &f.tool {
        Some(t) => str_eq(t.as_str(), "ripr"),
        None => false,
    };
    push_when(v, !is_ripr, concat3("--check-output ", path, " producer tool must be ripr"));
    push_when(
        v,
        !f.summary_is_object || !f.findings_is_array,
        concat3("--check-output ", path, " requires producer summary and findings"),
    );
    push_when(
        v,
        !opt_text_eq(&f.analysis_outcome, &p.analysis_outcome),
        concat3("--check-output ", path, " analysis_outcome does not match rendered review packet"),
    );
    assert(views(v@) =~= start + producer_violations(path@, *f, *p));
}

/// Appends the violations of the named producer output against the packet.
pub fn validate_check_output_against_packet(p: &PacketFacts, x: &PacketExpectations, v: &mut Vec<String>)
    ensures
        views(final(v)@) == views(old(v)@) + check_output_violations(*p, *x),
{
    let ghost start = views(v@);
    match &x.check_output {
        None => {
            assert(views(v@) =~= start + check_output_violations(*p, *x));
        },
        Some((path, read)) => match read {
            CheckOutputRead::Unreadable(e) => {
                let mut m = concat3("--check-output ", path.as_str(), " is unreadable: ");
                push_str(&mut m, e.as_str());
                v.push(m);
                assert(views(v@) =~= start + check_output_violations(*p, *x));
            },
            CheckOutputRead::Invalid(e) => {
                let mut m = concat3("--check-output ", path.as_str(), " is invalid JSON: ");
                push_str(&mut m, e.as_str());
                v.push(m);
                assert(views(v@) =~= start + check_output_violations(*p, *x));
            },
            CheckOutputRead::Parsed(f) => {
                push_producer_violations(path.as_str(), f, p, v);
            },
        },
    }
}

// ---------------------------------------------------------------------------
// The packet
// ---------------------------------------------------------------------------

pub open spec fn tail_violations(p: PacketFacts, x: PacketExpectations) -> Seq<Seq<char>> {
    reason_if(p.comments is None, "comments is missing or not an array"@) + reason_if(
        p.summary_only is None,
        "summary_only is missing or not an array"@,
    ) + reason_if(p.suppressed is None, "suppressed is missing or not an array"@) + reason_if(
        p.warnings is None,
        "warnings is missing or not an array"@,
    ) + reason_if(!filled(p.limits_note), "limits_note is missing or empty"@) + reason_if(
        x.markdown_required && !x.markdown_exists,
        "target/ripr/review/comments.md is missing"@,
    )
}

/// Every contract violation of a rendered packet, in order: identity,
/// status and mode; rendering limits; summary counts; run receipt;
/// producer output; arrays, limits note and Markdown artifact.
pub open spec fn packet_violations(p: PacketFacts, x: PacketExpectations) -> Seq<Seq<char>> {
    identity_violations(p, x) + limits_violations(p.rendering_limits) + summary_violations(p)
        + receipt_violations(p, x) + check_output_violations(p, x) + tail_violations(p, x)
}

fn push_tail_violations(p: &PacketFacts, x: &PacketExpectations, v: &mut Vec<String>)
    ensures
        views(final(v)@) == views(old(v)@) + tail_violations(*p, *x),
{
    let ghost start = views(v@);
    push_when(v, p.comments.is_none(), owned("comments is missing or not an array"));
    push_when(v, p.summary_only.is_none(), owned("summary_only is missing or not an array"));
    push_when(v, p.suppressed.is_none(), owned("suppressed is missing or not an array"));
    push_when(v, p.warnings.is_none(), owned("warnings is missing or not an array"));
    push_when(v, !filled_exec(&p.limits_note), owned("limits_note is missing or empty"));
    push_when(
        v,
        x.markdown_required && !x.markdown_exists,
        owned("target/ripr/review/comments.md is missing"),
    );
    assert(views(v@) =~= start + tail_violations(*p, *x));
}

/// Every contract violation of a rendered packet.
pub fn validate_packet_value(p: &PacketFacts, x: &PacketExpectations) -> (r: Vec<String>)
    ensures
        views(r@) == packet_violations(*p, *x),
{
    let mut v: Vec<String> = Vec::new();
    push_identity_violations(p, x, &mut v);
    let ghost a = views(v@);
    validate_rendering_limits(&p.rendering_limits, &mut v);
    let ghost b = views(v@);
    validate_summary_counts(p, &mut v);
    let ghost c = views(v@);
    validate_run_receipt(p, x, &mut v);
    let ghost d = views(v@);
    validate_check_output_against_packet(p, x, &mut v);
    let ghost e = views(v@);
    push_tail_violations(p, x, &mut v);
    assert(a =~= identity_violations(*p, *x));
    assert(b == identity_violations(*p, *x) + limits_violations(p.rendering_limits));
    assert(c == identity_violations(*p, *x) + limits_violations(p.rendering_limits)
        + summary_violations(*p));
    assert(d == identity_violations(*p, *x) + limits_violations(p.rendering_limits)
        + summary_violations(*p) + receipt_violations(*p, *x));
    assert(e == identity_violations(*p, *x) + limits_violations(p.rendering_limits)
        + summary_violations(*p) + receipt_violations(*p, *x) + check_output_violations(*p, *x));
    assert(views(v@) == packet_violations(*p, *x));
    v
}

/// The outcome of validating a packet: its violations, one per line.
pub fn violations_result(violations: &Vec<String>) -> (r: Result<(), String>)
    ensures
        violations@.len() == 0 ==> r is Ok,
        violations@.len() != 0 ==> (r matches Err(e) && e@ == "review comments contract violations:\n"@
            + join(crate::text::wrapped(views(violations@), "- "@, ""@), "\n"@)),
{
    if violations.len() == 0 {
        return Ok(());
    }
    let mut lines: Vec<String> = Vec::new();
    let mut i: usize = 0;
    while i < violations.len()
        invariant
            i <= violations@.len(),
            views(lines@) == crate::text::wrapped(views(violations@).take(i as int), "- "@, ""@),
        decreases violations.len() - i,
    {
        let ghost before = views(lines@);
        let line = concat3("- ", violations[i].as_str(), "");
        let ghost lv = line@;
        lines.push(line);
        assert(views(lines@) =~= before.push(lv));
        assert(lv == "- "@ + views(violations@)[i as int] + ""@);
        assert(views(violations@).take(i + 1) =~= views(violations@).take(i as int).push(
            violations@[i as int]@,
        ));
        assert(views(lines@) =~= crate::text::wrapped(views(violations@).take(i + 1), "- "@, ""@));
        i += 1;
    }
    assert(views(violations@).take(violations@.len() as int) =~= views(violations@));
    let mut m = owned("review comments contract violations:\n");
    push_joined(&mut m, &lines, "\n");
    Err(m)
}

} // verus!

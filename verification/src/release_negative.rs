//! The release negative corpus: the case registry, the closed evaluation of
//! each rejection, the per-case receipt verdict, and the corpus report.

use vstd::prelude::*;
use crate::release::{CommandResult, parse_version_only_args, scan_version_args};
use crate::release_server::{sha256_hex, hex, sha256_digest};
use crate::text::{
    owned, str_eq, str_trim, str_contains, chars_of, string_from, split_lines, push_str,
    views, trim, lines, contains, match_count, replace_first, str_match_count,
    str_replace_first, str_replace, replace_all, debug_quoted, debug_quote, decimal,
    decimal_int, i32_to_string, usize_to_string, join, push_joined, concat_all, occurs_at,
    first_match, lemma_first_match, char_index, char_index_from, find_first, match_count_exec,
    utf8, utf8_bytes, utf8_offset, str_is_blank, concat, concat3,
};

verus! {

pub open spec fn before_artifact() -> Seq<char> {
    "before.repo-exposure.json"@
}

pub open spec fn after_artifact() -> Seq<char> {
    "after.repo-exposure.json"@
}

// ---------------------------------------------------------------------------
// Arguments
// ---------------------------------------------------------------------------

/// Parsed `release-negative-corpus` arguments.
#[derive(Clone, Debug, PartialEq, Eq)]
pub struct ReleaseNegativeArgs {
    pub version: String,
}

pub open spec fn negative_usage_text() -> Seq<char> {
    "Usage: cargo xtask release-negative-corpus --version <version>"@
}

/// The usage line of `release-negative-corpus`.
pub fn release_negative_usage() -> (r: String)
    ensures
        r@ == negative_usage_text(),
{
    owned("Usage: cargo xtask release-negative-corpus --version <version>")
}

/// Parses `release-negative-corpus` arguments: `--version <version>` is
/// required and must not be blank.
pub fn parse_release_negative_args(args: &[String]) -> (r: Result<ReleaseNegativeArgs, String>)
    ensures
        match r {
            Ok(parsed) => scan_version_args(
                views(args@),
                0,
                None,
                "release-negative-corpus"@,
                negative_usage_text(),
            ) == Ok::<Seq<char>, Seq<char>>(parsed.version@),
            Err(e) => scan_version_args(
                views(args@),
                0,
                None,
                "release-negative-corpus"@,
                negative_usage_text(),
            ) == Err::<Seq<char>, Seq<char>>(e@),
        },
{
    let usage = release_negative_usage();
    match parse_version_only_args(args, "release-negative-corpus", usage.as_str()) {
        Ok(version) => Ok(ReleaseNegativeArgs { version }),
        Err(e) => Err(e),
    }
}

// ---------------------------------------------------------------------------
// Case registry
// ---------------------------------------------------------------------------

/// What the installed binary must do with a mutated state: reject it with
/// a closed reason token.
#[derive(Clone, Debug)]
pub enum Expectation {
    Reject { token: String, out_absent: Option<String>, out_preserved: Option<(String, String)> },
}

impl Expectation {
    /// A plain rejection carrying `token`.
    pub fn reject(token: &str) -> (r: Self)
        ensures
            r matches Expectation::Reject { token: t, out_absent: None, out_preserved: None }
                && t@ == token@,
    {
        Expectation::Reject { token: owned(token), out_absent: None, out_preserved: None }
    }

    /// The failure kind the case expects: its token.
    pub fn expected_kind(&self) -> (r: String)
        ensures
            self matches Expectation::Reject { token, .. } && r@ == token@,
    {
        match self {
            Expectation::Reject { token, .. } => owned(token.as_str()),
        }
    }
}

/// One registered case: its id, the group that produces its family, and a
/// description.
#[derive(Clone, Debug, PartialEq, Eq)]
pub struct CaseSpec {
    pub id: String,
    pub group: String,
    pub description: String,
}

pub open spec fn case_rows() -> Seq<(Seq<char>, Seq<char>, Seq<char>)> {
    seq![
        ("artifact-producer-tool"@, "artifact"@, "wrong producer tool marker"@),
        ("artifact-repo-exposure-schema"@, "artifact"@, "unsupported producer/artifact schema"@),
        (
            "artifact-wrong-repository-root"@,
            "artifact"@,
            "artifact ported to a second equivalent root (concrete-root check)"@,
        ),
        ("artifact-revision-symbolic"@, "artifact"@, "symbolic (malformed) revision"@),
        (
            "artifact-revision-absent"@,
            "artifact"@,
            "well-formed revision absent from the checked repository"@,
        ),
        ("artifact-revision-noncommit"@, "artifact"@, "revision names a blob, not a commit"@),
        (
            "artifact-snapshot-wrong-revision"@,
            "artifact"@,
            "snapshot identity bound to the wrong revision"@,
        ),
        (
            "artifact-commitment-tampered"@,
            "artifact"@,
            "tampered content commitment (stale digest)"@,
        ),
        ("artifact-commitment-missing"@, "artifact"@, "missing content commitment"@),
        ("artifact-commitment-duplicate"@, "artifact"@, "duplicate content commitment"@),
        (
            "artifact-commitment-malformed"@,
            "artifact"@,
            "malformed content commitment digest shape"@,
        ),
    ]
}

pub open spec fn case_spec_view(c: CaseSpec) -> (Seq<char>, Seq<char>, Seq<char>) {
    (c.id@, c.group@, c.description@)
}

fn case_spec(id: &str, group: &str, description: &str) -> (r: CaseSpec)
    ensures
        case_spec_view(r) == (id@, group@, description@),
{
    CaseSpec { id: owned(id), group: owned(group), description: owned(description) }
}

/// The landed case matrix.
pub fn case_specs() -> (r: Vec<CaseSpec>)
    ensures
        r@.map_values(|c: CaseSpec| case_spec_view(c)) == case_rows(),
{
    let mut v: Vec<CaseSpec> = Vec::new();
    v.push(case_spec("artifact-producer-tool", "artifact", "wrong producer tool marker"));
    v.push(
        case_spec(
            "artifact-repo-exposure-schema",
            "artifact",
            "unsupported producer/artifact schema",
        ),
    );
    v.push(
        case_spec(
            "artifact-wrong-repository-root",
            "artifact",
            "artifact ported to a second equivalent root (concrete-root check)",
        ),
    );
    v.push(case_spec("artifact-revision-symbolic", "artifact", "symbolic (malformed) revision"));
    v.push(
        case_spec(
            "artifact-revision-absent",
            "artifact",
            "well-formed revision absent from the checked repository",
        ),
    );
    v.push(
        case_spec(
            "artifact-revision-noncommit",
            "artifact",
            "revision names a blob, not a commit",
        ),
    );
    v.push(
        case_spec(
            "artifact-snapshot-wrong-revision",
            "artifact",
            "snapshot identity bound to the wrong revision",
        ),
    );
    v.push(
        case_spec(
            "artifact-commitment-tampered",
            "artifact",
            "tampered content commitment (stale digest)",
        ),
    );
    v.push(case_spec("artifact-commitment-missing", "artifact", "missing content commitment"));
    v.push(
        case_spec("artifact-commitment-duplicate", "artifact", "duplicate content commitment"),
    );
    v.push(
        case_spec(
            "artifact-commitment-malformed",
            "artifact",
            "malformed content commitment digest shape",
        ),
    );
    assert(v@.map_values(|c: CaseSpec| case_spec_view(c)) =~= case_rows());
    v
}

/// The closed family vocabulary and the case group that produces each
/// family.
pub open spec fn family_groups() -> Seq<(Seq<char>, Seq<Seq<char>>)> {
    seq![
        ("artifact"@, seq!["artifact"@]),
        ("pair"@, seq!["pair"@]),
        ("verify_receipt"@, seq!["verify"@, "receipt"@]),
    ]
}

pub open spec fn group_landed(groups: Seq<Seq<char>>, g: Seq<char>) -> bool {
    exists|i: int| 0 <= i < groups.len() && groups[i] == g
}

/// Families split into (covered, deferred) according to whether the case
/// registry has a case in the producing group.
pub open spec fn coverage_of(
    table: Seq<(Seq<char>, Seq<Seq<char>>)>,
    groups: Seq<Seq<char>>,
) -> (Seq<Seq<char>>, Seq<Seq<char>>)
    decreases table.len(),
{
    if table.len() == 0 {
        (seq![], seq![])
    } else {
        let rest = coverage_of(table.drop_last(), groups);
        let (g, families) = table.last();
        if group_landed(groups, g) {
            (rest.0 + families, rest.1)
        } else {
            (rest.0, rest.1 + families)
        }
    }
}

/// The groups of the case registry, in order.
pub open spec fn registry_groups() -> Seq<Seq<char>> {
    case_rows().map_values(|r: (Seq<char>, Seq<char>, Seq<char>)| r.1)
}

fn push_families(out: &mut Vec<String>, families: &[&str])
    ensures
        views(final(out)@) == views(old(out)@) + families@.map_values(|f: &str| f@),
{
    let ghost start = views(out@);
    let mut i: usize = 0;
    while i < families.len()
        invariant
            i <= families@.len(),
            views(out@) == start + families@.map_values(|f: &str| f@).take(i as int),
        decreases families.len() - i,
    {
        let ghost before = out@;
        out.push(owned(families[i]));
        assert(views(out@) =~= views(before).push(families@[i as int]@));
        assert(families@.map_values(|f: &str| f@).take(i + 1) =~= families@.map_values(
            |f: &str| f@,
        ).take(i as int).push(families@[i as int]@));
        assert(views(out@) =~= start + families@.map_values(|f: &str| f@).take(i + 1));
        i += 1;
    }
    assert(families@.map_values(|f: &str| f@).take(families@.len() as int) =~= families@.map_values(
        |f: &str| f@,
    ));
}

/// Covered and deferred families, derived from the case registry.
pub fn family_coverage() -> (r: (Vec<String>, Vec<String>))
    ensures
        (views(r.0@), views(r.1@)) == coverage_of(family_groups(), registry_groups()),
{
    let specs = case_specs();
    let ghost groups = registry_groups();
    assert(specs@.map_values(|c: CaseSpec| c.group@) =~= groups) by {
        assert forall|i: int| 0 <= i < groups.len() implies specs@[i].group@ == groups[i] by {
            assert(case_spec_view(specs@[i]) == case_rows()[i]);
        }
    }
    let table: Vec<(&str, Vec<&str>)> = vec![
        ("artifact", vec!["artifact"]),
        ("pair", vec!["pair"]),
        ("verify_receipt", vec!["verify", "receipt"]),
    ];
    let ghost tv = table@.map_values(|e: (&str, Vec<&str>)| (e.0@, e.1@.map_values(|f: &str| f@)));
    assert(tv =~= family_groups()) by {
        assert(table@[0].1@.map_values(|f: &str| f@) =~= seq!["artifact"@]);
        assert(table@[1].1@.map_values(|f: &str| f@) =~= seq!["pair"@]);
        assert(table@[2].1@.map_values(|f: &str| f@) =~= seq!["verify"@, "receipt"@]);
    }
    let mut covered: Vec<String> = Vec::new();
    let mut deferred: Vec<String> = Vec::new();
    let mut t: usize = 0;
    assert(tv.take(0) =~= Seq::<(Seq<char>, Seq<Seq<char>>)>::empty());
    while t < table.len()
        invariant
            t <= table@.len(),
            tv == table@.map_values(|e: (&str, Vec<&str>)| (e.0@, e.1@.map_values(|f: &str| f@))),
            groups == specs@.map_values(|c: CaseSpec| c.group@),
            (views(covered@), views(deferred@)) == coverage_of(tv.take(t as int), groups),
        decreases table.len() - t,
    {
        let group = table[t].0;
        let mut landed = false;
        let mut k: usize = 0;
        while k < specs.len()
            invariant
                k <= specs@.len(),
                groups == specs@.map_values(|c: CaseSpec| c.group@),
                landed == exists|j: int| 0 <= j < k && groups[j] == group@,
            decreases specs.len() - k,
        {
            assert(groups[k as int] == specs@[k as int].group@);
            if str_eq(specs[k].group.as_str(), group) {
                landed = true;
            }
            k += 1;
        }
        assert(tv.take(t + 1).drop_last() =~= tv.take(t as int));
        assert(tv.take(t + 1).last() == tv[t as int]);
        if landed {
            push_families(&mut covered, table[t].1.as_slice());
        } else {
            push_families(&mut deferred, table[t].1.as_slice());
        }
        t += 1;
    }
    assert(tv.take(table@.len() as int) =~= tv);
    (covered, deferred)
}

/// The deferred negatives that have no real producer, with their recorded
/// dispositions.
pub fn deferred_dispositions() -> (r: Vec<(String, String)>)
    ensures
        r@.map_values(|d: (String, String)| (d.0@, d.1@)) == seq![
            (
                "migration-claims-fresh-production"@,
                "not_applicable: no migration producer exists on main; deferred until a real migration producer makes the condition producible"@,
            ),
            (
                "binary-artifact-inventory-disagreement"@,
                "not_applicable: no inventory-bearing producer exists on main; deferred until a real inventory producer makes the condition producible"@,
            ),
        ],
{
    let mut v: Vec<(String, String)> = Vec::new();
    v.push(
        (
            owned("migration-claims-fresh-production"),
            owned(
                "not_applicable: no migration producer exists on main; deferred until a real migration producer makes the condition producible",
            ),
        ),
    );
    v.push(
        (
            owned("binary-artifact-inventory-disagreement"),
            owned(
                "not_applicable: no inventory-bearing producer exists on main; deferred until a real inventory producer makes the condition producible",
            ),
        ),
    );
    assert(v@.map_values(|d: (String, String)| (d.0@, d.1@)) =~= seq![
        (
            "migration-claims-fresh-production"@,
            "not_applicable: no migration producer exists on main; deferred until a real migration producer makes the condition producible"@,
        ),
        (
            "binary-artifact-inventory-disagreement"@,
            "not_applicable: no inventory-bearing producer exists on main; deferred until a real inventory producer makes the condition producible"@,
        ),
    ]);
    v
}

/// The `agent verify` command line for an artifact pair.
pub fn agent_verify_argv(before: &str, after: &str) -> (r: Vec<String>)
    ensures
        views(r@) == seq![
            "agent"@,
            "verify"@,
            "--root"@,
            "."@,
            "--before"@,
            before@,
            "--after"@,
            after@,
            "--json"@,
        ],
{
    let mut v: Vec<String> = Vec::new();
    v.push(owned("agent"));
    v.push(owned("verify"));
    v.push(owned("--root"));
    v.push(owned("."));
    v.push(owned("--before"));
    v.push(owned(before));
    v.push(owned("--after"));
    v.push(owned(after));
    v.push(owned("--json"));
    assert(views(v@) =~= seq![
        "agent"@,
        "verify"@,
        "--root"@,
        "."@,
        "--before"@,
        before@,
        "--after"@,
        after@,
        "--json"@,
    ]);
    v
}

/// The artifact pair retained for every pair case, under its own name.
pub fn retain_pair() -> (r: Vec<(String, String)>)
    ensures
        r@.map_values(|d: (String, String)| (d.0@, d.1@)) == seq![
            (before_artifact(), before_artifact()),
            (after_artifact(), after_artifact()),
        ],
{
    let mut v: Vec<(String, String)> = Vec::new();
    v.push((owned("before.repo-exposure.json"), owned("before.repo-exposure.json")));
    v.push((owned("after.repo-exposure.json"), owned("after.repo-exposure.json")));
    assert(v@.map_values(|d: (String, String)| (d.0@, d.1@)) =~= seq![
        (before_artifact(), before_artifact()),
        (after_artifact(), after_artifact()),
    ]);
    v
}

// ---------------------------------------------------------------------------
// Candidate, baseline and per-case receipts
// ---------------------------------------------------------------------------

/// The installed candidate binary: its path, `--version` output and
/// prefixed SHA-256.
#[derive(Clone, Debug)]
pub struct CandidateIdentity {
    pub path: String,
    pub version_output: String,
    pub sha256: String,
}

/// The digest of one retained artifact, with the identities a
/// repo-exposure artifact declares.
#[derive(Clone, Debug)]
pub struct ArtifactDigestRecord {
    pub name: String,
    pub sha256: String,
    pub input_identity: Option<String>,
    pub snapshot_identity: Option<String>,
}

/// The authentic baseline chain every case starts from.
#[derive(Clone, Debug)]
pub struct BaselineContext {
    pub fixture_root: String,
    pub before_sha: String,
    pub after_sha: String,
    pub artifacts: Vec<ArtifactDigestRecord>,
}

/// The evidence recorded for one case and its verdict.
#[derive(Clone, Debug)]
pub struct CaseReceipt {
    pub case_id: String,
    pub group: String,
    pub description: String,
    pub mutation: String,
    pub candidate_path: String,
    pub candidate_version: String,
    pub candidate_sha256: String,
    pub fixture_root: String,
    pub before_sha: String,
    pub after_sha: String,
    pub argv: Vec<String>,
    pub control_argv: Vec<String>,
    pub original_artifacts: Vec<ArtifactDigestRecord>,
    pub mutated_artifacts: Vec<ArtifactDigestRecord>,
    pub expected_failure_kind: String,
    pub actual_failure_kind: String,
    pub exit_status: Option<i32>,
    pub process_outcome: String,
    pub restoration_outcome: String,
    pub control_outcome: String,
    pub cleanup_outcome: String,
    pub status: String,
    pub violations: Vec<String>,
    pub details: Vec<String>,
}

/// A case passes only when the command was rejected as expected, the state
/// was restored byte-exactly, the control rerun passed, the workspace was
/// removed, and no violation was recorded.
pub open spec fn receipt_passes(r: CaseReceipt) -> bool {
    &&& r.process_outcome@ == "rejected_as_expected"@
    &&& r.restoration_outcome@ == "restored_byte_exact"@
    &&& r.control_outcome@ == "pass"@
    &&& r.cleanup_outcome@ == "removed"@
    &&& r.violations@.len() == 0
}

/// The verdict `finalize` records.
pub open spec fn receipt_status(r: CaseReceipt) -> Seq<char> {
    if receipt_passes(r) {
        "pass"@
    } else {
        "fail"@
    }
}

/// Every field but the verdict agrees.
pub open spec fn same_evidence(a: CaseReceipt, b: CaseReceipt) -> bool {
    &&& a.case_id == b.case_id
    &&& a.group == b.group
    &&& a.description == b.description
    &&& a.mutation == b.mutation
    &&& a.candidate_path == b.candidate_path
    &&& a.candidate_version == b.candidate_version
    &&& a.candidate_sha256 == b.candidate_sha256
    &&& a.fixture_root == b.fixture_root
    &&& a.before_sha == b.before_sha
    &&& a.after_sha == b.after_sha
    &&& a.argv == b.argv
    &&& a.control_argv == b.control_argv
    &&& a.original_artifacts == b.original_artifacts
    &&& a.mutated_artifacts == b.mutated_artifacts
    &&& a.expected_failure_kind == b.expected_failure_kind
    &&& a.actual_failure_kind == b.actual_failure_kind
    &&& a.exit_status == b.exit_status
    &&& a.process_outcome == b.process_outcome
    &&& a.restoration_outcome == b.restoration_outcome
    &&& a.control_outcome == b.control_outcome
    &&& a.cleanup_outcome == b.cleanup_outcome
    &&& a.violations == b.violations
    &&& a.details == b.details
}

/// A case passes exactly when the command was rejected as expected, the
/// state was restored byte-exactly, the control rerun passed, the workspace
/// was removed and no violation was recorded; any other receipt fails.
pub proof fn law_case_passes_only_when_every_stage_succeeded(r: CaseReceipt)
    ensures
        receipt_status(r) == "pass"@ || receipt_status(r) == "fail"@,
        (receipt_status(r) == "pass"@) <==> (r.process_outcome@ == "rejected_as_expected"@
            && r.restoration_outcome@ == "restored_byte_exact"@ && r.control_outcome@ == "pass"@
            && r.cleanup_outcome@ == "removed"@ && r.violations@.len() == 0),
{
    reveal_strlit("pass");
    reveal_strlit("fail");
    assert("pass"@[0] != "fail"@[0]);
}

impl CaseReceipt {
    /// A fresh receipt for `spec`: identity fields filled in, every outcome
    /// `not_run`, and the verdict `fail` until `finalize` decides.
    pub fn new(spec: &CaseSpec, candidate: &CandidateIdentity, baseline: &BaselineContext) -> (r:
        Self)
        ensures
            r.case_id@ == spec.id@,
            r.group@ == spec.group@,
            r.description@ == spec.description@,
            r.mutation@.len() == 0,
            r.candidate_path@ == candidate.path@,
            r.candidate_version@ == candidate.version_output@,
            r.candidate_sha256@ == candidate.sha256@,
            r.fixture_root@.len() == 0,
            r.before_sha@ == baseline.before_sha@,
            r.after_sha@ == baseline.after_sha@,
            r.argv@.len() == 0,
            r.control_argv@.len() == 0,
            r.original_artifacts@.len() == 0,
            r.mutated_artifacts@.len() == 0,
            r.expected_failure_kind@.len() == 0,
            r.actual_failure_kind@.len() == 0,
            r.exit_status is None,
            r.process_outcome@ == "not_run"@,
            r.restoration_outcome@ == "not_run"@,
            r.control_outcome@ == "not_run"@,
            r.cleanup_outcome@ == "not_run"@,
            r.status@ == "fail"@,
            r.violations@.len() == 0,
            r.details@.len() == 0,
    {
        CaseReceipt {
            case_id: owned(spec.id.as_str()),
            group: owned(spec.group.as_str()),
            description: owned(spec.description.as_str()),
            mutation: String::new(),
            candidate_path: owned(candidate.path.as_str()),
            candidate_version: owned(candidate.version_output.as_str()),
            candidate_sha256: owned(candidate.sha256.as_str()),
            fixture_root: String::new(),
            before_sha: owned(baseline.before_sha.as_str()),
            after_sha: owned(baseline.after_sha.as_str()),
            argv: Vec::new(),
            control_argv: Vec::new(),
            original_artifacts: Vec::new(),
            mutated_artifacts: Vec::new(),
            expected_failure_kind: String::new(),
            actual_failure_kind: String::new(),
            exit_status: None,
            process_outcome: owned("not_run"),
            restoration_outcome: owned("not_run"),
            control_outcome: owned("not_run"),
            cleanup_outcome: owned("not_run"),
            status: owned("fail"),
            violations: Vec::new(),
            details: Vec::new(),
        }
    }

    /// Sets the status to `pass` when every stage succeeded and no violation
    /// is listed, to `fail` otherwise; every other field stays as it was.
    pub fn finalize(&mut self)
        ensures
            same_evidence(*old(self), *final(self)),
            final(self).status@ == receipt_status(*old(self)),
    {
        let passed = str_eq(self.process_outcome.as_str(), "rejected_as_expected");
        let restoration_ok = str_eq(self.restoration_outcome.as_str(), "restored_byte_exact");
        let control_ok = str_eq(self.control_outcome.as_str(), "pass");
        let cleanup_ok = str_eq(self.cleanup_outcome.as_str(), "removed");
        if passed && restoration_ok && control_ok && cleanup_ok && self.violations.len() == 0 {
            self.status = owned("pass");
        } else {
            self.status = owned("fail");
        }
    }
}

// ---------------------------------------------------------------------------
// Evaluating a rejection
// ---------------------------------------------------------------------------

/// The first line of `ls` that is not blank.
pub open spec fn first_nonblank(ls: Seq<Seq<char>>) -> Option<Seq<char>>
    decreases ls.len(),
{
    if ls.len() == 0 {
        None
    } else if trim(ls[0]).len() != 0 {
        Some(ls[0])
    } else {
        first_nonblank(ls.drop_first())
    }
}

/// The first non-blank stderr line, trimmed and cut to 200 characters, or
/// `<no stderr>`.
pub open spec fn stderr_headline(stderr: Seq<char>) -> Seq<char> {
    match first_nonblank(lines(stderr)) {
        Some(line) => {
            let t = trim(line);
            if t.len() <= 200 {
                t
            } else {
                t.take(200)
            }
        },
        None => "<no stderr>"@,
    }
}

/// The headline of a failing command's stderr.
pub fn first_stderr_line(stderr: &str) -> (r: String)
    ensures
        r@ == stderr_headline(stderr@),
{
    let ls = split_lines(stderr);
    let ghost all = ls@.map_values(|l: String| l@);
    let mut i: usize = 0;
    assert(all.skip(0) =~= all);
    while i < ls.len()
        invariant
            i <= ls@.len(),
            all == ls@.map_values(|l: String| l@),
            all == lines(stderr@),
            first_nonblank(all.skip(i as int)) == first_nonblank(all),
        decreases ls.len() - i,
    {
        assert(all.skip(i as int)[0] == ls@[i as int]@);
        if !str_is_blank(ls[i].as_str()) {
            let t = str_trim(ls[i].as_str());
            let v = chars_of(t.as_str());
            if v.len() <= 200 {
                return t;
            }
            let cut = string_from(&v, 0, 200);
            assert(v@.subrange(0, 200) =~= t@.take(200));
            return cut;
        }
        assert(all.skip(i as int).drop_first() =~= all.skip(i + 1));
        i += 1;
    }
    assert(all.skip(i as int).len() == 0);
    owned("<no stderr>")
}

/// The (process outcome, actual failure kind, violations) of a case whose
/// command must be rejected with `token`: exit status first, then the
/// token; any stdout on a rejected command is a violation.
pub open spec fn rejection_eval(token: Seq<char>, result: CommandResult) -> (
    Seq<char>,
    Seq<char>,
    Seq<Seq<char>>,
) {
    if result.success {
        (
            "unexpected_pass"@,
            "none (command passed)"@,
            seq!["command passed; a rejection was expected"@],
        )
    } else {
        let violations = if result.stdout@.len() == 0 {
            Seq::<Seq<char>>::empty()
        } else {
            seq!["a rejected command must render nothing to stdout"@]
        };
        if contains(result.stderr@, token) {
            ("rejected_as_expected"@, token, violations)
        } else {
            ("wrong_failure_kind"@, stderr_headline(result.stderr@), violations)
        }
    }
}

/// Evaluates a rejection case against the command result.
pub fn evaluate_rejection(token: &str, result: &CommandResult) -> (r: (String, String, Vec<String>))
    ensures
        (r.0@, r.1@, views(r.2@)) == rejection_eval(token@, *result),
{
    let mut violations: Vec<String> = Vec::new();
    if result.success {
        let mut v: Vec<String> = Vec::new();
        v.push(owned("command passed; a rejection was expected"));
        assert(views(v@) =~= seq!["command passed; a rejection was expected"@]);
        return (owned("unexpected_pass"), owned("none (command passed)"), v);
    }
    if chars_of(result.stdout.as_str()).len() != 0 {
        violations.push(owned("a rejected command must render nothing to stdout"));
    }
    assert(views(violations@) =~= (if result.stdout@.len() == 0 {
        Seq::<Seq<char>>::empty()
    } else {
        seq!["a rejected command must render nothing to stdout"@]
    }));
    if str_contains(result.stderr.as_str(), token) {
        (owned("rejected_as_expected"), owned(token), violations)
    } else {
        (owned("wrong_failure_kind"), first_stderr_line(result.stderr.as_str()), violations)
    }
}

/// A command that passed never yields a passing case: its process outcome
/// is `unexpected_pass`, which `finalize` never accepts.
pub proof fn law_passing_command_never_passes_the_case(
    token: Seq<char>,
    result: CommandResult,
    receipt: CaseReceipt,
)
    requires
        result.success,
        receipt.process_outcome@ == rejection_eval(token, result).0,
    ensures
        !receipt_passes(receipt),
{
    reveal_strlit("unexpected_pass");
    reveal_strlit("rejected_as_expected");
    assert("unexpected_pass"@[0] != "rejected_as_expected"@[0]);
}

/// A rejected command that printed to stdout never yields a passing case.
pub proof fn law_stdout_on_rejection_fails_the_case(
    token: Seq<char>,
    result: CommandResult,
    receipt: CaseReceipt,
)
    requires
        !result.success,
        result.stdout@.len() > 0,
        rejection_eval(token, result).2.len() <= receipt.violations@.len(),
    ensures
        !receipt_passes(receipt),
{
}

// ---------------------------------------------------------------------------
// The content commitment
// ---------------------------------------------------------------------------

pub open spec fn commitment_key() -> Seq<char> {
    "\"content_sha256\""@
}

/// The placeholder digest a commitment is computed over.
pub open spec fn placeholder() -> Seq<char> {
    "sha256:0000000000000000000000000000000000000000000000000000000000000000"@
}

/// The character range of the value of the one `"content_sha256"` key:
/// the text between the quotes after it.
pub open spec fn commitment_span(text: Seq<char>) -> Result<(int, int), Seq<char>> {
    let key = commitment_key();
    if match_count(text, key) != 1 {
        Err("expected exactly one \"content_sha256\" key"@)
    } else {
        match first_match(text, key) {
            None => Err("expected the \"content_sha256\" key"@),
            Some(k) => {
                let from = k + key.len();
                let q = from + char_index(text.skip(from), '"');
                if q >= text.len() {
                    Err("\"content_sha256\" must have a string value"@)
                } else {
                    let start = q + 1;
                    let end = start + char_index(text.skip(start), '"');
                    if end >= text.len() {
                        Err("\"content_sha256\" value must be terminated"@)
                    } else {
                        Ok((start, end))
                    }
                }
            },
        }
    }
}

fn commitment_char_span(v: &Vec<char>) -> (r: Result<(usize, usize), String>)
    ensures
        match r {
            Ok((a, b)) => commitment_span(v@) == Ok::<(int, int), Seq<char>>((a as int, b as int))
                && a <= b < v@.len(),
            Err(e) => commitment_span(v@) == Err::<(int, int), Seq<char>>(e@),
        },
{
    let key = chars_of("\"content_sha256\"");
    proof {
        reveal_strlit("\"content_sha256\"");
    }
    let count = match_count_exec(v, &key);
    if count != 1 {
        return Err(owned("expected exactly one \"content_sha256\" key"));
    }
    match find_first(v, &key) {
        None => Err(owned("expected the \"content_sha256\" key")),
        Some(k) => {
            proof {
                lemma_first_match(v@, key@);
                assert(occurs_at(v@, key@, k as int));
            }
            let total = v.len();
            assert(k + key@.len() <= total);
            let from = k + key.len();
            let q = char_index_from(v, '"', from);
            if q >= v.len() {
                return Err(owned("\"content_sha256\" must have a string value"));
            }
            let start = q + 1;
            let end = char_index_from(v, '"', start);
            if end >= v.len() {
                return Err(owned("\"content_sha256\" value must be terminated"));
            }
            Ok((start, end))
        },
    }
}

/// The byte range of the one `"content_sha256"` value in a raw artifact,
/// between its quotes; an error unless the key occurs exactly once with a
/// terminated string value.
pub fn content_commitment_value_span(text: &str) -> (r: Result<std::ops::Range<usize>, String>)
    ensures
        match r {
            Ok(range) => commitment_span(text@) matches Ok((a, b)) && range.start == utf8(
                text@.take(a),
            ).len() && range.end == utf8(text@.take(b)).len(),
            Err(e) => commitment_span(text@) == Err::<(int, int), Seq<char>>(e@),
        },
{
    let v = chars_of(text);
    match commitment_char_span(&v) {
        Err(e) => Err(e),
        Ok((a, b)) => {
            let start = utf8_offset(&v, a);
            let end = utf8_offset(&v, b);
            Ok(start..end)
        },
    }
}

/// The artifact text with the commitment value replaced by the placeholder.
pub open spec fn staged(text: Seq<char>, a: int, b: int) -> Seq<char> {
    text.take(a) + placeholder() + text.skip(b)
}

/// The prefixed digest of the staged text.
pub open spec fn staged_digest(t: Seq<char>) -> Seq<char> {
    "sha256:"@ + hex(sha256_digest(utf8(t)))
}

/// Re-committing a raw artifact: stage the placeholder in the commitment
/// slot, hash the exact staged bytes, and write the digest back.
pub open spec fn recommit_spec(raw: Seq<char>) -> Result<Seq<char>, Seq<char>> {
    match commitment_span(raw) {
        Err(e) => Err(e),
        Ok((a, b)) => {
            let t = staged(raw, a, b);
            if match_count(t, placeholder()) != 1 {
                Err("recommit placeholder must appear exactly once"@)
            } else {
                Ok(replace_all(t, placeholder(), staged_digest(t)))
            }
        },
    }
}

fn stage_placeholder(v: &Vec<char>, a: usize, b: usize) -> (r: String)
    requires
        a <= b <= v@.len(),
    ensures
        r@ == staged(v@, a as int, b as int),
{
    let mut text = string_from(v, 0, a);
    push_str(&mut text, "sha256:0000000000000000000000000000000000000000000000000000000000000000");
    let tail = string_from(v, b, v.len());
    push_str(&mut text, tail.as_str());
    assert(v@.subrange(0, a as int) =~= v@.take(a as int));
    assert(v@.subrange(b as int, v@.len() as int) =~= v@.skip(b as int));
    text
}

fn prefixed_digest(t: &str) -> (r: String)
    ensures
        r@ == staged_digest(t@),
{
    let bytes = utf8_bytes(t);
    let h = sha256_hex(bytes.as_slice());
    let mut digest = owned("sha256:");
    push_str(&mut digest, h.as_str());
    digest
}

/// Re-commits the artifact content commitment over its exact new bytes.
pub fn recommit_repo_exposure_bytes(raw: &str) -> (r: Result<String, String>)
    ensures
        match r {
            Ok(s) => recommit_spec(raw@) == Ok::<Seq<char>, Seq<char>>(s@),
            Err(e) => recommit_spec(raw@) == Err::<Seq<char>, Seq<char>>(e@),
        },
{
    let v = chars_of(raw);
    match commitment_char_span(&v) {
        Err(e) => Err(e),
        Ok((a, b)) => {
            let text = stage_placeholder(&v, a, b);
            proof {
                reveal_strlit(
                    "sha256:0000000000000000000000000000000000000000000000000000000000000000",
                );
            }
            let ph = "sha256:0000000000000000000000000000000000000000000000000000000000000000";
            if str_match_count(text.as_str(), ph) != 1 {
                return Err(owned("recommit placeholder must appear exactly once"));
            }
            let digest = prefixed_digest(text.as_str());
            Ok(str_replace(text.as_str(), ph, digest.as_str()))
        },
    }
}

/// The commitment an artifact declares for its own bytes: the prefixed
/// digest of the text with its commitment value staged as the placeholder.
pub open spec fn recompute_spec(raw: Seq<char>) -> Result<Seq<char>, Seq<char>> {
    match commitment_span(raw) {
        Err(e) => Err(e),
        Ok((a, b)) => Ok(staged_digest(staged(raw, a, b))),
    }
}

/// Recomputes the commitment over the raw bytes, whatever the artifact
/// currently declares.
pub fn recompute_content_commitment(raw: &str) -> (r: Result<String, String>)
    ensures
        match r {
            Ok(s) => recompute_spec(raw@) == Ok::<Seq<char>, Seq<char>>(s@),
            Err(e) => recompute_spec(raw@) == Err::<Seq<char>, Seq<char>>(e@),
        },
{
    let v = chars_of(raw);
    match commitment_char_span(&v) {
        Err(e) => Err(e),
        Ok((a, b)) => {
            let text = stage_placeholder(&v, a, b);
            Ok(prefixed_digest(text.as_str()))
        },
    }
}

/// The message for an anchor that does not occur exactly once.
pub open spec fn anchor_error(from: Seq<char>, count: nat) -> Seq<char> {
    "mutation anchor "@ + debug_quoted(from) + " occurs "@ + decimal(count)
        + " times (expected exactly one)"@
}

/// `text` with its one occurrence of `from` replaced by `to`; an error when
/// `from` does not occur exactly once.
pub open spec fn replace_once_spec(text: Seq<char>, from: Seq<char>, to: Seq<char>) -> Result<
    Seq<char>,
    Seq<char>,
> {
    let count = match_count(text, from);
    if count != 1 {
        Err(anchor_error(from, count))
    } else if from.len() == 0 {
        Ok(to + text)
    } else {
        Ok(replace_first(text, from, to))
    }
}

/// Replaces the unique occurrence of a mutation anchor.
pub fn replace_once(text: &str, from: &str, to: &str) -> (r: Result<String, String>)
    requires
        from@.len() > 0 || text@.len() < usize::MAX,
    ensures
        match r {
            Ok(s) => replace_once_spec(text@, from@, to@) == Ok::<Seq<char>, Seq<char>>(s@),
            Err(e) => replace_once_spec(text@, from@, to@) == Err::<Seq<char>, Seq<char>>(e@),
        },
{
    let count = str_match_count(text, from);
    if count != 1 {
        let mut msg = owned("mutation anchor ");
        let q = debug_quote(from);
        push_str(&mut msg, q.as_str());
        push_str(&mut msg, " occurs ");
        let n = usize_to_string(count);
        push_str(&mut msg, n.as_str());
        push_str(&mut msg, " times (expected exactly one)");
        return Err(msg);
    }
    if chars_of(from).len() == 0 {
        let mut r = owned(to);
        push_str(&mut r, text);
        return Ok(r);
    }
    Ok(str_replace_first(text, from, to))
}

// ---------------------------------------------------------------------------
// Case plans
// ---------------------------------------------------------------------------

/// How a case mutates the chain it produced before running the rejected
/// command.
#[derive(Clone, Debug)]
pub enum Mutation {
    /// Set the JSON string at `pointer` to `value` in every target, then
    /// re-commit the content commitment.
    SetJsonString { pointer: String, value: String },
    /// Rebind the target's repository head to `head`; the snapshot identity
    /// follows and the commitment is re-committed.
    RebindHead { head: String },
    /// Rebind the target's repository head to a blob object the fixture
    /// repository holds (see `fixture_blob_revision`).
    RebindHeadToBlob,
    /// Bind the target's snapshot identity to the before revision while its
    /// head stays put; the commitment is re-committed.
    SnapshotAtBeforeRevision,
    /// Present the unchanged pair at a second, equivalent clone root.
    SecondCloneRoot,
    /// Append one trailing byte without re-committing.
    AppendTrailingByte,
    /// Remove the commitment key.
    RemoveCommitmentKey,
    /// Insert a second commitment key (see `insert_duplicate_commitment`).
    DuplicateCommitmentKey,
    /// Replace the declared digest with `malformed_commitment_digest()`.
    MalformedCommitmentDigest,
}

/// One case of the matrix: what it does, to which artifacts, what the
/// installed binary must answer, and what is retained afterwards.
#[derive(Clone, Debug)]
pub struct CasePlan {
    pub mutation: String,
    pub targets: Vec<String>,
    pub change: Mutation,
    pub expected: Expectation,
    pub retain: Vec<(String, String)>,
}

pub open spec fn pairs_view(v: Seq<(String, String)>) -> Seq<(Seq<char>, Seq<char>)> {
    v.map_values(|d: (String, String)| (d.0@, d.1@))
}

/// The plan's description, targets, expected token and retained pairs.
pub open spec fn plan_view(p: CasePlan) -> (Seq<char>, Seq<Seq<char>>, Seq<char>, Seq<(Seq<char>, Seq<char>)>) {
    (
        p.mutation@,
        views(p.targets@),
        match p.expected {
            Expectation::Reject { token, .. } => token@,
        },
        pairs_view(p.retain@),
    )
}

/// A plain rejection plan.
pub open spec fn plain_reject(p: CasePlan) -> bool {
    p.expected matches Expectation::Reject { out_absent: None, out_preserved: None, .. }
}

fn after_only() -> (r: Vec<String>)
    ensures
        views(r@) == seq![after_artifact()],
{
    let mut v: Vec<String> = Vec::new();
    v.push(owned("after.repo-exposure.json"));
    assert(views(v@) =~= seq![after_artifact()]);
    v
}

fn both_artifacts() -> (r: Vec<String>)
    ensures
        views(r@) == seq![before_artifact(), after_artifact()],
{
    let mut v: Vec<String> = Vec::new();
    v.push(owned("before.repo-exposure.json"));
    v.push(owned("after.repo-exposure.json"));
    assert(views(v@) =~= seq![before_artifact(), after_artifact()]);
    v
}

fn retain_after() -> (r: Vec<(String, String)>)
    ensures
        pairs_view(r@) == seq![(after_artifact(), after_artifact())],
{
    let mut v: Vec<(String, String)> = Vec::new();
    v.push((owned("after.repo-exposure.json"), owned("after.repo-exposure.json")));
    assert(pairs_view(v@) =~= seq![(after_artifact(), after_artifact())]);
    v
}

/// The producer tool marker forged in both artifacts.
pub fn case_artifact_producer_tool() -> (r: CasePlan)
    ensures
        plan_view(r) == (
            "replace the producer tool marker with a non-ripr tool in both artifacts (commitments re-committed)"@,
            seq![before_artifact(), after_artifact()],
            "invalid or unknown producer identity"@,
            seq![(before_artifact(), before_artifact()), (after_artifact(), after_artifact())],
        ),
        plain_reject(r),
        r.change matches Mutation::SetJsonString { pointer, value } && pointer@
            == "/artifact/producer/tool"@ && value@ == "forged-tool"@,
{
    CasePlan {
        mutation: owned(
            "replace the producer tool marker with a non-ripr tool in both artifacts (commitments re-committed)",
        ),
        targets: both_artifacts(),
        change: Mutation::SetJsonString {
            pointer: owned("/artifact/producer/tool"),
            value: owned("forged-tool"),
        },
        expected: Expectation::reject("invalid or unknown producer identity"),
        retain: retain_pair(),
    }
}

/// The after artifact's repo-exposure schema downgraded.
pub fn case_artifact_repo_exposure_schema() -> (r: CasePlan)
    ensures
        plan_view(r) == (
            "downgrade the after artifact repo-exposure schema_version 0.3 -> 0.2 (commitment re-committed)"@,
            seq![after_artifact()],
            "unsupported repo-exposure schema"@,
            seq![(after_artifact(), after_artifact())],
        ),
        plain_reject(r),
        r.change matches Mutation::SetJsonString { pointer, value } && pointer@
            == "/schema_version"@ && value@ == "0.2"@,
{
    CasePlan {
        mutation: owned(
            "downgrade the after artifact repo-exposure schema_version 0.3 -> 0.2 (commitment re-committed)",
        ),
        targets: after_only(),
        change: Mutation::SetJsonString { pointer: owned("/schema_version"), value: owned("0.2") },
        expected: Expectation::reject("unsupported repo-exposure schema"),
        retain: retain_after(),
    }
}

/// The unchanged pair presented at a second equivalent clone root; the
/// token names the concrete-root gate only.
pub fn case_artifact_wrong_repository_root() -> (r: CasePlan)
    ensures
        plan_view(r) == (
            "present the unchanged pair at a second equivalent clone root: the portable v2 input identity agrees, so the concrete repository.root equality check is the rejecting gate"@,
            seq![before_artifact(), after_artifact()],
            "repository root"@,
            seq![
                (before_artifact(), "workspace-b/before.repo-exposure.json"@),
                (after_artifact(), "workspace-b/after.repo-exposure.json"@),
            ],
        ),
        plain_reject(r),
        r.change is SecondCloneRoot,
{
    let mut retain: Vec<(String, String)> = Vec::new();
    retain.push((owned("before.repo-exposure.json"), owned("workspace-b/before.repo-exposure.json")));
    retain.push((owned("after.repo-exposure.json"), owned("workspace-b/after.repo-exposure.json")));
    assert(pairs_view(retain@) =~= seq![
        (before_artifact(), "workspace-b/before.repo-exposure.json"@),
        (after_artifact(), "workspace-b/after.repo-exposure.json"@),
    ]);
    CasePlan {
        mutation: owned(
            "present the unchanged pair at a second equivalent clone root: the portable v2 input identity agrees, so the concrete repository.root equality check is the rejecting gate",
        ),
        targets: both_artifacts(),
        change: Mutation::SecondCloneRoot,
        expected: Expectation::reject("repository root"),
        retain,
    }
}

/// The after artifact's head rebound to a symbolic revision.
pub fn case_artifact_revision_symbolic() -> (r: CasePlan)
    ensures
        plan_view(r) == (
            "rebind the after artifact repository head to the symbolic revision HEAD~1 (snapshot follows; commitment re-committed)"@,
            seq![after_artifact()],
            "invalid repository HEAD"@,
            seq![(after_artifact(), after_artifact())],
        ),
        plain_reject(r),
        r.change matches Mutation::RebindHead { head } && head@ == "HEAD~1"@,
{
    CasePlan {
        mutation: owned(
            "rebind the after artifact repository head to the symbolic revision HEAD~1 (snapshot follows; commitment re-committed)",
        ),
        targets: after_only(),
        change: Mutation::RebindHead { head: owned("HEAD~1") },
        expected: Expectation::reject("invalid repository HEAD"),
        retain: retain_after(),
    }
}

/// The after artifact's head rebound to a well-formed revision the checked
/// repository does not hold.
pub fn case_artifact_revision_absent() -> (r: CasePlan)
    ensures
        plan_view(r) == (
            "rebind the after artifact repository head to a well-formed 40-hex revision the checked repository does not hold (snapshot follows; commitment re-committed)"@,
            seq![after_artifact()],
            "is not present in the checked repository"@,
            seq![(after_artifact(), after_artifact())],
        ),
        plain_reject(r),
        r.change matches Mutation::RebindHead { head } && head@
            == "0123456789abcdef0123456789abcdef01234567"@,
{
    CasePlan {
        mutation: owned(
            "rebind the after artifact repository head to a well-formed 40-hex revision the checked repository does not hold (snapshot follows; commitment re-committed)",
        ),
        targets: after_only(),
        change: Mutation::RebindHead { head: owned("0123456789abcdef0123456789abcdef01234567") },
        expected: Expectation::reject("is not present in the checked repository"),
        retain: retain_after(),
    }
}

/// The after artifact's head rebound to a blob object.
pub fn case_artifact_revision_noncommit() -> (r: CasePlan)
    ensures
        plan_view(r) == (
            "rebind the after artifact repository head to a blob object present in the repository (snapshot follows; commitment re-committed)"@,
            seq![after_artifact()],
            "not a commit"@,
            seq![(after_artifact(), after_artifact())],
        ),
        plain_reject(r),
        r.change is RebindHeadToBlob,
{
    CasePlan {
        mutation: owned(
            "rebind the after artifact repository head to a blob object present in the repository (snapshot follows; commitment re-committed)",
        ),
        targets: after_only(),
        change: Mutation::RebindHeadToBlob,
        expected: Expectation::reject("not a commit"),
        retain: retain_after(),
    }
}

/// The after artifact's snapshot identity bound to the before revision.
pub fn case_artifact_snapshot_wrong_revision() -> (r: CasePlan)
    ensures
        plan_view(r) == (
            "rebind the after artifact snapshot identity to the before revision while the declared head stays at the after revision (commitment re-committed)"@,
            seq![after_artifact()],
            "snapshot identity does not match"@,
            seq![(after_artifact(), after_artifact())],
        ),
        plain_reject(r),
        r.change is SnapshotAtBeforeRevision,
{
    CasePlan {
        mutation: owned(
            "rebind the after artifact snapshot identity to the before revision while the declared head stays at the after revision (commitment re-committed)",
        ),
        targets: after_only(),
        change: Mutation::SnapshotAtBeforeRevision,
        expected: Expectation::reject("snapshot identity does not match"),
        retain: retain_after(),
    }
}

/// One trailing byte appended without re-committing.
pub fn case_artifact_commitment_tampered() -> (r: CasePlan)
    ensures
        plan_view(r) == (
            "append one trailing byte to the after artifact WITHOUT re-committing its content commitment"@,
            seq![after_artifact()],
            "content commitment mismatch"@,
            seq![(after_artifact(), after_artifact())],
        ),
        plain_reject(r),
        r.change is AppendTrailingByte,
{
    CasePlan {
        mutation: owned(
            "append one trailing byte to the after artifact WITHOUT re-committing its content commitment",
        ),
        targets: after_only(),
        change: Mutation::AppendTrailingByte,
        expected: Expectation::reject("content commitment mismatch"),
        retain: retain_after(),
    }
}

/// The commitment key removed.
pub fn case_artifact_commitment_missing() -> (r: CasePlan)
    ensures
        plan_view(r) == (
            "remove the artifact content_sha256 commitment key entirely (no re-commitment possible)"@,
            seq![after_artifact()],
            "is not a canonical repo-exposure artifact: missing field `content_sha256`"@,
            seq![(after_artifact(), after_artifact())],
        ),
        plain_reject(r),
        r.change is RemoveCommitmentKey,
{
    CasePlan {
        mutation: owned(
            "remove the artifact content_sha256 commitment key entirely (no re-commitment possible)",
        ),
        targets: after_only(),
        change: Mutation::RemoveCommitmentKey,
        expected: Expectation::reject(
            "is not a canonical repo-exposure artifact: missing field `content_sha256`",
        ),
        retain: retain_after(),
    }
}

/// A second commitment key inserted.
pub fn case_artifact_commitment_duplicate() -> (r: CasePlan)
    ensures
        plan_view(r) == (
            "insert a second content_sha256 commitment key at the canonical artifact path"@,
            seq![after_artifact()],
            "is not a canonical repo-exposure artifact: duplicate field `content_sha256`"@,
            seq![(after_artifact(), after_artifact())],
        ),
        plain_reject(r),
        r.change is DuplicateCommitmentKey,
{
    CasePlan {
        mutation: owned(
            "insert a second content_sha256 commitment key at the canonical artifact path",
        ),
        targets: after_only(),
        change: Mutation::DuplicateCommitmentKey,
        expected: Expectation::reject(
            "is not a canonical repo-exposure artifact: duplicate field `content_sha256`",
        ),
        retain: retain_after(),
    }
}

/// The declared digest replaced with a non-hex value.
pub fn case_artifact_commitment_malformed() -> (r: CasePlan)
    ensures
        plan_view(r) == (
            "replace the content_sha256 digest with a non-hex sha256:-prefixed value (no re-commitment)"@,
            seq![after_artifact()],
            "must be a sha256:<64 hex> value"@,
            seq![(after_artifact(), after_artifact())],
        ),
        plain_reject(r),
        r.change is MalformedCommitmentDigest,
{
    CasePlan {
        mutation: owned(
            "replace the content_sha256 digest with a non-hex sha256:-prefixed value (no re-commitment)",
        ),
        targets: after_only(),
        change: Mutation::MalformedCommitmentDigest,
        expected: Expectation::reject("must be a sha256:<64 hex> value"),
        retain: retain_after(),
    }
}

/// The snapshot identity an artifact declares for an input identity at a
/// revision.
pub fn snapshot_identity(input: &str, revision: &str) -> (r: String)
    ensures
        r@ == "snapshot:"@ + input@ + ";revision:"@ + revision@,
{
    let mut r = owned("snapshot:");
    push_str(&mut r, input);
    push_str(&mut r, ";revision:");
    push_str(&mut r, revision);
    r
}

/// Whether `s` is a full 40-digit hex object name.
pub open spec fn is_full_object_name(s: Seq<char>) -> bool {
    s.len() == 40 && forall|i: int| 0 <= i < s.len() ==> crate::text::is_ascii_hex(#[trigger] s[i])
}

/// `stdout` trimmed when it is a full 40-hex object name; otherwise an
/// error of `prefix` followed by the trimmed text.
fn checked_object_name(stdout: &str, prefix: &str) -> (r: Result<String, String>)
    ensures
        match r {
            Ok(b) => is_full_object_name(trim(stdout@)) && b@ == trim(stdout@),
            Err(e) => !is_full_object_name(trim(stdout@)) && e@ == prefix@ + trim(stdout@),
        },
{
    let name = str_trim(stdout);
    let v = chars_of(name.as_str());
    let mut ok = v.len() == 40;
    let mut i: usize = 0;
    while i < v.len()
        invariant
            i <= v@.len(),
            ok == (v@.len() == 40 && forall|j: int| 0 <= j < i ==> crate::text::is_ascii_hex(
                #[trigger] v@[j],
            )),
        decreases v.len() - i,
    {
        if !crate::text::is_ascii_hex_exec(v[i]) {
            ok = false;
        }
        i += 1;
    }
    if ok {
        Ok(name)
    } else {
        let mut e = owned(prefix);
        push_str(&mut e, name.as_str());
        Err(e)
    }
}

/// The blob revision `git rev-parse HEAD:Cargo.toml` printed, trimmed; an
/// error unless it is a full 40-hex object name.
pub fn fixture_blob_revision(stdout: &str) -> (r: Result<String, String>)
    ensures
        match r {
            Ok(b) => is_full_object_name(trim(stdout@)) && b@ == trim(stdout@),
            Err(e) => !is_full_object_name(trim(stdout@)) && e@
                == "fixture blob revision is not a full SHA: "@ + trim(stdout@),
        },
{
    checked_object_name(stdout, "fixture blob revision is not a full SHA: ")
}

/// The fixture commit `git rev-parse HEAD` printed, trimmed; an error
/// unless it is a full 40-hex commit name.
pub fn fixture_head_revision(stdout: &str) -> (r: Result<String, String>)
    ensures
        match r {
            Ok(h) => is_full_object_name(trim(stdout@)) && h@ == trim(stdout@),
            Err(e) => !is_full_object_name(trim(stdout@)) && e@
                == "fixture HEAD is not a full commit SHA: "@ + trim(stdout@),
        },
{
    checked_object_name(stdout, "fixture HEAD is not a full commit SHA: ")
}

pub open spec fn duplicate_commitment_text() -> Seq<char> {
    ",\n    \"content_sha256\": \"sha256:1111111111111111111111111111111111111111111111111111111111111111\""@
}

/// The artifact text with a second commitment key inserted right after the
/// closing quote of the first one's value.
pub fn insert_duplicate_commitment(text: &str) -> (r: Result<String, String>)
    ensures
        match r {
            Ok(s) => commitment_span(text@) matches Ok((a, b)) && s@ == text@.take(b + 1)
                + duplicate_commitment_text() + text@.skip(b + 1),
            Err(e) => commitment_span(text@) == Err::<(int, int), Seq<char>>(e@),
        },
{
    let v = chars_of(text);
    match commitment_char_span(&v) {
        Err(e) => Err(e),
        Ok((_a, b)) => {
            assert(b < v.len());
            let mut out = string_from(&v, 0, b + 1);
            push_str(
                &mut out,
                ",\n    \"content_sha256\": \"sha256:1111111111111111111111111111111111111111111111111111111111111111\"",
            );
            let tail = string_from(&v, b + 1, v.len());
            push_str(&mut out, tail.as_str());
            assert(v@.subrange(0, b + 1) =~= v@.take(b + 1));
            assert(v@.subrange(b + 1, v@.len() as int) =~= v@.skip(b + 1));
            Ok(out)
        },
    }
}

/// The malformed digest: `sha256:` followed by 64 `z`s.
pub fn malformed_commitment_digest() -> (r: String)
    ensures
        r@.len() == 71,
        r@.take(7) == "sha256:"@,
        forall|i: int| 7 <= i < 71 ==> r@[i] == 'z',
{
    let mut r = owned("sha256:");
    proof {
        reveal_strlit("sha256:");
    }
    let mut i: usize = 0;
    while i < 64
        invariant
            i <= 64,
            r@.len() == 7 + i,
            r@.take(7) == "sha256:"@,
            forall|j: int| 7 <= j < 7 + i ==> r@[j] == 'z',
        decreases 64 - i,
    {
        crate::text::push_char(&mut r, 'z');
        i += 1;
    }
    r
}


// ---------------------------------------------------------------------------
// Artifact mutations
// ---------------------------------------------------------------------------

/// The kind of JSON value at a pointer; a string keeps its text.
#[derive(Clone, Debug, PartialEq, Eq)]
pub enum JsonKind {
    Null,
    Bool,
    Number,
    Text(String),
    Array,
    Object,
}

/// Why a JSON edit could not be made: the text did not parse, or the edited
/// value could not be rendered.
#[derive(Clone, Debug, PartialEq, Eq)]
pub enum JsonFault {
    Parse(String),
    Render(String),
}

/// What `serde_json::from_str::<Value>(text)` followed by
/// `Value::pointer(pointer)` finds: the parse error, no value, or the kind
/// of the value found.
pub uninterp spec fn json_kind_at(text: Seq<char>, pointer: Seq<char>) -> Result<Option<JsonKind>, Seq<char>>;

/// Parses `text` with `serde_json` and reports the kind of the value at the
/// JSON pointer (one arm per `Value` variant; a string keeps its text). The
/// result is named by `json_kind_at`.
#[verifier::external_body]
fn json_kind(text: &str, pointer: &str) -> (r: Result<Option<JsonKind>, String>)
    ensures
        match r {
            Ok(k) => json_kind_at(text@, pointer@) == Ok::<Option<JsonKind>, Seq<char>>(k),
            Err(e) => json_kind_at(text@, pointer@) == Err::<Option<JsonKind>, Seq<char>>(e@),
        },
{
    let value: serde_json::Value = serde_json::from_str(text).map_err(|err| err.to_string())?;
    Ok(value.pointer(pointer).map(|v| match v {
        serde_json::Value::Null => JsonKind::Null,
        serde_json::Value::Bool(_) => JsonKind::Bool,
        serde_json::Value::Number(_) => JsonKind::Number,
        serde_json::Value::String(s) => JsonKind::Text(s.clone()),
        serde_json::Value::Array(_) => JsonKind::Array,
        serde_json::Value::Object(_) => JsonKind::Object,
    }))
}

/// What parsing `text` with `serde_json`, setting the value at the pointer
/// to the string `value` through `Value::pointer_mut`, and rendering with
/// `to_string_pretty` gives: the fault, `None` when the pointer finds
/// nothing, or the rendered text.
pub uninterp spec fn json_string_replaced(text: Seq<char>, pointer: Seq<char>, value: Seq<char>) -> Result<
    Option<String>,
    JsonFault,
>;

/// Parses, sets the value at the pointer to a JSON string, and renders
/// pretty. The result is named by `json_string_replaced`.
#[verifier::external_body]
fn replace_json_string(text: &str, pointer: &str, value: &str) -> (r: Result<Option<String>, JsonFault>)
    ensures
        r == json_string_replaced(text@, pointer@, value@),
{
    let mut parsed: serde_json::Value = serde_json::from_str(text).map_err(|err| JsonFault::Parse(err.to_string()))?;
    match parsed.pointer_mut(pointer) {
        None => return Ok(None),
        Some(slot) => *slot = serde_json::Value::String(value.to_string()),
    }
    serde_json::to_string_pretty(&parsed).map(Some).map_err(|err| JsonFault::Render(err.to_string()))
}

/// What parsing `text`, removing `key` from the object at the pointer, and
/// rendering pretty gives: the fault, `None` when the pointer finds no
/// object, `Some(None)` when the object has no such key, or the rendered
/// text.
pub uninterp spec fn json_key_removed(text: Seq<char>, object_pointer: Seq<char>, key: Seq<char>) -> Result<
    Option<Option<String>>,
    JsonFault,
>;

/// Parses, removes `key` from the object at the pointer through
/// `Value::pointer_mut` and `as_object_mut`, and renders pretty. The result
/// is named by `json_key_removed`.
#[verifier::external_body]
fn remove_json_key(text: &str, object_pointer: &str, key: &str) -> (r: Result<Option<Option<String>>, JsonFault>)
    ensures
        r == json_key_removed(text@, object_pointer@, key@),
{
    let mut parsed: serde_json::Value = serde_json::from_str(text).map_err(|err| JsonFault::Parse(err.to_string()))?;
    let Some(object) = parsed.pointer_mut(object_pointer).and_then(serde_json::Value::as_object_mut) else {
        return Ok(None);
    };
    if object.remove(key).is_none() {
        return Ok(Some(None));
    }
    serde_json::to_string_pretty(&parsed).map(|t| Some(Some(t))).map_err(|err| JsonFault::Render(err.to_string()))
}

pub open spec fn res_view(r: Result<String, String>) -> Result<Seq<char>, Seq<char>> {
    match r {
        Ok(s) => Ok(s@),
        Err(e) => Err(e@),
    }
}

pub open spec fn parse_failed(label: Seq<char>, e: Seq<char>) -> Seq<char> {
    "parse "@ + label + " for mutation failed: "@ + e
}

pub open spec fn fault_message(f: JsonFault, label: Seq<char>, name: Seq<char>) -> Seq<char> {
    match f {
        JsonFault::Parse(e) => parse_failed(label, e@),
        JsonFault::Render(e) => "render mutated "@ + name + " failed: "@ + e@,
    }
}

pub open spec fn pointer_missing(pointer: Seq<char>) -> Seq<char> {
    "mutation pointer "@ + pointer + " is missing"@
}

/// The string at `pointer` replaced by `value`, which must already be a
/// string slot.
pub open spec fn set_string_spec(
    text: Seq<char>,
    pointer: Seq<char>,
    value: Seq<char>,
    label: Seq<char>,
    name: Seq<char>,
) -> Result<Seq<char>, Seq<char>> {
    match json_kind_at(text, pointer) {
        Err(e) => Err(parse_failed(label, e)),
        Ok(None) => Err(pointer_missing(pointer)),
        Ok(Some(k)) => if !(k is Text) {
            Err("mutation pointer "@ + pointer + " is not a string slot"@)
        } else {
            match json_string_replaced(text, pointer, value) {
                Err(f) => Err(fault_message(f, label, name)),
                Ok(None) => Err(pointer_missing(pointer)),
                Ok(Some(t)) => Ok(t@),
            }
        },
    }
}

/// The artifact's input identity.
pub open spec fn input_identity_spec(text: Seq<char>, label: Seq<char>) -> Result<Seq<char>, Seq<char>> {
    match json_kind_at(text, "/artifact/analysis/input_identity"@) {
        Err(e) => Err(parse_failed(label, e)),
        Ok(Some(JsonKind::Text(s))) => Ok(s@),
        Ok(_) => Err("artifact input identity is missing"@),
    }
}

/// The commitment slot staged with the placeholder and then re-committed
/// over the exact rendered bytes.
pub open spec fn recommit_step_spec(text: Seq<char>, label: Seq<char>, name: Seq<char>) -> Result<Seq<char>, Seq<char>> {
    match json_kind_at(text, "/artifact/content_sha256"@) {
        Err(e) => Err(parse_failed(label, e)),
        Ok(None) => Err("artifact content_sha256 slot is missing"@),
        Ok(Some(_)) => match json_string_replaced(text, "/artifact/content_sha256"@, placeholder()) {
            Err(f) => Err(fault_message(f, label, name)),
            Ok(None) => Err("artifact content_sha256 slot is missing"@),
            Ok(Some(t)) => recommit_spec(t@),
        },
    }
}

/// The head rebound to `head`, the snapshot identity following it.
pub open spec fn rebind_spec(text: Seq<char>, head: Seq<char>, label: Seq<char>, name: Seq<char>) -> Result<Seq<char>, Seq<char>> {
    match input_identity_spec(text, label) {
        Err(e) => Err(e),
        Ok(input) => match set_string_spec(text, "/artifact/repository/head"@, head, label, name) {
            Err(e) => Err(e),
            Ok(t) => match set_string_spec(
                t,
                "/artifact/snapshot_identity"@,
                "snapshot:"@ + input + ";revision:"@ + head,
                label,
                name,
            ) {
                Err(e) => Err(e),
                Ok(u) => recommit_step_spec(u, label, name),
            },
        },
    }
}

pub open spec fn malformed_digest() -> Seq<char> {
    "sha256:"@ + Seq::new(64, |i: int| 'z')
}

/// What a mutation makes of one artifact's text. `blob` is the blob
/// revision a `RebindHeadToBlob` case rebinds to; `label` names the file in
/// parse errors and `name` the artifact in render errors.
pub open spec fn mutated_artifact_spec(
    text: Seq<char>,
    change: Mutation,
    before_sha: Seq<char>,
    blob: Seq<char>,
    label: Seq<char>,
    name: Seq<char>,
) -> Result<Seq<char>, Seq<char>> {
    match change {
        Mutation::SetJsonString { pointer, value } => match set_string_spec(text, pointer@, value@, label, name) {
            Err(e) => Err(e),
            Ok(t) => recommit_step_spec(t, label, name),
        },
        Mutation::RebindHead { head } => rebind_spec(text, head@, label, name),
        Mutation::RebindHeadToBlob => rebind_spec(text, blob, label, name),
        Mutation::SnapshotAtBeforeRevision => match input_identity_spec(text, label) {
            Err(e) => Err(e),
            Ok(input) => match set_string_spec(
                text,
                "/artifact/snapshot_identity"@,
                "snapshot:"@ + input + ";revision:"@ + before_sha,
                label,
                name,
            ) {
                Err(e) => Err(e),
                Ok(t) => recommit_step_spec(t, label, name),
            },
        },
        Mutation::SecondCloneRoot => Ok(text),
        Mutation::AppendTrailingByte => Ok(text + " "@),
        Mutation::RemoveCommitmentKey => match json_key_removed(text, "/artifact"@, "content_sha256"@) {
            Err(f) => Err(match f {
                JsonFault::Parse(e) => "parse after artifact for mutation failed: "@ + e@,
                JsonFault::Render(e) => "render mutated after artifact failed: "@ + e@,
            }),
            Ok(None) => Err("after artifact envelope is missing"@),
            Ok(Some(None)) => Err("after artifact content_sha256 key is already absent"@),
            Ok(Some(Some(t))) => Ok(t@),
        },
        Mutation::DuplicateCommitmentKey => match commitment_span(text) {
            Err(e) => Err(e),
            Ok((a, b)) => Ok(text.take(b + 1) + duplicate_commitment_text() + text.skip(b + 1)),
        },
        Mutation::MalformedCommitmentDigest => match json_kind_at(text, "/artifact/content_sha256"@) {
            Err(e) => Err("failed to parse "@ + label + " as JSON: "@ + e),
            Ok(None) => Err("artifact is missing artifact.content_sha256"@),
            Ok(Some(JsonKind::Text(d))) => replace_once_spec(text, d@, malformed_digest()),
            Ok(Some(_)) => Err("artifact artifact.content_sha256 is not a string"@),
        },
    }
}

fn parse_failed_message(label: &str, e: &str) -> (r: String)
    ensures
        r@ == parse_failed(label@, e@),
{
    let mut m = concat3("parse ", label, " for mutation failed: ");
    push_str(&mut m, e);
    m
}

fn fault_text(f: JsonFault, label: &str, name: &str) -> (r: String)
    ensures
        r@ == fault_message(f, label@, name@),
{
    match f {
        JsonFault::Parse(e) => parse_failed_message(label, e.as_str()),
        JsonFault::Render(e) => {
            let mut m = concat3("render mutated ", name, " failed: ");
            push_str(&mut m, e.as_str());
            m
        },
    }
}

fn set_string(text: &str, pointer: &str, value: &str, label: &str, name: &str) -> (r: Result<String, String>)
    ensures
        res_view(r) == set_string_spec(text@, pointer@, value@, label@, name@),
{
    match json_kind(text, pointer) {
        Err(e) => Err(parse_failed_message(label, e.as_str())),
        Ok(None) => Err(concat3("mutation pointer ", pointer, " is missing")),
        Ok(Some(k)) => {
            let is_text = match k {
                JsonKind::Text(_) => true,
                _ => false,
            };
            if !is_text {
                return Err(concat3("mutation pointer ", pointer, " is not a string slot"));
            }
            match replace_json_string(text, pointer, value) {
                Err(f) => Err(fault_text(f, label, name)),
                Ok(None) => Err(concat3("mutation pointer ", pointer, " is missing")),
                Ok(Some(t)) => Ok(t),
            }
        },
    }
}

fn input_identity_of(text: &str, label: &str) -> (r: Result<String, String>)
    ensures
        res_view(r) == input_identity_spec(text@, label@),
{
    match json_kind(text, "/artifact/analysis/input_identity") {
        Err(e) => Err(parse_failed_message(label, e.as_str())),
        Ok(Some(JsonKind::Text(s))) => Ok(s),
        Ok(_) => Err(owned("artifact input identity is missing")),
    }
}

fn recommit_step(text: &str, label: &str, name: &str) -> (r: Result<String, String>)
    ensures
        res_view(r) == recommit_step_spec(text@, label@, name@),
{
    match json_kind(text, "/artifact/content_sha256") {
        Err(e) => Err(parse_failed_message(label, e.as_str())),
        Ok(None) => Err(owned("artifact content_sha256 slot is missing")),
        Ok(Some(_)) => {
            let staged = replace_json_string(
                text,
                "/artifact/content_sha256",
                "sha256:0000000000000000000000000000000000000000000000000000000000000000",
            );
            match staged {
                Err(f) => Err(fault_text(f, label, name)),
                Ok(None) => Err(owned("artifact content_sha256 slot is missing")),
                Ok(Some(t)) => recommit_repo_exposure_bytes(t.as_str()),
            }
        },
    }
}

fn rebind(text: &str, head: &str, label: &str, name: &str) -> (r: Result<String, String>)
    ensures
        res_view(r) == rebind_spec(text@, head@, label@, name@),
{
    let input = match input_identity_of(text, label) {
        Err(e) => return Err(e),
        Ok(i) => i,
    };
    let t = match set_string(text, "/artifact/repository/head", head, label, name) {
        Err(e) => return Err(e),
        Ok(t) => t,
    };
    let snapshot = snapshot_identity(input.as_str(), head);
    let u = match set_string(t.as_str(), "/artifact/snapshot_identity", snapshot.as_str(), label, name) {
        Err(e) => return Err(e),
        Ok(u) => u,
    };
    recommit_step(u.as_str(), label, name)
}

/// Applies one case mutation to one artifact's text: the JSON edits go
/// through `serde_json`, a string slot must already hold a string, and an
/// edited artifact has its commitment re-committed over its new bytes.
pub fn mutate_artifact_text(
    text: &str,
    change: &Mutation,
    before_sha: &str,
    blob: &str,
    label: &str,
    name: &str,
) -> (r: Result<String, String>)
    requires
        text@.len() < usize::MAX,
    ensures
        res_view(r) == mutated_artifact_spec(text@, *change, before_sha@, blob@, label@, name@),
{
    match change {
        Mutation::SetJsonString { pointer, value } => {
            match set_string(text, pointer.as_str(), value.as_str(), label, name) {
                Err(e) => Err(e),
                Ok(t) => recommit_step(t.as_str(), label, name),
            }
        },
        Mutation::RebindHead { head } => rebind(text, head.as_str(), label, name),
        Mutation::RebindHeadToBlob => rebind(text, blob, label, name),
        Mutation::SnapshotAtBeforeRevision => {
            let input = match input_identity_of(text, label) {
                Err(e) => return Err(e),
                Ok(i) => i,
            };
            let snapshot = snapshot_identity(input.as_str(), before_sha);
            match set_string(text, "/artifact/snapshot_identity", snapshot.as_str(), label, name) {
                Err(e) => Err(e),
                Ok(t) => recommit_step(t.as_str(), label, name),
            }
        },
        Mutation::SecondCloneRoot => Ok(owned(text)),
        Mutation::AppendTrailingByte => Ok(concat(text, " ")),
        Mutation::RemoveCommitmentKey => match remove_json_key(text, "/artifact", "content_sha256") {
            Err(JsonFault::Parse(e)) => Err(concat("parse after artifact for mutation failed: ", e.as_str())),
            Err(JsonFault::Render(e)) => Err(concat("render mutated after artifact failed: ", e.as_str())),
            Ok(None) => Err(owned("after artifact envelope is missing")),
            Ok(Some(None)) => Err(owned("after artifact content_sha256 key is already absent")),
            Ok(Some(Some(t))) => Ok(t),
        },
        Mutation::DuplicateCommitmentKey => insert_duplicate_commitment(text),
        Mutation::MalformedCommitmentDigest => match json_kind(text, "/artifact/content_sha256") {
            Err(e) => {
                let mut m = concat3("failed to parse ", label, " as JSON: ");
                push_str(&mut m, e.as_str());
                Err(m)
            },
            Ok(None) => Err(owned("artifact is missing artifact.content_sha256")),
            Ok(Some(JsonKind::Text(d))) => {
                let z = malformed_commitment_digest();
                assert(z@ =~= malformed_digest());
                replace_once(text, d.as_str(), z.as_str())
            },
            Ok(Some(_)) => Err(owned("artifact artifact.content_sha256 is not a string")),
        },
    }
}


/// The text at a pointer of an artifact, read as `artifact_string` reads
/// it: a parse failure names the file, a missing or non-string value names
/// the dotted path.
pub open spec fn artifact_text_spec(text: Seq<char>, pointer: Seq<char>, dotted: Seq<char>, label: Seq<char>) -> Result<
    Seq<char>,
    Seq<char>,
> {
    match json_kind_at(text, pointer) {
        Err(e) => Err("failed to parse "@ + label + " as JSON: "@ + e),
        Ok(None) => Err("artifact is missing "@ + dotted),
        Ok(Some(JsonKind::Text(s))) => Ok(s@),
        Ok(Some(_)) => Err("artifact "@ + dotted + " is not a string"@),
    }
}

fn artifact_text_of(text: &str, pointer: &str, dotted: &str, label: &str) -> (r: Result<String, String>)
    ensures
        res_view(r) == artifact_text_spec(text@, pointer@, dotted@, label@),
{
    match json_kind(text, pointer) {
        Err(e) => {
            let mut m = concat3("failed to parse ", label, " as JSON: ");
            push_str(&mut m, e.as_str());
            Err(m)
        },
        Ok(None) => Err(concat("artifact is missing ", dotted)),
        Ok(Some(JsonKind::Text(s))) => Ok(s),
        Ok(Some(_)) => Err(concat3("artifact ", dotted, " is not a string")),
    }
}

/// The input and snapshot identities a repo-exposure artifact declares.
pub fn artifact_identities(text: &str, label: &str) -> (r: Result<(String, String), String>)
    ensures
        match artifact_text_spec(text@, "/artifact/analysis/input_identity"@, "artifact.analysis.input_identity"@, label@) {
            Err(e) => r matches Err(m) && m@ == e,
            Ok(input) => match artifact_text_spec(text@, "/artifact/snapshot_identity"@, "artifact.snapshot_identity"@, label@) {
                Err(e) => r matches Err(m) && m@ == e,
                Ok(snapshot) => r matches Ok((i, n)) && i@ == input && n@ == snapshot,
            },
        },
{
    let input = match artifact_text_of(text, "/artifact/analysis/input_identity", "artifact.analysis.input_identity", label) {
        Err(e) => return Err(e),
        Ok(i) => i,
    };
    match artifact_text_of(text, "/artifact/snapshot_identity", "artifact.snapshot_identity", label) {
        Err(e) => Err(e),
        Ok(n) => Ok((input, n)),
    }
}

// ---------------------------------------------------------------------------
// The corpus report
// ---------------------------------------------------------------------------

/// The corpus run: candidate, baseline, every case receipt and the
/// recorded dispositions.
#[derive(Clone, Debug)]
pub struct NegativeCorpusReport {
    pub version: String,
    pub status: String,
    pub run_status: String,
    pub covered_families: Vec<String>,
    pub deferred_families: Vec<String>,
    pub candidate: CandidateIdentity,
    pub baseline_root: String,
    pub baseline_before_sha: String,
    pub baseline_after_sha: String,
    pub baseline_artifacts: Vec<ArtifactDigestRecord>,
    pub baseline_cleanup: String,
    pub cases: Vec<CaseReceipt>,
    pub dispositions: Vec<(String, String)>,
}

/// The corpus passes only when the baseline fixture was removed and every
/// case passed.
pub open spec fn corpus_status(baseline_cleanup: Seq<char>, cases: Seq<CaseReceipt>) -> Seq<char> {
    if baseline_cleanup == "removed"@ && forall|i: int| 0 <= i < cases.len() ==> (
    #[trigger] cases[i]).status@ == "pass"@ {
        "pass"@
    } else {
        "fail"@
    }
}

/// The corpus verdict.
pub fn negative_corpus_status(baseline_cleanup: &str, cases: &[CaseReceipt]) -> (r: String)
    ensures
        r@ == corpus_status(baseline_cleanup@, cases@),
{
    let mut all = true;
    let mut i: usize = 0;
    while i < cases.len()
        invariant
            i <= cases@.len(),
            all == forall|j: int| 0 <= j < i ==> (#[trigger] cases@[j]).status@ == "pass"@,
        decreases cases.len() - i,
    {
        if !str_eq(cases[i].status.as_str(), "pass") {
            all = false;
        }
        i += 1;
    }
    if str_eq(baseline_cleanup, "removed") && all {
        owned("pass")
    } else {
        owned("fail")
    }
}

/// `complete` when no family is deferred, `families_deferred` otherwise.
pub fn negative_corpus_run_status(deferred_families: &Vec<String>) -> (r: String)
    ensures
        r@ == (if deferred_families@.len() == 0 {
            "complete"@
        } else {
            "families_deferred"@
        }),
{
    if deferred_families.len() == 0 {
        owned("complete")
    } else {
        owned("families_deferred")
    }
}

/// `value.replace('|', "\\|")`.
pub open spec fn pipe_esc(s: Seq<char>) -> Seq<char> {
    replace_all(s, "|"@, "\\|"@)
}

/// Escapes table pipes.
pub fn md_escape_inline(value: &str) -> (r: String)
    ensures
        r@ == pipe_esc(value@),
{
    proof {
        reveal_strlit("|");
    }
    str_replace(value, "|", "\\|")
}

pub open spec fn exit_text(status: Option<i32>) -> Seq<char> {
    match status {
        Some(s) => decimal_int(s as int),
        None => "n/a"@,
    }
}

pub open spec fn matrix_row(c: CaseReceipt) -> Seq<char> {
    "| "@ + c.case_id@ + " | "@ + c.group@ + " | "@ + pipe_esc(c.expected_failure_kind@) + " | "@
        + pipe_esc(c.actual_failure_kind@) + " | "@ + exit_text(c.exit_status) + " | "@
        + c.process_outcome@ + " | "@ + pipe_esc(c.restoration_outcome@) + " | "@ + pipe_esc(
        c.control_outcome@,
    ) + " | "@ + decimal(c.violations@.len()) + " | "@ + c.status@ + " |\n"@
}

pub open spec fn case_violation_lines(c: CaseReceipt) -> Seq<char> {
    concat_all(wrapped_items(views(c.violations@), "- `"@ + c.case_id@ + "`: "@, "\n"@))
}

pub open spec fn wrapped_items(items: Seq<Seq<char>>, prefix: Seq<char>, suffix: Seq<char>) -> Seq<
    Seq<char>,
> {
    crate::text::wrapped(items, prefix, suffix)
}

pub open spec fn disposition_line(d: (Seq<char>, Seq<char>)) -> Seq<char> {
    "- `"@ + d.0 + "`: "@ + d.1 + "\n"@
}

pub open spec fn artifact_line(a: ArtifactDigestRecord) -> Seq<char> {
    "  - `"@ + a.name@ + "` `"@ + a.sha256@ + "`\n"@
}

pub open spec fn corpus_intro() -> Seq<char> {
    "Integrated negative corpus for the release-readiness artifact/pair/verify/receipt authority chain (#2824). The installed candidate binary is the only validator; every case asserts exit status first, then the closed reason token, then byte-exact restoration and a passing control rerun.\n\n"@
}

pub open spec fn corpus_head(r: NegativeCorpusReport) -> Seq<char> {
    "# release-negative-corpus\n\n"@ + "Status: "@ + r.status@ + "\n\n"@ + "Run status: `"@
        + r.run_status@ + "` — covered families: "@ + join(views(r.covered_families@), ", "@)
        + "; deferred families: "@ + (if r.deferred_families@.len() == 0 {
        "none"@
    } else {
        join(views(r.deferred_families@), ", "@)
    }) + "\n\n"@ + "Version: "@ + r.version@ + "\n\n"@ + corpus_intro()
}

pub open spec fn candidate_block(r: NegativeCorpusReport) -> Seq<char> {
    "## Candidate\n\n"@ + "- path: `"@ + r.candidate.path@ + "`\n"@ + "- version: `"@
        + r.candidate.version_output@ + "`\n"@ + "- sha256: `"@ + r.candidate.sha256@ + "`\n\n"@
}

pub open spec fn baseline_head(r: NegativeCorpusReport) -> Seq<char> {
    "## Baseline (immutable positive)\n\n"@ + "- fixture root: `"@ + r.baseline_root@ + "`\n"@
        + "- before SHA: `"@ + r.baseline_before_sha@ + "`\n"@ + "- after SHA: `"@
        + r.baseline_after_sha@ + "`\n"@ + "- fixture cleanup: "@ + r.baseline_cleanup@ + "\n"@
        + "- retained artifacts (target/ripr/release-negative-corpus/baseline):\n"@
}

pub open spec fn corpus_identity(r: NegativeCorpusReport) -> Seq<char> {
    candidate_block(r) + baseline_head(r) + concat_all(
        r.baseline_artifacts@.map_values(|a: ArtifactDigestRecord| artifact_line(a)),
    ) + "\n"@
}

pub open spec fn matrix_header() -> Seq<char> {
    "## Case matrix\n\n"@
        + "| case | group | expected failure kind | actual failure kind | exit | process | restoration | control | violations | status |\n"@
        + "| --- | --- | --- | --- | --- | --- | --- | --- | --- | --- |\n"@
}

pub open spec fn corpus_violations(cases: Seq<CaseReceipt>) -> Seq<char> {
    "## Violations\n\n"@ + (if forall|i: int| 0 <= i < cases.len() ==> (
    #[trigger] cases[i]).violations@.len() == 0 {
        "None recorded — every case is clean.\n"@
    } else {
        concat_all(cases.map_values(|c: CaseReceipt| case_violation_lines(c)))
    })
}

pub open spec fn corpus_footer() -> Seq<char> {
    "\nCase receipts and mutated evidence are retained under target/ripr/release-negative-corpus/cases/<case_id>/.\n"@
}

/// The Markdown rendering of the corpus report.
pub open spec fn corpus_markdown(r: NegativeCorpusReport) -> Seq<char> {
    corpus_head(r) + corpus_identity(r) + matrix_header() + concat_all(
        r.cases@.map_values(|c: CaseReceipt| matrix_row(c)),
    ) + "\n"@ + corpus_violations(r.cases@) + "\n"@
        + "## Deferred dispositions (not fabricated)\n\n"@ + concat_all(
        pairs_view(r.dispositions@).map_values(|d: (Seq<char>, Seq<char>)| disposition_line(d)),
    ) + corpus_footer()
}

fn push_exit_text(out: &mut String, status: Option<i32>)
    ensures
        final(out)@ == old(out)@ + exit_text(status),
{
    match status {
        Some(s) => {
            let t = i32_to_string(s);
            push_str(out, t.as_str());
        },
        None => push_str(out, "n/a"),
    }
}

#[verifier::rlimit(30)]
fn push_matrix_row(out: &mut String, c: &CaseReceipt)
    ensures
        final(out)@ == old(out)@ + matrix_row(*c),
{
    let ghost start = out@;
    push_str(out, "| ");
    push_str(out, c.case_id.as_str());
    push_str(out, " | ");
    push_str(out, c.group.as_str());
    push_str(out, " | ");
    let e = md_escape_inline(c.expected_failure_kind.as_str());
    push_str(out, e.as_str());
    push_str(out, " | ");
    let a = md_escape_inline(c.actual_failure_kind.as_str());
    push_str(out, a.as_str());
    push_str(out, " | ");
    push_exit_text(out, c.exit_status);
    push_str(out, " | ");
    push_str(out, c.process_outcome.as_str());
    push_str(out, " | ");
    let ro = md_escape_inline(c.restoration_outcome.as_str());
    push_str(out, ro.as_str());
    push_str(out, " | ");
    let co = md_escape_inline(c.control_outcome.as_str());
    push_str(out, co.as_str());
    push_str(out, " | ");
    let n = usize_to_string(c.violations.len());
    push_str(out, n.as_str());
    push_str(out, " | ");
    push_str(out, c.status.as_str());
    push_str(out, " |\n");
    assert(out@ =~= start + matrix_row(*c));
}

fn push_corpus_head(out: &mut String, r: &NegativeCorpusReport)
    ensures
        final(out)@ == old(out)@ + corpus_head(*r),
{
    push_str(out, "# release-negative-corpus\n\n");
    push_str(out, "Status: ");
    push_str(out, r.status.as_str());
    push_str(out, "\n\n");
    push_str(out, "Run status: `");
    push_str(out, r.run_status.as_str());
    push_str(out, "` — covered families: ");
    push_joined(out, &r.covered_families, ", ");
    push_str(out, "; deferred families: ");
    if r.deferred_families.len() == 0 {
        push_str(out, "none");
    } else {
        push_joined(out, &r.deferred_families, ", ");
    }
    push_str(out, "\n\n");
    push_str(out, "Version: ");
    push_str(out, r.version.as_str());
    push_str(out, "\n\n");
    push_str(
        out,
        "Integrated negative corpus for the release-readiness artifact/pair/verify/receipt authority chain (#2824). The installed candidate binary is the only validator; every case asserts exit status first, then the closed reason token, then byte-exact restoration and a passing control rerun.\n\n",
    );
}

fn push_candidate_block(out: &mut String, r: &NegativeCorpusReport)
    ensures
        final(out)@ == old(out)@ + candidate_block(*r),
{
    let ghost start = out@;
    push_str(out, "## Candidate\n\n");
    push_str(out, "- path: `");
    push_str(out, r.candidate.path.as_str());
    push_str(out, "`\n");
    push_str(out, "- version: `");
    push_str(out, r.candidate.version_output.as_str());
    push_str(out, "`\n");
    push_str(out, "- sha256: `");
    push_str(out, r.candidate.sha256.as_str());
    push_str(out, "`\n\n");
    assert(out@ =~= start + candidate_block(*r));
}

fn push_baseline_head(out: &mut String, r: &NegativeCorpusReport)
    ensures
        final(out)@ == old(out)@ + baseline_head(*r),
{
    let ghost start = out@;
    push_str(out, "## Baseline (immutable positive)\n\n");
    push_str(out, "- fixture root: `");
    push_str(out, r.baseline_root.as_str());
    push_str(out, "`\n");
    push_str(out, "- before SHA: `");
    push_str(out, r.baseline_before_sha.as_str());
    push_str(out, "`\n");
    push_str(out, "- after SHA: `");
    push_str(out, r.baseline_after_sha.as_str());
    push_str(out, "`\n");
    push_str(out, "- fixture cleanup: ");
    push_str(out, r.baseline_cleanup.as_str());
    push_str(out, "\n");
    push_str(out, "- retained artifacts (target/ripr/release-negative-corpus/baseline):\n");
    assert(out@ =~= start + baseline_head(*r));
}

fn push_corpus_identity(out: &mut String, r: &NegativeCorpusReport)
    ensures
        final(out)@ == old(out)@ + corpus_identity(*r),
{
    let ghost start = out@;
    push_candidate_block(out, r);
    push_baseline_head(out, r);
    let ghost head = out@;
    let ghost lines = r.baseline_artifacts@.map_values(|a: ArtifactDigestRecord| artifact_line(a));
    let mut i: usize = 0;
    assert(lines.take(0) =~= Seq::<Seq<char>>::empty());
    while i < r.baseline_artifacts.len()
        invariant
            i <= r.baseline_artifacts@.len(),
            lines == r.baseline_artifacts@.map_values(|a: ArtifactDigestRecord| artifact_line(a)),
            out@ == head + concat_all(lines.take(i as int)),
        decreases r.baseline_artifacts.len() - i,
    {
        let a = &r.baseline_artifacts[i];
        push_str(out, "  - `");
        push_str(out, a.name.as_str());
        push_str(out, "` `");
        push_str(out, a.sha256.as_str());
        push_str(out, "`\n");
        assert(lines.take(i + 1).drop_last() =~= lines.take(i as int));
        i += 1;
    }
    assert(lines.take(r.baseline_artifacts@.len() as int) =~= lines);
    push_str(out, "\n");
    assert(out@ =~= start + corpus_identity(*r));
}

fn push_corpus_violations(out: &mut String, cases: &Vec<CaseReceipt>)
    ensures
        final(out)@ == old(out)@ + corpus_violations(cases@),
{
    push_str(out, "## Violations\n\n");
    let mut clean = true;
    let mut k: usize = 0;
    while k < cases.len()
        invariant
            k <= cases@.len(),
            clean == forall|j: int| 0 <= j < k ==> (#[trigger] cases@[j]).violations@.len() == 0,
        decreases cases.len() - k,
    {
        if cases[k].violations.len() != 0 {
            clean = false;
        }
        k += 1;
    }
    if clean {
        push_str(out, "None recorded — every case is clean.\n");
        return;
    }
    let ghost head = out@;
    let ghost blocks = cases@.map_values(|c: CaseReceipt| case_violation_lines(c));
    let mut i: usize = 0;
    assert(blocks.take(0) =~= Seq::<Seq<char>>::empty());
    while i < cases.len()
        invariant
            i <= cases@.len(),
            blocks == cases@.map_values(|c: CaseReceipt| case_violation_lines(c)),
            out@ == head + concat_all(blocks.take(i as int)),
        decreases cases.len() - i,
    {
        let mut prefix = owned("- `");
        push_str(&mut prefix, cases[i].case_id.as_str());
        push_str(&mut prefix, "`: ");
        crate::text::push_wrapped_items(out, &cases[i].violations, prefix.as_str(), "\n");
        assert(blocks.take(i + 1).drop_last() =~= blocks.take(i as int));
        i += 1;
    }
    assert(blocks.take(cases@.len() as int) =~= blocks);
}

fn push_dispositions(out: &mut String, dispositions: &Vec<(String, String)>)
    ensures
        final(out)@ == old(out)@ + concat_all(
            pairs_view(dispositions@).map_values(|d: (Seq<char>, Seq<char>)| disposition_line(d)),
        ),
{
    let ghost head = out@;
    let ghost lines = pairs_view(dispositions@).map_values(
        |d: (Seq<char>, Seq<char>)| disposition_line(d),
    );
    let mut i: usize = 0;
    assert(lines.take(0) =~= Seq::<Seq<char>>::empty());
    while i < dispositions.len()
        invariant
            i <= dispositions@.len(),
            lines == pairs_view(dispositions@).map_values(
                |d: (Seq<char>, Seq<char>)| disposition_line(d),
            ),
            out@ == head + concat_all(lines.take(i as int)),
        decreases dispositions.len() - i,
    {
        push_str(out, "- `");
        push_str(out, dispositions[i].0.as_str());
        push_str(out, "`: ");
        push_str(out, dispositions[i].1.as_str());
        push_str(out, "\n");
        assert(lines.take(i + 1).drop_last() =~= lines.take(i as int));
        i += 1;
    }
    assert(lines.take(dispositions@.len() as int) =~= lines);
}

/// Renders the corpus report as Markdown.
pub fn negative_corpus_markdown(report: &NegativeCorpusReport) -> (r: String)
    ensures
        r@ == corpus_markdown(*report),
{
    let mut out = String::new();
    push_corpus_head(&mut out, report);
    push_corpus_identity(&mut out, report);
    push_str(&mut out, "## Case matrix\n\n");
    push_str(
        &mut out,
        "| case | group | expected failure kind | actual failure kind | exit | process | restoration | control | violations | status |\n",
    );
    push_str(&mut out, "| --- | --- | --- | --- | --- | --- | --- | --- | --- | --- |\n");
    let ghost head = out@;
    let ghost rows = report.cases@.map_values(|c: CaseReceipt| matrix_row(c));
    let mut i: usize = 0;
    assert(rows.take(0) =~= Seq::<Seq<char>>::empty());
    while i < report.cases.len()
        invariant
            i <= report.cases@.len(),
            rows == report.cases@.map_values(|c: CaseReceipt| matrix_row(c)),
            out@ == head + concat_all(rows.take(i as int)),
        decreases report.cases.len() - i,
    {
        push_matrix_row(&mut out, &report.cases[i]);
        assert(rows.take(i + 1).drop_last() =~= rows.take(i as int));
        i += 1;
    }
    assert(rows.take(report.cases@.len() as int) =~= rows);
    push_str(&mut out, "\n");
    push_corpus_violations(&mut out, &report.cases);
    push_str(&mut out, "\n");
    push_str(&mut out, "## Deferred dispositions (not fabricated)\n\n");
    push_dispositions(&mut out, &report.dispositions);
    push_str(
        &mut out,
        "\nCase receipts and mutated evidence are retained under target/ripr/release-negative-corpus/cases/<case_id>/.\n",
    );
    assert(out@ =~= corpus_markdown(*report));
    out
}

} // verus!

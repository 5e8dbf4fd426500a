//! The read-only release-selection lens: a captured (or collector-owned
//! live) snapshot is normalized into a report in which a PR is merge
//! eligible only when the whole snapshot reconciles and the PR is a
//! non-draft, titled `release_required` row.

use vstd::prelude::*;
use vstd::multiset::Multiset;
use crate::release_scope::{is_sha_spec, reason_if};
use crate::release_server::{sha256_hex, hex, sha256_digest};
use crate::text::{
    owned, str_eq, str_is_blank, str_starts_with, push_str, views, trim, lines, starts_with,
    split_lines, utf8, utf8_bytes, decimal, u64_to_string, md_esc, md_escape, concat_all,
    extend_strings,
};

verus! {

// ---------------------------------------------------------------------------
// Arguments
// ---------------------------------------------------------------------------

/// Where the snapshot comes from.
#[derive(Clone, Copy, Debug, PartialEq, Eq)]
pub enum ReleaseControlInput<'a> {
    Captured(&'a str),
    Live,
}

pub open spec fn control_usage() -> Seq<char> {
    "usage: cargo xtask release-control --input <captured-snapshot.json> | --live"@
}

/// Parses `--input <path>` or `--live`.
pub fn parse_args(args: &[String]) -> (r: Result<ReleaseControlInput<'_>, String>)
    ensures
        match r {
            Ok(ReleaseControlInput::Live) => args@.len() == 1 && args@[0]@ == "--live"@,
            Ok(ReleaseControlInput::Captured(p)) => args@.len() == 2 && args@[0]@ == "--input"@
                && trim(args@[1]@).len() != 0 && p@ == args@[1]@,
            Err(e) => e@ == control_usage() && !(args@.len() == 1 && args@[0]@ == "--live"@)
                && !(args@.len() == 2 && args@[0]@ == "--input"@ && trim(args@[1]@).len() != 0),
        },
{
    proof {
        reveal_strlit("--help");
        reveal_strlit("-h");
        reveal_strlit("--live");
    }
    if args.len() == 1 && (str_eq(args[0].as_str(), "--help") || str_eq(args[0].as_str(), "-h")) {
        assert("--help"@[2] != "--live"@[2]);
        assert("-h"@.len() != "--live"@.len());
        return Err(owned("usage: cargo xtask release-control --input <captured-snapshot.json> | --live"));
    }
    if args.len() == 1 && str_eq(args[0].as_str(), "--live") {
        return Ok(ReleaseControlInput::Live);
    }
    if args.len() != 2 || !str_eq(args[0].as_str(), "--input") || str_is_blank(args[1].as_str()) {
        return Err(owned("usage: cargo xtask release-control --input <captured-snapshot.json> | --live"));
    }
    Ok(ReleaseControlInput::Captured(args[1].as_str()))
}

// ---------------------------------------------------------------------------
// Snapshots
// ---------------------------------------------------------------------------

#[derive(Clone, Debug, PartialEq, Eq)]
pub struct SnapshotSource {
    pub mode: String,
    pub freshness: String,
    pub main_sha: String,
    pub authority_issue: u64,
    pub authority_state: String,
    pub authority_main_sha: String,
    pub portfolio_state: String,
    pub open_prs_complete: bool,
    pub active_claims_complete: bool,
    pub worktree_inventory_complete: bool,
    pub worktree_count: u64,
    pub graph_digest: String,
}

#[derive(Clone, Debug, PartialEq, Eq)]
pub struct SnapshotPr {
    pub number: u64,
    pub title: String,
    pub state: String,
    pub is_draft: bool,
    pub head_sha: String,
    pub base_ref: String,
    pub linked_issue_refs: Vec<u64>,
    pub release_disposition: Option<String>,
    pub disposition_reason: Option<String>,
}

#[derive(Clone, Debug, PartialEq, Eq)]
pub struct Snapshot {
    pub schema_version: String,
    pub kind: String,
    pub captured_at: String,
    pub source: SnapshotSource,
    pub prs: Vec<SnapshotPr>,
    pub collector_errors: Vec<String>,
}

#[derive(Clone, Debug, PartialEq, Eq)]
pub struct NormalizedPr {
    pub number: u64,
    pub title: String,
    pub is_draft: bool,
    pub head_sha: String,
    pub base_ref: String,
    pub linked_issue_refs: Vec<u64>,
    pub disposition: String,
    pub reason: String,
    pub merge_eligible: bool,
}

#[derive(Clone, Debug, PartialEq, Eq)]
pub struct NormalizedReport {
    pub status: String,
    pub captured_at: String,
    pub source: SnapshotSource,
    pub prs: Vec<NormalizedPr>,
    pub reconciliation_reasons: Vec<String>,
    pub next_action: String,
}

/// Whether `value` is a full 40-hex SHA.
pub fn is_sha(value: &str) -> (r: bool)
    ensures
        r == is_sha_spec(value@),
{
    crate::release_scope::is_sha(value)
}

// ---------------------------------------------------------------------------
// Source validation
// ---------------------------------------------------------------------------

/// The reasons the snapshot's own identity cannot be trusted, in order.
pub open spec fn identity_reasons(s: Snapshot, live_collected: bool) -> Seq<Seq<char>> {
    let src = s.source;
    reason_if(
        s.schema_version@ != "0.1"@,
        "snapshot schema_version must be 0.1, got "@ + s.schema_version@,
    ) + reason_if(
        s.kind@ != "release_control_snapshot"@,
        "snapshot kind must be release_control_snapshot, got "@ + s.kind@,
    ) + reason_if(trim(s.captured_at@).len() == 0, "snapshot captured_at is missing"@) + (if src.mode@
        != "captured"@ && src.mode@ != "live"@ {
        seq!["source mode must be captured or live, got "@ + src.mode@]
    } else if src.mode@ == "live"@ && !live_collected {
        seq!["live snapshots require the --live collector"@]
    } else {
        seq![]
    })
}

/// The reasons the release authority cannot be trusted, in order.
pub open spec fn authority_reasons(src: SnapshotSource) -> Seq<Seq<char>> {
    reason_if(
        src.freshness@ != "current"@,
        "source freshness must be current, got "@ + src.freshness@,
    ) + reason_if(
        !is_sha_spec(src.main_sha@),
        "source main_sha must be a 40-character hexadecimal SHA"@,
    ) + reason_if(
        src.authority_issue != 2379,
        "release authority must be issue #2379, got #"@ + decimal(src.authority_issue as nat),
    ) + reason_if(
        src.authority_state@ != "open"@,
        "release authority #"@ + decimal(src.authority_issue as nat) + " must remain open, got "@
            + src.authority_state@,
    ) + reason_if(
        src.authority_main_sha@ != src.main_sha@,
        "authority main SHA does not match observed main SHA"@,
    )
}

/// The reasons the inventories behind the snapshot are incomplete, in order.
pub open spec fn inventory_reasons(src: SnapshotSource) -> Seq<Seq<char>> {
    reason_if(
        src.portfolio_state@ != "complete"@,
        "portfolio state must be complete, got "@ + src.portfolio_state@,
    ) + reason_if(!src.open_prs_complete, "open PR inventory is incomplete"@) + reason_if(
        !src.active_claims_complete,
        "active claim/worktree inventory is incomplete"@,
    ) + reason_if(!src.worktree_inventory_complete, "worktree inventory is incomplete"@) + reason_if(
        trim(src.graph_digest@).len() == 0,
        "release graph digest is missing"@,
    )
}

/// The reasons the snapshot's source cannot be trusted, in order.
pub open spec fn source_reasons(s: Snapshot, live_collected: bool) -> Seq<Seq<char>> {
    identity_reasons(s, live_collected) + authority_reasons(s.source) + inventory_reasons(s.source)
}

fn push_when(v: &mut Vec<String>, b: bool, m: String)
    ensures
        views(final(v)@) == views(old(v)@) + reason_if(b, m@),
{
    let ghost before = v@;
    if b {
        v.push(m);
        assert(views(v@) =~= views(before) + seq![m@]);
    } else {
        assert(views(v@) =~= views(before) + Seq::<Seq<char>>::empty());
    }
}

fn text_then(a: &str, b: &str) -> (r: String)
    ensures
        r@ == a@ + b@,
{
    crate::text::concat(a, b)
}

fn identity_reason_list(snapshot: &Snapshot, live_collected: bool) -> (r: Vec<String>)
    ensures
        views(r@) == identity_reasons(*snapshot, live_collected),
{
    let mut list: Vec<String> = Vec::new();
    let v = &mut list;
    let src = &snapshot.source;
    push_when(
        v,
        !str_eq(snapshot.schema_version.as_str(), "0.1"),
        text_then("snapshot schema_version must be 0.1, got ", snapshot.schema_version.as_str()),
    );
    assert(views(v@) =~= reason_if(
        snapshot.schema_version@ != "0.1"@,
        "snapshot schema_version must be 0.1, got "@ + snapshot.schema_version@,
    ));
    push_when(
        v,
        !str_eq(snapshot.kind.as_str(), "release_control_snapshot"),
        text_then("snapshot kind must be release_control_snapshot, got ", snapshot.kind.as_str()),
    );
    push_when(
        v,
        str_is_blank(snapshot.captured_at.as_str()),
        owned("snapshot captured_at is missing"),
    );
    let ghost before_mode = views(v@);
    if !str_eq(src.mode.as_str(), "captured") && !str_eq(src.mode.as_str(), "live") {
        v.push(text_then("source mode must be captured or live, got ", src.mode.as_str()));
    } else if str_eq(src.mode.as_str(), "live") && !live_collected {
        v.push(owned("live snapshots require the --live collector"));
    }
    assert(views(v@) =~= before_mode + (if src.mode@ != "captured"@ && src.mode@ != "live"@ {
        seq!["source mode must be captured or live, got "@ + src.mode@]
    } else if src.mode@ == "live"@ && !live_collected {
        seq!["live snapshots require the --live collector"@]
    } else {
        Seq::<Seq<char>>::empty()
    }));
    list
}

fn authority_reason_list(src: &SnapshotSource) -> (r: Vec<String>)
    ensures
        views(r@) == authority_reasons(*src),
{
    let mut list: Vec<String> = Vec::new();
    let v = &mut list;
    push_when(
        v,
        !str_eq(src.freshness.as_str(), "current"),
        text_then("source freshness must be current, got ", src.freshness.as_str()),
    );
    assert(views(v@) =~= reason_if(
        src.freshness@ != "current"@,
        "source freshness must be current, got "@ + src.freshness@,
    ));
    push_when(
        v,
        !is_sha(src.main_sha.as_str()),
        owned("source main_sha must be a 40-character hexadecimal SHA"),
    );
    let issue = u64_to_string(src.authority_issue);
    push_when(
        v,
        src.authority_issue != 2379,
        text_then("release authority must be issue #2379, got #", issue.as_str()),
    );
    let mut m = text_then("release authority #", issue.as_str());
    push_str(&mut m, " must remain open, got ");
    push_str(&mut m, src.authority_state.as_str());
    push_when(v, !str_eq(src.authority_state.as_str(), "open"), m);
    push_when(
        v,
        !str_eq(src.authority_main_sha.as_str(), src.main_sha.as_str()),
        owned("authority main SHA does not match observed main SHA"),
    );
    list
}

fn inventory_reason_list(src: &SnapshotSource) -> (r: Vec<String>)
    ensures
        views(r@) == inventory_reasons(*src),
{
    let mut list: Vec<String> = Vec::new();
    let v = &mut list;
    push_when(
        v,
        !str_eq(src.portfolio_state.as_str(), "complete"),
        text_then("portfolio state must be complete, got ", src.portfolio_state.as_str()),
    );
    assert(views(v@) =~= reason_if(
        src.portfolio_state@ != "complete"@,
        "portfolio state must be complete, got "@ + src.portfolio_state@,
    ));
    push_when(v, !src.open_prs_complete, owned("open PR inventory is incomplete"));
    push_when(
        v,
        !src.active_claims_complete,
        owned("active claim/worktree inventory is incomplete"),
    );
    push_when(v, !src.worktree_inventory_complete, owned("worktree inventory is incomplete"));
    push_when(
        v,
        str_is_blank(src.graph_digest.as_str()),
        owned("release graph digest is missing"),
    );
    list
}

/// Checks the snapshot source, appending a reason for each failed check.
#[verifier::rlimit(40)]
pub fn validate_source(snapshot: &Snapshot, live_collected: bool, reasons: &mut Vec<String>)
    ensures
        views(final(reasons)@) == views(old(reasons)@) + source_reasons(*snapshot, live_collected),
{
    let ghost start = views(reasons@);
    let a = identity_reason_list(snapshot, live_collected);
    extend_strings(reasons, &a);
    let ghost s1 = views(reasons@);
    let b = authority_reason_list(&snapshot.source);
    extend_strings(reasons, &b);
    let ghost s2 = views(reasons@);
    let c = inventory_reason_list(&snapshot.source);
    extend_strings(reasons, &c);
    assert(s2 == start + views(a@) + views(b@));
    assert(views(reasons@) =~= start + source_reasons(*snapshot, live_collected));
}

// ---------------------------------------------------------------------------
// PR normalization
// ---------------------------------------------------------------------------

/// (number, title, draft, head, base, sorted linked issues, disposition,
/// reason, merge eligible).
pub type PrView = (
    u64,
    Seq<char>,
    bool,
    Seq<char>,
    Seq<char>,
    Seq<u64>,
    Seq<char>,
    Seq<char>,
    bool,
);

pub open spec fn pr_view(p: NormalizedPr) -> PrView {
    (
        p.number,
        p.title@,
        p.is_draft,
        p.head_sha@,
        p.base_ref@,
        p.linked_issue_refs@,
        p.disposition@,
        p.reason@,
        p.merge_eligible,
    )
}

pub open spec fn is_disposition(d: Seq<char>) -> bool {
    d == "release_required"@ || d == "release_optional_pending_decision"@ || d
        == "hold_post_release"@ || d == "blocked_on_named_authority"@
}

pub open spec fn has_valid_disposition(pr: SnapshotPr) -> bool {
    match pr.release_disposition {
        Some(d) => is_disposition(d@),
        None => false,
    }
}

pub open spec fn has_reason(pr: SnapshotPr) -> bool {
    match pr.disposition_reason {
        Some(r) => trim(r@).len() != 0,
        None => false,
    }
}

/// `x` inserted after every element that is not greater (a stable insert).
pub open spec fn insert_u64(r: Seq<u64>, x: u64) -> Seq<u64>
    decreases r.len(),
{
    if r.len() == 0 {
        seq![x]
    } else if x < r.last() {
        insert_u64(r.drop_last(), x).push(r.last())
    } else {
        r.push(x)
    }
}

/// The numbers in ascending order.
pub open spec fn sort_u64(s: Seq<u64>) -> Seq<u64>
    decreases s.len(),
{
    if s.len() == 0 {
        seq![]
    } else {
        insert_u64(sort_u64(s.drop_last()), s.last())
    }
}

/// The normalized row of a PR before merge eligibility is decided.
pub open spec fn pr_base_view(pr: SnapshotPr) -> PrView {
    (
        pr.number,
        pr.title@,
        pr.is_draft,
        pr.head_sha@,
        pr.base_ref@,
        sort_u64(pr.linked_issue_refs@),
        if has_valid_disposition(pr) {
            pr.release_disposition.unwrap()@
        } else {
            "blocked_on_named_authority"@
        },
        if has_reason(pr) {
            pr.disposition_reason.unwrap()@
        } else {
            "missing disposition reason"@
        },
        false,
    )
}

pub open spec fn pr_label(n: u64) -> Seq<char> {
    "PR #"@ + decimal(n as nat)
}

/// The reasons one PR row cannot be trusted, in order.
pub open spec fn pr_reasons(pr: SnapshotPr, duplicate: bool) -> Seq<Seq<char>> {
    let n = pr_label(pr.number);
    reason_if(!has_valid_disposition(pr), n + " is missing a valid release disposition"@) + reason_if(
        duplicate,
        n + " appears more than once"@,
    ) + reason_if(pr.number == 0, "PR number must be non-zero"@) + reason_if(
        !is_sha_spec(pr.head_sha@),
        n + " head_sha must be a 40-character hexadecimal SHA"@,
    ) + reason_if(pr.state@ != "open"@, n + " is not open"@) + (if trim(pr.base_ref@).len() == 0 {
        seq![n + " base_ref is missing"@]
    } else if pr.base_ref@ != "main"@ {
        seq![n + " targets `"@ + pr.base_ref@ + "` instead of release base `main`"@]
    } else {
        seq![]
    }) + reason_if(trim(pr.title@).len() == 0, n + " title is missing"@) + reason_if(
        !has_reason(pr),
        n + " is missing a disposition reason"@,
    )
}

proof fn lemma_insert_u64_at(r: Seq<u64>, x: u64, j: int)
    requires
        0 <= j <= r.len(),
        forall|k: int| j <= k < r.len() ==> x < #[trigger] r[k],
        j > 0 ==> !(x < r[j - 1]),
    ensures
        insert_u64(r, x) == r.take(j).push(x) + r.skip(j),
    decreases r.len(),
{
    if r.len() == 0 {
        assert(r.take(j).push(x) + r.skip(j) =~= seq![x]);
    } else if j == r.len() {
        assert(r.take(j) =~= r);
        assert(r.take(j).push(x) + r.skip(j) =~= r.push(x));
    } else {
        let t = r.drop_last();
        assert(x < r[r.len() - 1]);
        lemma_insert_u64_at(t, x, j);
        assert(t.take(j) =~= r.take(j));
        assert((t.take(j).push(x) + t.skip(j)).push(r.last()) =~= r.take(j).push(x) + r.skip(j));
    }
}

fn insert_u64_exec(r: &mut Vec<u64>, x: u64)
    ensures
        final(r)@ == insert_u64(old(r)@, x),
{
    let mut j = r.len();
    while j > 0 && x < r[j - 1]
        invariant
            j <= r@.len(),
            forall|k: int| j <= k < r@.len() ==> x < #[trigger] r@[k],
        decreases j,
    {
        j -= 1;
    }
    proof {
        lemma_insert_u64_at(r@, x, j as int);
    }
    let ghost before = r@;
    r.insert(j, x);
    assert(r@ =~= before.take(j as int).push(x) + before.skip(j as int));
}

/// The numbers sorted ascending.
pub fn sorted_u64(values: &Vec<u64>) -> (r: Vec<u64>)
    ensures
        r@ == sort_u64(values@),
{
    let mut r: Vec<u64> = Vec::new();
    let mut i: usize = 0;
    assert(values@.take(0) =~= Seq::<u64>::empty());
    while i < values.len()
        invariant
            i <= values@.len(),
            r@ == sort_u64(values@.take(i as int)),
        decreases values.len() - i,
    {
        insert_u64_exec(&mut r, values[i]);
        assert(values@.take(i + 1).drop_last() =~= values@.take(i as int));
        i += 1;
    }
    assert(values@.take(values@.len() as int) =~= values@);
    r
}

fn label(n: u64, tail: &str) -> (r: String)
    ensures
        r@ == pr_label(n) + tail@,
{
    let mut r = owned("PR #");
    let d = u64_to_string(n);
    push_str(&mut r, d.as_str());
    push_str(&mut r, tail);
    r
}

fn is_disposition_exec(d: &str) -> (r: bool)
    ensures
        r == is_disposition(d@),
{
    str_eq(d, "release_required") || str_eq(d, "release_optional_pending_decision") || str_eq(
        d,
        "hold_post_release",
    ) || str_eq(d, "blocked_on_named_authority")
}

/// Normalizes one PR row, appending a reason for each failed check.
#[verifier::rlimit(40)]
pub fn normalize_pr(pr: SnapshotPr, duplicate: bool, reasons: &mut Vec<String>) -> (r: NormalizedPr)
    ensures
        pr_view(r) == pr_base_view(pr),
        views(final(reasons)@) == views(old(reasons)@) + pr_reasons(pr, duplicate),
{
    let ghost p = pr;
    let mut list: Vec<String> = Vec::new();
    let v = &mut list;
    let valid = match &pr.release_disposition {
        Some(d) => is_disposition_exec(d.as_str()),
        None => false,
    };
    push_when(v, !valid, label(pr.number, " is missing a valid release disposition"));
    assert(views(v@) =~= reason_if(
        !has_valid_disposition(p),
        pr_label(p.number) + " is missing a valid release disposition"@,
    ));
    push_when(v, duplicate, label(pr.number, " appears more than once"));
    push_when(v, pr.number == 0, owned("PR number must be non-zero"));
    push_when(
        v,
        !is_sha(pr.head_sha.as_str()),
        label(pr.number, " head_sha must be a 40-character hexadecimal SHA"),
    );
    push_when(v, !str_eq(pr.state.as_str(), "open"), label(pr.number, " is not open"));
    let ghost before_base = views(v@);
    if str_is_blank(pr.base_ref.as_str()) {
        v.push(label(pr.number, " base_ref is missing"));
    } else if !str_eq(pr.base_ref.as_str(), "main") {
        let mut m = label(pr.number, " targets `");
        push_str(&mut m, pr.base_ref.as_str());
        push_str(&mut m, "` instead of release base `main`");
        v.push(m);
    }
    assert(views(v@) =~= before_base + (if trim(p.base_ref@).len() == 0 {
        seq![pr_label(p.number) + " base_ref is missing"@]
    } else if p.base_ref@ != "main"@ {
        seq![pr_label(p.number) + " targets `"@ + p.base_ref@ + "` instead of release base `main`"@]
    } else {
        Seq::<Seq<char>>::empty()
    }));
    push_when(v, str_is_blank(pr.title.as_str()), label(pr.number, " title is missing"));
    let has_r = match &pr.disposition_reason {
        Some(x) => !str_is_blank(x.as_str()),
        None => false,
    };
    push_when(v, !has_r, label(pr.number, " is missing a disposition reason"));
    extend_strings(reasons, &list);
    let disposition = if valid {
        match &pr.release_disposition {
            Some(d) => owned(d.as_str()),
            None => owned("blocked_on_named_authority"),
        }
    } else {
        owned("blocked_on_named_authority")
    };
    let reason = if has_r {
        match &pr.disposition_reason {
            Some(x) => owned(x.as_str()),
            None => owned("missing disposition reason"),
        }
    } else {
        owned("missing disposition reason")
    };
    let linked_issue_refs = sorted_u64(&pr.linked_issue_refs);
    NormalizedPr {
        number: pr.number,
        title: pr.title,
        is_draft: pr.is_draft,
        head_sha: pr.head_sha,
        base_ref: pr.base_ref,
        linked_issue_refs,
        disposition,
        reason,
        merge_eligible: false,
    }
}

// ---------------------------------------------------------------------------
// The normalized report
// ---------------------------------------------------------------------------

/// Whether PR `i` repeats the number of an earlier row.
pub open spec fn is_duplicate(prs: Seq<SnapshotPr>, i: int) -> bool {
    exists|j: int| 0 <= j < i && (#[trigger] prs[j]).number == prs[i].number
}

/// The reasons of the first `n` PR rows, in input order.
pub open spec fn pr_reasons_upto(prs: Seq<SnapshotPr>, n: int) -> Seq<Seq<char>>
    decreases n,
{
    if n <= 0 {
        seq![]
    } else {
        pr_reasons_upto(prs, n - 1) + pr_reasons(prs[n - 1], is_duplicate(prs, n - 1))
    }
}

/// Every reconciliation reason of a snapshot, in order: collector errors,
/// source reasons, then each PR row's reasons.
pub open spec fn snapshot_reasons(s: Snapshot, live_collected: bool) -> Seq<Seq<char>> {
    views(s.collector_errors@) + source_reasons(s, live_collected) + pr_reasons_upto(
        s.prs@,
        s.prs@.len() as int,
    )
}

/// `x` inserted after every row whose number is not greater.
pub open spec fn insert_by_number(r: Seq<PrView>, x: PrView) -> Seq<PrView>
    decreases r.len(),
{
    if r.len() == 0 {
        seq![x]
    } else if x.0 < r.last().0 {
        insert_by_number(r.drop_last(), x).push(r.last())
    } else {
        r.push(x)
    }
}

/// Rows sorted by PR number, keeping input order among equal numbers.
pub open spec fn sort_by_number(s: Seq<PrView>) -> Seq<PrView>
    decreases s.len(),
{
    if s.len() == 0 {
        seq![]
    } else {
        insert_by_number(sort_by_number(s.drop_last()), s.last())
    }
}

/// A row is merge eligible only in a ready report, as a non-draft, titled
/// `release_required` row.
pub open spec fn with_eligibility(v: PrView, ready: bool) -> PrView {
    (
        v.0,
        v.1,
        v.2,
        v.3,
        v.4,
        v.5,
        v.6,
        v.7,
        ready && v.6 == "release_required"@ && !v.2 && trim(v.1).len() != 0,
    )
}

pub open spec fn normalized_rows(s: Snapshot, ready: bool) -> Seq<PrView> {
    sort_by_number(s.prs@.map_values(|p: SnapshotPr| pr_base_view(p))).map_values(
        |v: PrView| with_eligibility(v, ready),
    )
}

pub open spec fn ready_action() -> Seq<char> {
    "Use only release_required rows as merge candidates; keep every other disposition visible and open."@
}

pub open spec fn reconcile_action() -> Seq<char> {
    "Refresh current main, #2379, portfolio/claim inputs, and every open PR disposition before treating any row as merge-eligible."@
}

proof fn lemma_insert_by_number_at(r: Seq<PrView>, x: PrView, j: int)
    requires
        0 <= j <= r.len(),
        forall|k: int| j <= k < r.len() ==> x.0 < (#[trigger] r[k]).0,
        j > 0 ==> !(x.0 < r[j - 1].0),
    ensures
        insert_by_number(r, x) == r.take(j).push(x) + r.skip(j),
    decreases r.len(),
{
    if r.len() == 0 {
        assert(r.take(j).push(x) + r.skip(j) =~= seq![x]);
    } else if j == r.len() {
        assert(r.take(j) =~= r);
        assert(r.take(j).push(x) + r.skip(j) =~= r.push(x));
    } else {
        let t = r.drop_last();
        assert(x.0 < r[r.len() - 1].0);
        lemma_insert_by_number_at(t, x, j);
        assert(t.take(j) =~= r.take(j));
        assert((t.take(j).push(x) + t.skip(j)).push(r.last()) =~= r.take(j).push(x) + r.skip(j));
    }
}

fn insert_by_number_exec(r: &mut Vec<NormalizedPr>, x: NormalizedPr)
    ensures
        final(r)@.map_values(|p: NormalizedPr| pr_view(p)) == insert_by_number(
            old(r)@.map_values(|p: NormalizedPr| pr_view(p)),
            pr_view(x),
        ),
{
    let ghost rv = r@.map_values(|p: NormalizedPr| pr_view(p));
    let mut j = r.len();
    while j > 0 && x.number < r[j - 1].number
        invariant
            j <= r@.len(),
            rv == r@.map_values(|p: NormalizedPr| pr_view(p)),
            forall|k: int| j <= k < r@.len() ==> x.number < (#[trigger] r@[k]).number,
        decreases j,
    {
        j -= 1;
    }
    proof {
        assert forall|k: int| j <= k < rv.len() implies pr_view(x).0 < (#[trigger] rv[k]).0 by {
            assert(rv[k] == pr_view(r@[k]));
        }
        if j > 0 {
            assert(rv[j - 1] == pr_view(r@[j - 1]));
        }
        lemma_insert_by_number_at(rv, pr_view(x), j as int);
    }
    let ghost before = r@;
    let ghost xv = pr_view(x);
    r.insert(j, x);
    assert(r@.map_values(|p: NormalizedPr| pr_view(p)) =~= rv.take(j as int).push(xv) + rv.skip(
        j as int,
    ));
}

fn number_seen(seen: &Vec<u64>, n: u64) -> (r: bool)
    ensures
        r == seen@.contains(n),
{
    let mut i: usize = 0;
    while i < seen.len()
        invariant
            i <= seen@.len(),
            forall|k: int| 0 <= k < i ==> seen@[k] != n,
        decreases seen.len() - i,
    {
        if seen[i] == n {
            assert(seen@[i as int] == n);
            return true;
        }
        i += 1;
    }
    false
}

fn apply_eligibility(prs: &mut Vec<NormalizedPr>, ready: bool)
    ensures
        final(prs)@.map_values(|p: NormalizedPr| pr_view(p)) == old(prs)@.map_values(
            |p: NormalizedPr| pr_view(p),
        ).map_values(|v: PrView| with_eligibility(v, ready)),
{
    let ghost start = prs@.map_values(|p: NormalizedPr| pr_view(p));
    let mut i: usize = 0;
    while i < prs.len()
        invariant
            i <= prs@.len(),
            start.len() == prs@.len(),
            forall|k: int| 0 <= k < i ==> pr_view(#[trigger] prs@[k]) == with_eligibility(start[k], ready),
            forall|k: int| i <= k < prs@.len() ==> pr_view(#[trigger] prs@[k]) == start[k],
        decreases prs.len() - i,
    {
        let mut p = prs.remove(i);
        let eligible = ready && str_eq(p.disposition.as_str(), "release_required") && !p.is_draft
            && !str_is_blank(p.title.as_str());
        p.merge_eligible = eligible;
        prs.insert(i, p);
        i += 1;
    }
    assert(prs@.map_values(|p: NormalizedPr| pr_view(p)) =~= start.map_values(
        |v: PrView| with_eligibility(v, ready),
    ));
}

/// Normalizes a snapshot; `live_collected` says whether the live collector
/// produced it.
#[verifier::rlimit(40)]
pub fn normalize_snapshot_with_origin(snapshot: Snapshot, live_collected: bool) -> (r:
    NormalizedReport)
    ensures
        views(r.reconciliation_reasons@) == snapshot_reasons(snapshot, live_collected),
        r.status@ == (if snapshot_reasons(snapshot, live_collected).len() == 0 {
            "ready"@
        } else {
            "reconcile_required"@
        }),
        r.prs@.map_values(|p: NormalizedPr| pr_view(p)) == normalized_rows(
            snapshot,
            snapshot_reasons(snapshot, live_collected).len() == 0,
        ),
        r.captured_at == snapshot.captured_at,
        r.source == snapshot.source,
        r.next_action@ == (if snapshot_reasons(snapshot, live_collected).len() == 0 {
            ready_action()
        } else {
            reconcile_action()
        }),
        normalized_by(r, snapshot, live_collected),
{
    let ghost s = snapshot;
    let mut reasons: Vec<String> = Vec::new();
    extend_strings(&mut reasons, &snapshot.collector_errors);
    assert(views(reasons@) =~= views(s.collector_errors@));
    validate_source(&snapshot, live_collected, &mut reasons);
    let ghost head = views(reasons@);
    let ghost base = s.prs@.map_values(|p: SnapshotPr| pr_base_view(p));
    let Snapshot { schema_version: _, kind: _, captured_at, source, prs: mut input_prs, collector_errors: _ } =
        snapshot;
    let total = input_prs.len();
    let mut seen: Vec<u64> = Vec::new();
    let mut prs: Vec<NormalizedPr> = Vec::new();
    let mut i: usize = 0;
    assert(base.take(0) =~= Seq::<PrView>::empty());
    assert(s.prs@.skip(0) =~= s.prs@);
    while i < total
        invariant
            i <= total,
            total == s.prs@.len(),
            input_prs@ == s.prs@.skip(i as int),
            base == s.prs@.map_values(|p: SnapshotPr| pr_base_view(p)),
            seen@ == s.prs@.take(i as int).map_values(|p: SnapshotPr| p.number),
            views(reasons@) == head + pr_reasons_upto(s.prs@, i as int),
            prs@.map_values(|p: NormalizedPr| pr_view(p)) == sort_by_number(base.take(i as int)),
        decreases total - i,
    {
        assert(input_prs@[0] == s.prs@[i as int]);
        let pr = input_prs.remove(0);
        assert(input_prs@ =~= s.prs@.skip(i + 1));
        let n = pr.number;
        let duplicate = number_seen(&seen, n);
        proof {
            if duplicate {
                let k = choose|k: int| 0 <= k < seen@.len() && seen@[k] == n;
                assert(s.prs@[k].number == s.prs@[i as int].number);
            }
            if is_duplicate(s.prs@, i as int) {
                let k = choose|k: int| 0 <= k < i && (#[trigger] s.prs@[k]).number == s.prs@[i as int].number;
                assert(seen@[k] == n);
            }
        }
        let normalized = normalize_pr(pr, duplicate, &mut reasons);
        insert_by_number_exec(&mut prs, normalized);
        seen.push(n);
        assert(s.prs@.take(i + 1).map_values(|p: SnapshotPr| p.number) =~= s.prs@.take(
            i as int,
        ).map_values(|p: SnapshotPr| p.number).push(n));
        assert(base.take(i + 1).drop_last() =~= base.take(i as int));
        i += 1;
    }
    assert(base.take(total as int) =~= base);
    let ready = reasons.len() == 0;
    apply_eligibility(&mut prs, ready);
    let status = if ready {
        owned("ready")
    } else {
        owned("reconcile_required")
    };
    let next_action = if ready {
        owned(
            "Use only release_required rows as merge candidates; keep every other disposition visible and open.",
        )
    } else {
        owned(
            "Refresh current main, #2379, portfolio/claim inputs, and every open PR disposition before treating any row as merge-eligible.",
        )
    };
    NormalizedReport { status, captured_at, source, prs, reconciliation_reasons: reasons, next_action }
}

/// Normalizes a captured snapshot.
pub fn normalize_snapshot(snapshot: Snapshot) -> (r: NormalizedReport)
    ensures
        views(r.reconciliation_reasons@) == snapshot_reasons(snapshot, false),
        r.status@ == (if snapshot_reasons(snapshot, false).len() == 0 {
            "ready"@
        } else {
            "reconcile_required"@
        }),
        r.prs@.map_values(|p: NormalizedPr| pr_view(p)) == normalized_rows(
            snapshot,
            snapshot_reasons(snapshot, false).len() == 0,
        ),
        r.captured_at == snapshot.captured_at,
        r.source == snapshot.source,
        r.next_action@ == (if snapshot_reasons(snapshot, false).len() == 0 {
            ready_action()
        } else {
            reconcile_action()
        }),
        normalized_by(r, snapshot, false),
{
    normalize_snapshot_with_origin(snapshot, false)
}

/// A merge-eligible row only ever appears in a ready report, and only as a
/// non-draft, titled `release_required` row.
pub proof fn law_merge_eligibility_requires_ready(s: Snapshot, ready: bool, k: int)
    requires
        0 <= k < normalized_rows(s, ready).len(),
        normalized_rows(s, ready)[k].8,
    ensures
        ready,
        normalized_rows(s, ready)[k].6 == "release_required"@,
        !normalized_rows(s, ready)[k].2,
        trim(normalized_rows(s, ready)[k].1).len() != 0,
{
}

/// A snapshot in live mode that the live collector did not produce always
/// needs reconciliation.
pub proof fn law_live_mode_requires_the_collector(s: Snapshot)
    requires
        s.source.mode@ == "live"@,
    ensures
        snapshot_reasons(s, false).len() > 0,
{
    reveal_strlit("live");
    reveal_strlit("captured");
    assert("live"@[0] != "captured"@[0]);
    assert(identity_reasons(s, false).len() > 0);
}

/// Any collector error makes the snapshot need reconciliation.
pub proof fn law_collector_errors_fail_closed(s: Snapshot, live_collected: bool)
    requires
        s.collector_errors@.len() > 0,
    ensures
        snapshot_reasons(s, live_collected).len() > 0,
{
    assert(views(s.collector_errors@).len() > 0);
}


// ---------------------------------------------------------------------------
// Independence from input order
// ---------------------------------------------------------------------------

/// PR numbers are pairwise distinct.
pub open spec fn distinct_numbers(prs: Seq<SnapshotPr>) -> bool {
    forall|i: int, j: int| #![trigger prs[i], prs[j]] 0 <= i < j < prs.len() ==> prs[i].number != prs[j].number
}

/// Row numbers strictly increase.
pub open spec fn numbers_increase(r: Seq<PrView>) -> bool {
    forall|i: int, j: int| #![trigger r[i], r[j]] 0 <= i < j < r.len() ==> r[i].0 < r[j].0
}

proof fn lemma_insert_by_number_contains(r: Seq<PrView>, x: PrView, y: PrView)
    ensures
        insert_by_number(r, x).contains(y) <==> (r.contains(y) || y == x),
    decreases r.len(),
{
    let ins = insert_by_number(r, x);
    if r.len() == 0 {
        assert(ins == seq![x]);
        if ins.contains(y) {
            let k = choose|k: int| 0 <= k < ins.len() && ins[k] == y;
        }
        if y == x {
            assert(ins[0] == y);
        }
    } else if x.0 < r.last().0 {
        let dl = r.drop_last();
        let it = insert_by_number(dl, x);
        lemma_insert_by_number_contains(dl, x, y);
        assert(ins == it.push(r.last()));
        if ins.contains(y) {
            let k = choose|k: int| 0 <= k < ins.len() && ins[k] == y;
            if k < it.len() {
                assert(it[k] == y);
                if dl.contains(y) {
                    let m = choose|m: int| 0 <= m < dl.len() && dl[m] == y;
                    assert(r[m] == y);
                }
            } else {
                assert(r[r.len() - 1] == y);
            }
        }
        if r.contains(y) {
            let m = choose|m: int| 0 <= m < r.len() && r[m] == y;
            if m < r.len() - 1 {
                assert(dl[m] == y);
                let k = choose|k: int| 0 <= k < it.len() && it[k] == y;
                assert(ins[k] == y);
            } else {
                assert(ins[ins.len() - 1] == y);
            }
        }
        if y == x {
            let k = choose|k: int| 0 <= k < it.len() && it[k] == y;
            assert(ins[k] == y);
        }
    } else {
        assert(ins == r.push(x));
        if ins.contains(y) {
            let k = choose|k: int| 0 <= k < ins.len() && ins[k] == y;
            if k < r.len() {
                assert(r[k] == y);
            }
        }
        if r.contains(y) {
            let m = choose|m: int| 0 <= m < r.len() && r[m] == y;
            assert(ins[m] == y);
        }
        if y == x {
            assert(ins[r.len() as int] == y);
        }
    }
}

proof fn lemma_sort_by_number_contains(b: Seq<PrView>, y: PrView)
    ensures
        sort_by_number(b).contains(y) <==> b.contains(y),
    decreases b.len(),
{
    if b.len() == 0 {
        if sort_by_number(b).contains(y) {
            let k = choose|k: int| 0 <= k < sort_by_number(b).len() && sort_by_number(b)[k] == y;
        }
    } else {
        let dl = b.drop_last();
        lemma_sort_by_number_contains(dl, y);
        lemma_insert_by_number_contains(sort_by_number(dl), b.last(), y);
        if b.contains(y) {
            let m = choose|m: int| 0 <= m < b.len() && b[m] == y;
            if m < b.len() - 1 {
                assert(dl[m] == y);
            }
        }
        if dl.contains(y) {
            let m = choose|m: int| 0 <= m < dl.len() && dl[m] == y;
            assert(b[m] == y);
        }
        if y == b.last() {
            assert(b[b.len() - 1] == y);
        }
    }
}

proof fn lemma_insert_by_number_increases(r: Seq<PrView>, x: PrView)
    requires
        numbers_increase(r),
        forall|j: int| 0 <= j < r.len() ==> (#[trigger] r[j]).0 != x.0,
    ensures
        numbers_increase(insert_by_number(r, x)),
    decreases r.len(),
{
    let ins = insert_by_number(r, x);
    if r.len() == 0 {
    } else if x.0 < r.last().0 {
        let dl = r.drop_last();
        assert forall|j: int| 0 <= j < dl.len() implies (#[trigger] dl[j]).0 != x.0 by {
            assert(dl[j] == r[j]);
        }
        assert forall|i: int, j: int| #![trigger dl[i], dl[j]] 0 <= i < j < dl.len() implies dl[i].0 < dl[j].0 by {
            assert(dl[i] == r[i] && dl[j] == r[j]);
        }
        lemma_insert_by_number_increases(dl, x);
        let it = insert_by_number(dl, x);
        assert(ins == it.push(r.last()));
        assert forall|i: int, j: int| #![trigger ins[i], ins[j]] 0 <= i < j < ins.len() implies ins[i].0 < ins[j].0 by {
            if j < it.len() {
                assert(ins[i] == it[i] && ins[j] == it[j]);
            } else {
                assert(ins[i] == it[i]);
                assert(it.contains(it[i]));
                lemma_insert_by_number_contains(dl, x, it[i]);
                if dl.contains(it[i]) {
                    let m = choose|m: int| 0 <= m < dl.len() && dl[m] == it[i];
                    assert(r[m] == dl[m]);
                }
            }
        }
    } else {
        assert(ins == r.push(x));
        assert forall|i: int, j: int| #![trigger ins[i], ins[j]] 0 <= i < j < ins.len() implies ins[i].0 < ins[j].0 by {
            if j < r.len() {
                assert(ins[i] == r[i] && ins[j] == r[j]);
            } else {
                assert(ins[i] == r[i]);
                assert(r[r.len() - 1].0 != x.0);
                if i < r.len() - 1 {
                    assert(r[i].0 < r[r.len() - 1].0);
                }
            }
        }
    }
}

proof fn lemma_sort_by_number_increases(b: Seq<PrView>)
    requires
        forall|i: int, j: int| #![trigger b[i], b[j]] 0 <= i < j < b.len() ==> b[i].0 != b[j].0,
    ensures
        numbers_increase(sort_by_number(b)),
    decreases b.len(),
{
    if b.len() > 0 {
        let dl = b.drop_last();
        assert forall|i: int, j: int| #![trigger dl[i], dl[j]] 0 <= i < j < dl.len() implies dl[i].0 != dl[j].0 by {
            assert(dl[i] == b[i] && dl[j] == b[j]);
        }
        lemma_sort_by_number_increases(dl);
        let sd = sort_by_number(dl);
        assert forall|j: int| 0 <= j < sd.len() implies (#[trigger] sd[j]).0 != b.last().0 by {
            assert(sd.contains(sd[j]));
            lemma_sort_by_number_contains(dl, sd[j]);
            let m = choose|m: int| 0 <= m < dl.len() && dl[m] == sd[j];
            assert(b[m] == dl[m]);
            assert(b[m].0 != b[b.len() - 1].0);
        }
        lemma_insert_by_number_increases(sd, b.last());
    }
}

proof fn lemma_increasing_rows_equal(a: Seq<PrView>, b: Seq<PrView>)
    requires
        numbers_increase(a),
        numbers_increase(b),
        forall|y: PrView| a.contains(y) <==> b.contains(y),
    ensures
        a == b,
    decreases a.len(),
{
    if a.len() == 0 {
        if b.len() > 0 {
            assert(b.contains(b[0]));
        }
        assert(a =~= b);
    } else {
        assert(a.contains(a[0]));
        assert(b.len() > 0);
        assert(b.contains(b[0]));
        let i = choose|i: int| 0 <= i < a.len() && a[i] == b[0];
        let j = choose|j: int| 0 <= j < b.len() && b[j] == a[0];
        if i > 0 {
            assert(a[0].0 < a[i].0);
        }
        if j > 0 {
            assert(b[0].0 < b[j].0);
        }
        assert(a[0] == b[0]);
        let ta = a.drop_first();
        let tb = b.drop_first();
        assert forall|i: int, j: int| #![trigger ta[i], ta[j]] 0 <= i < j < ta.len() implies ta[i].0 < ta[j].0 by {
            assert(ta[i] == a[i + 1] && ta[j] == a[j + 1]);
        }
        assert forall|i: int, j: int| #![trigger tb[i], tb[j]] 0 <= i < j < tb.len() implies tb[i].0 < tb[j].0 by {
            assert(tb[i] == b[i + 1] && tb[j] == b[j + 1]);
        }
        assert forall|y: PrView| ta.contains(y) <==> tb.contains(y) by {
            if ta.contains(y) {
                let k = choose|k: int| 0 <= k < ta.len() && ta[k] == y;
                assert(a[k + 1] == y);
                assert(a.contains(y));
                let m = choose|m: int| 0 <= m < b.len() && b[m] == y;
                assert(a[0].0 < a[k + 1].0);
                assert(m != 0);
                assert(tb[m - 1] == y);
            }
            if tb.contains(y) {
                let k = choose|k: int| 0 <= k < tb.len() && tb[k] == y;
                assert(b[k + 1] == y);
                assert(b.contains(y));
                let m = choose|m: int| 0 <= m < a.len() && a[m] == y;
                assert(b[0].0 < b[k + 1].0);
                assert(m != 0);
                assert(ta[m - 1] == y);
            }
        }
        lemma_increasing_rows_equal(ta, tb);
        assert(a =~= seq![a[0]] + ta);
        assert(b =~= seq![b[0]] + tb);
    }
}


proof fn lemma_permuted_numbers_distinct(p1: Seq<SnapshotPr>, p2: Seq<SnapshotPr>)
    requires
        distinct_numbers(p1),
        p1.to_multiset() == p2.to_multiset(),
    ensures
        distinct_numbers(p2),
{
    broadcast use vstd::seq_lib::group_to_multiset_ensures;

    assert forall|i: int, j: int| 0 <= i < p1.len() && 0 <= j < p1.len() && i != j implies p1[i] != p1[j] by {
        if i < j {
            assert(p1[i].number != p1[j].number);
        } else {
            assert(p1[j].number != p1[i].number);
        }
    }
    assert(p1.no_duplicates());
    p1.lemma_multiset_has_no_duplicates();
    p2.lemma_multiset_has_no_duplicates_conv();
    assert forall|i: int, j: int| #![trigger p2[i], p2[j]] 0 <= i < j < p2.len() implies p2[i].number != p2[j].number by {
        assert(p2.contains(p2[i]));
        assert(p2.contains(p2[j]));
        assert(p2.to_multiset().count(p2[i]) > 0);
        assert(p1.to_multiset().count(p2[i]) > 0);
        assert(p2.to_multiset().count(p2[j]) > 0);
        assert(p1.to_multiset().count(p2[j]) > 0);
        assert(p1.contains(p2[i]));
        assert(p1.contains(p2[j]));
        let a = choose|a: int| 0 <= a < p1.len() && p1[a] == p2[i];
        let b = choose|b: int| 0 <= b < p1.len() && p1[b] == p2[j];
        assert(p2[i] != p2[j]);
        if a < b {
            assert(p1[a].number != p1[b].number);
        } else {
            assert(p1[b].number != p1[a].number);
        }
    }
}

proof fn lemma_permuted_rows(p1: Seq<SnapshotPr>, p2: Seq<SnapshotPr>)
    requires
        distinct_numbers(p1),
        p1.to_multiset() == p2.to_multiset(),
    ensures
        sort_by_number(p1.map_values(|p: SnapshotPr| pr_base_view(p))) == sort_by_number(
            p2.map_values(|p: SnapshotPr| pr_base_view(p)),
        ),
{
    broadcast use vstd::seq_lib::group_to_multiset_ensures;

    lemma_permuted_numbers_distinct(p1, p2);
    let b1 = p1.map_values(|p: SnapshotPr| pr_base_view(p));
    let b2 = p2.map_values(|p: SnapshotPr| pr_base_view(p));
    assert forall|i: int, j: int| #![trigger b1[i], b1[j]] 0 <= i < j < b1.len() implies b1[i].0 != b1[j].0 by {
        assert(p1[i].number != p1[j].number);
    }
    assert forall|i: int, j: int| #![trigger b2[i], b2[j]] 0 <= i < j < b2.len() implies b2[i].0 != b2[j].0 by {
        assert(p2[i].number != p2[j].number);
    }
    lemma_sort_by_number_increases(b1);
    lemma_sort_by_number_increases(b2);
    assert forall|y: PrView| sort_by_number(b1).contains(y) <==> sort_by_number(b2).contains(y) by {
        lemma_sort_by_number_contains(b1, y);
        lemma_sort_by_number_contains(b2, y);
        if b1.contains(y) {
            let k = choose|k: int| 0 <= k < b1.len() && b1[k] == y;
            assert(p1.contains(p1[k]));
            assert(p1.to_multiset().count(p1[k]) > 0);
            assert(p2.to_multiset().count(p1[k]) > 0);
            assert(p2.contains(p1[k]));
            let m = choose|m: int| 0 <= m < p2.len() && p2[m] == p1[k];
            assert(b2[m] == y);
        }
        if b2.contains(y) {
            let k = choose|k: int| 0 <= k < b2.len() && b2[k] == y;
            assert(p2.contains(p2[k]));
            assert(p2.to_multiset().count(p2[k]) > 0);
            assert(p1.to_multiset().count(p2[k]) > 0);
            assert(p1.contains(p2[k]));
            let m = choose|m: int| 0 <= m < p1.len() && p1[m] == p2[k];
            assert(b1[m] == y);
        }
    }
    lemma_increasing_rows_equal(sort_by_number(b1), sort_by_number(b2));
}

/// One step of gathering the reasons of unrepeated PR rows as a multiset.
pub open spec fn reasons_step() -> spec_fn(Multiset<Seq<char>>, SnapshotPr) -> Multiset<Seq<char>> {
    |m: Multiset<Seq<char>>, p: SnapshotPr| m.add(pr_reasons(p, false).to_multiset())
}

proof fn lemma_reasons_step_commutes()
    ensures
        vstd::seq_lib::commutative_foldl(reasons_step()),
{
    broadcast use vstd::multiset::group_multiset_axioms;

    assert forall|x: SnapshotPr, y: SnapshotPr, v: Multiset<Seq<char>>|
        #[trigger] reasons_step()(reasons_step()(v, x), y) == reasons_step()(reasons_step()(v, y), x) by {
        assert(reasons_step()(reasons_step()(v, x), y) =~= reasons_step()(reasons_step()(v, y), x));
    }
}

proof fn lemma_reasons_upto_bag(prs: Seq<SnapshotPr>, n: int)
    requires
        distinct_numbers(prs),
        0 <= n <= prs.len(),
    ensures
        pr_reasons_upto(prs, n).to_multiset() == prs.take(n).fold_left(Multiset::empty(), reasons_step()),
    decreases n,
{
    broadcast use vstd::seq_lib::group_to_multiset_ensures;
    broadcast use vstd::multiset::group_multiset_axioms;

    if n == 0 {
        assert(pr_reasons_upto(prs, 0).to_multiset() =~= Multiset::empty());
    } else {
        lemma_reasons_upto_bag(prs, n - 1);
        if is_duplicate(prs, n - 1) {
            let j = choose|j: int| 0 <= j < n - 1 && (#[trigger] prs[j]).number == prs[n - 1].number;
            assert(prs[j].number != prs[n - 1].number);
        }
        let head = pr_reasons_upto(prs, n - 1);
        let tail = pr_reasons(prs[n - 1], false);
        vstd::seq_lib::lemma_multiset_commutative(head, tail);
        assert(prs.take(n).drop_last() =~= prs.take(n - 1));
        assert(prs.take(n).last() == prs[n - 1]);
    }
}

/// Normalization does not depend on the order of the input PRs: two
/// snapshots that differ only in the order of rows with distinct PR numbers
/// give the same reasons up to order (so the same status), the same
/// normalized rows, and, when ready, the very same reasons.
pub proof fn law_input_order_does_not_change_normalization(s1: Snapshot, s2: Snapshot, live_collected: bool)
    requires
        s2.schema_version == s1.schema_version,
        s2.kind == s1.kind,
        s2.captured_at == s1.captured_at,
        s2.source == s1.source,
        s2.collector_errors == s1.collector_errors,
        s1.prs@.to_multiset() == s2.prs@.to_multiset(),
        distinct_numbers(s1.prs@),
    ensures
        snapshot_reasons(s1, live_collected).to_multiset() == snapshot_reasons(s2, live_collected).to_multiset(),
        (snapshot_reasons(s1, live_collected).len() == 0) == (snapshot_reasons(s2, live_collected).len() == 0),
        forall|ready: bool| normalized_rows(s1, ready) == #[trigger] normalized_rows(s2, ready),
        snapshot_reasons(s1, live_collected).len() == 0 ==> snapshot_reasons(s1, live_collected)
            == snapshot_reasons(s2, live_collected),
{
    broadcast use vstd::seq_lib::group_to_multiset_ensures;
    broadcast use vstd::multiset::group_multiset_axioms;

    let p1 = s1.prs@;
    let p2 = s2.prs@;
    lemma_permuted_numbers_distinct(p1, p2);
    lemma_permuted_rows(p1, p2);
    lemma_reasons_upto_bag(p1, p1.len() as int);
    lemma_reasons_upto_bag(p2, p2.len() as int);
    assert(p1.take(p1.len() as int) =~= p1);
    assert(p2.take(p2.len() as int) =~= p2);
    lemma_reasons_step_commutes();
    vstd::seq_lib::lemma_fold_left_permutation(p1, p2, reasons_step(), Multiset::empty());
    let front1 = views(s1.collector_errors@) + source_reasons(s1, live_collected);
    let front2 = views(s2.collector_errors@) + source_reasons(s2, live_collected);
    assert(front1 == front2);
    let u1 = pr_reasons_upto(p1, p1.len() as int);
    let u2 = pr_reasons_upto(p2, p2.len() as int);
    vstd::seq_lib::lemma_multiset_commutative(front1, u1);
    vstd::seq_lib::lemma_multiset_commutative(front2, u2);
    assert(snapshot_reasons(s1, live_collected).to_multiset() =~= snapshot_reasons(s2, live_collected).to_multiset());
    assert(snapshot_reasons(s1, live_collected).len() == snapshot_reasons(s1, live_collected).to_multiset().len());
    assert(snapshot_reasons(s2, live_collected).len() == snapshot_reasons(s2, live_collected).to_multiset().len());
    if snapshot_reasons(s1, live_collected).len() == 0 {
        assert(snapshot_reasons(s1, live_collected) =~= snapshot_reasons(s2, live_collected));
    }
}


/// `r` is what normalizing `s` (with the given origin) gives: the clauses
/// of `normalize_snapshot_with_origin`'s contract.
pub open spec fn normalized_by(r: NormalizedReport, s: Snapshot, live_collected: bool) -> bool {
    &&& views(r.reconciliation_reasons@) == snapshot_reasons(s, live_collected)
    &&& r.status@ == (if snapshot_reasons(s, live_collected).len() == 0 {
        "ready"@
    } else {
        "reconcile_required"@
    })
    &&& r.prs@.map_values(|p: NormalizedPr| pr_view(p)) == normalized_rows(
        s,
        snapshot_reasons(s, live_collected).len() == 0,
    )
    &&& r.captured_at == s.captured_at
    &&& r.source == s.source
    &&& r.next_action@ == (if snapshot_reasons(s, live_collected).len() == 0 {
        ready_action()
    } else {
        reconcile_action()
    })
}

/// When a snapshot is ready, the reports normalized from two orderings of
/// the same PRs (distinct numbers) agree in every field and render the same
/// Markdown.
pub proof fn law_ready_reports_render_alike(
    s1: Snapshot,
    s2: Snapshot,
    live_collected: bool,
    a: NormalizedReport,
    b: NormalizedReport,
)
    requires
        s2.schema_version == s1.schema_version,
        s2.kind == s1.kind,
        s2.captured_at == s1.captured_at,
        s2.source == s1.source,
        s2.collector_errors == s1.collector_errors,
        s1.prs@.to_multiset() == s2.prs@.to_multiset(),
        distinct_numbers(s1.prs@),
        snapshot_reasons(s1, live_collected).len() == 0,
        normalized_by(a, s1, live_collected),
        normalized_by(b, s2, live_collected),
    ensures
        a.status@ == b.status@,
        a.captured_at == b.captured_at,
        a.source == b.source,
        a.prs@.map_values(|p: NormalizedPr| pr_view(p)) == b.prs@.map_values(|p: NormalizedPr| pr_view(p)),
        views(a.reconciliation_reasons@) == views(b.reconciliation_reasons@),
        a.next_action@ == b.next_action@,
        control_markdown(a) == control_markdown(b),
{
    law_input_order_does_not_change_normalization(s1, s2, live_collected);
    let ra = a.prs@.map_values(|p: NormalizedPr| pr_view(p));
    let rb = b.prs@.map_values(|p: NormalizedPr| pr_view(p));
    assert(ra.len() == a.prs@.len() && rb.len() == b.prs@.len());
    assert forall|i: int| 0 <= i < a.prs@.len() implies pr_row(a.prs@[i]) == pr_row(b.prs@[i]) by {
        assert(ra[i] == rb[i]);
    }
    assert(a.prs@.map_values(|p: NormalizedPr| pr_row(p)) =~= b.prs@.map_values(|p: NormalizedPr| pr_row(p)));
    assert(views(a.reconciliation_reasons@).len() == 0);
    assert(views(b.reconciliation_reasons@).len() == 0);
    assert(a.reconciliation_reasons@.len() == 0);
    assert(b.reconciliation_reasons@.len() == 0);
}

/// A snapshot whose source freshness is not `current` is never ready: its
/// report needs reconciliation, names the stale freshness among its
/// reasons, and marks no row merge eligible.
pub proof fn law_stale_source_is_reconciled(s: Snapshot, live_collected: bool, r: NormalizedReport)
    requires
        s.source.freshness@ != "current"@,
        normalized_by(r, s, live_collected),
    ensures
        r.status@ == "reconcile_required"@,
        r.reconciliation_reasons@.len() > 0,
        views(r.reconciliation_reasons@).contains(
            "source freshness must be current, got "@ + s.source.freshness@,
        ),
        forall|k: int| 0 <= k < r.prs@.len() ==> !(#[trigger] r.prs@[k]).merge_eligible,
{
    let msg = "source freshness must be current, got "@ + s.source.freshness@;
    let head = views(s.collector_errors@);
    let ident = identity_reasons(s, live_collected);
    let auth = authority_reasons(s.source);
    let all = snapshot_reasons(s, live_collected);
    assert(auth[0] == msg);
    assert(all[(head.len() + ident.len()) as int] == msg);
    assert(all.contains(msg));
    assert(all.len() > 0);
    let rows = r.prs@.map_values(|p: NormalizedPr| pr_view(p));
    let sorted = sort_by_number(s.prs@.map_values(|p: SnapshotPr| pr_base_view(p)));
    assert(rows == normalized_rows(s, false));
    assert(rows.len() == r.prs@.len());
    assert forall|k: int| 0 <= k < r.prs@.len() implies !(#[trigger] r.prs@[k]).merge_eligible by {
        assert(rows[k] == pr_view(r.prs@[k]));
        assert(normalized_rows(s, false)[k] == with_eligibility(sorted[k], false));
    }
}

// ---------------------------------------------------------------------------
// Live collection helpers
// ---------------------------------------------------------------------------

/// The number of `worktree ` records in `git worktree list --porcelain`.
pub open spec fn worktree_records(ls: Seq<Seq<char>>) -> nat
    decreases ls.len(),
{
    if ls.len() == 0 {
        0
    } else {
        worktree_records(ls.drop_last()) + if starts_with(ls.last(), "worktree "@) {
            1nat
        } else {
            0nat
        }
    }
}

/// Whether the worktree inventory was collected and how many worktrees it
/// lists; a failed collection appends its reason.
pub fn collect_worktree_inventory(listing: Result<String, String>, errors: &mut Vec<String>) -> (r: (
    bool,
    u64,
))
    ensures
        match listing {
            Ok(text) => r == (true, worktree_records(lines(text@)) as u64) && final(errors)@
                == old(errors)@,
            Err(e) => r == (false, 0u64) && views(final(errors)@) == views(old(errors)@).push(
                "live worktree collection failed: "@ + e@,
            ),
        },
{
    match listing {
        Ok(text) => {
            let ls = split_lines(text.as_str());
            let ghost all = ls@.map_values(|l: String| l@);
            let mut count: u64 = 0;
            let mut i: usize = 0;
            assert(all.take(0) =~= Seq::<Seq<char>>::empty());
            while i < ls.len()
                invariant
                    i <= ls@.len(),
                    all == ls@.map_values(|l: String| l@),
                    count == worktree_records(all.take(i as int)),
                    count <= i,
                decreases ls.len() - i,
            {
                assert(all.take(i + 1).drop_last() =~= all.take(i as int));
                assert(all.take(i + 1).last() == ls@[i as int]@);
                if str_starts_with(ls[i].as_str(), "worktree ") {
                    count += 1;
                }
                i += 1;
            }
            assert(all.take(ls@.len() as int) =~= all);
            (true, count)
        },
        Err(e) => {
            let ghost before = errors@;
            errors.push(text_then("live worktree collection failed: ", e.as_str()));
            assert(views(errors@) =~= views(before).push("live worktree collection failed: "@ + e@));
            (false, 0)
        },
    }
}

/// The capture time of a live snapshot, from the seconds since the epoch.
pub fn live_timestamp(seconds: u64) -> (r: String)
    ensures
        r@ == "unix:"@ + decimal(seconds as nat),
{
    let d = u64_to_string(seconds);
    text_then("unix:", d.as_str())
}

/// The prefixed SHA-256 of a text's UTF-8 bytes.
pub fn hash_text(value: &str) -> (r: String)
    ensures
        r@ == "sha256:"@ + hex(sha256_digest(utf8(value@))),
{
    let bytes = utf8_bytes(value);
    let h = sha256_hex(bytes.as_slice());
    text_then("sha256:", h.as_str())
}

// ---------------------------------------------------------------------------
// Markdown
// ---------------------------------------------------------------------------

/// A table cell: pipes escaped, newlines flattened.
pub fn markdown_cell(value: &str) -> (r: String)
    ensures
        r@ == md_esc(value@),
{
    md_escape(value)
}

pub open spec fn bool_text(b: bool) -> Seq<char> {
    if b {
        "true"@
    } else {
        "false"@
    }
}

pub open spec fn control_head(r: NormalizedReport) -> Seq<char> {
    "# ripr release control lens\n\nStatus: `"@ + r.status@ + "`\n\nCaptured: `"@ + r.captured_at@
        + "`\n\n"@ + "## Authority snapshot\n\n"@ + "- main: `"@ + r.source.main_sha@
        + "`\n- release authority: `#"@ + decimal(r.source.authority_issue as nat) + " ("@
        + r.source.authority_state@ + ")`\n- portfolio: `"@ + r.source.portfolio_state@
        + "`\n- worktree inventory: `"@ + bool_text(r.source.worktree_inventory_complete)
        + "` (count: `"@ + decimal(r.source.worktree_count as nat) + "`)\n- graph digest: `"@
        + r.source.graph_digest@ + "`\n\n"@
}

pub open spec fn pr_row(p: NormalizedPr) -> Seq<char> {
    "| #"@ + decimal(p.number as nat) + " | "@ + md_esc(p.title@) + " | `"@ + p.disposition@
        + "` | `"@ + bool_text(p.merge_eligible) + "` | "@ + md_esc(p.reason@) + " |\n"@
}

pub open spec fn control_footer() -> Seq<char> {
    "This is a temporary, read-only release-selection lens. It does not close issues, merge PRs, create branches, qualify a candidate, publish, or change development `main`.\n"@
}

/// The Markdown rendering of a normalized report.
pub open spec fn control_markdown(r: NormalizedReport) -> Seq<char> {
    control_head(r) + (if r.reconciliation_reasons@.len() > 0 {
        "## Reconciliation required\n\n"@ + concat_all(
            crate::text::wrapped_md(views(r.reconciliation_reasons@), "- "@, "\n"@),
        ) + "\n"@
    } else {
        Seq::<char>::empty()
    }) + "## PR dispositions\n\n| PR | Title | Disposition | Merge eligible | Reason |\n| ---: | --- | --- | --- | --- |\n"@
        + concat_all(r.prs@.map_values(|p: NormalizedPr| pr_row(p))) + "\n## Next action\n\n"@
        + r.next_action@ + "\n\n"@ + control_footer()
}

fn push_bool(out: &mut String, b: bool)
    ensures
        final(out)@ == old(out)@ + bool_text(b),
{
    push_str(out, if b { "true" } else { "false" });
}

fn push_control_head(out: &mut String, r: &NormalizedReport)
    ensures
        final(out)@ == old(out)@ + control_head(*r),
{
    let ghost start = out@;
    push_str(out, "# ripr release control lens\n\nStatus: `");
    push_str(out, r.status.as_str());
    push_str(out, "`\n\nCaptured: `");
    push_str(out, r.captured_at.as_str());
    push_str(out, "`\n\n");
    push_str(out, "## Authority snapshot\n\n");
    push_str(out, "- main: `");
    push_str(out, r.source.main_sha.as_str());
    push_str(out, "`\n- release authority: `#");
    let issue = u64_to_string(r.source.authority_issue);
    push_str(out, issue.as_str());
    push_str(out, " (");
    push_str(out, r.source.authority_state.as_str());
    push_str(out, ")`\n- portfolio: `");
    push_str(out, r.source.portfolio_state.as_str());
    push_str(out, "`\n- worktree inventory: `");
    push_bool(out, r.source.worktree_inventory_complete);
    push_str(out, "` (count: `");
    let count = u64_to_string(r.source.worktree_count);
    push_str(out, count.as_str());
    push_str(out, "`)\n- graph digest: `");
    push_str(out, r.source.graph_digest.as_str());
    push_str(out, "`\n\n");
    assert(out@ =~= start + control_head(*r));
}

fn push_pr_row(out: &mut String, p: &NormalizedPr)
    ensures
        final(out)@ == old(out)@ + pr_row(*p),
{
    push_str(out, "| #");
    let n = u64_to_string(p.number);
    push_str(out, n.as_str());
    push_str(out, " | ");
    let t = md_escape(p.title.as_str());
    push_str(out, t.as_str());
    push_str(out, " | `");
    push_str(out, p.disposition.as_str());
    push_str(out, "` | `");
    push_bool(out, p.merge_eligible);
    push_str(out, "` | ");
    let reason = md_escape(p.reason.as_str());
    push_str(out, reason.as_str());
    push_str(out, " |\n");
}

/// Renders the normalized report as Markdown.
pub fn report_markdown(report: &NormalizedReport) -> (r: String)
    ensures
        r@ == control_markdown(*report),
{
    let mut out = String::new();
    push_control_head(&mut out, report);
    let ghost after_head = out@;
    if report.reconciliation_reasons.len() > 0 {
        push_str(&mut out, "## Reconciliation required\n\n");
        crate::text::push_wrapped_md_items(&mut out, &report.reconciliation_reasons, "- ", "\n");
        push_str(&mut out, "\n");
    }
    push_str(
        &mut out,
        "## PR dispositions\n\n| PR | Title | Disposition | Merge eligible | Reason |\n| ---: | --- | --- | --- | --- |\n",
    );
    let ghost head = out@;
    let ghost rows = report.prs@.map_values(|p: NormalizedPr| pr_row(p));
    let mut i: usize = 0;
    assert(rows.take(0) =~= Seq::<Seq<char>>::empty());
    while i < report.prs.len()
        invariant
            i <= report.prs@.len(),
            rows == report.prs@.map_values(|p: NormalizedPr| pr_row(p)),
            out@ == head + concat_all(rows.take(i as int)),
        decreases report.prs.len() - i,
    {
        push_pr_row(&mut out, &report.prs[i]);
        assert(rows.take(i + 1).drop_last() =~= rows.take(i as int));
        i += 1;
    }
    assert(rows.take(report.prs@.len() as int) =~= rows);
    push_str(&mut out, "\n## Next action\n\n");
    push_str(&mut out, report.next_action.as_str());
    push_str(&mut out, "\n\n");
    push_str(
        &mut out,
        "This is a temporary, read-only release-selection lens. It does not close issues, merge PRs, create branches, qualify a candidate, publish, or change development `main`.\n",
    );
    assert(out@ =~= control_markdown(*report));
    out
}

} // verus!

//! Linking ledger commits to retained GitHub metadata: which merged PR
//! claims each commit and which PRs and issues its body names, and folding
//! such a capture back into a ledger.

use vstd::prelude::*;
use crate::release_denominator::{
    CommitRecord, ReferenceEvidence, Snapshot, refs_from, body_issue_or_pr_references, find_sha,
    first_with_sha, is_capture_status, validate_capture_repository,
};
use crate::release_scope::digest_of;
use crate::text::{owned, str_eq, str_less, push_str, concat, concat3, seq_less, decimal, views, u64_to_string, join};

verus! {

/// A merged or open pull request as GitHub lists it.
#[derive(Clone, Debug, PartialEq, Eq)]
pub struct GithubPullRequest {
    pub number: u64,
    pub url: String,
    pub body: Option<String>,
    /// The merge commit's SHA, once merged.
    pub merge_commit: Option<String>,
}

/// What the capture found for one ledger commit.
#[derive(Clone, Debug, PartialEq, Eq)]
pub struct GithubCaptureRecord {
    pub commit_sha: String,
    pub status: String,
    pub limitation: String,
    pub references: Vec<ReferenceEvidence>,
}

/// A capture of GitHub authority for a ledger's range.
#[derive(Clone, Debug, PartialEq, Eq)]
pub struct GithubCapture {
    pub schema_version: String,
    pub kind: String,
    pub repository: String,
    pub observed_for_candidate_sha: String,
    pub observed_range_digest: String,
    pub records: Vec<GithubCaptureRecord>,
}

/// A reference as plain values: kind, number, source, evidence URL,
/// identity, observed commit, reviewed, limitation.
pub type RefView = (
    Seq<char>,
    u64,
    Seq<char>,
    Option<Seq<char>>,
    Option<Seq<char>>,
    Seq<char>,
    bool,
    Seq<char>,
);

pub open spec fn opt_text(o: Option<String>) -> Option<Seq<char>> {
    match o {
        Some(s) => Some(s@),
        None => None,
    }
}

pub open spec fn ref_view(r: ReferenceEvidence) -> RefView {
    (
        r.kind@,
        r.number,
        r.source@,
        opt_text(r.evidence_url),
        opt_text(r.github_identity),
        r.observed_for_commit_sha@,
        r.reviewed,
        r.limitation@,
    )
}

pub open spec fn ref_views(rs: Seq<ReferenceEvidence>) -> Seq<RefView> {
    rs.map_values(|r: ReferenceEvidence| ref_view(r))
}

/// The indices of the PRs (among the first `n`) merged as `sha`, in order.
pub open spec fn merged_as(prs: Seq<GithubPullRequest>, sha: Seq<char>, n: int) -> Seq<int>
    decreases n,
{
    if n <= 0 {
        seq![]
    } else {
        merged_as(prs, sha, n - 1) + if opt_text(prs[n - 1].merge_commit) == Some(sha) {
            seq![n - 1]
        } else {
            seq![]
        }
    }
}

/// A PR's body text (empty when it has none).
pub open spec fn body_of(pr: GithubPullRequest) -> Seq<char> {
    match pr.body {
        Some(b) => b@,
        None => seq![],
    }
}

/// Whether some listed PR has this number.
pub open spec fn known_pr(prs: Seq<GithubPullRequest>, number: u64) -> bool {
    exists|i: int| 0 <= i < prs.len() && #[trigger] prs[i].number == number
}

pub open spec fn merge_ref(pr: GithubPullRequest, sha: Seq<char>) -> RefView {
    (
        "merge_pr"@,
        pr.number,
        "associated_pull_request"@,
        Some(pr.url@),
        None,
        sha,
        false,
        "Captured from GitHub merge metadata; operator adjudication remains required."@,
    )
}

pub open spec fn body_ref(known: bool, pr: u64, number: u64, source: Seq<char>, sha: Seq<char>) -> RefView {
    (
        if known {
            "pull_request"@
        } else {
            "issue"@
        },
        number,
        source,
        None,
        Some("pr-body:"@ + decimal(pr as nat) + ":"@ + source + ":"@ + decimal(number as nat)),
        sha,
        false,
        "Captured from a retained GitHub PR body; operator adjudication remains required."@,
    )
}

/// The references a PR body names besides the PR itself, in order.
pub open spec fn body_refs(
    prs: Seq<GithubPullRequest>,
    pr: u64,
    found: Seq<(u64, Seq<char>)>,
    sha: Seq<char>,
) -> Seq<RefView>
    decreases found.len(),
{
    if found.len() == 0 {
        seq![]
    } else {
        body_refs(prs, pr, found.drop_last(), sha) + if found.last().0 == pr {
            seq![]
        } else {
            seq![body_ref(known_pr(prs, found.last().0), pr, found.last().0, found.last().1, sha)]
        }
    }
}

/// Whether `a` comes before `b` by (kind, number, source).
pub open spec fn key_less(a: RefView, b: RefView) -> bool {
    seq_less(a.0, b.0) || (a.0 == b.0 && (a.1 < b.1 || (a.1 == b.1 && seq_less(a.2, b.2))))
}

pub open spec fn same_key(a: RefView, b: RefView) -> bool {
    a.0 == b.0 && a.1 == b.1 && a.2 == b.2
}

/// `x` placed in the key-sorted `r`, unless `r` has its key already.
pub open spec fn insert_by_key(r: Seq<RefView>, x: RefView) -> Seq<RefView>
    decreases r.len(),
{
    if r.len() == 0 {
        seq![x]
    } else if same_key(r[0], x) {
        r
    } else if key_less(x, r[0]) {
        seq![x] + r
    } else {
        seq![r[0]] + insert_by_key(r.drop_first(), x)
    }
}

/// The references sorted by key, the first of each key kept.
pub open spec fn sorted_by_key(s: Seq<RefView>) -> Seq<RefView>
    decreases s.len(),
{
    if s.len() == 0 {
        seq![]
    } else {
        insert_by_key(sorted_by_key(s.drop_last()), s.last())
    }
}

/// A capture record as plain values.
pub type CaptureView = (Seq<char>, Seq<char>, Seq<char>, Seq<RefView>);

pub open spec fn capture_view(r: GithubCaptureRecord) -> CaptureView {
    (r.commit_sha@, r.status@, r.limitation@, ref_views(r.references@))
}

/// What the capture records for commit `sha`: no linked authority when no
/// PR was merged as it, ambiguity when several were, and otherwise the
/// merge PR with the references its body names, sorted by key.
pub open spec fn capture_for(prs: Seq<GithubPullRequest>, sha: Seq<char>) -> CaptureView {
    let ms = merged_as(prs, sha, prs.len() as int);
    if ms.len() == 0 {
        (
            sha,
            "no_linked_authority"@,
            "No merged PR or linked PR/issue reference was found in retained GitHub metadata."@,
            seq![],
        )
    } else if ms.len() != 1 {
        (
            sha,
            "ambiguous"@,
            "Multiple merged PRs claim commit "@ + sha + ": "@ + join(
                ms.map_values(|i: int| "#"@ + decimal(prs[i].number as nat)),
                ", "@,
            ) + "."@,
            seq![],
        )
    } else {
        let pr = prs[ms[0]];
        let body = body_of(pr);
        (
            sha,
            "captured"@,
            "References are captured authority, not yet operator-reviewed."@,
            sorted_by_key(seq![merge_ref(pr, sha)] + body_refs(prs, pr.number, refs_from(body, 0), sha)),
        )
    }
}

fn merged_indices(prs: &Vec<GithubPullRequest>, sha: &str) -> (r: Vec<usize>)
    ensures
        r@.map_values(|i: usize| i as int) == merged_as(prs@, sha@, prs@.len() as int),
        forall|k: int| 0 <= k < r@.len() ==> r@[k] < prs@.len(),
{
    let mut r: Vec<usize> = Vec::new();
    let mut i: usize = 0;
    while i < prs.len()
        invariant
            i <= prs@.len(),
            r@.map_values(|i: usize| i as int) == merged_as(prs@, sha@, i as int),
            forall|k: int| 0 <= k < r@.len() ==> r@[k] < i,
        decreases prs.len() - i,
    {
        let hit = match &prs[i].merge_commit {
            Some(m) => str_eq(m.as_str(), sha),
            None => false,
        };
        let ghost before = r@;
        if hit {
            r.push(i);
            assert(r@.map_values(|i: usize| i as int) =~= before.map_values(|i: usize| i as int)
                + seq![i as int]);
        } else {
            assert(merged_as(prs@, sha@, i + 1) =~= merged_as(prs@, sha@, i as int));
        }
        i += 1;
    }
    r
}

fn is_known_pr(prs: &Vec<GithubPullRequest>, number: u64) -> (b: bool)
    ensures
        b == known_pr(prs@, number),
{
    let mut i: usize = 0;
    while i < prs.len()
        invariant
            i <= prs@.len(),
            forall|k: int| 0 <= k < i ==> prs@[k].number != number,
        decreases prs.len() - i,
    {
        if prs[i].number == number {
            return true;
        }
        i += 1;
    }
    false
}

fn key_less_exec(a: &ReferenceEvidence, b: &ReferenceEvidence) -> (r: bool)
    ensures
        r == key_less(ref_view(*a), ref_view(*b)),
{
    if str_less(a.kind.as_str(), b.kind.as_str()) {
        return true;
    }
    if !str_eq(a.kind.as_str(), b.kind.as_str()) {
        return false;
    }
    if a.number < b.number {
        return true;
    }
    a.number == b.number && str_less(a.source.as_str(), b.source.as_str())
}

fn same_key_exec(a: &ReferenceEvidence, b: &ReferenceEvidence) -> (r: bool)
    ensures
        r == same_key(ref_view(*a), ref_view(*b)),
{
    str_eq(a.kind.as_str(), b.kind.as_str()) && a.number == b.number && str_eq(
        a.source.as_str(),
        b.source.as_str(),
    )
}

proof fn lemma_insert_at(r: Seq<RefView>, x: RefView, i: int)
    requires
        0 <= i <= r.len(),
        forall|j: int| 0 <= j < i ==> !same_key(#[trigger] r[j], x) && !key_less(x, r[j]),
    ensures
        insert_by_key(r, x) == r.take(i) + insert_by_key(r.skip(i), x),
    decreases i,
{
    if i == 0 {
        assert(r.skip(0) =~= r);
        assert(r.take(0) + insert_by_key(r.skip(0), x) =~= insert_by_key(r, x));
    } else {
        let t = r.drop_first();
        assert forall|j: int| 0 <= j < i - 1 implies !same_key(#[trigger] t[j], x) && !key_less(
            x,
            t[j],
        ) by {
            assert(t[j] == r[j + 1]);
        }
        lemma_insert_at(t, x, i - 1);
        assert(!same_key(r[0], x) && !key_less(x, r[0]));
        assert(t.skip(i - 1) =~= r.skip(i));
        assert(seq![r[0]] + t.take(i - 1) =~= r.take(i));
        assert(seq![r[0]] + (t.take(i - 1) + insert_by_key(r.skip(i), x)) =~= r.take(i)
            + insert_by_key(r.skip(i), x));
    }
}

fn insert_reference(r: &mut Vec<ReferenceEvidence>, x: ReferenceEvidence)
    ensures
        ref_views(final(r)@) == insert_by_key(ref_views(old(r)@), ref_view(x)),
{
    let ghost v = ref_views(r@);
    let ghost xv = ref_view(x);
    let mut i: usize = 0;
    while i < r.len() && !same_key_exec(&r[i], &x) && !key_less_exec(&x, &r[i])
        invariant
            i <= r@.len(),
            v == ref_views(r@),
            xv == ref_view(x),
            v.len() == r@.len(),
            forall|j: int| 0 <= j < i ==> !same_key(#[trigger] v[j], xv) && !key_less(xv, v[j]),
        decreases r.len() - i,
    {
        assert(v[i as int] == ref_view(r@[i as int]));
        i += 1;
    }
    proof {
        lemma_insert_at(v, xv, i as int);
    }
    if i < r.len() {
        assert(v.skip(i as int)[0] == v[i as int]);
        assert(v[i as int] == ref_view(r@[i as int]));
        if same_key_exec(&r[i], &x) {
            assert(insert_by_key(v.skip(i as int), xv) == v.skip(i as int));
            assert(v.take(i as int) + v.skip(i as int) =~= v);
            return;
        }
        assert(insert_by_key(v.skip(i as int), xv) == seq![xv] + v.skip(i as int));
        let ghost before = r@;
        r.insert(i, x);
        assert(r@ == before.insert(i as int, x));
        assert(ref_views(r@) =~= v.take(i as int) + (seq![xv] + v.skip(i as int)));
    } else {
        r.push(x);
        assert(v.skip(i as int) =~= Seq::<RefView>::empty());
        assert(insert_by_key(v.skip(i as int), xv) == seq![xv]);
        assert(ref_views(r@) =~= v.take(i as int) + seq![xv]);
    }
}

fn merge_reference(pr: &GithubPullRequest, sha: &str) -> (r: ReferenceEvidence)
    ensures
        ref_view(r) == merge_ref(*pr, sha@),
{
    ReferenceEvidence {
        kind: owned("merge_pr"),
        number: pr.number,
        source: owned("associated_pull_request"),
        evidence_url: Some(owned(pr.url.as_str())),
        github_identity: None,
        observed_for_commit_sha: owned(sha),
        reviewed: false,
        limitation: owned(
            "Captured from GitHub merge metadata; operator adjudication remains required.",
        ),
    }
}

fn body_reference(known: bool, pr: u64, number: u64, source: &str, sha: &str) -> (r: ReferenceEvidence)
    ensures
        ref_view(r) == body_ref(known, pr, number, source@, sha@),
{
    let mut identity = owned("pr-body:");
    let p = u64_to_string(pr);
    push_str(&mut identity, p.as_str());
    push_str(&mut identity, ":");
    push_str(&mut identity, source);
    push_str(&mut identity, ":");
    let n = u64_to_string(number);
    push_str(&mut identity, n.as_str());
    ReferenceEvidence {
        kind: owned(
            if known {
                "pull_request"
            } else {
                "issue"
            },
        ),
        number,
        source: owned(source),
        evidence_url: None,
        github_identity: Some(identity),
        observed_for_commit_sha: owned(sha),
        reviewed: false,
        limitation: owned(
            "Captured from a retained GitHub PR body; operator adjudication remains required.",
        ),
    }
}

proof fn lemma_sorted_append(s: Seq<RefView>, x: RefView)
    ensures
        sorted_by_key(s.push(x)) == insert_by_key(sorted_by_key(s), x),
{
    assert(s.push(x).drop_last() =~= s);
}

/// The references of a captured commit: the merge PR's, then those its
/// body names, sorted by key with the first of each key kept.
fn captured_references(
    prs: &Vec<GithubPullRequest>,
    pr: &GithubPullRequest,
    sha: &str,
) -> (r: Vec<ReferenceEvidence>)
    ensures
        ref_views(r@) == sorted_by_key(
            seq![merge_ref(*pr, sha@)] + body_refs(
                prs@,
                pr.number,
                refs_from(body_of(*pr), 0),
                sha@,
            ),
        ),
{
    let ghost body_text = body_of(*pr);
    let mut out: Vec<ReferenceEvidence> = Vec::new();
    let first = merge_reference(pr, sha);
    assert(ref_views(out@) =~= Seq::<RefView>::empty());
    insert_reference(&mut out, first);
    let ghost head = seq![merge_ref(*pr, sha@)];
    assert(ref_views(out@) == sorted_by_key(head)) by {
        assert(head.drop_last() =~= Seq::<RefView>::empty());
        assert(sorted_by_key(head.drop_last()) =~= Seq::<RefView>::empty());
        assert(head.last() == merge_ref(*pr, sha@));
    }
    let found = match &pr.body {
        Some(b) => body_issue_or_pr_references(b.as_str()),
        None => {
            proof {
                reveal_strlit("");
            }
            body_issue_or_pr_references("")
        },
    };
    let ghost fv = found@.map_values(|p: (u64, &str)| (p.0, p.1@));
    assert(fv == refs_from(body_text, 0));
    let mut k: usize = 0;
    while k < found.len()
        invariant
            k <= found@.len(),
            fv == found@.map_values(|p: (u64, &str)| (p.0, p.1@)),
            ref_views(out@) == sorted_by_key(head + body_refs(prs@, pr.number, fv.take(k as int), sha@)),
        decreases found.len() - k,
    {
        let (number, source) = found[k];
        assert(fv.take(k + 1).drop_last() =~= fv.take(k as int));
        assert(fv.take(k + 1).last() == (number, source@));
        let ghost prefix = head + body_refs(prs@, pr.number, fv.take(k as int), sha@);
        if number != pr.number {
            let known = is_known_pr(prs, number);
            let x = body_reference(known, pr.number, number, source, sha);
            proof {
                assert(head + body_refs(prs@, pr.number, fv.take(k + 1), sha@) =~= prefix.push(
                    ref_view(x),
                ));
                lemma_sorted_append(prefix, ref_view(x));
            }
            insert_reference(&mut out, x);
        } else {
            assert(head + body_refs(prs@, pr.number, fv.take(k + 1), sha@) =~= prefix);
        }
        k += 1;
    }
    assert(fv.take(found@.len() as int) =~= fv);
    out
}

fn ambiguity_message(prs: &Vec<GithubPullRequest>, ms: &Vec<usize>, sha: &str) -> (m: String)
    requires
        forall|k: int| 0 <= k < ms@.len() ==> ms@[k] < prs@.len(),
    ensures
        m@ == "Multiple merged PRs claim commit "@ + sha@ + ": "@ + join(
            ms@.map_values(|i: usize| i as int).map_values(
                |i: int| "#"@ + decimal(prs@[i].number as nat),
            ),
            ", "@,
        ) + "."@,
{
    let ghost items = ms@.map_values(|i: usize| i as int).map_values(
        |i: int| "#"@ + decimal(prs@[i].number as nat),
    );
    let mut labels: Vec<String> = Vec::new();
    let mut k: usize = 0;
    while k < ms.len()
        invariant
            k <= ms@.len(),
            forall|q: int| 0 <= q < ms@.len() ==> ms@[q] < prs@.len(),
            items == ms@.map_values(|i: usize| i as int).map_values(
                |i: int| "#"@ + decimal(prs@[i].number as nat),
            ),
            views(labels@) =~= items.take(k as int),
        decreases ms.len() - k,
    {
        let n = u64_to_string(prs[ms[k]].number);
        let ghost before = views(labels@);
        labels.push(concat("#", n.as_str()));
        assert(items[k as int] == "#"@ + decimal(prs@[ms@[k as int] as int].number as nat));
        assert(views(labels@) =~= before.push(items[k as int]));
        assert(items.take(k + 1) =~= items.take(k as int).push(items[k as int]));
        k += 1;
    }
    let mut m = owned("Multiple merged PRs claim commit ");
    push_str(&mut m, sha);
    push_str(&mut m, ": ");
    crate::text::push_joined(&mut m, &labels, ", ");
    push_str(&mut m, ".");
    assert(views(labels@) =~= items);
    m
}

/// What the capture records for one ledger commit.
pub fn capture_record(prs: &Vec<GithubPullRequest>, sha: &str) -> (r: GithubCaptureRecord)
    ensures
        capture_view(r) == capture_for(prs@, sha@),
{
    let ms = merged_indices(prs, sha);
    assert(ms@.len() == merged_as(prs@, sha@, prs@.len() as int).len());
    if ms.len() == 0 {
        let r = GithubCaptureRecord {
            commit_sha: owned(sha),
            status: owned("no_linked_authority"),
            limitation: owned(
                "No merged PR or linked PR/issue reference was found in retained GitHub metadata.",
            ),
            references: Vec::new(),
        };
        assert(ref_views(r.references@) =~= Seq::<RefView>::empty());
        return r;
    }
    if ms.len() != 1 {
        let r = GithubCaptureRecord {
            commit_sha: owned(sha),
            status: owned("ambiguous"),
            limitation: ambiguity_message(prs, &ms, sha),
            references: Vec::new(),
        };
        assert(ref_views(r.references@) =~= Seq::<RefView>::empty());
        return r;
    }
    let pr = &prs[ms[0]];
    assert(merged_as(prs@, sha@, prs@.len() as int)[0] == ms@[0] as int);
    let references = captured_references(prs, pr, sha);
    GithubCaptureRecord {
        commit_sha: owned(sha),
        status: owned("captured"),
        limitation: owned("References are captured authority, not yet operator-reviewed."),
        references,
    }
}

/// The capture records of every ledger commit, in ledger order.
pub fn capture_records(records: &Vec<CommitRecord>, prs: &Vec<GithubPullRequest>) -> (r: Vec<GithubCaptureRecord>)
    ensures
        r@.len() == records@.len(),
        forall|i: int|
            0 <= i < records@.len() ==> capture_view(#[trigger] r@[i]) == capture_for(
                prs@,
                records@[i].commit_sha@,
            ),
{
    let mut out: Vec<GithubCaptureRecord> = Vec::new();
    let mut i: usize = 0;
    while i < records.len()
        invariant
            i <= records@.len(),
            out@.len() == i,
            forall|q: int|
                0 <= q < i ==> capture_view(#[trigger] out@[q]) == capture_for(
                    prs@,
                    records@[q].commit_sha@,
                ),
        decreases records.len() - i,
    {
        out.push(capture_record(prs, records[i].commit_sha.as_str()));
        i += 1;
    }
    out
}

/// The capture of a ledger: its records linked, stamped with the
/// repository, the candidate and the digest of the range's canonical JSON.
pub fn build_github_capture(
    snapshot: &Snapshot,
    repository: &str,
    prs: &Vec<GithubPullRequest>,
    range_json: &[u8],
) -> (c: GithubCapture)
    ensures
        c.schema_version@ == "0.1"@,
        c.kind@ == "release_denominator_github_capture"@,
        c.repository@ == repository@,
        c.observed_for_candidate_sha@ == snapshot.source.candidate_sha@,
        c.observed_range_digest@ == digest_of(range_json@),
        c.records@.len() == snapshot.records@.len(),
        forall|i: int|
            0 <= i < snapshot.records@.len() ==> capture_view(#[trigger] c.records@[i]) == capture_for(
                prs@,
                snapshot.records@[i].commit_sha@,
            ),
{
    GithubCapture {
        schema_version: owned("0.1"),
        kind: owned("release_denominator_github_capture"),
        repository: owned(repository),
        observed_for_candidate_sha: owned(snapshot.source.candidate_sha.as_str()),
        observed_range_digest: crate::release_denominator::digest_text(range_json),
        records: capture_records(&snapshot.records, prs),
    }
}

// ---------------------------------------------------------------------------
// Importing a capture
// ---------------------------------------------------------------------------

/// The first capture record for `sha` among the first `n`.
pub open spec fn capture_index(caps: Seq<GithubCaptureRecord>, sha: Seq<char>, n: int) -> Option<int>
    decreases n,
{
    if n <= 0 {
        None
    } else {
        match capture_index(caps, sha, n - 1) {
            Some(i) => Some(i),
            None => if caps[n - 1].commit_sha@ == sha {
                Some(n - 1)
            } else {
                None
            },
        }
    }
}

/// Whether two capture records name the same commit.
pub open spec fn duplicate_commit(caps: Seq<GithubCaptureRecord>) -> bool {
    exists|i: int, j: int|
        0 <= i < j < caps.len() && (#[trigger] caps[i]).commit_sha@ == (#[trigger] caps[j]).commit_sha@
}

/// Why a ledger record cannot take its capture.
pub open spec fn record_import_error(caps: Seq<GithubCaptureRecord>, r: CommitRecord) -> Option<Seq<char>> {
    match capture_index(caps, r.commit_sha@, caps.len() as int) {
        None => Some("GitHub denominator capture is missing commit "@ + r.commit_sha@),
        Some(k) => if !is_capture_status(caps[k].status@) {
            Some(
                "GitHub denominator capture has invalid status "@ + caps[k].status@ + " for "@
                    + r.commit_sha@,
            )
        } else {
            None
        },
    }
}

/// The first such error among the first `n` ledger records.
pub open spec fn records_import_error(
    caps: Seq<GithubCaptureRecord>,
    records: Seq<CommitRecord>,
    n: int,
) -> Option<Seq<char>>
    decreases n,
{
    if n <= 0 {
        None
    } else {
        match records_import_error(caps, records, n - 1) {
            Some(e) => Some(e),
            None => record_import_error(caps, records[n - 1]),
        }
    }
}

pub open spec fn repository_error(expected: Option<String>, observed: Seq<char>) -> Option<Seq<char>> {
    match expected {
        None => Some(
            "GitHub denominator input must pin source.github_repository before capture or import"@,
        ),
        Some(x) => if x@ == observed {
            None
        } else {
            Some(
                "GitHub denominator capture repository "@ + observed + " does not match expected "@
                    + x@,
            )
        },
    }
}

/// Why a capture cannot be imported into a ledger whose range has the
/// given digest: the first failing check, in order.
pub open spec fn import_error(s: Snapshot, c: GithubCapture, range_digest: Seq<char>) -> Option<Seq<char>> {
    if c.schema_version@ != "0.1"@ || c.kind@ != "release_denominator_github_capture"@ {
        Some("GitHub denominator capture has an unsupported schema or kind"@)
    } else if repository_error(s.source.github_repository, c.repository@) is Some {
        repository_error(s.source.github_repository, c.repository@)
    } else if c.observed_for_candidate_sha@ != s.source.candidate_sha@ {
        Some("GitHub denominator capture candidate SHA does not match input ledger"@)
    } else if c.observed_range_digest@ != range_digest {
        Some("GitHub denominator capture range digest does not match input ledger"@)
    } else if duplicate_commit(c.records@) {
        Some("GitHub denominator capture contains a duplicate commit"@)
    } else {
        records_import_error(c.records@, s.records@, s.records@.len() as int)
    }
}

/// `after` is `before` with the capture's references, status and
/// limitation, and with its legacy PR and issue numbers cleared.
pub open spec fn took_capture(before: CommitRecord, c: GithubCaptureRecord, after: CommitRecord) -> bool {
    &&& ref_views(after.references@) == ref_views(c.references@)
    &&& after.pr_refs@.len() == 0
    &&& after.issue_refs@.len() == 0
    &&& after.reference_capture_status@ == c.status@
    &&& after.reference_capture_limitation@ == c.limitation@
    &&& after == (CommitRecord {
        references: after.references,
        pr_refs: after.pr_refs,
        issue_refs: after.issue_refs,
        reference_capture_status: after.reference_capture_status,
        reference_capture_limitation: after.reference_capture_limitation,
        ..before
    })
}

proof fn lemma_capture_index_stable(caps: Seq<GithubCaptureRecord>, sha: Seq<char>, i: int, n: int)
    requires
        i <= n,
        capture_index(caps, sha, i) is Some,
    ensures
        capture_index(caps, sha, n) == capture_index(caps, sha, i),
    decreases n - i,
{
    if i < n {
        lemma_capture_index_stable(caps, sha, i, n - 1);
    }
}

proof fn lemma_capture_index_bound(caps: Seq<GithubCaptureRecord>, sha: Seq<char>, n: int)
    requires
        capture_index(caps, sha, n) is Some,
    ensures
        0 <= capture_index(caps, sha, n)->0 < n,
        caps[capture_index(caps, sha, n)->0].commit_sha@ == sha,
    decreases n,
{
    if capture_index(caps, sha, n - 1) is Some {
        lemma_capture_index_bound(caps, sha, n - 1);
    }
}

fn find_capture(caps: &Vec<GithubCaptureRecord>, sha: &str) -> (r: Option<usize>)
    ensures
        r is Some ==> capture_index(caps@, sha@, caps@.len() as int) == Some(r->0 as int) && r->0
            < caps@.len(),
        r is None ==> capture_index(caps@, sha@, caps@.len() as int) is None,
{
    let mut i: usize = 0;
    while i < caps.len()
        invariant
            i <= caps@.len(),
            capture_index(caps@, sha@, i as int) is None,
        decreases caps.len() - i,
    {
        if str_eq(caps[i].commit_sha.as_str(), sha) {
            proof {
                lemma_capture_index_stable(caps@, sha@, i + 1, caps@.len() as int);
            }
            return Some(i);
        }
        i += 1;
    }
    None
}

fn has_duplicate_commit(caps: &Vec<GithubCaptureRecord>) -> (b: bool)
    ensures
        b == duplicate_commit(caps@),
{
    let mut j: usize = 0;
    while j < caps.len()
        invariant
            j <= caps@.len(),
            forall|p: int, q: int|
                0 <= p < q < j ==> (#[trigger] caps@[p]).commit_sha@ != (#[trigger] caps@[q]).commit_sha@,
        decreases caps.len() - j,
    {
        let mut i: usize = 0;
        while i < j
            invariant
                i <= j < caps@.len(),
                forall|p: int| 0 <= p < i ==> (#[trigger] caps@[p]).commit_sha@ != caps@[j as int].commit_sha@,
            decreases j - i,
        {
            if str_eq(caps[i].commit_sha.as_str(), caps[j].commit_sha.as_str()) {
                assert(caps@[i as int].commit_sha@ == caps@[j as int].commit_sha@);
                return true;
            }
            i += 1;
        }
        j += 1;
    }
    false
}

fn copy_reference(r: &ReferenceEvidence) -> (c: ReferenceEvidence)
    ensures
        ref_view(c) == ref_view(*r),
{
    ReferenceEvidence {
        kind: owned(r.kind.as_str()),
        number: r.number,
        source: owned(r.source.as_str()),
        evidence_url: match &r.evidence_url {
            Some(u) => Some(owned(u.as_str())),
            None => None,
        },
        github_identity: match &r.github_identity {
            Some(u) => Some(owned(u.as_str())),
            None => None,
        },
        observed_for_commit_sha: owned(r.observed_for_commit_sha.as_str()),
        reviewed: r.reviewed,
        limitation: owned(r.limitation.as_str()),
    }
}

fn copy_references(rs: &Vec<ReferenceEvidence>) -> (c: Vec<ReferenceEvidence>)
    ensures
        ref_views(c@) == ref_views(rs@),
{
    let mut c: Vec<ReferenceEvidence> = Vec::new();
    let mut i: usize = 0;
    while i < rs.len()
        invariant
            i <= rs@.len(),
            ref_views(c@) =~= ref_views(rs@).take(i as int),
        decreases rs.len() - i,
    {
        let ghost before = ref_views(c@);
        c.push(copy_reference(&rs[i]));
        assert(ref_views(c@) =~= before.push(ref_view(rs@[i as int])));
        assert(ref_views(rs@).take(i + 1) =~= ref_views(rs@).take(i as int).push(ref_view(rs@[i as int])));
        i += 1;
    }
    assert(ref_views(rs@).take(rs@.len() as int) =~= ref_views(rs@));
    c
}

fn first_import_error(caps: &Vec<GithubCaptureRecord>, records: &Vec<CommitRecord>) -> (r: Option<String>)
    ensures
        match records_import_error(caps@, records@, records@.len() as int) {
            Some(e) => r matches Some(m) && m@ == e,
            None => r is None,
        },
{
    let mut i: usize = 0;
    while i < records.len()
        invariant
            i <= records@.len(),
            records_import_error(caps@, records@, i as int) is None,
        decreases records.len() - i,
    {
        let sha = records[i].commit_sha.as_str();
        assert(records_import_error(caps@, records@, i + 1) == record_import_error(
            caps@,
            records@[i as int],
        ));
        match find_capture(caps, sha) {
            None => {
                proof {
                    lemma_import_error_stays(caps@, records@, i + 1, records@.len() as int);
                }
                return Some(concat("GitHub denominator capture is missing commit ", sha));
            },
            Some(k) => {
                if !crate::release_denominator::is_capture_status_exec(caps[k].status.as_str()) {
                    proof {
                        lemma_import_error_stays(caps@, records@, i + 1, records@.len() as int);
                    }
                    let mut m = concat(
                        "GitHub denominator capture has invalid status ",
                        caps[k].status.as_str(),
                    );
                    push_str(&mut m, " for ");
                    push_str(&mut m, sha);
                    return Some(m);
                }
            },
        }
        i += 1;
    }
    None
}

proof fn lemma_import_error_stays(caps: Seq<GithubCaptureRecord>, records: Seq<CommitRecord>, i: int, n: int)
    requires
        i <= n,
        records_import_error(caps, records, i) is Some,
    ensures
        records_import_error(caps, records, n) == records_import_error(caps, records, i),
    decreases n - i,
{
    if i < n {
        lemma_import_error_stays(caps, records, i, n - 1);
    }
}

/// Folds a capture into the ledger: every record takes the references,
/// status and limitation captured for its commit. The ledger is unchanged
/// when the capture is refused.
pub fn import_github_capture(snapshot: &mut Snapshot, capture: &GithubCapture, range_json: &[u8]) -> (r:
    Result<(), String>)
    ensures
        match import_error(*old(snapshot), *capture, digest_of(range_json@)) {
            Some(e) => r matches Err(m) && m@ == e && *final(snapshot) == *old(snapshot),
            None => r is Ok && final(snapshot).schema_version == old(snapshot).schema_version
                && final(snapshot).kind == old(snapshot).kind && final(snapshot).captured_at
                == old(snapshot).captured_at && final(snapshot).source == old(snapshot).source
                && final(snapshot).records@.len() == old(snapshot).records@.len() && forall|i: int|
                0 <= i < old(snapshot).records@.len() ==> took_capture(
                    #[trigger] old(snapshot).records@[i],
                    capture.records@[capture_index(
                        capture.records@,
                        old(snapshot).records@[i].commit_sha@,
                        capture.records@.len() as int,
                    )->0],
                    final(snapshot).records@[i],
                ),
        },
{
    if !str_eq(capture.schema_version.as_str(), "0.1") || !str_eq(
        capture.kind.as_str(),
        "release_denominator_github_capture",
    ) {
        return Err(owned("GitHub denominator capture has an unsupported schema or kind"));
    }
    let expected = match &snapshot.source.github_repository {
        Some(x) => Some(x.as_str()),
        None => None,
    };
    match validate_capture_repository(expected, capture.repository.as_str()) {
        Err(e) => {
            return Err(e);
        },
        Ok(()) => {},
    }
    if !str_eq(capture.observed_for_candidate_sha.as_str(), snapshot.source.candidate_sha.as_str()) {
        return Err(owned("GitHub denominator capture candidate SHA does not match input ledger"));
    }
    let digest = crate::release_denominator::digest_text(range_json);
    if !str_eq(capture.observed_range_digest.as_str(), digest.as_str()) {
        return Err(owned("GitHub denominator capture range digest does not match input ledger"));
    }
    if has_duplicate_commit(&capture.records) {
        return Err(owned("GitHub denominator capture contains a duplicate commit"));
    }
    match first_import_error(&capture.records, &snapshot.records) {
        Some(e) => {
            return Err(e);
        },
        None => {},
    }
    let ghost olds = snapshot.records@;
    let n = snapshot.records.len();
    let mut i: usize = 0;
    while i < n
        invariant
            i <= n == olds.len(),
            snapshot.records@.len() == n,
            snapshot.schema_version == old(snapshot).schema_version,
            snapshot.kind == old(snapshot).kind,
            snapshot.captured_at == old(snapshot).captured_at,
            snapshot.source == old(snapshot).source,
            olds == old(snapshot).records@,
            records_import_error(capture.records@, olds, n as int) is None,
            forall|k: int|
                0 <= k < i ==> took_capture(
                    #[trigger] olds[k],
                    capture.records@[capture_index(
                        capture.records@,
                        olds[k].commit_sha@,
                        capture.records@.len() as int,
                    )->0],
                    snapshot.records@[k],
                ),
            forall|k: int| i <= k < n ==> #[trigger] snapshot.records@[k] == olds[k],
        decreases n - i,
    {
        proof {
            lemma_import_prefix_ok(capture.records@, olds, i + 1, n as int);
        }
        let record = snapshot.records.remove(i);
        assert(record == olds[i as int]);
        let k = match find_capture(&capture.records, record.commit_sha.as_str()) {
            Some(k) => k,
            None => {
                snapshot.records.insert(i, record);
                return Ok(());
            },
        };
        let c = &capture.records[k];
        let updated = CommitRecord {
            references: copy_references(&c.references),
            pr_refs: Vec::new(),
            issue_refs: Vec::new(),
            reference_capture_status: owned(c.status.as_str()),
            reference_capture_limitation: owned(c.limitation.as_str()),
            ..record
        };
        snapshot.records.insert(i, updated);
        i += 1;
    }
    Ok(())
}

proof fn lemma_import_prefix_ok(caps: Seq<GithubCaptureRecord>, records: Seq<CommitRecord>, i: int, n: int)
    requires
        1 <= i <= n,
        records_import_error(caps, records, n) is None,
    ensures
        record_import_error(caps, records[i - 1]) is None,
    decreases n - i,
{
    if i < n {
        lemma_import_prefix_ok(caps, records, i, n - 1);
    }
}

} // verus!

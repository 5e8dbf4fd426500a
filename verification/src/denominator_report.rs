//! The Markdown rendering of a normalized release denominator ledger.

use vstd::prelude::*;
use crate::release_denominator::{NormalizedReport, CommitRecord, cell_text, escape_cell};
use crate::text::{owned, push_str, decimal, usize_to_string, concat_all};

verus! {

pub open spec fn md_header(r: NormalizedReport) -> Seq<char> {
    "# Supplemental release denominator\n\n- Status: `"@ + r.status@ + "`\n- Stage: `"@
        + r.source.stage@ + "`\n- Historical base: `"@ + r.source.historical_base_sha@
        + "`\n- Provisional review cutoff: `"@ + match r.source.provisional_review_cutoff_sha {
        Some(c) => c@,
        None => "not selected"@,
    } + "`\n- Candidate: `"@ + r.source.candidate_ref@ + "` (`"@ + r.source.candidate_sha@
        + "`)\n- Range digest: `"@ + r.range_digest@ + "`\n- Candidate-tree digest: `"@
        + r.candidate_tree_digest@ + "`\n- Record-set digest: `"@ + r.record_set_digest@ + "`\n\n"@
}

/// One disposition count row.
pub open spec fn count_row(p: (String, usize)) -> Seq<char> {
    "| `"@ + cell_text(p.0@) + "` | "@ + decimal(p.1 as nat) + " |\n"@
}

/// One ledger record row.
pub open spec fn record_row(r: CommitRecord) -> Seq<char> {
    "| "@ + decimal(r.first_parent_position as nat) + " | `"@ + r.commit_sha@ + "` | `"@
        + cell_text(r.release_disposition@) + "` | `"@ + cell_text(r.candidate_tree_state@)
        + "` | "@ + cell_text(r.subject@) + " |\n"@
}

/// One reconciliation reason bullet.
pub open spec fn reason_row(s: String) -> Seq<char> {
    "- "@ + cell_text(s@) + "\n"@
}

pub open spec fn md_reconciliation(reasons: Seq<String>) -> Seq<char> {
    "\n## Reconciliation\n\n"@ + if reasons.len() == 0 {
        "The captured range, record order, dispositions, and candidate tree reconcile.\n\n"@
    } else {
        concat_all(reasons.map_values(|s: String| reason_row(s))) + "\n"@
    }
}

/// The Markdown report of a normalized ledger.
pub open spec fn denominator_markdown(r: NormalizedReport) -> Seq<char> {
    md_header(r) + "## Counts\n\n| Disposition | Count |\n| --- | ---: |\n"@ + concat_all(
        r.counts_by_disposition@.map_values(|p: (String, usize)| count_row(p)),
    )
        + "\n## Records\n\n| Position | Commit | Disposition | Candidate tree | Subject |\n| ---: | --- | --- | --- | --- |\n"@
        + concat_all(r.records@.map_values(|c: CommitRecord| record_row(c))) + md_reconciliation(
        r.reconciliation_reasons@,
    ) + "## Next action\n\n"@ + r.next_action@
        + "\n\n## Must not claim\n\n- candidate qualification\n- merge approval\n- release publication\n- source integration\n"@
}

fn push_header(out: &mut String, r: &NormalizedReport)
    ensures
        final(out)@ == old(out)@ + md_header(*r),
{
    let ghost start = out@;
    push_str(out, "# Supplemental release denominator\n\n- Status: `");
    push_str(out, r.status.as_str());
    push_str(out, "`\n- Stage: `");
    push_str(out, r.source.stage.as_str());
    push_str(out, "`\n- Historical base: `");
    push_str(out, r.source.historical_base_sha.as_str());
    push_str(out, "`\n- Provisional review cutoff: `");
    match &r.source.provisional_review_cutoff_sha {
        Some(c) => push_str(out, c.as_str()),
        None => push_str(out, "not selected"),
    }
    push_str(out, "`\n- Candidate: `");
    push_str(out, r.source.candidate_ref.as_str());
    push_str(out, "` (`");
    push_str(out, r.source.candidate_sha.as_str());
    push_str(out, "`)\n- Range digest: `");
    push_str(out, r.range_digest.as_str());
    push_str(out, "`\n- Candidate-tree digest: `");
    push_str(out, r.candidate_tree_digest.as_str());
    push_str(out, "`\n- Record-set digest: `");
    push_str(out, r.record_set_digest.as_str());
    push_str(out, "`\n\n");
    assert(out@ =~= start + md_header(*r));
}

fn push_counts(out: &mut String, counts: &Vec<(String, usize)>)
    ensures
        final(out)@ == old(out)@ + concat_all(counts@.map_values(|p: (String, usize)| count_row(p))),
{
    let ghost rows = counts@.map_values(|p: (String, usize)| count_row(p));
    let ghost start = out@;
    let mut i: usize = 0;
    assert(rows.take(0) =~= Seq::<Seq<char>>::empty());
    while i < counts.len()
        invariant
            i <= counts@.len(),
            rows == counts@.map_values(|p: (String, usize)| count_row(p)),
            out@ == start + concat_all(rows.take(i as int)),
        decreases counts.len() - i,
    {
        let ghost before = out@;
        push_str(out, "| `");
        let cell = escape_cell(counts[i].0.as_str());
        push_str(out, cell.as_str());
        push_str(out, "` | ");
        let n = usize_to_string(counts[i].1);
        push_str(out, n.as_str());
        push_str(out, " |\n");
        assert(rows.take(i + 1).drop_last() =~= rows.take(i as int));
        assert(out@ =~= before + count_row(counts@[i as int]));
        i += 1;
    }
    assert(rows.take(counts@.len() as int) =~= rows);
}

fn push_records(out: &mut String, records: &Vec<CommitRecord>)
    ensures
        final(out)@ == old(out)@ + concat_all(records@.map_values(|c: CommitRecord| record_row(c))),
{
    let ghost rows = records@.map_values(|c: CommitRecord| record_row(c));
    let ghost start = out@;
    let mut i: usize = 0;
    assert(rows.take(0) =~= Seq::<Seq<char>>::empty());
    while i < records.len()
        invariant
            i <= records@.len(),
            rows == records@.map_values(|c: CommitRecord| record_row(c)),
            out@ == start + concat_all(rows.take(i as int)),
        decreases records.len() - i,
    {
        let ghost before = out@;
        let r = &records[i];
        push_str(out, "| ");
        let n = usize_to_string(r.first_parent_position);
        push_str(out, n.as_str());
        push_str(out, " | `");
        push_str(out, r.commit_sha.as_str());
        push_str(out, "` | `");
        let d = escape_cell(r.release_disposition.as_str());
        push_str(out, d.as_str());
        push_str(out, "` | `");
        let t = escape_cell(r.candidate_tree_state.as_str());
        push_str(out, t.as_str());
        push_str(out, "` | ");
        let s = escape_cell(r.subject.as_str());
        push_str(out, s.as_str());
        push_str(out, " |\n");
        assert(rows.take(i + 1).drop_last() =~= rows.take(i as int));
        assert(out@ =~= before + record_row(records@[i as int]));
        i += 1;
    }
    assert(rows.take(records@.len() as int) =~= rows);
}

fn push_reconciliation(out: &mut String, reasons: &Vec<String>)
    ensures
        final(out)@ == old(out)@ + md_reconciliation(reasons@),
{
    let ghost start = out@;
    push_str(out, "\n## Reconciliation\n\n");
    if reasons.len() == 0 {
        push_str(out, "The captured range, record order, dispositions, and candidate tree reconcile.\n\n");
        assert(out@ =~= start + md_reconciliation(reasons@));
        return;
    }
    let ghost rows = reasons@.map_values(|s: String| reason_row(s));
    let ghost mid = out@;
    let mut i: usize = 0;
    assert(rows.take(0) =~= Seq::<Seq<char>>::empty());
    while i < reasons.len()
        invariant
            i <= reasons@.len(),
            rows == reasons@.map_values(|s: String| reason_row(s)),
            out@ == mid + concat_all(rows.take(i as int)),
        decreases reasons.len() - i,
    {
        let ghost before = out@;
        push_str(out, "- ");
        let c = escape_cell(reasons[i].as_str());
        push_str(out, c.as_str());
        push_str(out, "\n");
        assert(rows.take(i + 1).drop_last() =~= rows.take(i as int));
        assert(out@ =~= before + reason_row(reasons@[i as int]));
        i += 1;
    }
    assert(rows.take(reasons@.len() as int) =~= rows);
    push_str(out, "\n");
    assert(out@ =~= start + md_reconciliation(reasons@));
}

/// Renders the normalized ledger as Markdown: header, disposition counts,
/// records, reconciliation, next action and what the report must not
/// claim.
pub fn report_markdown(r: &NormalizedReport) -> (md: String)
    ensures
        md@ == denominator_markdown(*r),
{
    let mut out = String::new();
    push_header(&mut out, r);
    push_str(&mut out, "## Counts\n\n| Disposition | Count |\n| --- | ---: |\n");
    push_counts(&mut out, &r.counts_by_disposition);
    push_str(
        &mut out,
        "\n## Records\n\n| Position | Commit | Disposition | Candidate tree | Subject |\n| ---: | --- | --- | --- | --- |\n",
    );
    push_records(&mut out, &r.records);
    push_reconciliation(&mut out, &r.reconciliation_reasons);
    push_str(&mut out, "## Next action\n\n");
    push_str(&mut out, r.next_action.as_str());
    push_str(
        &mut out,
        "\n\n## Must not claim\n\n- candidate qualification\n- merge approval\n- release publication\n- source integration\n",
    );
    assert(out@ =~= denominator_markdown(*r));
    out
}

} // verus!

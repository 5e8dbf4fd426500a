//! The bookkeeping of one negative-corpus case: what each observed step
//! (the rejected run, the preserved outputs, the restoration, the control
//! rerun and the cleanup) records on the case receipt.

use vstd::prelude::*;
use crate::release::{CommandResult, command_details, command_details_spec};
use crate::release_negative::{
    CaseReceipt, Expectation, evaluate_rejection, rejection_eval, receipt_status,
};
use crate::text::{owned, push_str, views, concat, concat3, push_joined, join, extend_strings};
use crate::release_negative::CandidateIdentity;
use crate::release_checks::PackageInstallResult;

verus! {

/// Every field but those a step records is unchanged.
pub open spec fn same_identity(a: CaseReceipt, b: CaseReceipt) -> bool {
    &&& a.case_id == b.case_id
    &&& a.group == b.group
    &&& a.description == b.description
    &&& a.mutation == b.mutation
    &&& a.candidate_path == b.candidate_path
    &&& a.candidate_version == b.candidate_version
    &&& a.candidate_sha256 == b.candidate_sha256
    &&& a.fixture_root == b.fixture_root
    &&& a.before_sha == b.before_sha
    &&& a.after_sha == b.after_sha
    &&& a.argv == b.argv
    &&& a.control_argv == b.control_argv
    &&& a.original_artifacts == b.original_artifacts
    &&& a.mutated_artifacts == b.mutated_artifacts
    &&& a.expected_failure_kind == b.expected_failure_kind
}

/// A case must name the failure token its rejection is expected to carry.
pub fn declared_token_check(case_id: &str, expected: &Expectation) -> (r: Result<(), String>)
    ensures
        match *expected {
            Expectation::Reject { token, .. } => if token@.len() == 0 {
                r matches Err(e) && e@ == "case "@ + case_id@
                    + " did not declare an expected failure token"@
            } else {
                r is Ok
            },
        },
{
    match expected {
        Expectation::Reject { token, .. } => if crate::text::chars_of(token.as_str()).len() == 0 {
            Err(concat3("case ", case_id, " did not declare an expected failure token"))
        } else {
            Ok(())
        },
    }
}

/// The violations of a rejected issuance's outputs: an output file it was
/// to leave absent exists (`out_absent`: the file and whether it exists),
/// or a file it was to preserve (`preserved`: the file, its expected
/// digest, and its digest now or why that could not be read) changed.
pub open spec fn output_violations(
    out_absent: Option<(Seq<char>, bool)>,
    preserved: Option<(Seq<char>, Seq<char>, Result<Seq<char>, Seq<char>>)>,
) -> Seq<Seq<char>> {
    (match out_absent {
        Some((out, true)) => seq!["a rejected issuance must not create output file "@ + out],
        _ => seq![],
    }) + match preserved {
        Some((path, digest, Ok(actual))) => if actual == digest {
            seq![]
        } else {
            seq![
                "a rejected issuance must not update "@ + path + ": digest changed from "@ + digest
                    + " to "@ + actual,
            ]
        },
        Some((path, _digest, Err(e))) => seq!["a rejected issuance must preserve "@ + path + ": "@ + e],
        None => seq![],
    }
}

pub open spec fn opt_pair_view(o: Option<(&str, bool)>) -> Option<(Seq<char>, bool)> {
    match o {
        Some((s, b)) => Some((s@, b)),
        None => None,
    }
}

pub open spec fn preserved_view(o: Option<(&str, &str, Result<String, String>)>) -> Option<
    (Seq<char>, Seq<char>, Result<Seq<char>, Seq<char>>),
> {
    match o {
        Some((p, d, Ok(a))) => Some((p@, d@, Ok(a@))),
        Some((p, d, Err(e))) => Some((p@, d@, Err(e@))),
        None => None,
    }
}

/// The violations of a rejected issuance's outputs.
pub fn output_violation_list(
    out_absent: Option<(&str, bool)>,
    preserved: Option<(&str, &str, Result<String, String>)>,
) -> (r: Vec<String>)
    ensures
        views(r@) == output_violations(opt_pair_view(out_absent), preserved_view(preserved)),
{
    let mut v: Vec<String> = Vec::new();
    match out_absent {
        Some((out, true)) => {
            v.push(concat("a rejected issuance must not create output file ", out));
        },
        _ => {},
    }
    let ghost first = views(v@);
    match preserved {
        Some((path, digest, Ok(actual))) => {
            if !crate::text::str_eq(actual.as_str(), digest) {
                let mut m = concat3("a rejected issuance must not update ", path, ": digest changed from ");
                push_str(&mut m, digest);
                push_str(&mut m, " to ");
                push_str(&mut m, actual.as_str());
                v.push(m);
            }
        },
        Some((path, _digest, Err(e))) => {
            let mut m = concat3("a rejected issuance must preserve ", path, ": ");
            push_str(&mut m, e.as_str());
            v.push(m);
        },
        None => {},
    }
    assert(views(v@) =~= output_violations(opt_pair_view(out_absent), preserved_view(preserved)));
    v
}

/// Records the rejected run: its exit status, its outcome and actual
/// failure kind against the expected token, and its violations followed
/// by the output violations.
pub fn record_rejection(receipt: &mut CaseReceipt, token: &str, result: &CommandResult, outputs: Vec<String>)
    ensures
        same_identity(*old(receipt), *final(receipt)),
        final(receipt).exit_status == result.status,
        final(receipt).process_outcome@ == rejection_eval(token@, *result).0,
        final(receipt).actual_failure_kind@ == rejection_eval(token@, *result).1,
        views(final(receipt).violations@) == views(old(receipt).violations@) + rejection_eval(
            token@,
            *result,
        ).2 + views(outputs@),
        final(receipt).restoration_outcome == old(receipt).restoration_outcome,
        final(receipt).control_outcome == old(receipt).control_outcome,
        final(receipt).cleanup_outcome == old(receipt).cleanup_outcome,
        final(receipt).details == old(receipt).details,
{
    receipt.exit_status = result.status;
    let (outcome, actual, violations) = evaluate_rejection(token, result);
    receipt.process_outcome = outcome;
    receipt.actual_failure_kind = actual;
    extend_strings(&mut receipt.violations, &violations);
    extend_strings(&mut receipt.violations, &outputs);
}

/// Records that a source to retain after the mutation was missing.
pub fn note_missing_retained(receipt: &mut CaseReceipt, source: &str)
    ensures
        same_identity(*old(receipt), *final(receipt)),
        views(final(receipt).violations@) == views(old(receipt).violations@).push(
            "retained mutation source "@ + source@ + " is missing"@,
        ),
        final(receipt).exit_status == old(receipt).exit_status,
        final(receipt).process_outcome == old(receipt).process_outcome,
        final(receipt).actual_failure_kind == old(receipt).actual_failure_kind,
        final(receipt).restoration_outcome == old(receipt).restoration_outcome,
        final(receipt).control_outcome == old(receipt).control_outcome,
        final(receipt).cleanup_outcome == old(receipt).cleanup_outcome,
        final(receipt).details == old(receipt).details,
{
    let m = concat3("retained mutation source ", source, " is missing");
    let ghost before = views(receipt.violations@);
    let ghost mv = m@;
    receipt.violations.push(m);
    assert(views(receipt.violations@) =~= before.push(mv));
}

/// Records the restoration: `restored_byte_exact` with its details, or
/// `failed: <why>`.
pub fn record_restoration(receipt: &mut CaseReceipt, restore: Result<Vec<String>, String>)
    ensures
        same_identity(*old(receipt), *final(receipt)),
        match restore {
            Ok(d) => final(receipt).restoration_outcome@ == "restored_byte_exact"@ && views(
                final(receipt).details@,
            ) == views(old(receipt).details@) + views(d@),
            Err(e) => final(receipt).restoration_outcome@ == "failed: "@ + e@
                && final(receipt).details == old(receipt).details,
        },
        final(receipt).violations == old(receipt).violations,
        final(receipt).exit_status == old(receipt).exit_status,
        final(receipt).process_outcome == old(receipt).process_outcome,
        final(receipt).actual_failure_kind == old(receipt).actual_failure_kind,
        final(receipt).control_outcome == old(receipt).control_outcome,
        final(receipt).cleanup_outcome == old(receipt).cleanup_outcome,
{
    match restore {
        Ok(d) => {
            receipt.restoration_outcome = owned("restored_byte_exact");
            extend_strings(&mut receipt.details, &d);
        },
        Err(e) => {
            receipt.restoration_outcome = concat("failed: ", e.as_str());
        },
    }
}

/// Records the control rerun: `pass`, or `fail` with its details.
pub fn record_control(receipt: &mut CaseReceipt, control: &CommandResult)
    ensures
        same_identity(*old(receipt), *final(receipt)),
        control.success ==> final(receipt).control_outcome@ == "pass"@ && final(receipt).details
            == old(receipt).details,
        !control.success ==> final(receipt).control_outcome@ == "fail"@ && views(
            final(receipt).details@,
        ) == views(old(receipt).details@).push(
            "control rerun after restoration failed: "@ + join(command_details_spec(*control), "; "@),
        ),
        final(receipt).violations == old(receipt).violations,
        final(receipt).exit_status == old(receipt).exit_status,
        final(receipt).process_outcome == old(receipt).process_outcome,
        final(receipt).actual_failure_kind == old(receipt).actual_failure_kind,
        final(receipt).restoration_outcome == old(receipt).restoration_outcome,
        final(receipt).cleanup_outcome == old(receipt).cleanup_outcome,
{
    if control.success {
        receipt.control_outcome = owned("pass");
    } else {
        receipt.control_outcome = owned("fail");
        let mut m = owned("control rerun after restoration failed: ");
        push_joined(&mut m, &command_details(control), "; ");
        let ghost before = views(receipt.details@);
        let ghost mv = m@;
        receipt.details.push(m);
        assert(views(receipt.details@) =~= before.push(mv));
    }
}

/// Closes a case: records the workspace cleanup (`removed`, or `failed:
/// <why>`), the error that stopped the case if one did, and the verdict.
pub fn close_case(receipt: &mut CaseReceipt, cleanup: Result<(), String>, run: Result<(), String>)
    ensures
        same_identity(*old(receipt), *final(receipt)),
        final(receipt).cleanup_outcome@ == match cleanup {
            Ok(()) => "removed"@,
            Err(e) => "failed: "@ + e@,
        },
        views(final(receipt).details@) == match run {
            Ok(()) => views(old(receipt).details@),
            Err(e) => views(old(receipt).details@).push(e@),
        },
        final(receipt).violations == old(receipt).violations,
        final(receipt).process_outcome == old(receipt).process_outcome,
        final(receipt).restoration_outcome == old(receipt).restoration_outcome,
        final(receipt).control_outcome == old(receipt).control_outcome,
        final(receipt).status@ == receipt_status(*final(receipt)),
{
    receipt.cleanup_outcome = match cleanup {
        Ok(()) => owned("removed"),
        Err(e) => concat("failed: ", e.as_str()),
    };
    match run {
        Ok(()) => {},
        Err(e) => {
            let ghost before = views(receipt.details@);
            let ghost ev = e@;
            receipt.details.push(e);
            assert(views(receipt.details@) =~= before.push(ev));
        },
    }
    let ghost closed = *receipt;
    receipt.finalize();
    assert(receipt_status(closed) == receipt_status(*receipt));
}

/// Records a failure to write the case receipt: the case fails.
pub fn record_receipt_write(receipt: &mut CaseReceipt, written: Result<(), String>)
    ensures
        same_identity(*old(receipt), *final(receipt)),
        match written {
            Ok(()) => *final(receipt) == *old(receipt),
            Err(e) => final(receipt).status@ == "fail"@ && views(final(receipt).details@) == views(
                old(receipt).details@,
            ).push("write case receipt failed: "@ + e@),
        },
{
    match written {
        Ok(()) => {},
        Err(e) => {
            let m = concat("write case receipt failed: ", e.as_str());
            let ghost before = views(receipt.details@);
            let ghost mv = m@;
            receipt.details.push(m);
            assert(views(receipt.details@) =~= before.push(mv));
            receipt.status = owned("fail");
        },
    }
}

// ---------------------------------------------------------------------------
// The candidate
// ---------------------------------------------------------------------------

/// The negative corpus runs only on the committed candidate of the
/// requested version: the crate version must be readable and equal, and
/// the tree (`clean`: whether it is clean, or why that is unknown) clean.
pub fn candidate_gate(version: &str, crate_version: Option<&str>, clean: Result<bool, String>) -> (r: Result<
    (),
    String,
>)
    ensures
        match crate_version {
            None => r matches Err(e) && e@
                == "crate version could not be read; release-prep should run this gate explicitly"@,
            Some(cv) => if cv@ != version@ {
                r matches Err(e) && e@ == "requested version "@ + version@
                    + " does not match crates/ripr version "@ + cv@
            } else {
                match clean {
                    Ok(true) => r is Ok,
                    Ok(false) => r matches Err(e) && e@
                        == "dirty tree; the negative corpus packages the committed candidate, so rerun on a clean tree"@,
                    Err(x) => r matches Err(e) && e@ == x@,
                }
            },
        },
{
    let cv = match crate_version {
        None => {
            return Err(
                owned("crate version could not be read; release-prep should run this gate explicitly"),
            );
        },
        Some(cv) => cv,
    };
    if !crate::text::str_eq(cv, version) {
        let mut m = concat3("requested version ", version, " does not match crates/ripr version ");
        push_str(&mut m, cv);
        return Err(m);
    }
    match clean {
        Ok(true) => Ok(()),
        Ok(false) => Err(
            owned(
                "dirty tree; the negative corpus packages the committed candidate, so rerun on a clean tree",
            ),
        ),
        Err(x) => Err(x),
    }
}

/// A failed packaged install stops the corpus, naming its details.
pub fn install_gate(install: &PackageInstallResult) -> (r: Result<(), String>)
    ensures
        install.success ==> r is Ok,
        !install.success ==> (r matches Err(e) && e@ == "packaged install failed: "@ + join(
            views(install.details@),
            "; "@,
        )),
{
    if install.success {
        Ok(())
    } else {
        let mut m = owned("packaged install failed: ");
        push_joined(&mut m, &install.details, "; ");
        Err(m)
    }
}

/// The candidate's identity from its `--version` run and its file digest
/// (hex): its path, its trimmed version output, and `sha256:<digest>`; a
/// failed version run is an error naming its details.
pub fn candidate_identity(path: &str, version: &CommandResult, digest_hex: &str) -> (r: Result<
    CandidateIdentity,
    String,
>)
    ensures
        version.success ==> (r matches Ok(c) && c.path@ == path@ && c.version_output@
            == crate::text::trim(version.stdout@) && c.sha256@ == "sha256:"@ + digest_hex@),
        !version.success ==> (r matches Err(e) && e@ == "candidate --version failed: "@ + join(
            command_details_spec(*version),
            "; "@,
        )),
{
    if !version.success {
        let mut m = owned("candidate --version failed: ");
        push_joined(&mut m, &command_details(version), "; ");
        return Err(m);
    }
    Ok(CandidateIdentity {
        path: owned(path),
        version_output: crate::text::str_trim(version.stdout.as_str()),
        sha256: concat("sha256:", digest_hex),
    })
}

} // verus!

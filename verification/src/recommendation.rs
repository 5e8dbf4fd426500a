//! Recommendation calibration: expected cases are matched against the PR
//! guidance they name, each matched recommendation or suppression is
//! calibrated from its outcome receipt (or the expectation), and the result
//! is summarized and rendered.

use vstd::prelude::*;
use crate::release_scope::{sorted_unique, sorted_unique_spec};
use crate::text::{
    owned, str_eq, str_is_blank, str_contains, str_strip_prefix, push_str, views, trim, contains,
    starts_with, replace_all, str_replace, chars_of, string_from, char_index, decimal,
    usize_to_string, md_esc, md_escape, concat_all, wrapped_md, push_wrapped_md_items, opt_view,
    concat, extend_strings,
};

verus! {

// ---------------------------------------------------------------------------
// Arguments
// ---------------------------------------------------------------------------

/// `recommendation-calibration` arguments (paths as given).
#[derive(Clone, Debug, PartialEq, Eq)]
pub struct RecommendationCalibrationArgs {
    pub root: String,
    pub pr_guidance: Vec<String>,
    pub expectations: String,
    pub outcome_receipts: Vec<String>,
    pub targeted_test_outcome: Option<String>,
    pub agent_receipt: Option<String>,
    pub out: String,
    pub out_md: String,
}

pub open spec fn default_expectations() -> Seq<char> {
    "fixtures/boundary_gap/expected/recommendation-calibration/expectations.json"@
}

pub open spec fn default_out() -> Seq<char> {
    "target/ripr/reports/recommendation-calibration.json"@
}

pub open spec fn calibration_usage() -> Seq<char> {
    "usage: cargo xtask recommendation-calibration [--root <path>] [--pr-guidance <path>] [--calibration-expectations <path>] [--outcome-receipts <path>] [--targeted-test-outcome <path>] [--agent-receipt <path>] [--out <json-path>] [--out-md <markdown-path>]"@
}

/// The usage line of `recommendation-calibration`.
pub fn recommendation_calibration_usage() -> (r: String)
    ensures
        r@ == calibration_usage(),
{
    owned(
        "usage: cargo xtask recommendation-calibration [--root <path>] [--pr-guidance <path>] [--calibration-expectations <path>] [--outcome-receipts <path>] [--targeted-test-outcome <path>] [--agent-receipt <path>] [--out <json-path>] [--out-md <markdown-path>]",
    )
}

/// The value at `index` for `flag`: present and not blank.
pub open spec fn arg_value(args: Seq<Seq<char>>, index: int, flag: Seq<char>) -> Result<
    Seq<char>,
    Seq<char>,
> {
    if 0 <= index < args.len() && trim(args[index]).len() != 0 {
        Ok(args[index])
    } else {
        Err("recommendation-calibration "@ + flag + " requires a value"@)
    }
}

/// The non-blank value at `index` for `flag`.
pub fn expect_arg<'a>(args: &'a [String], index: usize, flag: &str) -> (r: Result<&'a str, String>)
    ensures
        match r {
            Ok(v) => arg_value(views(args@), index as int, flag@) == Ok::<Seq<char>, Seq<char>>(
                v@,
            ),
            Err(e) => arg_value(views(args@), index as int, flag@) == Err::<Seq<char>, Seq<char>>(
                e@,
            ),
        },
{
    if index < args.len() && !str_is_blank(args[index].as_str()) {
        assert(views(args@)[index as int] == args@[index as int]@);
        return Ok(args[index].as_str());
    }
    if index < args.len() {
        assert(views(args@)[index as int] == args@[index as int]@);
    }
    let mut e = owned("recommendation-calibration ");
    push_str(&mut e, flag);
    push_str(&mut e, " requires a value");
    Err(e)
}

/// What `std::path::PathBuf::set_extension("md")` makes of a path, as
/// text.
pub uninterp spec fn with_md_extension(out: Seq<char>) -> Seq<char>;

/// `PathBuf::from(out)` with `set_extension("md")`, as text (the input is
/// UTF-8, so the conversion is exact). Which part std treats as the file
/// name and extension is left to std; the result is named by
/// `with_md_extension`.
#[verifier::external_body]
fn set_md_extension(out: &str) -> (r: String)
    ensures
        r@ == with_md_extension(out@),
{
    let mut path = std::path::PathBuf::from(out);
    path.set_extension("md");
    path.to_string_lossy().into_owned()
}

/// The Markdown report path next to a JSON report path.
pub fn markdown_path_for(out: &str) -> (r: String)
    ensures
        r@ == with_md_extension(out@),
{
    set_md_extension(out)
}

/// (root, guidance, expectations, receipts, targeted outcome, agent receipt,
/// out, out_md) seen so far; `out_md` is `None` until given.
pub struct ArgsScan {
    pub root: Seq<char>,
    pub pr_guidance: Seq<Seq<char>>,
    pub expectations: Seq<char>,
    pub outcome_receipts: Seq<Seq<char>>,
    pub targeted_test_outcome: Option<Seq<char>>,
    pub agent_receipt: Option<Seq<char>>,
    pub out: Seq<char>,
    pub out_md: Option<Seq<char>>,
}

pub open spec fn initial_scan() -> ArgsScan {
    ArgsScan {
        root: "."@,
        pr_guidance: seq![],
        expectations: default_expectations(),
        outcome_receipts: seq![],
        targeted_test_outcome: None,
        agent_receipt: None,
        out: default_out(),
        out_md: None,
    }
}

pub open spec fn is_value_flag(a: Seq<char>) -> bool {
    a == "--root"@ || a == "--pr-guidance"@ || a == "--calibration-expectations"@ || a
        == "--expectations"@ || a == "--outcome-receipts"@ || a == "--targeted-test-outcome"@ || a
        == "--agent-receipt"@ || a == "--out"@ || a == "--out-md"@
}

/// The flag name an error message uses for a value flag.
pub open spec fn flag_name(a: Seq<char>) -> Seq<char> {
    if a == "--expectations"@ {
        "--calibration-expectations"@
    } else {
        a
    }
}

pub open spec fn apply_flag(st: ArgsScan, a: Seq<char>, v: Seq<char>) -> ArgsScan {
    if a == "--root"@ {
        ArgsScan { root: v, ..st }
    } else if a == "--pr-guidance"@ {
        ArgsScan { pr_guidance: st.pr_guidance.push(v), ..st }
    } else if a == "--calibration-expectations"@ || a == "--expectations"@ {
        ArgsScan { expectations: v, ..st }
    } else if a == "--outcome-receipts"@ {
        ArgsScan { outcome_receipts: st.outcome_receipts.push(v), ..st }
    } else if a == "--targeted-test-outcome"@ {
        ArgsScan { targeted_test_outcome: Some(v), ..st }
    } else if a == "--agent-receipt"@ {
        ArgsScan { agent_receipt: Some(v), ..st }
    } else if a == "--out"@ {
        ArgsScan { out: v, ..st }
    } else {
        ArgsScan { out_md: Some(v), ..st }
    }
}

/// How the arguments parse from position `i` with what was seen so far.
pub open spec fn scan_calibration_args(args: Seq<Seq<char>>, i: int, st: ArgsScan) -> Result<
    ArgsScan,
    Seq<char>,
>
    decreases args.len() - i,
{
    if i < 0 || i >= args.len() {
        Ok(st)
    } else if is_value_flag(args[i]) {
        match arg_value(args, i + 1, flag_name(args[i])) {
            Err(e) => Err(e),
            Ok(v) => scan_calibration_args(args, i + 2, apply_flag(st, args[i], v)),
        }
    } else if args[i] == "--help"@ || args[i] == "-h"@ {
        Err(calibration_usage())
    } else {
        Err("unknown recommendation-calibration option `"@ + args[i] + "`\n"@ + calibration_usage())
    }
}

pub open spec fn args_view(a: RecommendationCalibrationArgs) -> ArgsScan {
    ArgsScan {
        root: a.root@,
        pr_guidance: views(a.pr_guidance@),
        expectations: a.expectations@,
        outcome_receipts: views(a.outcome_receipts@),
        targeted_test_outcome: opt_view(a.targeted_test_outcome),
        agent_receipt: opt_view(a.agent_receipt),
        out: a.out@,
        out_md: Some(a.out_md@),
    }
}

/// The parsed arguments of a finished scan: `out_md` defaults to the
/// Markdown path next to `out`.
pub open spec fn finished(st: ArgsScan) -> ArgsScan {
    ArgsScan {
        out_md: Some(
            match st.out_md {
                Some(m) => m,
                None => with_md_extension(st.out),
            },
        ),
        ..st
    }
}

fn push_string(v: &mut Vec<String>, s: &str)
    ensures
        views(final(v)@) == views(old(v)@).push(s@),
{
    let ghost before = v@;
    v.push(owned(s));
    assert(views(v@) =~= views(before).push(s@));
}

/// Parses the calibration arguments.
#[verifier::rlimit(60)]
pub fn parse_recommendation_calibration_args(args: &[String]) -> (r: Result<
    RecommendationCalibrationArgs,
    String,
>)
    ensures
        match r {
            Ok(parsed) => scan_calibration_args(views(args@), 0, initial_scan()) matches Ok(st)
                && args_view(parsed) == finished(st),
            Err(e) => scan_calibration_args(views(args@), 0, initial_scan()) == Err::<
                ArgsScan,
                Seq<char>,
            >(e@),
        },
{
    let ghost a = views(args@);
    let mut root = owned(".");
    let mut pr_guidance: Vec<String> = Vec::new();
    let mut expectations = owned(
        "fixtures/boundary_gap/expected/recommendation-calibration/expectations.json",
    );
    let mut outcome_receipts: Vec<String> = Vec::new();
    let mut targeted_test_outcome: Option<String> = None;
    let mut agent_receipt: Option<String> = None;
    let mut out = owned("target/ripr/reports/recommendation-calibration.json");
    let mut out_md: Option<String> = None;
    let mut i: usize = 0;
    assert(views(pr_guidance@) =~= Seq::<Seq<char>>::empty());
    assert(views(outcome_receipts@) =~= Seq::<Seq<char>>::empty());

    while i < args.len()
        invariant
            a == views(args@),
            a.len() == args@.len(),
            scan_calibration_args(
                a,
                i as int,
                ArgsScan {
                    root: root@,
                    pr_guidance: views(pr_guidance@),
                    expectations: expectations@,
                    outcome_receipts: views(outcome_receipts@),
                    targeted_test_outcome: opt_view(targeted_test_outcome),
                    agent_receipt: opt_view(agent_receipt),
                    out: out@,
                    out_md: opt_view(out_md),
                },
            ) == scan_calibration_args(a, 0, initial_scan()),
        decreases args.len() - i,
    {
        let arg = args[i].as_str();
        assert(a[i as int] == arg@);
        let is_flag = str_eq(arg, "--root") || str_eq(arg, "--pr-guidance") || str_eq(
            arg,
            "--calibration-expectations",
        ) || str_eq(arg, "--expectations") || str_eq(arg, "--outcome-receipts") || str_eq(
            arg,
            "--targeted-test-outcome",
        ) || str_eq(arg, "--agent-receipt") || str_eq(arg, "--out") || str_eq(arg, "--out-md");
        if is_flag {
            let name = if str_eq(arg, "--expectations") {
                "--calibration-expectations"
            } else {
                arg
            };
            let v = expect_arg(args, i + 1, name)?;
            if str_eq(arg, "--root") {
                root = owned(v);
            } else if str_eq(arg, "--pr-guidance") {
                push_string(&mut pr_guidance, v);
            } else if str_eq(arg, "--calibration-expectations") || str_eq(arg, "--expectations") {
                expectations = owned(v);
            } else if str_eq(arg, "--outcome-receipts") {
                push_string(&mut outcome_receipts, v);
            } else if str_eq(arg, "--targeted-test-outcome") {
                targeted_test_outcome = Some(owned(v));
            } else if str_eq(arg, "--agent-receipt") {
                agent_receipt = Some(owned(v));
            } else if str_eq(arg, "--out") {
                out = owned(v);
            } else {
                out_md = Some(owned(v));
            }
            i += 2;
        } else if str_eq(arg, "--help") || str_eq(arg, "-h") {
            return Err(recommendation_calibration_usage());
        } else {
            let mut e = owned("unknown recommendation-calibration option `");
            push_str(&mut e, arg);
            push_str(&mut e, "`\n");
            let u = recommendation_calibration_usage();
            push_str(&mut e, u.as_str());
            return Err(e);
        }
    }
    let out_md = match out_md {
        Some(m) => m,
        None => markdown_path_for(out.as_str()),
    };
    Ok(
        RecommendationCalibrationArgs {
            root,
            pr_guidance,
            expectations,
            outcome_receipts,
            targeted_test_outcome,
            agent_receipt,
            out,
            out_md,
        },
    )
}

// ---------------------------------------------------------------------------
// Path text
// ---------------------------------------------------------------------------

/// Forward slashes, `.` for the empty path, and one leading `./` dropped.
pub open spec fn path_text(p: Seq<char>) -> Seq<char> {
    let n = replace_all(p, "\\"@, "/"@);
    if n.len() == 0 {
        "."@
    } else if starts_with(n, "./"@) {
        n.skip(2)
    } else {
        n
    }
}

/// Normalizes path text for comparison and display.
pub fn normalize_path_text(path: &str) -> (r: String)
    ensures
        r@ == path_text(path@),
{
    proof {
        reveal_strlit("\\");
        reveal_strlit("./");
    }
    let n = str_replace(path, "\\", "/");
    if chars_of(n.as_str()).len() == 0 {
        return owned(".");
    }
    match str_strip_prefix(n.as_str(), "./") {
        Some(rest) => rest,
        None => n,
    }
}

/// Whether two paths name the same text once normalized.
pub fn same_path_text(left: &str, right: &str) -> (r: bool)
    ensures
        r == (path_text(left@) == path_text(right@)),
{
    let l = normalize_path_text(left);
    let r = normalize_path_text(right);
    str_eq(l.as_str(), r.as_str())
}

/// A path as the report displays it.
pub fn display_path(path: &str) -> (r: String)
    ensures
        r@ == path_text(path@),
{
    normalize_path_text(path)
}

// ---------------------------------------------------------------------------
// Cases, receipts and guidance
// ---------------------------------------------------------------------------

/// One expected calibration case.
#[derive(Clone, Debug, PartialEq, Eq)]
pub struct ExpectedCase {
    pub id: String,
    pub source_artifact: String,
    pub source_collection: String,
    pub source_item_id: Option<String>,
    pub outcome: String,
    pub placement_quality: String,
    pub suggested_test_target_quality: String,
    pub suppressed_reason: Option<String>,
    pub suppression_quality: Option<String>,
    pub static_movement: String,
    pub seam_id: String,
    pub expected_test_file: Option<String>,
    pub missing_discriminator: Option<String>,
    pub reason: String,
}

/// Latency stamps of an outcome receipt, in milliseconds.
#[derive(Clone, Copy, Debug, PartialEq, Eq)]
pub struct Latency {
    pub guidance_generated_unix_ms: Option<i64>,
    pub annotation_emitted_unix_ms: Option<i64>,
    pub outcome_recorded_unix_ms: Option<i64>,
    pub annotation_latency_ms: Option<i64>,
    pub outcome_latency_ms: Option<i64>,
}

impl Default for Latency {
    /// No stamp recorded.
    fn default() -> (r: Self)
        ensures
            r == (Latency {
                guidance_generated_unix_ms: None,
                annotation_emitted_unix_ms: None,
                outcome_recorded_unix_ms: None,
                annotation_latency_ms: None,
                outcome_latency_ms: None,
            }),
    {
        Latency {
            guidance_generated_unix_ms: None,
            annotation_emitted_unix_ms: None,
            outcome_recorded_unix_ms: None,
            annotation_latency_ms: None,
            outcome_latency_ms: None,
        }
    }
}

/// A recorded outcome for one guidance item.
#[derive(Clone, Debug, PartialEq, Eq)]
pub struct OutcomeReceipt {
    pub path: String,
    pub case_id: Option<String>,
    pub guidance_artifact: Option<String>,
    pub guidance_id: Option<String>,
    pub seam_id: Option<String>,
    pub outcome: String,
    pub source: String,
    pub reason: String,
    pub placement_quality: String,
    pub suggested_test_target_quality: String,
    pub expected_file: Option<String>,
    pub actual_file: Option<String>,
    pub suppression_reason: Option<String>,
    pub suppression_quality: Option<String>,
    pub static_movement: String,
    pub latency: Latency,
}

/// How a seam's static class moved, and who said so.
#[derive(Clone, Debug, PartialEq, Eq)]
pub struct StaticMovement {
    pub state: String,
    pub source: String,
    pub before_class: Option<String>,
    pub after_class: Option<String>,
}

pub struct MovementView {
    pub state: Seq<char>,
    pub source: Seq<char>,
    pub before_class: Option<Seq<char>>,
    pub after_class: Option<Seq<char>>,
}

pub open spec fn movement_view(m: StaticMovement) -> MovementView {
    MovementView {
        state: m.state@,
        source: m.source@,
        before_class: opt_view(m.before_class),
        after_class: opt_view(m.after_class),
    }
}

fn copy_opt(o: &Option<String>) -> (r: Option<String>)
    ensures
        opt_view(r) == opt_view(*o),
{
    match o {
        Some(s) => Some(owned(s.as_str())),
        None => None,
    }
}

fn copy_movement(m: &StaticMovement) -> (r: StaticMovement)
    ensures
        movement_view(r) == movement_view(*m),
{
    StaticMovement {
        state: owned(m.state.as_str()),
        source: owned(m.source.as_str()),
        before_class: copy_opt(&m.before_class),
        after_class: copy_opt(&m.after_class),
    }
}

/// Static movements keyed by seam id; a later entry for a seam replaces an
/// earlier one.
#[derive(Clone, Debug)]
pub struct MovementBySeam {
    pub entries: Vec<(String, StaticMovement)>,
}

pub open spec fn movement_map(entries: Seq<(String, StaticMovement)>) -> Map<Seq<char>, MovementView>
    decreases entries.len(),
{
    if entries.len() == 0 {
        Map::empty()
    } else {
        movement_map(entries.drop_last()).insert(
            entries.last().0@,
            movement_view(entries.last().1),
        )
    }
}

impl MovementBySeam {
    pub open spec fn view_map(&self) -> Map<Seq<char>, MovementView> {
        movement_map(self.entries@)
    }

    /// No movement known.
    pub fn new() -> (r: Self)
        ensures
            r.view_map() == Map::<Seq<char>, MovementView>::empty(),
    {
        MovementBySeam { entries: Vec::new() }
    }

    /// Records the movement of `seam_id`, replacing any earlier one.
    pub fn insert(&mut self, seam_id: String, movement: StaticMovement)
        ensures
            final(self).view_map() == old(self).view_map().insert(
                seam_id@,
                movement_view(movement),
            ),
    {
        let ghost before = self.entries@;
        self.entries.push((seam_id, movement));
        assert(self.entries@.drop_last() =~= before);
    }

    /// The movement recorded for `seam_id`, if any.
    pub fn get(&self, seam_id: &str) -> (r: Option<&StaticMovement>)
        ensures
            match r {
                Some(m) => self.view_map().contains_key(seam_id@) && self.view_map()[seam_id@]
                    == movement_view(*m),
                None => !self.view_map().contains_key(seam_id@),
            },
    {
        let ghost e = self.entries@;
        let mut k = self.entries.len();
        assert(e.take(k as int) =~= e);
        while k > 0
            invariant
                k <= e.len(),
                e == self.entries@,
                forall|s: Seq<char>|
                    s != seam_id@ ==> (#[trigger] movement_map(e).contains_key(s)) == (
                    movement_map(e.take(k as int)).contains_key(s) || exists|j: int|
                        k <= j < e.len() && e[j].0@ == s),
                !movement_map(e.take(k as int)).contains_key(seam_id@) ==> !movement_map(
                    e,
                ).contains_key(seam_id@) || exists|j: int| k <= j < e.len() && e[j].0@ == seam_id@,
                forall|j: int| k <= j < e.len() ==> (#[trigger] e[j]).0@ != seam_id@,
                movement_map(e.take(k as int)).contains_key(seam_id@) ==> movement_map(e).contains_key(
                    seam_id@,
                ) && movement_map(e)[seam_id@] == movement_map(e.take(k as int))[seam_id@],
                !movement_map(e.take(k as int)).contains_key(seam_id@) ==> !movement_map(
                    e,
                ).contains_key(seam_id@),
            decreases k,
        {
            assert(e.take(k as int).drop_last() =~= e.take(k - 1));
            assert(e.take(k as int).last() == e[k - 1]);
            if str_eq(self.entries[k - 1].0.as_str(), seam_id) {
                return Some(&self.entries[k - 1].1);
            }
            k -= 1;
        }
        assert(e.take(0) =~= Seq::<(String, StaticMovement)>::empty());
        None
    }
}

/// The `suggested_test` object of a guidance item.
#[derive(Clone, Debug, PartialEq, Eq)]
pub struct GuidanceSuggestedTest {
    pub recommended_file: Option<String>,
    pub near_test: Option<String>,
}

/// The `placement` object of a guidance item.
#[derive(Clone, Debug, PartialEq, Eq)]
pub struct GuidancePlacement {
    pub path: Option<String>,
    pub line: Option<usize>,
    pub mode: Option<String>,
}

/// The `seam` object of a guidance item.
#[derive(Clone, Debug, PartialEq, Eq)]
pub struct GuidanceSeam {
    pub file: Option<String>,
    pub line: Option<usize>,
}

/// One item of a guidance collection: its string fields, and its nested
/// objects where they are objects.
#[derive(Clone, Debug, PartialEq, Eq)]
pub struct GuidanceItem {
    pub id: Option<String>,
    pub seam_id: Option<String>,
    pub grip_class: Option<String>,
    pub severity: Option<String>,
    pub missing_discriminator: Option<String>,
    pub suggested_test: Option<GuidanceSuggestedTest>,
    pub placement: Option<GuidancePlacement>,
    pub seam: Option<GuidanceSeam>,
}

/// A PR guidance document: its collections where they are arrays, and its
/// string warnings.
#[derive(Clone, Debug, PartialEq, Eq)]
pub struct GuidanceDoc {
    pub comments: Option<Vec<GuidanceItem>>,
    pub summary_only: Option<Vec<GuidanceItem>>,
    pub suppressed: Option<Vec<GuidanceItem>>,
    pub warnings: Vec<String>,
}

/// A guidance input: its display path and either its document or the error
/// that kept it from being read.
#[derive(Clone, Debug, PartialEq, Eq)]
pub struct GuidanceInput {
    pub path: String,
    pub value: Option<GuidanceDoc>,
    pub error: Option<String>,
}

// ---------------------------------------------------------------------------
// Matching
// ---------------------------------------------------------------------------

pub open spec fn first_by_case_id(rs: Seq<OutcomeReceipt>, id: Seq<char>) -> Option<int>
    decreases rs.len(),
{
    if rs.len() == 0 {
        None
    } else if opt_view(rs[0].case_id) == Some(id) {
        Some(0)
    } else {
        match first_by_case_id(rs.drop_first(), id) {
            Some(i) => Some(i + 1),
            None => None,
        }
    }
}

pub open spec fn first_by_guidance(rs: Seq<OutcomeReceipt>, artifact: Seq<char>, item: Option<Seq<char>>) -> Option<int>
    decreases rs.len(),
{
    if rs.len() == 0 {
        None
    } else if opt_view(rs[0].guidance_artifact) == Some(artifact) && opt_view(rs[0].guidance_id)
        == item {
        Some(0)
    } else {
        match first_by_guidance(rs.drop_first(), artifact, item) {
            Some(i) => Some(i + 1),
            None => None,
        }
    }
}

pub open spec fn first_by_seam(rs: Seq<OutcomeReceipt>, seam: Seq<char>) -> Option<int>
    decreases rs.len(),
{
    if rs.len() == 0 {
        None
    } else if opt_view(rs[0].seam_id) == Some(seam) {
        Some(0)
    } else {
        match first_by_seam(rs.drop_first(), seam) {
            Some(i) => Some(i + 1),
            None => None,
        }
    }
}

/// The receipt of a case: the first naming the case, else the first naming
/// its artifact and item, else (for an item-less case) the first naming its
/// seam.
pub open spec fn pick_receipt(case: ExpectedCase, rs: Seq<OutcomeReceipt>) -> Option<int> {
    match first_by_case_id(rs, case.id@) {
        Some(i) => Some(i),
        None => match first_by_guidance(rs, case.source_artifact@, opt_view(case.source_item_id)) {
            Some(i) => Some(i),
            None => if case.source_item_id is None {
                first_by_seam(rs, case.seam_id@)
            } else {
                None
            },
        },
    }
}

pub open spec fn picked(case: ExpectedCase, rs: Seq<OutcomeReceipt>) -> Option<OutcomeReceipt> {
    match pick_receipt(case, rs) {
        Some(i) => Some(rs[i]),
        None => None,
    }
}

fn opt_eq(o: &Option<String>, s: &str) -> (r: bool)
    ensures
        r == (opt_view(*o) == Some(s@)),
{
    match o {
        Some(x) => str_eq(x.as_str(), s),
        None => false,
    }
}

fn opt_opt_eq(a: &Option<String>, b: &Option<String>) -> (r: bool)
    ensures
        r == (opt_view(*a) == opt_view(*b)),
{
    match (a, b) {
        (Some(x), Some(y)) => str_eq(x.as_str(), y.as_str()),
        (None, None) => true,
        _ => false,
    }
}

proof fn lemma_first_bounds(rs: Seq<OutcomeReceipt>, case: ExpectedCase)
    ensures
        first_by_case_id(rs, case.id@) matches Some(i) ==> 0 <= i < rs.len(),
        first_by_guidance(rs, case.source_artifact@, opt_view(case.source_item_id)) matches Some(i)
            ==> 0 <= i < rs.len(),
        first_by_seam(rs, case.seam_id@) matches Some(i) ==> 0 <= i < rs.len(),
    decreases rs.len(),
{
    if rs.len() > 0 {
        lemma_first_bounds(rs.drop_first(), case);
    }
}

/// The outcome receipt for a case, if any.
pub fn receipt_for_case<'a>(case: &ExpectedCase, receipts: &'a [OutcomeReceipt]) -> (r: Option<
    &'a OutcomeReceipt,
>)
    ensures
        match pick_receipt(*case, receipts@) {
            Some(i) => 0 <= i < receipts@.len() && r == Some(&receipts@[i]),
            None => r is None,
        },
{
    let ghost rs = receipts@;
    proof {
        lemma_first_bounds(rs, *case);
    }
    let mut i: usize = 0;
    assert(rs.skip(0) =~= rs);
    while i < receipts.len()
        invariant
            i <= rs.len(),
            rs == receipts@,
            first_by_case_id(rs, case.id@) == match first_by_case_id(rs.skip(i as int), case.id@) {
                Some(k) => Some(k + i),
                None => None::<int>,
            },
        decreases receipts.len() - i,
    {
        assert(rs.skip(i as int)[0] == rs[i as int]);
        if opt_eq(&receipts[i].case_id, case.id.as_str()) {
            return Some(&receipts[i]);
        }
        assert(rs.skip(i as int).drop_first() =~= rs.skip(i + 1));
        i += 1;
    }
    let mut j: usize = 0;
    assert(rs.skip(j as int).len() == rs.len());
    while j < receipts.len()
        invariant
            j <= rs.len(),
            rs == receipts@,
            first_by_case_id(rs, case.id@) is None,
            first_by_guidance(rs, case.source_artifact@, opt_view(case.source_item_id))
                == match first_by_guidance(
                rs.skip(j as int),
                case.source_artifact@,
                opt_view(case.source_item_id),
            ) {
                Some(k) => Some(k + j),
                None => None::<int>,
            },
        decreases receipts.len() - j,
    {
        assert(rs.skip(j as int)[0] == rs[j as int]);
        if opt_eq(&receipts[j].guidance_artifact, case.source_artifact.as_str()) && opt_opt_eq(
            &receipts[j].guidance_id,
            &case.source_item_id,
        ) {
            return Some(&receipts[j]);
        }
        assert(rs.skip(j as int).drop_first() =~= rs.skip(j + 1));
        j += 1;
    }
    if case.source_item_id.is_some() {
        return None;
    }
    let mut k: usize = 0;
    while k < receipts.len()
        invariant
            k <= rs.len(),
            rs == receipts@,
            first_by_case_id(rs, case.id@) is None,
            first_by_guidance(rs, case.source_artifact@, opt_view(case.source_item_id)) is None,
            case.source_item_id is None,
            first_by_seam(rs, case.seam_id@) == match first_by_seam(
                rs.skip(k as int),
                case.seam_id@,
            ) {
                Some(m) => Some(m + k),
                None => None::<int>,
            },
        decreases receipts.len() - k,
    {
        assert(rs.skip(k as int)[0] == rs[k as int]);
        if opt_eq(&receipts[k].seam_id, case.seam_id.as_str()) {
            return Some(&receipts[k]);
        }
        assert(rs.skip(k as int).drop_first() =~= rs.skip(k + 1));
        k += 1;
    }
    None
}

/// An item matches a case by its id (when the case names one) or its seam.
pub open spec fn item_matches(item: GuidanceItem, case: ExpectedCase) -> bool {
    (case.source_item_id is Some && opt_view(item.id) == opt_view(case.source_item_id))
        || opt_view(item.seam_id) == Some(case.seam_id@)
}

pub open spec fn collection(doc: GuidanceDoc, name: Seq<char>) -> Option<Seq<GuidanceItem>> {
    if name == "comments"@ {
        match doc.comments {
            Some(v) => Some(v@),
            None => None,
        }
    } else if name == "summary_only"@ {
        match doc.summary_only {
            Some(v) => Some(v@),
            None => None,
        }
    } else if name == "suppressed"@ {
        match doc.suppressed {
            Some(v) => Some(v@),
            None => None,
        }
    } else {
        None
    }
}

pub open spec fn first_matching(items: Seq<GuidanceItem>, case: ExpectedCase) -> Option<int>
    decreases items.len(),
{
    if items.len() == 0 {
        None
    } else if item_matches(items[0], case) {
        Some(0)
    } else {
        match first_matching(items.drop_first(), case) {
            Some(i) => Some(i + 1),
            None => None,
        }
    }
}

/// The first item of the named collection that matches the case.
pub open spec fn found_item(doc: GuidanceDoc, name: Seq<char>, case: ExpectedCase) -> Option<
    GuidanceItem,
> {
    match collection(doc, name) {
        Some(items) => match first_matching(items, case) {
            Some(i) => Some(items[i]),
            None => None,
        },
        None => None,
    }
}

proof fn lemma_first_matching_bound(items: Seq<GuidanceItem>, case: ExpectedCase)
    ensures
        first_matching(items, case) matches Some(i) ==> 0 <= i < items.len(),
    decreases items.len(),
{
    if items.len() > 0 {
        lemma_first_matching_bound(items.drop_first(), case);
    }
}

fn item_matches_exec(item: &GuidanceItem, case: &ExpectedCase) -> (r: bool)
    ensures
        r == item_matches(*item, *case),
{
    (case.source_item_id.is_some() && opt_opt_eq(&item.id, &case.source_item_id)) || opt_eq(
        &item.seam_id,
        case.seam_id.as_str(),
    )
}

fn find_in<'a>(items: &'a Vec<GuidanceItem>, case: &ExpectedCase) -> (r: Option<&'a GuidanceItem>)
    ensures
        match first_matching(items@, *case) {
            Some(i) => 0 <= i < items@.len() && r == Some(&items@[i]),
            None => r is None,
        },
{
    let ghost s = items@;
    proof {
        lemma_first_matching_bound(s, *case);
    }
    let mut i: usize = 0;
    assert(s.skip(0) =~= s);
    while i < items.len()
        invariant
            i <= s.len(),
            s == items@,
            first_matching(s, *case) == match first_matching(s.skip(i as int), *case) {
                Some(k) => Some(k + i),
                None => None::<int>,
            },
        decreases items.len() - i,
    {
        assert(s.skip(i as int)[0] == s[i as int]);
        if item_matches_exec(&items[i], case) {
            return Some(&items[i]);
        }
        assert(s.skip(i as int).drop_first() =~= s.skip(i + 1));
        i += 1;
    }
    None
}

/// The guidance item of `collection` that a case names.
pub fn find_guidance_item<'a>(value: &'a GuidanceDoc, collection_name: &str, case: &ExpectedCase) -> (r:
    Option<&'a GuidanceItem>)
    ensures
        match found_item(*value, collection_name@, *case) {
            Some(item) => r == Some(&item),
            None => r is None,
        },
{
    let items = if str_eq(collection_name, "comments") {
        &value.comments
    } else if str_eq(collection_name, "summary_only") {
        &value.summary_only
    } else if str_eq(collection_name, "suppressed") {
        &value.suppressed
    } else {
        return None;
    };
    match items {
        Some(v) => find_in(v, case),
        None => None,
    }
}

/// Whether some string warning of the document mentions the case's seam.
pub open spec fn warning_mentions(doc: GuidanceDoc, case: ExpectedCase) -> bool {
    exists|i: int| 0 <= i < doc.warnings@.len() && contains(#[trigger] doc.warnings@[i]@, case.seam_id@)
}

/// Whether a warning of the document matches the case.
pub fn warning_matches(value: &GuidanceDoc, case: &ExpectedCase) -> (r: bool)
    ensures
        r == warning_mentions(*value, *case),
{
    let mut i: usize = 0;
    while i < value.warnings.len()
        invariant
            i <= value.warnings@.len(),
            forall|j: int| 0 <= j < i ==> !contains(#[trigger] value.warnings@[j]@, case.seam_id@),
        decreases value.warnings.len() - i,
    {
        if str_contains(value.warnings[i].as_str(), case.seam_id.as_str()) {
            return true;
        }
        i += 1;
    }
    false
}

// ---------------------------------------------------------------------------
// Calibration
// ---------------------------------------------------------------------------

/// The movement of a case: the receipt's state when there is a receipt,
/// else the observed movement for the seam, else the expectation.
pub open spec fn movement_from(case: ExpectedCase, receipt: Option<OutcomeReceipt>, observed: Option<MovementView>) -> MovementView {
    match receipt {
        Some(r) => MovementView {
            state: r.static_movement@,
            source: "outcome_receipt"@,
            before_class: None,
            after_class: None,
        },
        None => match observed {
            Some(m) => m,
            None => MovementView {
                state: case.static_movement@,
                source: "fixture_expectation"@,
                before_class: None,
                after_class: None,
            },
        },
    }
}

pub open spec fn opt_receipt(r: Option<&OutcomeReceipt>) -> Option<OutcomeReceipt> {
    match r {
        Some(x) => Some(*x),
        None => None,
    }
}

pub open spec fn opt_movement(m: Option<&StaticMovement>) -> Option<MovementView> {
    match m {
        Some(x) => Some(movement_view(*x)),
        None => None,
    }
}

/// The static movement recorded for a calibrated recommendation.
pub fn static_movement_from_sources(
    case: &ExpectedCase,
    receipt: Option<&OutcomeReceipt>,
    static_movement: Option<&StaticMovement>,
) -> (r: StaticMovement)
    ensures
        movement_view(r) == movement_from(*case, opt_receipt(receipt), opt_movement(static_movement)),
{
    if let Some(receipt) = receipt {
        return StaticMovement {
            state: owned(receipt.static_movement.as_str()),
            source: owned("outcome_receipt"),
            before_class: None,
            after_class: None,
        };
    }
    if let Some(m) = static_movement {
        return copy_movement(m);
    }
    StaticMovement {
        state: owned(case.static_movement.as_str()),
        source: owned("fixture_expectation"),
        before_class: None,
        after_class: None,
    }
}

/// A calibrated suppression.
#[derive(Clone, Debug, PartialEq, Eq)]
pub struct CalibratedSuppression {
    pub id: String,
    pub seam_id: String,
    pub source_artifact: String,
    pub source_case: String,
    pub reason: String,
    pub quality: String,
    pub outcome: String,
    pub outcome_source: String,
    pub outcome_reason: String,
}

pub struct SuppressionView {
    pub id: Seq<char>,
    pub seam_id: Seq<char>,
    pub source_artifact: Seq<char>,
    pub source_case: Seq<char>,
    pub reason: Seq<char>,
    pub quality: Seq<char>,
    pub outcome: Seq<char>,
    pub outcome_source: Seq<char>,
    pub outcome_reason: Seq<char>,
}

pub open spec fn suppression_view(s: CalibratedSuppression) -> SuppressionView {
    SuppressionView {
        id: s.id@,
        seam_id: s.seam_id@,
        source_artifact: s.source_artifact@,
        source_case: s.source_case@,
        reason: s.reason@,
        quality: s.quality@,
        outcome: s.outcome@,
        outcome_source: s.outcome_source@,
        outcome_reason: s.outcome_reason@,
    }
}

pub open spec fn or_text(o: Option<Seq<char>>, d: Seq<char>) -> Seq<char> {
    match o {
        Some(v) => v,
        None => d,
    }
}

/// `Some(v)` unless `v` is the placeholder `skip`.
pub open spec fn unless(o: Option<Seq<char>>, skip: Seq<char>) -> Option<Seq<char>> {
    match o {
        Some(v) => if v == skip {
            None
        } else {
            Some(v)
        },
        None => None,
    }
}

pub open spec fn first_of(a: Option<Seq<char>>, b: Option<Seq<char>>) -> Option<Seq<char>> {
    match a {
        Some(v) => Some(v),
        None => b,
    }
}

/// The calibration outcome, its source and its reason.
pub open spec fn outcome_of(case: ExpectedCase, receipt: Option<OutcomeReceipt>) -> Seq<char> {
    match receipt {
        Some(r) => r.outcome@,
        None => case.outcome@,
    }
}

pub open spec fn outcome_source_of(receipt: Option<OutcomeReceipt>) -> Seq<char> {
    match receipt {
        Some(r) => "outcome_receipt:"@ + r.source@,
        None => "fixture_expectation"@,
    }
}

pub open spec fn outcome_reason_of(case: ExpectedCase, receipt: Option<OutcomeReceipt>) -> Seq<char> {
    match receipt {
        Some(r) => if r.reason@.len() != 0 {
            r.reason@
        } else {
            case.reason@
        },
        None => case.reason@,
    }
}

pub open spec fn suppression_spec(case: ExpectedCase, receipt: Option<OutcomeReceipt>) -> SuppressionView {
    SuppressionView {
        id: or_text(opt_view(case.source_item_id), "ripr-review-"@ + case.id@),
        seam_id: case.seam_id@,
        source_artifact: case.source_artifact@,
        source_case: case.id@,
        reason: or_text(
            first_of(
                unless(
                    match receipt {
                        Some(r) => opt_view(r.suppression_reason),
                        None => None,
                    },
                    "none"@,
                ),
                opt_view(case.suppressed_reason),
            ),
            "unknown"@,
        ),
        quality: or_text(
            first_of(
                unless(
                    match receipt {
                        Some(r) => opt_view(r.suppression_quality),
                        None => None,
                    },
                    "not_applicable"@,
                ),
                opt_view(case.suppression_quality),
            ),
            "unknown"@,
        ),
        outcome: outcome_of(case, receipt),
        outcome_source: outcome_source_of(receipt),
        outcome_reason: outcome_reason_of(case, receipt),
    }
}

fn or_text_exec(o: &Option<String>, d: &str) -> (r: String)
    ensures
        r@ == or_text(opt_view(*o), d@),
{
    match o {
        Some(v) => owned(v.as_str()),
        None => owned(d),
    }
}

fn unless_exec(o: &Option<String>, skip: &str) -> (r: Option<String>)
    ensures
        opt_view(r) == unless(opt_view(*o), skip@),
{
    match o {
        Some(v) => if str_eq(v.as_str(), skip) {
            None
        } else {
            Some(owned(v.as_str()))
        },
        None => None,
    }
}

fn first_of_exec(a: Option<String>, b: &Option<String>) -> (r: Option<String>)
    ensures
        opt_view(r) == first_of(opt_view(a), opt_view(*b)),
{
    match a {
        Some(v) => Some(v),
        None => copy_opt(b),
    }
}

fn outcome_parts(case: &ExpectedCase, receipt: Option<&OutcomeReceipt>) -> (r: (String, String, String))
    ensures
        r.0@ == outcome_of(*case, opt_receipt(receipt)),
        r.1@ == outcome_source_of(opt_receipt(receipt)),
        r.2@ == outcome_reason_of(*case, opt_receipt(receipt)),
{
    match receipt {
        Some(rc) => {
            let mut src = owned("outcome_receipt:");
            push_str(&mut src, rc.source.as_str());
            let reason = if chars_of(rc.reason.as_str()).len() != 0 {
                owned(rc.reason.as_str())
            } else {
                owned(case.reason.as_str())
            };
            (owned(rc.outcome.as_str()), src, reason)
        },
        None => (owned(case.outcome.as_str()), owned("fixture_expectation"), owned(case.reason.as_str())),
    }
}

/// A case's suppression, calibrated by its receipt or its expectation.
pub fn calibrated_suppression(case: &ExpectedCase, receipt: Option<&OutcomeReceipt>) -> (r:
    CalibratedSuppression)
    ensures
        suppression_view(r) == suppression_spec(*case, opt_receipt(receipt)),
{
    let id = match &case.source_item_id {
        Some(v) => owned(v.as_str()),
        None => {
            let mut s = owned("ripr-review-");
            push_str(&mut s, case.id.as_str());
            s
        },
    };
    let (receipt_reason, receipt_quality) = match receipt {
        Some(rc) => (
            unless_exec(&rc.suppression_reason, "none"),
            unless_exec(&rc.suppression_quality, "not_applicable"),
        ),
        None => (None, None),
    };
    let reason = first_of_exec(receipt_reason, &case.suppressed_reason);
    let quality = first_of_exec(receipt_quality, &case.suppression_quality);
    let (outcome, outcome_source, outcome_reason) = outcome_parts(case, receipt);
    CalibratedSuppression {
        id,
        seam_id: owned(case.seam_id.as_str()),
        source_artifact: owned(case.source_artifact.as_str()),
        source_case: owned(case.id.as_str()),
        reason: or_text_exec(&reason, "unknown"),
        quality: or_text_exec(&quality, "unknown"),
        outcome,
        outcome_source,
        outcome_reason,
    }
}

/// Where a recommendation points.
#[derive(Clone, Debug, PartialEq, Eq)]
pub struct RecommendationPlacement {
    pub path: Option<String>,
    pub line: Option<usize>,
    pub mode: Option<String>,
    pub quality: String,
}

/// The test a recommendation suggests.
#[derive(Clone, Debug, PartialEq, Eq)]
pub struct SuggestedTest {
    pub recommended_file: Option<String>,
    pub near_test: Option<String>,
    pub target_quality: String,
    pub expected_file: Option<String>,
}

/// A calibrated recommendation.
#[derive(Clone, Debug, PartialEq, Eq)]
pub struct CalibratedRecommendation {
    pub id: String,
    pub seam_id: String,
    pub rank: usize,
    pub source: String,
    pub source_artifact: String,
    pub source_case: String,
    pub placement: RecommendationPlacement,
    pub grip_class: String,
    pub severity: String,
    pub missing_discriminator: Option<String>,
    pub suggested_test: SuggestedTest,
    pub outcome: String,
    pub outcome_source: String,
    pub outcome_reason: String,
    pub static_movement: StaticMovement,
}

pub struct RecommendationView {
    pub id: Seq<char>,
    pub seam_id: Seq<char>,
    pub rank: nat,
    pub source: Seq<char>,
    pub source_artifact: Seq<char>,
    pub source_case: Seq<char>,
    pub placement_path: Option<Seq<char>>,
    pub placement_line: Option<usize>,
    pub placement_mode: Option<Seq<char>>,
    pub placement_quality: Seq<char>,
    pub grip_class: Seq<char>,
    pub severity: Seq<char>,
    pub missing_discriminator: Option<Seq<char>>,
    pub recommended_file: Option<Seq<char>>,
    pub near_test: Option<Seq<char>>,
    pub target_quality: Seq<char>,
    pub expected_file: Option<Seq<char>>,
    pub outcome: Seq<char>,
    pub outcome_source: Seq<char>,
    pub outcome_reason: Seq<char>,
    pub movement: MovementView,
}

pub open spec fn recommendation_view(r: CalibratedRecommendation) -> RecommendationView {
    RecommendationView {
        id: r.id@,
        seam_id: r.seam_id@,
        rank: r.rank as nat,
        source: r.source@,
        source_artifact: r.source_artifact@,
        source_case: r.source_case@,
        placement_path: opt_view(r.placement.path),
        placement_line: r.placement.line,
        placement_mode: opt_view(r.placement.mode),
        placement_quality: r.placement.quality@,
        grip_class: r.grip_class@,
        severity: r.severity@,
        missing_discriminator: opt_view(r.missing_discriminator),
        recommended_file: opt_view(r.suggested_test.recommended_file),
        near_test: opt_view(r.suggested_test.near_test),
        target_quality: r.suggested_test.target_quality@,
        expected_file: opt_view(r.suggested_test.expected_file),
        outcome: r.outcome@,
        outcome_source: r.outcome_source@,
        outcome_reason: r.outcome_reason@,
        movement: movement_view(r.static_movement),
    }
}

pub open spec fn first_line_of(a: Option<usize>, b: Option<usize>) -> Option<usize> {
    match a {
        Some(v) => Some(v),
        None => b,
    }
}

/// The calibrated recommendation of a case from its guidance item.
pub open spec fn recommendation_spec(
    case: ExpectedCase,
    item: GuidanceItem,
    receipt: Option<OutcomeReceipt>,
    observed: Option<MovementView>,
    rank: nat,
) -> RecommendationView {
    RecommendationView {
        id: or_text(
            opt_view(item.id),
            or_text(opt_view(case.source_item_id), "ripr-review-"@ + case.seam_id@),
        ),
        seam_id: or_text(opt_view(item.seam_id), case.seam_id@),
        rank,
        source: case.source_collection@,
        source_artifact: case.source_artifact@,
        source_case: case.id@,
        placement_path: first_of(
            match item.placement {
                Some(p) => opt_view(p.path),
                None => None,
            },
            match item.seam {
                Some(s) => opt_view(s.file),
                None => None,
            },
        ),
        placement_line: first_line_of(
            match item.placement {
                Some(p) => p.line,
                None => None,
            },
            match item.seam {
                Some(s) => s.line,
                None => None,
            },
        ),
        placement_mode: match item.placement {
            Some(p) => opt_view(p.mode),
            None => None,
        },
        placement_quality: match receipt {
            Some(r) => r.placement_quality@,
            None => case.placement_quality@,
        },
        grip_class: or_text(opt_view(item.grip_class), "unknown"@),
        severity: or_text(opt_view(item.severity), "unknown"@),
        missing_discriminator: first_of(
            opt_view(item.missing_discriminator),
            opt_view(case.missing_discriminator),
        ),
        recommended_file: first_of(
            match item.suggested_test {
                Some(t) => opt_view(t.recommended_file),
                None => None,
            },
            match receipt {
                Some(r) => opt_view(r.actual_file),
                None => None,
            },
        ),
        near_test: match item.suggested_test {
            Some(t) => opt_view(t.near_test),
            None => None,
        },
        target_quality: match receipt {
            Some(r) => r.suggested_test_target_quality@,
            None => case.suggested_test_target_quality@,
        },
        expected_file: first_of(
            match receipt {
                Some(r) => opt_view(r.expected_file),
                None => None,
            },
            opt_view(case.expected_test_file),
        ),
        outcome: outcome_of(case, receipt),
        outcome_source: outcome_source_of(receipt),
        outcome_reason: outcome_reason_of(case, receipt),
        movement: movement_from(case, receipt, observed),
    }
}

fn first_of_opt(a: &Option<String>, b: &Option<String>) -> (r: Option<String>)
    ensures
        opt_view(r) == first_of(opt_view(*a), opt_view(*b)),
{
    match a {
        Some(v) => Some(owned(v.as_str())),
        None => copy_opt(b),
    }
}

/// Where a recommendation points: the item's placement, falling back to its
/// seam; the quality comes from the receipt or the expectation.
pub fn recommendation_placement(
    item: &GuidanceItem,
    case: &ExpectedCase,
    receipt: Option<&OutcomeReceipt>,
) -> (r: RecommendationPlacement)
    ensures
        opt_view(r.path) == recommendation_spec(*case, *item, opt_receipt(receipt), None, 0).placement_path,
        r.line == recommendation_spec(*case, *item, opt_receipt(receipt), None, 0).placement_line,
        opt_view(r.mode) == recommendation_spec(*case, *item, opt_receipt(receipt), None, 0).placement_mode,
        r.quality@ == recommendation_spec(*case, *item, opt_receipt(receipt), None, 0).placement_quality,
{
    let none: Option<String> = None;
    let (p_path, p_line, p_mode) = match &item.placement {
        Some(p) => (copy_opt(&p.path), p.line, copy_opt(&p.mode)),
        None => (None, None, None),
    };
    let (s_file, s_line) = match &item.seam {
        Some(sm) => (copy_opt(&sm.file), sm.line),
        None => (None, None),
    };
    let path = match p_path {
        Some(v) => Some(v),
        None => s_file,
    };
    let line = match p_line {
        Some(v) => Some(v),
        None => s_line,
    };
    let quality = match receipt {
        Some(rc) => owned(rc.placement_quality.as_str()),
        None => owned(case.placement_quality.as_str()),
    };
    RecommendationPlacement { path, line, mode: p_mode, quality }
}

/// A case's recommendation from its guidance item, calibrated by its
/// receipt (or the expectation) and the observed movement.
pub fn calibrated_recommendation(
    case: &ExpectedCase,
    item: &GuidanceItem,
    receipt: Option<&OutcomeReceipt>,
    static_movement: Option<&StaticMovement>,
    rank: usize,
) -> (r: CalibratedRecommendation)
    ensures
        recommendation_view(r) == recommendation_spec(
            *case,
            *item,
            opt_receipt(receipt),
            opt_movement(static_movement),
            rank as nat,
        ),
{
    let id = match &item.id {
        Some(v) => owned(v.as_str()),
        None => match &case.source_item_id {
            Some(v) => owned(v.as_str()),
            None => {
                let mut s = owned("ripr-review-");
                push_str(&mut s, case.seam_id.as_str());
                s
            },
        },
    };
    let seam_id = or_text_exec(&item.seam_id, case.seam_id.as_str());
    let (sugg_file, near_test) = match &item.suggested_test {
        Some(t) => (copy_opt(&t.recommended_file), copy_opt(&t.near_test)),
        None => (None, None),
    };
    let (actual_file, expected_file_r, target_quality) = match receipt {
        Some(rc) => (
            copy_opt(&rc.actual_file),
            copy_opt(&rc.expected_file),
            owned(rc.suggested_test_target_quality.as_str()),
        ),
        None => (None, None, owned(case.suggested_test_target_quality.as_str())),
    };
    let recommended_file = match sugg_file {
        Some(v) => Some(v),
        None => actual_file,
    };
    let expected_file = first_of_exec(expected_file_r, &case.expected_test_file);
    let (outcome, outcome_source, outcome_reason) = outcome_parts(case, receipt);
    let movement = static_movement_from_sources(case, receipt, static_movement);
    CalibratedRecommendation {
        id,
        seam_id,
        rank,
        source: owned(case.source_collection.as_str()),
        source_artifact: owned(case.source_artifact.as_str()),
        source_case: owned(case.id.as_str()),
        placement: recommendation_placement(item, case, receipt),
        grip_class: or_text_exec(&item.grip_class, "unknown"),
        severity: or_text_exec(&item.severity, "unknown"),
        missing_discriminator: first_of_opt(&item.missing_discriminator, &case.missing_discriminator),
        suggested_test: SuggestedTest {
            recommended_file,
            near_test,
            target_quality,
            expected_file,
        },
        outcome,
        outcome_source,
        outcome_reason,
        static_movement: movement,
    }
}

// ---------------------------------------------------------------------------
// Latency
// ---------------------------------------------------------------------------

pub open spec fn first_stamp(a: Option<i64>, b: Option<i64>) -> Option<i64> {
    match a {
        Some(v) => Some(v),
        None => b,
    }
}

/// The first receipt's stamp for each latency field, in receipt order.
pub open spec fn combined_latency(rs: Seq<OutcomeReceipt>) -> Latency
    decreases rs.len(),
{
    if rs.len() == 0 {
        Latency {
            guidance_generated_unix_ms: None,
            annotation_emitted_unix_ms: None,
            outcome_recorded_unix_ms: None,
            annotation_latency_ms: None,
            outcome_latency_ms: None,
        }
    } else {
        let c = combined_latency(rs.drop_last());
        let l = rs.last().latency;
        Latency {
            guidance_generated_unix_ms: first_stamp(c.guidance_generated_unix_ms, l.guidance_generated_unix_ms),
            annotation_emitted_unix_ms: first_stamp(c.annotation_emitted_unix_ms, l.annotation_emitted_unix_ms),
            outcome_recorded_unix_ms: first_stamp(c.outcome_recorded_unix_ms, l.outcome_recorded_unix_ms),
            annotation_latency_ms: first_stamp(c.annotation_latency_ms, l.annotation_latency_ms),
            outcome_latency_ms: first_stamp(c.outcome_latency_ms, l.outcome_latency_ms),
        }
    }
}

/// Each latency field from the first receipt that records it.
pub fn combine_latency(receipts: &[OutcomeReceipt]) -> (r: Latency)
    ensures
        r == combined_latency(receipts@),
{
    let mut combined = Latency::default();
    let mut i: usize = 0;
    assert(receipts@.take(0) =~= Seq::<OutcomeReceipt>::empty());
    while i < receipts.len()
        invariant
            i <= receipts@.len(),
            combined == combined_latency(receipts@.take(i as int)),
        decreases receipts.len() - i,
    {
        let l = receipts[i].latency;
        combined.guidance_generated_unix_ms = match combined.guidance_generated_unix_ms {
            Some(v) => Some(v),
            None => l.guidance_generated_unix_ms,
        };
        combined.annotation_emitted_unix_ms = match combined.annotation_emitted_unix_ms {
            Some(v) => Some(v),
            None => l.annotation_emitted_unix_ms,
        };
        combined.outcome_recorded_unix_ms = match combined.outcome_recorded_unix_ms {
            Some(v) => Some(v),
            None => l.outcome_recorded_unix_ms,
        };
        combined.annotation_latency_ms = match combined.annotation_latency_ms {
            Some(v) => Some(v),
            None => l.annotation_latency_ms,
        };
        combined.outcome_latency_ms = match combined.outcome_latency_ms {
            Some(v) => Some(v),
            None => l.outcome_latency_ms,
        };
        assert(receipts@.take(i + 1).drop_last() =~= receipts@.take(i as int));
        i += 1;
    }
    assert(receipts@.take(receipts@.len() as int) =~= receipts@);
    combined
}

// ---------------------------------------------------------------------------
// Summary
// ---------------------------------------------------------------------------

/// Counts over the calibrated outcomes.
#[derive(Clone, Debug, PartialEq, Eq)]
pub struct RecommendationCalibrationSummary {
    pub recommendations_evaluated: usize,
    pub top_recommendation_outcome: String,
    pub useful: usize,
    pub noisy: usize,
    pub false_annotations: usize,
    pub summary_only_correct: usize,
    pub suppressed_correctly: usize,
    pub target_file_correct: usize,
    pub static_improved: usize,
    pub static_unchanged: usize,
    pub static_regressed: usize,
    pub unknown: usize,
}

/// Outcomes that mark an annotation as false.
pub open spec fn is_false_annotation(o: Seq<char>) -> bool {
    o == "noisy"@ || o == "wrong_line"@ || o == "already_covered"@ || o == "wrong_target"@
}

pub open spec fn count_eq(os: Seq<Seq<char>>, o: Seq<char>) -> nat
    decreases os.len(),
{
    if os.len() == 0 {
        0
    } else {
        count_eq(os.drop_last(), o) + if os.last() == o {
            1nat
        } else {
            0nat
        }
    }
}

pub open spec fn count_false(os: Seq<Seq<char>>) -> nat
    decreases os.len(),
{
    if os.len() == 0 {
        0
    } else {
        count_false(os.drop_last()) + if is_false_annotation(os.last()) {
            1nat
        } else {
            0nat
        }
    }
}

pub open spec fn rec_outcomes(rs: Seq<CalibratedRecommendation>) -> Seq<Seq<char>> {
    rs.map_values(|r: CalibratedRecommendation| r.outcome@)
}

pub open spec fn supp_outcomes(ss: Seq<CalibratedSuppression>) -> Seq<Seq<char>> {
    ss.map_values(|s: CalibratedSuppression| s.outcome@)
}

pub open spec fn rec_targets(rs: Seq<CalibratedRecommendation>) -> Seq<Seq<char>> {
    rs.map_values(|r: CalibratedRecommendation| r.suggested_test.target_quality@)
}

pub open spec fn rec_movements(rs: Seq<CalibratedRecommendation>) -> Seq<Seq<char>> {
    rs.map_values(|r: CalibratedRecommendation| r.static_movement.state@)
}

/// Both outcome counts: over the recommendations and the suppressions.
pub open spec fn outcome_count(rs: Seq<CalibratedRecommendation>, ss: Seq<CalibratedSuppression>, o: Seq<char>) -> nat {
    count_eq(rec_outcomes(rs), o) + count_eq(supp_outcomes(ss), o)
}

pub open spec fn top_outcome(rs: Seq<CalibratedRecommendation>, ss: Seq<CalibratedSuppression>) -> Seq<char> {
    if rs.len() > 0 {
        rs[0].outcome@
    } else if ss.len() > 0 {
        ss[0].outcome@
    } else {
        "unknown"@
    }
}

fn count_in(os: &Vec<String>, o: &str) -> (c: usize)
    ensures
        c == count_eq(views(os@), o@),
        c <= os@.len(),
{
    let ghost v = views(os@);
    let mut c: usize = 0;
    let mut i: usize = 0;
    assert(v.take(0) =~= Seq::<Seq<char>>::empty());
    while i < os.len()
        invariant
            i <= os@.len(),
            v == views(os@),
            c == count_eq(v.take(i as int), o@),
            c <= i,
        decreases os.len() - i,
    {
        assert(v.take(i + 1).drop_last() =~= v.take(i as int));
        assert(v.take(i + 1).last() == os@[i as int]@);
        if str_eq(os[i].as_str(), o) {
            c += 1;
        }
        i += 1;
    }
    assert(v.take(os@.len() as int) =~= v);
    c
}

fn false_in(os: &Vec<String>) -> (c: usize)
    ensures
        c == count_false(views(os@)),
        c <= os@.len(),
{
    let ghost v = views(os@);
    let mut c: usize = 0;
    let mut i: usize = 0;
    assert(v.take(0) =~= Seq::<Seq<char>>::empty());
    while i < os.len()
        invariant
            i <= os@.len(),
            v == views(os@),
            c == count_false(v.take(i as int)),
            c <= i,
        decreases os.len() - i,
    {
        assert(v.take(i + 1).drop_last() =~= v.take(i as int));
        assert(v.take(i + 1).last() == os@[i as int]@);
        let x = os[i].as_str();
        if str_eq(x, "noisy") || str_eq(x, "wrong_line") || str_eq(x, "already_covered") || str_eq(
            x,
            "wrong_target",
        ) {
            c += 1;
        }
        i += 1;
    }
    assert(v.take(os@.len() as int) =~= v);
    c
}

fn rec_outcome_list(rs: &[CalibratedRecommendation]) -> (r: (Vec<String>, Vec<String>, Vec<String>))
    ensures
        views(r.0@) == rec_outcomes(rs@),
        views(r.1@) == rec_targets(rs@),
        views(r.2@) == rec_movements(rs@),
{
    let mut a: Vec<String> = Vec::new();
    let mut b: Vec<String> = Vec::new();
    let mut c: Vec<String> = Vec::new();
    let mut i: usize = 0;
    while i < rs.len()
        invariant
            i <= rs@.len(),
            views(a@) == rec_outcomes(rs@).take(i as int),
            views(b@) == rec_targets(rs@).take(i as int),
            views(c@) == rec_movements(rs@).take(i as int),
        decreases rs.len() - i,
    {
        let ghost (a0, b0, c0) = (a@, b@, c@);
        a.push(owned(rs[i].outcome.as_str()));
        b.push(owned(rs[i].suggested_test.target_quality.as_str()));
        c.push(owned(rs[i].static_movement.state.as_str()));
        assert(views(a@) =~= views(a0).push(rs@[i as int].outcome@));
        assert(views(b@) =~= views(b0).push(rs@[i as int].suggested_test.target_quality@));
        assert(views(c@) =~= views(c0).push(rs@[i as int].static_movement.state@));
        assert(rec_outcomes(rs@).take(i + 1) =~= rec_outcomes(rs@).take(i as int).push(
            rs@[i as int].outcome@,
        ));
        assert(rec_targets(rs@).take(i + 1) =~= rec_targets(rs@).take(i as int).push(
            rs@[i as int].suggested_test.target_quality@,
        ));
        assert(rec_movements(rs@).take(i + 1) =~= rec_movements(rs@).take(i as int).push(
            rs@[i as int].static_movement.state@,
        ));
        i += 1;
    }
    assert(rec_outcomes(rs@).take(rs@.len() as int) =~= rec_outcomes(rs@));
    assert(rec_targets(rs@).take(rs@.len() as int) =~= rec_targets(rs@));
    assert(rec_movements(rs@).take(rs@.len() as int) =~= rec_movements(rs@));
    (a, b, c)
}

fn supp_outcome_list(ss: &[CalibratedSuppression]) -> (r: Vec<String>)
    ensures
        views(r@) == supp_outcomes(ss@),
{
    let mut a: Vec<String> = Vec::new();
    let mut i: usize = 0;
    while i < ss.len()
        invariant
            i <= ss@.len(),
            views(a@) == supp_outcomes(ss@).take(i as int),
        decreases ss.len() - i,
    {
        let ghost a0 = a@;
        a.push(owned(ss[i].outcome.as_str()));
        assert(views(a@) =~= views(a0).push(ss@[i as int].outcome@));
        assert(supp_outcomes(ss@).take(i + 1) =~= supp_outcomes(ss@).take(i as int).push(
            ss@[i as int].outcome@,
        ));
        i += 1;
    }
    assert(supp_outcomes(ss@).take(ss@.len() as int) =~= supp_outcomes(ss@));
    a
}

/// Whether `r` holds the summary counts of the given calibration.
pub open spec fn summary_of(
    r: RecommendationCalibrationSummary,
    recommendations: Seq<CalibratedRecommendation>,
    suppressed: Seq<CalibratedSuppression>,
) -> bool {
    &&& r.recommendations_evaluated == recommendations.len() + suppressed.len()
    &&& r.top_recommendation_outcome@ == top_outcome(recommendations, suppressed)
    &&& r.useful == outcome_count(recommendations, suppressed, "useful"@)
    &&& r.noisy == outcome_count(recommendations, suppressed, "noisy"@)
    &&& r.false_annotations == count_false(rec_outcomes(recommendations)) + count_false(
        supp_outcomes(suppressed),
    )
    &&& r.summary_only_correct == outcome_count(recommendations, suppressed, "summary_only_correct"@)
    &&& r.suppressed_correctly == outcome_count(recommendations, suppressed, "suppressed_correctly"@)
    &&& r.unknown == outcome_count(recommendations, suppressed, "unknown"@)
    &&& r.target_file_correct == count_eq(rec_targets(recommendations), "correct"@)
    &&& r.static_improved == count_eq(rec_movements(recommendations), "improved"@)
    &&& r.static_unchanged == count_eq(rec_movements(recommendations), "unchanged"@)
    &&& r.static_regressed == count_eq(rec_movements(recommendations), "regressed"@)
}

/// The summary counts of calibrated recommendations and suppressions.
pub fn summarize_recommendation_calibration(
    recommendations: &[CalibratedRecommendation],
    suppressed: &[CalibratedSuppression],
) -> (r: RecommendationCalibrationSummary)
    requires
        recommendations@.len() + suppressed@.len() <= usize::MAX,
    ensures
        r.recommendations_evaluated == recommendations@.len() + suppressed@.len(),
        r.top_recommendation_outcome@ == top_outcome(recommendations@, suppressed@),
        r.useful == outcome_count(recommendations@, suppressed@, "useful"@),
        r.noisy == outcome_count(recommendations@, suppressed@, "noisy"@),
        r.false_annotations == count_false(rec_outcomes(recommendations@)) + count_false(
            supp_outcomes(suppressed@),
        ),
        r.summary_only_correct == outcome_count(recommendations@, suppressed@, "summary_only_correct"@),
        r.suppressed_correctly == outcome_count(recommendations@, suppressed@, "suppressed_correctly"@),
        r.unknown == outcome_count(recommendations@, suppressed@, "unknown"@),
        r.target_file_correct == count_eq(rec_targets(recommendations@), "correct"@),
        r.static_improved == count_eq(rec_movements(recommendations@), "improved"@),
        r.static_unchanged == count_eq(rec_movements(recommendations@), "unchanged"@),
        r.static_regressed == count_eq(rec_movements(recommendations@), "regressed"@),
        summary_of(r, recommendations@, suppressed@),
{
    let (ro, rt, rm) = rec_outcome_list(recommendations);
    let so = supp_outcome_list(suppressed);
    let top = if recommendations.len() > 0 {
        owned(recommendations[0].outcome.as_str())
    } else if suppressed.len() > 0 {
        owned(suppressed[0].outcome.as_str())
    } else {
        owned("unknown")
    };
    RecommendationCalibrationSummary {
        recommendations_evaluated: recommendations.len() + suppressed.len(),
        top_recommendation_outcome: top,
        useful: count_in(&ro, "useful") + count_in(&so, "useful"),
        noisy: count_in(&ro, "noisy") + count_in(&so, "noisy"),
        false_annotations: false_in(&ro) + false_in(&so),
        summary_only_correct: count_in(&ro, "summary_only_correct") + count_in(
            &so,
            "summary_only_correct",
        ),
        suppressed_correctly: count_in(&ro, "suppressed_correctly") + count_in(
            &so,
            "suppressed_correctly",
        ),
        target_file_correct: count_in(&rt, "correct"),
        static_improved: count_in(&rm, "improved"),
        static_unchanged: count_in(&rm, "unchanged"),
        static_regressed: count_in(&rm, "regressed"),
        unknown: count_in(&ro, "unknown") + count_in(&so, "unknown"),
    }
}

// ---------------------------------------------------------------------------
// Static movement inputs
// ---------------------------------------------------------------------------

/// An entry of a targeted-test outcome movement list.
#[derive(Clone, Debug, PartialEq, Eq)]
pub struct MovedSeam {
    pub seam_id: Option<String>,
    pub direction: Option<String>,
    pub before: Option<String>,
    pub after: Option<String>,
}

/// An entry of a targeted-test outcome seam list.
#[derive(Clone, Debug, PartialEq, Eq)]
pub struct ListedSeam {
    pub seam_id: Option<String>,
    pub grip_class: Option<String>,
}

/// A targeted-test outcome: its movement and seam lists (empty where
/// absent).
#[derive(Clone, Debug, PartialEq, Eq)]
pub struct TargetedTestOutcome {
    pub moved: Vec<MovedSeam>,
    pub unchanged: Vec<MovedSeam>,
    pub regressed: Vec<MovedSeam>,
    pub new: Vec<ListedSeam>,
    pub removed: Vec<ListedSeam>,
}

/// The `seam` object of an agent receipt.
#[derive(Clone, Debug, PartialEq, Eq)]
pub struct AgentReceiptSeam {
    pub seam_id: Option<String>,
    pub change: Option<String>,
    pub before: Option<String>,
    pub after: Option<String>,
}

/// Movement entries of a movement list: the state is the entry's direction
/// (or `unknown`) when `literal` is `None`, else `literal`.
pub open spec fn fold_moved(m: Map<Seq<char>, MovementView>, items: Seq<MovedSeam>, literal: Option<Seq<char>>) -> Map<Seq<char>, MovementView>
    decreases items.len(),
{
    if items.len() == 0 {
        m
    } else {
        let prev = fold_moved(m, items.drop_last(), literal);
        let it = items.last();
        match it.seam_id {
            Some(id) => prev.insert(
                id@,
                MovementView {
                    state: match literal {
                        Some(l) => l,
                        None => or_text(opt_view(it.direction), "unknown"@),
                    },
                    source: "targeted_test_outcome"@,
                    before_class: opt_view(it.before),
                    after_class: opt_view(it.after),
                },
            ),
            None => prev,
        }
    }
}

pub open spec fn fold_listed(m: Map<Seq<char>, MovementView>, items: Seq<ListedSeam>, state: Seq<char>) -> Map<Seq<char>, MovementView>
    decreases items.len(),
{
    if items.len() == 0 {
        m
    } else {
        let prev = fold_listed(m, items.drop_last(), state);
        let it = items.last();
        match it.seam_id {
            Some(id) => prev.insert(
                id@,
                MovementView {
                    state,
                    source: "targeted_test_outcome"@,
                    before_class: None,
                    after_class: opt_view(it.grip_class),
                },
            ),
            None => prev,
        }
    }
}

/// Movement by seam from a targeted-test outcome, then an agent receipt
/// (later entries win).
pub open spec fn movements_spec(targeted: Option<TargetedTestOutcome>, agent: Option<AgentReceiptSeam>) -> Map<Seq<char>, MovementView> {
    let m0 = Map::<Seq<char>, MovementView>::empty();
    let m1 = match targeted {
        Some(t) => fold_listed(
            fold_listed(
                fold_moved(
                    fold_moved(fold_moved(m0, t.moved@, None), t.unchanged@, Some("unchanged"@)),
                    t.regressed@,
                    Some("regressed"@),
                ),
                t.new@,
                "new_gap"@,
            ),
            t.removed@,
            "resolved"@,
        ),
        None => m0,
    };
    match agent {
        Some(a) => match a.seam_id {
            Some(id) => m1.insert(
                id@,
                MovementView {
                    state: or_text(opt_view(a.change), "unknown"@),
                    source: "agent_receipt"@,
                    before_class: opt_view(a.before),
                    after_class: opt_view(a.after),
                },
            ),
            None => m1,
        },
        None => m1,
    }
}

fn collect_moved(by_seam: &mut MovementBySeam, items: &Vec<MovedSeam>, literal: Option<&str>)
    ensures
        final(by_seam).view_map() == fold_moved(old(by_seam).view_map(), items@, match literal {
            Some(l) => Some(l@),
            None => None,
        }),
{
    let ghost start = by_seam.view_map();
    let ghost lit = match literal {
        Some(l) => Some(l@),
        None => None::<Seq<char>>,
    };
    let mut i: usize = 0;
    assert(items@.take(0) =~= Seq::<MovedSeam>::empty());
    while i < items.len()
        invariant
            i <= items@.len(),
            lit == match literal {
                Some(l) => Some(l@),
                None => None::<Seq<char>>,
            },
            by_seam.view_map() == fold_moved(start, items@.take(i as int), lit),
        decreases items.len() - i,
    {
        assert(items@.take(i + 1).drop_last() =~= items@.take(i as int));
        let it = &items[i];
        match &it.seam_id {
            Some(id) => {
                let state = match literal {
                    Some(l) => owned(l),
                    None => or_text_exec(&it.direction, "unknown"),
                };
                by_seam.insert(
                    owned(id.as_str()),
                    StaticMovement {
                        state,
                        source: owned("targeted_test_outcome"),
                        before_class: copy_opt(&it.before),
                        after_class: copy_opt(&it.after),
                    },
                );
            },
            None => {},
        }
        i += 1;
    }
    assert(items@.take(items@.len() as int) =~= items@);
}

fn collect_listed(by_seam: &mut MovementBySeam, items: &Vec<ListedSeam>, state: &str)
    ensures
        final(by_seam).view_map() == fold_listed(old(by_seam).view_map(), items@, state@),
{
    let ghost start = by_seam.view_map();
    let mut i: usize = 0;
    assert(items@.take(0) =~= Seq::<ListedSeam>::empty());
    while i < items.len()
        invariant
            i <= items@.len(),
            by_seam.view_map() == fold_listed(start, items@.take(i as int), state@),
        decreases items.len() - i,
    {
        assert(items@.take(i + 1).drop_last() =~= items@.take(i as int));
        let it = &items[i];
        match &it.seam_id {
            Some(id) => {
                by_seam.insert(
                    owned(id.as_str()),
                    StaticMovement {
                        state: owned(state),
                        source: owned("targeted_test_outcome"),
                        before_class: None,
                        after_class: copy_opt(&it.grip_class),
                    },
                );
            },
            None => {},
        }
        i += 1;
    }
    assert(items@.take(items@.len() as int) =~= items@);
}

/// The static movement of each seam from the targeted-test outcome and the
/// agent receipt that were given.
pub fn read_static_movement(targeted: Option<&TargetedTestOutcome>, agent: Option<&AgentReceiptSeam>) -> (r:
    MovementBySeam)
    ensures
        r.view_map() == movements_spec(
            match targeted {
                Some(t) => Some(*t),
                None => None,
            },
            match agent {
                Some(a) => Some(*a),
                None => None,
            },
        ),
{
    let mut by_seam = MovementBySeam::new();
    if let Some(t) = targeted {
        collect_moved(&mut by_seam, &t.moved, None);
        collect_moved(&mut by_seam, &t.unchanged, Some("unchanged"));
        collect_moved(&mut by_seam, &t.regressed, Some("regressed"));
        collect_listed(&mut by_seam, &t.new, "new_gap");
        collect_listed(&mut by_seam, &t.removed, "resolved");
    }
    if let Some(a) = agent {
        if let Some(id) = &a.seam_id {
            by_seam.insert(
                owned(id.as_str()),
                StaticMovement {
                    state: or_text_exec(&a.change, "unknown"),
                    source: owned("agent_receipt"),
                    before_class: copy_opt(&a.before),
                    after_class: copy_opt(&a.after),
                },
            );
        }
    }
    by_seam
}

// ---------------------------------------------------------------------------
// The report
// ---------------------------------------------------------------------------

/// The inputs a report records.
#[derive(Clone, Debug, PartialEq, Eq)]
pub struct RecommendationCalibrationInputs {
    pub pr_guidance: Vec<String>,
    pub targeted_test_outcome: Option<String>,
    pub agent_receipt: Option<String>,
    pub calibration_expectations: String,
    pub outcome_receipts: Vec<String>,
}

/// The recommendation calibration report.
#[derive(Clone, Debug, PartialEq, Eq)]
pub struct RecommendationCalibrationReport {
    pub status: String,
    pub root: String,
    pub inputs: RecommendationCalibrationInputs,
    pub summary: RecommendationCalibrationSummary,
    pub latency: Latency,
    pub recommendations: Vec<CalibratedRecommendation>,
    pub suppressed: Vec<CalibratedSuppression>,
    pub warnings: Vec<String>,
}

pub open spec fn case_artifacts(cases: Seq<ExpectedCase>) -> Seq<Seq<char>> {
    cases.map_values(|c: ExpectedCase| c.source_artifact@)
}

/// The guidance paths to read: the given ones as displayed, else every
/// case's source artifact once, in order.
pub open spec fn guidance_paths_spec(args: RecommendationCalibrationArgs, cases: Seq<ExpectedCase>) -> Seq<Seq<char>> {
    if args.pr_guidance@.len() > 0 {
        views(args.pr_guidance@).map_values(|p: Seq<char>| path_text(p))
    } else {
        sorted_unique_spec(case_artifacts(cases))
    }
}

/// The guidance documents a calibration run reads.
pub fn guidance_paths(args: &RecommendationCalibrationArgs, expectations: &[ExpectedCase]) -> (r: Vec<
    String,
>)
    ensures
        views(r@) == guidance_paths_spec(*args, expectations@),
{
    if args.pr_guidance.len() > 0 {
        let ghost g = views(args.pr_guidance@).map_values(|p: Seq<char>| path_text(p));
        let mut out: Vec<String> = Vec::new();
        let mut i: usize = 0;
        while i < args.pr_guidance.len()
            invariant
                i <= args.pr_guidance@.len(),
                g == views(args.pr_guidance@).map_values(|p: Seq<char>| path_text(p)),
                views(out@) == g.take(i as int),
            decreases args.pr_guidance.len() - i,
        {
            let ghost o0 = out@;
            out.push(display_path(args.pr_guidance[i].as_str()));
            assert(views(out@) =~= views(o0).push(g[i as int]));
            assert(g.take(i + 1) =~= g.take(i as int).push(g[i as int]));
            i += 1;
        }
        assert(g.take(g.len() as int) =~= g);
        return out;
    }
    let mut arts: Vec<String> = Vec::new();
    let mut i: usize = 0;
    while i < expectations.len()
        invariant
            i <= expectations@.len(),
            views(arts@) == case_artifacts(expectations@).take(i as int),
        decreases expectations.len() - i,
    {
        let ghost a0 = arts@;
        arts.push(owned(expectations[i].source_artifact.as_str()));
        assert(views(arts@) =~= views(a0).push(expectations@[i as int].source_artifact@));
        assert(case_artifacts(expectations@).take(i + 1) =~= case_artifacts(expectations@).take(
            i as int,
        ).push(expectations@[i as int].source_artifact@));
        i += 1;
    }
    assert(case_artifacts(expectations@).take(expectations@.len() as int) =~= case_artifacts(
        expectations@,
    ));
    sorted_unique(arts.as_slice())
}

/// The running calibration of the cases seen so far.
pub struct CalState {
    pub recs: Seq<RecommendationView>,
    pub supps: Seq<SuppressionView>,
    pub warnings: Seq<Seq<char>>,
}

pub open spec fn first_input(inputs: Seq<GuidanceInput>, artifact: Seq<char>) -> Option<int>
    decreases inputs.len(),
{
    if inputs.len() == 0 {
        None
    } else if path_text(inputs[0].path@) == path_text(artifact) {
        Some(0)
    } else {
        match first_input(inputs.drop_first(), artifact) {
            Some(i) => Some(i + 1),
            None => None,
        }
    }
}

pub open spec fn warn(st: CalState, w: Seq<char>) -> CalState {
    CalState { warnings: st.warnings.push(w), ..st }
}

pub open spec fn observed(mv: Map<Seq<char>, MovementView>, seam: Seq<char>) -> Option<MovementView> {
    if mv.contains_key(seam) {
        Some(mv[seam])
    } else {
        None
    }
}

/// One case's effect on the calibration.
pub open spec fn case_step(
    st: CalState,
    case: ExpectedCase,
    inputs: Seq<GuidanceInput>,
    receipts: Seq<OutcomeReceipt>,
    mv: Map<Seq<char>, MovementView>,
) -> CalState {
    let receipt = picked(case, receipts);
    let art = case.source_artifact@;
    match first_input(inputs, art) {
        None => warn(st, case.id@ + " source artifact "@ + art + " was not included"@),
        Some(k) => match inputs[k].value {
            None => st,
            Some(doc) => {
                let coll = case.source_collection@;
                if coll == "comments"@ || coll == "summary_only"@ {
                    match found_item(doc, coll, case) {
                        Some(item) => CalState {
                            recs: st.recs.push(
                                recommendation_spec(
                                    case,
                                    item,
                                    receipt,
                                    observed(mv, case.seam_id@),
                                    st.recs.len() + 1,
                                ),
                            ),
                            ..st
                        },
                        None => warn(
                            st,
                            case.id@ + " did not find "@ + or_text(
                                opt_view(case.source_item_id),
                                "<missing id>"@,
                            ) + " in "@ + art,
                        ),
                    }
                } else if coll == "suppressed"@ {
                    if found_item(doc, "suppressed"@, case) is Some {
                        CalState { supps: st.supps.push(suppression_spec(case, receipt)), ..st }
                    } else {
                        warn(st, case.id@ + " did not find suppressed item in "@ + art)
                    }
                } else if coll == "warnings"@ {
                    if warning_mentions(doc, case) {
                        CalState { supps: st.supps.push(suppression_spec(case, receipt)), ..st }
                    } else {
                        warn(st, case.id@ + " did not find matching warning in "@ + art)
                    }
                } else {
                    warn(st, case.id@ + " uses unsupported source collection `"@ + coll + "`"@)
                }
            },
        },
    }
}

pub open spec fn fold_cases(
    cases: Seq<ExpectedCase>,
    init: CalState,
    inputs: Seq<GuidanceInput>,
    receipts: Seq<OutcomeReceipt>,
    mv: Map<Seq<char>, MovementView>,
) -> CalState
    decreases cases.len(),
{
    if cases.len() == 0 {
        init
    } else {
        case_step(fold_cases(cases.drop_last(), init, inputs, receipts, mv), cases.last(), inputs, receipts, mv)
    }
}

/// The read errors of the guidance inputs, in order.
pub open spec fn input_errors(inputs: Seq<GuidanceInput>) -> Seq<Seq<char>>
    decreases inputs.len(),
{
    if inputs.len() == 0 {
        seq![]
    } else {
        let rest = input_errors(inputs.drop_last());
        match inputs.last().error {
            Some(e) => rest.push(e@),
            None => rest,
        }
    }
}

/// The calibration of every case, starting from the input read errors.
pub open spec fn calibration(
    cases: Seq<ExpectedCase>,
    inputs: Seq<GuidanceInput>,
    receipts: Seq<OutcomeReceipt>,
    mv: Map<Seq<char>, MovementView>,
) -> CalState {
    fold_cases(
        cases,
        CalState { recs: seq![], supps: seq![], warnings: input_errors(inputs) },
        inputs,
        receipts,
        mv,
    )
}

fn find_input_exec(inputs: &Vec<GuidanceInput>, artifact: &str) -> (r: Option<usize>)
    ensures
        match first_input(inputs@, artifact@) {
            Some(k) => r is Some && r->0 as int == k && 0 <= k < inputs@.len(),
            None => r is None,
        },
{
    let ghost s = inputs@;
    let mut i: usize = 0;
    assert(s.skip(0) =~= s);
    while i < inputs.len()
        invariant
            i <= s.len(),
            s == inputs@,
            first_input(s, artifact@) == match first_input(s.skip(i as int), artifact@) {
                Some(k) => Some(k + i),
                None => None::<int>,
            },
        decreases inputs.len() - i,
    {
        assert(s.skip(i as int)[0] == s[i as int]);
        if same_path_text(inputs[i].path.as_str(), artifact) {
            return Some(i);
        }
        assert(s.skip(i as int).drop_first() =~= s.skip(i + 1));
        i += 1;
    }
    None
}

fn push_warning(warnings: &mut Vec<String>, w: String)
    ensures
        views(final(warnings)@) == views(old(warnings)@).push(w@),
{
    let ghost w0 = warnings@;
    let ghost wv = w@;
    warnings.push(w);
    assert(views(warnings@) =~= views(w0).push(wv));
}

fn text3(a: &str, b: &str, c: &str) -> (r: String)
    ensures
        r@ == a@ + b@ + c@,
{
    crate::text::concat3(a, b, c)
}

fn text4(a: &str, b: &str, c: &str, d: &str) -> (r: String)
    ensures
        r@ == a@ + b@ + c@ + d@,
{
    let mut r = crate::text::concat3(a, b, c);
    push_str(&mut r, d);
    r
}

fn text5(a: &str, b: &str, c: &str, d: &str, e: &str) -> (r: String)
    ensures
        r@ == a@ + b@ + c@ + d@ + e@,
{
    let mut r = text4(a, b, c, d);
    push_str(&mut r, e);
    r
}

pub open spec fn state_of(
    recs: Seq<CalibratedRecommendation>,
    supps: Seq<CalibratedSuppression>,
    warnings: Seq<String>,
) -> CalState {
    CalState {
        recs: recs.map_values(|r: CalibratedRecommendation| recommendation_view(r)),
        supps: supps.map_values(|s: CalibratedSuppression| suppression_view(s)),
        warnings: views(warnings),
    }
}

#[verifier::rlimit(80)]
fn calibrate_case(
    case: &ExpectedCase,
    inputs: &Vec<GuidanceInput>,
    receipts: &Vec<OutcomeReceipt>,
    movement: &MovementBySeam,
    recs: &mut Vec<CalibratedRecommendation>,
    supps: &mut Vec<CalibratedSuppression>,
    warnings: &mut Vec<String>,
)
    requires
        old(recs)@.len() < usize::MAX,
    ensures
        state_of(final(recs)@, final(supps)@, final(warnings)@) == case_step(
            state_of(old(recs)@, old(supps)@, old(warnings)@),
            *case,
            inputs@,
            receipts@,
            movement.view_map(),
        ),
        final(recs)@.len() + final(supps)@.len() <= old(recs)@.len() + old(supps)@.len() + 1,
{
    let ghost st = state_of(recs@, supps@, warnings@);
    let receipt = receipt_for_case(case, receipts.as_slice());
    assert(opt_receipt(receipt) == picked(*case, receipts@));
    let found = find_input_exec(inputs, case.source_artifact.as_str());
    let k = match found {
        None => {
            push_warning(
                warnings,
                text4(case.id.as_str(), " source artifact ", case.source_artifact.as_str(), " was not included"),
            );
            return;
        },
        Some(k) => k,
    };
    assert(first_input(inputs@, case.source_artifact@) == Some(k as int));
    let doc = match &inputs[k].value {
        None => {
            assert(inputs@[k as int].value is None);
            assert(case_step(st, *case, inputs@, receipts@, movement.view_map()) == st);
            return;
        },
        Some(d) => d,
    };
    let coll = case.source_collection.as_str();
    if str_eq(coll, "comments") || str_eq(coll, "summary_only") {
        match find_guidance_item(doc, coll, case) {
            Some(item) => {
                let observed_mv = movement.get(case.seam_id.as_str());
                let rank = recs.len() + 1;
                let rec = calibrated_recommendation(case, item, receipt, observed_mv, rank);
                let ghost r0 = recs@;
                let ghost rv = recommendation_view(rec);
                recs.push(rec);
                assert(recs@.map_values(|r: CalibratedRecommendation| recommendation_view(r))
                    =~= r0.map_values(|r: CalibratedRecommendation| recommendation_view(r)).push(rv));
            },
            None => {
                let id_text = or_text_exec(&case.source_item_id, "<missing id>");
                push_warning(
                    warnings,
                    text5(case.id.as_str(), " did not find ", id_text.as_str(), " in ", case.source_artifact.as_str()),
                );
            },
        }
    } else if str_eq(coll, "suppressed") {
        if find_guidance_item(doc, "suppressed", case).is_some() {
            let sup = calibrated_suppression(case, receipt);
            let ghost s0 = supps@;
            let ghost sv = suppression_view(sup);
            supps.push(sup);
            assert(supps@.map_values(|s: CalibratedSuppression| suppression_view(s)) =~= s0.map_values(
                |s: CalibratedSuppression| suppression_view(s),
            ).push(sv));
        } else {
            push_warning(
                warnings,
                text3(case.id.as_str(), " did not find suppressed item in ", case.source_artifact.as_str()),
            );
        }
    } else if str_eq(coll, "warnings") {
        if warning_matches(doc, case) {
            let sup = calibrated_suppression(case, receipt);
            let ghost s0 = supps@;
            let ghost sv = suppression_view(sup);
            supps.push(sup);
            assert(supps@.map_values(|s: CalibratedSuppression| suppression_view(s)) =~= s0.map_values(
                |s: CalibratedSuppression| suppression_view(s),
            ).push(sv));
        } else {
            push_warning(
                warnings,
                text3(case.id.as_str(), " did not find matching warning in ", case.source_artifact.as_str()),
            );
        }
    } else {
        push_warning(
            warnings,
            text4(case.id.as_str(), " uses unsupported source collection `", coll, "`"),
        );
    }
}

pub open spec fn display_opt(o: Option<String>) -> Option<Seq<char>> {
    match o {
        Some(p) => Some(path_text(p@)),
        None => None,
    }
}

fn display_opt_exec(o: &Option<String>) -> (r: Option<String>)
    ensures
        opt_view(r) == display_opt(*o),
{
    match o {
        Some(p) => Some(display_path(p.as_str())),
        None => None,
    }
}

/// Calibrates every expected case against the guidance inputs (read from
/// `guidance_paths`), the outcome receipts and the observed movement.
#[verifier::rlimit(60)]
pub fn build_recommendation_calibration_report(
    args: &RecommendationCalibrationArgs,
    expectations: &[ExpectedCase],
    guidance_inputs: Vec<GuidanceInput>,
    receipts: Vec<OutcomeReceipt>,
    movement: &MovementBySeam,
) -> (r: RecommendationCalibrationReport)
    requires
        expectations@.len() < usize::MAX,
    ensures
        state_of(r.recommendations@, r.suppressed@, r.warnings@) == calibration(
            expectations@,
            guidance_inputs@,
            receipts@,
            movement.view_map(),
        ),
        r.status@ == (if r.recommendations@.len() == 0 && r.suppressed@.len() == 0 {
            "incomplete"@
        } else {
            "advisory"@
        }),
        summary_of(r.summary, r.recommendations@, r.suppressed@),
        r.root@ == path_text(args.root@),
        views(r.inputs.pr_guidance@) == guidance_inputs@.map_values(|g: GuidanceInput| g.path@),
        opt_view(r.inputs.targeted_test_outcome) == display_opt(args.targeted_test_outcome),
        opt_view(r.inputs.agent_receipt) == display_opt(args.agent_receipt),
        r.inputs.calibration_expectations@ == path_text(args.expectations@),
        views(r.inputs.outcome_receipts@) == receipts@.map_values(|o: OutcomeReceipt| o.path@),
        r.latency == combined_latency(receipts@),
{
    let mut warnings: Vec<String> = Vec::new();
    let mut paths: Vec<String> = Vec::new();
    let mut i: usize = 0;
    assert(guidance_inputs@.take(0) =~= Seq::<GuidanceInput>::empty());
    while i < guidance_inputs.len()
        invariant
            i <= guidance_inputs@.len(),
            views(warnings@) == input_errors(guidance_inputs@.take(i as int)),
            views(paths@) == guidance_inputs@.take(i as int).map_values(|g: GuidanceInput| g.path@),
        decreases guidance_inputs.len() - i,
    {
        assert(guidance_inputs@.take(i + 1).drop_last() =~= guidance_inputs@.take(i as int));
        if let Some(e) = &guidance_inputs[i].error {
            push_warning(&mut warnings, owned(e.as_str()));
        }
        let ghost p0 = paths@;
        paths.push(owned(guidance_inputs[i].path.as_str()));
        assert(views(paths@) =~= views(p0).push(guidance_inputs@[i as int].path@));
        assert(guidance_inputs@.take(i + 1).map_values(|g: GuidanceInput| g.path@) =~= guidance_inputs@.take(
            i as int,
        ).map_values(|g: GuidanceInput| g.path@).push(guidance_inputs@[i as int].path@));
        i += 1;
    }
    assert(guidance_inputs@.take(guidance_inputs@.len() as int) =~= guidance_inputs@);
    let mut recs: Vec<CalibratedRecommendation> = Vec::new();
    let mut supps: Vec<CalibratedSuppression> = Vec::new();
    let ghost init = CalState { recs: seq![], supps: seq![], warnings: input_errors(guidance_inputs@) };
    assert(state_of(recs@, supps@, warnings@).recs =~= init.recs);
    assert(state_of(recs@, supps@, warnings@).supps =~= init.supps);
    let mut c: usize = 0;
    assert(expectations@.take(0) =~= Seq::<ExpectedCase>::empty());
    while c < expectations.len()
        invariant
            c <= expectations@.len() < usize::MAX,
            recs@.len() + supps@.len() <= c,
            init == (CalState { recs: seq![], supps: seq![], warnings: input_errors(guidance_inputs@) }),
            state_of(recs@, supps@, warnings@) == fold_cases(
                expectations@.take(c as int),
                init,
                guidance_inputs@,
                receipts@,
                movement.view_map(),
            ),
        decreases expectations.len() - c,
    {
        calibrate_case(&expectations[c], &guidance_inputs, &receipts, movement, &mut recs, &mut supps, &mut warnings);
        assert(expectations@.take(c + 1).drop_last() =~= expectations@.take(c as int));
        c += 1;
    }
    assert(expectations@.take(expectations@.len() as int) =~= expectations@);
    let summary = summarize_recommendation_calibration(recs.as_slice(), supps.as_slice());
    let status = if recs.len() == 0 && supps.len() == 0 {
        owned("incomplete")
    } else {
        owned("advisory")
    };
    let mut receipt_paths: Vec<String> = Vec::new();
    let mut j: usize = 0;
    while j < receipts.len()
        invariant
            j <= receipts@.len(),
            views(receipt_paths@) == receipts@.take(j as int).map_values(|o: OutcomeReceipt| o.path@),
        decreases receipts.len() - j,
    {
        let ghost q0 = receipt_paths@;
        receipt_paths.push(owned(receipts[j].path.as_str()));
        assert(views(receipt_paths@) =~= views(q0).push(receipts@[j as int].path@));
        assert(receipts@.take(j + 1).map_values(|o: OutcomeReceipt| o.path@) =~= receipts@.take(
            j as int,
        ).map_values(|o: OutcomeReceipt| o.path@).push(receipts@[j as int].path@));
        j += 1;
    }
    assert(receipts@.take(receipts@.len() as int) =~= receipts@);
    let latency = combine_latency(receipts.as_slice());
    RecommendationCalibrationReport {
        status,
        root: display_path(args.root.as_str()),
        inputs: RecommendationCalibrationInputs {
            pr_guidance: paths,
            targeted_test_outcome: display_opt_exec(&args.targeted_test_outcome),
            agent_receipt: display_opt_exec(&args.agent_receipt),
            calibration_expectations: display_path(args.expectations.as_str()),
            outcome_receipts: receipt_paths,
        },
        summary,
        latency,
        recommendations: recs,
        suppressed: supps,
        warnings,
    }
}

// ---------------------------------------------------------------------------
// Markdown
// ---------------------------------------------------------------------------

pub open spec fn limits_note() -> Seq<char> {
    "Advisory recommendation-quality evidence only; no telemetry, generated tests, source edits, runtime execution, or CI blocking."@
}

pub open spec fn metric_row(name: Seq<char>, n: usize) -> Seq<char> {
    "| "@ + name + " | "@ + decimal(n as nat) + " |\n"@
}

pub open spec fn summary_table(s: RecommendationCalibrationSummary) -> Seq<char> {
    "## Summary\n\n| Metric | Count |\n| --- | ---: |\n"@ + metric_row(
        "recommendations_evaluated"@,
        s.recommendations_evaluated,
    ) + metric_row("useful"@, s.useful) + metric_row("noisy"@, s.noisy) + metric_row(
        "false_annotations"@,
        s.false_annotations,
    ) + metric_row("summary_only_correct"@, s.summary_only_correct) + metric_row(
        "suppressed_correctly"@,
        s.suppressed_correctly,
    ) + metric_row("target_file_correct"@, s.target_file_correct) + metric_row(
        "static_improved"@,
        s.static_improved,
    ) + metric_row("static_unchanged"@, s.static_unchanged) + metric_row(
        "static_regressed"@,
        s.static_regressed,
    ) + "| unknown | "@ + decimal(s.unknown as nat) + " |\n\n"@
}

pub open spec fn placement_part(top: CalibratedRecommendation) -> Seq<char> {
    match top.placement.path {
        Some(p) => "- placement: `"@ + md_esc(p@) + "`:"@ + decimal(
            match top.placement.line {
                Some(l) => l as nat,
                None => 0nat,
            },
        ) + " `"@ + md_esc(or_text(opt_view(top.placement.mode), "unknown"@)) + "`\n"@,
        None => Seq::<char>::empty(),
    }
}

pub open spec fn suggestion_part(top: CalibratedRecommendation) -> Seq<char> {
    match top.suggested_test.recommended_file {
        Some(f) => "- suggested test: `"@ + md_esc(f@) + "` `"@ + md_esc(
            top.suggested_test.target_quality@,
        ) + "`\n"@,
        None => Seq::<char>::empty(),
    }
}

pub open spec fn top_block(top: CalibratedRecommendation) -> Seq<char> {
    "## Top Recommendation\n\n"@ + "- `"@ + md_esc(top.seam_id@) + "` `"@ + md_esc(
        top.placement.quality@,
    ) + "` `"@ + md_esc(top.outcome@) + "`\n"@ + placement_part(top) + "- why: "@ + md_esc(
        top.outcome_reason@,
    ) + "\n"@ + suggestion_part(top) + "- static movement: `"@ + md_esc(top.static_movement.state@)
        + "` from `"@ + md_esc(top.static_movement.source@) + "`\n\n"@
}

pub open spec fn rec_row(r: CalibratedRecommendation) -> Seq<char> {
    "| "@ + decimal(r.rank as nat) + " | `"@ + md_esc(r.seam_id@) + "` | `"@ + md_esc(
        r.source_case@,
    ) + "` | `"@ + md_esc(r.placement.quality@) + "` | `"@ + md_esc(r.outcome@) + "` | `"@
        + md_esc(r.suggested_test.target_quality@) + "` | `"@ + md_esc(r.static_movement.state@)
        + "` |\n"@
}

pub open spec fn supp_row(s: CalibratedSuppression) -> Seq<char> {
    "| `"@ + md_esc(s.seam_id@) + "` | `"@ + md_esc(s.reason@) + "` | `"@ + md_esc(s.quality@)
        + "` | `"@ + md_esc(s.outcome@) + "` |\n"@
}

pub open spec fn rec_section(r: RecommendationCalibrationReport) -> Seq<char> {
    if r.recommendations@.len() > 0 {
        "## Recommendations\n\n"@
            + "| Rank | Seam | Source | Placement | Outcome | Target | Movement |\n"@
            + "| ---: | --- | --- | --- | --- | --- | --- |\n"@ + concat_all(
            r.recommendations@.map_values(|x: CalibratedRecommendation| rec_row(x)),
        ) + "\n"@
    } else {
        Seq::<char>::empty()
    }
}

pub open spec fn supp_section(r: RecommendationCalibrationReport) -> Seq<char> {
    if r.suppressed@.len() > 0 {
        "## Suppressed\n\n"@ + "| Seam | Reason | Quality | Outcome |\n| --- | --- | --- | --- |\n"@
            + concat_all(r.suppressed@.map_values(|x: CalibratedSuppression| supp_row(x))) + "\n"@
    } else {
        Seq::<char>::empty()
    }
}

pub open spec fn warning_section(r: RecommendationCalibrationReport) -> Seq<char> {
    if r.warnings@.len() > 0 {
        "## Warnings\n\n"@ + concat_all(wrapped_md(views(r.warnings@), "- "@, "\n"@)) + "\n"@
    } else {
        Seq::<char>::empty()
    }
}

/// The Markdown rendering of a calibration report.
pub open spec fn calibration_markdown(r: RecommendationCalibrationReport) -> Seq<char> {
    "# Recommendation Calibration\n\n"@ + "Status: "@ + r.status@ + "\n\n"@ + summary_table(r.summary)
        + (if r.recommendations@.len() > 0 {
        top_block(r.recommendations@[0])
    } else {
        Seq::<char>::empty()
    }) + rec_section(r) + supp_section(r) + warning_section(r) + "## Limits\n\n"@ + limits_note()
        + "\n"@
}

fn push_metric(out: &mut String, name: &str, n: usize)
    ensures
        final(out)@ == old(out)@ + metric_row(name@, n),
{
    push_str(out, "| ");
    push_str(out, name);
    push_str(out, " | ");
    let t = usize_to_string(n);
    push_str(out, t.as_str());
    push_str(out, " |\n");
}

fn push_summary_table(out: &mut String, s: &RecommendationCalibrationSummary)
    ensures
        final(out)@ == old(out)@ + summary_table(*s),
{
    let ghost start = out@;
    push_str(out, "## Summary\n\n| Metric | Count |\n| --- | ---: |\n");
    push_metric(out, "recommendations_evaluated", s.recommendations_evaluated);
    push_metric(out, "useful", s.useful);
    push_metric(out, "noisy", s.noisy);
    push_metric(out, "false_annotations", s.false_annotations);
    push_metric(out, "summary_only_correct", s.summary_only_correct);
    push_metric(out, "suppressed_correctly", s.suppressed_correctly);
    push_metric(out, "target_file_correct", s.target_file_correct);
    push_metric(out, "static_improved", s.static_improved);
    push_metric(out, "static_unchanged", s.static_unchanged);
    push_metric(out, "static_regressed", s.static_regressed);
    push_str(out, "| unknown | ");
    let t = usize_to_string(s.unknown);
    push_str(out, t.as_str());
    push_str(out, " |\n\n");
    assert(out@ =~= start + summary_table(*s));
}

fn push_escaped(out: &mut String, v: &str)
    ensures
        final(out)@ == old(out)@ + md_esc(v@),
{
    let e = md_escape(v);
    push_str(out, e.as_str());
}

fn push_placement_part(out: &mut String, top: &CalibratedRecommendation)
    ensures
        final(out)@ == old(out)@ + placement_part(*top),
{
    let ghost start = out@;
    if let Some(path) = &top.placement.path {
        push_str(out, "- placement: `");
        push_escaped(out, path.as_str());
        push_str(out, "`:");
        let line = match top.placement.line {
            Some(l) => l,
            None => 0,
        };
        let t = usize_to_string(line);
        push_str(out, t.as_str());
        push_str(out, " `");
        let mode = or_text_exec(&top.placement.mode, "unknown");
        push_escaped(out, mode.as_str());
        push_str(out, "`\n");
    }
    assert(out@ =~= start + placement_part(*top));
}

fn push_suggestion_part(out: &mut String, top: &CalibratedRecommendation)
    ensures
        final(out)@ == old(out)@ + suggestion_part(*top),
{
    let ghost start = out@;
    if let Some(file) = &top.suggested_test.recommended_file {
        push_str(out, "- suggested test: `");
        push_escaped(out, file.as_str());
        push_str(out, "` `");
        push_escaped(out, top.suggested_test.target_quality.as_str());
        push_str(out, "`\n");
    }
    assert(out@ =~= start + suggestion_part(*top));
}

fn push_top_block(out: &mut String, top: &CalibratedRecommendation)
    ensures
        final(out)@ == old(out)@ + top_block(*top),
{
    let ghost start = out@;
    push_str(out, "## Top Recommendation\n\n");
    push_str(out, "- `");
    push_escaped(out, top.seam_id.as_str());
    push_str(out, "` `");
    push_escaped(out, top.placement.quality.as_str());
    push_str(out, "` `");
    push_escaped(out, top.outcome.as_str());
    push_str(out, "`\n");
    push_placement_part(out, top);
    push_str(out, "- why: ");
    push_escaped(out, top.outcome_reason.as_str());
    push_str(out, "\n");
    push_suggestion_part(out, top);
    push_str(out, "- static movement: `");
    push_escaped(out, top.static_movement.state.as_str());
    push_str(out, "` from `");
    push_escaped(out, top.static_movement.source.as_str());
    push_str(out, "`\n\n");
    assert(out@ =~= start + top_block(*top));
}

fn push_rec_row(out: &mut String, r: &CalibratedRecommendation)
    ensures
        final(out)@ == old(out)@ + rec_row(*r),
{
    let ghost start = out@;
    push_str(out, "| ");
    let t = usize_to_string(r.rank);
    push_str(out, t.as_str());
    push_str(out, " | `");
    push_escaped(out, r.seam_id.as_str());
    push_str(out, "` | `");
    push_escaped(out, r.source_case.as_str());
    push_str(out, "` | `");
    push_escaped(out, r.placement.quality.as_str());
    push_str(out, "` | `");
    push_escaped(out, r.outcome.as_str());
    push_str(out, "` | `");
    push_escaped(out, r.suggested_test.target_quality.as_str());
    push_str(out, "` | `");
    push_escaped(out, r.static_movement.state.as_str());
    push_str(out, "` |\n");
    assert(out@ =~= start + rec_row(*r));
}

fn push_supp_row(out: &mut String, s: &CalibratedSuppression)
    ensures
        final(out)@ == old(out)@ + supp_row(*s),
{
    let ghost start = out@;
    push_str(out, "| `");
    push_escaped(out, s.seam_id.as_str());
    push_str(out, "` | `");
    push_escaped(out, s.reason.as_str());
    push_str(out, "` | `");
    push_escaped(out, s.quality.as_str());
    push_str(out, "` | `");
    push_escaped(out, s.outcome.as_str());
    push_str(out, "` |\n");
    assert(out@ =~= start + supp_row(*s));
}

fn push_rec_rows(out: &mut String, recs: &Vec<CalibratedRecommendation>)
    ensures
        final(out)@ == old(out)@ + concat_all(
            recs@.map_values(|x: CalibratedRecommendation| rec_row(x)),
        ),
{
    let ghost head = out@;
    let ghost rows = recs@.map_values(|x: CalibratedRecommendation| rec_row(x));
    let mut i: usize = 0;
    assert(rows.take(0) =~= Seq::<Seq<char>>::empty());
    while i < recs.len()
        invariant
            i <= recs@.len(),
            rows == recs@.map_values(|x: CalibratedRecommendation| rec_row(x)),
            out@ == head + concat_all(rows.take(i as int)),
        decreases recs.len() - i,
    {
        push_rec_row(out, &recs[i]);
        assert(rows.take(i + 1).drop_last() =~= rows.take(i as int));
        i += 1;
    }
    assert(rows.take(recs@.len() as int) =~= rows);
}

fn push_supp_rows(out: &mut String, supps: &Vec<CalibratedSuppression>)
    ensures
        final(out)@ == old(out)@ + concat_all(
            supps@.map_values(|x: CalibratedSuppression| supp_row(x)),
        ),
{
    let ghost head = out@;
    let ghost rows = supps@.map_values(|x: CalibratedSuppression| supp_row(x));
    let mut i: usize = 0;
    assert(rows.take(0) =~= Seq::<Seq<char>>::empty());
    while i < supps.len()
        invariant
            i <= supps@.len(),
            rows == supps@.map_values(|x: CalibratedSuppression| supp_row(x)),
            out@ == head + concat_all(rows.take(i as int)),
        decreases supps.len() - i,
    {
        push_supp_row(out, &supps[i]);
        assert(rows.take(i + 1).drop_last() =~= rows.take(i as int));
        i += 1;
    }
    assert(rows.take(supps@.len() as int) =~= rows);
}

fn push_sections(out: &mut String, report: &RecommendationCalibrationReport)
    ensures
        final(out)@ == old(out)@ + rec_section(*report) + supp_section(*report) + warning_section(
            *report,
        ),
{
    let ghost start = out@;
    if report.recommendations.len() > 0 {
        push_str(out, "## Recommendations\n\n");
        push_str(out, "| Rank | Seam | Source | Placement | Outcome | Target | Movement |\n");
        push_str(out, "| ---: | --- | --- | --- | --- | --- | --- |\n");
        push_rec_rows(out, &report.recommendations);
        push_str(out, "\n");
    }
    assert(out@ =~= start + rec_section(*report));
    let ghost b = out@;
    if report.suppressed.len() > 0 {
        push_str(out, "## Suppressed\n\n");
        push_str(out, "| Seam | Reason | Quality | Outcome |\n| --- | --- | --- | --- |\n");
        push_supp_rows(out, &report.suppressed);
        push_str(out, "\n");
    }
    assert(out@ =~= b + supp_section(*report));
    let ghost c = out@;
    if report.warnings.len() > 0 {
        push_str(out, "## Warnings\n\n");
        push_wrapped_md_items(out, &report.warnings, "- ", "\n");
        push_str(out, "\n");
    }
    assert(out@ =~= c + warning_section(*report));
}

/// Renders the calibration report as Markdown.
pub fn recommendation_calibration_markdown(report: &RecommendationCalibrationReport) -> (r: String)
    ensures
        r@ == calibration_markdown(*report),
{
    let mut out = owned("# Recommendation Calibration\n\n");
    push_str(&mut out, "Status: ");
    push_str(&mut out, report.status.as_str());
    push_str(&mut out, "\n\n");
    push_summary_table(&mut out, &report.summary);
    let ghost a = out@;
    if report.recommendations.len() > 0 {
        push_top_block(&mut out, &report.recommendations[0]);
    }
    assert(out@ =~= a + (if report.recommendations@.len() > 0 {
        top_block(report.recommendations@[0])
    } else {
        Seq::<char>::empty()
    }));
    push_sections(&mut out, report);
    push_str(&mut out, "## Limits\n\n");
    push_str(
        &mut out,
        "Advisory recommendation-quality evidence only; no telemetry, generated tests, source edits, runtime execution, or CI blocking.",
    );
    push_str(&mut out, "\n");
    assert(out@ =~= calibration_markdown(*report));
    out
}

/// Every calibrated recommendation is ranked by its position: the `k`-th
/// recommendation has rank `k + 1`.
pub proof fn law_recommendations_are_ranked_in_order(
    cases: Seq<ExpectedCase>,
    inputs: Seq<GuidanceInput>,
    receipts: Seq<OutcomeReceipt>,
    mv: Map<Seq<char>, MovementView>,
    k: int,
)
    requires
        0 <= k < calibration(cases, inputs, receipts, mv).recs.len(),
    ensures
        calibration(cases, inputs, receipts, mv).recs[k].rank == k + 1,
    decreases cases.len(),
{
    lemma_ranks(cases, inputs, receipts, mv);
}

proof fn lemma_ranks(
    cases: Seq<ExpectedCase>,
    inputs: Seq<GuidanceInput>,
    receipts: Seq<OutcomeReceipt>,
    mv: Map<Seq<char>, MovementView>,
)
    ensures
        forall|k: int|
            0 <= k < calibration(cases, inputs, receipts, mv).recs.len() ==> (#[trigger] calibration(
                cases,
                inputs,
                receipts,
                mv,
            ).recs[k]).rank == k + 1,
    decreases cases.len(),
{
    if cases.len() > 0 {
        lemma_ranks(cases.drop_last(), inputs, receipts, mv);
    }
}


proof fn lemma_count_false_is_four_counts(os: Seq<Seq<char>>)
    ensures
        count_false(os) == count_eq(os, "noisy"@) + count_eq(os, "wrong_line"@) + count_eq(
            os,
            "already_covered"@,
        ) + count_eq(os, "wrong_target"@),
    decreases os.len(),
{
    reveal_strlit("noisy");
    reveal_strlit("wrong_line");
    reveal_strlit("already_covered");
    reveal_strlit("wrong_target");
    assert("noisy"@[0] != "wrong_line"@[0]);
    assert("noisy"@[0] != "already_covered"@[0]);
    assert("noisy"@[0] != "wrong_target"@[0]);
    assert("already_covered"@[0] != "wrong_line"@[0]);
    assert("already_covered"@[0] != "wrong_target"@[0]);
    assert("wrong_line"@.len() != "wrong_target"@.len());
    if os.len() > 0 {
        lemma_count_false_is_four_counts(os.drop_last());
    }
}

/// False annotations are exactly the recommendations and suppressions whose
/// outcome is `noisy`, `wrong_line`, `already_covered` or `wrong_target`:
/// the count is the sum of those four outcome counts.
pub proof fn law_false_annotations_count_the_four_outcomes(
    r: RecommendationCalibrationSummary,
    recommendations: Seq<CalibratedRecommendation>,
    suppressed: Seq<CalibratedSuppression>,
)
    requires
        summary_of(r, recommendations, suppressed),
    ensures
        r.false_annotations == outcome_count(recommendations, suppressed, "noisy"@) + outcome_count(
            recommendations,
            suppressed,
            "wrong_line"@,
        ) + outcome_count(recommendations, suppressed, "already_covered"@) + outcome_count(
            recommendations,
            suppressed,
            "wrong_target"@,
        ),
        r.false_annotations >= r.noisy,
{
    lemma_count_false_is_four_counts(rec_outcomes(recommendations));
    lemma_count_false_is_four_counts(supp_outcomes(suppressed));
}

} // verus!

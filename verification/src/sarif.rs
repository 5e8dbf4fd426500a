//! SARIF policy: compares current SARIF results against an optional
//! baseline and reports the new results at or above a configured level.

use vstd::prelude::*;
use crate::text::{
    owned, str_eq, str_starts_with, chars_of, push_str, concat, views, opt_view, md_esc,
    md_escape, concat_all, usize_to_string, decimal, contains, seq_less,
    lemma_seq_less_irreflexive, lemma_seq_less_transitive, lemma_seq_less_total,
};

verus! {

/// How new results are treated.
#[derive(Clone, Copy, Debug, PartialEq, Eq, Structural)]
pub enum SarifPolicyMode {
    Advisory,
    BaselineCheck,
    FailOnNewWarning,
}

pub open spec fn mode_name(m: SarifPolicyMode) -> Seq<char> {
    match m {
        SarifPolicyMode::Advisory => "advisory"@,
        SarifPolicyMode::BaselineCheck => "baseline-check"@,
        SarifPolicyMode::FailOnNewWarning => "fail-on-new-warning"@,
    }
}

pub open spec fn mode_from(v: Seq<char>) -> Option<SarifPolicyMode> {
    if v == "advisory"@ {
        Some(SarifPolicyMode::Advisory)
    } else if v == "baseline-check"@ {
        Some(SarifPolicyMode::BaselineCheck)
    } else if v == "fail-on-new-warning"@ {
        Some(SarifPolicyMode::FailOnNewWarning)
    } else {
        None
    }
}

impl SarifPolicyMode {
    /// The mode's command-line name.
    pub fn as_str(self) -> (r: &'static str)
        ensures
            r@ == mode_name(self),
    {
        match self {
            SarifPolicyMode::Advisory => "advisory",
            SarifPolicyMode::BaselineCheck => "baseline-check",
            SarifPolicyMode::FailOnNewWarning => "fail-on-new-warning",
        }
    }

    /// Parses a mode name.
    pub fn from_str(value: &str) -> (r: Option<Self>)
        ensures
            r == mode_from(value@),
    {
        if str_eq(value, "advisory") {
            Some(SarifPolicyMode::Advisory)
        } else if str_eq(value, "baseline-check") {
            Some(SarifPolicyMode::BaselineCheck)
        } else if str_eq(value, "fail-on-new-warning") {
            Some(SarifPolicyMode::FailOnNewWarning)
        } else {
            None
        }
    }
}

/// The lowest SARIF level that is compared.
#[derive(Clone, Copy, Debug, PartialEq, Eq, Structural)]
pub enum SarifPolicyThreshold {
    Warning,
    Note,
}

pub open spec fn threshold_name(t: SarifPolicyThreshold) -> Seq<char> {
    match t {
        SarifPolicyThreshold::Warning => "warning"@,
        SarifPolicyThreshold::Note => "note"@,
    }
}

pub open spec fn threshold_from(v: Seq<char>) -> Option<SarifPolicyThreshold> {
    if v == "warning"@ {
        Some(SarifPolicyThreshold::Warning)
    } else if v == "note"@ {
        Some(SarifPolicyThreshold::Note)
    } else {
        None
    }
}

/// Whether a result at `level` is compared under threshold `t`.
pub open spec fn threshold_includes(t: SarifPolicyThreshold, level: Seq<char>) -> bool {
    match t {
        SarifPolicyThreshold::Warning => level == "warning"@,
        SarifPolicyThreshold::Note => level == "warning"@ || level == "note"@,
    }
}

impl SarifPolicyThreshold {
    /// The threshold's command-line name.
    pub fn as_str(self) -> (r: &'static str)
        ensures
            r@ == threshold_name(self),
    {
        match self {
            SarifPolicyThreshold::Warning => "warning",
            SarifPolicyThreshold::Note => "note",
        }
    }

    /// Parses a threshold name.
    pub fn from_str(value: &str) -> (r: Option<Self>)
        ensures
            r == threshold_from(value@),
    {
        if str_eq(value, "warning") {
            Some(SarifPolicyThreshold::Warning)
        } else if str_eq(value, "note") {
            Some(SarifPolicyThreshold::Note)
        } else {
            None
        }
    }

    /// Whether a result at `level` is compared under this threshold.
    pub fn includes(self, level: &str) -> (r: bool)
        ensures
            r == threshold_includes(self, level@),
    {
        match self {
            SarifPolicyThreshold::Warning => str_eq(level, "warning"),
            SarifPolicyThreshold::Note => str_eq(level, "warning") || str_eq(level, "note"),
        }
    }
}

/// What a missing baseline means.
#[derive(Clone, Copy, Debug, PartialEq, Eq, Structural)]
pub enum SarifMissingBaseline {
    Advisory,
    Error,
}

pub open spec fn missing_baseline_from(v: Seq<char>) -> Option<SarifMissingBaseline> {
    if v == "advisory"@ {
        Some(SarifMissingBaseline::Advisory)
    } else if v == "error"@ {
        Some(SarifMissingBaseline::Error)
    } else {
        None
    }
}

impl SarifMissingBaseline {
    /// Parses a missing-baseline behavior.
    pub fn from_str(value: &str) -> (r: Option<Self>)
        ensures
            r == missing_baseline_from(value@),
    {
        if str_eq(value, "advisory") {
            Some(SarifMissingBaseline::Advisory)
        } else if str_eq(value, "error") {
            Some(SarifMissingBaseline::Error)
        } else {
            None
        }
    }
}

/// Parsed `sarif-policy` arguments.
#[derive(Clone, Debug)]
pub struct SarifPolicyArgs {
    pub current: String,
    pub baseline: Option<String>,
    pub mode: SarifPolicyMode,
    pub threshold: SarifPolicyThreshold,
    pub missing_baseline: SarifMissingBaseline,
}

pub open spec fn sarif_usage_text() -> Seq<char> {
    "usage: cargo xtask sarif-policy --current <path> [--baseline <path>] [--mode advisory|baseline-check|fail-on-new-warning] [--threshold warning|note] [--missing-baseline advisory|error]"@
}

/// The usage line of `sarif-policy`.
pub fn sarif_policy_usage() -> (r: String)
    ensures
        r@ == sarif_usage_text(),
{
    owned(
        "usage: cargo xtask sarif-policy --current <path> [--baseline <path>] [--mode advisory|baseline-check|fail-on-new-warning] [--threshold warning|note] [--missing-baseline advisory|error]",
    )
}

/// Parsed arguments as views: current, baseline, mode, threshold and
/// missing-baseline behavior.
pub type SarifArgsView = (
    Option<Seq<char>>,
    Option<Seq<char>>,
    SarifPolicyMode,
    SarifPolicyThreshold,
    SarifMissingBaseline,
);

pub open spec fn missing_value(arg: Seq<char>) -> Seq<char> {
    "missing value for `"@ + arg + "`\n"@ + sarif_usage_text()
}

/// How `sarif-policy` arguments parse from position `i` in state `st`.
pub open spec fn sarif_scan(args: Seq<Seq<char>>, i: int, st: SarifArgsView) -> Result<
    SarifArgsView,
    Seq<char>,
>
    decreases args.len() - i,
{
    if i < 0 || i >= args.len() {
        if st.0 is None {
            Err("sarif-policy requires `--current <path>`\n"@ + sarif_usage_text())
        } else {
            Ok(st)
        }
    } else {
        let arg = args[i];
        if arg == "--current"@ || arg == "--sarif"@ || arg == "--baseline"@ || arg == "--mode"@
            || arg == "--threshold"@ || arg == "--missing-baseline"@ {
            if i + 1 >= args.len() {
                Err(missing_value(arg))
            } else {
                let value = args[i + 1];
                if arg == "--current"@ || arg == "--sarif"@ {
                    sarif_scan(args, i + 2, (Some(value), st.1, st.2, st.3, st.4))
                } else if arg == "--baseline"@ {
                    sarif_scan(args, i + 2, (st.0, Some(value), st.2, st.3, st.4))
                } else if arg == "--mode"@ {
                    match mode_from(value) {
                        None => Err(
                            "unsupported SARIF policy mode `"@ + value
                                + "`; expected advisory, baseline-check, or fail-on-new-warning"@,
                        ),
                        Some(m) => sarif_scan(args, i + 2, (st.0, st.1, m, st.3, st.4)),
                    }
                } else if arg == "--threshold"@ {
                    match threshold_from(value) {
                        None => Err("unsupported SARIF policy threshold; expected warning or note"@),
                        Some(t) => sarif_scan(args, i + 2, (st.0, st.1, st.2, t, st.4)),
                    }
                } else {
                    match missing_baseline_from(value) {
                        None => Err(
                            "unsupported missing-baseline behavior; expected advisory or error"@,
                        ),
                        Some(b) => sarif_scan(args, i + 2, (st.0, st.1, st.2, st.3, b)),
                    }
                }
            }
        } else if arg == "--help"@ || arg == "-h"@ {
            Err(sarif_usage_text())
        } else if arg.len() > 0 && arg[0] == '-' {
            Err("unknown sarif-policy option `"@ + arg + "`\n"@ + sarif_usage_text())
        } else {
            Err("unexpected positional argument `"@ + arg + "`\n"@ + sarif_usage_text())
        }
    }
}

pub open spec fn sarif_args_view(a: SarifPolicyArgs) -> SarifArgsView {
    (Some(a.current@), opt_view(a.baseline), a.mode, a.threshold, a.missing_baseline)
}

pub open spec fn sarif_initial() -> SarifArgsView {
    (
        None,
        None,
        SarifPolicyMode::Advisory,
        SarifPolicyThreshold::Warning,
        SarifMissingBaseline::Advisory,
    )
}

fn missing_value_error(arg: &str) -> (r: String)
    ensures
        r@ == missing_value(arg@),
{
    let mut m = owned("missing value for `");
    push_str(&mut m, arg);
    push_str(&mut m, "`\n");
    let u = sarif_policy_usage();
    push_str(&mut m, u.as_str());
    m
}

/// Parses `sarif-policy` arguments: `--current` is required; mode,
/// threshold and missing-baseline behavior default to advisory, warning
/// and advisory.
pub fn parse_sarif_policy_args(args: &[String]) -> (r: Result<SarifPolicyArgs, String>)
    ensures
        match r {
            Ok(a) => sarif_scan(views(args@), 0, sarif_initial()) == Ok::<
                SarifArgsView,
                Seq<char>,
            >(sarif_args_view(a)),
            Err(e) => sarif_scan(views(args@), 0, sarif_initial()) == Err::<
                SarifArgsView,
                Seq<char>,
            >(e@),
        },
{
    let ghost a = views(args@);
    let mut current: Option<String> = None;
    let mut baseline: Option<String> = None;
    let mut mode = SarifPolicyMode::Advisory;
    let mut threshold = SarifPolicyThreshold::Warning;
    let mut missing_baseline = SarifMissingBaseline::Advisory;
    let mut index: usize = 0;
    while index < args.len()
        invariant
            a == views(args@),
            a.len() == args@.len(),
            sarif_scan(a, index as int, (opt_view(current), opt_view(baseline), mode, threshold, missing_baseline))
                == sarif_scan(a, 0, sarif_initial()),
        decreases args.len() - index,
    {
        let arg = args[index].as_str();
        assert(a[index as int] == arg@);
        let takes_value = str_eq(arg, "--current") || str_eq(arg, "--sarif") || str_eq(
            arg,
            "--baseline",
        ) || str_eq(arg, "--mode") || str_eq(arg, "--threshold") || str_eq(
            arg,
            "--missing-baseline",
        );
        if takes_value {
            if index + 1 >= args.len() {
                return Err(missing_value_error(arg));
            }
            let value = args[index + 1].as_str();
            assert(a[index + 1] == value@);
            if str_eq(arg, "--current") || str_eq(arg, "--sarif") {
                current = Some(owned(value));
            } else if str_eq(arg, "--baseline") {
                baseline = Some(owned(value));
            } else if str_eq(arg, "--mode") {
                match SarifPolicyMode::from_str(value) {
                    None => {
                        let mut m = owned("unsupported SARIF policy mode `");
                        push_str(&mut m, value);
                        push_str(
                            &mut m,
                            "`; expected advisory, baseline-check, or fail-on-new-warning",
                        );
                        return Err(m);
                    },
                    Some(parsed) => {
                        mode = parsed;
                    },
                }
            } else if str_eq(arg, "--threshold") {
                match SarifPolicyThreshold::from_str(value) {
                    None => {
                        return Err(
                            owned("unsupported SARIF policy threshold; expected warning or note"),
                        );
                    },
                    Some(parsed) => {
                        threshold = parsed;
                    },
                }
            } else {
                match SarifMissingBaseline::from_str(value) {
                    None => {
                        return Err(
                            owned(
                                "unsupported missing-baseline behavior; expected advisory or error",
                            ),
                        );
                    },
                    Some(parsed) => {
                        missing_baseline = parsed;
                    },
                }
            }
            index += 2;
        } else if str_eq(arg, "--help") || str_eq(arg, "-h") {
            return Err(sarif_policy_usage());
        } else if str_starts_with(arg, "-") {
            proof {
                reveal_strlit("-");
                assert(arg@.take(1) =~= "-"@);
                assert(arg@.take(1)[0] == arg@[0]);
            }
            let mut m = owned("unknown sarif-policy option `");
            push_str(&mut m, arg);
            push_str(&mut m, "`\n");
            let u = sarif_policy_usage();
            push_str(&mut m, u.as_str());
            return Err(m);
        } else {
            proof {
                reveal_strlit("-");
                if arg@.len() > 0 && arg@[0] == '-' {
                    assert(arg@.take(1) =~= "-"@);
                }
            }
            let mut m = owned("unexpected positional argument `");
            push_str(&mut m, arg);
            push_str(&mut m, "`\n");
            let u = sarif_policy_usage();
            push_str(&mut m, u.as_str());
            return Err(m);
        }
    }
    match current {
        None => {
            let mut m = owned("sarif-policy requires `--current <path>`\n");
            let u = sarif_policy_usage();
            push_str(&mut m, u.as_str());
            Err(m)
        },
        Some(current) => Ok(SarifPolicyArgs { current, baseline, mode, threshold, missing_baseline }),
    }
}

// ---------------------------------------------------------------------------
// The report
// ---------------------------------------------------------------------------

/// One SARIF result, keyed by `rule_id|fingerprint`.
#[derive(Clone, Debug, PartialEq, Eq)]
pub struct SarifPolicyResult {
    pub key: String,
    pub rule_id: String,
    pub level: String,
    pub fingerprint: String,
    pub uri: String,
    pub line: Option<usize>,
    pub message: String,
}

/// A result as plain values.
pub type SarifResultView = (
    Seq<char>,
    Seq<char>,
    Seq<char>,
    Seq<char>,
    Seq<char>,
    Option<usize>,
    Seq<char>,
);

pub open spec fn result_view(r: SarifPolicyResult) -> SarifResultView {
    (r.key@, r.rule_id@, r.level@, r.fingerprint@, r.uri@, r.line, r.message@)
}

pub open spec fn result_views(rs: Seq<SarifPolicyResult>) -> Seq<SarifResultView> {
    rs.map_values(|r: SarifPolicyResult| result_view(r))
}

impl SarifPolicyResult {
    /// A copy of this result.
    pub fn duplicate(&self) -> (r: Self)
        ensures
            result_view(r) == result_view(*self),
    {
        SarifPolicyResult {
            key: owned(self.key.as_str()),
            rule_id: owned(self.rule_id.as_str()),
            level: owned(self.level.as_str()),
            fingerprint: owned(self.fingerprint.as_str()),
            uri: owned(self.uri.as_str()),
            line: self.line,
            message: owned(self.message.as_str()),
        }
    }
}

/// The results compared under the threshold, in order.
pub open spec fn level_filter(rs: Seq<SarifResultView>, t: SarifPolicyThreshold) -> Seq<
    SarifResultView,
>
    decreases rs.len(),
{
    if rs.len() == 0 {
        seq![]
    } else {
        let rest = level_filter(rs.drop_last(), t);
        if threshold_includes(t, rs.last().2) {
            rest.push(rs.last())
        } else {
            rest
        }
    }
}

pub open spec fn has_key(rs: Seq<SarifResultView>, key: Seq<char>) -> bool {
    exists|j: int| 0 <= j < rs.len() && (#[trigger] rs[j]).0 == key
}

/// The results whose key does not occur among the baseline's, in order.
pub open spec fn not_in_baseline(rs: Seq<SarifResultView>, baseline: Seq<SarifResultView>) -> Seq<
    SarifResultView,
>
    decreases rs.len(),
{
    if rs.len() == 0 {
        seq![]
    } else {
        let rest = not_in_baseline(rs.drop_last(), baseline);
        if has_key(baseline, rs.last().0) {
            rest
        } else {
            rest.push(rs.last())
        }
    }
}

/// The results of `results` compared under `threshold`.
pub fn filtered_sarif_policy_results(
    results: &[SarifPolicyResult],
    threshold: SarifPolicyThreshold,
) -> (r: Vec<SarifPolicyResult>)
    ensures
        result_views(r@) == level_filter(result_views(results@), threshold),
{
    let ghost all = result_views(results@);
    let mut out: Vec<SarifPolicyResult> = Vec::new();
    let mut i: usize = 0;
    while i < results.len()
        invariant
            i <= results@.len(),
            all == result_views(results@),
            result_views(out@) == level_filter(all.take(i as int), threshold),
        decreases results.len() - i,
    {
        let ghost before = result_views(out@);
        assert(all.take(i + 1).drop_last() =~= all.take(i as int));
        assert(all.take(i + 1).last() == result_view(results@[i as int]));
        if threshold.includes(results[i].level.as_str()) {
            let copy = results[i].duplicate();
            out.push(copy);
            assert(result_views(out@) =~= before.push(result_view(results@[i as int])));
        }
        i += 1;
    }
    assert(all.take(results@.len() as int) =~= all);
    out
}

/// The outcome of one policy run.
#[derive(Clone, Debug, PartialEq, Eq)]
pub struct SarifPolicyReport {
    pub mode: SarifPolicyMode,
    pub threshold: SarifPolicyThreshold,
    pub status: String,
    pub current_path: String,
    pub baseline_path: Option<String>,
    pub baseline_missing: bool,
    pub current_results_total: usize,
    pub current_compared_results: usize,
    pub baseline_results_total: usize,
    pub baseline_compared_results: usize,
    pub new_results: Vec<SarifPolicyResult>,
}

/// The report status.
pub open spec fn sarif_status(
    mode: SarifPolicyMode,
    baseline_missing: bool,
    new_results: Seq<SarifResultView>,
) -> Seq<char> {
    if baseline_missing {
        "advisory_missing_baseline"@
    } else if new_results.len() == 0 {
        "pass"@
    } else if mode == SarifPolicyMode::FailOnNewWarning {
        "fail"@
    } else {
        "new_results"@
    }
}

pub open spec fn baseline_compared(
    baseline: Option<Seq<SarifResultView>>,
    threshold: SarifPolicyThreshold,
) -> Seq<SarifResultView> {
    match baseline {
        Some(b) => level_filter(b, threshold),
        None => seq![],
    }
}

/// The new results: the compared current results whose key the compared
/// baseline does not hold; none when the baseline is missing.
pub open spec fn new_results_spec(
    threshold: SarifPolicyThreshold,
    current: Seq<SarifResultView>,
    baseline: Option<Seq<SarifResultView>>,
    baseline_missing: bool,
) -> Seq<SarifResultView> {
    if baseline_missing {
        seq![]
    } else {
        not_in_baseline(level_filter(current, threshold), baseline_compared(baseline, threshold))
    }
}

pub open spec fn opt_results_view(b: Option<&[SarifPolicyResult]>) -> Option<Seq<SarifResultView>> {
    match b {
        Some(s) => Some(result_views(s@)),
        None => None,
    }
}

/// Compares the current results with the baseline under the threshold.
pub fn build_sarif_policy_report(
    mode: SarifPolicyMode,
    threshold: SarifPolicyThreshold,
    current_path: String,
    baseline_path: Option<String>,
    current_results: &[SarifPolicyResult],
    baseline_results: Option<&[SarifPolicyResult]>,
    baseline_missing: bool,
) -> (r: SarifPolicyReport)
    ensures
        r.mode == mode,
        r.threshold == threshold,
        r.current_path == current_path,
        r.baseline_path == baseline_path,
        r.baseline_missing == baseline_missing,
        r.current_results_total == current_results@.len(),
        r.current_compared_results == level_filter(result_views(current_results@), threshold).len(),
        r.baseline_results_total == match baseline_results {
            Some(b) => b@.len(),
            None => 0,
        },
        r.baseline_compared_results == baseline_compared(
            opt_results_view(baseline_results),
            threshold,
        ).len(),
        result_views(r.new_results@) == new_results_spec(
            threshold,
            result_views(current_results@),
            opt_results_view(baseline_results),
            baseline_missing,
        ),
        r.status@ == sarif_status(mode, baseline_missing, result_views(r.new_results@)),
{
    let current_compared = filtered_sarif_policy_results(current_results, threshold);
    let baseline_compared_v = match baseline_results {
        Some(results) => filtered_sarif_policy_results(results, threshold),
        None => Vec::new(),
    };
    let ghost base = result_views(baseline_compared_v@);
    assert(base == baseline_compared(opt_results_view(baseline_results), threshold));
    let mut new_results: Vec<SarifPolicyResult> = Vec::new();
    if !baseline_missing {
        let ghost cur = result_views(current_compared@);
        let mut i: usize = 0;
        while i < current_compared.len()
            invariant
                i <= current_compared@.len(),
                cur == result_views(current_compared@),
                base == result_views(baseline_compared_v@),
                result_views(new_results@) == not_in_baseline(cur.take(i as int), base),
            decreases current_compared.len() - i,
        {
            let ghost before = result_views(new_results@);
            assert(cur.take(i + 1).drop_last() =~= cur.take(i as int));
            assert(cur.take(i + 1).last() == result_view(current_compared@[i as int]));
            let key = current_compared[i].key.as_str();
            let mut found = false;
            let mut j: usize = 0;
            while j < baseline_compared_v.len()
                invariant
                    j <= baseline_compared_v@.len(),
                    base == result_views(baseline_compared_v@),
                    found == exists|m: int| 0 <= m < j && (#[trigger] base[m]).0 == key@,
                decreases baseline_compared_v.len() - j,
            {
                if str_eq(baseline_compared_v[j].key.as_str(), key) {
                    assert(base[j as int].0 == key@);
                    found = true;
                }
                j += 1;
            }
            assert(found == has_key(base, key@));
            if !found {
                let copy = current_compared[i].duplicate();
                new_results.push(copy);
                assert(result_views(new_results@) =~= before.push(
                    result_view(current_compared@[i as int]),
                ));
            }
            i += 1;
        }
        assert(cur.take(current_compared@.len() as int) =~= cur);
    }
    let status = if baseline_missing {
        "advisory_missing_baseline"
    } else if new_results.len() == 0 {
        "pass"
    } else if matches!(mode, SarifPolicyMode::FailOnNewWarning) {
        "fail"
    } else {
        "new_results"
    };
    let baseline_results_total = match baseline_results {
        Some(b) => b.len(),
        None => 0,
    };
    SarifPolicyReport {
        mode,
        threshold,
        status: owned(status),
        current_path,
        baseline_path,
        baseline_missing,
        current_results_total: current_results.len(),
        current_compared_results: current_compared.len(),
        baseline_results_total,
        baseline_compared_results: baseline_compared_v.len(),
        new_results,
    }
}

proof fn lemma_not_in_baseline_members(rs: Seq<SarifResultView>, baseline: Seq<SarifResultView>, k: int)
    requires
        0 <= k < not_in_baseline(rs, baseline).len(),
    ensures
        !has_key(baseline, not_in_baseline(rs, baseline)[k].0),
        exists|i: int| 0 <= i < rs.len() && rs[i] == #[trigger] not_in_baseline(rs, baseline)[k],
    decreases rs.len(),
{
    let rest = not_in_baseline(rs.drop_last(), baseline);
    if k < rest.len() {
        lemma_not_in_baseline_members(rs.drop_last(), baseline, k);
        let i = choose|i: int| 0 <= i < rs.drop_last().len() && rs.drop_last()[i] == #[trigger] rest[k];
        assert(rs[i] == rs.drop_last()[i]);
    } else {
        assert(rs[rs.len() - 1] == rs.last());
    }
}

proof fn lemma_level_filter_members(rs: Seq<SarifResultView>, t: SarifPolicyThreshold, k: int)
    requires
        0 <= k < level_filter(rs, t).len(),
    ensures
        threshold_includes(t, level_filter(rs, t)[k].2),
        exists|i: int| 0 <= i < rs.len() && rs[i] == #[trigger] level_filter(rs, t)[k],
    decreases rs.len(),
{
    let rest = level_filter(rs.drop_last(), t);
    if k < rest.len() {
        lemma_level_filter_members(rs.drop_last(), t, k);
        let i = choose|i: int| 0 <= i < rs.drop_last().len() && rs.drop_last()[i] == #[trigger] rest[k];
        assert(rs[i] == rs.drop_last()[i]);
    } else {
        assert(rs[rs.len() - 1] == rs.last());
    }
}

/// Every new result is a current result at or above the threshold whose key
/// the baseline's compared results do not hold.
pub proof fn law_new_results_are_unbaselined_current_results(
    threshold: SarifPolicyThreshold,
    current: Seq<SarifResultView>,
    baseline: Option<Seq<SarifResultView>>,
    baseline_missing: bool,
    k: int,
)
    requires
        0 <= k < new_results_spec(threshold, current, baseline, baseline_missing).len(),
    ensures
        !baseline_missing,
        threshold_includes(threshold, new_results_spec(threshold, current, baseline, baseline_missing)[k].2),
        !has_key(
            baseline_compared(baseline, threshold),
            new_results_spec(threshold, current, baseline, baseline_missing)[k].0,
        ),
        exists|i: int|
            0 <= i < current.len() && current[i] == #[trigger] new_results_spec(
                threshold,
                current,
                baseline,
                baseline_missing,
            )[k],
{
    let filtered = level_filter(current, threshold);
    let base = baseline_compared(baseline, threshold);
    lemma_not_in_baseline_members(filtered, base, k);
    let m = choose|m: int| 0 <= m < filtered.len() && filtered[m] == #[trigger] not_in_baseline(filtered, base)[k];
    lemma_level_filter_members(current, threshold, m);
}

/// A missing baseline never reports new results and never fails.
pub proof fn law_missing_baseline_is_advisory(
    mode: SarifPolicyMode,
    threshold: SarifPolicyThreshold,
    current: Seq<SarifResultView>,
    baseline: Option<Seq<SarifResultView>>,
)
    ensures
        new_results_spec(threshold, current, baseline, true).len() == 0,
        sarif_status(mode, true, new_results_spec(threshold, current, baseline, true))
            == "advisory_missing_baseline"@,
{
}

/// Comparing a result set against itself as baseline finds nothing new.
pub proof fn law_self_baseline_has_no_new_results(
    threshold: SarifPolicyThreshold,
    current: Seq<SarifResultView>,
)
    ensures
        new_results_spec(threshold, current, Some(current), false).len() == 0,
{
    let filtered = level_filter(current, threshold);
    if new_results_spec(threshold, current, Some(current), false).len() > 0 {
        lemma_not_in_baseline_members(filtered, filtered, 0);
        let m = choose|m: int| 0 <= m < filtered.len() && filtered[m] == #[trigger] not_in_baseline(filtered, filtered)[0];
        assert(filtered[m].0 == not_in_baseline(filtered, filtered)[0].0);
        assert(has_key(filtered, not_in_baseline(filtered, filtered)[0].0));
    }
}

// ---------------------------------------------------------------------------
// Markdown
// ---------------------------------------------------------------------------

pub open spec fn line_text(line: Option<usize>) -> Seq<char> {
    match line {
        Some(l) => decimal(l as nat),
        None => "?"@,
    }
}

pub open spec fn new_result_line(r: SarifPolicyResult) -> Seq<char> {
    "- `"@ + r.rule_id@ + "` `"@ + r.level@ + "` "@ + md_esc(r.uri@) + ":"@ + line_text(r.line)
        + " \u{2014} "@ + md_esc(r.message@) + "\n"@
}

/// The Markdown rendering of a SARIF policy report.
pub open spec fn sarif_markdown(r: SarifPolicyReport) -> Seq<char> {
    "# ripr SARIF policy report\n\n"@ + "Status: "@ + r.status@ + "\n\n"@ + "- mode: `"@
        + mode_name(r.mode) + "`\n"@ + "- threshold: `"@ + threshold_name(r.threshold) + "`\n"@
        + "- current: `"@ + md_esc(r.current_path@) + "`\n"@ + match r.baseline_path {
        Some(p) => "- baseline: `"@ + md_esc(p@) + "`\n"@,
        None => "- baseline: not provided\n"@,
    } + "- current compared results: "@ + decimal(r.current_compared_results as nat) + "\n"@
        + "- baseline compared results: "@ + decimal(r.baseline_compared_results as nat) + "\n"@
        + if r.baseline_missing {
        "\nBaseline is missing; this is advisory unless `--missing-baseline error` is set.\n"@
    } else if r.new_results@.len() == 0 {
        "\nNo new configured-threshold SARIF results were detected.\n"@
    } else {
        "\n## New results\n\n"@ + concat_all(
            r.new_results@.map_values(|x: SarifPolicyResult| new_result_line(x)),
        )
    }
}

fn push_new_result_line(out: &mut String, r: &SarifPolicyResult)
    ensures
        final(out)@ == old(out)@ + new_result_line(*r),
{
    let ghost start = out@;
    push_str(out, "- `");
    push_str(out, r.rule_id.as_str());
    push_str(out, "` `");
    push_str(out, r.level.as_str());
    push_str(out, "` ");
    let u = md_escape(r.uri.as_str());
    push_str(out, u.as_str());
    push_str(out, ":");
    match r.line {
        Some(l) => {
            let t = usize_to_string(l);
            push_str(out, t.as_str());
        },
        None => push_str(out, "?"),
    }
    push_str(out, " \u{2014} ");
    let msg = md_escape(r.message.as_str());
    push_str(out, msg.as_str());
    push_str(out, "\n");
    assert(out@ =~= start + new_result_line(*r));
}

/// Renders the SARIF policy report as Markdown.
pub fn sarif_policy_report_markdown(report: &SarifPolicyReport) -> (r: String)
    ensures
        r@ == sarif_markdown(*report),
{
    let mut out = owned("# ripr SARIF policy report\n\n");
    push_str(&mut out, "Status: ");
    push_str(&mut out, report.status.as_str());
    push_str(&mut out, "\n\n");
    push_str(&mut out, "- mode: `");
    push_str(&mut out, report.mode.as_str());
    push_str(&mut out, "`\n");
    push_str(&mut out, "- threshold: `");
    push_str(&mut out, report.threshold.as_str());
    push_str(&mut out, "`\n");
    push_str(&mut out, "- current: `");
    let c = md_escape(report.current_path.as_str());
    push_str(&mut out, c.as_str());
    push_str(&mut out, "`\n");
    match &report.baseline_path {
        Some(path) => {
            push_str(&mut out, "- baseline: `");
            let p = md_escape(path.as_str());
            push_str(&mut out, p.as_str());
            push_str(&mut out, "`\n");
        },
        None => push_str(&mut out, "- baseline: not provided\n"),
    }
    push_str(&mut out, "- current compared results: ");
    let n = usize_to_string(report.current_compared_results);
    push_str(&mut out, n.as_str());
    push_str(&mut out, "\n");
    push_str(&mut out, "- baseline compared results: ");
    let m = usize_to_string(report.baseline_compared_results);
    push_str(&mut out, m.as_str());
    push_str(&mut out, "\n");
    let ghost head = out@;
    if report.baseline_missing {
        push_str(
            &mut out,
            "\nBaseline is missing; this is advisory unless `--missing-baseline error` is set.\n",
        );
        assert(out@ =~= sarif_markdown(*report));
        return out;
    }
    if report.new_results.len() == 0 {
        push_str(&mut out, "\nNo new configured-threshold SARIF results were detected.\n");
        assert(out@ =~= sarif_markdown(*report));
        return out;
    }
    push_str(&mut out, "\n## New results\n\n");
    let ghost head2 = out@;
    let ghost lines = report.new_results@.map_values(|x: SarifPolicyResult| new_result_line(x));
    let mut i: usize = 0;
    assert(lines.take(0) =~= Seq::<Seq<char>>::empty());
    while i < report.new_results.len()
        invariant
            i <= report.new_results@.len(),
            lines == report.new_results@.map_values(|x: SarifPolicyResult| new_result_line(x)),
            out@ == head2 + concat_all(lines.take(i as int)),
        decreases report.new_results.len() - i,
    {
        push_new_result_line(&mut out, &report.new_results[i]);
        assert(lines.take(i + 1).drop_last() =~= lines.take(i as int));
        assert(lines[i as int] == new_result_line(report.new_results@[i as int]));
        i += 1;
    }
    assert(lines.take(report.new_results@.len() as int) =~= lines);
    assert(out@ =~= sarif_markdown(*report));
    out
}

// ---------------------------------------------------------------------------
// Reading results
// ---------------------------------------------------------------------------

/// What the policy reads of one SARIF result.
#[derive(Clone, Debug, PartialEq, Eq)]
pub struct SarifResultFacts {
    /// Whether the result lists a suppression.
    pub suppressed: bool,
    pub rule_id: Option<String>,
    pub level: Option<String>,
    /// `partialFingerprints.riprFingerprintV1`, when a string.
    pub ripr_fingerprint: Option<String>,
    /// The first string among the partial fingerprints, in key order.
    pub first_fingerprint: Option<String>,
    /// The artifact URI of the first location.
    pub uri: Option<String>,
    /// The first location's URI (`unknown` when absent), as a normalized
    /// path.
    pub normalized_uri: String,
    /// The start line of the first location.
    pub line: Option<usize>,
    pub message: Option<String>,
}

pub open spec fn text_or(o: Option<String>, d: Seq<char>) -> Seq<char> {
    match o {
        Some(s) => s@,
        None => d,
    }
}

/// The fingerprint of a result: ripr's own, else the first partial
/// fingerprint, else `path|line|message`.
pub open spec fn fact_fingerprint(f: SarifResultFacts) -> Seq<char> {
    match f.ripr_fingerprint {
        Some(x) => x@,
        None => match f.first_fingerprint {
            Some(x) => x@,
            None => f.normalized_uri@ + "|"@ + decimal(
                match f.line {
                    Some(l) => l as nat,
                    None => 0,
                },
            ) + "|"@ + text_or(f.message, seq![]),
        },
    }
}

/// The result read from its facts.
pub open spec fn fact_result(f: SarifResultFacts) -> SarifResultView {
    let rule_id = text_or(f.rule_id, "unknown"@);
    let fingerprint = fact_fingerprint(f);
    (
        rule_id + "|"@ + fingerprint,
        rule_id,
        text_or(f.level, "warning"@),
        fingerprint,
        text_or(f.uri, "unknown"@),
        f.line,
        text_or(f.message, "ripr SARIF result"@),
    )
}

/// `x` placed in the key-sorted `r`; when `r` already has `x`'s key, the
/// earlier result stays.
pub open spec fn insert_by_key(r: Seq<SarifResultView>, x: SarifResultView) -> Seq<SarifResultView>
    decreases r.len(),
{
    if r.len() == 0 {
        seq![x]
    } else if r[0].0 == x.0 {
        r
    } else if seq_less(x.0, r[0].0) {
        seq![x] + r
    } else {
        seq![r[0]] + insert_by_key(r.drop_first(), x)
    }
}

/// The unsuppressed results sorted by key, keeping the first of each key
/// (a stable sort followed by removing repeated keys).
pub open spec fn sorted_results(facts: Seq<SarifResultFacts>) -> Seq<SarifResultView>
    decreases facts.len(),
{
    if facts.len() == 0 {
        seq![]
    } else if facts.last().suppressed {
        sorted_results(facts.drop_last())
    } else {
        insert_by_key(sorted_results(facts.drop_last()), fact_result(facts.last()))
    }
}

proof fn lemma_insert_by_key_at(r: Seq<SarifResultView>, x: SarifResultView, i: int)
    requires
        0 <= i <= r.len(),
        forall|j: int| 0 <= j < i ==> (#[trigger] r[j]).0 != x.0 && !seq_less(x.0, r[j].0),
    ensures
        insert_by_key(r, x) == r.take(i) + insert_by_key(r.skip(i), x),
    decreases i,
{
    if i == 0 {
        assert(r.skip(0) =~= r);
        assert(r.take(0) + insert_by_key(r.skip(0), x) =~= insert_by_key(r, x));
    } else {
        let t = r.drop_first();
        assert forall|j: int| 0 <= j < i - 1 implies (#[trigger] t[j]).0 != x.0 && !seq_less(
            x.0,
            t[j].0,
        ) by {
            assert(t[j] == r[j + 1]);
        }
        lemma_insert_by_key_at(t, x, i - 1);
        assert(r[0].0 != x.0 && !seq_less(x.0, r[0].0));
        assert(t.skip(i - 1) =~= r.skip(i));
        assert(seq![r[0]] + t.take(i - 1) =~= r.take(i));
        assert(seq![r[0]] + (t.take(i - 1) + insert_by_key(r.skip(i), x)) =~= r.take(i)
            + insert_by_key(r.skip(i), x));
    }
}

fn insert_result(r: &mut Vec<SarifPolicyResult>, x: SarifPolicyResult)
    ensures
        result_views(final(r)@) == insert_by_key(result_views(old(r)@), result_view(x)),
{
    let ghost v = result_views(r@);
    let ghost xv = result_view(x);
    let mut i: usize = 0;
    while i < r.len() && !str_eq(r[i].key.as_str(), x.key.as_str()) && !crate::text::str_less(
        x.key.as_str(),
        r[i].key.as_str(),
    )
        invariant
            i <= r@.len(),
            v == result_views(r@),
            xv == result_view(x),
            v.len() == r@.len(),
            forall|j: int| 0 <= j < i ==> (#[trigger] v[j]).0 != xv.0 && !seq_less(xv.0, v[j].0),
        decreases r.len() - i,
    {
        assert(v[i as int] == result_view(r@[i as int]));
        i += 1;
    }
    proof {
        lemma_insert_by_key_at(v, xv, i as int);
    }
    if i < r.len() {
        assert(v.skip(i as int)[0] == v[i as int]);
        assert(v[i as int] == result_view(r@[i as int]));
        if str_eq(r[i].key.as_str(), x.key.as_str()) {
            assert(insert_by_key(v.skip(i as int), xv) == v.skip(i as int));
            assert(v.take(i as int) + v.skip(i as int) =~= v);
            return;
        }
        assert(insert_by_key(v.skip(i as int), xv) == seq![xv] + v.skip(i as int));
        let ghost before = r@;
        r.insert(i, x);
        assert(r@ == before.insert(i as int, x));
        assert(result_views(r@) =~= v.take(i as int) + (seq![xv] + v.skip(i as int)));
    } else {
        r.push(x);
        assert(v.skip(i as int) =~= Seq::<SarifResultView>::empty());
        assert(insert_by_key(v.skip(i as int), xv) == seq![xv]);
        assert(result_views(r@) =~= v.take(i as int) + seq![xv]);
    }
}

fn text_or_exec(o: &Option<String>, d: &str) -> (r: String)
    ensures
        r@ == text_or(*o, d@),
{
    match o {
        Some(s) => owned(s.as_str()),
        None => owned(d),
    }
}

fn read_result(f: &SarifResultFacts) -> (r: SarifPolicyResult)
    ensures
        result_view(r) == fact_result(*f),
{
    let rule_id = text_or_exec(&f.rule_id, "unknown");
    let fingerprint = match &f.ripr_fingerprint {
        Some(x) => owned(x.as_str()),
        None => match &f.first_fingerprint {
            Some(x) => owned(x.as_str()),
            None => {
                let mut t = owned(f.normalized_uri.as_str());
                push_str(&mut t, "|");
                let line = match f.line {
                    Some(l) => l,
                    None => 0,
                };
                let digits = usize_to_string(line);
                push_str(&mut t, digits.as_str());
                push_str(&mut t, "|");
                match &f.message {
                    Some(m) => push_str(&mut t, m.as_str()),
                    None => {},
                }
                assert(t@ =~= fact_fingerprint(*f));
                t
            },
        },
    };
    let mut key = owned(rule_id.as_str());
    push_str(&mut key, "|");
    push_str(&mut key, fingerprint.as_str());
    SarifPolicyResult {
        key,
        rule_id,
        level: text_or_exec(&f.level, "warning"),
        fingerprint,
        uri: text_or_exec(&f.uri, "unknown"),
        line: f.line,
        message: text_or_exec(&f.message, "ripr SARIF result"),
    }
}

/// The policy's results: the unsuppressed ones, sorted by key, the first of
/// each key kept.
pub fn parse_sarif_policy_results(facts: &Vec<SarifResultFacts>) -> (r: Vec<SarifPolicyResult>)
    ensures
        result_views(r@) == sorted_results(facts@),
{
    let mut out: Vec<SarifPolicyResult> = Vec::new();
    let mut i: usize = 0;
    assert(facts@.take(0) =~= Seq::<SarifResultFacts>::empty());
    while i < facts.len()
        invariant
            i <= facts@.len(),
            result_views(out@) == sorted_results(facts@.take(i as int)),
        decreases facts.len() - i,
    {
        assert(facts@.take(i + 1).drop_last() =~= facts@.take(i as int));
        assert(facts@.take(i + 1).last() == facts@[i as int]);
        if !facts[i].suppressed {
            let x = read_result(&facts[i]);
            insert_result(&mut out, x);
        }
        i += 1;
    }
    assert(facts@.take(facts@.len() as int) =~= facts@);
    out
}


/// Keys strictly increase along `r`.
pub open spec fn keys_increase(r: Seq<SarifResultView>) -> bool {
    forall|i: int, j: int| #![trigger r[i], r[j]] 0 <= i < j < r.len() ==> seq_less(r[i].0, r[j].0)
}

proof fn lemma_insert_keeps_lower_bound(r: Seq<SarifResultView>, x: SarifResultView, lo: Seq<char>)
    requires
        forall|j: int| 0 <= j < r.len() ==> seq_less(lo, (#[trigger] r[j]).0),
        seq_less(lo, x.0),
    ensures
        forall|k: int|
            0 <= k < insert_by_key(r, x).len() ==> seq_less(lo, (#[trigger] insert_by_key(r, x)[k]).0),
    decreases r.len(),
{
    if r.len() == 0 || r[0].0 == x.0 || seq_less(x.0, r[0].0) {
    } else {
        let t = r.drop_first();
        assert forall|j: int| 0 <= j < t.len() implies seq_less(lo, (#[trigger] t[j]).0) by {
            assert(t[j] == r[j + 1]);
        }
        lemma_insert_keeps_lower_bound(t, x, lo);
        let ins = insert_by_key(r, x);
        assert(ins == seq![r[0]] + insert_by_key(t, x));
        assert forall|k: int| 0 <= k < ins.len() implies seq_less(lo, (#[trigger] ins[k]).0) by {
            if k > 0 {
                assert(ins[k] == insert_by_key(t, x)[k - 1]);
            }
        }
    }
}

proof fn lemma_insert_keeps_order(r: Seq<SarifResultView>, x: SarifResultView)
    requires
        keys_increase(r),
    ensures
        keys_increase(insert_by_key(r, x)),
    decreases r.len(),
{
    let ins = insert_by_key(r, x);
    if r.len() == 0 || r[0].0 == x.0 {
    } else if seq_less(x.0, r[0].0) {
        assert(ins == seq![x] + r);
        assert forall|i: int, j: int| #![trigger ins[i], ins[j]] 0 <= i < j < ins.len() implies seq_less(
            ins[i].0,
            ins[j].0,
        ) by {
            if i == 0 {
                assert(ins[j] == r[j - 1]);
                if j - 1 > 0 {
                    assert(seq_less(r[0].0, r[j - 1].0));
                    lemma_seq_less_transitive(x.0, r[0].0, r[j - 1].0);
                }
            } else {
                assert(ins[i] == r[i - 1] && ins[j] == r[j - 1]);
            }
        }
    } else {
        let t = r.drop_first();
        assert forall|i: int, j: int| #![trigger t[i], t[j]] 0 <= i < j < t.len() implies seq_less(
            t[i].0,
            t[j].0,
        ) by {
            assert(t[i] == r[i + 1] && t[j] == r[j + 1]);
        }
        lemma_insert_keeps_order(t, x);
        assert forall|j: int| 0 <= j < t.len() implies seq_less(r[0].0, (#[trigger] t[j]).0) by {
            assert(t[j] == r[j + 1]);
        }
        lemma_seq_less_total(x.0, r[0].0);
        lemma_insert_keeps_lower_bound(t, x, r[0].0);
        let it = insert_by_key(t, x);
        assert(ins == seq![r[0]] + it);
        assert forall|i: int, j: int| #![trigger ins[i], ins[j]] 0 <= i < j < ins.len() implies seq_less(
            ins[i].0,
            ins[j].0,
        ) by {
            assert(ins[j] == it[j - 1]);
            if i > 0 {
                assert(ins[i] == it[i - 1]);
            }
        }
    }
}

proof fn lemma_sorted_results_increase(facts: Seq<SarifResultFacts>)
    ensures
        keys_increase(sorted_results(facts)),
    decreases facts.len(),
{
    if facts.len() > 0 {
        lemma_sorted_results_increase(facts.drop_last());
        if !facts.last().suppressed {
            lemma_insert_keeps_order(sorted_results(facts.drop_last()), fact_result(facts.last()));
        }
    }
}

proof fn lemma_insert_has_keys(r: Seq<SarifResultView>, x: SarifResultView, key: Seq<char>)
    requires
        key == x.0 || has_key(r, key),
    ensures
        has_key(insert_by_key(r, x), key),
    decreases r.len(),
{
    let ins = insert_by_key(r, x);
    if r.len() == 0 {
        assert(ins[0] == x);
    } else if r[0].0 == x.0 {
        if key == x.0 {
            assert(ins[0] == r[0]);
        }
    } else if seq_less(x.0, r[0].0) {
        if key == x.0 {
            assert(ins[0] == x);
        } else {
            let j = choose|j: int| 0 <= j < r.len() && (#[trigger] r[j]).0 == key;
            assert(ins[j + 1] == r[j]);
        }
    } else {
        let t = r.drop_first();
        let it = insert_by_key(t, x);
        assert(ins == seq![r[0]] + it);
        if key != x.0 && r[0].0 == key {
            assert(ins[0] == r[0]);
        } else {
            if key != x.0 {
                let j = choose|j: int| 0 <= j < r.len() && (#[trigger] r[j]).0 == key;
                assert(t[j - 1] == r[j]);
            }
            lemma_insert_has_keys(t, x, key);
            let k = choose|k: int| 0 <= k < it.len() && (#[trigger] it[k]).0 == key;
            assert(ins[k + 1] == it[k]);
        }
    }
}

proof fn lemma_sorted_results_keep_keys(facts: Seq<SarifResultFacts>, k: int)
    requires
        0 <= k < facts.len(),
        !facts[k].suppressed,
    ensures
        has_key(sorted_results(facts), fact_result(facts[k]).0),
    decreases facts.len(),
{
    let rest = facts.drop_last();
    let key = fact_result(facts[k]).0;
    if k == facts.len() - 1 {
        lemma_insert_has_keys(sorted_results(rest), fact_result(facts.last()), key);
    } else {
        assert(rest[k] == facts[k]);
        lemma_sorted_results_keep_keys(rest, k);
        if !facts.last().suppressed {
            lemma_insert_has_keys(sorted_results(rest), fact_result(facts.last()), key);
        }
    }
}

/// The parsed policy results come out ordered by key, and no key occurs
/// twice.
pub proof fn law_policy_results_are_ordered_by_unique_key(facts: Seq<SarifResultFacts>)
    ensures
        keys_increase(sorted_results(facts)),
        forall|i: int, j: int|
            #![trigger sorted_results(facts)[i], sorted_results(facts)[j]]
            0 <= i < j < sorted_results(facts).len() ==> sorted_results(facts)[i].0 != sorted_results(facts)[j].0,
{
    let r = sorted_results(facts);
    lemma_sorted_results_increase(facts);
    assert forall|i: int, j: int| #![trigger r[i], r[j]] 0 <= i < j < r.len() implies r[i].0 != r[j].0 by {
        lemma_seq_less_irreflexive(r[i].0);
    }
}

/// Every unsuppressed result's key is among the parsed policy results.
pub proof fn law_unsuppressed_results_are_kept(facts: Seq<SarifResultFacts>, k: int)
    requires
        0 <= k < facts.len(),
        !facts[k].suppressed,
    ensures
        has_key(sorted_results(facts), fact_result(facts[k]).0),
{
    lemma_sorted_results_keep_keys(facts, k);
}


/// How the policy run ends once its reports are written: an error when the
/// baseline is missing and a missing baseline is an error, an error naming
/// the count of new results in `fail-on-new-warning` mode when there are
/// any, and success otherwise.
pub fn sarif_policy_exit(report: &SarifPolicyReport, missing_baseline: SarifMissingBaseline) -> (r:
    Result<(), String>)
    ensures
        report.baseline_missing && missing_baseline == SarifMissingBaseline::Error ==> (r matches Err(
            e,
        ) && e@ == "SARIF policy baseline is missing"@),
        !(report.baseline_missing && missing_baseline == SarifMissingBaseline::Error) && report.mode
            == SarifPolicyMode::FailOnNewWarning && report.new_results@.len() > 0 ==> (r matches Err(
            e,
        ) && e@ == "SARIF policy found "@ + decimal(report.new_results@.len()) + " new "@
            + threshold_name(report.threshold) + " result(s)"@),
        !(report.baseline_missing && missing_baseline == SarifMissingBaseline::Error) && !(
        report.mode == SarifPolicyMode::FailOnNewWarning && report.new_results@.len() > 0) ==> r is Ok,
{
    if report.baseline_missing && missing_baseline == SarifMissingBaseline::Error {
        return Err(owned("SARIF policy baseline is missing"));
    }
    if report.mode == SarifPolicyMode::FailOnNewWarning && report.new_results.len() > 0 {
        let mut e = owned("SARIF policy found ");
        push_str(&mut e, usize_to_string(report.new_results.len()).as_str());
        push_str(&mut e, " new ");
        push_str(&mut e, report.threshold.as_str());
        push_str(&mut e, " result(s)");
        return Err(e);
    }
    Ok(())
}


/// Thresholds nest: every level compared under `warning` is also compared
/// under `note`; `warning` compares warnings, `note` also compares notes,
/// and no other level is ever compared.
pub proof fn law_thresholds_nest(level: Seq<char>)
    ensures
        threshold_includes(SarifPolicyThreshold::Warning, level) ==> threshold_includes(
            SarifPolicyThreshold::Note,
            level,
        ),
        threshold_includes(SarifPolicyThreshold::Warning, "warning"@),
        threshold_includes(SarifPolicyThreshold::Note, "warning"@),
        threshold_includes(SarifPolicyThreshold::Note, "note"@),
        !threshold_includes(SarifPolicyThreshold::Warning, "note"@),
        forall|t: SarifPolicyThreshold| #[trigger] threshold_includes(t, level) ==> level == "warning"@ || level == "note"@,
{
    reveal_strlit("warning");
    reveal_strlit("note");
    assert("warning"@[0] != "note"@[0]);
}

} // verus!

//! The verdicts of the release readiness gates. Each gate runs outside
//! commands; what it concludes from their outcomes is decided here.

use vstd::prelude::*;
use crate::release::{
    CommandResult, ReleaseReadinessCheck, command_details, command_details_spec, readiness_check,
    missing_needles, missing_required_needles, first_screen_needles, release_loop_needles,
};
use crate::text::{owned, str_eq, str_contains, push_str, views, concat, contains, push_joined, join, opt_view};

verus! {

/// The check has exactly these fields.
pub open spec fn check_is(
    c: ReleaseReadinessCheck,
    id: Seq<char>,
    status: Seq<char>,
    required: bool,
    command: Seq<char>,
    summary: Seq<char>,
    artifacts: Seq<Seq<char>>,
    details: Seq<Seq<char>>,
) -> bool {
    &&& c.id@ == id
    &&& c.status@ == status
    &&& c.required == required
    &&& c.command@ == command
    &&& c.summary@ == summary
    &&& views(c.artifacts@) == artifacts
    &&& views(c.details@) == details
}

fn check_of(
    id: &str,
    status: &str,
    required: bool,
    command: &str,
    summary: &str,
    artifacts: Vec<String>,
    details: Vec<String>,
) -> (r: ReleaseReadinessCheck)
    ensures
        check_is(r, id@, status@, required, command@, summary@, views(artifacts@), views(details@)),
{
    readiness_check(id, status, required, command, summary, artifacts, details)
}

fn one(s: String) -> (r: Vec<String>)
    ensures
        views(r@) == seq![s@],
{
    let mut v: Vec<String> = Vec::new();
    v.push(s);
    assert(views(v@) =~= seq![s@]);
    v
}

fn none() -> (r: Vec<String>)
    ensures
        views(r@) == Seq::<Seq<char>>::empty(),
{
    let v: Vec<String> = Vec::new();
    assert(views(v@) =~= Seq::<Seq<char>>::empty());
    v
}

// ---------------------------------------------------------------------------
// Version-gated release commands
// ---------------------------------------------------------------------------

pub open spec fn version_mismatch_detail(version: Seq<char>, crate_version: Seq<char>) -> Seq<char> {
    "requested version: "@ + version + "; crates/ripr version: "@ + crate_version
}

pub open spec fn unreadable_version_summary() -> Seq<char> {
    "crate version could not be read; release-prep should run this gate explicitly"@
}

pub open spec fn version_not_bumped_summary() -> Seq<char> {
    "requested release version does not match the crate version yet"@
}

/// The verdict of a version-gated release command on its outcome.
pub open spec fn gate_run_is(c: ReleaseReadinessCheck, id: Seq<char>, command: Seq<char>, out: Result<CommandResult, String>) -> bool {
    match out {
        Ok(result) => if result.success {
            check_is(c, id, "pass"@, true, command, "release gate passed"@, seq![], command_details_spec(result))
        } else {
            check_is(c, id, "fail"@, true, command, "release gate failed"@, seq![], command_details_spec(result))
        },
        Err(e) => check_is(c, id, "fail"@, true, command, "release gate could not run"@, seq![], seq![e@]),
    }
}

fn version_detail(version: &str, crate_version: &str) -> (r: String)
    ensures
        r@ == version_mismatch_detail(version@, crate_version@),
{
    let mut m = concat("requested version: ", version);
    push_str(&mut m, "; crates/ripr version: ");
    push_str(&mut m, crate_version);
    m
}

/// A release command that only runs on the crate's own version and a clean
/// tree: it is not run when the crate version is unknown or differs, or
/// when the tree is dirty or its state unknown; otherwise `run` runs it and
/// its outcome decides pass or fail.
pub fn release_gate_check<F>(
    id: &str,
    command: &str,
    version: &str,
    crate_version: Option<&str>,
    clean_tree: Result<bool, String>,
    run: F,
) -> (r: ReleaseReadinessCheck) where F: FnOnce() -> Result<CommandResult, String>
    requires
        call_requires(run, ()),
    ensures
        match crate_version {
            None => check_is(r, id@, "not_run"@, false, command@, unreadable_version_summary(), seq![], seq![]),
            Some(cv) => if cv@ != version@ {
                check_is(
                    r,
                    id@,
                    "not_run"@,
                    false,
                    command@,
                    version_not_bumped_summary(),
                    seq![],
                    seq![version_mismatch_detail(version@, cv@)],
                )
            } else {
                match clean_tree {
                    Ok(true) => exists|out: Result<CommandResult, String>|
                        call_ensures(run, (), out) && gate_run_is(r, id@, command@, out),
                    Ok(false) => check_is(
                        r,
                        id@,
                        "not_run"@,
                        false,
                        command@,
                        "dirty tree; release-prep should rerun this on the committed version bump"@,
                        seq![],
                        seq![],
                    ),
                    Err(e) => check_is(
                        r,
                        id@,
                        "not_run"@,
                        false,
                        command@,
                        "git worktree state could not be verified"@,
                        seq![],
                        seq![e@],
                    ),
                }
            },
        },
{
    let cv = match crate_version {
        None => {
            return check_of(
                id,
                "not_run",
                false,
                command,
                "crate version could not be read; release-prep should run this gate explicitly",
                none(),
                none(),
            );
        },
        Some(cv) => cv,
    };
    if !str_eq(cv, version) {
        return check_of(
            id,
            "not_run",
            false,
            command,
            "requested release version does not match the crate version yet",
            none(),
            one(version_detail(version, cv)),
        );
    }
    match clean_tree {
        Ok(true) => {
            let out = run();
            let r = match &out {
                Ok(result) => if result.success {
                    check_of(id, "pass", true, command, "release gate passed", none(), command_details(result))
                } else {
                    check_of(id, "fail", true, command, "release gate failed", none(), command_details(result))
                },
                Err(e) => check_of(
                    id,
                    "fail",
                    true,
                    command,
                    "release gate could not run",
                    none(),
                    one(owned(e.as_str())),
                ),
            };
            assert(gate_run_is(r, id@, command@, out));
            r
        },
        Ok(false) => check_of(
            id,
            "not_run",
            false,
            command,
            "dirty tree; release-prep should rerun this on the committed version bump",
            none(),
            none(),
        ),
        Err(e) => check_of(
            id,
            "not_run",
            false,
            command,
            "git worktree state could not be verified",
            none(),
            one(e),
        ),
    }
}

// ---------------------------------------------------------------------------
// Package install
// ---------------------------------------------------------------------------

/// What the package/install proof produced.
#[derive(Clone, Debug, PartialEq, Eq)]
pub struct PackageInstallResult {
    pub success: bool,
    pub artifacts: Vec<String>,
    pub details: Vec<String>,
}

pub open spec fn package_install_command_spec(version: Seq<char>) -> Seq<char> {
    "cargo package -p ripr --locked && cargo install --path <external-package-root>/ripr-"@ + version
        + " --locked --root target/ripr/release-readiness/install --force && installed ripr doctor --root <external-fixture> --json"@
}

/// The command line the package/install gate reports.
pub fn package_install_command(version: &str) -> (r: String)
    ensures
        r@ == package_install_command_spec(version@),
{
    let mut m = concat(
        "cargo package -p ripr --locked && cargo install --path <external-package-root>/ripr-",
        version,
    );
    push_str(
        &mut m,
        " --locked --root target/ripr/release-readiness/install --force && installed ripr doctor --root <external-fixture> --json",
    );
    m
}

/// The verdict of the package/install proof on its outcome; a proof that
/// could not run names the installed binary as its artifact.
pub open spec fn install_run_is(
    c: ReleaseReadinessCheck,
    command: Seq<char>,
    installed_binary: Seq<char>,
    out: Result<PackageInstallResult, String>,
) -> bool {
    match out {
        Ok(result) => if result.success {
            check_is(
                c,
                "package-install"@,
                "pass"@,
                true,
                command,
                "packaged crate was extracted, installed, identity-checked, and exercised outside the source checkout"@,
                views(result.artifacts@),
                views(result.details@),
            )
        } else {
            check_is(
                c,
                "package-install"@,
                "fail"@,
                true,
                command,
                "packaged crate install or external CLI smoke failed"@,
                views(result.artifacts@),
                views(result.details@),
            )
        },
        Err(e) => check_is(
            c,
            "package-install"@,
            "fail"@,
            true,
            command,
            "packaged crate install could not run"@,
            seq![installed_binary],
            seq![e@],
        ),
    }
}

pub open spec fn install_clean_is(
    c: ReleaseReadinessCheck,
    command: Seq<char>,
    installed_binary: Seq<char>,
    clean: Result<bool, String>,
    install: Option<Result<PackageInstallResult, String>>,
) -> bool {
    match clean {
        Ok(true) => install matches Some(out) && install_run_is(c, command, installed_binary, out),
        Ok(false) => check_is(
            c,
            "package-install"@,
            "fail"@,
            true,
            command,
            "dirty tree at package/install proof time; package/install proof is not trustworthy"@,
            seq![],
            seq![],
        ),
        Err(e) => check_is(
            c,
            "package-install"@,
            "fail"@,
            true,
            command,
            "git worktree state could not be verified before package/install proof"@,
            seq![],
            seq![e@],
        ),
    }
}

fn install_verdict(command: &str, installed_binary: &str, out: Result<PackageInstallResult, String>) -> (r:
    ReleaseReadinessCheck)
    ensures
        install_run_is(r, command@, installed_binary@, out),
{
    match out {
        Ok(result) => {
            let PackageInstallResult { success, artifacts, details } = result;
            if success {
                check_of(
                    "package-install",
                    "pass",
                    true,
                    command,
                    "packaged crate was extracted, installed, identity-checked, and exercised outside the source checkout",
                    artifacts,
                    details,
                )
            } else {
                check_of(
                    "package-install",
                    "fail",
                    true,
                    command,
                    "packaged crate install or external CLI smoke failed",
                    artifacts,
                    details,
                )
            }
        },
        Err(e) => check_of(
            "package-install",
            "fail",
            true,
            command,
            "packaged crate install could not run",
            one(owned(installed_binary)),
            one(e),
        ),
    }
}

/// The package/install gate: like the release commands it needs the
/// crate's own version, but it re-reads the worktree state (`check_clean`)
/// right before packaging, and a dirty or unknown tree fails it.
pub fn package_install_check<G, F>(
    version: &str,
    crate_version: Option<&str>,
    installed_binary: &str,
    check_clean: G,
    install: F,
) -> (r: ReleaseReadinessCheck) where
    G: FnOnce() -> Result<bool, String>,
    F: FnOnce() -> Result<PackageInstallResult, String>,

    requires
        call_requires(check_clean, ()),
        call_requires(install, ()),
    ensures
        match crate_version {
            None => check_is(
                r,
                "package-install"@,
                "not_run"@,
                false,
                package_install_command_spec(version@),
                unreadable_version_summary(),
                seq![],
                seq![],
            ),
            Some(cv) => if cv@ != version@ {
                check_is(
                    r,
                    "package-install"@,
                    "not_run"@,
                    false,
                    package_install_command_spec(version@),
                    version_not_bumped_summary(),
                    seq![],
                    seq![version_mismatch_detail(version@, cv@)],
                )
            } else {
                exists|clean: Result<bool, String>, out: Option<Result<PackageInstallResult, String>>|
                    call_ensures(check_clean, (), clean) && (out matches Some(o) ==> call_ensures(
                        install,
                        (),
                        o,
                    )) && install_clean_is(
                        r,
                        package_install_command_spec(version@),
                        installed_binary@,
                        clean,
                        out,
                    )
            },
        },
{
    let command = package_install_command(version);
    let cv = match crate_version {
        None => {
            return check_of(
                "package-install",
                "not_run",
                false,
                command.as_str(),
                "crate version could not be read; release-prep should run this gate explicitly",
                none(),
                none(),
            );
        },
        Some(cv) => cv,
    };
    if !str_eq(cv, version) {
        return check_of(
            "package-install",
            "not_run",
            false,
            command.as_str(),
            "requested release version does not match the crate version yet",
            none(),
            one(version_detail(version, cv)),
        );
    }
    let clean = check_clean();
    match &clean {
        Ok(true) => {
            let out = install();
            let ghost o = out;
            let r = install_verdict(command.as_str(), installed_binary, out);
            assert(install_clean_is(r, command@, installed_binary@, clean, Some(o)));
            r
        },
        Ok(false) => {
            let r = check_of(
                "package-install",
                "fail",
                true,
                command.as_str(),
                "dirty tree at package/install proof time; package/install proof is not trustworthy",
                none(),
                none(),
            );
            assert(install_clean_is(r, command@, installed_binary@, clean, None));
            r
        },
        Err(e) => {
            let r = check_of(
                "package-install",
                "fail",
                true,
                command.as_str(),
                "git worktree state could not be verified before package/install proof",
                none(),
                one(owned(e.as_str())),
            );
            assert(install_clean_is(r, command@, installed_binary@, clean, None));
            r
        },
    }
}

// ---------------------------------------------------------------------------
// The installed command surface
// ---------------------------------------------------------------------------

pub open spec fn surface_command_spec(binary: Seq<char>) -> Seq<char> {
    binary + " --version && "@ + binary + " --help && "@ + binary + " help --all && "@ + binary
        + " first-pr --help"@
}

/// The command line the installed command surface gate reports.
pub fn installed_command_surface_command(binary: &str) -> (r: String)
    ensures
        r@ == surface_command_spec(binary@),
{
    let mut m = concat(binary, " --version && ");
    push_str(&mut m, binary);
    push_str(&mut m, " --help && ");
    push_str(&mut m, binary);
    push_str(&mut m, " help --all && ");
    push_str(&mut m, binary);
    push_str(&mut m, " first-pr --help");
    m
}

/// The installed binary's commands the surface gate runs, in order.
#[derive(Clone, Copy, Debug, PartialEq, Eq)]
pub enum SurfaceStep {
    Version,
    Help,
    FirstPrHelp,
    HelpAll,
}

/// The summary of a step that failed (`ran` true) or could not start.
pub open spec fn step_summary(step: SurfaceStep, ran: bool) -> Seq<char> {
    match step {
        SurfaceStep::Version => if ran {
            "installed ripr --version failed"@
        } else {
            "installed ripr --version could not run"@
        },
        SurfaceStep::Help => if ran {
            "installed binary help failed"@
        } else {
            "installed binary help could not run"@
        },
        SurfaceStep::FirstPrHelp => if ran {
            "installed ripr first-pr --help failed"@
        } else {
            "installed ripr first-pr --help could not run"@
        },
        SurfaceStep::HelpAll => if ran {
            "installed binary help --all failed"@
        } else {
            "installed ripr help --all could not run"@
        },
    }
}

fn step_summary_exec(step: SurfaceStep, ran: bool) -> (r: &'static str)
    ensures
        r@ == step_summary(step, ran),
{
    match step {
        SurfaceStep::Version => if ran {
            "installed ripr --version failed"
        } else {
            "installed ripr --version could not run"
        },
        SurfaceStep::Help => if ran {
            "installed binary help failed"
        } else {
            "installed binary help could not run"
        },
        SurfaceStep::FirstPrHelp => if ran {
            "installed ripr first-pr --help failed"
        } else {
            "installed ripr first-pr --help could not run"
        },
        SurfaceStep::HelpAll => if ran {
            "installed binary help --all failed"
        } else {
            "installed ripr help --all could not run"
        },
    }
}

/// The failing verdict when the binary is missing.
pub fn missing_surface_binary(binary: &str) -> (r: ReleaseReadinessCheck)
    ensures
        check_is(
            r,
            "installed-command-surface"@,
            "fail"@,
            true,
            surface_command_spec(binary@),
            "installed ripr binary is missing"@,
            seq![binary@],
            seq![],
        ),
{
    let command = installed_command_surface_command(binary);
    check_of(
        "installed-command-surface",
        "fail",
        true,
        command.as_str(),
        "installed ripr binary is missing",
        one(owned(binary)),
        none(),
    )
}

/// After one step: nothing while the step succeeded, else the failing
/// check that stops the sequence.
pub fn surface_step_failure(binary: &str, step: SurfaceStep, outcome: &Result<CommandResult, String>) -> (r:
    Option<ReleaseReadinessCheck>)
    ensures
        match outcome {
            Ok(result) => if result.success {
                r is None
            } else {
                r matches Some(c) && check_is(
                    c,
                    "installed-command-surface"@,
                    "fail"@,
                    true,
                    surface_command_spec(binary@),
                    step_summary(step, true),
                    seq![binary@],
                    command_details_spec(*result),
                )
            },
            Err(e) => r matches Some(c) && check_is(
                c,
                "installed-command-surface"@,
                "fail"@,
                true,
                surface_command_spec(binary@),
                step_summary(step, false),
                seq![binary@],
                seq![e@],
            ),
        },
{
    let command = installed_command_surface_command(binary);
    match outcome {
        Ok(result) => if result.success {
            None
        } else {
            Some(
                check_of(
                    "installed-command-surface",
                    "fail",
                    true,
                    command.as_str(),
                    step_summary_exec(step, true),
                    one(owned(binary)),
                    command_details(result),
                ),
            )
        },
        Err(e) => Some(
            check_of(
                "installed-command-surface",
                "fail",
                true,
                command.as_str(),
                step_summary_exec(step, false),
                one(owned(binary)),
                one(owned(e.as_str())),
            ),
        ),
    }
}

pub open spec fn first_pr_needles() -> Seq<Seq<char>> {
    seq![
        "Create the start-here packet"@,
        "usage: ripr first-pr"@,
        "--gap-ledger"@,
        "--receipts-dir"@,
        "--out-dir"@,
    ]
}

/// Every expected command the three help texts do not mention: the first
/// screen's first-run commands, the full reference's release loop, and the
/// first-pr usage.
pub open spec fn surface_missing(help: Seq<char>, help_all: Seq<char>, first_pr_help: Seq<char>) -> Seq<
    Seq<char>,
> {
    missing_needles(help, seq!["ripr doctor"@, "ripr check"@, "ripr first-pr"@]) + missing_needles(
        help_all,
        seq![
            "ripr pilot"@,
            "ripr outcome"@,
            "ripr first-pr"@,
            "ripr calibrate cargo-mutants"@,
            "ripr agent verify"@,
            "ripr agent receipt"@,
        ],
    ) + missing_needles(first_pr_help, first_pr_needles())
}

/// The verdict once every step ran: pass when no expected command is
/// missing, with the version run's details; else fail naming what is
/// missing.
pub fn command_surface_verdict(
    binary: &str,
    version: &CommandResult,
    help: &str,
    help_all: &str,
    first_pr_help: &str,
) -> (r: ReleaseReadinessCheck)
    ensures
        surface_missing(help@, help_all@, first_pr_help@).len() == 0 ==> check_is(
            r,
            "installed-command-surface"@,
            "pass"@,
            true,
            surface_command_spec(binary@),
            "installed binary exposes public release-loop and first-run commands"@,
            seq![binary@],
            command_details_spec(*version),
        ),
        surface_missing(help@, help_all@, first_pr_help@).len() != 0 ==> check_is(
            r,
            "installed-command-surface"@,
            "fail"@,
            true,
            surface_command_spec(binary@),
            "installed binary is missing expected public loop or first-run commands"@,
            seq![binary@],
            seq!["missing: "@ + join(surface_missing(help@, help_all@, first_pr_help@), ", "@)],
        ),
{
    let command = installed_command_surface_command(binary);
    let mut missing = missing_required_needles(help, first_screen_needles().as_slice());
    let loop_missing = missing_required_needles(help_all, release_loop_needles().as_slice());
    crate::text::extend_strings(&mut missing, &loop_missing);
    let first_pr = vec![
        "Create the start-here packet",
        "usage: ripr first-pr",
        "--gap-ledger",
        "--receipts-dir",
        "--out-dir",
    ];
    assert(first_pr@.map_values(|n: &str| n@) =~= first_pr_needles());
    let pr_missing = missing_required_needles(first_pr_help, first_pr.as_slice());
    crate::text::extend_strings(&mut missing, &pr_missing);
    if missing.len() == 0 {
        check_of(
            "installed-command-surface",
            "pass",
            true,
            command.as_str(),
            "installed binary exposes public release-loop and first-run commands",
            one(owned(binary)),
            command_details(version),
        )
    } else {
        let mut d = owned("missing: ");
        push_joined(&mut d, &missing, ", ");
        check_of(
            "installed-command-surface",
            "fail",
            true,
            command.as_str(),
            "installed binary is missing expected public loop or first-run commands",
            one(owned(binary)),
            one(d),
        )
    }
}

// ---------------------------------------------------------------------------
// Fixture journeys
// ---------------------------------------------------------------------------

pub open spec fn pilot_command_spec(binary: Seq<char>) -> Seq<char> {
    binary
        + " pilot --root fixtures/boundary_gap/input --out target/ripr/release-readiness/pilot --timeout-ms 30000"@
}

/// The command line the pilot fixture gate reports.
pub fn pilot_command(binary: &str) -> (r: String)
    ensures
        r@ == pilot_command_spec(binary@),
{
    concat(
        binary,
        " pilot --root fixtures/boundary_gap/input --out target/ripr/release-readiness/pilot --timeout-ms 30000",
    )
}

pub open spec fn pilot_artifacts_spec() -> Seq<Seq<char>> {
    seq![
        "target/ripr/release-readiness/pilot/repo-exposure.json"@,
        "target/ripr/release-readiness/pilot/repo-exposure.md"@,
        "target/ripr/release-readiness/pilot/agent-seam-packets.json"@,
        "target/ripr/release-readiness/pilot/pilot-summary.json"@,
        "target/ripr/release-readiness/pilot/pilot-summary.md"@,
    ]
}

/// The artifacts a pilot run must write.
pub fn pilot_artifacts() -> (r: Vec<String>)
    ensures
        views(r@) == pilot_artifacts_spec(),
{
    let r = vec![
        owned("target/ripr/release-readiness/pilot/repo-exposure.json"),
        owned("target/ripr/release-readiness/pilot/repo-exposure.md"),
        owned("target/ripr/release-readiness/pilot/agent-seam-packets.json"),
        owned("target/ripr/release-readiness/pilot/pilot-summary.json"),
        owned("target/ripr/release-readiness/pilot/pilot-summary.md"),
    ];
    assert(views(r@) =~= pilot_artifacts_spec());
    r
}

/// The artifacts whose flag says they are absent, in order.
pub open spec fn absent(paths: Seq<Seq<char>>, present: Seq<bool>) -> Seq<Seq<char>>
    decreases paths.len(),
{
    if paths.len() == 0 {
        seq![]
    } else {
        let rest = absent(paths.drop_last(), present);
        if present[paths.len() - 1] {
            rest
        } else {
            rest.push(paths.last())
        }
    }
}

fn absent_exec(paths: &Vec<String>, present: &Vec<bool>) -> (r: Vec<String>)
    requires
        present@.len() == paths@.len(),
    ensures
        views(r@) == absent(views(paths@), present@),
{
    let mut out: Vec<String> = Vec::new();
    let mut i: usize = 0;
    let ghost ps = views(paths@);
    assert(ps.take(0) =~= Seq::<Seq<char>>::empty());
    while i < paths.len()
        invariant
            i <= paths@.len(),
            present@.len() == paths@.len(),
            ps == views(paths@),
            views(out@) == absent(ps.take(i as int), present@),
        decreases paths.len() - i,
    {
        assert(ps.take(i + 1).drop_last() =~= ps.take(i as int));
        assert(ps.take(i + 1).last() == paths@[i as int]@);
        if !present[i] {
            let ghost before = views(out@);
            out.push(owned(paths[i].as_str()));
            assert(views(out@) =~= before.push(paths@[i as int]@));
        }
        i += 1;
    }
    assert(ps.take(ps.len() as int) =~= ps);
    out
}

/// The pilot fixture outcome: a successful run is accepted only when every
/// expected artifact is present (`present`, one flag per artifact of
/// `pilot_artifacts`).
pub fn pilot_fixture_verdict(binary: &str, outcome: &Result<CommandResult, String>, present: &Vec<bool>) -> (r:
    ReleaseReadinessCheck)
    requires
        present@.len() == 5,
    ensures
        match outcome {
            Ok(result) => if result.success {
                if absent(pilot_artifacts_spec(), present@).len() == 0 {
                    check_is(
                        r,
                        "pilot-boundary-fixture"@,
                        "pass"@,
                        true,
                        pilot_command_spec(binary@),
                        "ripr pilot completed on the boundary-gap fixture"@,
                        pilot_artifacts_spec(),
                        seq![],
                    )
                } else {
                    check_is(
                        r,
                        "pilot-boundary-fixture"@,
                        "fail"@,
                        true,
                        pilot_command_spec(binary@),
                        "ripr pilot completed but expected artifacts are missing"@,
                        pilot_artifacts_spec(),
                        seq!["missing: "@ + join(absent(pilot_artifacts_spec(), present@), ", "@)],
                    )
                }
            } else {
                check_is(
                    r,
                    "pilot-boundary-fixture"@,
                    "fail"@,
                    true,
                    pilot_command_spec(binary@),
                    "ripr pilot failed on the boundary-gap fixture"@,
                    seq![],
                    command_details_spec(*result),
                )
            },
            Err(e) => check_is(
                r,
                "pilot-boundary-fixture"@,
                "fail"@,
                true,
                pilot_command_spec(binary@),
                "ripr pilot could not run"@,
                seq![],
                seq![e@],
            ),
        },
{
    let command = pilot_command(binary);
    match outcome {
        Ok(result) => if result.success {
            let artifacts = pilot_artifacts();
            assert(artifacts@.len() == views(artifacts@).len());
            let missing = absent_exec(&artifacts, present);
            if missing.len() == 0 {
                check_of(
                    "pilot-boundary-fixture",
                    "pass",
                    true,
                    command.as_str(),
                    "ripr pilot completed on the boundary-gap fixture",
                    artifacts,
                    none(),
                )
            } else {
                let mut d = owned("missing: ");
                push_joined(&mut d, &missing, ", ");
                check_of(
                    "pilot-boundary-fixture",
                    "fail",
                    true,
                    command.as_str(),
                    "ripr pilot completed but expected artifacts are missing",
                    artifacts,
                    one(d),
                )
            }
        } else {
            check_of(
                "pilot-boundary-fixture",
                "fail",
                true,
                command.as_str(),
                "ripr pilot failed on the boundary-gap fixture",
                none(),
                command_details(result),
            )
        },
        Err(e) => check_of(
            "pilot-boundary-fixture",
            "fail",
            true,
            command.as_str(),
            "ripr pilot could not run",
            none(),
            one(owned(e.as_str())),
        ),
    }
}

/// The failing verdict of a fixture gate whose binary is missing.
pub fn fixture_binary_missing(id: &str, command: &str) -> (r: ReleaseReadinessCheck)
    ensures
        check_is(r, id@, "fail"@, true, command@, "installed binary is missing"@, seq![], seq![]),
{
    check_of(id, "fail", true, command, "installed binary is missing", none(), none())
}

pub open spec fn outcome_command_spec(binary: Seq<char>) -> Seq<char> {
    binary
        + " outcome --before fixtures/boundary_gap/calibration/before-targeted-test.repo-exposure.json --after fixtures/boundary_gap/calibration/after-targeted-test.repo-exposure.json --format json --out target/ripr/release-readiness/targeted-test-outcome.json"@
}

/// The command line the outcome fixture gate reports.
pub fn outcome_command(binary: &str) -> (r: String)
    ensures
        r@ == outcome_command_spec(binary@),
{
    concat(
        binary,
        " outcome --before fixtures/boundary_gap/calibration/before-targeted-test.repo-exposure.json --after fixtures/boundary_gap/calibration/after-targeted-test.repo-exposure.json --format json --out target/ripr/release-readiness/targeted-test-outcome.json",
    )
}

pub open spec fn outcome_out() -> Seq<char> {
    "target/ripr/release-readiness/targeted-test-outcome.json"@
}

/// The outcome fixture result: accepted only when the command succeeded and
/// wrote its artifact.
pub fn outcome_fixture_verdict(binary: &str, outcome: &Result<CommandResult, String>, written: bool) -> (r:
    ReleaseReadinessCheck)
    ensures
        match outcome {
            Ok(result) => if result.success && written {
                check_is(
                    r,
                    "outcome-boundary-fixture"@,
                    "pass"@,
                    true,
                    outcome_command_spec(binary@),
                    "ripr outcome compared checked before/after snapshots"@,
                    seq![outcome_out()],
                    seq![],
                )
            } else {
                check_is(
                    r,
                    "outcome-boundary-fixture"@,
                    "fail"@,
                    true,
                    outcome_command_spec(binary@),
                    "ripr outcome failed or did not write its artifact"@,
                    seq![outcome_out()],
                    command_details_spec(*result),
                )
            },
            Err(e) => check_is(
                r,
                "outcome-boundary-fixture"@,
                "fail"@,
                true,
                outcome_command_spec(binary@),
                "ripr outcome could not run"@,
                seq![outcome_out()],
                seq![e@],
            ),
        },
{
    let command = outcome_command(binary);
    let artifact = owned("target/ripr/release-readiness/targeted-test-outcome.json");
    match outcome {
        Ok(result) => if result.success && written {
            check_of(
                "outcome-boundary-fixture",
                "pass",
                true,
                command.as_str(),
                "ripr outcome compared checked before/after snapshots",
                one(artifact),
                none(),
            )
        } else {
            check_of(
                "outcome-boundary-fixture",
                "fail",
                true,
                command.as_str(),
                "ripr outcome failed or did not write its artifact",
                one(artifact),
                command_details(result),
            )
        },
        Err(e) => check_of(
            "outcome-boundary-fixture",
            "fail",
            true,
            command.as_str(),
            "ripr outcome could not run",
            one(artifact),
            one(owned(e.as_str())),
        ),
    }
}

pub open spec fn agent_verify_command_spec(binary: Seq<char>) -> Seq<char> {
    binary + " check --root . --mode draft --format repo-exposure-json; agent verify; agent receipt"@
}

/// The command line the agent verify fixture gate reports.
pub fn agent_verify_command(binary: &str) -> (r: String)
    ensures
        r@ == agent_verify_command_spec(binary@),
{
    concat(binary, " check --root . --mode draft --format repo-exposure-json; agent verify; agent receipt")
}

pub open spec fn agent_verify_artifacts_spec() -> Seq<Seq<char>> {
    seq![
        "target/ripr/release-readiness/before.repo-exposure.json"@,
        "target/ripr/release-readiness/after.repo-exposure.json"@,
        "target/ripr/release-readiness/agent-analysis-outcome.json"@,
        "target/ripr/release-readiness/agent-verify.json"@,
        "target/ripr/release-readiness/agent-receipt.json"@,
    ]
}

fn agent_verify_artifacts() -> (r: Vec<String>)
    ensures
        views(r@) == agent_verify_artifacts_spec(),
{
    let r = vec![
        owned("target/ripr/release-readiness/before.repo-exposure.json"),
        owned("target/ripr/release-readiness/after.repo-exposure.json"),
        owned("target/ripr/release-readiness/agent-analysis-outcome.json"),
        owned("target/ripr/release-readiness/agent-verify.json"),
        owned("target/ripr/release-readiness/agent-receipt.json"),
    ];
    assert(views(r@) =~= agent_verify_artifacts_spec());
    r
}

/// The agent verify fixture verdict on the authentic producer journey's
/// outcome (its details, or why it stopped); a binary whose path cannot be
/// resolved is reported by `agent_verify_unusable_binary`.
pub fn agent_verify_verdict(binary: &str, journey: Result<Vec<String>, String>) -> (r: ReleaseReadinessCheck)
    ensures
        match journey {
            Ok(details) => check_is(
                r,
                "agent-verify-boundary-fixture"@,
                "pass"@,
                true,
                agent_verify_command_spec(binary@),
                "installed RIPR produced and verified authentic before/after repo-exposure artifacts"@,
                agent_verify_artifacts_spec(),
                views(details@),
            ),
            Err(e) => check_is(
                r,
                "agent-verify-boundary-fixture"@,
                "fail"@,
                true,
                agent_verify_command_spec(binary@),
                "installed RIPR could not complete the authentic before/after producer journey"@,
                agent_verify_artifacts_spec(),
                seq![e@],
            ),
        },
{
    let command = agent_verify_command(binary);
    match journey {
        Ok(details) => check_of(
            "agent-verify-boundary-fixture",
            "pass",
            true,
            command.as_str(),
            "installed RIPR produced and verified authentic before/after repo-exposure artifacts",
            agent_verify_artifacts(),
            details,
        ),
        Err(e) => check_of(
            "agent-verify-boundary-fixture",
            "fail",
            true,
            command.as_str(),
            "installed RIPR could not complete the authentic before/after producer journey",
            agent_verify_artifacts(),
            one(e),
        ),
    }
}

/// The failing verdict when the installed binary cannot be resolved to an
/// absolute path for the external fixture.
pub fn agent_verify_unusable_binary(binary: &str, error: String) -> (r: ReleaseReadinessCheck)
    ensures
        check_is(
            r,
            "agent-verify-boundary-fixture"@,
            "fail"@,
            true,
            agent_verify_command_spec(binary@),
            "installed binary path is not usable inside the external fixture"@,
            seq![],
            seq![error@],
        ),
{
    let command = agent_verify_command(binary);
    check_of(
        "agent-verify-boundary-fixture",
        "fail",
        true,
        command.as_str(),
        "installed binary path is not usable inside the external fixture",
        none(),
        one(error),
    )
}

// ---------------------------------------------------------------------------
// The packaged CLI journey
// ---------------------------------------------------------------------------

pub open spec fn journey_command_spec(b: Seq<char>) -> Seq<char> {
    b + " --version; "@ + b
        + " check --root <external-fixture> --base <base> --json --write-artifact <check-artifact>; "@
        + b + " diff --root <external-fixture> --base <base> --head <head> --json; "@ + b
        + " explain --root <external-fixture> --from <check-artifact> <finding>; "@ + b
        + " context --root <external-fixture> --from <check-artifact> --at <finding> --json; "@ + b
        + " pilot --root <external-fixture> --out <pilot-out> --timeout-ms 30000"@
}

/// The command line the packaged CLI journey gate reports.
pub fn packaged_cli_journey_command(b: &str) -> (r: String)
    ensures
        r@ == journey_command_spec(b@),
{
    let mut m = concat(b, " --version; ");
    push_str(&mut m, b);
    push_str(
        &mut m,
        " check --root <external-fixture> --base <base> --json --write-artifact <check-artifact>; ",
    );
    push_str(&mut m, b);
    push_str(&mut m, " diff --root <external-fixture> --base <base> --head <head> --json; ");
    push_str(&mut m, b);
    push_str(&mut m, " explain --root <external-fixture> --from <check-artifact> <finding>; ");
    push_str(&mut m, b);
    push_str(&mut m, " context --root <external-fixture> --from <check-artifact> --at <finding> --json; ");
    push_str(&mut m, b);
    push_str(&mut m, " pilot --root <external-fixture> --out <pilot-out> --timeout-ms 30000");
    m
}

/// What must be prepared before the journey can start.
#[derive(Clone, Copy, Debug, PartialEq, Eq)]
pub enum JourneySetup {
    Canonicalize,
    ReportDir,
    ClearArtifacts,
    FixtureRoot,
}

pub open spec fn setup_summary(step: JourneySetup) -> Seq<char> {
    match step {
        JourneySetup::Canonicalize => "installed binary could not be canonicalized for external CLI journey"@,
        JourneySetup::ReportDir => "readiness report directory could not be determined"@,
        JourneySetup::ClearArtifacts => "stale packaged CLI artifacts could not be cleared"@,
        JourneySetup::FixtureRoot => "external CLI fixture root could not be created"@,
    }
}

/// The failing verdict when the journey could not be prepared.
pub fn journey_setup_failure(command: &str, step: JourneySetup, error: String) -> (r: ReleaseReadinessCheck)
    ensures
        check_is(r, "packaged-cli-journey"@, "fail"@, true, command@, setup_summary(step), seq![], seq![error@]),
{
    let summary = match step {
        JourneySetup::Canonicalize => "installed binary could not be canonicalized for external CLI journey",
        JourneySetup::ReportDir => "readiness report directory could not be determined",
        JourneySetup::ClearArtifacts => "stale packaged CLI artifacts could not be cleared",
        JourneySetup::FixtureRoot => "external CLI fixture root could not be created",
    };
    check_of("packaged-cli-journey", "fail", true, command, summary, none(), one(error))
}

/// What the journey reads from the check run's JSON output.
#[derive(Clone, Debug, PartialEq, Eq)]
pub struct JourneyCheckOutput {
    pub base: Option<String>,
    pub analysis_complete: bool,
    pub first_finding: Option<String>,
}

/// The first of the findings' string ids, in order.
pub open spec fn first_some(ids: Seq<Option<String>>) -> Option<Seq<char>>
    decreases ids.len(),
{
    if ids.len() == 0 {
        None
    } else if ids[0] is Some {
        Some(ids[0].unwrap()@)
    } else {
        first_some(ids.drop_first())
    }
}

/// The finding selector of a check run: the first finding whose `id` is a
/// string (`ids` holds each finding's id, `None` where it is not a string).
pub fn first_finding_id(ids: &Vec<Option<String>>) -> (r: Option<String>)
    ensures
        opt_text_spec(r) == first_some(ids@),
{
    let mut i: usize = 0;
    assert(ids@.skip(0) =~= ids@);
    while i < ids.len()
        invariant
            i <= ids@.len(),
            first_some(ids@) == first_some(ids@.skip(i as int)),
        decreases ids.len() - i,
    {
        assert(ids@.skip(i as int)[0] == ids@[i as int]);
        match &ids[i] {
            Some(id) => {
                return Some(owned(id.as_str()));
            },
            None => {},
        }
        assert(ids@.skip(i as int).drop_first() =~= ids@.skip(i + 1));
        i += 1;
    }
    assert(ids@.skip(i as int).len() == 0);
    None
}

pub open spec fn failed_with_details(prefix: Seq<char>, result: CommandResult) -> Seq<char> {
    prefix + join(command_details_spec(result), "; "@)
}

/// Why the journey's check run is refused, or the finding it selected: it
/// must succeed, emit parseable JSON (`parsed`, or the parse error), keep
/// the requested base, report complete analysis, name a finding, and write
/// its artifact.
pub open spec fn journey_check_spec(
    result: CommandResult,
    parsed: Result<JourneyCheckOutput, String>,
    base: Seq<char>,
    artifact_written: bool,
    artifact: Seq<char>,
) -> Result<Seq<char>, Seq<char>> {
    if !result.success {
        Err(failed_with_details("packaged CLI check failed: "@, result))
    } else {
        match parsed {
            Err(e) => Err("packaged CLI check emitted malformed JSON: "@ + e@),
            Ok(out) => if opt_text_spec(out.base) != Some(base) {
                Err("packaged CLI check did not retain the requested base identity"@)
            } else if !out.analysis_complete {
                Err("packaged CLI check did not report complete analysis"@)
            } else {
                match out.first_finding {
                    None => Err("packaged CLI check produced no finding selector"@),
                    Some(f) => if !artifact_written {
                        Err("packaged CLI check did not write artifact "@ + artifact)
                    } else {
                        Ok(f@)
                    },
                }
            },
        }
    }
}

pub open spec fn opt_text_spec(o: Option<String>) -> Option<Seq<char>> {
    crate::text::opt_view(o)
}

fn failed_message(prefix: &str, result: &CommandResult) -> (r: String)
    ensures
        r@ == failed_with_details(prefix@, *result),
{
    let mut m = owned(prefix);
    push_joined(&mut m, &command_details(result), "; ");
    m
}

/// Checks the journey's check run and returns the selected finding.
pub fn validate_journey_check(
    result: &CommandResult,
    parsed: &Result<JourneyCheckOutput, String>,
    base: &str,
    artifact_written: bool,
    artifact: &str,
) -> (r: Result<String, String>)
    ensures
        match r {
            Ok(f) => journey_check_spec(*result, *parsed, base@, artifact_written, artifact@) == Ok::<
                Seq<char>,
                Seq<char>,
            >(f@),
            Err(e) => journey_check_spec(*result, *parsed, base@, artifact_written, artifact@) == Err::<
                Seq<char>,
                Seq<char>,
            >(e@),
        },
{
    if !result.success {
        return Err(failed_message("packaged CLI check failed: ", result));
    }
    let out = match parsed {
        Err(e) => {
            return Err(concat("packaged CLI check emitted malformed JSON: ", e.as_str()));
        },
        Ok(out) => out,
    };
    let base_ok = match &out.base {
        Some(b) => str_eq(b.as_str(), base),
        None => false,
    };
    if !base_ok {
        return Err(owned("packaged CLI check did not retain the requested base identity"));
    }
    if !out.analysis_complete {
        return Err(owned("packaged CLI check did not report complete analysis"));
    }
    match &out.first_finding {
        None => Err(owned("packaged CLI check produced no finding selector")),
        Some(f) => if !artifact_written {
            Err(concat("packaged CLI check did not write artifact ", artifact))
        } else {
            Ok(owned(f.as_str()))
        },
    }
}

/// Why the journey's exact diff run is refused: it must succeed, emit
/// parseable JSON, and keep both revision identities.
pub open spec fn journey_diff_spec(
    result: CommandResult,
    parsed: Result<(Option<String>, Option<String>), String>,
    base: Seq<char>,
    head: Seq<char>,
) -> Option<Seq<char>> {
    if !result.success {
        Some(failed_with_details("packaged CLI exact diff failed: "@, result))
    } else {
        match parsed {
            Err(e) => Some("packaged CLI exact diff emitted malformed JSON: "@ + e@),
            Ok((b, h)) => if opt_text_spec(b) != Some(base) || opt_text_spec(h) != Some(head) {
                Some("packaged CLI exact diff did not retain both revision identities"@)
            } else {
                None
            },
        }
    }
}

fn opt_is_text(o: &Option<String>, s: &str) -> (r: bool)
    ensures
        r == (opt_text_spec(*o) == Some(s@)),
{
    match o {
        Some(x) => str_eq(x.as_str(), s),
        None => false,
    }
}

/// Checks the journey's exact diff run.
pub fn validate_journey_diff(
    result: &CommandResult,
    parsed: &Result<(Option<String>, Option<String>), String>,
    base: &str,
    head: &str,
) -> (r: Result<(), String>)
    ensures
        match r {
            Ok(()) => journey_diff_spec(*result, *parsed, base@, head@) is None,
            Err(e) => journey_diff_spec(*result, *parsed, base@, head@) == Some(e@),
        },
{
    if !result.success {
        return Err(failed_message("packaged CLI exact diff failed: ", result));
    }
    match parsed {
        Err(e) => Err(concat("packaged CLI exact diff emitted malformed JSON: ", e.as_str())),
        Ok((b, h)) => if !opt_is_text(b, base) || !opt_is_text(h, head) {
            Err(owned("packaged CLI exact diff did not retain both revision identities"))
        } else {
            Ok(())
        },
    }
}

/// Checks the journey's explain run: it must succeed with output that
/// names the finding.
pub fn validate_journey_explain(result: &CommandResult, finding: &str) -> (r: Result<(), String>)
    ensures
        !result.success || crate::text::trim(result.stdout@).len() == 0 ==> (r matches Err(e) && e@
            == "packaged CLI explain failed or emitted no output"@),
        result.success && crate::text::trim(result.stdout@).len() != 0 && !contains(
            result.stdout@,
            finding@,
        ) ==> (r matches Err(e) && e@
            == "packaged CLI explain did not retain the requested finding identity"@),
        r is Ok == (result.success && crate::text::trim(result.stdout@).len() != 0 && contains(
            result.stdout@,
            finding@,
        )),
{
    if !result.success || crate::text::str_is_blank(result.stdout.as_str()) {
        return Err(owned("packaged CLI explain failed or emitted no output"));
    }
    if !str_contains(result.stdout.as_str(), finding) {
        return Err(owned("packaged CLI explain did not retain the requested finding identity"));
    }
    Ok(())
}

/// Checks the journey's context run: it must succeed, emit parseable JSON
/// (`parsed`: its probe id, or the parse error), and probe the finding.
pub fn validate_journey_context(result: &CommandResult, parsed: &Result<Option<String>, String>, finding: &str) -> (r:
    Result<(), String>)
    ensures
        !result.success ==> (r matches Err(e) && e@ == "packaged CLI context failed"@),
        result.success ==> match parsed {
            Err(x) => r matches Err(e) && e@ == "packaged CLI context emitted malformed JSON: "@ + x@,
            Ok(probe) => if opt_text_spec(*probe) == Some(finding@) {
                r is Ok
            } else {
                r matches Err(e) && e@
                    == "packaged CLI context did not retain the requested finding identity"@
            },
        },
{
    if !result.success {
        return Err(owned("packaged CLI context failed"));
    }
    match parsed {
        Err(x) => Err(concat("packaged CLI context emitted malformed JSON: ", x.as_str())),
        Ok(probe) => if opt_is_text(probe, finding) {
            Ok(())
        } else {
            Err(owned("packaged CLI context did not retain the requested finding identity"))
        },
    }
}

/// Checks the pilot packet artifact's run status and packet count, and
/// The journey's pilot run must succeed.
pub fn validate_journey_pilot(result: &CommandResult) -> (r: Result<(), String>)
    ensures
        result.success ==> r is Ok,
        !result.success ==> (r matches Err(e) && e@ == "packaged CLI pilot failed"@),
{
    if result.success {
        Ok(())
    } else {
        Err(owned("packaged CLI pilot failed"))
    }
}

/// Each pilot artifact the journey reads must have been written.
pub fn validate_pilot_artifact_written(path: &str, written: bool) -> (r: Result<(), String>)
    ensures
        written ==> r is Ok,
        !written ==> (r matches Err(e) && e@ == "packaged CLI pilot did not write "@ + path@),
{
    if written {
        Ok(())
    } else {
        Err(concat("packaged CLI pilot did not write ", path))
    }
}

/// records them in the journey details.
pub fn validate_pilot_packet(run_status: Option<&str>, packets_total: Option<u64>, details: &mut Vec<String>) -> (r:
    Result<(), String>)
    ensures
        match run_status {
            None => (r matches Err(e) && e@ == "packaged CLI pilot packet artifact omitted run_status"@)
                && final(details)@ == old(details)@,
            Some(s) => if s@ != "complete"@ {
                (r matches Err(e) && e@ == "packaged CLI pilot did not complete: run_status="@ + s@)
                    && final(details)@ == old(details)@
            } else {
                match packets_total {
                    None => (r matches Err(e) && e@
                        == "packaged CLI pilot packet artifact omitted numeric packets_total"@)
                        && final(details)@ == old(details)@,
                    Some(n) => r is Ok && views(final(details)@) == views(old(details)@) + seq![
                        "pilot run status: complete"@,
                        "pilot packets: "@ + crate::text::decimal(n as nat),
                    ],
                }
            },
        },
{
    let status = match run_status {
        None => {
            return Err(owned("packaged CLI pilot packet artifact omitted run_status"));
        },
        Some(s) => s,
    };
    if !str_eq(status, "complete") {
        return Err(concat("packaged CLI pilot did not complete: run_status=", status));
    }
    let n = match packets_total {
        None => {
            return Err(owned("packaged CLI pilot packet artifact omitted numeric packets_total"));
        },
        Some(n) => n,
    };
    let ghost before = views(details@);
    details.push(owned("pilot run status: complete"));
    details.push(concat("pilot packets: ", crate::text::u64_to_string(n).as_str()));
    assert(views(details@) =~= before + seq![
        "pilot run status: complete"@,
        "pilot packets: "@ + crate::text::decimal(n as nat),
    ]);
    Ok(())
}

/// Checks the pilot summary artifact's status and records it.
pub fn validate_pilot_summary(status: Option<&str>, details: &mut Vec<String>) -> (r: Result<(), String>)
    ensures
        match status {
            None => (r matches Err(e) && e@ == "packaged CLI pilot summary omitted status"@)
                && final(details)@ == old(details)@,
            Some(s) => if s@ != "complete"@ {
                (r matches Err(e) && e@ == "packaged CLI pilot summary was not complete: status="@ + s@)
                    && final(details)@ == old(details)@
            } else {
                r is Ok && views(final(details)@) == views(old(details)@).push(
                    "pilot summary status: complete"@,
                )
            },
        },
{
    let s = match status {
        None => {
            return Err(owned("packaged CLI pilot summary omitted status"));
        },
        Some(s) => s,
    };
    if !str_eq(s, "complete") {
        return Err(concat("packaged CLI pilot summary was not complete: status=", s));
    }
    let ghost before = views(details@);
    details.push(owned("pilot summary status: complete"));
    assert(views(details@) =~= before.push("pilot summary status: complete"@));
    Ok(())
}

/// What a completed journey retained.
#[derive(Clone, Debug, PartialEq, Eq)]
pub struct JourneyRecord {
    pub artifacts: Vec<String>,
    pub details: Vec<String>,
}

/// The journey's verdict from its outcome, its fixture cleanup, and (only
/// when both succeeded) the receipt `write_receipt` writes; `details` are
/// the details gathered before a failed journey stopped.
pub fn packaged_cli_journey_verdict<F>(
    command: &str,
    journey: Result<JourneyRecord, String>,
    cleanup: Result<(), String>,
    details: Vec<String>,
    write_receipt: F,
) -> (r: ReleaseReadinessCheck) where F: FnOnce() -> Result<String, String>
    requires
        call_requires(write_receipt, ()),
    ensures
        match (journey, cleanup) {
            (Ok(j), Ok(())) => exists|receipt: Result<String, String>|
                call_ensures(write_receipt, (), receipt) && match receipt {
                    Ok(path) => check_is(
                        r,
                        "packaged-cli-journey"@,
                        "pass"@,
                        true,
                        command@,
                        "installed packaged CLI completed external check, exact diff, explain/context, and pilot packet journey"@,
                        seq![path@] + views(j.artifacts@),
                        views(j.details@),
                    ),
                    Err(e) => check_is(
                        r,
                        "packaged-cli-journey"@,
                        "fail"@,
                        true,
                        command@,
                        "packaged CLI journey passed but receipt writing failed"@,
                        seq![],
                        seq![e@],
                    ),
                },
            (Ok(j), Err(c)) => check_is(
                r,
                "packaged-cli-journey"@,
                "fail"@,
                true,
                command@,
                "packaged CLI journey passed but external fixture cleanup failed"@,
                seq![],
                views(j.details@).push("cleanup error: "@ + c@),
            ),
            (Err(e), Ok(())) => check_is(
                r,
                "packaged-cli-journey"@,
                "fail"@,
                true,
                command@,
                "installed packaged CLI external journey failed"@,
                seq![],
                views(details@).push(e@),
            ),
            (Err(e), Err(c)) => check_is(
                r,
                "packaged-cli-journey"@,
                "fail"@,
                true,
                command@,
                "installed packaged CLI journey and fixture cleanup failed"@,
                seq![],
                views(details@).push(e@).push("cleanup error: "@ + c@),
            ),
        },
{
    match (journey, cleanup) {
        (Ok(j), Ok(())) => {
            let receipt = write_receipt();
            let r = match &receipt {
                Ok(path) => {
                    let JourneyRecord { artifacts, details: jd } = j;
                    let mut all = one(owned(path.as_str()));
                    crate::text::extend_strings(&mut all, &artifacts);
                    check_of(
                        "packaged-cli-journey",
                        "pass",
                        true,
                        command,
                        "installed packaged CLI completed external check, exact diff, explain/context, and pilot packet journey",
                        all,
                        jd,
                    )
                },
                Err(e) => check_of(
                    "packaged-cli-journey",
                    "fail",
                    true,
                    command,
                    "packaged CLI journey passed but receipt writing failed",
                    none(),
                    one(owned(e.as_str())),
                ),
            };
            r
        },
        (Ok(j), Err(c)) => {
            let mut d = j.details;
            let ghost before = views(d@);
            d.push(concat("cleanup error: ", c.as_str()));
            assert(views(d@) =~= before.push("cleanup error: "@ + c@));
            check_of(
                "packaged-cli-journey",
                "fail",
                true,
                command,
                "packaged CLI journey passed but external fixture cleanup failed",
                none(),
                d,
            )
        },
        (Err(e), Ok(())) => {
            let mut d = details;
            let ghost before = views(d@);
            let ghost ev = e@;
            d.push(e);
            assert(views(d@) =~= before.push(ev));
            check_of(
                "packaged-cli-journey",
                "fail",
                true,
                command,
                "installed packaged CLI external journey failed",
                none(),
                d,
            )
        },
        (Err(e), Err(c)) => {
            let mut d = details;
            let ghost before = views(d@);
            let ghost ev = e@;
            d.push(e);
            d.push(concat("cleanup error: ", c.as_str()));
            assert(views(d@) =~= before.push(ev).push("cleanup error: "@ + c@));
            check_of(
                "packaged-cli-journey",
                "fail",
                true,
                command,
                "installed packaged CLI journey and fixture cleanup failed",
                none(),
                d,
            )
        },
    }
}

// ---------------------------------------------------------------------------
// Receipts, reports and documentation
// ---------------------------------------------------------------------------

pub open spec fn receipt_artifacts_spec() -> Seq<Seq<char>> {
    seq![
        "target/ripr/release-readiness/agent-analysis-outcome.json"@,
        "target/ripr/release-readiness/agent-verify.json"@,
        "target/ripr/release-readiness/agent-receipt.json"@,
    ]
}

fn receipt_artifacts() -> (r: Vec<String>)
    ensures
        views(r@) == receipt_artifacts_spec(),
{
    let r = vec![
        owned("target/ripr/release-readiness/agent-analysis-outcome.json"),
        owned("target/ripr/release-readiness/agent-verify.json"),
        owned("target/ripr/release-readiness/agent-receipt.json"),
    ];
    assert(views(r@) =~= receipt_artifacts_spec());
    r
}

pub open spec fn receipt_command_spec(binary: Seq<char>) -> Seq<char> {
    binary + " agent receipt (executed inside the authentic external fixture)"@
}

/// The command line the agent receipt gate reports.
pub fn agent_receipt_command(binary: &str) -> (r: String)
    ensures
        r@ == receipt_command_spec(binary@),
{
    concat(binary, " agent receipt (executed inside the authentic external fixture)")
}

/// The agent receipt result: the verify and analysis-outcome artifacts
/// must exist, and the receipt (its `analysis_outcome_status`, or why it
/// could not be read) must retain complete analysis evidence.
pub fn agent_receipt_verdict(
    binary: &str,
    verify_present: bool,
    outcome_present: bool,
    receipt: Result<Option<String>, String>,
) -> (r: ReleaseReadinessCheck)
    ensures
        !verify_present ==> check_is(
            r,
            "agent-receipt-boundary-fixture"@,
            "fail"@,
            true,
            receipt_command_spec(binary@),
            "agent verify artifact is missing"@,
            receipt_artifacts_spec(),
            seq!["missing prerequisite: target/ripr/release-readiness/agent-verify.json"@],
        ),
        verify_present && !outcome_present ==> check_is(
            r,
            "agent-receipt-boundary-fixture"@,
            "fail"@,
            true,
            receipt_command_spec(binary@),
            "canonical analysis-outcome artifact is missing"@,
            receipt_artifacts_spec(),
            seq!["missing prerequisite: target/ripr/release-readiness/agent-analysis-outcome.json"@],
        ),
        verify_present && outcome_present ==> match receipt {
            Ok(status) => if opt_text_spec(status) == Some("complete"@) {
                check_is(
                    r,
                    "agent-receipt-boundary-fixture"@,
                    "pass"@,
                    true,
                    receipt_command_spec(binary@),
                    "authentic fixture receipt was produced by the installed RIPR binary"@,
                    receipt_artifacts_spec(),
                    seq![],
                )
            } else {
                check_is(
                    r,
                    "agent-receipt-boundary-fixture"@,
                    "fail"@,
                    true,
                    receipt_command_spec(binary@),
                    "authentic fixture receipt does not retain complete analysis-outcome evidence"@,
                    receipt_artifacts_spec(),
                    seq![
                        "analysis_outcome_status: "@ + match opt_text_spec(status) {
                            Some(x) => x,
                            None => "missing"@,
                        },
                    ],
                )
            },
            Err(e) => check_is(
                r,
                "agent-receipt-boundary-fixture"@,
                "fail"@,
                true,
                receipt_command_spec(binary@),
                "authentic fixture receipt is missing or malformed"@,
                receipt_artifacts_spec(),
                seq![e@],
            ),
        },
{
    let command = agent_receipt_command(binary);
    if !verify_present {
        return check_of(
            "agent-receipt-boundary-fixture",
            "fail",
            true,
            command.as_str(),
            "agent verify artifact is missing",
            receipt_artifacts(),
            one(owned("missing prerequisite: target/ripr/release-readiness/agent-verify.json")),
        );
    }
    if !outcome_present {
        return check_of(
            "agent-receipt-boundary-fixture",
            "fail",
            true,
            command.as_str(),
            "canonical analysis-outcome artifact is missing",
            receipt_artifacts(),
            one(
                owned(
                    "missing prerequisite: target/ripr/release-readiness/agent-analysis-outcome.json",
                ),
            ),
        );
    }
    match receipt {
        Ok(status) => {
            if opt_is_text(&status, "complete") {
                check_of(
                    "agent-receipt-boundary-fixture",
                    "pass",
                    true,
                    command.as_str(),
                    "authentic fixture receipt was produced by the installed RIPR binary",
                    receipt_artifacts(),
                    none(),
                )
            } else {
                let shown = match &status {
                    Some(x) => x.as_str(),
                    None => "missing",
                };
                check_of(
                    "agent-receipt-boundary-fixture",
                    "fail",
                    true,
                    command.as_str(),
                    "authentic fixture receipt does not retain complete analysis-outcome evidence",
                    receipt_artifacts(),
                    one(concat("analysis_outcome_status: ", shown)),
                )
            }
        },
        Err(e) => check_of(
            "agent-receipt-boundary-fixture",
            "fail",
            true,
            command.as_str(),
            "authentic fixture receipt is missing or malformed",
            receipt_artifacts(),
            one(e),
        ),
    }
}

/// The latency report gate: the report command must succeed and the
/// report's status (or why it could not be read) must be `pass`; a
/// readable report that does not pass only warns.
pub fn repo_exposure_latency_verdict(run: Result<(), String>, status: Result<String, String>) -> (r:
    ReleaseReadinessCheck)
    ensures
        match run {
            Err(e) => check_is(
                r,
                "repo-exposure-latency"@,
                "fail"@,
                true,
                "cargo xtask repo-exposure-latency-report"@,
                "repo-exposure latency report command failed"@,
                seq!["target/ripr/reports/repo-exposure-latency.json"@],
                seq![e@],
            ),
            Ok(()) => match status {
                Ok(st) => if st@ == "pass"@ {
                    check_is(
                        r,
                        "repo-exposure-latency"@,
                        "pass"@,
                        true,
                        "cargo xtask repo-exposure-latency-report"@,
                        "repo-exposure latency report exists and passes"@,
                        seq![
                            "target/ripr/reports/repo-exposure-latency.json"@,
                            "target/ripr/reports/repo-exposure-latency.md"@,
                        ],
                        seq![],
                    )
                } else {
                    check_is(
                        r,
                        "repo-exposure-latency"@,
                        "warn"@,
                        false,
                        "cargo xtask repo-exposure-latency-report"@,
                        "repo-exposure latency report exists but is not passing"@,
                        seq![
                            "target/ripr/reports/repo-exposure-latency.json"@,
                            "target/ripr/reports/repo-exposure-latency.md"@,
                        ],
                        seq!["report status: "@ + st@],
                    )
                },
                Err(x) => check_is(
                    r,
                    "repo-exposure-latency"@,
                    "fail"@,
                    true,
                    "cargo xtask repo-exposure-latency-report"@,
                    "repo-exposure latency report could not be read"@,
                    seq!["target/ripr/reports/repo-exposure-latency.json"@],
                    seq![x@],
                ),
            },
        },
{
    let command = "cargo xtask repo-exposure-latency-report";
    let json = "target/ripr/reports/repo-exposure-latency.json";
    match run {
        Err(e) => check_of(
            "repo-exposure-latency",
            "fail",
            true,
            command,
            "repo-exposure latency report command failed",
            one(owned(json)),
            one(e),
        ),
        Ok(()) => match status {
            Ok(st) => if str_eq(st.as_str(), "pass") {
                let mut arts = one(owned(json));
                let ghost a = views(arts@);
                arts.push(owned("target/ripr/reports/repo-exposure-latency.md"));
                assert(views(arts@) =~= a.push("target/ripr/reports/repo-exposure-latency.md"@));
                assert(views(arts@) =~= seq![
                    "target/ripr/reports/repo-exposure-latency.json"@,
                    "target/ripr/reports/repo-exposure-latency.md"@,
                ]);
                check_of(
                    "repo-exposure-latency",
                    "pass",
                    true,
                    command,
                    "repo-exposure latency report exists and passes",
                    arts,
                    none(),
                )
            } else {
                let mut arts = one(owned(json));
                let ghost a = views(arts@);
                arts.push(owned("target/ripr/reports/repo-exposure-latency.md"));
                assert(views(arts@) =~= a.push("target/ripr/reports/repo-exposure-latency.md"@));
                assert(views(arts@) =~= seq![
                    "target/ripr/reports/repo-exposure-latency.json"@,
                    "target/ripr/reports/repo-exposure-latency.md"@,
                ]);
                check_of(
                    "repo-exposure-latency",
                    "warn",
                    false,
                    command,
                    "repo-exposure latency report exists but is not passing",
                    arts,
                    one(concat("report status: ", st.as_str())),
                )
            },
            Err(e) => check_of(
                "repo-exposure-latency",
                "fail",
                true,
                command,
                "repo-exposure latency report could not be read",
                one(owned(json)),
                one(e),
            ),
        },
    }
}

/// The LSP cockpit report gate: the report command must succeed and the
/// report's status must be `pass`.
pub fn lsp_cockpit_verdict(run: Result<(), String>, status: Result<String, String>) -> (r: ReleaseReadinessCheck)
    ensures
        match run {
            Err(e) => check_is(
                r,
                "lsp-cockpit"@,
                "fail"@,
                true,
                "cargo xtask lsp-cockpit-report"@,
                "LSP cockpit report command failed"@,
                seq!["target/ripr/reports/lsp-cockpit.json"@],
                seq![e@],
            ),
            Ok(()) => match status {
                Ok(st) => if st@ == "pass"@ {
                    check_is(
                        r,
                        "lsp-cockpit"@,
                        "pass"@,
                        true,
                        "cargo xtask lsp-cockpit-report"@,
                        "LSP cockpit report passes"@,
                        seq!["target/ripr/reports/lsp-cockpit.json"@, "target/ripr/reports/lsp-cockpit.md"@],
                        seq![],
                    )
                } else {
                    check_is(
                        r,
                        "lsp-cockpit"@,
                        "fail"@,
                        true,
                        "cargo xtask lsp-cockpit-report"@,
                        "LSP cockpit report is not passing"@,
                        seq!["target/ripr/reports/lsp-cockpit.json"@],
                        seq!["report status: "@ + st@],
                    )
                },
                Err(x) => check_is(
                    r,
                    "lsp-cockpit"@,
                    "fail"@,
                    true,
                    "cargo xtask lsp-cockpit-report"@,
                    "LSP cockpit report could not be read"@,
                    seq!["target/ripr/reports/lsp-cockpit.json"@],
                    seq![x@],
                ),
            },
        },
{
    let command = "cargo xtask lsp-cockpit-report";
    let json = "target/ripr/reports/lsp-cockpit.json";
    match run {
        Err(e) => check_of(
            "lsp-cockpit",
            "fail",
            true,
            command,
            "LSP cockpit report command failed",
            one(owned(json)),
            one(e),
        ),
        Ok(()) => match status {
            Ok(st) => if str_eq(st.as_str(), "pass") {
                let mut arts = one(owned(json));
                let ghost a = views(arts@);
                arts.push(owned("target/ripr/reports/lsp-cockpit.md"));
                assert(views(arts@) =~= a.push("target/ripr/reports/lsp-cockpit.md"@));
                assert(views(arts@) =~= seq![
                    "target/ripr/reports/lsp-cockpit.json"@,
                    "target/ripr/reports/lsp-cockpit.md"@,
                ]);
                check_of("lsp-cockpit", "pass", true, command, "LSP cockpit report passes", arts, none())
            } else {
                check_of(
                    "lsp-cockpit",
                    "fail",
                    true,
                    command,
                    "LSP cockpit report is not passing",
                    one(owned(json)),
                    one(concat("report status: ", st.as_str())),
                )
            },
            Err(e) => check_of(
                "lsp-cockpit",
                "fail",
                true,
                command,
                "LSP cockpit report could not be read",
                one(owned(json)),
                one(e),
            ),
        },
    }
}

pub open spec fn workflow_needles() -> Seq<Seq<char>> {
    seq![
        "continue-on-error: true"@,
        "ripr pilot"@,
        "ripr agent start"@,
        "ripr agent status"@,
        "ripr agent review-summary"@,
        "ripr reports gap-ledger"@,
        "ripr first-pr"@,
        "#### First-run status"@,
        "missing_start_here"@,
        "cat target/ripr/reports/start-here.md"@,
        "target/ripr/reports/gap-decision-ledger.json"@,
        "target/ripr/reports/start-here.md"@,
        "target/ripr/pilot"@,
        "target/ripr/workflow"@,
        "target/ripr/reports"@,
        "target/ripr/workflow/agent-status.md"@,
        "target/ripr/workflow/agent-review-summary.md"@,
        "target/ripr/reports/agent-receipt.json"@,
        "RIPR_UPLOAD_SARIF"@,
        "actions/upload-artifact"@,
    ]
}

pub open spec fn workflow_command_spec(binary: Seq<char>) -> Seq<char> {
    binary + " init --ci github --dry-run"@
}

/// The command line the generated workflow gate reports.
pub fn github_workflow_command(binary: &str) -> (r: String)
    ensures
        r@ == workflow_command_spec(binary@),
{
    concat(binary, " init --ci github --dry-run")
}

/// The workflow dry-run result: the dry run must succeed and its output
/// must carry every advisory first-run needle.
pub fn github_workflow_verdict(binary: &str, outcome: &Result<CommandResult, String>) -> (r: ReleaseReadinessCheck)
    ensures
        match outcome {
            Ok(result) => if result.success {
                if missing_needles(result.stdout@, workflow_needles()).len() == 0 {
                    check_is(
                        r,
                        "github-workflow-defaults"@,
                        "pass"@,
                        true,
                        workflow_command_spec(binary@),
                        "generated GitHub workflow is advisory and starts with first-run repair guidance"@,
                        seq![".github/workflows/ripr.yml (dry-run)"@],
                        seq![],
                    )
                } else {
                    check_is(
                        r,
                        "github-workflow-defaults"@,
                        "fail"@,
                        true,
                        workflow_command_spec(binary@),
                        "generated GitHub workflow is missing expected advisory first-run artifacts"@,
                        seq![".github/workflows/ripr.yml (dry-run)"@],
                        seq!["missing: "@ + join(missing_needles(result.stdout@, workflow_needles()), ", "@)],
                    )
                }
            } else {
                check_is(
                    r,
                    "github-workflow-defaults"@,
                    "fail"@,
                    true,
                    workflow_command_spec(binary@),
                    "generated GitHub workflow dry-run failed"@,
                    seq![],
                    command_details_spec(*result),
                )
            },
            Err(e) => check_is(
                r,
                "github-workflow-defaults"@,
                "fail"@,
                true,
                workflow_command_spec(binary@),
                "generated GitHub workflow dry-run could not run"@,
                seq![],
                seq![e@],
            ),
        },
{
    let command = github_workflow_command(binary);
    match outcome {
        Ok(result) => if result.success {
            let required = vec![
                "continue-on-error: true",
                "ripr pilot",
                "ripr agent start",
                "ripr agent status",
                "ripr agent review-summary",
                "ripr reports gap-ledger",
                "ripr first-pr",
                "#### First-run status",
                "missing_start_here",
                "cat target/ripr/reports/start-here.md",
                "target/ripr/reports/gap-decision-ledger.json",
                "target/ripr/reports/start-here.md",
                "target/ripr/pilot",
                "target/ripr/workflow",
                "target/ripr/reports",
                "target/ripr/workflow/agent-status.md",
                "target/ripr/workflow/agent-review-summary.md",
                "target/ripr/reports/agent-receipt.json",
                "RIPR_UPLOAD_SARIF",
                "actions/upload-artifact",
            ];
            assert(required@.map_values(|n: &str| n@) =~= workflow_needles());
            let missing = missing_required_needles(result.stdout.as_str(), required.as_slice());
            if missing.len() == 0 {
                check_of(
                    "github-workflow-defaults",
                    "pass",
                    true,
                    command.as_str(),
                    "generated GitHub workflow is advisory and starts with first-run repair guidance",
                    one(owned(".github/workflows/ripr.yml (dry-run)")),
                    none(),
                )
            } else {
                let mut d = owned("missing: ");
                push_joined(&mut d, &missing, ", ");
                check_of(
                    "github-workflow-defaults",
                    "fail",
                    true,
                    command.as_str(),
                    "generated GitHub workflow is missing expected advisory first-run artifacts",
                    one(owned(".github/workflows/ripr.yml (dry-run)")),
                    one(d),
                )
            }
        } else {
            check_of(
                "github-workflow-defaults",
                "fail",
                true,
                command.as_str(),
                "generated GitHub workflow dry-run failed",
                none(),
                command_details(result),
            )
        },
        Err(e) => check_of(
            "github-workflow-defaults",
            "fail",
            true,
            command.as_str(),
            "generated GitHub workflow dry-run could not run",
            none(),
            one(owned(e.as_str())),
        ),
    }
}

/// Whether a contributed command is the start-current-repair command with
/// its expected title; `commands` holds each entry's command and title.
pub open spec fn has_start_repair(commands: Seq<(Option<String>, Option<String>)>) -> bool {
    exists|i: int|
        0 <= i < commands.len() && opt_text_spec((#[trigger] commands[i]).0) == Some(
            "ripr.startCurrentRepair"@,
        ) && opt_text_spec(commands[i].1) == Some("ripr: Start Current Repair"@)
}

/// Whether the editor manifest contributes the start-current-repair
/// command under its expected title.
pub fn vsix_start_current_repair_command_present(commands: &Vec<(Option<String>, Option<String>)>) -> (r:
    bool)
    ensures
        r == has_start_repair(commands@),
{
    let mut i: usize = 0;
    while i < commands.len()
        invariant
            i <= commands@.len(),
            forall|k: int|
                0 <= k < i ==> !(opt_text_spec((#[trigger] commands@[k]).0) == Some(
                    "ripr.startCurrentRepair"@,
                ) && opt_text_spec(commands@[k].1) == Some("ripr: Start Current Repair"@)),
        decreases commands.len() - i,
    {
        if opt_is_text(&commands[i].0, "ripr.startCurrentRepair") && opt_is_text(
            &commands[i].1,
            "ripr: Start Current Repair",
        ) {
            return true;
        }
        i += 1;
    }
    false
}

/// What the VSIX packaging gate found on disk.
#[derive(Clone, Debug, PartialEq, Eq)]
pub struct VsixFacts {
    pub package_json_present: bool,
    pub release_doc_present: bool,
    pub icon_present: bool,
    pub package_script_present: bool,
    pub release_doc_text: Option<String>,
    pub start_repair_command_present: bool,
}

/// What the VSIX packaging path is missing, in order.
pub open spec fn vsix_missing(f: VsixFacts) -> Seq<Seq<char>> {
    crate::release_scope::reason_if(!f.package_json_present, "editors/vscode/package.json"@)
        + crate::release_scope::reason_if(!f.release_doc_present, "docs/RELEASE_MARKETPLACE.md"@)
        + crate::release_scope::reason_if(!f.icon_present, "editors/vscode/icon.png"@)
        + crate::release_scope::reason_if(
        !f.package_script_present,
        "editors/vscode/package.json scripts.package"@,
    ) + crate::release_scope::reason_if(
        !(opt_text_spec(f.release_doc_text) matches Some(t) && (contains(t, "npm run package"@)
            || contains(t, "vsce"@))),
        "docs/RELEASE_MARKETPLACE.md package instructions"@,
    ) + crate::release_scope::reason_if(
        !f.start_repair_command_present,
        "editors/vscode/package.json contributes.commands ripr.startCurrentRepair"@,
    )
}

/// The VSIX packaging result: accepted only when nothing is missing.
pub fn vsix_packaging_verdict(f: &VsixFacts) -> (r: ReleaseReadinessCheck)
    ensures
        vsix_missing(*f).len() == 0 ==> check_is(
            r,
            "vsix-packaging-path"@,
            "pass"@,
            true,
            "npm --prefix editors/vscode run package"@,
            "VSIX package path exists and is documented"@,
            seq![
                "editors/vscode/package.json"@,
                "editors/vscode/package-lock.json"@,
                "docs/RELEASE_MARKETPLACE.md"@,
            ],
            seq![],
        ),
        vsix_missing(*f).len() != 0 ==> check_is(
            r,
            "vsix-packaging-path"@,
            "fail"@,
            true,
            "npm --prefix editors/vscode run package"@,
            "VSIX package path is incomplete"@,
            seq![],
            seq!["missing: "@ + join(vsix_missing(*f), ", "@)],
        ),
{
    let mut missing: Vec<String> = Vec::new();
    let ghost start = views(missing@);
    crate::release_scope::push_when(&mut missing, !f.package_json_present, owned("editors/vscode/package.json"));
    crate::release_scope::push_when(&mut missing, !f.release_doc_present, owned("docs/RELEASE_MARKETPLACE.md"));
    crate::release_scope::push_when(&mut missing, !f.icon_present, owned("editors/vscode/icon.png"));
    crate::release_scope::push_when(
        &mut missing,
        !f.package_script_present,
        owned("editors/vscode/package.json scripts.package"),
    );
    let documented = match &f.release_doc_text {
        Some(t) => str_contains(t.as_str(), "npm run package") || str_contains(t.as_str(), "vsce"),
        None => false,
    };
    crate::release_scope::push_when(
        &mut missing,
        !documented,
        owned("docs/RELEASE_MARKETPLACE.md package instructions"),
    );
    crate::release_scope::push_when(
        &mut missing,
        !f.start_repair_command_present,
        owned("editors/vscode/package.json contributes.commands ripr.startCurrentRepair"),
    );
    assert(views(missing@) =~= vsix_missing(*f));
    if missing.len() == 0 {
        let arts = vec![
            owned("editors/vscode/package.json"),
            owned("editors/vscode/package-lock.json"),
            owned("docs/RELEASE_MARKETPLACE.md"),
        ];
        assert(views(arts@) =~= seq![
            "editors/vscode/package.json"@,
            "editors/vscode/package-lock.json"@,
            "docs/RELEASE_MARKETPLACE.md"@,
        ]);
        check_of(
            "vsix-packaging-path",
            "pass",
            true,
            "npm --prefix editors/vscode run package",
            "VSIX package path exists and is documented",
            arts,
            none(),
        )
    } else {
        let mut d = owned("missing: ");
        push_joined(&mut d, &missing, ", ");
        check_of(
            "vsix-packaging-path",
            "fail",
            true,
            "npm --prefix editors/vscode run package",
            "VSIX package path is incomplete",
            none(),
            one(d),
        )
    }
}

pub open spec fn known_limit_docs() -> Seq<Seq<char>> {
    seq![
        "docs/INSTALLATION_VERIFICATION.md"@,
        "docs/QUICKSTART.md"@,
        "docs/EDITOR_EXTENSION.md"@,
    ]
}

/// The docs whose text could be read, joined by newlines.
pub open spec fn read_texts(texts: Seq<Option<String>>) -> Seq<Seq<char>>
    decreases texts.len(),
{
    if texts.len() == 0 {
        seq![]
    } else {
        match opt_text_spec(texts.last()) {
            Some(t) => read_texts(texts.drop_last()).push(t),
            None => read_texts(texts.drop_last()),
        }
    }
}

/// What the known-limits docs are missing: absent docs, then absent
/// known-limit phrases across the readable docs' text.
pub open spec fn known_limits_missing(present: Seq<bool>, texts: Seq<Option<String>>) -> Seq<Seq<char>> {
    let all = join(read_texts(texts), "\n"@);
    absent(known_limit_docs(), present) + crate::release_scope::reason_if(
        !contains(all, "runtime mutation"@),
        "known-limit text: runtime mutation"@,
    ) + crate::release_scope::reason_if(
        !contains(all, "CI blocking"@),
        "known-limit text: CI blocking"@,
    ) + crate::release_scope::reason_if(
        !contains(all, "unsaved-buffer"@),
        "known-limit text: unsaved-buffer"@,
    )
}

fn read_texts_exec(texts: &Vec<Option<String>>) -> (r: Vec<String>)
    ensures
        views(r@) == read_texts(texts@),
{
    let mut out: Vec<String> = Vec::new();
    let mut i: usize = 0;
    assert(texts@.take(0) =~= Seq::<Option<String>>::empty());
    while i < texts.len()
        invariant
            i <= texts@.len(),
            views(out@) == read_texts(texts@.take(i as int)),
        decreases texts.len() - i,
    {
        assert(texts@.take(i + 1).drop_last() =~= texts@.take(i as int));
        assert(texts@.take(i + 1).last() == texts@[i as int]);
        match &texts[i] {
            Some(t) => {
                let ghost before = views(out@);
                out.push(owned(t.as_str()));
                assert(views(out@) =~= before.push(t@));
            },
            None => {},
        }
        i += 1;
    }
    assert(texts@.take(texts@.len() as int) =~= texts@);
    out
}

/// The known-limits docs verdict, from which docs exist (`present`) and
/// the text of each that could be read (`texts`), one entry per doc.
pub fn known_limits_verdict(present: &Vec<bool>, texts: &Vec<Option<String>>) -> (r: ReleaseReadinessCheck)
    requires
        present@.len() == 3,
    ensures
        known_limits_missing(present@, texts@).len() == 0 ==> check_is(
            r,
            "known-limits-docs"@,
            "pass"@,
            true,
            "cargo xtask markdown-links"@,
            "known limits are documented for install, editor, and quickstart paths"@,
            known_limit_docs(),
            seq![],
        ),
        known_limits_missing(present@, texts@).len() != 0 ==> check_is(
            r,
            "known-limits-docs"@,
            "fail"@,
            true,
            "cargo xtask markdown-links"@,
            "known limits docs are incomplete"@,
            known_limit_docs(),
            seq!["missing: "@ + join(known_limits_missing(present@, texts@), ", "@)],
        ),
{
    let docs = vec![
        owned("docs/INSTALLATION_VERIFICATION.md"),
        owned("docs/QUICKSTART.md"),
        owned("docs/EDITOR_EXTENSION.md"),
    ];
    assert(views(docs@) =~= known_limit_docs());
    assert(docs@.len() == views(docs@).len());
    let mut missing = absent_exec(&docs, present);
    let mut all = String::new();
    push_joined(&mut all, &read_texts_exec(texts), "\n");
    assert(all@ =~= join(read_texts(texts@), "\n"@));
    crate::release_scope::push_when(
        &mut missing,
        !str_contains(all.as_str(), "runtime mutation"),
        owned("known-limit text: runtime mutation"),
    );
    crate::release_scope::push_when(
        &mut missing,
        !str_contains(all.as_str(), "CI blocking"),
        owned("known-limit text: CI blocking"),
    );
    crate::release_scope::push_when(
        &mut missing,
        !str_contains(all.as_str(), "unsaved-buffer"),
        owned("known-limit text: unsaved-buffer"),
    );
    assert(views(missing@) =~= known_limits_missing(present@, texts@));
    if missing.len() == 0 {
        check_of(
            "known-limits-docs",
            "pass",
            true,
            "cargo xtask markdown-links",
            "known limits are documented for install, editor, and quickstart paths",
            docs,
            none(),
        )
    } else {
        let mut d = owned("missing: ");
        push_joined(&mut d, &missing, ", ");
        check_of(
            "known-limits-docs",
            "fail",
            true,
            "cargo xtask markdown-links",
            "known limits docs are incomplete",
            docs,
            one(d),
        )
    }
}

// ---------------------------------------------------------------------------
// Packaged crate entries
// ---------------------------------------------------------------------------

/// One component of a path, as `std::path::Component` names it.
#[derive(Clone, Debug, PartialEq, Eq)]
pub enum PathPart {
    Prefix,
    RootDir,
    CurDir,
    ParentDir,
    Normal(String),
}

/// The components `std::path::Path::components` yields for a path.
pub uninterp spec fn path_parts(path: Seq<char>) -> Seq<PathPart>;

/// `std::path::Path::new(path).components()`, each component mapped to
/// the `PathPart` of the same name (a normal component keeps its text).
/// Nothing more is stated: the components are named by `path_parts`.
#[verifier::external_body]
fn path_components(path: &str) -> (r: Vec<PathPart>)
    ensures
        r@ == path_parts(path@),
{
    std::path::Path::new(path).components().map(|c| match c {
        std::path::Component::Prefix(_) => PathPart::Prefix,
        std::path::Component::RootDir => PathPart::RootDir,
        std::path::Component::CurDir => PathPart::CurDir,
        std::path::Component::ParentDir => PathPart::ParentDir,
        std::path::Component::Normal(s) => PathPart::Normal(s.to_string_lossy().into_owned()),
    }).collect()
}

/// What `std::path::Path::starts_with` says of a path and a base, both
/// given as text.
pub uninterp spec fn path_starts_with(path: Seq<char>, base: Seq<char>) -> bool;

/// `Path::new(path).starts_with(base)`: whether `base` is a leading run of
/// `path`'s components, as std compares them (parsed prefixes included).
/// The result is named by `path_starts_with`.
#[verifier::external_body]
fn starts_with_path(path: &str, base: &str) -> (r: bool)
    ensures
        r == path_starts_with(path@, base@),
{
    std::path::Path::new(path).starts_with(base)
}

/// Whether a path climbs out of, or is rooted outside, its destination.
pub open spec fn escapes(path: Seq<PathPart>) -> bool {
    exists|i: int|
        0 <= i < path.len() && ((#[trigger] path[i]) is ParentDir || path[i] is RootDir
            || path[i] is Prefix)
}

/// Why a packaged crate entry may not be unpacked, if it may not.
pub open spec fn package_entry_error(enclosed: Seq<char>, is_link: bool, root: Seq<char>) -> Option<Seq<char>> {
    if !path_starts_with(enclosed, root) {
        Some(
            "package entry "@ + crate::text::debug_quoted(enclosed) + " is outside expected root "@
                + crate::text::debug_quoted(root),
        )
    } else if escapes(path_parts(enclosed)) {
        Some("package entry "@ + crate::text::debug_quoted(enclosed) + " escapes extraction root"@)
    } else if is_link {
        Some("package entry "@ + crate::text::debug_quoted(enclosed) + " is a link"@)
    } else {
        None
    }
}

/// A packaged crate entry may be unpacked only when it lies under the
/// expected root, has no parent, root or prefix component, and is no
/// symbolic or hard link.
pub fn validate_package_entry(enclosed: &str, is_link: bool, expected_root: &str) -> (r: Result<(), String>)
    ensures
        match r {
            Ok(()) => package_entry_error(enclosed@, is_link, expected_root@) is None,
            Err(e) => package_entry_error(enclosed@, is_link, expected_root@) == Some(e@),
        },
{
    let path = path_components(enclosed);
    let under = starts_with_path(enclosed, expected_root);
    let quoted = crate::text::debug_quote(enclosed);
    if !under {
        let mut m = concat("package entry ", quoted.as_str());
        push_str(&mut m, " is outside expected root ");
        push_str(&mut m, crate::text::debug_quote(expected_root).as_str());
        return Err(m);
    }
    let mut j: usize = 0;
    while j < path.len()
        invariant
            j <= path@.len(),
            path@ == path_parts(enclosed@),
            path_starts_with(enclosed@, expected_root@),
            quoted@ == crate::text::debug_quoted(enclosed@),
            forall|k: int| 0 <= k < j ==> !((#[trigger] path@[k]) is ParentDir || path@[k] is RootDir
                || path@[k] is Prefix),
        decreases path.len() - j,
    {
        let bad = match &path[j] {
            PathPart::ParentDir => true,
            PathPart::RootDir => true,
            PathPart::Prefix => true,
            _ => false,
        };
        if bad {
            assert(escapes(path@));
            let mut m = concat("package entry ", quoted.as_str());
            push_str(&mut m, " escapes extraction root");
            return Err(m);
        }
        j += 1;
    }
    if is_link {
        let mut m = concat("package entry ", quoted.as_str());
        push_str(&mut m, " is a link");
        return Err(m);
    }
    Ok(())
}

// ---------------------------------------------------------------------------
// Authentic producer artifacts
// ---------------------------------------------------------------------------

/// What a nested path of an artifact holds.
#[derive(Clone, Debug, PartialEq, Eq)]
pub enum ArtifactText {
    Missing,
    NotText,
    Text(String),
}

/// What the authentic journey reads of a produced artifact.
#[derive(Clone, Debug, PartialEq, Eq)]
pub struct AuthenticArtifactFacts {
    pub run_status: Option<String>,
    /// `artifact.producer.tool`.
    pub producer_tool: ArtifactText,
    /// `artifact.repository.head`.
    pub head: ArtifactText,
    /// Whether `seams` is a non-empty array.
    pub has_seams: bool,
}

/// The text at `path`, or why there is none.
pub open spec fn artifact_text(t: ArtifactText, path: Seq<char>) -> Result<Seq<char>, Seq<char>> {
    match t {
        ArtifactText::Missing => Err("artifact is missing "@ + path),
        ArtifactText::NotText => Err("artifact "@ + path + " is not a string"@),
        ArtifactText::Text(s) => Ok(s@),
    }
}

/// Whether an authentic artifact is complete, produced by ripr for the
/// expected head, and has analyzed seams; the first failure otherwise.
pub open spec fn authentic_artifact_outcome(
    f: AuthenticArtifactFacts,
    expected_head: Seq<char>,
    label: Seq<char>,
) -> Result<(), Seq<char>> {
    if opt_view(f.run_status) != Some("complete"@) {
        Err("authentic "@ + label + " artifact is not complete"@)
    } else {
        match artifact_text(f.producer_tool, "artifact.producer.tool"@) {
            Err(e) => Err(e),
            Ok(tool) => if tool != "ripr"@ {
                Err("authentic "@ + label + " artifact producer is not ripr"@)
            } else {
                match artifact_text(f.head, "artifact.repository.head"@) {
                    Err(e) => Err(e),
                    Ok(head) => if head != expected_head {
                        Err("authentic "@ + label + " artifact head does not match fixture commit"@)
                    } else if !f.has_seams {
                        Err("authentic "@ + label + " artifact contains no analyzed seams"@)
                    } else {
                        Ok(())
                    },
                }
            },
        }
    }
}

/// The text at `path` of an artifact, or the error naming why there is
/// none.
pub fn artifact_text_at<'a>(t: &'a ArtifactText, path: &str) -> (r: Result<&'a str, String>)
    ensures
        match artifact_text(*t, path@) {
            Ok(s) => r matches Ok(x) && x@ == s,
            Err(e) => r matches Err(m) && m@ == e,
        },
{
    match t {
        ArtifactText::Missing => Err(concat("artifact is missing ", path)),
        ArtifactText::NotText => Err(crate::text::concat3("artifact ", path, " is not a string")),
        ArtifactText::Text(s) => Ok(s.as_str()),
    }
}

/// Checks an authentic producer artifact against the fixture commit.
pub fn validate_authentic_artifact(
    f: &AuthenticArtifactFacts,
    expected_head: &str,
    label: &str,
) -> (r: Result<(), String>)
    ensures
        match authentic_artifact_outcome(*f, expected_head@, label@) {
            Ok(()) => r is Ok,
            Err(e) => r matches Err(m) && m@ == e,
        },
{
    let complete = match &f.run_status {
        Some(s) => str_eq(s.as_str(), "complete"),
        None => false,
    };
    if !complete {
        return Err(crate::text::concat3("authentic ", label, " artifact is not complete"));
    }
    let tool = match artifact_text_at(&f.producer_tool, "artifact.producer.tool") {
        Err(e) => return Err(e),
        Ok(t) => t,
    };
    if !str_eq(tool, "ripr") {
        return Err(crate::text::concat3("authentic ", label, " artifact producer is not ripr"));
    }
    let head = match artifact_text_at(&f.head, "artifact.repository.head") {
        Err(e) => return Err(e),
        Ok(h) => h,
    };
    if !str_eq(head, expected_head) {
        return Err(
            crate::text::concat3("authentic ", label, " artifact head does not match fixture commit"),
        );
    }
    if !f.has_seams {
        return Err(crate::text::concat3("authentic ", label, " artifact contains no analyzed seams"));
    }
    Ok(())
}

} // verus!

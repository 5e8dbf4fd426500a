//! Release readiness: argument parsing, the workspace version reader, the
//! extension version gate, the overall status, and the Markdown report.

use vstd::prelude::*;
use crate::text::{
    owned, str_eq, str_trim, str_is_blank, chars_of, string_from, split_lines, split_once_char,
    split_on_char, str_contains, concat, push_str, push_char, trim, lines, char_index,
    split_char, starts_with, contains, concat_all, md_esc, md_escape, wrapped, wrapped_md,
    push_wrapped_items, push_wrapped_md_items, opt_view, opt_str_view, views, debug_quoted, debug_quote,
};

verus! {

// ---------------------------------------------------------------------------
// Reading a manifest's package version
// ---------------------------------------------------------------------------

/// How a manifest table declares its version.
#[derive(Clone, Debug, PartialEq, Eq)]
pub enum PackageVersion {
    /// `version = "0.10.0"`: the version is written in this manifest.
    Literal(String),
    /// `version.workspace = true`: the version comes from the workspace root.
    Inherited,
}

/// The view of a `PackageVersion`: `Some(text)` for a literal, `None` for
/// inheritance.
pub open spec fn package_version_view(p: PackageVersion) -> Option<Seq<char>> {
    match p {
        PackageVersion::Literal(v) => Some(v@),
        PackageVersion::Inherited => None,
    }
}

pub open spec fn opt_package_version_view(o: Option<PackageVersion>) -> Option<Option<Seq<char>>> {
    match o {
        Some(p) => Some(package_version_view(p)),
        None => None,
    }
}

/// Where a `#` comment starts in `s` when scanning from `i` with the given
/// open quote, or `s.len()` when there is none.
pub open spec fn comment_start(s: Seq<char>, i: int, quote: Option<char>) -> int
    decreases s.len() - i,
{
    if i < 0 || i >= s.len() {
        s.len() as int
    } else {
        let ch = s[i];
        match quote {
            None => {
                if ch == '"' || ch == '\'' {
                    comment_start(s, i + 1, Some(ch))
                } else if ch == '#' {
                    i
                } else {
                    comment_start(s, i + 1, None)
                }
            },
            Some(open) => {
                if ch == open {
                    comment_start(s, i + 1, None)
                } else {
                    comment_start(s, i + 1, quote)
                }
            },
        }
    }
}

/// `line` without a trailing `#` comment that begins outside quotes.
pub open spec fn strip_comment(line: Seq<char>) -> Seq<char> {
    line.take(comment_start(line, 0, None))
}

/// The contents of a quoted TOML string, if `v` is one.
pub open spec fn unquote(v: Seq<char>) -> Option<Seq<char>> {
    if v.len() > 0 && (v[0] == '"' || v[0] == '\'') {
        let rest = v.drop_first();
        if rest.len() > 0 && rest.last() == v[0] {
            Some(rest.drop_last())
        } else {
            None
        }
    } else {
        None
    }
}

/// Whether one `key = value` entry of an inline table is `workspace = true`.
pub open spec fn entry_is_workspace_true(entry: Seq<char>) -> bool {
    let k = char_index(entry, '=');
    k < entry.len() && trim(entry.take(k as int)) == "workspace"@ && trim(entry.skip(k + 1int))
        == "true"@
}

/// Whether `v` is an inline table declaring `workspace = true`.
pub open spec fn inherits_workspace(v: Seq<char>) -> bool {
    v.len() >= 2 && v[0] == '{' && v.last() == '}' && exists|i: int|
        0 <= i < split_char(v.subrange(1, v.len() - 1), ',').len() && entry_is_workspace_true(
            #[trigger] split_char(v.subrange(1, v.len() - 1), ',')[i],
        )
}

/// The version declared in the `[section]` table of the manifest lines,
/// scanning from the first line with `in_section` telling whether the scan
/// is inside that table.
pub open spec fn scan_version(lines: Seq<Seq<char>>, header: Seq<char>, in_section: bool) -> Option<
    Option<Seq<char>>,
>
    decreases lines.len(),
{
    if lines.len() == 0 {
        None
    } else {
        let rest = lines.drop_first();
        let t = trim(strip_comment(lines[0]));
        if t.len() == 0 {
            scan_version(rest, header, in_section)
        } else if t[0] == '[' {
            scan_version(rest, header, t == header)
        } else if !in_section {
            scan_version(rest, header, false)
        } else {
            let k = char_index(t, '=');
            if k >= t.len() {
                scan_version(rest, header, true)
            } else {
                let key = trim(t.take(k as int));
                let value = trim(t.skip(k + 1int));
                if key == "version"@ && inherits_workspace(value) {
                    Some(None)
                } else if key == "version"@ {
                    match unquote(value) {
                        None => None,
                        Some(version) => {
                            if version.len() > 0 {
                                Some(Some(version))
                            } else {
                                scan_version(rest, header, true)
                            }
                        },
                    }
                } else if key == "version.workspace"@ && value == "true"@ {
                    Some(None)
                } else {
                    scan_version(rest, header, true)
                }
            }
        }
    }
}

/// The version of the `[section]` table of a manifest: `Some(Some(v))` for
/// a literal, `Some(None)` for inheritance, `None` when unreadable.
pub open spec fn package_version_spec(text: Seq<char>, section: Seq<char>) -> Option<
    Option<Seq<char>>,
> {
    scan_version(lines(text), seq!['['] + section + seq![']'], false)
}

/// `line` without a trailing `#` comment that begins outside a quoted string.
pub fn strip_toml_comment(line: &str) -> (r: String)
    ensures
        r@ == strip_comment(line@),
{
    let v = chars_of(line);
    let mut quote: Option<char> = None;
    let mut i: usize = 0;
    while i < v.len()
        invariant
            i <= v@.len(),
            v@ == line@,
            comment_start(v@, i as int, quote) == comment_start(v@, 0, None),
        decreases v.len() - i,
    {
        let ch = v[i];
        match quote {
            None => {
                if ch == '"' || ch == '\'' {
                    quote = Some(ch);
                } else if ch == '#' {
                    return string_from(&v, 0, i);
                }
            },
            Some(open) => {
                if ch == open {
                    quote = None;
                }
            },
        }
        i += 1;
    }
    string_from(&v, 0, v.len())
}

/// The contents of a quoted TOML string, or `None` when `value` is not one.
pub fn unquote_toml_string(value: &str) -> (r: Option<String>)
    ensures
        r matches Some(s) ==> unquote(value@) == Some(s@),
        r is None ==> unquote(value@) is None,
{
    let v = chars_of(value);
    if v.len() >= 2 && (v[0] == '"' || v[0] == '\'') && v[v.len() - 1] == v[0] {
        let s = string_from(&v, 1, v.len() - 1);
        assert(v@.drop_first().drop_last() =~= v@.subrange(1, v@.len() - 1));
        Some(s)
    } else {
        None
    }
}

/// Whether an inline table declares workspace inheritance
/// (`{ workspace = true }`).
pub fn inline_table_inherits_workspace(value: &str) -> (r: bool)
    ensures
        r == inherits_workspace(value@),
{
    let v = chars_of(value);
    if v.len() < 2 || v[0] != '{' || v[v.len() - 1] != '}' {
        return false;
    }
    let inner = string_from(&v, 1, v.len() - 1);
    let entries = split_on_char(inner.as_str(), ',');
    let ghost pieces = split_char(v@.subrange(1, v@.len() - 1), ',');
    assert(entries@.map_values(|l: String| l@) == pieces);
    let mut i: usize = 0;
    while i < entries.len()
        invariant
            i <= entries@.len(),
            v@ == value@,
            v@.len() >= 2,
            v@[0] == '{',
            v@.last() == '}',
            pieces == split_char(v@.subrange(1, v@.len() - 1), ','),
            entries@.len() == pieces.len(),
            forall|j: int| 0 <= j < entries@.len() ==> (#[trigger] entries@[j])@ == pieces[j],
            forall|j: int| 0 <= j < i ==> !entry_is_workspace_true(#[trigger] pieces[j]),
        decreases entries.len() - i,
    {
        let entry = &entries[i];
        if let Some((key, val)) = split_once_char(entry.as_str(), '=') {
            let k = str_trim(key.as_str());
            let w = str_trim(val.as_str());
            if str_eq(k.as_str(), "workspace") && str_eq(w.as_str(), "true") {
                assert(entry_is_workspace_true(pieces[i as int]));
                assert(0 <= i < split_char(value@.subrange(1, value@.len() - 1), ',').len()
                    && entry_is_workspace_true(
                    split_char(value@.subrange(1, value@.len() - 1), ',')[i as int],
                ));
                return true;
            }
        }
        i += 1;
    }
    false
}

/// Extract the `version` key from one top-level table of a manifest.
///
/// Only the `[section]` table is consulted, so a dependency's `version` can
/// never stand in for the package's own. Returns `None` for anything that is
/// not a real version or an inheritance declaration.
pub fn package_version(text: &str, section: &str) -> (r: Option<PackageVersion>)
    ensures
        opt_package_version_view(r) == package_version_spec(text@, section@),
{
    let mut header = String::new();
    push_char(&mut header, '[');
    push_str(&mut header, section);
    push_char(&mut header, ']');
    let all = split_lines(text);
    let ghost ls = lines(text@);
    let ghost h = seq!['['] + section@ + seq![']'];
    assert(header@ =~= h);
    let mut in_section = false;
    let mut i: usize = 0;
    assert(ls.skip(0) =~= ls);
    while i < all.len()
        invariant
            i <= all@.len(),
            all@.len() == ls.len(),
            ls == lines(text@),
            h == seq!['['] + section@ + seq![']'],
            forall|j: int| 0 <= j < all@.len() ==> (#[trigger] all@[j])@ == ls[j],
            header@ == h,
            scan_version(ls.skip(i as int), h, in_section) == scan_version(ls, h, false),
        decreases all.len() - i,
    {
        assert(ls.skip(i as int)[0] == ls[i as int]);
        assert(ls.skip(i as int).drop_first() =~= ls.skip(i + 1));
        let stripped = strip_toml_comment(all[i].as_str());
        let trimmed = str_trim(stripped.as_str());
        let tv = chars_of(trimmed.as_str());
        if tv.len() == 0 {
            i += 1;
            continue;
        }
        if tv[0] == '[' {
            in_section = str_eq(trimmed.as_str(), header.as_str());
            i += 1;
            continue;
        }
        if !in_section {
            i += 1;
            continue;
        }
        match split_once_char(trimmed.as_str(), '=') {
            None => {
                i += 1;
                continue;
            },
            Some((key, value)) => {
                let key = str_trim(key.as_str());
                let value = str_trim(value.as_str());
                if str_eq(key.as_str(), "version") {
                    if inline_table_inherits_workspace(value.as_str()) {
                        assert(scan_version(ls.skip(i as int), h, in_section) == Some(
                            None::<Seq<char>>,
                        ));
                        let r = Some(PackageVersion::Inherited);
                        return r;
                    }
                    match unquote_toml_string(value.as_str()) {
                        None => {
                            return None;
                        },
                        Some(version) => {
                            if chars_of(version.as_str()).len() > 0 {
                                return Some(PackageVersion::Literal(version));
                            }
                        },
                    }
                } else if str_eq(key.as_str(), "version.workspace") && str_eq(
                    value.as_str(),
                    "true",
                ) {
                    assert(scan_version(ls.skip(i as int), h, in_section) == Some(
                        None::<Seq<char>>,
                    ));
                    let r = Some(PackageVersion::Inherited);
                        return r;
                }
            },
        }
        i += 1;
    }
    assert(ls.skip(i as int).len() == 0);
    None
}

/// The effective package version from a member manifest and, when the member
/// inherits, the workspace root manifest (`None` for an unreadable file).
/// Inheritance must end in a real version or in `None`, never a guess.
pub open spec fn crate_version_spec(member: Option<Seq<char>>, workspace: Option<Seq<char>>) -> Option<
    Seq<char>,
> {
    match member {
        None => None,
        Some(m) => match package_version_spec(m, "package"@) {
            None => None,
            Some(Some(v)) => Some(v),
            Some(None) => match workspace {
                None => None,
                Some(w) => match package_version_spec(w, "workspace.package"@) {
                    Some(Some(v)) => Some(v),
                    _ => None,
                },
            },
        },
    }
}

/// Resolves the effective package version of a member manifest through
/// `version.workspace = true` inheritance.
pub fn read_crate_version(member: Option<&str>, workspace: Option<&str>) -> (r: Option<String>)
    ensures
        opt_view(r) == crate_version_spec(opt_str_view(member), opt_str_view(workspace)),
{
    let member = match member {
        None => return None,
        Some(m) => m,
    };
    match package_version(member, "package") {
        None => None,
        Some(PackageVersion::Literal(version)) => Some(version),
        Some(PackageVersion::Inherited) => {
            let workspace = match workspace {
                None => return None,
                Some(w) => w,
            };
            match package_version(workspace, "workspace.package") {
                Some(PackageVersion::Literal(version)) => Some(version),
                _ => None,
            }
        },
    }
}

// ---------------------------------------------------------------------------
// Arguments
// ---------------------------------------------------------------------------

/// Parsed `release-readiness` arguments.
#[derive(Clone, Debug, PartialEq, Eq)]
pub struct ReleaseReadinessArgs {
    pub version: String,
}

pub open spec fn readiness_usage_text() -> Seq<char> {
    "Usage: cargo xtask release-readiness --version <version>"@
}

/// The usage line of `release-readiness`.
pub fn release_readiness_usage() -> (r: String)
    ensures
        r@ == readiness_usage_text(),
{
    owned("Usage: cargo xtask release-readiness --version <version>")
}

/// How a `--version <v>`-only command line parses from position `i`, with
/// the version seen so far: `Ok(version)` or the error message.
pub open spec fn scan_version_args(
    args: Seq<Seq<char>>,
    i: int,
    version: Option<Seq<char>>,
    command: Seq<char>,
    usage: Seq<char>,
) -> Result<Seq<char>, Seq<char>>
    decreases args.len() - i,
{
    if i < 0 || i >= args.len() {
        match version {
            None => Err(usage),
            Some(v) => if trim(v).len() == 0 {
                Err(usage)
            } else {
                Ok(v)
            },
        }
    } else if args[i] == "--version"@ {
        if i + 1 >= args.len() {
            Err(usage)
        } else {
            scan_version_args(args, i + 2, Some(args[i + 1]), command, usage)
        }
    } else if args[i] == "--help"@ || args[i] == "-h"@ {
        Err(usage)
    } else {
        Err("unknown "@ + command + " argument "@ + debug_quoted(args[i]) + "\n"@ + usage)
    }
}

/// Parses a command line that takes exactly `--version <version>`.
pub fn parse_version_only_args(args: &[String], command: &str, usage: &str) -> (r: Result<
    String,
    String,
>)
    ensures
        match r {
            Ok(v) => scan_version_args(views(args@), 0, None, command@, usage@) == Ok::<
                Seq<char>,
                Seq<char>,
            >(v@),
            Err(e) => scan_version_args(views(args@), 0, None, command@, usage@) == Err::<
                Seq<char>,
                Seq<char>,
            >(e@),
        },
{
    let ghost a = views(args@);
    let mut version: Option<String> = None;
    let mut index: usize = 0;
    while index < args.len()
        invariant
            a == views(args@),
            a.len() == args@.len(),
            scan_version_args(a, index as int, opt_view(version), command@, usage@)
                == scan_version_args(a, 0, None, command@, usage@),
        decreases args.len() - index,
    {
        let arg = args[index].as_str();
        assert(a[index as int] == arg@);
        if str_eq(arg, "--version") {
            if index + 1 >= args.len() {
                return Err(owned(usage));
            }
            assert(a[index + 1] == args@[index + 1]@);
            version = Some(owned(args[index + 1].as_str()));
            index += 2;
        } else if str_eq(arg, "--help") || str_eq(arg, "-h") {
            return Err(owned(usage));
        } else {
            let mut message = owned("unknown ");
            push_str(&mut message, command);
            push_str(&mut message, " argument ");
            let quoted = debug_quote(arg);
            push_str(&mut message, quoted.as_str());
            push_str(&mut message, "\n");
            push_str(&mut message, usage);
            return Err(message);
        }
    }
    match version {
        None => Err(owned(usage)),
        Some(v) => {
            if str_is_blank(v.as_str()) {
                Err(owned(usage))
            } else {
                Ok(v)
            }
        },
    }
}

/// Parses `release-readiness` arguments: `--version <version>` is required
/// and must not be blank.
pub fn parse_release_readiness_args(args: &[String]) -> (r: Result<ReleaseReadinessArgs, String>)
    ensures
        match r {
            Ok(parsed) => scan_version_args(
                views(args@),
                0,
                None,
                "release-readiness"@,
                readiness_usage_text(),
            ) == Ok::<Seq<char>, Seq<char>>(parsed.version@),
            Err(e) => scan_version_args(
                views(args@),
                0,
                None,
                "release-readiness"@,
                readiness_usage_text(),
            ) == Err::<Seq<char>, Seq<char>>(e@),
        },
{
    let usage = release_readiness_usage();
    match parse_version_only_args(args, "release-readiness", usage.as_str()) {
        Ok(version) => Ok(ReleaseReadinessArgs { version }),
        Err(e) => Err(e),
    }
}

// ---------------------------------------------------------------------------
// Checks and status
// ---------------------------------------------------------------------------

/// One release readiness check.
#[derive(Clone, Debug, PartialEq, Eq)]
pub struct ReleaseReadinessCheck {
    pub id: String,
    pub status: String,
    pub required: bool,
    pub command: String,
    pub summary: String,
    pub artifacts: Vec<String>,
    pub details: Vec<String>,
}

/// A check with the given fields.
pub fn readiness_check(
    id: &str,
    status: &str,
    required: bool,
    command: &str,
    summary: &str,
    artifacts: Vec<String>,
    details: Vec<String>,
) -> (r: ReleaseReadinessCheck)
    ensures
        r.id@ == id@,
        r.status@ == status@,
        r.required == required,
        r.command@ == command@,
        r.summary@ == summary@,
        r.artifacts@ == artifacts@,
        r.details@ == details@,
{
    ReleaseReadinessCheck {
        id: owned(id),
        status: owned(status),
        required,
        command: owned(command),
        summary: owned(summary),
        artifacts,
        details,
    }
}

pub open spec fn has_required_failure(checks: Seq<ReleaseReadinessCheck>) -> bool {
    exists|i: int|
        0 <= i < checks.len() && (#[trigger] checks[i]).required && checks[i].status@ == "fail"@
}

pub open spec fn has_warning(checks: Seq<ReleaseReadinessCheck>) -> bool {
    exists|i: int|
        0 <= i < checks.len() && ((#[trigger] checks[i]).status@ == "warn"@ || checks[i].status@
            == "not_run"@)
}

/// The overall status: `fail` when a required check failed, otherwise
/// `warn` when a check warned or did not run, otherwise `pass`.
pub open spec fn readiness_status(checks: Seq<ReleaseReadinessCheck>) -> Seq<char> {
    if has_required_failure(checks) {
        "fail"@
    } else if has_warning(checks) {
        "warn"@
    } else {
        "pass"@
    }
}

/// The overall release readiness status.
pub fn release_readiness_status(checks: &[ReleaseReadinessCheck]) -> (r: &'static str)
    ensures
        r@ == readiness_status(checks@),
{
    let mut i: usize = 0;
    while i < checks.len()
        invariant
            i <= checks@.len(),
            forall|j: int|
                0 <= j < i ==> !((#[trigger] checks@[j]).required && checks@[j].status@ == "fail"@),
        decreases checks.len() - i,
    {
        if checks[i].required && str_eq(checks[i].status.as_str(), "fail") {
            return "fail";
        }
        i += 1;
    }
    let mut j: usize = 0;
    while j < checks.len()
        invariant
            j <= checks@.len(),
            !has_required_failure(checks@),
            forall|k: int|
                0 <= k < j ==> !((#[trigger] checks@[k]).status@ == "warn"@ || checks@[k].status@
                    == "not_run"@),
        decreases checks.len() - j,
    {
        if str_eq(checks[j].status.as_str(), "warn") || str_eq(checks[j].status.as_str(), "not_run") {
            return "warn";
        }
        j += 1;
    }
    "pass"
}

/// The commands of the checks that did not pass, in check order.
pub open spec fn failing_commands(checks: Seq<ReleaseReadinessCheck>) -> Seq<Seq<char>>
    decreases checks.len(),
{
    if checks.len() == 0 {
        seq![]
    } else {
        let rest = failing_commands(checks.drop_last());
        if checks.last().status@ != "pass"@ {
            rest.push(checks.last().command@)
        } else {
            rest
        }
    }
}

/// The next commands: those of the checks that did not pass, or the
/// readiness command itself when every check passed.
pub open spec fn next_commands_spec(checks: Seq<ReleaseReadinessCheck>, version: Seq<char>) -> Seq<
    Seq<char>,
> {
    if failing_commands(checks).len() == 0 {
        seq!["cargo xtask release-readiness --version "@ + version]
    } else {
        failing_commands(checks)
    }
}

/// The commands to run next.
pub fn release_readiness_next_commands(checks: &[ReleaseReadinessCheck], version: &str) -> (r: Vec<
    String,
>)
    ensures
        views(r@) == next_commands_spec(checks@, version@),
{
    let mut out: Vec<String> = Vec::new();
    let mut i: usize = 0;
    while i < checks.len()
        invariant
            i <= checks@.len(),
            views(out@) == failing_commands(checks@.take(i as int)),
        decreases checks.len() - i,
    {
        let ghost before = views(out@);
        assert(checks@.take(i + 1).drop_last() =~= checks@.take(i as int));
        if !str_eq(checks[i].status.as_str(), "pass") {
            out.push(owned(checks[i].command.as_str()));
            assert(views(out@) =~= before.push(checks@[i as int].command@));
        }
        i += 1;
    }
    assert(checks@.take(checks@.len() as int) =~= checks@);
    if out.len() == 0 {
        out.push(concat("cargo xtask release-readiness --version ", version));
        assert(views(out@) =~= seq!["cargo xtask release-readiness --version "@ + version@]);
    }
    out
}

/// A release that some required check failed is never reported as
/// anything but `fail`.
pub proof fn law_required_failure_fails_the_release(checks: Seq<ReleaseReadinessCheck>, i: int)
    requires
        0 <= i < checks.len(),
        checks[i].required,
        checks[i].status@ == "fail"@,
    ensures
        readiness_status(checks) == "fail"@,
{
    assert(has_required_failure(checks));
}

/// A `pass` status means no check failed while required and no check warned
/// or was skipped.
pub proof fn law_pass_means_every_check_clean(checks: Seq<ReleaseReadinessCheck>, i: int)
    requires
        0 <= i < checks.len(),
        readiness_status(checks) == "pass"@,
    ensures
        !(checks[i].required && checks[i].status@ == "fail"@),
        checks[i].status@ != "warn"@,
        checks[i].status@ != "not_run"@,
{
    reveal_strlit("pass");
    reveal_strlit("fail");
    reveal_strlit("warn");
    assert("pass"@[0] != "fail"@[0]);
    assert("pass"@[0] != "warn"@[0]);
    assert(!has_required_failure(checks));
    assert(!has_warning(checks));
}

/// The overall status is decided by the checks' fields alone: `fail`
/// exactly when some required check failed; otherwise `warn` exactly when
/// some check warned or did not run; otherwise `pass`.
pub proof fn law_status_follows_the_checks(checks: Seq<ReleaseReadinessCheck>)
    ensures
        (readiness_status(checks) == "fail"@) <==> exists|i: int|
            0 <= i < checks.len() && (#[trigger] checks[i]).required && checks[i].status@ == "fail"@,
        (forall|i: int| 0 <= i < checks.len() ==> !((#[trigger] checks[i]).required && checks[i].status@
            == "fail"@)) ==> ((readiness_status(checks) == "warn"@) <==> exists|i: int|
            0 <= i < checks.len() && ((#[trigger] checks[i]).status@ == "warn"@ || checks[i].status@
                == "not_run"@)),
        (forall|i: int|
            0 <= i < checks.len() ==> !((#[trigger] checks[i]).required && checks[i].status@ == "fail"@)
                && checks[i].status@ != "warn"@ && checks[i].status@ != "not_run"@) ==> readiness_status(
            checks,
        ) == "pass"@,
{
    reveal_strlit("pass");
    reveal_strlit("fail");
    reveal_strlit("warn");
    assert("pass"@[0] != "fail"@[0]);
    assert("pass"@[0] != "warn"@[0]);
    assert("warn"@[0] != "fail"@[0]);
}

/// The report always proposes at least one next command.
pub proof fn law_next_commands_never_empty(checks: Seq<ReleaseReadinessCheck>, version: Seq<char>)
    ensures
        next_commands_spec(checks, version).len() > 0,
{
}

// ---------------------------------------------------------------------------
// The extension version gate
// ---------------------------------------------------------------------------

/// One editor manifest reading: where it came from and the version it holds
/// (`None` when unreadable).
#[derive(Clone, Debug, PartialEq, Eq)]
pub struct EditorVersion {
    pub source: String,
    pub value: Option<String>,
}

/// The problem reported for each editor reading that is unreadable or names
/// another version, in reading order.
pub open spec fn editor_problems(editors: Seq<EditorVersion>, version: Seq<char>) -> Seq<Seq<char>>
    decreases editors.len(),
{
    if editors.len() == 0 {
        seq![]
    } else {
        let rest = editor_problems(editors.drop_last(), version);
        let e = editors.last();
        match e.value {
            None => rest.push(e.source@ + " is unreadable"@),
            Some(found) => if found@ != version {
                rest.push(
                    e.source@ + " is "@ + found@ + " != requested release version "@ + version,
                )
            } else {
                rest
            },
        }
    }
}

pub open spec fn workspace_problem(krate: Seq<char>, version: Seq<char>) -> Seq<char> {
    "workspace package version "@ + krate + " != requested release version "@ + version
        + " (bump [workspace.package] version in Cargo.toml)"@
}

/// Every disagreement with the requested release version.
pub open spec fn version_problems(krate: Seq<char>, version: Seq<char>, editors: Seq<EditorVersion>) -> Seq<
    Seq<char>,
> {
    if krate != version {
        seq![workspace_problem(krate, version)] + editor_problems(editors, version)
    } else {
        editor_problems(editors, version)
    }
}

pub open spec fn extension_check_command() -> Seq<char> {
    "compare the requested release version to the workspace package version (Cargo.toml) and the editor manifests"@
}

pub open spec fn extension_sources() -> Seq<Seq<char>> {
    seq!["Cargo.toml"@, "editors/vscode/package.json"@, "editors/vscode/package-lock.json"@]
}

/// Fail-closed comparison of the workspace version and the editor manifests
/// against the requested release version: only exact agreement passes.
pub fn extension_version_check_from(
    version: &str,
    crate_version: Option<&str>,
    editors: &[EditorVersion],
) -> (r: ReleaseReadinessCheck)
    ensures
        r.id@ == "extension-version-match"@,
        r.required,
        r.command@ == extension_check_command(),
        match crate_version {
            None => {
                &&& r.status@ == "fail"@
                &&& r.summary@ == "could not read the workspace package version"@
                &&& r.artifacts@.len() == 0
                &&& views(r.details@) == seq![
                    "workspace package version unreadable via crates/ripr/Cargo.toml -> Cargo.toml [workspace.package]"@,
                ]
            },
            Some(krate) => {
                let problems = version_problems(krate@, version@, editors@);
                if problems.len() == 0 {
                    &&& r.status@ == "pass"@
                    &&& r.summary@
                        == "the workspace package version and both editor manifests match the requested release version"@
                    &&& views(r.artifacts@) == extension_sources()
                    &&& r.details@.len() == 0
                } else {
                    &&& r.status@ == "fail"@
                    &&& r.summary@
                        == "the release version is not consistently declared; the marketplace publish would fail or republish a stale version"@
                    &&& r.artifacts@.len() == 0
                    &&& views(r.details@) == problems
                }
            },
        },
{
    let command = "compare the requested release version to the workspace package version (Cargo.toml) and the editor manifests";
    let krate = match crate_version {
        None => {
            let mut details: Vec<String> = Vec::new();
            details.push(
                owned(
                    "workspace package version unreadable via crates/ripr/Cargo.toml -> Cargo.toml [workspace.package]",
                ),
            );
            let r = readiness_check(
                "extension-version-match",
                "fail",
                true,
                command,
                "could not read the workspace package version",
                Vec::new(),
                details,
            );
            assert(views(r.details@) =~= seq![
                "workspace package version unreadable via crates/ripr/Cargo.toml -> Cargo.toml [workspace.package]"@,
            ]);
            return r;
        },
        Some(k) => k,
    };
    let mut problems: Vec<String> = Vec::new();
    if !str_eq(krate, version) {
        let mut p = owned("workspace package version ");
        push_str(&mut p, krate);
        push_str(&mut p, " != requested release version ");
        push_str(&mut p, version);
        push_str(&mut p, " (bump [workspace.package] version in Cargo.toml)");
        problems.push(p);
    }
    let ghost head = views(problems@);
    assert(head + editor_problems(editors@.take(0), version@) =~= head);
    let mut i: usize = 0;
    while i < editors.len()
        invariant
            i <= editors@.len(),
            views(problems@) == head + editor_problems(editors@.take(i as int), version@),
        decreases editors.len() - i,
    {
        let ghost before = views(problems@);
        let editor = &editors[i];
        assert(editors@.take(i + 1).drop_last() =~= editors@.take(i as int));
        assert(editors@.take(i + 1).last() == editors@[i as int]);
        match &editor.value {
            None => {
                problems.push(concat(editor.source.as_str(), " is unreadable"));
                assert(views(problems@) =~= before.push(editor.source@ + " is unreadable"@));
            },
            Some(found) => {
                if !str_eq(found.as_str(), version) {
                    let mut p = owned(editor.source.as_str());
                    push_str(&mut p, " is ");
                    push_str(&mut p, found.as_str());
                    push_str(&mut p, " != requested release version ");
                    push_str(&mut p, version);
                    problems.push(p);
                    assert(views(problems@) =~= before.push(p@));
                }
            },
        }
        i += 1;
    }
    assert(editors@.take(editors@.len() as int) =~= editors@);
    assert(views(problems@) =~= version_problems(krate@, version@, editors@));
    if problems.len() == 0 {
        let mut sources: Vec<String> = Vec::new();
        sources.push(owned("Cargo.toml"));
        sources.push(owned("editors/vscode/package.json"));
        sources.push(owned("editors/vscode/package-lock.json"));
        assert(views(sources@) =~= extension_sources());
        readiness_check(
            "extension-version-match",
            "pass",
            true,
            command,
            "the workspace package version and both editor manifests match the requested release version",
            sources,
            Vec::new(),
        )
    } else {
        readiness_check(
            "extension-version-match",
            "fail",
            true,
            command,
            "the release version is not consistently declared; the marketplace publish would fail or republish a stale version",
            Vec::new(),
            problems,
        )
    }
}

/// The extension gate passes only when the workspace version and every
/// editor reading equal the requested release version.
pub proof fn law_extension_gate_passes_only_on_exact_agreement(
    krate: Seq<char>,
    version: Seq<char>,
    editors: Seq<EditorVersion>,
    i: int,
)
    requires
        version_problems(krate, version, editors).len() == 0,
        0 <= i < editors.len(),
    ensures
        krate == version,
        editors[i].value matches Some(v) && v@ == version,
    decreases editors.len(),
{
    if krate != version {
        assert(version_problems(krate, version, editors).len() > 0);
    }
    lemma_no_editor_problems(editors, version, i);
}

proof fn lemma_no_editor_problems(editors: Seq<EditorVersion>, version: Seq<char>, i: int)
    requires
        editor_problems(editors, version).len() == 0,
        0 <= i < editors.len(),
    ensures
        editors[i].value matches Some(v) && v@ == version,
    decreases editors.len(),
{
    let rest = editors.drop_last();
    let e = editors.last();
    match e.value {
        None => {},
        Some(found) => {
            if found@ == version {
                if i < editors.len() - 1 {
                    assert(rest[i] == editors[i]);
                    lemma_no_editor_problems(rest, version, i);
                }
            }
        },
    }
}

// ---------------------------------------------------------------------------
// Command surfaces, identities and details
// ---------------------------------------------------------------------------

/// The required needles that do not occur in `text`, in order.
pub open spec fn missing_needles(text: Seq<char>, required: Seq<Seq<char>>) -> Seq<Seq<char>>
    decreases required.len(),
{
    if required.len() == 0 {
        seq![]
    } else {
        let rest = missing_needles(text, required.drop_last());
        if contains(text, required.last()) {
            rest
        } else {
            rest.push(required.last())
        }
    }
}

/// The needles of `required` that `text` does not contain.
pub fn missing_required_needles(text: &str, required: &[&str]) -> (r: Vec<String>)
    ensures
        views(r@) == missing_needles(text@, required@.map_values(|n: &str| n@)),
{
    let ghost req = required@.map_values(|n: &str| n@);
    let mut out: Vec<String> = Vec::new();
    let mut i: usize = 0;
    while i < required.len()
        invariant
            i <= required@.len(),
            req == required@.map_values(|n: &str| n@),
            views(out@) == missing_needles(text@, req.take(i as int)),
        decreases required.len() - i,
    {
        let ghost before = views(out@);
        assert(req.take(i + 1).drop_last() =~= req.take(i as int));
        assert(req.take(i + 1).last() == required@[i as int]@);
        if !str_contains(text, required[i]) {
            out.push(owned(required[i]));
            assert(views(out@) =~= before.push(required@[i as int]@));
        }
        i += 1;
    }
    assert(req.take(required@.len() as int) =~= req);
    out
}

/// Commands the bounded first screen (`ripr --help`) must keep offering.
pub fn first_screen_needles() -> (r: Vec<&'static str>)
    ensures
        r@.map_values(|n: &str| n@) == seq!["ripr doctor"@, "ripr check"@, "ripr first-pr"@],
{
    let r = vec!["ripr doctor", "ripr check", "ripr first-pr"];
    assert(r@.map_values(|n: &str| n@) =~= seq!["ripr doctor"@, "ripr check"@, "ripr first-pr"@]);
    r
}

/// Release-loop commands the exhaustive reference (`ripr help --all`) must list.
pub fn release_loop_needles() -> (r: Vec<&'static str>)
    ensures
        r@.map_values(|n: &str| n@) == seq![
            "ripr pilot"@,
            "ripr outcome"@,
            "ripr first-pr"@,
            "ripr calibrate cargo-mutants"@,
            "ripr agent verify"@,
            "ripr agent receipt"@,
        ],
{
    let r = vec![
        "ripr pilot",
        "ripr outcome",
        "ripr first-pr",
        "ripr calibrate cargo-mutants",
        "ripr agent verify",
        "ripr agent receipt",
    ];
    assert(r@.map_values(|n: &str| n@) =~= seq![
        "ripr pilot"@,
        "ripr outcome"@,
        "ripr first-pr"@,
        "ripr calibrate cargo-mutants"@,
        "ripr agent verify"@,
        "ripr agent receipt"@,
    ]);
    r
}

/// The installed binary must differ from the workspace build.
pub fn validate_binary_identity(workspace_digest: &str, installed_digest: &str) -> (r: Result<
    (),
    String,
>)
    ensures
        r is Ok == (workspace_digest@ != installed_digest@),
        r matches Err(e) ==> e@ == "installed binary unexpectedly matches workspace binary digest"@,
{
    if str_eq(installed_digest, workspace_digest) {
        return Err(owned("installed binary unexpectedly matches workspace binary digest"));
    }
    Ok(())
}

/// The installed binary's `--version` output must name the packaged version.
pub fn validate_installed_version(success: bool, stdout: &str, version: &str) -> (r: Result<
    (),
    String,
>)
    ensures
        r is Ok == (success && contains(stdout@, "ripr "@ + version@)),
        r matches Err(e) ==> e@
            == "installed binary version output did not identify the packaged crate version"@,
{
    let expected = concat("ripr ", version);
    if !success || !str_contains(stdout, expected.as_str()) {
        return Err(
            owned("installed binary version output did not identify the packaged crate version"),
        );
    }
    Ok(())
}

/// The `status` field of a doctor report must be `pass` on a successful run.
pub fn validate_doctor_result(success: bool, doctor_status: Option<&str>) -> (r: Result<(), String>)
    ensures
        r is Ok == (success && opt_str_view(doctor_status) == Some("pass"@)),
        r matches Err(e) ==> e@
            == "installed ripr doctor did not report pass for the external fixture"@,
{
    let ok = match doctor_status {
        Some(status) => success && str_eq(status, "pass"),
        None => false,
    };
    if !ok {
        return Err(owned("installed ripr doctor did not report pass for the external fixture"));
    }
    Ok(())
}

/// The outcome of one external command.
#[derive(Clone, Debug)]
pub struct CommandResult {
    pub status: Option<i32>,
    pub success: bool,
    pub stdout: String,
    pub stderr: String,
}

/// `label: <first line>` of the trimmed text, or nothing when it is blank.
pub open spec fn trimmed_detail(label: Seq<char>, text: Seq<char>) -> Seq<Seq<char>> {
    let t = crate::text::trim(text);
    if t.len() == 0 {
        seq![]
    } else {
        match crate::text::first_line(t) {
            Some(l) => seq![label + ": "@ + l],
            None => seq![label + ": "@ + t],
        }
    }
}

/// Appends `label: <first line>` of the trimmed text, unless it is blank.
pub fn push_trimmed_detail(details: &mut Vec<String>, label: &str, text: &str)
    ensures
        views(final(details)@) == views(old(details)@) + trimmed_detail(label@, text@),
{
    let trimmed = str_trim(text);
    let tv = chars_of(trimmed.as_str());
    if tv.len() == 0 {
        assert(views(details@) =~= views(details@) + Seq::<Seq<char>>::empty());
        return;
    }
    let k = crate::text::char_index_from(&tv, '\n', 0);
    assert(tv@.skip(0) =~= tv@);
    let mut end = k;
    if k < tv.len() && end > 0 && tv[end - 1] == '\r' {
        end = end - 1;
    }
    let line = string_from(&tv, 0, end);
    assert(line@ == crate::text::first_line(tv@)->0) by {
        if k < tv@.len() {
            let piece = tv@.take(k as int);
            if piece.len() > 0 && piece.last() == '\r' {
                assert(piece.drop_last() =~= tv@.subrange(0, end as int));
            } else {
                assert(piece =~= tv@.subrange(0, end as int));
            }
        } else {
            assert(tv@ =~= tv@.subrange(0, end as int));
        }
    }
    let mut d = owned(label);
    push_str(&mut d, ": ");
    push_str(&mut d, line.as_str());
    let ghost before = views(details@);
    details.push(d);
    assert(views(details@) =~= before + seq![d@]);
}

/// `exit code: <n>` (or `unavailable`), then the first stdout and stderr
/// lines when present.
pub open spec fn command_details_spec(result: CommandResult) -> Seq<Seq<char>> {
    let code = match result.status {
        Some(c) => "exit code: "@ + crate::text::decimal_int(c as int),
        None => "exit code: unavailable"@,
    };
    seq![code] + trimmed_detail("stdout"@, result.stdout@) + trimmed_detail(
        "stderr"@,
        result.stderr@,
    )
}

/// A short human summary of a command's outcome.
pub fn command_details(result: &CommandResult) -> (r: Vec<String>)
    ensures
        views(r@) == command_details_spec(*result),
{
    let mut details: Vec<String> = Vec::new();
    let code = match result.status {
        Some(code) => {
            let n = crate::text::i32_to_string(code);
            concat("exit code: ", n.as_str())
        },
        None => owned("exit code: unavailable"),
    };
    details.push(code);
    assert(views(details@) =~= seq![code@]);
    push_trimmed_detail(&mut details, "stdout", result.stdout.as_str());
    push_trimmed_detail(&mut details, "stderr", result.stderr.as_str());
    details
}

// ---------------------------------------------------------------------------
// The report
// ---------------------------------------------------------------------------

/// A release readiness report.
#[derive(Clone, Debug, PartialEq, Eq)]
pub struct ReleaseReadinessReport {
    pub version: String,
    pub status: String,
    pub checks: Vec<ReleaseReadinessCheck>,
    pub next_commands: Vec<String>,
}

/// Assembles a report: its status and next commands derive from the checks.
pub fn build_release_readiness_report(version: &str, checks: Vec<ReleaseReadinessCheck>) -> (r:
    ReleaseReadinessReport)
    ensures
        r.version@ == version@,
        r.status@ == readiness_status(checks@),
        r.checks@ == checks@,
        views(r.next_commands@) == next_commands_spec(checks@, version@),
{
    let status = owned(release_readiness_status(checks.as_slice()));
    let next_commands = release_readiness_next_commands(checks.as_slice(), version);
    ReleaseReadinessReport { version: owned(version), status, checks, next_commands }
}

pub open spec fn check_row(c: ReleaseReadinessCheck) -> Seq<char> {
    "| `"@ + c.id@ + "` | `"@ + c.status@ + "` | "@ + (if c.required {
        "yes"@
    } else {
        "no"@
    }) + " | "@ + md_esc(c.summary@) + " |\n"@
}

pub open spec fn check_block(c: ReleaseReadinessCheck) -> Seq<char> {
    "### `"@ + c.id@ + "`\n\n"@ + "- status: `"@ + c.status@ + "`\n"@ + "- command: `"@ + md_esc(
        c.command@,
    ) + "`\n"@ + (if c.artifacts@.len() > 0 {
        "- artifacts:\n"@ + concat_all(wrapped_md(views(c.artifacts@), "  - `"@, "`\n"@))
    } else {
        Seq::empty()
    }) + (if c.details@.len() > 0 {
        "- details:\n"@ + concat_all(wrapped_md(views(c.details@), "  - "@, "\n"@))
    } else {
        Seq::empty()
    }) + "\n"@
}

pub open spec fn readiness_footer() -> Seq<char> {
    "\nThis report records the release surface from repo artifacts. It does not run mutation testing, enable CI blocking, change analyzer classifications, or expand LSP behavior.\n"@
}

/// The Markdown rendering of a readiness report.
pub open spec fn readiness_markdown(r: ReleaseReadinessReport) -> Seq<char> {
    "# ripr release readiness\n\n"@ + "- version: `"@ + r.version@ + "`\n"@ + "- status: `"@
        + r.status@ + "`\n\n"@ + "| Check | Status | Required | Summary |\n"@
        + "| --- | --- | --- | --- |\n"@ + concat_all(
        r.checks@.map_values(|c: ReleaseReadinessCheck| check_row(c)),
    ) + "\n## Details\n\n"@ + concat_all(
        r.checks@.map_values(|c: ReleaseReadinessCheck| check_block(c)),
    ) + "## Next Commands\n\n"@ + concat_all(wrapped_md(views(r.next_commands@), "- `"@, "`\n"@))
        + readiness_footer()
}

fn push_check_row(out: &mut String, c: &ReleaseReadinessCheck)
    ensures
        final(out)@ == old(out)@ + check_row(*c),
{
    push_str(out, "| `");
    push_str(out, c.id.as_str());
    push_str(out, "` | `");
    push_str(out, c.status.as_str());
    push_str(out, "` | ");
    push_str(out, if c.required { "yes" } else { "no" });
    push_str(out, " | ");
    let e = md_escape(c.summary.as_str());
    push_str(out, e.as_str());
    push_str(out, " |\n");
}

fn push_check_block(out: &mut String, c: &ReleaseReadinessCheck)
    ensures
        final(out)@ == old(out)@ + check_block(*c),
{
    let ghost start = out@;
    push_str(out, "### `");
    push_str(out, c.id.as_str());
    push_str(out, "`\n\n");
    push_str(out, "- status: `");
    push_str(out, c.status.as_str());
    push_str(out, "`\n");
    push_str(out, "- command: `");
    let e = md_escape(c.command.as_str());
    push_str(out, e.as_str());
    push_str(out, "`\n");
    let ghost mid = out@;
    if c.artifacts.len() > 0 {
        push_str(out, "- artifacts:\n");
        push_wrapped_md_items(out, &c.artifacts, "  - `", "`\n");
    }
    let ghost mid2 = out@;
    if c.details.len() > 0 {
        push_str(out, "- details:\n");
        push_wrapped_md_items(out, &c.details, "  - ", "\n");
    }
    push_str(out, "\n");
    assert(out@ =~= start + check_block(*c));
}

/// Renders the readiness report as Markdown.
pub fn release_readiness_markdown(report: &ReleaseReadinessReport) -> (r: String)
    ensures
        r@ == readiness_markdown(*report),
{
    let mut out = String::new();
    push_str(&mut out, "# ripr release readiness\n\n");
    push_str(&mut out, "- version: `");
    push_str(&mut out, report.version.as_str());
    push_str(&mut out, "`\n");
    push_str(&mut out, "- status: `");
    push_str(&mut out, report.status.as_str());
    push_str(&mut out, "`\n\n");
    push_str(&mut out, "| Check | Status | Required | Summary |\n");
    push_str(&mut out, "| --- | --- | --- | --- |\n");
    let ghost head = out@;
    let ghost rows = report.checks@.map_values(|c: ReleaseReadinessCheck| check_row(c));
    let ghost blocks = report.checks@.map_values(|c: ReleaseReadinessCheck| check_block(c));
    let mut i: usize = 0;
    assert(rows.take(0) =~= Seq::<Seq<char>>::empty());
    while i < report.checks.len()
        invariant
            i <= report.checks@.len(),
            rows == report.checks@.map_values(|c: ReleaseReadinessCheck| check_row(c)),
            out@ == head + concat_all(rows.take(i as int)),
        decreases report.checks.len() - i,
    {
        push_check_row(&mut out, &report.checks[i]);
        assert(rows.take(i + 1).drop_last() =~= rows.take(i as int));
        i += 1;
    }
    assert(rows.take(report.checks@.len() as int) =~= rows);
    push_str(&mut out, "\n## Details\n\n");
    let ghost head2 = out@;
    let mut j: usize = 0;
    assert(blocks.take(0) =~= Seq::<Seq<char>>::empty());
    while j < report.checks.len()
        invariant
            j <= report.checks@.len(),
            blocks == report.checks@.map_values(|c: ReleaseReadinessCheck| check_block(c)),
            out@ == head2 + concat_all(blocks.take(j as int)),
        decreases report.checks.len() - j,
    {
        push_check_block(&mut out, &report.checks[j]);
        assert(blocks.take(j + 1).drop_last() =~= blocks.take(j as int));
        j += 1;
    }
    assert(blocks.take(report.checks@.len() as int) =~= blocks);
    push_str(&mut out, "## Next Commands\n\n");
    push_wrapped_md_items(&mut out, &report.next_commands, "- `", "`\n");
    push_str(
        &mut out,
        "\nThis report records the release surface from repo artifacts. It does not run mutation testing, enable CI blocking, change analyzer classifications, or expand LSP behavior.\n",
    );
    assert(out@ =~= readiness_markdown(*report));
    out
}

/// `value.replace('|', "\\|").replace('\n', " ")`.
pub fn md_escape_inline(value: &str) -> (r: String)
    ensures
        r@ == md_esc(value@),
{
    md_escape(value)
}

} // verus!

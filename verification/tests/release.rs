use ripr_reports::release::{
    command_details, extension_version_check_from, first_screen_needles,
    missing_required_needles, package_version, parse_release_readiness_args, readiness_check,
    release_loop_needles, release_readiness_markdown, release_readiness_next_commands,
    build_release_readiness_report, release_readiness_status, read_crate_version,
    strip_toml_comment, unquote_toml_string, inline_table_inherits_workspace,
    validate_binary_identity, validate_doctor_result, validate_installed_version, CommandResult,
    EditorVersion, PackageVersion,
};

/// Build the three editor manifest readings the real check collects.
fn editors(package_json: Option<&str>, lock: Option<&str>) -> Vec<EditorVersion> {
    vec![
        EditorVersion {
            source: "editors/vscode/package.json version".to_string(),
            value: package_json.map(str::to_string),
        },
        EditorVersion {
            source: "editors/vscode/package-lock.json version".to_string(),
            value: lock.map(str::to_string),
        },
        EditorVersion {
            source: "editors/vscode/package-lock.json packages.\"\".version".to_string(),
            value: lock.map(str::to_string),
        },
    ]
}

#[test]
fn extension_version_check_fails_closed_on_drift() -> Result<(), String> {
    let matched = extension_version_check_from(
        "0.10.0",
        Some("0.10.0"),
        &editors(Some("0.10.0"), Some("0.10.0")),
    );
    if matched.status != "pass" || !matched.required {
        return Err(format!(
            "expected pass+required on match, got {}/{}",
            matched.status, matched.required
        ));
    }
    for (ext, krate, label) in [
        (Some("0.8.0"), Some("0.10.0"), "stale extension"),
        (None, Some("0.10.0"), "unreadable extension"),
        (Some("0.10.0"), None, "unreadable crate"),
    ] {
        let check = extension_version_check_from("0.10.0", krate, &editors(ext, Some("0.10.0")));
        if check.status != "fail" || !check.required {
            return Err(format!(
                "expected required fail for {label}, got {}/{}",
                check.status, check.required
            ));
        }
    }
    Ok(())
}

#[test]
fn extension_version_check_fails_when_everything_lags_the_requested_release(
) -> Result<(), String> {
    let check = extension_version_check_from(
        "0.11.0",
        Some("0.10.0"),
        &editors(Some("0.10.0"), Some("0.10.0")),
    );
    if check.status != "fail" || !check.required {
        return Err(format!(
            "a release requested at 0.11.0 with everything at 0.10.0 must fail, got {}/{}",
            check.status, check.required
        ));
    }
    if !check
        .details
        .iter()
        .any(|detail| detail.contains("[workspace.package]"))
    {
        return Err(format!(
            "expected the workspace bump to be named in details, got {:?}",
            check.details
        ));
    }
    Ok(())
}

#[test]
fn extension_version_check_catches_a_lock_only_lag() -> Result<(), String> {
    let check = extension_version_check_from(
        "0.11.0",
        Some("0.11.0"),
        &editors(Some("0.11.0"), Some("0.10.0")),
    );
    if check.status != "fail" || !check.required {
        return Err(format!(
            "a stale package-lock.json must fail, got {}/{}",
            check.status, check.required
        ));
    }
    if !check
        .details
        .iter()
        .any(|detail| detail.contains("package-lock.json"))
    {
        return Err(format!(
            "expected package-lock.json to be named, got {:?}",
            check.details
        ));
    }
    if check
        .details
        .iter()
        .any(|detail| detail.starts_with("editors/vscode/package.json"))
    {
        return Err(format!(
            "package.json matches and must not be reported, got {:?}",
            check.details
        ));
    }
    Ok(())
}

#[test]
fn extension_version_check_names_each_problem_exactly() {
    let check = extension_version_check_from(
        "0.11.0",
        Some("0.10.0"),
        &editors(None, Some("0.9.0")),
    );
    assert_eq!(
        check.details,
        vec![
            "workspace package version 0.10.0 != requested release version 0.11.0 (bump [workspace.package] version in Cargo.toml)".to_string(),
            "editors/vscode/package.json version is unreadable".to_string(),
            "editors/vscode/package-lock.json version is 0.9.0 != requested release version 0.11.0".to_string(),
            "editors/vscode/package-lock.json packages.\"\".version is 0.9.0 != requested release version 0.11.0".to_string(),
        ]
    );
    let pass = extension_version_check_from("1.0.0", Some("1.0.0"), &editors(Some("1.0.0"), Some("1.0.0")));
    assert_eq!(pass.id, "extension-version-match");
    assert_eq!(
        pass.artifacts,
        vec![
            "Cargo.toml".to_string(),
            "editors/vscode/package.json".to_string(),
            "editors/vscode/package-lock.json".to_string()
        ]
    );
}

#[test]
fn package_version_distinguishes_literal_inherited_and_dependency() -> Result<(), String> {
    let literal = "[package]\nname = \"ripr\"\nversion = \"0.10.0\"\n";
    if package_version(literal, "package") != Some(PackageVersion::Literal("0.10.0".to_string())) {
        return Err("expected a literal package version".to_string());
    }

    let inherited = "[package]\nname = \"ripr\"\nversion.workspace = true\n\n[dependencies]\nserde = { version = \"1.0.9\" }\nzip = \"2\"\n";
    if package_version(inherited, "package") != Some(PackageVersion::Inherited) {
        return Err("expected an inherited package version".to_string());
    }

    let no_package_version = "[package]\nname = \"ripr\"\n\n[dependencies]\nserde = \"1.0.9\"\n";
    if package_version(no_package_version, "package").is_some() {
        return Err("dependency version leaked into the package lookup".to_string());
    }
    Ok(())
}

#[test]
fn package_version_rejects_malformed_and_non_inherited_declarations() -> Result<(), String> {
    let cases: &[(&str, &str)] = &[
        (
            "[package]\nname = \"ripr\"\nversion = \"\"\n",
            "an empty version string",
        ),
        (
            "[package]\nname = \"ripr\"\nversion.workspace = false\n",
            "an explicitly non-inherited version",
        ),
        (
            "[package]\nname = \"ripr\"\nedition = \"2024\"\n",
            "a package table with no version key",
        ),
        (
            "[workspace.package]\nversion = \"0.10.0\"\n",
            "a version declared only in another table",
        ),
    ];
    for (manifest, label) in cases {
        if let Some(found) = package_version(manifest, "package") {
            return Err(format!("expected unreadable for {label}, got {found:?}"));
        }
    }

    let workspace =
        "[workspace]\nmembers = [\"crates/ripr\"]\n\n[workspace.package]\nversion = \"0.11.0\"\n";
    if package_version(workspace, "workspace.package")
        != Some(PackageVersion::Literal("0.11.0".to_string()))
    {
        return Err("expected the workspace table version".to_string());
    }
    Ok(())
}

#[test]
fn package_version_handles_comments_and_quote_styles() -> Result<(), String> {
    let cases: &[(&str, PackageVersion, &str)] = &[
        (
            "[package]\nversion = \"0.10.0\" # bump me at release\n",
            PackageVersion::Literal("0.10.0".to_string()),
            "a trailing comment after a double-quoted version",
        ),
        (
            "[package]\nversion = '0.10.0'\n",
            PackageVersion::Literal("0.10.0".to_string()),
            "a single-quoted version",
        ),
        (
            "[package] # the package table\nversion = \"0.10.0\"\n",
            PackageVersion::Literal("0.10.0".to_string()),
            "a trailing comment on the section header",
        ),
        (
            "[package]\nversion = { workspace = true }\n",
            PackageVersion::Inherited,
            "the inline-table inheritance spelling",
        ),
        (
            "[package]\nversion.workspace = true # inherited\n",
            PackageVersion::Inherited,
            "a trailing comment after inherited",
        ),
    ];
    for (manifest, expected, label) in cases {
        let found = package_version(manifest, "package");
        if found.as_ref() != Some(expected) {
            return Err(format!("expected {expected:?} for {label}, got {found:?}"));
        }
    }

    let hashed = "[package]\nversion = \"0.10.0+build#7\"\n";
    if package_version(hashed, "package")
        != Some(PackageVersion::Literal("0.10.0+build#7".to_string()))
    {
        return Err("a quoted '#' must not be treated as a comment".to_string());
    }

    let unquoted = "[package]\nversion = 0.10.0\n";
    if let Some(found) = package_version(unquoted, "package") {
        return Err(format!("expected unreadable for an unquoted version, got {found:?}"));
    }

    let commented_out = "[package]\n# version = \"0.9.0\"\nedition = \"2024\"\n";
    if let Some(found) = package_version(commented_out, "package") {
        return Err(format!(
            "expected unreadable when the version is commented out, got {found:?}"
        ));
    }
    Ok(())
}

#[test]
fn toml_helpers_handle_edge_spellings() {
    assert_eq!(strip_toml_comment("version = \"1\" # note"), "version = \"1\" ");
    assert_eq!(strip_toml_comment("a = 'x#y' # z"), "a = 'x#y' ");
    assert_eq!(strip_toml_comment("no comment"), "no comment");
    assert_eq!(unquote_toml_string("\"0.1\""), Some("0.1".to_string()));
    assert_eq!(unquote_toml_string("'0.1'"), Some("0.1".to_string()));
    assert_eq!(unquote_toml_string("\"0.1'"), None);
    assert_eq!(unquote_toml_string("\""), None);
    assert_eq!(unquote_toml_string("0.1"), None);
    assert!(inline_table_inherits_workspace("{ workspace = true }"));
    assert!(inline_table_inherits_workspace("{ a = 1, workspace = true }"));
    assert!(!inline_table_inherits_workspace("{ workspace = false }"));
    assert!(!inline_table_inherits_workspace("workspace = true"));
    assert!(!inline_table_inherits_workspace("{"));
}

#[test]
fn crate_version_resolves_inheritance_without_guessing() {
    let member = "[package]\nname = \"ripr\"\nversion.workspace = true\n\n[dependencies]\nserde = \"1.0.9\"\n";
    let workspace = "[workspace]\nmembers = [\"crates/ripr\"]\n\n[workspace.package]\nversion = \"0.10.0\"\nedition = \"2024\"\n";
    let without_version = "[workspace]\nmembers = [\"crates/ripr\"]\n\n[workspace.package]\nedition = \"2024\"\n";
    let deferring = "[workspace.package]\nversion.workspace = true\n";
    assert_eq!(
        read_crate_version(Some(member), Some(workspace)).as_deref(),
        Some("0.10.0")
    );
    assert_eq!(read_crate_version(Some(member), Some(without_version)), None);
    assert_eq!(read_crate_version(Some(member), None), None);
    assert_eq!(read_crate_version(Some(member), Some(deferring)), None);
    assert_eq!(read_crate_version(None, Some(workspace)), None);
    assert_eq!(
        read_crate_version(Some("[package]\nversion = \"2.0.0\"\n"), None).as_deref(),
        Some("2.0.0")
    );
}

#[test]
fn release_readiness_args_parse_version() -> Result<(), String> {
    let args = vec!["--version".to_string(), "0.5.0".to_string()];
    let parsed = parse_release_readiness_args(&args)?;
    if parsed.version != "0.5.0" {
        return Err(format!("unexpected version {}", parsed.version));
    }
    Ok(())
}

#[test]
fn release_readiness_args_require_version() -> Result<(), String> {
    let parsed = parse_release_readiness_args(&[]);
    match parsed {
        Err(message) if message.contains("--version") => Ok(()),
        Err(message) => Err(format!("unexpected error: {message}")),
        Ok(_) => Err("expected missing version error".to_string()),
    }
}

#[test]
fn release_readiness_args_reject_unknown_flags_with_a_quoted_name() {
    let err = parse_release_readiness_args(&["--bogus".to_string()]).unwrap_err();
    assert_eq!(
        err,
        "unknown release-readiness argument \"--bogus\"\nUsage: cargo xtask release-readiness --version <version>"
    );
    assert!(parse_release_readiness_args(&["--version".to_string(), " ".to_string()]).is_err());
    assert!(parse_release_readiness_args(&["--version".to_string()]).is_err());
}

#[test]
fn release_readiness_status_warns_for_not_run_but_fails_required_failures() -> Result<(), String> {
    let pass = readiness_check("pass", "pass", true, "cmd", "ok", Vec::new(), Vec::new());
    let not_run = readiness_check(
        "package",
        "not_run",
        false,
        "cargo package",
        "dirty tree",
        Vec::new(),
        Vec::new(),
    );
    let warn_status = release_readiness_status(&[pass.clone(), not_run.clone()]);
    if warn_status != "warn" {
        return Err(format!("expected warn status, got {warn_status}"));
    }
    let failure = readiness_check("fail", "fail", true, "cmd", "bad", Vec::new(), Vec::new());
    let fail_status = release_readiness_status(&[pass, not_run, failure]);
    if fail_status != "fail" {
        return Err(format!("expected fail status, got {fail_status}"));
    }
    Ok(())
}

#[test]
fn release_readiness_command_surface_needles_include_first_run() -> Result<(), String> {
    let help = "ripr pilot\nripr outcome\nripr first-pr\nripr agent verify";
    let missing = missing_required_needles(
        help,
        &["ripr pilot", "ripr outcome", "ripr first-pr", "ripr agent verify"],
    );
    if !missing.is_empty() {
        return Err(format!("expected all first-run needles present: {missing:?}"));
    }
    let release_loop = release_loop_needles();
    for needle in first_screen_needles() {
        if release_loop.contains(&needle) && needle != "ripr first-pr" {
            return Err(format!(
                "{needle} is in both needle sets; decide which surface owns it"
            ));
        }
    }
    let missing_first_pr = missing_required_needles(help, &["ripr first-pr", "--receipts-dir"]);
    if missing_first_pr != ["--receipts-dir".to_string()] {
        return Err(format!("unexpected missing needles: {missing_first_pr:?}"));
    }
    Ok(())
}

#[test]
fn next_commands_fall_back_to_the_readiness_command() {
    let pass = readiness_check("a", "pass", true, "cmd-a", "ok", Vec::new(), Vec::new());
    let warn = readiness_check("b", "warn", false, "cmd-b", "meh", Vec::new(), Vec::new());
    assert_eq!(
        release_readiness_next_commands(&[pass.clone()], "0.5.0"),
        vec!["cargo xtask release-readiness --version 0.5.0".to_string()]
    );
    assert_eq!(
        release_readiness_next_commands(&[pass, warn], "0.5.0"),
        vec!["cmd-b".to_string()]
    );
}

#[test]
fn identity_version_and_doctor_validation() {
    assert!(validate_binary_identity("sha256:a", "sha256:a").is_err());
    assert!(validate_binary_identity("sha256:a", "sha256:b").is_ok());
    assert!(validate_installed_version(true, "ripr 0.10.0\n", "0.10.0").is_ok());
    assert!(validate_installed_version(false, "ripr 0.10.0\n", "0.10.0").is_err());
    assert!(validate_installed_version(true, "ripr 0.9.0\n", "0.10.0").is_err());
    assert!(validate_doctor_result(true, Some("pass")).is_ok());
    assert!(validate_doctor_result(true, Some("fail")).is_err());
    assert!(validate_doctor_result(false, Some("pass")).is_err());
    assert!(validate_doctor_result(true, None).is_err());
}

#[test]
fn command_details_report_exit_code_and_first_lines() {
    let result = CommandResult {
        status: Some(-3),
        success: false,
        stdout: "  \n first\r\nsecond\n".to_string(),
        stderr: "   ".to_string(),
    };
    assert_eq!(
        command_details(&result),
        vec!["exit code: -3".to_string(), "stdout: first".to_string()]
    );
    let none = CommandResult {
        status: None,
        success: false,
        stdout: String::new(),
        stderr: "boom".to_string(),
    };
    assert_eq!(
        command_details(&none),
        vec!["exit code: unavailable".to_string(), "stderr: boom".to_string()]
    );
}

#[test]
fn readiness_markdown_renders_rows_details_and_next_commands() {
    let check = readiness_check(
        "installed-command-surface",
        "fail",
        true,
        "ripr --help",
        "a | b",
        vec!["x.json".to_string()],
        vec!["line\nbreak".to_string()],
    );
    let report = build_release_readiness_report("0.9.0", vec![check]);
    assert_eq!(report.status, "fail");
    let markdown = release_readiness_markdown(&report);
    let expected = "# ripr release readiness\n\n- version: `0.9.0`\n- status: `fail`\n\n| Check | Status | Required | Summary |\n| --- | --- | --- | --- |\n| `installed-command-surface` | `fail` | yes | a \\| b |\n\n## Details\n\n### `installed-command-surface`\n\n- status: `fail`\n- command: `ripr --help`\n- artifacts:\n  - `x.json`\n- details:\n  - line break\n\n## Next Commands\n\n- `ripr --help`\n\nThis report records the release surface from repo artifacts. It does not run mutation testing, enable CI blocking, change analyzer classifications, or expand LSP behavior.\n";
    assert_eq!(markdown, expected);
}

//! `ripr-review-comments`: option parsing, the producer timeout, run-cause
//! reporting, revision and path identities, and the fallback Markdown of
//! error and empty review packets.

use vstd::prelude::*;
use vstd::std_specs::convert::FromSpecImpl;
use crate::release_server::{sha256_hex, hex, sha256_digest};
use crate::json_record::{
    JsonRecord, JsonField, FieldView, entry_view, field_view, put_entry, empty_record, get_str, get_field,
    str_field,
};
use crate::text::{
    owned, str_eq, str_trim, str_is_blank, push_str, views, trim, lines, first_line as
    first_line_of, debug_quoted, debug_quote, replace_all, str_replace, str_strip_prefix,
    starts_with, split_lines, utf8, utf8_bytes, md_esc, md_escape, decimal, u64_to_string, opt_view,
};

verus! {

// ---------------------------------------------------------------------------
// Options
// ---------------------------------------------------------------------------

/// A failed producer run and whether it failed by timing out.
#[derive(Debug)]
pub struct ReviewCommentsRunError {
    pub message: String,
    pub timed_out: bool,
}

impl ReviewCommentsRunError {
    /// A run that hit the producer timeout.
    pub fn timed_out(message: String) -> (r: Self)
        ensures
            r.message == message,
            r.timed_out,
    {
        ReviewCommentsRunError { message, timed_out: true }
    }
}

impl From<String> for ReviewCommentsRunError {
    /// A run that failed for a reason other than the timeout.
    fn from(message: String) -> (r: Self) {
        ReviewCommentsRunError { message, timed_out: false }
    }
}

impl FromSpecImpl<String> for ReviewCommentsRunError {
    open spec fn obeys_from_spec() -> bool {
        true
    }

    open spec fn from_spec(v: String) -> Self {
        ReviewCommentsRunError { message: v, timed_out: false }
    }
}

/// The `ripr-review-comments` options.
#[derive(Clone, Debug, PartialEq, Eq)]
pub struct ReviewCommentsOptions {
    pub root: String,
    pub base: String,
    pub head: String,
    pub check_output: Option<String>,
    pub check: bool,
}

/// (root, base, head, check output, check mode).
pub type OptionsView = (Seq<char>, Seq<char>, Seq<char>, Option<Seq<char>>, bool);

pub open spec fn options_view(o: ReviewCommentsOptions) -> OptionsView {
    (
        o.root@,
        o.base@,
        o.head@,
        match o.check_output {
            Some(p) => Some(p@),
            None => None,
        },
        o.check,
    )
}

pub open spec fn default_options() -> OptionsView {
    ("."@, "origin/main"@, "HEAD"@, None, false)
}

impl Default for ReviewCommentsOptions {
    /// Root `.`, base `origin/main`, head `HEAD`, no check output, write mode.
    fn default() -> (r: Self)
        ensures
            options_view(r) == default_options(),
    {
        ReviewCommentsOptions {
            root: owned("."),
            base: owned("origin/main"),
            head: owned("HEAD"),
            check_output: None,
            check: false,
        }
    }
}

/// The value after a flag at `index`: it must exist and not be blank.
pub open spec fn flag_value(args: Seq<Seq<char>>, index: int, flag: Seq<char>) -> Result<
    Seq<char>,
    Seq<char>,
> {
    if index < 0 || index >= args.len() {
        Err("missing value for "@ + flag)
    } else if trim(args[index]).len() == 0 {
        Err("ripr-review-comments "@ + flag + " requires a non-empty value"@)
    } else {
        Ok(args[index])
    }
}

/// The non-blank value at `index` for `flag`.
pub fn non_empty_arg<'a>(args: &'a [String], index: usize, flag: &str) -> (r: Result<&'a str, String>)
    ensures
        match r {
            Ok(v) => flag_value(views(args@), index as int, flag@) == Ok::<Seq<char>, Seq<char>>(
                v@,
            ),
            Err(e) => flag_value(views(args@), index as int, flag@) == Err::<Seq<char>, Seq<char>>(
                e@,
            ),
        },
{
    if index >= args.len() {
        let mut e = owned("missing value for ");
        push_str(&mut e, flag);
        return Err(e);
    }
    let value = args[index].as_str();
    assert(views(args@)[index as int] == value@);
    if str_is_blank(value) {
        let mut e = owned("ripr-review-comments ");
        push_str(&mut e, flag);
        push_str(&mut e, " requires a non-empty value");
        return Err(e);
    }
    Ok(value)
}

/// How the arguments parse from position `i` onward, with the options seen
/// so far.
pub open spec fn scan_options(args: Seq<Seq<char>>, i: int, o: OptionsView) -> Result<
    OptionsView,
    Seq<char>,
>
    decreases args.len() - i,
{
    if i < 0 || i >= args.len() {
        Ok(o)
    } else if args[i] == "--root"@ {
        match flag_value(args, i + 1, "--root"@) {
            Err(e) => Err(e),
            Ok(v) => scan_options(args, i + 2, (v, o.1, o.2, o.3, o.4)),
        }
    } else if args[i] == "--base"@ {
        match flag_value(args, i + 1, "--base"@) {
            Err(e) => Err(e),
            Ok(v) => scan_options(args, i + 2, (o.0, v, o.2, o.3, o.4)),
        }
    } else if args[i] == "--head"@ {
        match flag_value(args, i + 1, "--head"@) {
            Err(e) => Err(e),
            Ok(v) => scan_options(args, i + 2, (o.0, o.1, v, o.3, o.4)),
        }
    } else if args[i] == "--check-output"@ {
        match flag_value(args, i + 1, "--check-output"@) {
            Err(e) => Err(e),
            Ok(v) => scan_options(args, i + 2, (o.0, o.1, o.2, Some(v), o.4)),
        }
    } else if args[i] == "--check"@ {
        scan_options(args, i + 1, (o.0, o.1, o.2, o.3, true))
    } else {
        Err("unknown ripr-review-comments argument "@ + debug_quoted(args[i]))
    }
}

/// Parses the options; every flag value must be present and non-blank.
pub fn parse_options(args: &[String]) -> (r: Result<ReviewCommentsOptions, String>)
    ensures
        match r {
            Ok(o) => scan_options(views(args@), 0, default_options()) == Ok::<
                OptionsView,
                Seq<char>,
            >(options_view(o)),
            Err(e) => scan_options(views(args@), 0, default_options()) == Err::<
                OptionsView,
                Seq<char>,
            >(e@),
        },
{
    let ghost a = views(args@);
    let mut options = ReviewCommentsOptions::default();
    let mut i: usize = 0;
    while i < args.len()
        invariant
            a == views(args@),
            a.len() == args@.len(),
            scan_options(a, i as int, options_view(options)) == scan_options(
                a,
                0,
                default_options(),
            ),
        decreases args.len() - i,
    {
        let arg = args[i].as_str();
        assert(a[i as int] == arg@);
        if str_eq(arg, "--root") {
            let v = non_empty_arg(args, i + 1, "--root")?;
            options.root = owned(v);
            i += 2;
        } else if str_eq(arg, "--base") {
            let v = non_empty_arg(args, i + 1, "--base")?;
            options.base = owned(v);
            i += 2;
        } else if str_eq(arg, "--head") {
            let v = non_empty_arg(args, i + 1, "--head")?;
            options.head = owned(v);
            i += 2;
        } else if str_eq(arg, "--check-output") {
            let v = non_empty_arg(args, i + 1, "--check-output")?;
            options.check_output = Some(owned(v));
            i += 2;
        } else if str_eq(arg, "--check") {
            options.check = true;
            i += 1;
        } else {
            let mut e = owned("unknown ripr-review-comments argument ");
            let q = debug_quote(arg);
            push_str(&mut e, q.as_str());
            return Err(e);
        }
    }
    Ok(options)
}

// ---------------------------------------------------------------------------
// The producer timeout and run causes
// ---------------------------------------------------------------------------

/// What `str::parse::<u64>` returns for a text: the number, or the
/// `Display` text of its `ParseIntError`.
pub uninterp spec fn u64_parse(s: Seq<char>) -> Result<u64, Seq<char>>;

/// The value of a run of ASCII digits.
pub open spec fn digits_value(d: Seq<char>) -> nat
    decreases d.len(),
{
    if d.len() == 0 {
        0
    } else {
        digits_value(d.drop_last()) * 10 + ((d.last() as int) - ('0' as int)) as nat
    }
}

/// The number a text spells as `u64::from_str` documents it: an optional
/// `+` followed by one or more ASCII digits and nothing else; `None` for any
/// other text. The value may be too large for `u64`.
pub open spec fn documented_u64(s: Seq<char>) -> Option<nat> {
    let d = if s.len() > 0 && s[0] == '+' {
        s.drop_first()
    } else {
        s
    };
    if d.len() > 0 && forall|i: int| 0 <= i < d.len() ==> crate::text::is_ascii_digit(#[trigger] d[i]) {
        Some(digits_value(d))
    } else {
        None
    }
}

/// `s.parse::<u64>()`, with the error rendered by its `Display`. As std
/// documents, it succeeds exactly on an optional `+` followed by ASCII
/// digits whose value fits in `u64`, giving that value. The wording of each
/// error is left to std; the result is named by `u64_parse`.
#[verifier::external_body]
fn parse_u64(s: &str) -> (r: Result<u64, String>)
    ensures
        match r {
            Ok(n) => u64_parse(s@) == Ok::<u64, Seq<char>>(n) && documented_u64(s@) == Some(n as nat),
            Err(e) => u64_parse(s@) == Err::<u64, Seq<char>>(e@) && match documented_u64(s@) {
                Some(v) => v > u64::MAX,
                None => true,
            },
        },
{
    s.parse::<u64>().map_err(|err| err.to_string())
}

pub open spec fn timeout_secs_spec(env_value: Option<Seq<char>>) -> Result<u64, Seq<char>> {
    match env_value {
        None => Ok(120),
        Some(v) => match u64_parse(trim(v)) {
            Ok(n) => Ok(n),
            Err(e) => Err("RIPR_REVIEW_COMMENTS_TIMEOUT_SECS must be a positive integer: "@ + e),
        },
    }
}

/// The producer timeout in seconds: the trimmed value of
/// `RIPR_REVIEW_COMMENTS_TIMEOUT_SECS` when it is set, else 120.
pub fn review_comments_timeout_secs(env_value: Option<&str>) -> (r: Result<u64, String>)
    ensures
        match r {
            Ok(n) => timeout_secs_spec(opt_str(env_value)) == Ok::<u64, Seq<char>>(n),
            Err(e) => timeout_secs_spec(opt_str(env_value)) == Err::<u64, Seq<char>>(e@),
        },
        match env_value {
            None => r == Ok::<u64, String>(120),
            Some(v) => match documented_u64(trim(v@)) {
                Some(x) => if x <= u64::MAX {
                    r == Ok::<u64, String>(x as u64)
                } else {
                    r is Err
                },
                None => r is Err,
            },
        },
{
    match env_value {
        None => Ok(120),
        Some(v) => {
            let t = str_trim(v);
            match parse_u64(t.as_str()) {
                Ok(n) => Ok(n),
                Err(e) => {
                    let mut m = owned(
                        "RIPR_REVIEW_COMMENTS_TIMEOUT_SECS must be a positive integer: ",
                    );
                    push_str(&mut m, e.as_str());
                    Err(m)
                },
            }
        },
    }
}

pub open spec fn opt_str(o: Option<&str>) -> Option<Seq<char>> {
    match o {
        Some(s) => Some(s@),
        None => None,
    }
}

/// Milliseconds for a timeout in seconds: zero and overflow are refused.
pub open spec fn timeout_ms_spec(seconds: u64) -> Result<u64, Seq<char>> {
    if seconds == 0 {
        Err("RIPR_REVIEW_COMMENTS_TIMEOUT_SECS must be a positive integer"@)
    } else if seconds * 1000 > u64::MAX {
        Err("RIPR_REVIEW_COMMENTS_TIMEOUT_SECS is too large"@)
    } else {
        Ok((seconds * 1000) as u64)
    }
}

/// The timeout in milliseconds for a number of seconds.
pub fn timeout_ms_from_secs(seconds: u64) -> (r: Result<u64, String>)
    ensures
        match r {
            Ok(n) => timeout_ms_spec(seconds) == Ok::<u64, Seq<char>>(n),
            Err(e) => timeout_ms_spec(seconds) == Err::<u64, Seq<char>>(e@),
        },
{
    if seconds == 0 {
        return Err(owned("RIPR_REVIEW_COMMENTS_TIMEOUT_SECS must be a positive integer"));
    }
    match seconds.checked_mul(1000) {
        Some(ms) => Ok(ms),
        None => Err(owned("RIPR_REVIEW_COMMENTS_TIMEOUT_SECS is too large")),
    }
}

/// The producer timeout in milliseconds, from the environment value.
pub fn review_comments_timeout_ms(env_value: Option<&str>) -> (r: Result<u64, String>)
    ensures
        match timeout_secs_spec(opt_str(env_value)) {
            Ok(s) => match r {
                Ok(n) => timeout_ms_spec(s) == Ok::<u64, Seq<char>>(n),
                Err(e) => timeout_ms_spec(s) == Err::<u64, Seq<char>>(e@),
            },
            Err(m) => r matches Err(e) && e@ == m,
        },
{
    let seconds = review_comments_timeout_secs(env_value)?;
    timeout_ms_from_secs(seconds)
}

/// A validation failure after a failed run leads with the run cause.
pub open spec fn run_cause_message(validation: Seq<char>, cause: Option<Seq<char>>) -> Seq<char> {
    match cause {
        Some(c) => "the ripr review-comments producer run failed before validation: "@ + c
            + "\nvalidation diagnostics: "@ + validation,
        None => validation,
    }
}

/// The validation error, led by the producer's run failure when there was
/// one.
pub fn with_run_cause(validation_error: String, run_cause: Option<&str>) -> (r: String)
    ensures
        r@ == run_cause_message(validation_error@, opt_str(run_cause)),
{
    match run_cause {
        Some(cause) => {
            let mut m = owned("the ripr review-comments producer run failed before validation: ");
            push_str(&mut m, cause);
            push_str(&mut m, "\nvalidation diagnostics: ");
            push_str(&mut m, validation_error.as_str());
            m
        },
        None => validation_error,
    }
}

/// A run cause always comes before the validation diagnostics.
pub proof fn law_run_cause_leads(validation: Seq<char>, cause: Seq<char>)
    ensures
        run_cause_message(validation, Some(cause)).take(
            ("the ripr review-comments producer run failed before validation: "@.len() + cause.len()) as int,
        ) == "the ripr review-comments producer run failed before validation: "@ + cause,
        run_cause_message(validation, Some(cause)).skip(
            run_cause_message(validation, Some(cause)).len() - validation.len(),
        ) == validation,
{
    let m = run_cause_message(validation, Some(cause));
    let p = "the ripr review-comments producer run failed before validation: "@ + cause;
    assert(m.take(p.len() as int) =~= p);
    assert(m.skip(m.len() - validation.len()) =~= validation);
}

// ---------------------------------------------------------------------------
// Revisions, paths and identities
// ---------------------------------------------------------------------------

/// Whether a `git diff --name-only` listing names any path.
pub open spec fn lists_a_path(output: Seq<char>) -> bool {
    exists|i: int| 0 <= i < lines(output).len() && trim(#[trigger] lines(output)[i]).len() != 0
}

/// Whether the diff listing names a changed path (a non-blank line).
pub fn has_changed_paths(diff_output: &str) -> (r: bool)
    ensures
        r == lists_a_path(diff_output@),
{
    let ls = split_lines(diff_output);
    let ghost all = ls@.map_values(|l: String| l@);
    let mut i: usize = 0;
    while i < ls.len()
        invariant
            i <= ls@.len(),
            all == ls@.map_values(|l: String| l@),
            all == lines(diff_output@),
            forall|j: int| 0 <= j < i ==> trim(#[trigger] all[j]).len() == 0,
        decreases ls.len() - i,
    {
        assert(all[i as int] == ls@[i as int]@);
        if !str_is_blank(ls[i].as_str()) {
            return true;
        }
        i += 1;
    }
    false
}

/// The outcome of checking that a revision names a commit, given what
/// `git rev-parse --verify <rev>^{commit}` returned.
pub fn verify_revision(rev: &str, rev_parse: Result<String, String>) -> (r: Result<(), String>)
    ensures
        match rev_parse {
            Ok(_) => r is Ok,
            Err(err) => r matches Err(e) && e@ == "bad base/head revision "@ + debug_quoted(rev@)
                + ": "@ + err@,
        },
{
    match rev_parse {
        Ok(_) => Ok(()),
        Err(err) => {
            let mut e = owned("bad base/head revision ");
            let q = debug_quote(rev);
            push_str(&mut e, q.as_str());
            push_str(&mut e, ": ");
            push_str(&mut e, err.as_str());
            Err(e)
        },
    }
}

/// The commit identity of a revision: what `git rev-parse` printed,
/// trimmed, or the revision itself when that failed or printed nothing.
pub open spec fn revision_identity(revision: Seq<char>, rev_parse: Result<Seq<char>, Seq<char>>) -> Seq<
    char,
> {
    match rev_parse {
        Ok(v) => if trim(v).len() != 0 {
            trim(v)
        } else {
            revision
        },
        Err(_) => revision,
    }
}

/// Resolves a revision to its commit identity from the `rev-parse` result.
pub fn resolve_revision_identity(revision: &str, rev_parse: Result<String, String>) -> (r: String)
    ensures
        r@ == revision_identity(
            revision@,
            match rev_parse {
                Ok(v) => Ok::<Seq<char>, Seq<char>>(v@),
                Err(e) => Err::<Seq<char>, Seq<char>>(e@),
            },
        ),
{
    match rev_parse {
        Ok(v) => {
            let t = str_trim(v.as_str());
            if crate::text::chars_of(t.as_str()).len() == 0 {
                owned(revision)
            } else {
                t
            }
        },
        Err(_) => owned(revision),
    }
}

/// `value.replace('\\', "/")`.
pub open spec fn forward_slashes(value: Seq<char>) -> Seq<char> {
    replace_all(value, "\\"@, "/"@)
}

/// Path text with backslashes turned into forward slashes.
pub fn normalize_path_text(value: &str) -> (r: String)
    ensures
        r@ == forward_slashes(value@),
{
    proof {
        reveal_strlit("\\");
    }
    str_replace(value, "\\", "/")
}

/// The root identity for a canonicalized root path: forward slashes, with
/// a Windows verbatim `//?/` prefix dropped.
pub open spec fn root_identity(canonical: Seq<char>) -> Seq<char> {
    let n = forward_slashes(canonical);
    if starts_with(n, "//?/"@) {
        n.skip(4)
    } else {
        n
    }
}

/// The root identity of a canonicalized root path.
pub fn canonical_root_identity(canonical: &str) -> (r: String)
    ensures
        r@ == root_identity(canonical@),
{
    proof {
        reveal_strlit("//?/");
    }
    let n = normalize_path_text(canonical);
    match str_strip_prefix(n.as_str(), "//?/") {
        Some(rest) => rest,
        None => n,
    }
}

fn extend_bytes(out: &mut Vec<u8>, b: &Vec<u8>)
    ensures
        final(out)@ == old(out)@ + b@,
{
    let mut i: usize = 0;
    while i < b.len()
        invariant
            i <= b@.len(),
            out@ == old(out)@ + b@.take(i as int),
        decreases b.len() - i,
    {
        out.push(b[i]);
        assert(b@.take(i + 1) =~= b@.take(i as int).push(b@[i as int]));
        i += 1;
    }
    assert(b@.take(b@.len() as int) =~= b@);
}

/// The bytes the cache identity hashes.
pub open spec fn cache_identity_bytes(root: Seq<char>, base: Seq<char>, head: Seq<char>) -> Seq<u8> {
    utf8("ripr-review-comments"@) + seq![0u8] + utf8(root) + seq![0u8] + utf8(base) + seq![0u8]
        + utf8(head)
}

/// The reusable cache identity of a (root, base, head) review: the prefixed
/// SHA-256 of the tool name, root, base and head, NUL-separated.
pub fn reusable_cache_identity(root: &str, base: &str, head: &str) -> (r: String)
    ensures
        r@ == "sha256:"@ + hex(sha256_digest(cache_identity_bytes(root@, base@, head@))),
{
    let mut bytes = utf8_bytes("ripr-review-comments");
    bytes.push(0u8);
    let rb = utf8_bytes(root);
    extend_bytes(&mut bytes, &rb);
    bytes.push(0u8);
    let bb = utf8_bytes(base);
    extend_bytes(&mut bytes, &bb);
    bytes.push(0u8);
    let hb = utf8_bytes(head);
    extend_bytes(&mut bytes, &hb);
    assert(bytes@ =~= cache_identity_bytes(root@, base@, head@));
    let mut r = owned("sha256:");
    let h = sha256_hex(bytes.as_slice());
    push_str(&mut r, h.as_str());
    r
}

// ---------------------------------------------------------------------------
// Fallback Markdown
// ---------------------------------------------------------------------------

/// The first line of a failure message, trimmed.
pub open spec fn failure_headline(value: Seq<char>) -> Seq<char> {
    match first_line_of(value) {
        Some(l) => trim(l),
        None => "ripr review-comments failed"@,
    }
}

/// The trimmed first line of `value`, or the generic failure text.
pub fn first_line(value: &str) -> (r: String)
    ensures
        r@ == failure_headline(value@),
{
    let ls = split_lines(value);
    if ls.len() == 0 {
        proof {
            reveal_strlit("ripr review-comments failed");
            assert(value@.len() == 0) by {
                if value@.len() > 0 {
                    assert(lines(value@).len() > 0);
                }
            }
        }
        return owned("ripr review-comments failed");
    }
    assert(ls@[0]@ == lines(value@)[0]);
    str_trim(ls[0].as_str())
}

pub open spec fn or_default(o: Option<Seq<char>>, d: Seq<char>) -> Seq<char> {
    match o {
        Some(v) => v,
        None => d,
    }
}

fn or_default_exec(o: Option<&str>, d: &str) -> (r: String)
    ensures
        r@ == or_default(opt_str(o), d@),
{
    match o {
        Some(v) => owned(v),
        None => owned(d),
    }
}

pub open spec fn guidance_counts() -> Seq<char> {
    "- line annotations: 0\n- summary-only recommendations: 0\n- suppressed recommendations: 0\n\n"@
}

/// The Markdown of an error packet, from its base, head and first warning.
pub open spec fn error_markdown(
    base: Option<Seq<char>>,
    head: Option<Seq<char>>,
    warning: Option<Seq<char>>,
) -> Seq<char> {
    "# RIPR PR Guidance\n\n- status: error\n- base: `"@ + or_default(base, "origin/main"@)
        + "`\n- head: `"@ + or_default(head, "HEAD"@) + "`\n"@ + guidance_counts()
        + "No review guidance was generated.\n\n## Warnings\n\n- tool_error: "@ + md_esc(
        or_default(warning, "review guidance generation did not complete"@),
    ) + "\n"@
}

/// Renders an error packet as Markdown.
pub fn render_error_review_comments_markdown(
    base: Option<&str>,
    head: Option<&str>,
    warning: Option<&str>,
) -> (r: String)
    ensures
        r@ == error_markdown(opt_str(base), opt_str(head), opt_str(warning)),
{
    let mut out = owned("# RIPR PR Guidance\n\n- status: error\n- base: `");
    let b = or_default_exec(base, "origin/main");
    push_str(&mut out, b.as_str());
    push_str(&mut out, "`\n- head: `");
    let h = or_default_exec(head, "HEAD");
    push_str(&mut out, h.as_str());
    push_str(&mut out, "`\n");
    push_str(
        &mut out,
        "- line annotations: 0\n- summary-only recommendations: 0\n- suppressed recommendations: 0\n\n",
    );
    push_str(&mut out, "No review guidance was generated.\n\n## Warnings\n\n- tool_error: ");
    let w = or_default_exec(warning, "review guidance generation did not complete");
    let e = md_escape(w.as_str());
    push_str(&mut out, e.as_str());
    push_str(&mut out, "\n");
    out
}

/// The Markdown of an empty packet (no changed paths), from its base and
/// head.
pub open spec fn empty_markdown(base: Option<Seq<char>>, head: Option<Seq<char>>) -> Seq<char> {
    "# RIPR PR Guidance\n\n- status: advisory\n- base: `"@ + or_default(base, "origin/main"@)
        + "`\n- head: `"@ + or_default(head, "HEAD"@) + "`\n"@ + guidance_counts()
        + "No changed paths were detected.\n"@
}

/// Renders an empty packet as Markdown.
pub fn render_empty_review_comments_markdown(base: Option<&str>, head: Option<&str>) -> (r: String)
    ensures
        r@ == empty_markdown(opt_str(base), opt_str(head)),
{
    let mut out = owned("# RIPR PR Guidance\n\n- status: advisory\n- base: `");
    let b = or_default_exec(base, "origin/main");
    push_str(&mut out, b.as_str());
    push_str(&mut out, "`\n- head: `");
    let h = or_default_exec(head, "HEAD");
    push_str(&mut out, h.as_str());
    push_str(&mut out, "`\n");
    push_str(
        &mut out,
        "- line annotations: 0\n- summary-only recommendations: 0\n- suppressed recommendations: 0\n\n",
    );
    push_str(&mut out, "No changed paths were detected.\n");
    out
}


// ---------------------------------------------------------------------------
// The cargo target directory
// ---------------------------------------------------------------------------

/// What `std::path::Path::is_absolute` says of a path text on this
/// platform.
pub uninterp spec fn absolute_path(p: Seq<char>) -> bool;

/// `Path::new(p).is_absolute()`. Which texts are absolute is left to std
/// (it differs between Unix and Windows); the result is named by
/// `absolute_path`.
#[verifier::external_body]
fn is_absolute_path(p: &str) -> (r: bool)
    ensures
        r == absolute_path(p@),
{
    std::path::Path::new(p).is_absolute()
}

/// What `std::path::Path::join` gives for two path texts, as text.
pub uninterp spec fn joined_path(base: Seq<char>, rest: Seq<char>) -> Seq<char>;

/// `Path::new(base).join(rest)`, as text (both inputs are UTF-8, so the
/// conversion is exact). The result is named by `joined_path`.
#[verifier::external_body]
fn join_path(base: &str, rest: &str) -> (r: String)
    ensures
        r@ == joined_path(base@, rest@),
{
    std::path::Path::new(base).join(rest).to_string_lossy().into_owned()
}

/// The target directory a `CARGO_TARGET_DIR` value names: an absolute value
/// as it is, a relative one under the current directory when that is
/// absolute, else under the repository.
pub open spec fn target_dir_spec(repo: Seq<char>, cwd: Seq<char>, value: Seq<char>) -> Seq<char> {
    if absolute_path(value) {
        value
    } else if absolute_path(cwd) {
        joined_path(cwd, value)
    } else {
        joined_path(repo, value)
    }
}

/// Resolves a `CARGO_TARGET_DIR` value.
pub fn target_dir_from_value(repo: &str, cwd: &str, value: &str) -> (r: String)
    ensures
        r@ == target_dir_spec(repo@, cwd@, value@),
{
    if is_absolute_path(value) {
        owned(value)
    } else if is_absolute_path(cwd) {
        join_path(cwd, value)
    } else {
        join_path(repo, value)
    }
}

/// The cargo target directory: `<repo>/target` when `CARGO_TARGET_DIR` is
/// unset or empty, else the directory its value names.
pub fn cargo_target_dir(repo: &str, cwd: &str, target_dir: Option<&str>) -> (r: String)
    ensures
        r@ == match target_dir {
            Some(v) => if v@.len() > 0 {
                target_dir_spec(repo@, cwd@, v@)
            } else {
                joined_path(repo@, "target"@)
            },
            None => joined_path(repo@, "target"@),
        },
{
    match target_dir {
        Some(v) => if crate::text::chars_of(v).len() > 0 {
            target_dir_from_value(repo, cwd, v)
        } else {
            join_path(repo, "target")
        },
        None => join_path(repo, "target"),
    }
}


// ---------------------------------------------------------------------------
// Producer run decisions
// ---------------------------------------------------------------------------

/// The producer runs unless the diff names no changed path and no check
/// output was supplied; otherwise the empty packet is written directly.
pub fn producer_runs(diff_output: &str, check_output: Option<&str>) -> (r: bool)
    ensures
        r == (lists_a_path(diff_output@) || check_output is Some),
{
    has_changed_paths(diff_output) || check_output.is_some()
}

/// The receipt status of a failed producer run.
pub fn failed_run_status(err: &ReviewCommentsRunError) -> (r: &'static str)
    ensures
        r@ == (if err.timed_out {
            "limited_timeout"@
        } else {
            "failed"@
        }),
{
    if err.timed_out {
        "limited_timeout"
    } else {
        "failed"
    }
}

pub open spec fn producer_failure_message(stdout: Seq<char>, stderr: Seq<char>) -> Seq<char> {
    "ripr review-comments failed\nstdout:\n"@ + trim(stdout) + "\nstderr:\n"@ + trim(stderr)
}

/// The outcome of a producer run: a timeout names the seconds it ran, a
/// successful exit is success, and any other exit is a failure carrying
/// the trimmed output.
pub fn producer_run_outcome(
    timed_out: bool,
    elapsed_secs: u64,
    success: bool,
    stdout: &str,
    stderr: &str,
) -> (r: Result<(), ReviewCommentsRunError>)
    ensures
        timed_out ==> (r matches Err(e) && e.timed_out && e.message@
            == "ripr review-comments timed out after "@ + decimal(elapsed_secs as nat) + " seconds"@),
        !timed_out && success ==> r is Ok,
        !timed_out && !success ==> (r matches Err(e) && !e.timed_out && e.message@
            == producer_failure_message(stdout@, stderr@)),
{
    if timed_out {
        let mut m = owned("ripr review-comments timed out after ");
        push_str(&mut m, u64_to_string(elapsed_secs).as_str());
        push_str(&mut m, " seconds");
        return Err(ReviewCommentsRunError::timed_out(m));
    }
    if success {
        return Ok(());
    }
    let mut m = owned("ripr review-comments failed\nstdout:\n");
    push_str(&mut m, str_trim(stdout).as_str());
    push_str(&mut m, "\nstderr:\n");
    push_str(&mut m, str_trim(stderr).as_str());
    Err(ReviewCommentsRunError { message: m, timed_out: false })
}


// ---------------------------------------------------------------------------
// The run receipt
// ---------------------------------------------------------------------------

/// The compact JSON text of a JSON string value (`serde_json`'s rendering
/// of `Value::String`).
pub uninterp spec fn json_quoted(s: Seq<char>) -> Seq<char>;

/// `serde_json::Value::String(s).to_string()`: the compact JSON text of the
/// string, escaped as `serde_json` escapes it. The result is named by
/// `json_quoted`.
#[verifier::external_body]
fn quote_json(s: &str) -> (r: String)
    ensures
        r@ == json_quoted(s@),
{
    serde_json::Value::String(s.to_string()).to_string()
}

pub type EntryView = (FieldView, Option<Seq<char>>);

pub open spec fn text_entry(s: Seq<char>) -> EntryView {
    (FieldView::Text(s), Some(json_quoted(s)))
}

pub open spec fn empty_array_entry() -> EntryView {
    (FieldView::Array(seq![]), Some("[]"@))
}

pub open spec fn comments_json() -> Seq<char> {
    "target/ripr/review/comments.json"@
}

pub open spec fn comments_md() -> Seq<char> {
    "target/ripr/review/comments.md"@
}

pub open spec fn artifacts_entry() -> EntryView {
    (
        FieldView::Array(seq![Some(comments_json()), Some(comments_md())]),
        Some("["@ + json_quoted(comments_json()) + ","@ + json_quoted(comments_md()) + "]"@),
    )
}

/// The entries of a new receipt (in the reverse of the order they are
/// written).
pub open spec fn fresh_entry(
    k: Seq<char>,
    identity: Seq<char>,
    base: Seq<char>,
    head: Seq<char>,
    timeout_ms: u64,
    cache: Seq<char>,
) -> EntryView {
    if k == "atomic_write_status"@ {
        text_entry("committed"@)
    } else if k == "non_claims"@ {
        empty_array_entry()
    } else if k == "limitations"@ {
        empty_array_entry()
    } else if k == "reusable_cache_identity"@ {
        text_entry(cache)
    } else if k == "missing_artifacts"@ {
        artifacts_entry()
    } else if k == "completed_artifacts"@ {
        empty_array_entry()
    } else if k == "active_phase"@ {
        text_entry("review_comments_process"@)
    } else if k == "last_completed_phase"@ {
        (FieldView::Null, Some("null"@))
    } else if k == "configured_timeout_ms"@ {
        (FieldView::Number(Some(timeout_ms)), Some(decimal(timeout_ms as nat)))
    } else if k == "head_sha"@ {
        text_entry(head)
    } else if k == "base_sha"@ {
        text_entry(base)
    } else if k == "root_identity"@ {
        text_entry(identity)
    } else if k == "schema_version"@ {
        text_entry("0.1"@)
    } else {
        (FieldView::Missing, None)
    }
}

/// A stored receipt is reused exactly when it names both commits.
pub open spec fn receipt_reused(existing: Option<JsonRecord>, base: Seq<char>, head: Seq<char>) -> bool {
    existing matches Some(e) && str_field(e, "base_sha"@) == Some(base) && str_field(e, "head_sha"@)
        == Some(head)
}

pub open spec fn timeout_or_default(t: Option<u64>) -> u64 {
    match t {
        Some(n) => n,
        None => 120000,
    }
}

/// The receipt a run starts from: the stored one when reused, else a new
/// one.
pub open spec fn stored_entry(
    existing: Option<JsonRecord>,
    k: Seq<char>,
    identity: Seq<char>,
    base: Seq<char>,
    head: Seq<char>,
    timeout_ms: Option<u64>,
    cache: Seq<char>,
) -> EntryView {
    if receipt_reused(existing, base, head) {
        entry_view(existing.unwrap(), k)
    } else {
        fresh_entry(k, identity, base, head, timeout_or_default(timeout_ms), cache)
    }
}

/// A complete run records the artifact phase and both artifacts.
pub open spec fn completed_entry(before: EntryView, k: Seq<char>) -> EntryView {
    if k == "missing_artifacts"@ {
        empty_array_entry()
    } else if k == "completed_artifacts"@ {
        artifacts_entry()
    } else if k == "active_phase"@ {
        (FieldView::Null, Some("null"@))
    } else if k == "last_completed_phase"@ {
        text_entry("artifact_io"@)
    } else if k == "status"@ {
        text_entry("complete"@)
    } else {
        before
    }
}

pub open spec fn timeout_limitation() -> Seq<char> {
    "[{\"category\":\"analysis_timeout\",\"repair_route\":\"perf/review-comments-phase-budget\"}]"@
}

pub open spec fn failure_limitation() -> Seq<char> {
    "[{\"category\":\"review_comments_failure\",\"repair_route\":\"analysis/review-comments-error-diagnostics\"}]"@
}

pub open spec fn failure_claim(error: Option<Seq<char>>) -> Seq<char> {
    "failure: "@ + failure_headline(
        match error {
            Some(e) => e,
            None => "unknown failure"@,
        },
    )
}

/// The receipt after the status is recorded: a timeout keeps (or opens) the
/// active phase and records the timeout limitation and non-claims; a
/// failure records the failure limitation and its headline.
pub open spec fn status_entry(
    before: spec_fn(Seq<char>) -> EntryView,
    k: Seq<char>,
    status: Seq<char>,
    error: Option<Seq<char>>,
) -> EntryView {
    let with_status = |key: Seq<char>| if key == "status"@ {
        text_entry(status)
    } else {
        before(key)
    };
    if status == "limited_timeout"@ {
        if k == "non_claims"@ {
            (
                FieldView::Array(seq![Some("no complete route inventory"@), Some("no all-clear"@)]),
                Some("["@ + json_quoted("no complete route inventory"@) + ","@ + json_quoted("no all-clear"@) + "]"@),
            )
        } else if k == "limitations"@ {
            (FieldView::Array(seq![None]), Some(timeout_limitation()))
        } else if k == "active_phase"@ && with_status("active_phase"@).0 is Missing {
            text_entry("review_comments_process"@)
        } else {
            with_status(k)
        }
    } else if status == "failed"@ {
        if k == "non_claims"@ {
            (
                FieldView::Array(seq![Some(failure_claim(error))]),
                Some("["@ + json_quoted(failure_claim(error)) + "]"@),
            )
        } else if k == "limitations"@ {
            (FieldView::Array(seq![None]), Some(failure_limitation()))
        } else {
            with_status(k)
        }
    } else {
        with_status(k)
    }
}

/// What the run receipt holds under `k`.
pub open spec fn run_receipt_entry(
    existing: Option<JsonRecord>,
    k: Seq<char>,
    identity: Seq<char>,
    base: Seq<char>,
    head: Seq<char>,
    timeout_ms: Option<u64>,
    cache: Seq<char>,
    status: Seq<char>,
    error: Option<Seq<char>>,
) -> EntryView {
    let stored = |key: Seq<char>| stored_entry(existing, key, identity, base, head, timeout_ms, cache);
    let marked = |key: Seq<char>| if status == "complete"@ {
        completed_entry(stored(key), key)
    } else {
        stored(key)
    };
    status_entry(marked, k, status, error)
}

fn put_text(r: &mut JsonRecord, key: &str, value: &str)
    ensures
        forall|k: Seq<char>| #[trigger] entry_view(*final(r), k) == if k == key@ {
            text_entry(value@)
        } else {
            entry_view(*old(r), k)
        },
{
    put_entry(r, key, JsonField::Text(owned(value)), quote_json(value));
}

fn put_empty_array(r: &mut JsonRecord, key: &str)
    ensures
        forall|k: Seq<char>| #[trigger] entry_view(*final(r), k) == if k == key@ {
            empty_array_entry()
        } else {
            entry_view(*old(r), k)
        },
{
    let items: Vec<Option<String>> = Vec::new();
    assert(items@.map_values(|e: Option<String>| opt_view(e)) =~= Seq::<Option<Seq<char>>>::empty());
    put_entry(r, key, JsonField::Array(items), owned("[]"));
}

fn put_artifacts(r: &mut JsonRecord, key: &str)
    ensures
        forall|k: Seq<char>| #[trigger] entry_view(*final(r), k) == if k == key@ {
            artifacts_entry()
        } else {
            entry_view(*old(r), k)
        },
{
    let mut items: Vec<Option<String>> = Vec::new();
    items.push(Some(owned("target/ripr/review/comments.json")));
    items.push(Some(owned("target/ripr/review/comments.md")));
    assert(items@.map_values(|e: Option<String>| opt_view(e)) =~= seq![Some(comments_json()), Some(comments_md())]);
    let mut c = owned("[");
    push_str(&mut c, quote_json("target/ripr/review/comments.json").as_str());
    push_str(&mut c, ",");
    push_str(&mut c, quote_json("target/ripr/review/comments.md").as_str());
    push_str(&mut c, "]");
    put_entry(r, key, JsonField::Array(items), c);
}

fn fresh_receipt(identity: &str, base: &str, head: &str, timeout_ms: u64, cache: &str) -> (r: JsonRecord)
    ensures
        forall|k: Seq<char>| #[trigger] entry_view(r, k) == fresh_entry(k, identity@, base@, head@, timeout_ms, cache@),
{
    let mut r = empty_record();
    put_text(&mut r, "schema_version", "0.1");
    put_text(&mut r, "root_identity", identity);
    put_text(&mut r, "base_sha", base);
    put_text(&mut r, "head_sha", head);
    put_entry(&mut r, "configured_timeout_ms", JsonField::Number(Some(timeout_ms)), u64_to_string(timeout_ms));
    put_entry(&mut r, "last_completed_phase", JsonField::Null, owned("null"));
    put_text(&mut r, "active_phase", "review_comments_process");
    put_empty_array(&mut r, "completed_artifacts");
    put_artifacts(&mut r, "missing_artifacts");
    put_text(&mut r, "reusable_cache_identity", cache);
    put_empty_array(&mut r, "limitations");
    put_empty_array(&mut r, "non_claims");
    put_text(&mut r, "atomic_write_status", "committed");
    r
}

/// Marks a receipt complete: the artifact phase done, no active phase, both
/// artifacts completed and none missing.
pub fn mark_receipt_complete(r: &mut JsonRecord)
    ensures
        forall|k: Seq<char>| #[trigger] entry_view(*final(r), k) == completed_entry(entry_view(*old(r), k), k),
{
    put_text(r, "status", "complete");
    put_text(r, "last_completed_phase", "artifact_io");
    put_entry(r, "active_phase", JsonField::Null, owned("null"));
    put_artifacts(r, "completed_artifacts");
    put_empty_array(r, "missing_artifacts");
}

/// The run receipt: the stored receipt when it names both commits, else a
/// new one for this run; marked complete when the run is complete, and
/// carrying the status with its limitations and non-claims.
pub fn run_receipt(
    existing: Option<JsonRecord>,
    root_identity: &str,
    base_sha: &str,
    head_sha: &str,
    timeout_ms: Option<u64>,
    cache_identity: &str,
    status: &str,
    error: Option<&str>,
) -> (r: JsonRecord)
    ensures
        forall|k: Seq<char>| #[trigger] entry_view(r, k) == run_receipt_entry(
            existing,
            k,
            root_identity@,
            base_sha@,
            head_sha@,
            timeout_ms,
            cache_identity@,
            status@,
            opt_str(error),
        ),
{
    let ghost ex = existing;
    let reused = match &existing {
        Some(e) => {
            let b = match get_str(e, "base_sha") {
                Some(x) => str_eq(x, base_sha),
                None => false,
            };
            let h = match get_str(e, "head_sha") {
                Some(x) => str_eq(x, head_sha),
                None => false,
            };
            b && h
        },
        None => false,
    };
    assert(reused == receipt_reused(ex, base_sha@, head_sha@));
    let timeout = match timeout_ms {
        Some(n) => n,
        None => 120000,
    };
    let mut r = if reused {
        match existing {
            Some(e) => e,
            None => fresh_receipt(root_identity, base_sha, head_sha, timeout, cache_identity),
        }
    } else {
        fresh_receipt(root_identity, base_sha, head_sha, timeout, cache_identity)
    };
    let ghost stored = |key: Seq<char>| stored_entry(ex, key, root_identity@, base_sha@, head_sha@, timeout_ms, cache_identity@);
    assert forall|k: Seq<char>| #[trigger] entry_view(r, k) == stored(k) by {}
    let is_complete = str_eq(status, "complete");
    if is_complete {
        mark_receipt_complete(&mut r);
    }
    let ghost marked = |key: Seq<char>| if status@ == "complete"@ {
        completed_entry(stored(key), key)
    } else {
        stored(key)
    };
    assert forall|k: Seq<char>| #[trigger] entry_view(r, k) == marked(k) by {}
    put_text(&mut r, "status", status);
    let ghost with_status = |key: Seq<char>| if key == "status"@ {
        text_entry(status@)
    } else {
        marked(key)
    };
    assert forall|k: Seq<char>| #[trigger] entry_view(r, k) == with_status(k) by {}
    if str_eq(status, "limited_timeout") {
        let missing = match get_field(&r, "active_phase") {
            JsonField::Missing => true,
            _ => false,
        };
        assert(entry_view(r, "active_phase"@) == with_status("active_phase"@));
        assert(missing == (with_status("active_phase"@).0 is Missing));
        if missing {
            put_text(&mut r, "active_phase", "review_comments_process");
        }
        let ghost r3 = r;
        assert forall|k: Seq<char>| #[trigger] entry_view(r3, k) == (if k == "active_phase"@ && with_status(
            "active_phase"@,
        ).0 is Missing {
            text_entry("review_comments_process"@)
        } else {
            with_status(k)
        }) by {}
        put_entry(
            &mut r,
            "limitations",
            JsonField::Array(one_none()),
            owned("[{\"category\":\"analysis_timeout\",\"repair_route\":\"perf/review-comments-phase-budget\"}]"),
        );
        let mut claims: Vec<Option<String>> = Vec::new();
        claims.push(Some(owned("no complete route inventory")));
        claims.push(Some(owned("no all-clear")));
        assert(claims@.map_values(|e: Option<String>| opt_view(e)) =~= seq![
            Some("no complete route inventory"@),
            Some("no all-clear"@),
        ]);
        let mut c = owned("[");
        push_str(&mut c, quote_json("no complete route inventory").as_str());
        push_str(&mut c, ",");
        push_str(&mut c, quote_json("no all-clear").as_str());
        push_str(&mut c, "]");
        put_entry(&mut r, "non_claims", JsonField::Array(claims), c);
    } else if str_eq(status, "failed") {
        put_entry(
            &mut r,
            "limitations",
            JsonField::Array(one_none()),
            owned(
                "[{\"category\":\"review_comments_failure\",\"repair_route\":\"analysis/review-comments-error-diagnostics\"}]",
            ),
        );
        let mut claim = owned("failure: ");
        let headline = match error {
            Some(e) => first_line(e),
            None => first_line("unknown failure"),
        };
        push_str(&mut claim, headline.as_str());
        let ghost cv = claim@;
        assert(cv == failure_claim(opt_str(error)));
        let mut c = owned("[");
        push_str(&mut c, quote_json(claim.as_str()).as_str());
        push_str(&mut c, "]");
        let mut claims: Vec<Option<String>> = Vec::new();
        claims.push(Some(claim));
        assert(claims@.map_values(|e: Option<String>| opt_view(e)) =~= seq![Some(cv)]);
        put_entry(&mut r, "non_claims", JsonField::Array(claims), c);
    }
    r
}

fn one_none() -> (v: Vec<Option<String>>)
    ensures
        v@.map_values(|e: Option<String>| opt_view(e)) == seq![None::<Seq<char>>],
{
    let mut v: Vec<Option<String>> = Vec::new();
    v.push(None);
    assert(v@.map_values(|e: Option<String>| opt_view(e)) =~= seq![None::<Seq<char>>]);
    v
}


// ---------------------------------------------------------------------------
// Fallback packets
// ---------------------------------------------------------------------------

pub open spec fn empty_note() -> Seq<char> {
    "No changed paths were detected, so no changed-line review guidance is emitted."@
}

pub open spec fn error_note() -> Seq<char> {
    "Review guidance generation is advisory. The producer did not complete, so no comments are emitted."@
}

pub open spec fn retained_note() -> Seq<char> {
    "Review guidance generation did not complete; no comments are emitted, but the producer analysis outcome is retained and bound to this error packet."@
}

pub open spec fn error_warnings(error: Seq<char>) -> EntryView {
    (
        FieldView::Array(seq![None]),
        Some("[{\"kind\":\"tool_error\",\"message\":"@ + json_quoted(failure_headline(error)) + ",\"path\":null}]"@),
    )
}

/// The entries every fallback packet carries (in the reverse of the order
/// they are written); `receipt` is the run receipt's JSON text.
pub open spec fn packet_entry(
    k: Seq<char>,
    status: Seq<char>,
    root: Seq<char>,
    base: Seq<char>,
    head: Seq<char>,
    warnings: EntryView,
    note: Seq<char>,
    receipt: Seq<char>,
) -> EntryView {
    if k == "run_receipt"@ {
        (FieldView::Object, Some(receipt))
    } else if k == "limits_note"@ {
        text_entry(note)
    } else if k == "warnings"@ {
        warnings
    } else if k == "suppressed"@ {
        empty_array_entry()
    } else if k == "summary_only"@ {
        empty_array_entry()
    } else if k == "comments"@ {
        empty_array_entry()
    } else if k == "summary"@ {
        (
            FieldView::Object,
            Some("{\"comments\":0,\"summary_only\":0,\"suppressed\":0,\"unchanged_tests\":true}"@),
        )
    } else if k == "rendering_limits"@ {
        (FieldView::Object, Some("{\"max_inline_comments\":0,\"max_summary_items\":0}"@))
    } else if k == "mode"@ {
        text_entry("fast"@)
    } else if k == "head"@ {
        text_entry(head)
    } else if k == "base"@ {
        text_entry(base)
    } else if k == "root"@ {
        text_entry(forward_slashes(root))
    } else if k == "status"@ {
        text_entry(status)
    } else if k == "tool"@ {
        text_entry("ripr"@)
    } else if k == "schema_version"@ {
        text_entry("0.1"@)
    } else {
        (FieldView::Missing, None)
    }
}

fn put_object(r: &mut JsonRecord, key: &str, canonical_text: &str)
    ensures
        forall|k: Seq<char>| #[trigger] entry_view(*final(r), k) == if k == key@ {
            (FieldView::Object, Some(canonical_text@))
        } else {
            entry_view(*old(r), k)
        },
{
    put_entry(r, key, JsonField::Object, owned(canonical_text));
}

fn fallback_packet(
    status: &str,
    root: &str,
    base: &str,
    head: &str,
    warnings: JsonField,
    warnings_text: String,
    note: &str,
    receipt: &str,
) -> (r: JsonRecord)
    ensures
        forall|k: Seq<char>| #[trigger] entry_view(r, k) == packet_entry(
            k,
            status@,
            root@,
            base@,
            head@,
            (field_view(warnings), Some(warnings_text@)),
            note@,
            receipt@,
        ),
{
    let mut r = empty_record();
    put_text(&mut r, "schema_version", "0.1");
    put_text(&mut r, "tool", "ripr");
    put_text(&mut r, "status", status);
    let root_text = normalize_path_text(root);
    put_text(&mut r, "root", root_text.as_str());
    put_text(&mut r, "base", base);
    put_text(&mut r, "head", head);
    put_text(&mut r, "mode", "fast");
    put_object(&mut r, "rendering_limits", "{\"max_inline_comments\":0,\"max_summary_items\":0}");
    put_object(&mut r, "summary", "{\"comments\":0,\"summary_only\":0,\"suppressed\":0,\"unchanged_tests\":true}");
    put_empty_array(&mut r, "comments");
    put_empty_array(&mut r, "summary_only");
    put_empty_array(&mut r, "suppressed");
    put_entry(&mut r, "warnings", warnings, warnings_text);
    put_text(&mut r, "limits_note", note);
    put_object(&mut r, "run_receipt", receipt);
    r
}

/// The advisory packet of a run with no changed paths; `root` is the
/// command root and `receipt` the run receipt's JSON text.
pub fn empty_review_packet(root: &str, base: &str, head: &str, receipt: &str) -> (r: JsonRecord)
    ensures
        forall|k: Seq<char>| #[trigger] entry_view(r, k) == packet_entry(
            k,
            "advisory"@,
            root@,
            base@,
            head@,
            empty_array_entry(),
            empty_note(),
            receipt@,
        ),
{
    let items: Vec<Option<String>> = Vec::new();
    assert(items@.map_values(|e: Option<String>| opt_view(e)) =~= Seq::<Option<Seq<char>>>::empty());
    fallback_packet(
        "advisory",
        root,
        base,
        head,
        JsonField::Array(items),
        owned("[]"),
        "No changed paths were detected, so no changed-line review guidance is emitted.",
        receipt,
    )
}

/// The error packet of a failed run: one tool-error warning carrying the
/// failure's headline, and, when the producer reported an analysis outcome
/// (its JSON text, `null` counting as none), that outcome and a note
/// binding it.
pub fn error_review_packet(root: &str, base: &str, head: &str, error: &str, receipt: &str, outcome: Option<&str>) -> (r:
    JsonRecord)
    ensures
        forall|k: Seq<char>| #[trigger] entry_view(r, k) == match outcome {
            None => packet_entry(k, "error"@, root@, base@, head@, error_warnings(error@), error_note(), receipt@),
            Some(o) => if o@ == "null"@ {
                packet_entry(k, "error"@, root@, base@, head@, error_warnings(error@), error_note(), receipt@)
            } else if k == "limits_note"@ {
                text_entry(retained_note())
            } else if k == "analysis_outcome"@ {
                (FieldView::Object, Some(o@))
            } else {
                packet_entry(k, "error"@, root@, base@, head@, error_warnings(error@), error_note(), receipt@)
            },
        },
{
    let mut w = owned("[{\"kind\":\"tool_error\",\"message\":");
    push_str(&mut w, quote_json(first_line(error).as_str()).as_str());
    push_str(&mut w, ",\"path\":null}]");
    let mut r = fallback_packet(
        "error",
        root,
        base,
        head,
        JsonField::Array(one_none()),
        w,
        "Review guidance generation is advisory. The producer did not complete, so no comments are emitted.",
        receipt,
    );
    match outcome {
        None => {},
        Some(o) => if !str_eq(o, "null") {
            put_object(&mut r, "analysis_outcome", o);
            put_text(
                &mut r,
                "limits_note",
                "Review guidance generation did not complete; no comments are emitted, but the producer analysis outcome is retained and bound to this error packet.",
            );
        },
    }
    r
}

} // verus!

//! The supplemental release denominator ledger: command selection, PR body
//! reference parsing, adjudication review references, exclusion path sets,
//! and the record-level checks of a captured ledger.

use vstd::prelude::*;
use crate::release_scope::{is_sha_spec, reason_if, sorted_unique_spec, insert_sorted, push_when};
use crate::release_control::{sort_u64, sorted_u64};
use crate::text::{
    owned, str_eq, str_is_blank, str_starts_with, str_strip_prefix, push_str, push_char, views,
    trim, trim_start, trim_end, is_ws, is_ws_exec, is_ascii_alnum, is_ascii_alnum_exec,
    is_ascii_digit, is_ascii_digit_exec, ascii_lower, ascii_lower_exec, starts_with, chars_of,
    string_from, char_index, char_index_from, replace_all, str_replace, str_trim, decimal,
    u64_to_string, usize_to_string, split_char, split_on_char, extend_strings, concat, concat3,
    seq_less, str_less,
};

verus! {

// ---------------------------------------------------------------------------
// Commands
// ---------------------------------------------------------------------------

/// What `release-denominator` is asked to do.
#[derive(Clone, Copy, Debug, PartialEq, Eq)]
pub enum DenominatorCommand<'a> {
    Normalize { live: bool, path: &'a str },
    Capture { path: &'a str, output: &'a str },
    Import { path: &'a str, capture: &'a str, output: &'a str },
    Adjudicate { path: &'a str, decisions: &'a str, output: &'a str },
}

pub open spec fn denominator_usage() -> Seq<char> {
    "usage: cargo xtask release-denominator [--live] --input <ledger.json> | --capture-github --input <ledger.json> --output <capture.json> | --import-github --input <ledger.json> --capture <capture.json> --output <ledger.json> | --apply-adjudication --input <ledger.json> --decisions <adjudication.json> --output <ledger.json>"@
}

pub open spec fn filled(s: Seq<char>) -> bool {
    trim(s).len() != 0
}

/// The command a well-formed argument list selects, if any.
pub open spec fn command_spec(a: Seq<Seq<char>>) -> Option<(Seq<char>, Seq<Seq<char>>)> {
    if a.len() == 2 && a[0] == "--input"@ && filled(a[1]) {
        Some(("normalize"@, seq![a[1]]))
    } else if a.len() == 3 && a[0] == "--live"@ && a[1] == "--input"@ && filled(a[2]) {
        Some(("live"@, seq![a[2]]))
    } else if a.len() == 5 && a[0] == "--capture-github"@ && a[1] == "--input"@ && a[3]
        == "--output"@ && filled(a[2]) && filled(a[4]) {
        Some(("capture"@, seq![a[2], a[4]]))
    } else if a.len() == 7 && a[0] == "--import-github"@ && a[1] == "--input"@ && a[3]
        == "--capture"@ && a[5] == "--output"@ && filled(a[2]) && filled(a[4]) && filled(a[6]) {
        Some(("import"@, seq![a[2], a[4], a[6]]))
    } else if a.len() == 7 && a[0] == "--apply-adjudication"@ && a[1] == "--input"@ && a[3]
        == "--decisions"@ && a[5] == "--output"@ && filled(a[2]) && filled(a[4]) && filled(a[6]) {
        Some(("adjudicate"@, seq![a[2], a[4], a[6]]))
    } else {
        None
    }
}

pub open spec fn command_view(c: DenominatorCommand) -> (Seq<char>, Seq<Seq<char>>) {
    match c {
        DenominatorCommand::Normalize { live, path } => (
            if live {
                "live"@
            } else {
                "normalize"@
            },
            seq![path@],
        ),
        DenominatorCommand::Capture { path, output } => ("capture"@, seq![path@, output@]),
        DenominatorCommand::Import { path, capture, output } => (
            "import"@,
            seq![path@, capture@, output@],
        ),
        DenominatorCommand::Adjudicate { path, decisions, output } => (
            "adjudicate"@,
            seq![path@, decisions@, output@],
        ),
    }
}

fn arg_is(args: &[String], i: usize, s: &str) -> (r: bool)
    requires
        i < args@.len(),
    ensures
        r == (args@[i as int]@ == s@),
{
    str_eq(args[i].as_str(), s)
}

fn arg_filled(args: &[String], i: usize) -> (r: bool)
    requires
        i < args@.len(),
    ensures
        r == filled(args@[i as int]@),
{
    !str_is_blank(args[i].as_str())
}

/// Selects the command from the arguments; anything else is the usage.
pub fn parse_args<'a>(args: &'a [String]) -> (r: Result<DenominatorCommand<'a>, String>)
    ensures
        match r {
            Ok(c) => command_spec(views(args@)) == Some(command_view(c)),
            Err(e) => command_spec(views(args@)) is None && e@ == denominator_usage(),
        },
{
    let ghost a = views(args@);
    assert forall|i: int| 0 <= i < args@.len() implies a[i] == args@[i]@ by {}
    let n = args.len();
    if n == 2 && arg_is(args, 0, "--input") && arg_filled(args, 1) {
        let r = DenominatorCommand::Normalize { live: false, path: args[1].as_str() };
        assert(command_view(r).1 =~= seq![a[1]]);
        return Ok(r);
    }
    if n == 3 && arg_is(args, 0, "--live") && arg_is(args, 1, "--input") && arg_filled(args, 2) {
        let r = DenominatorCommand::Normalize { live: true, path: args[2].as_str() };
        assert(command_view(r).1 =~= seq![a[2]]);
        return Ok(r);
    }
    if n == 5 && arg_is(args, 0, "--capture-github") && arg_is(args, 1, "--input") && arg_is(
        args,
        3,
        "--output",
    ) && arg_filled(args, 2) && arg_filled(args, 4) {
        let r = DenominatorCommand::Capture { path: args[2].as_str(), output: args[4].as_str() };
        assert(command_view(r).1 =~= seq![a[2], a[4]]);
        return Ok(r);
    }
    if n == 7 && arg_is(args, 1, "--input") && arg_is(args, 5, "--output") && arg_filled(args, 2)
        && arg_filled(args, 4) && arg_filled(args, 6) {
        if arg_is(args, 0, "--import-github") && arg_is(args, 3, "--capture") {
            let r = DenominatorCommand::Import {
                path: args[2].as_str(),
                capture: args[4].as_str(),
                output: args[6].as_str(),
            };
            assert(command_view(r).1 =~= seq![a[2], a[4], a[6]]);
            return Ok(r);
        }
        if arg_is(args, 0, "--apply-adjudication") && arg_is(args, 3, "--decisions") {
            let r = DenominatorCommand::Adjudicate {
                path: args[2].as_str(),
                decisions: args[4].as_str(),
                output: args[6].as_str(),
            };
            assert(command_view(r).1 =~= seq![a[2], a[4], a[6]]);
            return Ok(r);
        }
    }
    Err(
        owned(
            "usage: cargo xtask release-denominator [--live] --input <ledger.json> | --capture-github --input <ledger.json> --output <capture.json> | --import-github --input <ledger.json> --capture <capture.json> --output <ledger.json> | --apply-adjudication --input <ledger.json> --decisions <adjudication.json> --output <ledger.json>",
        ),
    )
}

/// The capture status of a record that names none.
pub fn default_capture_status() -> (r: String)
    ensures
        r@ == "not_captured"@,
{
    owned("not_captured")
}

/// A capture or import must come from the repository the ledger pins.
pub fn validate_capture_repository(expected: Option<&str>, observed: &str) -> (r: Result<(), String>)
    ensures
        match expected {
            None => r matches Err(e) && e@
                == "GitHub denominator input must pin source.github_repository before capture or import"@,
            Some(x) => if x@ == observed@ {
                r is Ok
            } else {
                r matches Err(e) && e@ == "GitHub denominator capture repository "@ + observed@
                    + " does not match expected "@ + x@
            },
        },
{
    let expected = match expected {
        None => {
            return Err(
                owned(
                    "GitHub denominator input must pin source.github_repository before capture or import",
                ),
            );
        },
        Some(x) => x,
    };
    if !str_eq(expected, observed) {
        let mut e = owned("GitHub denominator capture repository ");
        push_str(&mut e, observed);
        push_str(&mut e, " does not match expected ");
        push_str(&mut e, expected);
        return Err(e);
    }
    Ok(())
}

// ---------------------------------------------------------------------------
// PR body references
// ---------------------------------------------------------------------------

/// `c` continues a word: an ASCII letter or digit, or `_`.
pub open spec fn is_word_char(c: char) -> bool {
    is_ascii_alnum(c) || c == '_'
}

/// The end of the run of ASCII digits starting at `start`.
pub open spec fn digits_end(s: Seq<char>, start: int) -> int
    decreases s.len() - start,
{
    if start < 0 || start >= s.len() || !is_ascii_digit(s[start]) {
        start
    } else {
        digits_end(s, start + 1)
    }
}

/// The decimal value of a run of ASCII digits.
pub open spec fn digits_value(d: Seq<char>) -> nat
    decreases d.len(),
{
    if d.len() == 0 {
        0
    } else {
        digits_value(d.drop_last()) * 10 + ((d.last() as u32) - 48) as nat
    }
}

/// The index of the last whitespace character of `s`, or -1.
pub open spec fn last_ws(s: Seq<char>) -> int
    decreases s.len(),
{
    if s.len() == 0 {
        -1
    } else if is_ws(s.last()) {
        s.len() - 1
    } else {
        last_ws(s.drop_last())
    }
}

/// The last whitespace-separated word of `s` and the text before it.
pub open spec fn last_word(s: Seq<char>) -> Option<(Seq<char>, Seq<char>)> {
    let t = trim_end(s);
    if t.len() == 0 {
        None
    } else {
        let i = last_ws(t);
        Some((t.skip(i + 1), t.take(i + 1)))
    }
}

pub open spec fn strip_non_alnum_start(s: Seq<char>) -> Seq<char>
    decreases s.len(),
{
    if s.len() > 0 && !is_ascii_alnum(s[0]) {
        strip_non_alnum_start(s.drop_first())
    } else {
        s
    }
}

pub open spec fn strip_non_alnum_end(s: Seq<char>) -> Seq<char>
    decreases s.len(),
{
    if s.len() > 0 && !is_ascii_alnum(s.last()) {
        strip_non_alnum_end(s.drop_last())
    } else {
        s
    }
}

/// A word with surrounding punctuation removed, ASCII-lowercased.
pub open spec fn keyword_form(w: Seq<char>) -> Seq<char> {
    strip_non_alnum_end(strip_non_alnum_start(w)).map_values(|c: char| ascii_lower(c))
}

pub open spec fn is_closing_word(w: Seq<char>) -> bool {
    w == "close"@ || w == "closes"@ || w == "closed"@ || w == "fix"@ || w == "fixes"@ || w
        == "fixed"@ || w == "resolve"@ || w == "resolves"@ || w == "resolved"@
}

/// The text before a reference ends in a closing keyword that is not
/// negated by the word before it.
pub open spec fn closing_before(prefix: Seq<char>) -> bool {
    match last_word(prefix) {
        None => false,
        Some((w0, before)) => is_closing_word(keyword_form(w0)) && match last_word(before) {
            Some((w1, _)) => keyword_form(w1) != "not"@ && keyword_form(w1) != "never"@,
            None => true,
        },
    }
}

/// `#<number>` references of a PR body from `index` onward, each with
/// whether a closing keyword introduces it.
pub open spec fn refs_from(body: Seq<char>, index: int) -> Seq<(u64, Seq<char>)>
    decreases body.len() - index,
{
    if index < 0 || index >= body.len() {
        seq![]
    } else if body[index] != '#' || (index > 0 && is_word_char(body[index - 1])) {
        refs_from(body, index + 1)
    } else {
        let start = index + 1;
        let end = digits_end(body, start);
        proof {
            lemma_digits_end(body, start);
        }
        if end <= start {
            refs_from(body, index + 1)
        } else if digits_value(body.subrange(start, end)) > u64::MAX {
            refs_from(body, end)
        } else {
            seq![
                (
                    digits_value(body.subrange(start, end)) as u64,
                    if closing_before(body.take(index)) {
                        "closing_reference"@
                    } else {
                        "body_reference"@
                    },
                ),
            ] + refs_from(body, end)
        }
    }
}

/// The digit run starting at `start` ends inside the text and holds only
/// digits.
pub proof fn lemma_digits_end(s: Seq<char>, start: int)
    requires
        0 <= start,
    ensures
        start <= digits_end(s, start),
        start <= s.len() ==> digits_end(s, start) <= s.len(),
        forall|k: int| start <= k < digits_end(s, start) ==> is_ascii_digit(#[trigger] s[k]),
    decreases s.len() - start,
{
    if start < s.len() && is_ascii_digit(s[start]) {
        lemma_digits_end(s, start + 1);
    }
}

proof fn lemma_last_ws_bounds(s: Seq<char>)
    ensures
        -1 <= last_ws(s) < s.len(),
    decreases s.len(),
{
    if s.len() > 0 {
        lemma_last_ws_bounds(s.drop_last());
    }
}

fn last_ws_exec(v: &Vec<char>, len: usize) -> (r: usize)
    requires
        len <= v@.len(),
    ensures
        r <= len,
        r as int == last_ws(v@.take(len as int)) + 1,
{
    let mut k = len;
    while k > 0 && !is_ws_exec(v[k - 1])
        invariant
            k <= len <= v@.len(),
            last_ws(v@.take(k as int)) == last_ws(v@.take(len as int)),
        decreases k,
    {
        assert(v@.take(k as int).drop_last() =~= v@.take(k - 1));
        k -= 1;
    }
    if k > 0 {
        assert(v@.take(k as int).last() == v@[k - 1]);
    }
    proof {
        lemma_last_ws_bounds(v@.take(k as int));
    }
    k
}

fn trim_end_len(v: &Vec<char>, len: usize) -> (r: usize)
    requires
        len <= v@.len(),
    ensures
        r <= len,
        trim_end(v@.take(len as int)) == v@.take(r as int),
{
    let mut k = len;
    while k > 0 && is_ws_exec(v[k - 1])
        invariant
            k <= len <= v@.len(),
            trim_end(v@.take(k as int)) == trim_end(v@.take(len as int)),
        decreases k,
    {
        assert(v@.take(k as int).drop_last() =~= v@.take(k - 1));
        k -= 1;
    }
    if k > 0 {
        assert(v@.take(k as int).last() == v@[k - 1]);
    }
    k
}

fn keyword_form_exec(v: &Vec<char>, from: usize, to: usize) -> (r: String)
    requires
        from <= to <= v@.len(),
    ensures
        r@ == keyword_form(v@.subrange(from as int, to as int)),
{
    let mut a = from;
    assert(v@.subrange(from as int, to as int) =~= v@.subrange(a as int, to as int));
    while a < to && !is_ascii_alnum_exec(v[a])
        invariant
            from <= a <= to <= v@.len(),
            strip_non_alnum_start(v@.subrange(a as int, to as int)) == strip_non_alnum_start(
                v@.subrange(from as int, to as int),
            ),
        decreases to - a,
    {
        assert(v@.subrange(a as int, to as int).drop_first() =~= v@.subrange(a + 1, to as int));
        a += 1;
    }
    if a < to {
        assert(v@.subrange(a as int, to as int)[0] == v@[a as int]);
    }
    let mut b = to;
    while b > a && !is_ascii_alnum_exec(v[b - 1])
        invariant
            from <= a <= b <= to <= v@.len(),
            strip_non_alnum_end(v@.subrange(a as int, b as int)) == strip_non_alnum_end(
                v@.subrange(a as int, to as int),
            ),
        decreases b,
    {
        assert(v@.subrange(a as int, b as int).drop_last() =~= v@.subrange(a as int, b - 1));
        b -= 1;
    }
    if b > a {
        assert(v@.subrange(a as int, b as int).last() == v@[b - 1]);
    }
    let ghost core = v@.subrange(a as int, b as int);
    let mut out = String::new();
    let mut i = a;
    while i < b
        invariant
            a <= i <= b <= v@.len(),
            core == v@.subrange(a as int, b as int),
            out@ == core.take(i - a).map_values(|c: char| ascii_lower(c)),
        decreases b - i,
    {
        push_char(&mut out, ascii_lower_exec(v[i]));
        assert(core.take(i + 1 - a) =~= core.take(i - a).push(v@[i as int]));
        assert(out@ =~= core.take(i + 1 - a).map_values(|c: char| ascii_lower(c)));
        i += 1;
    }
    assert(core.take(b - a) =~= core);
    out
}

fn is_closing_word_exec(w: &str) -> (r: bool)
    ensures
        r == is_closing_word(w@),
{
    str_eq(w, "close") || str_eq(w, "closes") || str_eq(w, "closed") || str_eq(w, "fix") || str_eq(
        w,
        "fixes",
    ) || str_eq(w, "fixed") || str_eq(w, "resolve") || str_eq(w, "resolves") || str_eq(
        w,
        "resolved",
    )
}

/// Whether the text before a reference ends in a closing keyword (`close`,
/// `fixes`, `resolved`, ...) that `not` or `never` does not negate.
pub fn has_explicit_closing_keyword(prefix: &str) -> (r: bool)
    ensures
        r == closing_before(prefix@),
{
    let v = chars_of(prefix);
    assert(v@.take(v@.len() as int) =~= v@);
    let e0 = trim_end_len(&v, v.len());
    if e0 == 0 {
        return false;
    }
    let s0 = last_ws_exec(&v, e0);
    assert(v@.take(e0 as int).skip(s0 as int) =~= v@.subrange(s0 as int, e0 as int));
    assert(v@.take(e0 as int).take(s0 as int) =~= v@.take(s0 as int));
    let w0 = keyword_form_exec(&v, s0, e0);
    if !is_closing_word_exec(w0.as_str()) {
        return false;
    }
    let e1 = trim_end_len(&v, s0);
    if e1 == 0 {
        return true;
    }
    let s1 = last_ws_exec(&v, e1);
    assert(v@.take(e1 as int).skip(s1 as int) =~= v@.subrange(s1 as int, e1 as int));
    let w1 = keyword_form_exec(&v, s1, e1);
    !str_eq(w1.as_str(), "not") && !str_eq(w1.as_str(), "never")
}

proof fn lemma_digits_value_grows(d: Seq<char>, k: int)
    requires
        0 <= k <= d.len(),
    ensures
        digits_value(d.take(k)) <= digits_value(d),
    decreases d.len() - k,
{
    if k < d.len() {
        lemma_digits_value_grows(d, k + 1);
        assert(d.take(k + 1).drop_last() =~= d.take(k));
    } else {
        assert(d.take(k) =~= d);
    }
}

/// The value of the digits `v[start..end]` when it fits in a `u64`.
fn parse_digits(v: &Vec<char>, start: usize, end: usize) -> (r: Option<u64>)
    requires
        start <= end <= v@.len(),
        forall|k: int| start <= k < end ==> is_ascii_digit(#[trigger] v@[k]),
    ensures
        match r {
            Some(n) => n == digits_value(v@.subrange(start as int, end as int)),
            None => digits_value(v@.subrange(start as int, end as int)) > u64::MAX,
        },
{
    let ghost d = v@.subrange(start as int, end as int);
    let mut value: u64 = 0;
    let mut i = start;
    assert(d.take(0) =~= Seq::<char>::empty());
    while i < end
        invariant
            start <= i <= end <= v@.len(),
            d == v@.subrange(start as int, end as int),
            forall|k: int| start <= k < end ==> is_ascii_digit(#[trigger] v@[k]),
            value == digits_value(d.take(i - start)),
        decreases end - i,
    {
        let digit = (v[i] as u32 - 48) as u64;
        assert(d.take(i + 1 - start).drop_last() =~= d.take(i - start));
        assert(d.take(i + 1 - start).last() == v@[i as int]);
        match value.checked_mul(10) {
            None => {
                proof {
                    lemma_digits_value_grows(d, i + 1 - start);
                }
                return None;
            },
            Some(m) => match m.checked_add(digit) {
                None => {
                    proof {
                        lemma_digits_value_grows(d, i + 1 - start);
                    }
                    return None;
                },
                Some(n) => {
                    value = n;
                },
            },
        }
        i += 1;
    }
    assert(d.take(end - start) =~= d);
    Some(value)
}

/// The `#<number>` references of a PR body, in order, each marked
/// `closing_reference` when an explicit closing keyword introduces it and
/// `body_reference` otherwise. A `#` inside a word, or with a number that
/// does not fit in a `u64`, names nothing.
pub fn body_issue_or_pr_references(body: &str) -> (r: Vec<(u64, &'static str)>)
    ensures
        r@.map_values(|p: (u64, &str)| (p.0, p.1@)) == refs_from(body@, 0),
{
    let v = chars_of(body);
    let mut out: Vec<(u64, &'static str)> = Vec::new();
    let mut index: usize = 0;
    assert(out@.map_values(|p: (u64, &str)| (p.0, p.1@)) + refs_from(v@, 0) =~= refs_from(v@, 0));
    while index < v.len()
        invariant
            v@ == body@,
            index <= v@.len(),
            out@.map_values(|p: (u64, &str)| (p.0, p.1@)) + refs_from(v@, index as int)
                == refs_from(v@, 0),
        decreases v.len() - index,
    {
        let ghost before = out@.map_values(|p: (u64, &str)| (p.0, p.1@));
        if v[index] != '#' || (index > 0 && (is_ascii_alnum_exec(v[index - 1]) || v[index - 1]
            == '_')) {
            index += 1;
            continue;
        }
        let start = index + 1;
        let mut end = start;
        while end < v.len() && is_ascii_digit_exec(v[end])
            invariant
                start <= end <= v@.len(),
                digits_end(v@, start as int) == digits_end(v@, end as int),
                forall|k: int| start <= k < end ==> is_ascii_digit(#[trigger] v@[k]),
            decreases v.len() - end,
        {
            end += 1;
        }
        assert(digits_end(v@, end as int) == end);
        if end == start {
            index += 1;
            continue;
        }
        match parse_digits(&v, start, end) {
            None => {
                index = end;
                continue;
            },
            Some(number) => {
                let prefix = string_from(&v, 0, index);
                assert(v@.subrange(0, index as int) =~= v@.take(index as int));
                let source: &'static str = if has_explicit_closing_keyword(prefix.as_str()) {
                    "closing_reference"
                } else {
                    "body_reference"
                };
                out.push((number, source));
                assert(out@.map_values(|p: (u64, &str)| (p.0, p.1@)) =~= before.push(
                    (number, source@),
                ));
                assert(before.push((number, source@)) + refs_from(v@, end as int) =~= before + (seq![
                    (number, source@),
                ] + refs_from(v@, end as int)));
                index = end;
            },
        }
    }
    assert(out@.map_values(|p: (u64, &str)| (p.0, p.1@)) + refs_from(v@, index as int)
        =~= out@.map_values(|p: (u64, &str)| (p.0, p.1@)));
    out
}

// ---------------------------------------------------------------------------
// Adjudication review references
// ---------------------------------------------------------------------------

/// The accepted adjudication review prefix `value` starts with, if any.
pub open spec fn review_prefix(value: Seq<char>) -> Option<Seq<char>> {
    if starts_with(value, "review:2832:"@) {
        Some("review:2832:"@)
    } else if starts_with(value, "review:2825:"@) {
        Some("review:2825:"@)
    } else {
        None
    }
}

/// A slug is hyphen-joined non-empty ASCII-alphanumeric segments, at most
/// 64 characters.
pub open spec fn is_review_slug(slug: Seq<char>) -> bool {
    &&& slug.len() != 0
    &&& slug.len() <= 64
    &&& forall|i: int| 0 <= i < slug.len() ==> is_ascii_alnum(#[trigger] slug[i]) || slug[i] == '-'
    &&& slug[0] != '-'
    &&& slug.last() != '-'
    &&& forall|i: int| 0 <= i < slug.len() - 1 ==> !(#[trigger] slug[i] == '-' && slug[i + 1] == '-')
}

pub open spec fn is_review_ref(value: Seq<char>) -> bool {
    match review_prefix(value) {
        Some(p) => is_review_slug(value.skip(p.len() as int)),
        None => false,
    }
}

/// The accepted adjudication review prefix of `value`, if any.
pub fn adjudication_review_prefix(value: &str) -> (r: Option<&'static str>)
    ensures
        match r {
            Some(p) => review_prefix(value@) == Some(p@),
            None => review_prefix(value@) is None,
        },
{
    if str_starts_with(value, "review:2832:") {
        Some("review:2832:")
    } else if str_starts_with(value, "review:2825:") {
        Some("review:2825:")
    } else {
        None
    }
}

/// Whether `slug` has the established review slug shape.
pub fn is_adjudication_review_slug(slug: &str) -> (r: bool)
    ensures
        r == is_review_slug(slug@),
{
    let v = chars_of(slug);
    if v.len() == 0 || v.len() > 64 {
        return false;
    }
    if v[0] == '-' || v[v.len() - 1] == '-' {
        return false;
    }
    let mut i: usize = 0;
    while i < v.len()
        invariant
            v@ == slug@,
            0 < v@.len() <= 64,
            i <= v@.len(),
            forall|k: int| 0 <= k < i ==> is_ascii_alnum(#[trigger] v@[k]) || v@[k] == '-',
            forall|k: int| 0 <= k < i && k < v@.len() - 1 ==> !(#[trigger] v@[k] == '-' && v@[k + 1]
                == '-'),
        decreases v.len() - i,
    {
        if !is_ascii_alnum_exec(v[i]) && v[i] != '-' {
            return false;
        }
        if i + 1 < v.len() && v[i] == '-' && v[i + 1] == '-' {
            return false;
        }
        i += 1;
    }
    true
}

/// Whether `value` is `review:2832:<slug>` or `review:2825:<slug>`.
pub fn is_adjudication_review_ref(value: &str) -> (r: bool)
    ensures
        r == is_review_ref(value@),
{
    match adjudication_review_prefix(value) {
        None => false,
        Some(p) => {
            proof {
                reveal_strlit("review:2832:");
                reveal_strlit("review:2825:");
            }
            match str_strip_prefix(value, p) {
                Some(slug) => is_adjudication_review_slug(slug.as_str()),
                None => false,
            }
        },
    }
}

/// The issue a review reference names: the text between `review:` and the
/// next `:`, or `unknown`.
pub open spec fn issue_tag(review_ref: Seq<char>) -> Seq<char> {
    if starts_with(review_ref, "review:"@) {
        let rest = review_ref.skip(7);
        rest.take(char_index(rest, ':') as int)
    } else {
        "unknown"@
    }
}

/// The issue number text of a review reference.
pub fn adjudication_issue_tag(review_ref: &str) -> (r: String)
    ensures
        r@ == issue_tag(review_ref@),
{
    proof {
        reveal_strlit("review:");
    }
    match str_strip_prefix(review_ref, "review:") {
        None => owned("unknown"),
        Some(rest) => {
            let v = chars_of(rest.as_str());
            let k = char_index_from(&v, ':', 0);
            assert(v@.skip(0) =~= v@);
            let r = string_from(&v, 0, k);
            assert(v@.subrange(0, k as int) =~= v@.take(k as int));
            r
        },
    }
}

// ---------------------------------------------------------------------------
// Cells and SHAs
// ---------------------------------------------------------------------------

/// `value.replace('|', "\\|").replace(['\n', '\r'], " ")`.
pub open spec fn cell_text(value: Seq<char>) -> Seq<char> {
    replace_all(replace_all(replace_all(value, "|"@, "\\|"@), "\n"@, " "@), "\r"@, " "@)
}

/// A Markdown table cell.
pub fn escape_cell(value: &str) -> (r: String)
    ensures
        r@ == cell_text(value@),
{
    proof {
        reveal_strlit("|");
        reveal_strlit("\n");
        reveal_strlit("\r");
    }
    let a = str_replace(value, "|", "\\|");
    let b = str_replace(a.as_str(), "\n", " ");
    str_replace(b.as_str(), "\r", " ")
}

/// Whether `value` is a full 40-hex SHA.
pub fn is_sha(value: &str) -> (r: bool)
    ensures
        r == is_sha_spec(value@),
{
    crate::release_scope::is_sha(value)
}

// ---------------------------------------------------------------------------
// Ledger records
// ---------------------------------------------------------------------------

/// Typed evidence that a commit belongs to a PR or issue.
#[derive(Clone, Debug, PartialEq, Eq)]
pub struct ReferenceEvidence {
    pub kind: String,
    pub number: u64,
    pub source: String,
    pub evidence_url: Option<String>,
    pub github_identity: Option<String>,
    pub observed_for_commit_sha: String,
    pub reviewed: bool,
    pub limitation: String,
}

/// Where the ledger's range and candidate tree come from.
#[derive(Clone, Debug, PartialEq, Eq)]
pub struct SnapshotSource {
    pub mode: String,
    pub stage: String,
    pub freshness: String,
    pub historical_base_sha: String,
    pub provisional_review_cutoff_sha: Option<String>,
    pub github_repository: Option<String>,
    pub candidate_ref: String,
    pub candidate_sha: String,
    pub range_commits: Vec<String>,
    pub candidate_tree_commits: Vec<String>,
}

/// One first-parent commit of the ledger.
#[derive(Clone, Debug, PartialEq, Eq)]
pub struct CommitRecord {
    pub commit_sha: String,
    pub first_parent_position: usize,
    pub subject: String,
    pub pr_refs: Vec<u64>,
    pub issue_refs: Vec<u64>,
    pub references: Vec<ReferenceEvidence>,
    pub claim_refs: Vec<String>,
    pub reference_capture_status: String,
    pub reference_capture_limitation: String,
    pub theme_or_surface: String,
    pub release_disposition: String,
    pub acceptance_owner: String,
    pub candidate_tree_state: String,
    pub candidate_only_excluded_paths: Vec<String>,
    pub candidate_only_exclusion_granularity: Option<String>,
    pub replacement_commit_sha: Option<String>,
    pub review_refs: Vec<String>,
    pub proof_refs: Vec<String>,
    pub source_survivor_or_swarm_exclusion_effect: String,
    pub limitation_or_operator_decision: String,
}

/// A captured ledger: its header, its source and its records.
#[derive(Clone, Debug, PartialEq, Eq)]
pub struct Snapshot {
    pub schema_version: String,
    pub kind: String,
    pub captured_at: String,
    pub source: SnapshotSource,
    pub records: Vec<CommitRecord>,
}

/// A reviewed decision for one first-parent position that differs from
/// its batch.
#[derive(Clone, Debug, PartialEq, Eq)]
pub struct AdjudicationOverride {
    pub position: usize,
    pub batch_id: String,
    pub exclusion_id: Option<String>,
    pub disposition: String,
    pub candidate_tree_state: String,
    pub review_ref: String,
    pub delivered_delta: String,
    pub challenged_disposition: String,
    pub candidate_effect: String,
    pub residual_acceptance: String,
    pub candidate_only_excluded_paths: Vec<String>,
    pub candidate_only_exclusion_granularity: Option<String>,
    pub review_evidence: Vec<String>,
}

// ---------------------------------------------------------------------------
// Exclusion paths
// ---------------------------------------------------------------------------

/// A path trimmed, with forward slashes.
pub open spec fn norm_path(p: Seq<char>) -> Seq<char> {
    replace_all(trim(p), "\\"@, "/"@)
}

pub open spec fn safe_part(part: Seq<char>) -> bool {
    part.len() != 0 && part != "."@ && part != ".."@
}

/// A relative path with no empty, `.` or `..` component.
pub open spec fn safe_path(n: Seq<char>) -> bool {
    n.len() != 0 && n != "."@ && n != ".."@ && forall|k: int|
        0 <= k < split_char(n, '/').len() ==> safe_part(#[trigger] split_char(n, '/')[k])
}

pub open spec fn unsafe_paths_message(position: usize) -> Seq<char> {
    "adjudication override at position "@ + decimal(position as nat)
        + " has blank, unsafe, or duplicate exclusion paths"@
}

/// The override's exclusion paths as a sorted set; every path must be safe
/// and none may repeat.
pub open spec fn exclusion_paths_spec(o: AdjudicationOverride) -> Result<Seq<Seq<char>>, Seq<char>> {
    let ns = views(o.candidate_only_excluded_paths@).map_values(|p: Seq<char>| norm_path(p));
    if (forall|k: int| 0 <= k < ns.len() ==> safe_path(#[trigger] ns[k])) && ns.no_duplicates() {
        Ok(sorted_unique_spec(ns))
    } else {
        Err(unsafe_paths_message(o.position))
    }
}

fn norm_path_exec(p: &str) -> (r: String)
    ensures
        r@ == norm_path(p@),
{
    proof {
        reveal_strlit("\\");
    }
    let t = str_trim(p);
    str_replace(t.as_str(), "\\", "/")
}

fn safe_path_exec(n: &str) -> (r: bool)
    ensures
        r == safe_path(n@),
{
    if chars_of(n).len() == 0 || str_eq(n, ".") || str_eq(n, "..") {
        return false;
    }
    let parts = split_on_char(n, '/');
    let ghost ps = parts@.map_values(|l: String| l@);
    let mut i: usize = 0;
    while i < parts.len()
        invariant
            i <= parts@.len(),
            ps == parts@.map_values(|l: String| l@),
            ps == split_char(n@, '/'),
            forall|k: int| 0 <= k < i ==> safe_part(#[trigger] ps[k]),
        decreases parts.len() - i,
    {
        assert(ps[i as int] == parts@[i as int]@);
        let part = parts[i].as_str();
        if chars_of(part).len() == 0 || str_eq(part, ".") || str_eq(part, "..") {
            return false;
        }
        i += 1;
    }
    true
}

pub fn position_message(position: usize, tail: &str) -> (r: String)
    ensures
        r@ == "adjudication override at position "@ + decimal(position as nat) + tail@,
{
    let mut m = owned("adjudication override at position ");
    let d = usize_to_string(position);
    push_str(&mut m, d.as_str());
    push_str(&mut m, tail);
    m
}

/// The override's exclusion paths, normalized, as a sorted set.
pub fn normalized_exclusion_paths(override_record: &AdjudicationOverride) -> (r: Result<
    Vec<String>,
    String,
>)
    ensures
        match r {
            Ok(v) => exclusion_paths_spec(*override_record) == Ok::<Seq<Seq<char>>, Seq<char>>(
                views(v@),
            ),
            Err(e) => exclusion_paths_spec(*override_record) == Err::<Seq<Seq<char>>, Seq<char>>(
                e@,
            ),
        },
{
    let paths = &override_record.candidate_only_excluded_paths;
    let ghost ns = views(paths@).map_values(|p: Seq<char>| norm_path(p));
    let mut normalized: Vec<String> = Vec::new();
    let mut i: usize = 0;
    let mut all_safe = true;
    while i < paths.len()
        invariant
            i <= paths@.len(),
            ns == views(paths@).map_values(|p: Seq<char>| norm_path(p)),
            views(normalized@) == ns.take(i as int),
            all_safe == forall|k: int| 0 <= k < i ==> safe_path(#[trigger] ns[k]),
        decreases paths.len() - i,
    {
        let n = norm_path_exec(paths[i].as_str());
        if !safe_path_exec(n.as_str()) {
            all_safe = false;
        }
        let ghost before = normalized@;
        normalized.push(n);
        assert(views(normalized@) =~= views(before).push(ns[i as int]));
        assert(ns.take(i + 1) =~= ns.take(i as int).push(ns[i as int]));
        i += 1;
    }
    assert(ns.take(paths@.len() as int) =~= ns);
    if !all_safe || crate::release_scope::has_duplicates(normalized.as_slice()) {
        return Err(
            position_message(
                override_record.position,
                " has blank, unsafe, or duplicate exclusion paths",
            ),
        );
    }
    Ok(crate::release_scope::sorted_unique(normalized.as_slice()))
}

/// The accepted execution exclusion path set: each entry must be a
/// non-blank string, and is normalized.
pub open spec fn accepted_paths_spec(entries: Option<Seq<Option<Seq<char>>>>) -> Result<
    Seq<Seq<char>>,
    Seq<char>,
> {
    match entries {
        None => Err("accepted execution scope has no candidate_excluded_paths"@),
        Some(es) => if forall|k: int|
            0 <= k < es.len() ==> ((#[trigger] es[k]) matches Some(p) && trim(p).len() != 0) {
            Ok(
                sorted_unique_spec(
                    es.map_values(|e: Option<Seq<char>>| norm_path(e.unwrap())),
                ),
            )
        } else {
            Err("accepted execution scope contains a non-string path"@)
        },
    }
}

pub open spec fn entries_view(entries: Option<Vec<Option<String>>>) -> Option<Seq<Option<Seq<char>>>> {
    match entries {
        Some(v) => Some(v@.map_values(|e: Option<String>| crate::text::opt_view(e))),
        None => None,
    }
}

/// The accepted execution exclusion paths from the accepted scope's
/// `candidate_excluded_paths` entries (`None` for a non-string entry).
pub fn accepted_execution_excluded_paths(entries: Option<Vec<Option<String>>>) -> (r: Result<
    Vec<String>,
    String,
>)
    ensures
        match r {
            Ok(v) => accepted_paths_spec(entries_view(entries)) == Ok::<Seq<Seq<char>>, Seq<char>>(
                views(v@),
            ),
            Err(e) => accepted_paths_spec(entries_view(entries)) == Err::<
                Seq<Seq<char>>,
                Seq<char>,
            >(e@),
        },
{
    let ghost original = entries_view(entries);
    let list = match entries {
        None => {
            return Err(owned("accepted execution scope has no candidate_excluded_paths"));
        },
        Some(v) => v,
    };
    let ghost es = list@.map_values(|e: Option<String>| crate::text::opt_view(e));
    let mut out: Vec<String> = Vec::new();
    let mut i: usize = 0;
    while i < list.len()
        invariant
            i <= list@.len(),
            es == list@.map_values(|e: Option<String>| crate::text::opt_view(e)),
            original == Some(es),
            original == entries_view(entries),
            forall|k: int| 0 <= k < i ==> ((#[trigger] es[k]) matches Some(p) && trim(p).len() != 0),
            views(out@) == es.take(i as int).map_values(|e: Option<Seq<char>>| norm_path(e.unwrap())),
        decreases list.len() - i,
    {
        assert(es[i as int] == crate::text::opt_view(list@[i as int]));
        match &list[i] {
            Some(p) => {
                if str_is_blank(p.as_str()) {
                    assert(!(es[i as int] matches Some(q) && trim(q).len() != 0));
                    return Err(owned("accepted execution scope contains a non-string path"));
                }
                let ghost before = out@;
                out.push(norm_path_exec(p.as_str()));
                assert(views(out@) =~= views(before).push(norm_path(p@)));
                assert(es.take(i + 1).map_values(|e: Option<Seq<char>>| norm_path(e.unwrap()))
                    =~= es.take(i as int).map_values(|e: Option<Seq<char>>| norm_path(e.unwrap())).push(
                    norm_path(p@),
                ));
            },
            None => {
                assert(!(es[i as int] matches Some(q) && trim(q).len() != 0));
                return Err(owned("accepted execution scope contains a non-string path"));
            },
        }
        i += 1;
    }
    assert(es.take(list@.len() as int) =~= es);
    Ok(crate::release_scope::sorted_unique(out.as_slice()))
}

pub open spec fn opt_text(o: Option<String>) -> Option<Seq<char>> {
    crate::text::opt_view(o)
}

/// Checks an override's exclusion paths against its disposition and the
/// accepted execution exclusion (the sorted set `accepted`).
pub open spec fn override_paths_check(o: AdjudicationOverride, accepted: Seq<Seq<char>>) -> Result<(), Seq<char>> {
    match exclusion_paths_spec(o) {
        Err(e) => Err(e),
        Ok(supplied) => if o.disposition@ != "candidate_only_exclusion"@ {
            if supplied.len() != 0 || o.exclusion_id is Some || o.candidate_only_exclusion_granularity is Some {
                Err(
                    "adjudication override at position "@ + decimal(o.position as nat)
                        + " carries exclusion paths without candidate_only_exclusion disposition"@,
                )
            } else {
                Ok(())
            }
        } else if opt_text(o.exclusion_id) != Some("exclusion:2767:verification-execution"@) {
            Err(
                "adjudication override at position "@ + decimal(o.position as nat)
                    + " is not bound to the accepted #2767 exclusion"@,
            )
        } else if o.candidate_tree_state@ == "present_in_candidate"@ && supplied.len() == 0 {
            Err(
                "adjudication override at position "@ + decimal(o.position as nat)
                    + " has no path-level exclusion"@,
            )
        } else if opt_text(o.candidate_only_exclusion_granularity) != Some("hunk_or_symbol"@) {
            Err(
                "adjudication override at position "@ + decimal(o.position as nat)
                    + " does not declare hunk-or-symbol exclusion granularity"@,
            )
        } else if supplied != accepted {
            Err(
                "adjudication override at position "@ + decimal(o.position as nat)
                    + " does not match the accepted #2767 path set"@,
            )
        } else {
            Ok(())
        },
    }
}

pub fn opt_is(o: &Option<String>, s: &str) -> (r: bool)
    ensures
        r == (opt_text(*o) == Some(s@)),
{
    match o {
        Some(x) => str_eq(x.as_str(), s),
        None => false,
    }
}

fn strings_eq(a: &Vec<String>, b: &Vec<String>) -> (r: bool)
    ensures
        r == (views(a@) == views(b@)),
{
    if a.len() != b.len() {
        assert(views(a@).len() != views(b@).len());
        return false;
    }
    let mut i: usize = 0;
    while i < a.len()
        invariant
            i <= a@.len(),
            a@.len() == b@.len(),
            forall|j: int| 0 <= j < i ==> views(a@)[j] == views(b@)[j],
        decreases a.len() - i,
    {
        if !str_eq(a[i].as_str(), b[i].as_str()) {
            assert(views(a@)[i as int] != views(b@)[i as int]);
            return false;
        }
        i += 1;
    }
    assert(views(a@) =~= views(b@));
    true
}

/// Checks an override's exclusion paths: only a `candidate_only_exclusion`
/// may carry them, bound to the accepted exclusion, at hunk-or-symbol
/// granularity, naming exactly the accepted path set.
pub fn validate_override_exclusion_paths(override_record: &AdjudicationOverride, accepted: &Vec<String>) -> (r:
    Result<(), String>)
    ensures
        match r {
            Ok(()) => override_paths_check(*override_record, views(accepted@)) is Ok,
            Err(e) => override_paths_check(*override_record, views(accepted@)) == Err::<(), Seq<char>>(
                e@,
            ),
        },
{
    let o = override_record;
    let supplied = normalized_exclusion_paths(o)?;
    if !str_eq(o.disposition.as_str(), "candidate_only_exclusion") {
        if supplied.len() != 0 || o.exclusion_id.is_some()
            || o.candidate_only_exclusion_granularity.is_some() {
            return Err(
                position_message(
                    o.position,
                    " carries exclusion paths without candidate_only_exclusion disposition",
                ),
            );
        }
        return Ok(());
    }
    if !opt_is(&o.exclusion_id, "exclusion:2767:verification-execution") {
        return Err(position_message(o.position, " is not bound to the accepted #2767 exclusion"));
    }
    if str_eq(o.candidate_tree_state.as_str(), "present_in_candidate") && supplied.len() == 0 {
        return Err(position_message(o.position, " has no path-level exclusion"));
    }
    if !opt_is(&o.candidate_only_exclusion_granularity, "hunk_or_symbol") {
        return Err(
            position_message(o.position, " does not declare hunk-or-symbol exclusion granularity"),
        );
    }
    if !strings_eq(&supplied, accepted) {
        return Err(position_message(o.position, " does not match the accepted #2767 path set"));
    }
    Ok(())
}

/// Every field of a record but its candidate-only exclusion is unchanged.
pub open spec fn same_but_exclusion(a: CommitRecord, b: CommitRecord) -> bool {
    &&& a.commit_sha == b.commit_sha
    &&& a.first_parent_position == b.first_parent_position
    &&& a.subject == b.subject
    &&& a.pr_refs == b.pr_refs
    &&& a.issue_refs == b.issue_refs
    &&& a.references == b.references
    &&& a.claim_refs == b.claim_refs
    &&& a.reference_capture_status == b.reference_capture_status
    &&& a.reference_capture_limitation == b.reference_capture_limitation
    &&& a.theme_or_surface == b.theme_or_surface
    &&& a.release_disposition == b.release_disposition
    &&& a.acceptance_owner == b.acceptance_owner
    &&& a.candidate_tree_state == b.candidate_tree_state
    &&& a.replacement_commit_sha == b.replacement_commit_sha
    &&& a.review_refs == b.review_refs
    &&& a.proof_refs == b.proof_refs
    &&& a.source_survivor_or_swarm_exclusion_effect == b.source_survivor_or_swarm_exclusion_effect
    &&& a.limitation_or_operator_decision == b.limitation_or_operator_decision
}

/// Records an override's exclusion paths and granularity on its record
/// (none without an override); the record is left alone when the paths are
/// refused.
pub fn apply_candidate_only_override(record: &mut CommitRecord, override_record: Option<&AdjudicationOverride>) -> (r:
    Result<(), String>)
    ensures
        match override_record {
            None => r is Ok && final(record).candidate_only_excluded_paths@.len() == 0
                && final(record).candidate_only_exclusion_granularity is None,
            Some(o) => match exclusion_paths_spec(*o) {
                Ok(paths) => r is Ok && views(final(record).candidate_only_excluded_paths@) == paths
                    && opt_text(final(record).candidate_only_exclusion_granularity) == opt_text(
                    o.candidate_only_exclusion_granularity,
                ),
                Err(e) => r matches Err(x) && x@ == e,
            },
        },
        r is Err ==> *final(record) == *old(record),
        same_but_exclusion(*old(record), *final(record)),
{
    match override_record {
        None => {
            record.candidate_only_excluded_paths = Vec::new();
            record.candidate_only_exclusion_granularity = None;
            Ok(())
        },
        Some(o) => {
            let paths = normalized_exclusion_paths(o)?;
            record.candidate_only_excluded_paths = paths;
            record.candidate_only_exclusion_granularity = match &o.candidate_only_exclusion_granularity {
                Some(g) => Some(owned(g.as_str())),
                None => None,
            };
            Ok(())
        },
    }
}

// ---------------------------------------------------------------------------
// The candidate tree and the provisional cutoff
// ---------------------------------------------------------------------------

pub open spec fn present_in(records: Seq<CommitRecord>, sha: Seq<char>) -> bool {
    exists|i: int| 0 <= i < records.len() && (#[trigger] records[i]).candidate_tree_state@
        == "present_in_candidate"@ && records[i].commit_sha@ == sha
}

/// The range commits, in range order, that some record keeps present in
/// the candidate.
pub open spec fn candidate_tree_spec(records: Seq<CommitRecord>, range: Seq<Seq<char>>) -> Seq<Seq<char>>
    decreases range.len(),
{
    if range.len() == 0 {
        seq![]
    } else {
        let rest = candidate_tree_spec(records, range.drop_last());
        if present_in(records, range.last()) {
            rest.push(range.last())
        } else {
            rest
        }
    }
}

fn present_exec(records: &[CommitRecord], sha: &str) -> (r: bool)
    ensures
        r == present_in(records@, sha@),
{
    let mut i: usize = 0;
    while i < records.len()
        invariant
            i <= records@.len(),
            forall|k: int| 0 <= k < i ==> !((#[trigger] records@[k]).candidate_tree_state@
                == "present_in_candidate"@ && records@[k].commit_sha@ == sha@),
        decreases records.len() - i,
    {
        if str_eq(records[i].candidate_tree_state.as_str(), "present_in_candidate") && str_eq(
            records[i].commit_sha.as_str(),
            sha,
        ) {
            return true;
        }
        i += 1;
    }
    false
}

/// The candidate tree a set of record decisions projects onto the range.
pub fn project_candidate_tree(records: &[CommitRecord], range_commits: &[String]) -> (r: Vec<String>)
    ensures
        views(r@) == candidate_tree_spec(records@, views(range_commits@)),
{
    let ghost rv = views(range_commits@);
    let mut out: Vec<String> = Vec::new();
    let mut i: usize = 0;
    assert(rv.take(0) =~= Seq::<Seq<char>>::empty());
    while i < range_commits.len()
        invariant
            i <= range_commits@.len(),
            rv == views(range_commits@),
            views(out@) == candidate_tree_spec(records@, rv.take(i as int)),
        decreases range_commits.len() - i,
    {
        assert(rv.take(i + 1).drop_last() =~= rv.take(i as int));
        assert(rv.take(i + 1).last() == range_commits@[i as int]@);
        if present_exec(records, range_commits[i].as_str()) {
            let ghost before = out@;
            out.push(owned(range_commits[i].as_str()));
            assert(views(out@) =~= views(before).push(range_commits@[i as int]@));
        }
        i += 1;
    }
    assert(rv.take(range_commits@.len() as int) =~= rv);
    out
}

pub open spec fn first_with_sha(records: Seq<CommitRecord>, sha: Seq<char>) -> Option<int>
    decreases records.len(),
{
    if records.len() == 0 {
        None
    } else if records[0].commit_sha@ == sha {
        Some(0)
    } else {
        match first_with_sha(records.drop_first(), sha) {
            Some(i) => Some(i + 1),
            None => None,
        }
    }
}

pub open spec fn pending_effect() -> Seq<char> {
    "Observed in the provisional denominator; candidate-tree inclusion or exclusion awaits record-level adjudication in #2832."@
}

pub open spec fn pending_limitation() -> Seq<char> {
    "No blanket post-cutoff exclusion is accepted. Review the exact commit, claim mapping, proof, and candidate-tree effect before candidate selection."@
}

/// Whether the cutoff boundary reopens record `index`: it lies after the
/// cutoff, or was deferred past the release.
pub open spec fn reopened(r: CommitRecord, index: int, cutoff_position: int) -> bool {
    index > cutoff_position || r.release_disposition@ == "safe_defer_post_0_11"@
}

/// A reopened record: an operator decision, pending in the candidate tree.
pub open spec fn reopened_record(old_r: CommitRecord, new_r: CommitRecord) -> bool {
    &&& new_r.release_disposition@ == "operator_decision_required"@
    &&& new_r.candidate_tree_state@ == "candidate_tree_state_pending"@
    &&& new_r.source_survivor_or_swarm_exclusion_effect@ == pending_effect()
    &&& new_r.limitation_or_operator_decision@ == pending_limitation()
    &&& new_r.commit_sha == old_r.commit_sha
    &&& new_r.first_parent_position == old_r.first_parent_position
    &&& new_r.subject == old_r.subject
    &&& new_r.references == old_r.references
    &&& new_r.review_refs == old_r.review_refs
    &&& new_r.acceptance_owner == old_r.acceptance_owner
    &&& new_r.candidate_only_excluded_paths == old_r.candidate_only_excluded_paths
}

pub fn find_sha(records: &Vec<CommitRecord>, sha: &str) -> (r: Option<usize>)
    ensures
        match first_with_sha(records@, sha@) {
            Some(k) => r is Some && r->0 as int == k && 0 <= k < records@.len(),
            None => r is None,
        },
{
    let ghost s = records@;
    let mut i: usize = 0;
    assert(s.skip(0) =~= s);
    while i < records.len()
        invariant
            i <= s.len(),
            s == records@,
            first_with_sha(s, sha@) == match first_with_sha(s.skip(i as int), sha@) {
                Some(k) => Some(k + i),
                None => None::<int>,
            },
        decreases records.len() - i,
    {
        assert(s.skip(i as int)[0] == s[i as int]);
        if str_eq(records[i].commit_sha.as_str(), sha) {
            return Some(i);
        }
        assert(s.skip(i as int).drop_first() =~= s.skip(i + 1));
        i += 1;
    }
    None
}

/// Reopens every record after the provisional review cutoff, and every
/// record deferred past the release, as a pending operator decision; an
/// error when the cutoff is not a ledger commit.
pub fn apply_provisional_cutoff_boundary(snapshot: &mut Snapshot) -> (r: Result<(), String>)
    ensures
        final(snapshot).source == old(snapshot).source,
        final(snapshot).schema_version == old(snapshot).schema_version,
        final(snapshot).kind == old(snapshot).kind,
        final(snapshot).captured_at == old(snapshot).captured_at,
        match old(snapshot).source.provisional_review_cutoff_sha {
            None => r is Ok && final(snapshot).records == old(snapshot).records,
            Some(cutoff) => match first_with_sha(old(snapshot).records@, cutoff@) {
                None => r matches Err(e) && e@ == "provisional review cutoff "@ + cutoff@
                    + " is not in the captured range"@ && final(snapshot).records == old(
                    snapshot,
                ).records,
                Some(p) => r is Ok && final(snapshot).records@.len() == old(snapshot).records@.len()
                    && forall|i: int|
                    0 <= i < old(snapshot).records@.len() ==> if reopened(
                        #[trigger] old(snapshot).records@[i],
                        i,
                        p,
                    ) {
                        reopened_record(old(snapshot).records@[i], final(snapshot).records@[i])
                    } else {
                        final(snapshot).records@[i] == old(snapshot).records@[i]
                    },
            },
        },
{
    let cutoff = match &snapshot.source.provisional_review_cutoff_sha {
        None => {
            return Ok(());
        },
        Some(c) => owned(c.as_str()),
    };
    let position = match find_sha(&snapshot.records, cutoff.as_str()) {
        None => {
            let mut e = owned("provisional review cutoff ");
            push_str(&mut e, cutoff.as_str());
            push_str(&mut e, " is not in the captured range");
            return Err(e);
        },
        Some(p) => p,
    };
    let ghost start = snapshot.records@;
    let mut i: usize = 0;
    while i < snapshot.records.len()
        invariant
            i <= snapshot.records@.len(),
            snapshot.records@.len() == start.len(),
            snapshot.source == old(snapshot).source,
            snapshot.schema_version == old(snapshot).schema_version,
            snapshot.kind == old(snapshot).kind,
            snapshot.captured_at == old(snapshot).captured_at,
            start == old(snapshot).records@,
            forall|k: int|
                0 <= k < i ==> if reopened(#[trigger] start[k], k, position as int) {
                    reopened_record(start[k], snapshot.records@[k])
                } else {
                    snapshot.records@[k] == start[k]
                },
            forall|k: int| i <= k < start.len() ==> #[trigger] snapshot.records@[k] == start[k],
        decreases snapshot.records.len() - i,
    {
        let reopen = i > position || str_eq(
            snapshot.records[i].release_disposition.as_str(),
            "safe_defer_post_0_11",
        );
        if reopen {
            let mut record = snapshot.records.remove(i);
            record.release_disposition = owned("operator_decision_required");
            record.candidate_tree_state = owned("candidate_tree_state_pending");
            record.source_survivor_or_swarm_exclusion_effect = owned(
                "Observed in the provisional denominator; candidate-tree inclusion or exclusion awaits record-level adjudication in #2832.",
            );
            record.limitation_or_operator_decision = owned(
                "No blanket post-cutoff exclusion is accepted. Review the exact commit, claim mapping, proof, and candidate-tree effect before candidate selection.",
            );
            snapshot.records.insert(i, record);
        }
        i += 1;
    }
    Ok(())
}

// ---------------------------------------------------------------------------
// Source validation
// ---------------------------------------------------------------------------

/// The per-value reasons of a SHA list over its first `n` values: an
/// invalid SHA, and a SHA already seen earlier in the list.
pub open spec fn sha_item_reasons(name: Seq<char>, values: Seq<Seq<char>>, n: int) -> Seq<Seq<char>>
    decreases n,
{
    if n <= 0 || n > values.len() {
        seq![]
    } else {
        sha_item_reasons(name, values, n - 1) + reason_if(
            !is_sha_spec(values[n - 1]),
            name + " contains invalid SHA "@ + values[n - 1],
        ) + reason_if(
            values.take(n - 1).contains(values[n - 1]),
            name + " contains duplicate SHA "@ + values[n - 1],
        )
    }
}

/// The reasons a named SHA list is not a non-empty list of distinct SHAs.
pub open spec fn sha_list_reasons(name: Seq<char>, values: Seq<Seq<char>>) -> Seq<Seq<char>> {
    reason_if(values.len() == 0, name + " must not be empty"@) + sha_item_reasons(
        name,
        values,
        values.len() as int,
    )
}

pub fn seen_before(values: &[String], n: usize, x: &str) -> (r: bool)
    requires
        n <= values@.len(),
    ensures
        r == views(values@).take(n as int).contains(x@),
{
    let ghost s = views(values@);
    let mut i: usize = 0;
    while i < n
        invariant
            i <= n,
            n <= values@.len(),
            s == views(values@),
            forall|k: int| 0 <= k < i ==> s[k] != x@,
        decreases n - i,
    {
        assert(s[i as int] == values@[i as int]@);
        if str_eq(values[i].as_str(), x) {
            assert(s.take(n as int)[i as int] == x@);
            return true;
        }
        i += 1;
    }
    assert(forall|k: int| 0 <= k < n ==> s.take(n as int)[k] != x@);
    false
}

/// Appends the reasons the named SHA list is empty, holds an invalid SHA
/// or repeats one.
pub fn validate_sha_list(name: &str, values: &[String], reasons: &mut Vec<String>)
    ensures
        views(final(reasons)@) == views(old(reasons)@) + sha_list_reasons(name@, views(values@)),
{
    let ghost s = views(values@);
    let ghost start = views(reasons@);
    push_when(reasons, values.len() == 0, concat(name, " must not be empty"));
    let mut i: usize = 0;
    while i < values.len()
        invariant
            i <= values@.len(),
            s == views(values@),
            views(reasons@) == start + reason_if(s.len() == 0, name@ + " must not be empty"@)
                + sha_item_reasons(name@, s, i as int),
        decreases values.len() - i,
    {
        assert(s[i as int] == values@[i as int]@);
        let v = values[i].as_str();
        let ghost mid = views(reasons@);
        push_when(reasons, !is_sha(v), concat3(name, " contains invalid SHA ", v));
        let dup = seen_before(values, i, v);
        push_when(reasons, dup, concat3(name, " contains duplicate SHA ", v));
        assert(views(reasons@) =~= start + reason_if(s.len() == 0, name@ + " must not be empty"@)
            + sha_item_reasons(name@, s, i + 1));
        i += 1;
    }
}

/// The reasons the snapshot header is not a current denominator snapshot.
pub open spec fn header_reasons(s: Snapshot) -> Seq<Seq<char>> {
    reason_if(
        s.schema_version@ != "0.1"@,
        "snapshot schema_version must be 0.1, got "@ + s.schema_version@,
    ) + reason_if(
        s.kind@ != "release_denominator_snapshot"@,
        "snapshot kind must be release_denominator_snapshot, got "@ + s.kind@,
    ) + reason_if(trim(s.captured_at@).len() == 0, "snapshot captured_at is missing"@)
}

/// The reasons the source's mode, stage and freshness are unknown, or its
/// historical base is no SHA.
pub open spec fn source_mode_reasons(src: SnapshotSource) -> Seq<Seq<char>> {
    reason_if(
        src.mode@ != "captured"@ && src.mode@ != "live"@,
        "source mode must be captured or live, got "@ + src.mode@,
    ) + reason_if(
        src.stage@ != "provisional"@ && src.stage@ != "final"@,
        "source stage must be provisional or final, got "@ + src.stage@,
    ) + reason_if(
        src.freshness@ != "current"@,
        "source freshness must be current, got "@ + src.freshness@,
    ) + reason_if(
        !is_sha_spec(src.historical_base_sha@),
        "historical_base_sha must be a 40-character hexadecimal SHA"@,
    )
}

/// The reasons the source's cutoff and candidate pins are invalid.
pub open spec fn source_pin_reasons(src: SnapshotSource) -> Seq<Seq<char>> {
    cutoff_reasons(src) + reason_if(
        trim(src.candidate_ref@).len() == 0,
        "candidate_ref is missing"@,
    ) + reason_if(
        !is_sha_spec(src.candidate_sha@),
        "candidate_sha must be a 40-character hexadecimal SHA"@,
    )
}

pub open spec fn source_field_reasons(src: SnapshotSource) -> Seq<Seq<char>> {
    source_mode_reasons(src) + source_pin_reasons(src)
}

/// The reasons the provisional review cutoff, when given, is malformed or
/// outside the range.
pub open spec fn cutoff_reasons(src: SnapshotSource) -> Seq<Seq<char>> {
    match src.provisional_review_cutoff_sha {
        None => seq![],
        Some(c) => if !is_sha_spec(c@) {
            seq!["provisional_review_cutoff_sha must be a 40-character hexadecimal SHA"@]
        } else if !views(src.range_commits@).contains(c@) {
            seq!["provisional review cutoff "@ + c@ + " is not in range_commits"@]
        } else {
            seq![]
        },
    }
}

/// One reason per candidate-tree commit outside the range, over the first
/// `n` tree commits.
pub open spec fn outside_range_reasons(tree: Seq<Seq<char>>, range: Seq<Seq<char>>, n: int) -> Seq<
    Seq<char>,
>
    decreases n,
{
    if n <= 0 || n > tree.len() {
        seq![]
    } else {
        outside_range_reasons(tree, range, n - 1) + reason_if(
            !range.contains(tree[n - 1]),
            "candidate_tree_commits contains commit "@ + tree[n - 1] + " outside range_commits"@,
        )
    }
}

pub open spec fn list_reasons(src: SnapshotSource) -> Seq<Seq<char>> {
    sha_list_reasons("range_commits"@, views(src.range_commits@)) + sha_list_reasons(
        "candidate_tree_commits"@,
        views(src.candidate_tree_commits@),
    ) + outside_range_reasons(
        views(src.candidate_tree_commits@),
        views(src.range_commits@),
        src.candidate_tree_commits@.len() as int,
    )
}

/// Every reason the snapshot's header and source are not a valid,
/// current ledger source, in order.
pub open spec fn snapshot_source_reasons(s: Snapshot) -> Seq<Seq<char>> {
    header_reasons(s) + source_field_reasons(s.source) + list_reasons(s.source)
}

fn push_header_reasons(s: &Snapshot, reasons: &mut Vec<String>)
    ensures
        views(final(reasons)@) == views(old(reasons)@) + header_reasons(*s),
{
    let ghost start = views(reasons@);
    push_when(
        reasons,
        !str_eq(s.schema_version.as_str(), "0.1"),
        concat("snapshot schema_version must be 0.1, got ", s.schema_version.as_str()),
    );
    push_when(
        reasons,
        !str_eq(s.kind.as_str(), "release_denominator_snapshot"),
        concat("snapshot kind must be release_denominator_snapshot, got ", s.kind.as_str()),
    );
    push_when(reasons, str_is_blank(s.captured_at.as_str()), owned("snapshot captured_at is missing"));
    assert(views(reasons@) =~= start + header_reasons(*s));
}

fn push_cutoff_reasons(src: &SnapshotSource, reasons: &mut Vec<String>)
    ensures
        views(final(reasons)@) == views(old(reasons)@) + cutoff_reasons(*src),
{
    let ghost start = views(reasons@);
    match &src.provisional_review_cutoff_sha {
        None => {
            assert(views(reasons@) =~= start + cutoff_reasons(*src));
        },
        Some(c) => {
            if !is_sha(c.as_str()) {
                reasons.push(owned("provisional_review_cutoff_sha must be a 40-character hexadecimal SHA"));
            } else if !seen_before(src.range_commits.as_slice(), src.range_commits.len(), c.as_str()) {
                assert(views(src.range_commits@).take(src.range_commits@.len() as int) =~= views(src.range_commits@));
                reasons.push(concat3("provisional review cutoff ", c.as_str(), " is not in range_commits"));
            } else {
                assert(views(src.range_commits@).take(src.range_commits@.len() as int) =~= views(src.range_commits@));
            }
            assert(views(reasons@) =~= start + cutoff_reasons(*src));
        },
    }
}

fn push_source_mode_reasons(src: &SnapshotSource, reasons: &mut Vec<String>)
    ensures
        views(final(reasons)@) == views(old(reasons)@) + source_mode_reasons(*src),
{
    let ghost start = views(reasons@);
    push_when(
        reasons,
        !str_eq(src.mode.as_str(), "captured") && !str_eq(src.mode.as_str(), "live"),
        concat("source mode must be captured or live, got ", src.mode.as_str()),
    );
    push_when(
        reasons,
        !str_eq(src.stage.as_str(), "provisional") && !str_eq(src.stage.as_str(), "final"),
        concat("source stage must be provisional or final, got ", src.stage.as_str()),
    );
    push_when(
        reasons,
        !str_eq(src.freshness.as_str(), "current"),
        concat("source freshness must be current, got ", src.freshness.as_str()),
    );
    push_when(
        reasons,
        !is_sha(src.historical_base_sha.as_str()),
        owned("historical_base_sha must be a 40-character hexadecimal SHA"),
    );
    assert(views(reasons@) =~= start + source_mode_reasons(*src));
}

fn push_source_pin_reasons(src: &SnapshotSource, reasons: &mut Vec<String>)
    ensures
        views(final(reasons)@) == views(old(reasons)@) + source_pin_reasons(*src),
{
    let ghost start = views(reasons@);
    push_cutoff_reasons(src, reasons);
    push_when(reasons, str_is_blank(src.candidate_ref.as_str()), owned("candidate_ref is missing"));
    push_when(
        reasons,
        !is_sha(src.candidate_sha.as_str()),
        owned("candidate_sha must be a 40-character hexadecimal SHA"),
    );
    assert(views(reasons@) =~= start + source_pin_reasons(*src));
}

fn push_outside_range_reasons(src: &SnapshotSource, reasons: &mut Vec<String>)
    ensures
        views(final(reasons)@) == views(old(reasons)@) + outside_range_reasons(
            views(src.candidate_tree_commits@),
            views(src.range_commits@),
            src.candidate_tree_commits@.len() as int,
        ),
{
    let ghost start = views(reasons@);
    let ghost tree = views(src.candidate_tree_commits@);
    let ghost range = views(src.range_commits@);
    let mut i: usize = 0;
    while i < src.candidate_tree_commits.len()
        invariant
            i <= tree.len(),
            tree == views(src.candidate_tree_commits@),
            range == views(src.range_commits@),
            views(reasons@) == start + outside_range_reasons(tree, range, i as int),
        decreases src.candidate_tree_commits.len() - i,
    {
        let c = src.candidate_tree_commits[i].as_str();
        assert(tree[i as int] == c@);
        let inside = seen_before(src.range_commits.as_slice(), src.range_commits.len(), c);
        assert(range.take(range.len() as int) =~= range);
        push_when(
            reasons,
            !inside,
            concat3("candidate_tree_commits contains commit ", c, " outside range_commits"),
        );
        assert(views(reasons@) =~= start + outside_range_reasons(tree, range, i + 1));
        i += 1;
    }
}

fn push_list_reasons(src: &SnapshotSource, reasons: &mut Vec<String>)
    ensures
        views(final(reasons)@) == views(old(reasons)@) + list_reasons(*src),
{
    let ghost start = views(reasons@);
    validate_sha_list("range_commits", src.range_commits.as_slice(), reasons);
    let ghost a = views(reasons@);
    validate_sha_list("candidate_tree_commits", src.candidate_tree_commits.as_slice(), reasons);
    let ghost b = views(reasons@);
    push_outside_range_reasons(src, reasons);
    proof {
        reveal_strlit("range_commits");
        reveal_strlit("candidate_tree_commits");
    }
    assert(views(reasons@) =~= start + list_reasons(*src));
}

/// Appends every reason the snapshot's header and source are invalid.
pub fn validate_source(snapshot: &Snapshot, reasons: &mut Vec<String>)
    ensures
        views(final(reasons)@) == views(old(reasons)@) + snapshot_source_reasons(*snapshot),
{
    let ghost start = views(reasons@);
    push_header_reasons(snapshot, reasons);
    let ghost a = views(reasons@);
    push_source_mode_reasons(&snapshot.source, reasons);
    let ghost b = views(reasons@);
    push_source_pin_reasons(&snapshot.source, reasons);
    let ghost c = views(reasons@);
    push_list_reasons(&snapshot.source, reasons);
    proof {
        lemma_add_assoc(a, source_mode_reasons(snapshot.source), source_pin_reasons(snapshot.source));
        lemma_add_assoc(start, header_reasons(*snapshot), source_field_reasons(snapshot.source));
        lemma_add_assoc(
            start,
            header_reasons(*snapshot) + source_field_reasons(snapshot.source),
            list_reasons(snapshot.source),
        );
    }
}

proof fn lemma_add_assoc(a: Seq<Seq<char>>, b: Seq<Seq<char>>, c: Seq<Seq<char>>)
    ensures
        a + b + c == a + (b + c),
{
    assert(a + b + c =~= a + (b + c));
}

// ---------------------------------------------------------------------------
// Capture metadata
// ---------------------------------------------------------------------------

pub open spec fn is_capture_status(s: Seq<char>) -> bool {
    s == "not_captured"@ || s == "captured"@ || s == "no_linked_authority"@ || s == "ambiguous"@
        || s == "unavailable"@
}

/// The reasons a record's reference capture status is unknown or
/// inconsistent with its evidence.
pub open spec fn capture_reasons(r: CommitRecord) -> Seq<Seq<char>> {
    let status = r.reference_capture_status@;
    reason_if(
        !is_capture_status(status),
        "commit "@ + r.commit_sha@ + " has invalid reference_capture_status "@ + status,
    ) + if status == "captured"@ && r.references@.len() == 0 {
        seq!["commit "@ + r.commit_sha@ + " is marked captured without typed reference evidence"@]
    } else if status == "no_linked_authority"@ && r.references@.len() != 0 {
        seq![
            "commit "@ + r.commit_sha@
                + " has references despite no_linked_authority capture status"@,
        ]
    } else if (status == "ambiguous"@ || status == "unavailable"@) && trim(
        r.reference_capture_limitation@,
    ).len() == 0 {
        seq![
            "commit "@ + r.commit_sha@ + " "@ + status + " capture status must state its limitation"@,
        ]
    } else {
        seq![]
    }
}

fn commit_message(sha: &str, tail: &str) -> (r: String)
    ensures
        r@ == "commit "@ + sha@ + tail@,
{
    concat3("commit ", sha, tail)
}

/// Whether `s` is a known reference capture status.
pub fn is_capture_status_exec(s: &str) -> (b: bool)
    ensures
        b == is_capture_status(s@),
{
    str_eq(s, "not_captured") || str_eq(s, "captured") || str_eq(s, "no_linked_authority")
        || str_eq(s, "ambiguous") || str_eq(s, "unavailable")
}

/// Appends the reasons the record's capture status is invalid or
/// inconsistent with its references.
pub fn validate_capture_metadata(record: &CommitRecord, reasons: &mut Vec<String>)
    ensures
        views(final(reasons)@) == views(old(reasons)@) + capture_reasons(*record),
{
    let ghost start = views(reasons@);
    let status = record.reference_capture_status.as_str();
    let sha = record.commit_sha.as_str();
    let known = str_eq(status, "not_captured") || str_eq(status, "captured") || str_eq(
        status,
        "no_linked_authority",
    ) || str_eq(status, "ambiguous") || str_eq(status, "unavailable");
    let mut m = commit_message(sha, " has invalid reference_capture_status ");
    push_str(&mut m, status);
    push_when(reasons, !known, m);
    let ghost mid = views(reasons@);
    if str_eq(status, "captured") && record.references.len() == 0 {
        reasons.push(commit_message(sha, " is marked captured without typed reference evidence"));
    } else if str_eq(status, "no_linked_authority") && record.references.len() != 0 {
        reasons.push(
            commit_message(sha, " has references despite no_linked_authority capture status"),
        );
    } else if (str_eq(status, "ambiguous") || str_eq(status, "unavailable")) && str_is_blank(
        record.reference_capture_limitation.as_str(),
    ) {
        let mut m = commit_message(sha, " ");
        push_str(&mut m, status);
        push_str(&mut m, " capture status must state its limitation");
        reasons.push(m);
    }
    assert(views(reasons@) =~= start + capture_reasons(*record));
}

// ---------------------------------------------------------------------------
// Reference evidence
// ---------------------------------------------------------------------------

pub open spec fn is_reference_kind(k: Seq<char>) -> bool {
    k == "merge_pr"@ || k == "issue"@ || k == "pull_request"@ || k == "reviewed_manual_mapping"@
}

pub open spec fn is_reference_source(k: Seq<char>) -> bool {
    k == "associated_pull_request"@ || k == "closing_reference"@ || k == "body_reference"@
        || k == "explicit_review"@
}

/// A value that is present and not blank.
pub open spec fn filled_opt(o: Option<String>) -> Option<Seq<char>> {
    match o {
        Some(v) => if trim(v@).len() != 0 {
            Some(v@)
        } else {
            None
        },
        None => None,
    }
}

/// The evidence identity of a reference: its evidence URL, else its GitHub
/// identity.
pub open spec fn ref_identity(e: ReferenceEvidence) -> Option<Seq<char>> {
    match filled_opt(e.evidence_url) {
        Some(u) => Some(u),
        None => filled_opt(e.github_identity),
    }
}

/// What a reference claims: its kind, number and source.
pub open spec fn authority(e: ReferenceEvidence) -> (Seq<char>, u64, Seq<char>) {
    (e.kind@, e.number, e.source@)
}

/// Whether one of the first `n` references claims authority `a`.
pub open spec fn authority_seen(refs: Seq<ReferenceEvidence>, n: int, a: (Seq<char>, u64, Seq<char>)) -> bool
    decreases n,
{
    if n <= 0 {
        false
    } else {
        authority(refs[n - 1]) == a || authority_seen(refs, n - 1, a)
    }
}

/// The last of the first `n` references with evidence identity `id`.
pub open spec fn last_identity_index(refs: Seq<ReferenceEvidence>, n: int, id: Seq<char>) -> Option<int>
    decreases n,
{
    if n <= 0 {
        None
    } else if ref_identity(refs[n - 1]) == Some(id) {
        Some(n - 1)
    } else {
        last_identity_index(refs, n - 1, id)
    }
}

pub open spec fn evidence_count(e: ReferenceEvidence) -> int {
    (if filled_opt(e.evidence_url) is Some { 1int } else { 0int }) + (if filled_opt(
        e.github_identity,
    ) is Some {
        1int
    } else {
        0int
    })
}

/// The reasons a reference's kind, source, number, observation and
/// evidence are malformed.
pub open spec fn ref_shape_reasons(sha: Seq<char>, e: ReferenceEvidence) -> Seq<Seq<char>> {
    reason_if(!is_reference_kind(e.kind@), "commit "@ + sha + " has invalid reference kind "@ + e.kind@)
        + reason_if(
        !is_reference_source(e.source@),
        "commit "@ + sha + " has invalid reference source "@ + e.source@,
    ) + reason_if(e.number == 0, "commit "@ + sha + " has a zero reference number"@) + reason_if(
        e.observed_for_commit_sha@ != sha,
        "commit "@ + sha + " reference observation binds to "@ + e.observed_for_commit_sha@,
    ) + reason_if(
        evidence_count(e) != 1,
        "commit "@ + sha + " reference "@ + decimal(e.number as nat)
            + " must carry exactly one evidence_url or github_identity"@,
    )
}

/// The reasons a reference's review state and source do not fit its kind
/// and the ledger stage.
pub open spec fn ref_review_reasons(sha: Seq<char>, stage: Seq<char>, e: ReferenceEvidence) -> Seq<
    Seq<char>,
> {
    let n = decimal(e.number as nat);
    reason_if(
        !e.reviewed && trim(e.limitation@).len() == 0,
        "commit "@ + sha + " unreviewed reference "@ + n + " must state its limitation"@,
    ) + reason_if(
        e.kind@ == "reviewed_manual_mapping"@ && trim(e.limitation@).len() == 0,
        "commit "@ + sha + " reviewed_manual_mapping "@ + n + " must state its reason"@,
    ) + reason_if(
        stage == "final"@ && !e.reviewed,
        "final ledger retains an unreviewed reference "@ + n + " for commit "@ + sha,
    ) + reason_if(
        e.kind@ == "merge_pr"@ && e.source@ != "associated_pull_request"@,
        "commit "@ + sha + " merge_pr reference "@ + n + " must use associated_pull_request source"@,
    ) + reason_if(
        e.kind@ == "reviewed_manual_mapping"@ && e.source@ != "explicit_review"@,
        "commit "@ + sha + " reviewed_manual_mapping "@ + n + " must use explicit_review source"@,
    )
}

/// The reasons reference `k` repeats an earlier authority, or shares an
/// evidence identity whose latest claim differs.
pub open spec fn ref_identity_reasons(sha: Seq<char>, refs: Seq<ReferenceEvidence>, k: int) -> Seq<
    Seq<char>,
> {
    let e = refs[k];
    reason_if(
        authority_seen(refs, k, authority(e)),
        "commit "@ + sha + " contains duplicate reference authority "@ + e.kind@ + ":"@ + decimal(
            e.number as nat,
        ) + ":"@ + e.source@,
    ) + match ref_identity(e) {
        None => seq![],
        Some(id) => match last_identity_index(refs, k, id) {
            Some(p) => reason_if(
                authority(refs[p]) != authority(e),
                "commit "@ + sha + " evidence identity has contradictory reference claims"@,
            ),
            None => seq![],
        },
    }
}

/// The reasons of the first `n` references of a record, in order.
pub open spec fn evidence_item_reasons(sha: Seq<char>, stage: Seq<char>, refs: Seq<ReferenceEvidence>, n: int) -> Seq<
    Seq<char>,
>
    decreases n,
{
    if n <= 0 || n > refs.len() {
        seq![]
    } else {
        evidence_item_reasons(sha, stage, refs, n - 1) + ref_shape_reasons(sha, refs[n - 1])
            + ref_review_reasons(sha, stage, refs[n - 1]) + ref_identity_reasons(sha, refs, n - 1)
    }
}

/// Every reason a record's reference evidence is malformed, ambiguous or
/// unfit for the ledger stage.
pub open spec fn evidence_reasons(r: CommitRecord, src: SnapshotSource) -> Seq<Seq<char>> {
    evidence_item_reasons(r.commit_sha@, src.stage@, r.references@, r.references@.len() as int)
        + reason_if(
        src.stage@ == "final"@ && r.references@.len() == 0 && (r.pr_refs@.len() != 0
            || r.issue_refs@.len() != 0),
        "final ledger commit "@ + r.commit_sha@
            + " relies on legacy reference projections without authority evidence"@,
    )
}

fn filled_opt_exec(o: &Option<String>) -> (r: Option<String>)
    ensures
        opt_text(r) == filled_opt(*o),
{
    match o {
        Some(v) => if !str_is_blank(v.as_str()) {
            Some(owned(v.as_str()))
        } else {
            None
        },
        None => None,
    }
}

fn ref_identity_exec(e: &ReferenceEvidence) -> (r: Option<String>)
    ensures
        opt_text(r) == ref_identity(*e),
{
    match filled_opt_exec(&e.evidence_url) {
        Some(u) => Some(u),
        None => filled_opt_exec(&e.github_identity),
    }
}

fn same_authority(a: &ReferenceEvidence, b: &ReferenceEvidence) -> (r: bool)
    ensures
        r == (authority(*a) == authority(*b)),
{
    str_eq(a.kind.as_str(), b.kind.as_str()) && a.number == b.number && str_eq(
        a.source.as_str(),
        b.source.as_str(),
    )
}

fn authority_seen_exec(refs: &Vec<ReferenceEvidence>, n: usize, e: &ReferenceEvidence) -> (r: bool)
    requires
        n <= refs@.len(),
    ensures
        r == authority_seen(refs@, n as int, authority(*e)),
{
    let mut i: usize = 0;
    let mut seen = false;
    while i < n
        invariant
            i <= n,
            n <= refs@.len(),
            seen == authority_seen(refs@, i as int, authority(*e)),
        decreases n - i,
    {
        if same_authority(&refs[i], e) {
            seen = true;
        }
        i += 1;
    }
    seen
}

fn last_identity_exec(refs: &Vec<ReferenceEvidence>, n: usize, id: &str) -> (r: Option<usize>)
    requires
        n <= refs@.len(),
    ensures
        match last_identity_index(refs@, n as int, id@) {
            Some(p) => r is Some && r->0 as int == p && 0 <= p < n,
            None => r is None,
        },
{
    let mut i: usize = 0;
    let mut found: Option<usize> = None;
    while i < n
        invariant
            i <= n,
            n <= refs@.len(),
            match last_identity_index(refs@, i as int, id@) {
                Some(p) => found is Some && found->0 as int == p && 0 <= p < i,
                None => found is None,
            },
        decreases n - i,
    {
        let ident = ref_identity_exec(&refs[i]);
        let hit = match &ident {
            Some(x) => str_eq(x.as_str(), id),
            None => false,
        };
        if hit {
            found = Some(i);
        }
        i += 1;
    }
    found
}

#[verifier::rlimit(40)]
fn push_ref_shape_reasons(sha: &str, e: &ReferenceEvidence, reasons: &mut Vec<String>)
    ensures
        views(final(reasons)@) == views(old(reasons)@) + ref_shape_reasons(sha@, *e),
{
    let ghost start = views(reasons@);
    let kind_ok = str_eq(e.kind.as_str(), "merge_pr") || str_eq(e.kind.as_str(), "issue") || str_eq(
        e.kind.as_str(),
        "pull_request",
    ) || str_eq(e.kind.as_str(), "reviewed_manual_mapping");
    let mut m = commit_message(sha, " has invalid reference kind ");
    push_str(&mut m, e.kind.as_str());
    push_when(reasons, !kind_ok, m);
    let source_ok = str_eq(e.source.as_str(), "associated_pull_request") || str_eq(
        e.source.as_str(),
        "closing_reference",
    ) || str_eq(e.source.as_str(), "body_reference") || str_eq(e.source.as_str(), "explicit_review");
    let mut m = commit_message(sha, " has invalid reference source ");
    push_str(&mut m, e.source.as_str());
    push_when(reasons, !source_ok, m);
    push_when(reasons, e.number == 0, commit_message(sha, " has a zero reference number"));
    let mut m = commit_message(sha, " reference observation binds to ");
    push_str(&mut m, e.observed_for_commit_sha.as_str());
    push_when(reasons, !str_eq(e.observed_for_commit_sha.as_str(), sha), m);
    let url = filled_opt_exec(&e.evidence_url).is_some();
    let ident = filled_opt_exec(&e.github_identity).is_some();
    let count: usize = (if url { 1 } else { 0 }) + (if ident { 1 } else { 0 });
    let mut m = commit_message(sha, " reference ");
    push_str(&mut m, u64_to_string(e.number).as_str());
    push_str(&mut m, " must carry exactly one evidence_url or github_identity");
    push_when(reasons, count != 1, m);
    assert(views(reasons@) =~= start + ref_shape_reasons(sha@, *e));
}

fn push_ref_review_reasons(sha: &str, stage: &str, e: &ReferenceEvidence, reasons: &mut Vec<String>)
    ensures
        views(final(reasons)@) == views(old(reasons)@) + ref_review_reasons(sha@, stage@, *e),
{
    let ghost start = views(reasons@);
    let n = u64_to_string(e.number);
    let blank = str_is_blank(e.limitation.as_str());
    let mut m = commit_message(sha, " unreviewed reference ");
    push_str(&mut m, n.as_str());
    push_str(&mut m, " must state its limitation");
    push_when(reasons, !e.reviewed && blank, m);
    let manual = str_eq(e.kind.as_str(), "reviewed_manual_mapping");
    let mut m = commit_message(sha, " reviewed_manual_mapping ");
    push_str(&mut m, n.as_str());
    push_str(&mut m, " must state its reason");
    push_when(reasons, manual && blank, m);
    let mut m = concat("final ledger retains an unreviewed reference ", n.as_str());
    push_str(&mut m, " for commit ");
    push_str(&mut m, sha);
    push_when(reasons, str_eq(stage, "final") && !e.reviewed, m);
    let mut m = commit_message(sha, " merge_pr reference ");
    push_str(&mut m, n.as_str());
    push_str(&mut m, " must use associated_pull_request source");
    push_when(
        reasons,
        str_eq(e.kind.as_str(), "merge_pr") && !str_eq(e.source.as_str(), "associated_pull_request"),
        m,
    );
    let mut m = commit_message(sha, " reviewed_manual_mapping ");
    push_str(&mut m, n.as_str());
    push_str(&mut m, " must use explicit_review source");
    push_when(reasons, manual && !str_eq(e.source.as_str(), "explicit_review"), m);
    assert(views(reasons@) =~= start + ref_review_reasons(sha@, stage@, *e));
}

fn push_ref_identity_reasons(sha: &str, refs: &Vec<ReferenceEvidence>, k: usize, reasons: &mut Vec<String>)
    requires
        k < refs@.len(),
    ensures
        views(final(reasons)@) == views(old(reasons)@) + ref_identity_reasons(sha@, refs@, k as int),
{
    let ghost start = views(reasons@);
    let e = &refs[k];
    let dup = authority_seen_exec(refs, k, e);
    let mut m = commit_message(sha, " contains duplicate reference authority ");
    push_str(&mut m, e.kind.as_str());
    push_str(&mut m, ":");
    push_str(&mut m, u64_to_string(e.number).as_str());
    push_str(&mut m, ":");
    push_str(&mut m, e.source.as_str());
    push_when(reasons, dup, m);
    let ghost mid = views(reasons@);
    match ref_identity_exec(e) {
        None => {},
        Some(id) => match last_identity_exec(refs, k, id.as_str()) {
            Some(p) => {
                push_when(
                    reasons,
                    !same_authority(&refs[p], e),
                    commit_message(sha, " evidence identity has contradictory reference claims"),
                );
            },
            None => {},
        },
    }
    assert(views(reasons@) =~= start + ref_identity_reasons(sha@, refs@, k as int));
}

/// Appends every reason the record's reference evidence is malformed,
/// ambiguous or unfit for the ledger stage.
#[verifier::rlimit(50)]
pub fn validate_reference_evidence(record: &CommitRecord, source: &SnapshotSource, reasons: &mut Vec<String>)
    ensures
        views(final(reasons)@) == views(old(reasons)@) + evidence_reasons(*record, *source),
{
    let ghost start = views(reasons@);
    let sha = record.commit_sha.as_str();
    let stage = source.stage.as_str();
    let refs = &record.references;
    let mut i: usize = 0;
    while i < refs.len()
        invariant
            i <= refs@.len(),
            refs@ == record.references@,
            sha@ == record.commit_sha@,
            stage@ == source.stage@,
            views(reasons@) == start + evidence_item_reasons(sha@, stage@, refs@, i as int),
        decreases refs.len() - i,
    {
        let ghost before = views(reasons@);
        push_ref_shape_reasons(sha, &refs[i], reasons);
        push_ref_review_reasons(sha, stage, &refs[i], reasons);
        push_ref_identity_reasons(sha, refs, i, reasons);
        assert(views(reasons@) =~= start + evidence_item_reasons(sha@, stage@, refs@, i + 1));
        i += 1;
    }
    let legacy = str_eq(stage, "final") && refs.len() == 0 && (record.pr_refs.len() != 0
        || record.issue_refs.len() != 0);
    let mut m = concat("final ledger commit ", sha);
    push_str(&mut m, " relies on legacy reference projections without authority evidence");
    push_when(reasons, legacy, m);
    assert(views(reasons@) =~= start + evidence_reasons(*record, *source));
}

// ---------------------------------------------------------------------------
// Records
// ---------------------------------------------------------------------------

pub open spec fn is_disposition(d: Seq<char>) -> bool {
    d == "include_product"@ || d == "include_release_infrastructure"@
        || d == "include_control_or_honesty"@ || d == "structural_no_semantic_delta"@
        || d == "candidate_only_exclusion"@ || d == "source_only_followup"@
        || d == "safe_defer_post_0_11"@ || d == "operator_decision_required"@
}

pub open spec fn is_tree_state(t: Seq<char>) -> bool {
    t == "present_in_candidate"@ || t == "absent_by_candidate_only_exclusion"@
        || t == "replaced_by_later_commit"@ || t == "source_only_not_in_swarm_candidate"@
        || t == "candidate_tree_state_pending"@
}

pub open spec fn empty_field_reason(sha: Seq<char>, field: Seq<char>, value: Seq<char>) -> Seq<Seq<char>> {
    reason_if(trim(value).len() == 0, "commit "@ + sha + " has empty "@ + field)
}

/// The reasons a record's SHA, descriptive fields and disposition are
/// invalid.
pub open spec fn record_field_reasons(r: CommitRecord) -> Seq<Seq<char>> {
    let sha = r.commit_sha@;
    reason_if(!is_sha_spec(sha), "record "@ + sha + " has an invalid commit SHA"@)
        + empty_field_reason(sha, "subject"@, r.subject@) + empty_field_reason(
        sha,
        "theme_or_surface"@,
        r.theme_or_surface@,
    ) + empty_field_reason(sha, "acceptance_owner"@, r.acceptance_owner@) + empty_field_reason(
        sha,
        "source_survivor_or_swarm_exclusion_effect"@,
        r.source_survivor_or_swarm_exclusion_effect@,
    ) + empty_field_reason(
        sha,
        "limitation_or_operator_decision"@,
        r.limitation_or_operator_decision@,
    ) + reason_if(
        !is_disposition(r.release_disposition@),
        "commit "@ + sha + " has invalid release_disposition "@ + r.release_disposition@,
    )
}

/// The reasons a record's candidate-tree state contradicts the candidate
/// tree.
pub open spec fn tree_membership_reasons(r: CommitRecord, src: SnapshotSource) -> Seq<Seq<char>> {
    let sha = r.commit_sha@;
    let t = r.candidate_tree_state@;
    let tree = views(src.candidate_tree_commits@);
    let in_candidate = tree.contains(sha);
    if t == "present_in_candidate"@ {
        reason_if(
            !in_candidate,
            "commit "@ + sha + " is marked present_in_candidate but is absent from candidate tree"@,
        )
    } else if t == "absent_by_candidate_only_exclusion"@ {
        reason_if(
            in_candidate,
            "commit "@ + sha + " is marked candidate-only excluded but remains in candidate tree"@,
        )
    } else if t == "source_only_not_in_swarm_candidate"@ {
        reason_if(
            in_candidate,
            "commit "@ + sha + " is marked source-only but remains in candidate tree"@,
        )
    } else if t == "replaced_by_later_commit"@ {
        reason_if(in_candidate, "commit "@ + sha + " is marked replaced but remains in candidate tree"@)
            + reason_if(
            !(opt_text(r.replacement_commit_sha) matches Some(x) && tree.contains(x)),
            "commit "@ + sha + " replacement is missing from candidate tree"@,
        )
    } else {
        seq![]
    }
}

/// Whether the record is a well-formed candidate-only exclusion.
pub open spec fn valid_candidate_only_exclusion(r: CommitRecord) -> bool {
    r.candidate_tree_state@ == "absent_by_candidate_only_exclusion"@ || (
    r.candidate_tree_state@ == "present_in_candidate"@ && r.candidate_only_excluded_paths@.len()
        != 0 && opt_text(r.candidate_only_exclusion_granularity) == Some("hunk_or_symbol"@))
}

/// The reasons a record's disposition and tree state disagree.
pub open spec fn disposition_reasons(r: CommitRecord) -> Seq<Seq<char>> {
    let sha = r.commit_sha@;
    let d = r.release_disposition@;
    let t = r.candidate_tree_state@;
    reason_if(
        d != "candidate_only_exclusion"@ && (r.candidate_only_excluded_paths@.len() != 0
            || r.candidate_only_exclusion_granularity is Some),
        "commit "@ + sha
            + " has candidate_only_excluded_paths without candidate_only_exclusion disposition"@,
    ) + reason_if(
        d == "candidate_only_exclusion"@ && !valid_candidate_only_exclusion(r),
        "commit "@ + sha + " candidate_only_exclusion disposition has the wrong tree state"@,
    ) + reason_if(
        d == "source_only_followup"@ && t != "source_only_not_in_swarm_candidate"@,
        "commit "@ + sha + " source_only_followup disposition has the wrong tree state"@,
    ) + reason_if(
        t == "candidate_tree_state_pending"@ && d != "operator_decision_required"@,
        "commit "@ + sha + " pending candidate-tree state requires operator_decision_required"@,
    )
}

/// Every reason a record is invalid against the ledger source, in order;
/// an unknown tree state stops the record's checks.
pub open spec fn record_reasons(r: CommitRecord, src: SnapshotSource) -> Seq<Seq<char>> {
    record_field_reasons(r) + if !is_tree_state(r.candidate_tree_state@) {
        seq![
            "commit "@ + r.commit_sha@ + " has invalid candidate_tree_state "@
                + r.candidate_tree_state@,
        ]
    } else {
        tree_membership_reasons(r, src) + disposition_reasons(r) + evidence_reasons(r, src)
    }
}

fn push_empty_field(sha: &str, field: &str, value: &str, reasons: &mut Vec<String>)
    ensures
        views(final(reasons)@) == views(old(reasons)@) + empty_field_reason(sha@, field@, value@),
{
    let mut m = commit_message(sha, " has empty ");
    push_str(&mut m, field);
    push_when(reasons, str_is_blank(value), m);
}

#[verifier::rlimit(50)]
fn push_record_field_reasons(r: &CommitRecord, reasons: &mut Vec<String>)
    ensures
        views(final(reasons)@) == views(old(reasons)@) + record_field_reasons(*r),
{
    let ghost start = views(reasons@);
    let sha = r.commit_sha.as_str();
    push_when(reasons, !is_sha(sha), concat3("record ", sha, " has an invalid commit SHA"));
    push_empty_field(sha, "subject", r.subject.as_str(), reasons);
    push_empty_field(sha, "theme_or_surface", r.theme_or_surface.as_str(), reasons);
    push_empty_field(sha, "acceptance_owner", r.acceptance_owner.as_str(), reasons);
    push_empty_field(
        sha,
        "source_survivor_or_swarm_exclusion_effect",
        r.source_survivor_or_swarm_exclusion_effect.as_str(),
        reasons,
    );
    push_empty_field(
        sha,
        "limitation_or_operator_decision",
        r.limitation_or_operator_decision.as_str(),
        reasons,
    );
    let d = r.release_disposition.as_str();
    let known = str_eq(d, "include_product") || str_eq(d, "include_release_infrastructure")
        || str_eq(d, "include_control_or_honesty") || str_eq(d, "structural_no_semantic_delta")
        || str_eq(d, "candidate_only_exclusion") || str_eq(d, "source_only_followup") || str_eq(
        d,
        "safe_defer_post_0_11",
    ) || str_eq(d, "operator_decision_required");
    let mut m = commit_message(sha, " has invalid release_disposition ");
    push_str(&mut m, d);
    push_when(reasons, !known, m);
    assert(views(reasons@) =~= start + record_field_reasons(*r));
}

fn is_tree_state_exec(t: &str) -> (r: bool)
    ensures
        r == is_tree_state(t@),
{
    str_eq(t, "present_in_candidate") || str_eq(t, "absent_by_candidate_only_exclusion") || str_eq(
        t,
        "replaced_by_later_commit",
    ) || str_eq(t, "source_only_not_in_swarm_candidate") || str_eq(t, "candidate_tree_state_pending")
}

pub fn in_list(values: &Vec<String>, x: &str) -> (r: bool)
    ensures
        r == views(values@).contains(x@),
{
    let r = seen_before(values.as_slice(), values.len(), x);
    assert(views(values@).take(values@.len() as int) =~= views(values@));
    r
}

fn push_tree_membership_reasons(r: &CommitRecord, src: &SnapshotSource, reasons: &mut Vec<String>)
    ensures
        views(final(reasons)@) == views(old(reasons)@) + tree_membership_reasons(*r, *src),
{
    let ghost start = views(reasons@);
    let sha = r.commit_sha.as_str();
    let t = r.candidate_tree_state.as_str();
    let in_candidate = in_list(&src.candidate_tree_commits, sha);
    if str_eq(t, "present_in_candidate") {
        push_when(
            reasons,
            !in_candidate,
            commit_message(sha, " is marked present_in_candidate but is absent from candidate tree"),
        );
    } else if str_eq(t, "absent_by_candidate_only_exclusion") {
        push_when(
            reasons,
            in_candidate,
            commit_message(sha, " is marked candidate-only excluded but remains in candidate tree"),
        );
    } else if str_eq(t, "source_only_not_in_swarm_candidate") {
        push_when(
            reasons,
            in_candidate,
            commit_message(sha, " is marked source-only but remains in candidate tree"),
        );
    } else if str_eq(t, "replaced_by_later_commit") {
        push_when(
            reasons,
            in_candidate,
            commit_message(sha, " is marked replaced but remains in candidate tree"),
        );
        let replaced = match &r.replacement_commit_sha {
            Some(x) => in_list(&src.candidate_tree_commits, x.as_str()),
            None => false,
        };
        push_when(reasons, !replaced, commit_message(sha, " replacement is missing from candidate tree"));
    } else {
    }
    assert(views(reasons@) =~= start + tree_membership_reasons(*r, *src));
}

fn push_disposition_reasons(r: &CommitRecord, reasons: &mut Vec<String>)
    ensures
        views(final(reasons)@) == views(old(reasons)@) + disposition_reasons(*r),
{
    let ghost start = views(reasons@);
    let sha = r.commit_sha.as_str();
    let d = r.release_disposition.as_str();
    let t = r.candidate_tree_state.as_str();
    let coe = str_eq(d, "candidate_only_exclusion");
    let has_paths = r.candidate_only_excluded_paths.len() != 0;
    push_when(
        reasons,
        !coe && (has_paths || r.candidate_only_exclusion_granularity.is_some()),
        commit_message(
            sha,
            " has candidate_only_excluded_paths without candidate_only_exclusion disposition",
        ),
    );
    let valid = str_eq(t, "absent_by_candidate_only_exclusion") || (str_eq(t, "present_in_candidate")
        && has_paths && opt_is(&r.candidate_only_exclusion_granularity, "hunk_or_symbol"));
    push_when(
        reasons,
        coe && !valid,
        commit_message(sha, " candidate_only_exclusion disposition has the wrong tree state"),
    );
    push_when(
        reasons,
        str_eq(d, "source_only_followup") && !str_eq(t, "source_only_not_in_swarm_candidate"),
        commit_message(sha, " source_only_followup disposition has the wrong tree state"),
    );
    push_when(
        reasons,
        str_eq(t, "candidate_tree_state_pending") && !str_eq(d, "operator_decision_required"),
        commit_message(sha, " pending candidate-tree state requires operator_decision_required"),
    );
    assert(views(reasons@) =~= start + disposition_reasons(*r));
}

/// Appends every reason the record is invalid against the ledger source.
pub fn validate_record(record: &CommitRecord, source: &SnapshotSource, reasons: &mut Vec<String>)
    ensures
        views(final(reasons)@) == views(old(reasons)@) + record_reasons(*record, *source),
{
    let ghost start = views(reasons@);
    push_record_field_reasons(record, reasons);
    let ghost a = views(reasons@);
    if !is_tree_state_exec(record.candidate_tree_state.as_str()) {
        let mut m = commit_message(record.commit_sha.as_str(), " has invalid candidate_tree_state ");
        push_str(&mut m, record.candidate_tree_state.as_str());
        let ghost mm = m@;
        reasons.push(m);
        assert(views(reasons@) =~= a.push(mm));
        assert(record_reasons(*record, *source) == record_field_reasons(*record) + seq![mm]);
        assert(views(reasons@) =~= start + record_reasons(*record, *source));
        return;
    }
    push_tree_membership_reasons(record, source, reasons);
    let ghost b = views(reasons@);
    push_disposition_reasons(record, reasons);
    let ghost c = views(reasons@);
    validate_reference_evidence(record, source, reasons);
    proof {
        lemma_add_assoc(a, tree_membership_reasons(*record, *source), disposition_reasons(*record));
        lemma_add_assoc(
            a,
            tree_membership_reasons(*record, *source) + disposition_reasons(*record),
            evidence_reasons(*record, *source),
        );
        lemma_add_assoc(
            start,
            record_field_reasons(*record),
            tree_membership_reasons(*record, *source) + disposition_reasons(*record)
                + evidence_reasons(*record, *source),
        );
    }
}

// ---------------------------------------------------------------------------
// Reference projections
// ---------------------------------------------------------------------------

pub open spec fn or_empty(o: Option<String>) -> Seq<char> {
    match o {
        Some(v) => v@,
        None => seq![],
    }
}

/// The order of references: by kind, number, source, evidence URL, GitHub
/// identity, observed commit, review flag and limitation, each compared
/// only when the ones before it are equal.
pub open spec fn ref_less(a: ReferenceEvidence, b: ReferenceEvidence) -> bool {
    if a.kind@ != b.kind@ {
        seq_less(a.kind@, b.kind@)
    } else if a.number != b.number {
        a.number < b.number
    } else if a.source@ != b.source@ {
        seq_less(a.source@, b.source@)
    } else if or_empty(a.evidence_url) != or_empty(b.evidence_url) {
        seq_less(or_empty(a.evidence_url), or_empty(b.evidence_url))
    } else if or_empty(a.github_identity) != or_empty(b.github_identity) {
        seq_less(or_empty(a.github_identity), or_empty(b.github_identity))
    } else if a.observed_for_commit_sha@ != b.observed_for_commit_sha@ {
        seq_less(a.observed_for_commit_sha@, b.observed_for_commit_sha@)
    } else if a.reviewed != b.reviewed {
        !a.reviewed
    } else {
        seq_less(a.limitation@, b.limitation@)
    }
}

/// `x` inserted after every reference that does not sort after it (a
/// stable insert).
pub open spec fn insert_ref(r: Seq<ReferenceEvidence>, x: ReferenceEvidence) -> Seq<ReferenceEvidence>
    decreases r.len(),
{
    if r.len() == 0 {
        seq![x]
    } else if ref_less(x, r.last()) {
        insert_ref(r.drop_last(), x).push(r.last())
    } else {
        r.push(x)
    }
}

/// The references in the stable order of `ref_less`.
pub open spec fn sort_refs(s: Seq<ReferenceEvidence>) -> Seq<ReferenceEvidence>
    decreases s.len(),
{
    if s.len() == 0 {
        seq![]
    } else {
        insert_ref(sort_refs(s.drop_last()), s.last())
    }
}

proof fn lemma_insert_ref_at(r: Seq<ReferenceEvidence>, x: ReferenceEvidence, j: int)
    requires
        0 <= j <= r.len(),
        forall|k: int| j <= k < r.len() ==> ref_less(x, #[trigger] r[k]),
        j > 0 ==> !ref_less(x, r[j - 1]),
    ensures
        insert_ref(r, x) == r.take(j).push(x) + r.skip(j),
    decreases r.len(),
{
    if r.len() == 0 {
        assert(r.take(j).push(x) + r.skip(j) =~= seq![x]);
    } else if j == r.len() {
        assert(r.take(j) =~= r);
        assert(r.take(j).push(x) + r.skip(j) =~= r.push(x));
    } else {
        let t = r.drop_last();
        assert(ref_less(x, r[r.len() - 1]));
        lemma_insert_ref_at(t, x, j);
        assert(t.take(j) =~= r.take(j));
        assert((t.take(j).push(x) + t.skip(j)).push(r.last()) =~= r.take(j).push(x) + r.skip(j));
    }
}

fn opt_or_empty(o: &Option<String>) -> (r: &str)
    ensures
        r@ == or_empty(*o),
{
    proof {
        reveal_strlit("");
    }
    match o {
        Some(v) => v.as_str(),
        None => "",
    }
}

fn ref_less_exec(a: &ReferenceEvidence, b: &ReferenceEvidence) -> (r: bool)
    ensures
        r == ref_less(*a, *b),
{
    proof {
        reveal_strlit("");
    }
    if !str_eq(a.kind.as_str(), b.kind.as_str()) {
        str_less(a.kind.as_str(), b.kind.as_str())
    } else if a.number != b.number {
        a.number < b.number
    } else if !str_eq(a.source.as_str(), b.source.as_str()) {
        str_less(a.source.as_str(), b.source.as_str())
    } else if !str_eq(opt_or_empty(&a.evidence_url), opt_or_empty(&b.evidence_url)) {
        str_less(opt_or_empty(&a.evidence_url), opt_or_empty(&b.evidence_url))
    } else if !str_eq(opt_or_empty(&a.github_identity), opt_or_empty(&b.github_identity)) {
        str_less(opt_or_empty(&a.github_identity), opt_or_empty(&b.github_identity))
    } else if !str_eq(a.observed_for_commit_sha.as_str(), b.observed_for_commit_sha.as_str()) {
        str_less(a.observed_for_commit_sha.as_str(), b.observed_for_commit_sha.as_str())
    } else if a.reviewed != b.reviewed {
        !a.reviewed
    } else {
        str_less(a.limitation.as_str(), b.limitation.as_str())
    }
}

fn insert_ref_exec(r: &mut Vec<ReferenceEvidence>, x: ReferenceEvidence)
    ensures
        final(r)@ == insert_ref(old(r)@, x),
{
    let mut j = r.len();
    while j > 0 && ref_less_exec(&x, &r[j - 1])
        invariant
            j <= r@.len(),
            forall|k: int| j <= k < r@.len() ==> ref_less(x, #[trigger] r@[k]),
        decreases j,
    {
        j -= 1;
    }
    proof {
        lemma_insert_ref_at(r@, x, j as int);
    }
    let ghost before = r@;
    r.insert(j, x);
    assert(r@ =~= before.take(j as int).push(x) + before.skip(j as int));
}

/// The references in their canonical order.
pub fn sorted_references(values: Vec<ReferenceEvidence>) -> (r: Vec<ReferenceEvidence>)
    ensures
        r@ == sort_refs(values@),
{
    let ghost orig = values@;
    assert(orig.len() == values.len());
    let mut rest = values;
    let mut r: Vec<ReferenceEvidence> = Vec::new();
    let mut i: usize = 0;
    assert(orig.take(0) =~= Seq::<ReferenceEvidence>::empty());
    assert(orig.skip(0) =~= orig);
    while rest.len() > 0
        invariant
            i <= orig.len(),
            rest@ == orig.skip(i as int),
            rest@.len() + i == orig.len(),
            orig.len() <= usize::MAX,
            r@ == sort_refs(orig.take(i as int)),
        decreases rest.len(),
    {
        let x = rest.remove(0);
        assert(x == orig[i as int]);
        insert_ref_exec(&mut r, x);
        assert(orig.take(i + 1).drop_last() =~= orig.take(i as int));
        assert(rest@ =~= orig.skip(i + 1));
        i += 1;
    }
    assert(orig.take(orig.len() as int) =~= orig);
    r
}

/// The numbers of the PR references (`pr` true: merge PRs and pull
/// requests) or issue references (`pr` false), in reference order.
pub open spec fn ref_numbers(refs: Seq<ReferenceEvidence>, pr: bool) -> Seq<u64>
    decreases refs.len(),
{
    if refs.len() == 0 {
        seq![]
    } else {
        let k = refs.last().kind@;
        let hit = if pr {
            k == "merge_pr"@ || k == "pull_request"@
        } else {
            k == "issue"@
        };
        if hit {
            ref_numbers(refs.drop_last(), pr).push(refs.last().number)
        } else {
            ref_numbers(refs.drop_last(), pr)
        }
    }
}

/// The sorted projection of a record's references onto PR (`pr` true) or
/// issue numbers.
pub open spec fn projected_refs(refs: Seq<ReferenceEvidence>, pr: bool) -> Seq<u64> {
    sort_u64(ref_numbers(sort_refs(refs), pr))
}

/// A legacy projection: filled from the references when empty, else
/// kept.
pub open spec fn projection_after(given: Seq<u64>, projected: Seq<u64>) -> Seq<u64> {
    if given.len() == 0 {
        projected
    } else {
        given
    }
}

/// The reasons the record's legacy PR and issue projections disagree with
/// its references.
pub open spec fn projection_reasons(r: CommitRecord) -> Seq<Seq<char>> {
    let prs = projected_refs(r.references@, true);
    let issues = projected_refs(r.references@, false);
    if r.references@.len() == 0 {
        seq![]
    } else {
        reason_if(
            r.pr_refs@.len() != 0 && r.pr_refs@ != prs,
            "commit "@ + r.commit_sha@ + " pr_refs compatibility projection disagrees with references"@,
        ) + reason_if(
            r.issue_refs@.len() != 0 && r.issue_refs@ != issues,
            "commit "@ + r.commit_sha@
                + " issue_refs compatibility projection disagrees with references"@,
        )
    }
}

/// Every field of a record but its references and legacy projections is
/// unchanged.
pub open spec fn same_but_references(a: CommitRecord, b: CommitRecord) -> bool {
    &&& a.commit_sha == b.commit_sha
    &&& a.first_parent_position == b.first_parent_position
    &&& a.subject == b.subject
    &&& a.claim_refs == b.claim_refs
    &&& a.reference_capture_status == b.reference_capture_status
    &&& a.reference_capture_limitation == b.reference_capture_limitation
    &&& a.theme_or_surface == b.theme_or_surface
    &&& a.release_disposition == b.release_disposition
    &&& a.acceptance_owner == b.acceptance_owner
    &&& a.candidate_tree_state == b.candidate_tree_state
    &&& a.candidate_only_excluded_paths == b.candidate_only_excluded_paths
    &&& a.candidate_only_exclusion_granularity == b.candidate_only_exclusion_granularity
    &&& a.replacement_commit_sha == b.replacement_commit_sha
    &&& a.review_refs == b.review_refs
    &&& a.proof_refs == b.proof_refs
    &&& a.source_survivor_or_swarm_exclusion_effect == b.source_survivor_or_swarm_exclusion_effect
    &&& a.limitation_or_operator_decision == b.limitation_or_operator_decision
}

fn ref_numbers_exec(refs: &Vec<ReferenceEvidence>, pr: bool) -> (r: Vec<u64>)
    ensures
        r@ == ref_numbers(refs@, pr),
{
    let mut out: Vec<u64> = Vec::new();
    let mut i: usize = 0;
    assert(refs@.take(0) =~= Seq::<ReferenceEvidence>::empty());
    while i < refs.len()
        invariant
            i <= refs@.len(),
            out@ == ref_numbers(refs@.take(i as int), pr),
        decreases refs.len() - i,
    {
        let k = refs[i].kind.as_str();
        let hit = if pr {
            str_eq(k, "merge_pr") || str_eq(k, "pull_request")
        } else {
            str_eq(k, "issue")
        };
        assert(refs@.take(i + 1).drop_last() =~= refs@.take(i as int));
        assert(refs@.take(i + 1).last() == refs@[i as int]);
        if hit {
            out.push(refs[i].number);
        }
        i += 1;
    }
    assert(refs@.take(refs@.len() as int) =~= refs@);
    out
}

fn u64s_eq(a: &Vec<u64>, b: &Vec<u64>) -> (r: bool)
    ensures
        r == (a@ == b@),
{
    if a.len() != b.len() {
        return false;
    }
    let mut i: usize = 0;
    while i < a.len()
        invariant
            i <= a@.len(),
            a@.len() == b@.len(),
            forall|j: int| 0 <= j < i ==> a@[j] == b@[j],
        decreases a.len() - i,
    {
        if a[i] != b[i] {
            return false;
        }
        i += 1;
    }
    assert(a@ =~= b@);
    true
}

/// Puts the record's references in canonical order and reconciles its
/// legacy PR and issue projections with them: an empty projection is
/// filled, a differing one is reported.
pub fn normalize_reference_projections(record: &mut CommitRecord, reasons: &mut Vec<String>)
    ensures
        same_but_references(*old(record), *final(record)),
        views(final(reasons)@) == views(old(reasons)@) + projection_reasons(*old(record)),
        old(record).references@.len() == 0 ==> *final(record) == *old(record),
        old(record).references@.len() != 0 ==> {
            &&& final(record).references@ == sort_refs(old(record).references@)
            &&& final(record).pr_refs@ == projection_after(
                old(record).pr_refs@,
                projected_refs(old(record).references@, true),
            )
            &&& final(record).issue_refs@ == projection_after(
                old(record).issue_refs@,
                projected_refs(old(record).references@, false),
            )
        },
{
    if record.references.len() == 0 {
        assert(views(reasons@) =~= views(reasons@) + projection_reasons(*record));
        return;
    }
    let ghost start = views(reasons@);
    let ghost original = *record;
    let mut refs: Vec<ReferenceEvidence> = Vec::new();
    std::mem::swap(&mut refs, &mut record.references);
    record.references = sorted_references(refs);
    let prs = sorted_u64(&ref_numbers_exec(&record.references, true));
    let issues = sorted_u64(&ref_numbers_exec(&record.references, false));
    let sha = owned(record.commit_sha.as_str());
    if record.pr_refs.len() == 0 {
        record.pr_refs = prs;
    } else if !u64s_eq(&record.pr_refs, &prs) {
        reasons.push(
            commit_message(sha.as_str(), " pr_refs compatibility projection disagrees with references"),
        );
    }
    let ghost mid = views(reasons@);
    if record.issue_refs.len() == 0 {
        record.issue_refs = issues;
    } else if !u64s_eq(&record.issue_refs, &issues) {
        reasons.push(
            commit_message(
                sha.as_str(),
                " issue_refs compatibility projection disagrees with references",
            ),
        );
    }
    assert(views(reasons@) =~= start + projection_reasons(original));
}

// ---------------------------------------------------------------------------
// Claim references
// ---------------------------------------------------------------------------

/// The reasons over the first `n` claim refs: blank ones, and ones repeated
/// from earlier.
pub open spec fn claim_item_reasons(sha: Seq<char>, claims: Seq<Seq<char>>, n: int) -> Seq<Seq<char>>
    decreases n,
{
    if n <= 0 || n > claims.len() {
        seq![]
    } else {
        claim_item_reasons(sha, claims, n - 1) + reason_if(
            trim(claims[n - 1]).len() == 0,
            "commit "@ + sha + " has a blank claim_ref"@,
        ) + reason_if(
            claims.take(n - 1).contains(claims[n - 1]),
            "commit "@ + sha + " repeats claim_ref "@ + claims[n - 1],
        )
    }
}

/// The reasons a record's claim refs are blank or repeated, or are given
/// while no selected claim authority stands beside the ledger.
pub open spec fn claim_reasons(r: CommitRecord) -> Seq<Seq<char>> {
    let claims = views(r.claim_refs@);
    claim_item_reasons(r.commit_sha@, claims, claims.len() as int) + reason_if(
        claims.len() != 0,
        "commit "@ + r.commit_sha@ + " has claim_refs but the selected claim authority is absent"@,
    )
}

/// Appends the reasons the record's claim refs are blank, repeated, or
/// unbacked by a selected claim authority.
pub fn validate_claim_refs(record: &CommitRecord, reasons: &mut Vec<String>)
    ensures
        views(final(reasons)@) == views(old(reasons)@) + claim_reasons(*record),
{
    let ghost start = views(reasons@);
    let ghost claims = views(record.claim_refs@);
    let sha = record.commit_sha.as_str();
    let mut i: usize = 0;
    while i < record.claim_refs.len()
        invariant
            i <= claims.len(),
            claims == views(record.claim_refs@),
            sha@ == record.commit_sha@,
            views(reasons@) == start + claim_item_reasons(sha@, claims, i as int),
        decreases record.claim_refs.len() - i,
    {
        let c = record.claim_refs[i].as_str();
        assert(claims[i as int] == c@);
        push_when(reasons, str_is_blank(c), commit_message(sha, " has a blank claim_ref"));
        let repeated = seen_before(record.claim_refs.as_slice(), i, c);
        let mut m = commit_message(sha, " repeats claim_ref ");
        push_str(&mut m, c);
        push_when(reasons, repeated, m);
        assert(views(reasons@) =~= start + claim_item_reasons(sha@, claims, i + 1));
        i += 1;
    }
    push_when(
        reasons,
        record.claim_refs.len() != 0,
        commit_message(sha, " has claim_refs but the selected claim authority is absent"),
    );
    assert(views(reasons@) =~= start + claim_reasons(*record));
}

// ---------------------------------------------------------------------------
// Reconciling a ledger
// ---------------------------------------------------------------------------

/// What a live run observed of the candidate and its range.
#[derive(Clone, Debug, PartialEq, Eq)]
pub struct LiveFacts {
    pub candidate_sha: Option<String>,
    pub range_commits: Vec<String>,
    pub candidate_tree_commits: Vec<String>,
    pub errors: Vec<String>,
}

/// The reasons the live observations contradict the captured source.
pub open spec fn live_reasons(facts: Option<LiveFacts>, src: SnapshotSource) -> Seq<Seq<char>> {
    match facts {
        None => seq![],
        Some(f) => views(f.errors@) + reason_if(
            opt_text(f.candidate_sha) != Some(src.candidate_sha@),
            "live candidate ref does not resolve to captured candidate_sha"@,
        ) + reason_if(
            views(f.range_commits@) != views(src.range_commits@),
            "live first-parent range differs from captured range_commits"@,
        ) + reason_if(
            views(f.candidate_tree_commits@) != views(src.candidate_tree_commits@),
            "live candidate tree differs from captured candidate_tree_commits"@,
        ),
    }
}

pub open spec fn record_shas(records: Seq<CommitRecord>) -> Seq<Seq<char>> {
    records.map_values(|r: CommitRecord| r.commit_sha@)
}

/// The reasons record `i` is repeated, outside the range, out of range
/// order, or misnumbered.
pub open spec fn position_reasons(records: Seq<CommitRecord>, range: Seq<Seq<char>>, i: int) -> Seq<
    Seq<char>,
> {
    let r = records[i];
    let sha = r.commit_sha@;
    reason_if(
        record_shas(records.take(i)).contains(sha),
        "commit "@ + sha + " appears more than once"@,
    ) + reason_if(!range.contains(sha), "commit "@ + sha + " is outside the captured range"@)
        + reason_if(
        !(i < range.len() && range[i] == sha),
        "record at position "@ + decimal((i + 1) as nat) + " does not match first-parent range order"@,
    ) + reason_if(
        r.first_parent_position != i + 1,
        "commit "@ + sha + " has first_parent_position "@ + decimal(r.first_parent_position as nat)
            + ", expected "@ + decimal((i + 1) as nat),
    )
}

/// A record as reconciliation leaves it: its references in canonical
/// order, its empty projections filled.
pub open spec fn normalized_from(old_r: CommitRecord, new_r: CommitRecord) -> bool {
    &&& same_but_references(old_r, new_r)
    &&& old_r.references@.len() == 0 ==> new_r == old_r
    &&& old_r.references@.len() != 0 ==> {
        &&& new_r.references@ == sort_refs(old_r.references@)
        &&& new_r.pr_refs@ == projection_after(old_r.pr_refs@, projected_refs(old_r.references@, true))
        &&& new_r.issue_refs@ == projection_after(
            old_r.issue_refs@,
            projected_refs(old_r.references@, false),
        )
    }
}

/// The reasons of record `i`: its position, its projections, and the
/// checks of the normalized record.
#[verifier::opaque]
pub open spec fn one_record_reasons(
    olds: Seq<CommitRecord>,
    new_r: CommitRecord,
    src: SnapshotSource,
    i: int,
) -> Seq<Seq<char>> {
    position_reasons(olds, views(src.range_commits@), i) + projection_reasons(olds[i])
        + record_reasons(new_r, src) + capture_reasons(new_r) + claim_reasons(new_r)
}

/// The reasons of the first `n` records, in order.
pub open spec fn records_reasons(
    olds: Seq<CommitRecord>,
    news: Seq<CommitRecord>,
    src: SnapshotSource,
    n: int,
) -> Seq<Seq<char>>
    decreases n,
{
    if n <= 0 {
        seq![]
    } else {
        records_reasons(olds, news, src, n - 1) + one_record_reasons(olds, news[n - 1], src, n - 1)
    }
}

/// Every reason a captured ledger does not reconcile, before its digests
/// are taken: source, live observations, records, and the record count.
pub open spec fn reconcile_reasons(s: Snapshot, facts: Option<LiveFacts>, news: Seq<CommitRecord>) -> Seq<
    Seq<char>,
> {
    snapshot_source_reasons(s) + live_reasons(facts, s.source) + records_reasons(
        s.records@,
        news,
        s.source,
        s.records@.len() as int,
    ) + reason_if(
        s.records@.len() != s.source.range_commits@.len(),
        "record count "@ + decimal(s.records@.len() as nat) + " does not reconcile with range count "@
            + decimal(s.source.range_commits@.len() as nat),
    )
}

/// A ledger whose records were normalized, with the reasons found so far.
#[derive(Clone, Debug, PartialEq, Eq)]
pub struct ReconciledLedger {
    pub snapshot: Snapshot,
    pub reasons: Vec<String>,
}

fn strings_equal(a: &Vec<String>, b: &Vec<String>) -> (r: bool)
    ensures
        r == (views(a@) == views(b@)),
{
    strings_eq(a, b)
}

fn push_live_reasons(facts: Option<&LiveFacts>, src: &SnapshotSource, reasons: &mut Vec<String>)
    ensures
        views(final(reasons)@) == views(old(reasons)@) + live_reasons(
            match facts {
                Some(f) => Some(*f),
                None => None,
            },
            *src,
        ),
{
    let ghost start = views(reasons@);
    match facts {
        None => {
            assert(views(reasons@) =~= start + Seq::<Seq<char>>::empty());
        },
        Some(f) => {
            extend_strings(reasons, &f.errors);
            let resolved = match &f.candidate_sha {
                Some(c) => str_eq(c.as_str(), src.candidate_sha.as_str()),
                None => false,
            };
            push_when(
                reasons,
                !resolved,
                owned("live candidate ref does not resolve to captured candidate_sha"),
            );
            push_when(
                reasons,
                !strings_equal(&f.range_commits, &src.range_commits),
                owned("live first-parent range differs from captured range_commits"),
            );
            push_when(
                reasons,
                !strings_equal(&f.candidate_tree_commits, &src.candidate_tree_commits),
                owned("live candidate tree differs from captured candidate_tree_commits"),
            );
            assert(views(reasons@) =~= start + live_reasons(Some(*f), *src));
        },
    }
}

fn shas_contain(records: &Vec<CommitRecord>, sha: &str) -> (r: bool)
    ensures
        r == record_shas(records@).contains(sha@),
{
    let ghost s = record_shas(records@);
    let mut i: usize = 0;
    while i < records.len()
        invariant
            i <= records@.len(),
            s == record_shas(records@),
            forall|k: int| 0 <= k < i ==> s[k] != sha@,
        decreases records.len() - i,
    {
        assert(s[i as int] == records@[i as int].commit_sha@);
        if str_eq(records[i].commit_sha.as_str(), sha) {
            return true;
        }
        i += 1;
    }
    false
}

fn push_position_reasons(
    earlier: &Vec<CommitRecord>,
    r: &CommitRecord,
    range: &Vec<String>,
    i: usize,
    reasons: &mut Vec<String>,
    Ghost(records): Ghost<Seq<CommitRecord>>,
)
    requires
        i < records.len(),
        records.len() <= usize::MAX,
        records[i as int] == *r,
        record_shas(earlier@) == record_shas(records.take(i as int)),
    ensures
        views(final(reasons)@) == views(old(reasons)@) + position_reasons(records, views(range@), i as int),
{
    let ghost start = views(reasons@);
    let sha = r.commit_sha.as_str();
    push_when(reasons, shas_contain(earlier, sha), commit_message(sha, " appears more than once"));
    push_when(reasons, !in_list(range, sha), commit_message(sha, " is outside the captured range"));
    let in_order = i < range.len() && str_eq(range[i].as_str(), sha);
    let position = i + 1;
    let mut m = concat("record at position ", usize_to_string(position).as_str());
    push_str(&mut m, " does not match first-parent range order");
    push_when(reasons, !in_order, m);
    let mut m = commit_message(sha, " has first_parent_position ");
    push_str(&mut m, usize_to_string(r.first_parent_position).as_str());
    push_str(&mut m, ", expected ");
    push_str(&mut m, usize_to_string(position).as_str());
    push_when(reasons, r.first_parent_position != position, m);
    assert(views(reasons@) =~= start + position_reasons(records, views(range@), i as int));
}

proof fn lemma_records_reasons_prefix(
    olds: Seq<CommitRecord>,
    a: Seq<CommitRecord>,
    b: Seq<CommitRecord>,
    src: SnapshotSource,
    n: int,
)
    requires
        n <= a.len(),
        n <= b.len(),
        forall|k: int| 0 <= k < n ==> a[k] == b[k],
    ensures
        records_reasons(olds, a, src, n) == records_reasons(olds, b, src, n),
    decreases n,
{
    if n > 0 {
        lemma_records_reasons_prefix(olds, a, b, src, n - 1);
    }
}

#[verifier::rlimit(30)]
fn reconcile_record(
    record: CommitRecord,
    earlier: &Vec<CommitRecord>,
    source: &SnapshotSource,
    i: usize,
    reasons: &mut Vec<String>,
    Ghost(olds): Ghost<Seq<CommitRecord>>,
) -> (r: CommitRecord)
    requires
        i < olds.len(),
        olds.len() <= usize::MAX,
        olds[i as int] == record,
        earlier@.len() == i,
        record_shas(earlier@) == record_shas(olds.take(i as int)),
    ensures
        normalized_from(record, r),
        views(final(reasons)@) == views(old(reasons)@) + one_record_reasons(olds, r, *source, i as int),
{
    let ghost start = views(reasons@);
    let mut record = record;
    push_position_reasons(earlier, &record, &source.range_commits, i, reasons, Ghost(olds));
    let ghost a = views(reasons@);
    normalize_reference_projections(&mut record, reasons);
    let ghost b = views(reasons@);
    validate_record(&record, source, reasons);
    let ghost c = views(reasons@);
    validate_capture_metadata(&record, reasons);
    let ghost d = views(reasons@);
    validate_claim_refs(&record, reasons);
    proof {
        let p = position_reasons(olds, views(source.range_commits@), i as int);
        let j = projection_reasons(olds[i as int]);
        let rr = record_reasons(record, *source);
        let cc = capture_reasons(record);
        let ll = claim_reasons(record);
        lemma_add_assoc(start, p, j);
        lemma_add_assoc(start, p + j, rr);
        lemma_add_assoc(start, p + j + rr, cc);
        lemma_add_assoc(start, p + j + rr + cc, ll);
        reveal(one_record_reasons);
    }
    record
}

/// Normalizes every record of a captured ledger and collects every reason
/// it does not reconcile: its source, the live observations when given,
/// each record in range order, and the record count.
pub fn reconcile_snapshot(snapshot: Snapshot, live_facts: Option<&LiveFacts>) -> (r: ReconciledLedger)
    ensures
        r.snapshot.schema_version == snapshot.schema_version,
        r.snapshot.kind == snapshot.kind,
        r.snapshot.captured_at == snapshot.captured_at,
        r.snapshot.source == snapshot.source,
        r.snapshot.records@.len() == snapshot.records@.len(),
        forall|i: int|
            0 <= i < snapshot.records@.len() ==> normalized_from(
                #[trigger] snapshot.records@[i],
                r.snapshot.records@[i],
            ),
        views(r.reasons@) == reconcile_reasons(
            snapshot,
            match live_facts {
                Some(f) => Some(*f),
                None => None,
            },
            r.snapshot.records@,
        ),
{
    let ghost original = snapshot;
    let mut reasons: Vec<String> = Vec::new();
    validate_source(&snapshot, &mut reasons);
    push_live_reasons(live_facts, &snapshot.source, &mut reasons);
    let ghost base = views(reasons@);
    let Snapshot { schema_version, kind, captured_at, source, records } = snapshot;
    let ghost olds = records@;
    assert(olds.len() == records.len());
    assert(olds.skip(0) =~= olds);
    let mut rest = records;
    let mut news: Vec<CommitRecord> = Vec::new();
    let mut i: usize = 0;
    while rest.len() > 0
        invariant
            i <= olds.len(),
            olds.len() <= usize::MAX,
            rest@ == olds.skip(i as int),
            rest@.len() + i == olds.len(),
            news@.len() == i,
            forall|k: int| 0 <= k < i ==> normalized_from(#[trigger] olds[k], news@[k]),
            views(reasons@) == base + records_reasons(olds, news@, source, i as int),
        decreases rest.len(),
    {
        let record = rest.remove(0);
        assert(record == olds[i as int]);
        assert(record_shas(news@) =~= record_shas(olds.take(i as int))) by {
            assert forall|k: int| 0 <= k < i implies #[trigger] news@[k].commit_sha == olds[k].commit_sha by {
                assert(normalized_from(olds[k], news@[k]));
            }
        }
        let record = reconcile_record(record, &news, &source, i, &mut reasons, Ghost(olds));
        let ghost before = news@;
        news.push(record);
        proof {
            lemma_records_reasons_prefix(olds, before, news@, source, i as int);
            assert(news@[i as int] == record);
        }
        assert(views(reasons@) =~= base + records_reasons(olds, news@, source, i + 1));
        assert(rest@ =~= olds.skip(i + 1));
        i += 1;
    }
    let count_differs = news.len() != source.range_commits.len();
    let mut m = concat("record count ", usize_to_string(news.len()).as_str());
    push_str(&mut m, " does not reconcile with range count ");
    push_str(&mut m, usize_to_string(source.range_commits.len()).as_str());
    push_when(&mut reasons, count_differs, m);
    let out = Snapshot { schema_version, kind, captured_at, source, records: news };
    assert(views(reasons@) =~= reconcile_reasons(
        original,
        match live_facts {
            Some(f) => Some(*f),
            None => None,
        },
        out.records@,
    ));
    ReconciledLedger { snapshot: out, reasons }
}

// ---------------------------------------------------------------------------
// The normalized report
// ---------------------------------------------------------------------------

/// The normalized ledger report: status, digests, counts and reasons.
#[derive(Clone, Debug, PartialEq, Eq)]
pub struct NormalizedReport {
    pub status: String,
    pub captured_at: String,
    pub source: SnapshotSource,
    pub records: Vec<CommitRecord>,
    pub counts_by_disposition: Vec<(String, usize)>,
    pub counts_by_tree_state: Vec<(String, usize)>,
    pub range_digest: String,
    pub candidate_tree_digest: String,
    pub record_set_digest: String,
    pub reconciliation_reasons: Vec<String>,
    pub next_action: String,
}

/// A record's disposition (`tree` false) or candidate-tree state (`tree`
/// true).
pub open spec fn record_field(r: CommitRecord, tree: bool) -> Seq<char> {
    if tree {
        r.candidate_tree_state@
    } else {
        r.release_disposition@
    }
}

/// How many records carry `key` in the field.
pub open spec fn count_field(records: Seq<CommitRecord>, key: Seq<char>, tree: bool) -> nat
    decreases records.len(),
{
    if records.len() == 0 {
        0
    } else {
        count_field(records.drop_last(), key, tree) + if record_field(records.last(), tree) == key {
            1nat
        } else {
            0nat
        }
    }
}

/// The distinct values of the field, ascending.
pub open spec fn field_keys(records: Seq<CommitRecord>, tree: bool) -> Seq<Seq<char>> {
    sorted_unique_spec(records.map_values(|r: CommitRecord| record_field(r, tree)))
}

/// Counts keyed by the field's distinct values in ascending order.
pub open spec fn counts_match(counts: Seq<(String, usize)>, records: Seq<CommitRecord>, tree: bool) -> bool {
    &&& counts.len() == field_keys(records, tree).len()
    &&& forall|i: int|
        0 <= i < counts.len() ==> (#[trigger] counts[i]).0@ == field_keys(records, tree)[i]
            && counts[i].1 == count_field(records, field_keys(records, tree)[i], tree)
}

pub open spec fn has_open_decision(records: Seq<CommitRecord>) -> bool {
    exists|i: int|
        0 <= i < records.len() && (#[trigger] records[i]).release_disposition@
            == "operator_decision_required"@
}

/// The reasons a reconciled ledger does not reconcile, with the final-stage
/// check on open operator decisions.
pub open spec fn final_reasons(s: Snapshot, reasons: Seq<Seq<char>>) -> Seq<Seq<char>> {
    reasons + reason_if(
        s.source.stage@ == "final"@ && has_open_decision(s.records@),
        "final ledger retains operator_decision_required"@,
    )
}

pub open spec fn next_action_for(ready: bool, stage: Seq<char>) -> Seq<char> {
    if ready {
        if stage == "final"@ {
            "Bind this record-set digest unchanged into the immutable candidate manifest and qualification bundle."@
        } else {
            "Review every provisional disposition before promoting this ledger to the final candidate."@
        }
    } else {
        "Refresh the exact first-parent range, candidate tree, and reviewed record dispositions; do not consume this ledger as complete."@
    }
}

fn count_exec(records: &Vec<CommitRecord>, key: &str, tree: bool) -> (r: usize)
    ensures
        r == count_field(records@, key@, tree),
{
    let mut n: usize = 0;
    let mut i: usize = 0;
    assert(records@.take(0) =~= Seq::<CommitRecord>::empty());
    while i < records.len()
        invariant
            i <= records@.len(),
            n == count_field(records@.take(i as int), key@, tree),
            n <= i,
        decreases records.len() - i,
    {
        let field = if tree {
            records[i].candidate_tree_state.as_str()
        } else {
            records[i].release_disposition.as_str()
        };
        assert(records@.take(i + 1).drop_last() =~= records@.take(i as int));
        if str_eq(field, key) {
            n += 1;
        }
        i += 1;
    }
    assert(records@.take(records@.len() as int) =~= records@);
    n
}

fn field_values(records: &Vec<CommitRecord>, tree: bool) -> (r: Vec<String>)
    ensures
        views(r@) == records@.map_values(|x: CommitRecord| record_field(x, tree)),
{
    let mut out: Vec<String> = Vec::new();
    let mut i: usize = 0;
    while i < records.len()
        invariant
            i <= records@.len(),
            views(out@) == records@.take(i as int).map_values(|x: CommitRecord| record_field(x, tree)),
        decreases records.len() - i,
    {
        let field = if tree {
            records[i].candidate_tree_state.as_str()
        } else {
            records[i].release_disposition.as_str()
        };
        let ghost before = out@;
        out.push(owned(field));
        assert(views(out@) =~= views(before).push(field@));
        assert(records@.take(i + 1).map_values(|x: CommitRecord| record_field(x, tree))
            =~= records@.take(i as int).map_values(|x: CommitRecord| record_field(x, tree)).push(
            record_field(records@[i as int], tree),
        ));
        i += 1;
    }
    assert(records@.take(records@.len() as int) =~= records@);
    out
}

/// The records counted by disposition (`tree` false) or candidate-tree
/// state (`tree` true), keyed in ascending order.
pub fn field_counts(records: &Vec<CommitRecord>, tree: bool) -> (r: Vec<(String, usize)>)
    ensures
        counts_match(r@, records@, tree),
{
    let keys = crate::release_scope::sorted_unique(field_values(records, tree).as_slice());
    let ghost ks = field_keys(records@, tree);
    let mut out: Vec<(String, usize)> = Vec::new();
    let mut i: usize = 0;
    while i < keys.len()
        invariant
            i <= keys@.len(),
            views(keys@) == ks,
            ks == field_keys(records@, tree),
            out@.len() == i,
            forall|k: int|
                0 <= k < i ==> (#[trigger] out@[k]).0@ == ks[k] && out@[k].1 == count_field(
                    records@,
                    ks[k],
                    tree,
                ),
        decreases keys.len() - i,
    {
        assert(ks[i as int] == keys@[i as int]@);
        let n = count_exec(records, keys[i].as_str(), tree);
        out.push((owned(keys[i].as_str()), n));
        i += 1;
    }
    out
}

fn has_open_decision_exec(records: &Vec<CommitRecord>) -> (r: bool)
    ensures
        r == has_open_decision(records@),
{
    let mut i: usize = 0;
    while i < records.len()
        invariant
            i <= records@.len(),
            forall|k: int|
                0 <= k < i ==> (#[trigger] records@[k]).release_disposition@
                    != "operator_decision_required"@,
        decreases records.len() - i,
    {
        if str_eq(records[i].release_disposition.as_str(), "operator_decision_required") {
            return true;
        }
        i += 1;
    }
    false
}

pub fn digest_text(bytes: &[u8]) -> (r: String)
    ensures
        r@ == crate::release_scope::digest_of(bytes@),
{
    let mut d = owned("sha256:");
    let h = crate::release_server::sha256_hex(bytes);
    push_str(&mut d, h.as_str());
    d
}

/// The normalized report of a reconciled ledger, given the canonical JSON
/// of its normalized records, of its range and of its candidate tree: the
/// digests of those bytes, the counts, the final-stage check, and a status
/// that is `ready` exactly when no reason was found.
pub fn normalize_snapshot(
    ledger: ReconciledLedger,
    record_json: &[u8],
    range_json: &[u8],
    tree_json: &[u8],
) -> (r: NormalizedReport)
    ensures
        views(r.reconciliation_reasons@) == final_reasons(ledger.snapshot, views(ledger.reasons@)),
        r.status@ == (if r.reconciliation_reasons@.len() == 0 {
            "ready"@
        } else {
            "reconcile_required"@
        }),
        r.next_action@ == next_action_for(
            r.reconciliation_reasons@.len() == 0,
            ledger.snapshot.source.stage@,
        ),
        r.record_set_digest@ == crate::release_scope::digest_of(record_json@),
        r.range_digest@ == crate::release_scope::digest_of(range_json@),
        r.candidate_tree_digest@ == crate::release_scope::digest_of(tree_json@),
        counts_match(r.counts_by_disposition@, ledger.snapshot.records@, false),
        counts_match(r.counts_by_tree_state@, ledger.snapshot.records@, true),
        r.captured_at == ledger.snapshot.captured_at,
        r.source == ledger.snapshot.source,
        r.records == ledger.snapshot.records,
{
    let ReconciledLedger { snapshot, reasons } = ledger;
    let mut reasons = reasons;
    let ghost start = views(reasons@);
    let final_stage = str_eq(snapshot.source.stage.as_str(), "final");
    push_when(
        &mut reasons,
        final_stage && has_open_decision_exec(&snapshot.records),
        owned("final ledger retains operator_decision_required"),
    );
    let ready = reasons.len() == 0;
    let status = if ready {
        owned("ready")
    } else {
        owned("reconcile_required")
    };
    let next_action = if ready {
        if final_stage {
            owned(
                "Bind this record-set digest unchanged into the immutable candidate manifest and qualification bundle.",
            )
        } else {
            owned(
                "Review every provisional disposition before promoting this ledger to the final candidate.",
            )
        }
    } else {
        owned(
            "Refresh the exact first-parent range, candidate tree, and reviewed record dispositions; do not consume this ledger as complete.",
        )
    };
    let counts_by_disposition = field_counts(&snapshot.records, false);
    let counts_by_tree_state = field_counts(&snapshot.records, true);
    NormalizedReport {
        status,
        captured_at: snapshot.captured_at,
        source: snapshot.source,
        records: snapshot.records,
        counts_by_disposition,
        counts_by_tree_state,
        range_digest: digest_text(range_json),
        candidate_tree_digest: digest_text(tree_json),
        record_set_digest: digest_text(record_json),
        reconciliation_reasons: reasons,
        next_action,
    }
}

/// A final ledger that still holds an operator decision is never ready.
pub proof fn law_final_ledger_with_open_decision_is_not_ready(s: Snapshot, reasons: Seq<Seq<char>>)
    requires
        s.source.stage@ == "final"@,
        has_open_decision(s.records@),
    ensures
        final_reasons(s, reasons).len() != 0,
{
}

/// A ledger is ready only when no record, source or live check found a
/// reason.
pub proof fn law_ready_means_reconciled(s: Snapshot, reasons: Seq<Seq<char>>)
    requires
        final_reasons(s, reasons).len() == 0,
    ensures
        reasons.len() == 0,
        !(s.source.stage@ == "final"@ && has_open_decision(s.records@)),
{
}

} // verus!

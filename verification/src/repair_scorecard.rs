//! The Rust repair trust report over a whole corpus: which attempts,
//! exclusions and observations count, the denominators they form, the
//! gap-group improvement scorecard, and the Markdown summary.

use vstd::prelude::*;
use crate::json_record::{
    JsonField, JsonRecord, field, as_str, as_u64, as_bool, as_array, str_field, get_field, get_str,
};
use crate::release_scope::{reason_if, push_when};
use crate::repair_trust::{
    ObservationHeads, heads_of, heads_fn, case_errors, exclusion_errors, observation_errors,
    case_errors_exec, exclusion_errors_exec, observation_errors_exec, nonempty_str,
};
use crate::text::{
    wrapped, concat_all, join, owned, str_eq, push_str, views, concat, concat3, trim, str_is_blank, opt_view, decimal,
    usize_to_string,
};

verus! {

// ---------------------------------------------------------------------------
// Counting and first appearances
// ---------------------------------------------------------------------------

/// How many of the indices `0..n` satisfy `p`.
pub open spec fn count_upto(p: spec_fn(int) -> bool, n: int) -> nat
    decreases n,
{
    if n <= 0 {
        0
    } else {
        count_upto(p, n - 1) + if p(n - 1) {
            1nat
        } else {
            0nat
        }
    }
}

/// The sum of `f` over the indices `0..n`.
pub open spec fn sum_upto(f: spec_fn(int) -> nat, n: int) -> nat
    decreases n,
{
    if n <= 0 {
        0
    } else {
        sum_upto(f, n - 1) + f(n - 1)
    }
}

/// The elements of `s` in the order of their first appearance, each once.
pub open spec fn distinct<A>(s: Seq<A>) -> Seq<A>
    decreases s.len(),
{
    if s.len() == 0 {
        s
    } else {
        let d = distinct(s.drop_last());
        if d.contains(s.last()) {
            d
        } else {
            d.push(s.last())
        }
    }
}

proof fn lemma_count_upto_le(p: spec_fn(int) -> bool, n: int)
    requires
        0 <= n,
    ensures
        count_upto(p, n) <= n,
    decreases n,
{
    if n > 0 {
        lemma_count_upto_le(p, n - 1);
    }
}

proof fn lemma_distinct_push<A>(s: Seq<A>, x: A)
    ensures
        distinct(s.push(x)) == (if distinct(s).contains(x) {
            distinct(s)
        } else {
            distinct(s).push(x)
        }),
{
    assert(s.push(x).drop_last() =~= s);
}

/// Counts the indices below `n` on which `f` answers yes.
fn count_where<F: Fn(usize) -> bool>(n: usize, f: F, Ghost(p): Ghost<spec_fn(int) -> bool>) -> (c: usize)
    requires
        forall|i: usize| i < n ==> #[trigger] f.requires((i,)),
        forall|i: usize, r: bool| i < n && #[trigger] f.ensures((i,), r) ==> r == p(i as int),
    ensures
        c == count_upto(p, n as int),
{
    let mut c: usize = 0;
    let mut i: usize = 0;
    while i < n
        invariant
            i <= n,
            c == count_upto(p, i as int),
            forall|i: usize| i < n ==> #[trigger] f.requires((i,)),
            forall|i: usize, r: bool| i < n && #[trigger] f.ensures((i,), r) ==> r == p(i as int),
        decreases n - i,
    {
        proof {
            lemma_count_upto_le(p, i as int);
        }
        if f(i) {
            c += 1;
        }
        i += 1;
    }
    c
}

/// Appends `x` unless the list already holds it.
fn push_distinct(v: &mut Vec<String>, x: &str)
    ensures
        views(final(v)@) == (if views(old(v)@).contains(x@) {
            views(old(v)@)
        } else {
            views(old(v)@).push(x@)
        }),
{
    if !crate::release_denominator::in_list(v, x) {
        let ghost before = views(v@);
        v.push(owned(x));
        assert(views(v@) =~= before.push(x@));
    }
}

// ---------------------------------------------------------------------------
// Authorization
// ---------------------------------------------------------------------------

/// The text of `key` when it is a string with something besides whitespace.
pub open spec fn filled_text(r: JsonRecord, key: Seq<char>) -> bool {
    str_field(r, key) matches Some(s) && trim(s).len() > 0
}

/// Whether `key` holds a non-empty array.
pub open spec fn filled_array(r: JsonRecord, key: Seq<char>) -> bool {
    as_array(field(r, key)) matches Some(a) && a.len() > 0
}

/// Whether an authorization entry names its repository, reference,
/// revision or branch, write policy and date, and lists artifact paths and
/// analysis actions.
pub open spec fn authorization_complete(r: JsonRecord) -> bool {
    &&& filled_text(r, "name"@)
    &&& filled_text(r, "authorization_ref"@)
    &&& filled_text(r, "authorized_revision_or_branch"@)
    &&& filled_text(r, "write_policy"@)
    &&& filled_text(r, "authorization_date"@)
    &&& filled_array(r, "allowed_artifact_paths"@)
    &&& filled_array(r, "allowed_analysis_actions"@)
}

/// The names of the complete entries among the first `n`, in order.
pub open spec fn complete_names(repos: Seq<JsonRecord>, n: int) -> Seq<Seq<char>>
    decreases n,
{
    if n <= 0 {
        seq![]
    } else {
        complete_names(repos, n - 1) + if authorization_complete(repos[n - 1]) {
            seq![str_field(repos[n - 1], "name"@)->0]
        } else {
            seq![]
        }
    }
}

/// The authorized repositories: the distinct names of complete entries.
pub open spec fn authorized_names(repos: Seq<JsonRecord>) -> Seq<Seq<char>> {
    distinct(complete_names(repos, repos.len() as int))
}

/// The string items of an array.
pub open spec fn string_items(items: Seq<Option<Seq<char>>>) -> Seq<Seq<char>>
    decreases items.len(),
{
    if items.len() == 0 {
        seq![]
    } else {
        string_items(items.drop_last()) + match items.last() {
            Some(s) => seq![s],
            None => seq![],
        }
    }
}

/// The observation heads an entry lists (none when it lists no array).
pub open spec fn listed_heads(r: JsonRecord) -> Seq<Seq<char>> {
    match as_array(field(r, "authorized_observation_heads"@)) {
        Some(a) => string_items(a),
        None => seq![],
    }
}

/// The observation heads of `repo`: those of the last of the first `n`
/// entries that names it.
pub open spec fn heads_among(repos: Seq<JsonRecord>, n: int, repo: Seq<char>) -> Option<Seq<Seq<char>>>
    decreases n,
{
    if n <= 0 {
        None
    } else if str_field(repos[n - 1], "name"@) == Some(repo) {
        Some(listed_heads(repos[n - 1]))
    } else {
        heads_among(repos, n - 1, repo)
    }
}

pub open spec fn heads_table(repos: Seq<JsonRecord>) -> spec_fn(Seq<char>) -> Option<Seq<Seq<char>>> {
    |repo: Seq<char>| heads_among(repos, repos.len() as int, repo)
}

fn text_filled(r: &JsonRecord, key: &str) -> (b: bool)
    ensures
        b == filled_text(*r, key@),
{
    match get_str(r, key) {
        Some(s) => !str_is_blank(s),
        None => false,
    }
}

fn array_filled(r: &JsonRecord, key: &str) -> (b: bool)
    ensures
        b == filled_array(*r, key@),
{
    match get_field(r, key) {
        JsonField::Array(items) => items.len() > 0,
        _ => false,
    }
}

fn is_authorization_complete(r: &JsonRecord) -> (b: bool)
    ensures
        b == authorization_complete(*r),
{
    text_filled(r, "name") && text_filled(r, "authorization_ref") && text_filled(
        r,
        "authorized_revision_or_branch",
    ) && text_filled(r, "write_policy") && text_filled(r, "authorization_date") && array_filled(
        r,
        "allowed_artifact_paths",
    ) && array_filled(r, "allowed_analysis_actions")
}

fn strings_in(items: &Vec<Option<String>>) -> (v: Vec<String>)
    ensures
        views(v@) == string_items(items@.map_values(|e: Option<String>| opt_view(e))),
{
    let ghost all = items@.map_values(|e: Option<String>| opt_view(e));
    let mut v: Vec<String> = Vec::new();
    let mut i: usize = 0;
    while i < items.len()
        invariant
            i <= items@.len(),
            all == items@.map_values(|e: Option<String>| opt_view(e)),
            views(v@) == string_items(all.take(i as int)),
        decreases items.len() - i,
    {
        assert(all.take(i + 1).drop_last() =~= all.take(i as int));
        let ghost before = views(v@);
        match &items[i] {
            Some(s) => {
                v.push(owned(s.as_str()));
                assert(views(v@) =~= before + seq![s@]);
            },
            None => {
                assert(views(v@) =~= before + Seq::<Seq<char>>::empty());
            },
        }
        i += 1;
    }
    assert(all.take(items@.len() as int) =~= all);
    v
}

fn heads_listed(r: &JsonRecord) -> (v: Vec<String>)
    ensures
        views(v@) == listed_heads(*r),
{
    match get_field(r, "authorized_observation_heads") {
        JsonField::Array(items) => strings_in(items),
        _ => Vec::new(),
    }
}

/// What the authorization section grants: the authorized repositories (each
/// once) and each named repository's observation heads.
pub struct AuthorizationSummary {
    pub entry_count: usize,
    pub authorized: Vec<String>,
    pub heads: Vec<ObservationHeads>,
}

/// Reads the authorization entries (`None` when `repositories` is not an
/// array).
pub fn summarize_authorization(repos: Option<&Vec<JsonRecord>>) -> (s: AuthorizationSummary)
    ensures
        match repos {
            Some(r) => {
                &&& s.entry_count == r@.len()
                &&& views(s.authorized@) == authorized_names(r@)
                &&& heads_fn(s.heads@) == heads_table(r@)
            },
            None => {
                &&& s.entry_count == 0
                &&& s.authorized@.len() == 0
                &&& s.heads@.len() == 0
            },
        },
{
    let repos = match repos {
        None => {
            return AuthorizationSummary { entry_count: 0, authorized: Vec::new(), heads: Vec::new() };
        },
        Some(r) => r,
    };
    let mut authorized: Vec<String> = Vec::new();
    let mut heads: Vec<ObservationHeads> = Vec::new();
    let mut i: usize = 0;
    while i < repos.len()
        invariant
            i <= repos@.len(),
            views(authorized@) == distinct(complete_names(repos@, i as int)),
            forall|repo: Seq<char>| heads_of(heads@, repo) == #[trigger] heads_among(repos@, i as int, repo),
        decreases repos.len() - i,
    {
        let r = &repos[i];
        let ghost names = complete_names(repos@, i as int);
        if is_authorization_complete(r) {
            let name = match get_str(r, "name") {
                Some(n) => n,
                None => "",
            };
            proof {
                lemma_distinct_push(names, name@);
                assert(complete_names(repos@, i + 1) =~= names.push(name@));
            }
            push_distinct(&mut authorized, name);
        } else {
            assert(complete_names(repos@, i + 1) =~= names);
        }
        match get_str(r, "name") {
            Some(name) => {
                let hs = heads_listed(r);
                let ghost before = heads@;
                heads.push(ObservationHeads { repository: owned(name), heads: hs });
                assert(heads@.drop_last() =~= before);
                assert forall|repo: Seq<char>|
                    heads_of(heads@, repo) == #[trigger] heads_among(repos@, i + 1, repo) by {
                    assert(heads_of(before, repo) == heads_among(repos@, i as int, repo));
                }
            },
            None => {
                assert forall|repo: Seq<char>|
                    heads_of(heads@, repo) == #[trigger] heads_among(repos@, i + 1, repo) by {
                    assert(heads_of(heads@, repo) == heads_among(repos@, i as int, repo));
                }
            },
        }
        i += 1;
    }
    assert(heads_fn(heads@) =~= heads_table(repos@));
    AuthorizationSummary { entry_count: repos.len(), authorized, heads }
}

// ---------------------------------------------------------------------------
// Record passes
// ---------------------------------------------------------------------------

/// The text of `key`, or the empty text when it is not a string.
pub open spec fn record_id(r: JsonRecord, key: Seq<char>) -> Seq<char> {
    match str_field(r, key) {
        Some(s) => s,
        None => seq![],
    }
}

/// The non-empty ids among the first `n` records, in order.
pub open spec fn ids_upto(records: Seq<JsonRecord>, key: Seq<char>, n: int) -> Seq<Seq<char>>
    decreases n,
{
    if n <= 0 {
        seq![]
    } else {
        ids_upto(records, key, n - 1) + if record_id(records[n - 1], key).len() > 0 {
            seq![record_id(records[n - 1], key)]
        } else {
            seq![]
        }
    }
}

/// Whether record `i` repeats a non-empty id of an earlier record.
pub open spec fn repeated_id(records: Seq<JsonRecord>, key: Seq<char>, i: int) -> bool {
    record_id(records[i], key).len() > 0 && ids_upto(records, key, i).contains(
        record_id(records[i], key),
    )
}

/// Each error prefixed with the record's place, as `label[i]: error`.
pub open spec fn labelled(label: Seq<char>, i: int, errors: Seq<Seq<char>>) -> Seq<Seq<char>> {
    errors.map_values(|e: Seq<char>| label + "["@ + decimal(i as nat) + "]: "@ + e)
}

/// The errors of attempt `i`: its own, and a repeated attempt id.
pub open spec fn case_report_errors(cases: Seq<JsonRecord>, i: int, authorized: Seq<Seq<char>>) -> Seq<Seq<char>> {
    case_errors(cases[i], authorized) + reason_if(
        repeated_id(cases, "attempt_id"@, i),
        "duplicate id "@ + record_id(cases[i], "attempt_id"@),
    )
}

/// Which attempts are eligible: those without errors.
pub open spec fn case_eligibility(cases: Seq<JsonRecord>, authorized: Seq<Seq<char>>) -> Seq<bool> {
    Seq::new(cases.len(), |i: int| case_report_errors(cases, i, authorized).len() == 0)
}

pub open spec fn case_error_lines(cases: Seq<JsonRecord>, authorized: Seq<Seq<char>>, n: int) -> Seq<Seq<char>>
    decreases n,
{
    if n <= 0 {
        seq![]
    } else {
        case_error_lines(cases, authorized, n - 1) + labelled(
            "cases"@,
            n - 1,
            case_report_errors(cases, n - 1, authorized),
        )
    }
}

/// The errors of exclusion `k`: its own, a repeated exclusion id, and an id
/// that an attempt already uses.
pub open spec fn exclusion_report_errors(
    exclusions: Seq<JsonRecord>,
    k: int,
    authorized: Seq<Seq<char>>,
    case_ids: Seq<Seq<char>>,
) -> Seq<Seq<char>> {
    let id = record_id(exclusions[k], "exclusion_id"@);
    exclusion_errors(exclusions[k], authorized) + reason_if(
        repeated_id(exclusions, "exclusion_id"@, k),
        "duplicate exclusion id "@ + id,
    ) + reason_if(
        id.len() > 0 && case_ids.contains(id),
        "exclusion id "@ + id + " collides with an attempt id"@,
    )
}

pub open spec fn exclusion_validity(
    exclusions: Seq<JsonRecord>,
    authorized: Seq<Seq<char>>,
    case_ids: Seq<Seq<char>>,
) -> Seq<bool> {
    Seq::new(
        exclusions.len(),
        |k: int| exclusion_report_errors(exclusions, k, authorized, case_ids).len() == 0,
    )
}

pub open spec fn exclusion_error_lines(
    exclusions: Seq<JsonRecord>,
    authorized: Seq<Seq<char>>,
    case_ids: Seq<Seq<char>>,
    n: int,
) -> Seq<Seq<char>>
    decreases n,
{
    if n <= 0 {
        seq![]
    } else {
        exclusion_error_lines(exclusions, authorized, case_ids, n - 1) + labelled(
            "exclusions"@,
            n - 1,
            exclusion_report_errors(exclusions, n - 1, authorized, case_ids),
        )
    }
}

/// The ids of the valid records among the first `n`.
pub open spec fn valid_ids(records: Seq<JsonRecord>, valid: Seq<bool>, key: Seq<char>, n: int) -> Seq<Seq<char>>
    decreases n,
{
    if n <= 0 {
        seq![]
    } else {
        valid_ids(records, valid, key, n - 1) + if valid[n - 1] {
            seq![record_id(records[n - 1], key)]
        } else {
            seq![]
        }
    }
}

/// The errors of observation `k`: its own, and a repeated observation id.
pub open spec fn observation_report_errors(
    observations: Seq<JsonRecord>,
    k: int,
    authorized: Seq<Seq<char>>,
    heads: spec_fn(Seq<char>) -> Option<Seq<Seq<char>>>,
    exclusions: Seq<JsonRecord>,
    exclusion_ids: Seq<Seq<char>>,
) -> Seq<Seq<char>> {
    observation_errors(observations[k], authorized, heads, exclusions, exclusion_ids) + reason_if(
        repeated_id(observations, "observation_id"@, k),
        "duplicate observation id "@ + record_id(observations[k], "observation_id"@),
    )
}

pub open spec fn observation_validity(
    observations: Seq<JsonRecord>,
    authorized: Seq<Seq<char>>,
    heads: spec_fn(Seq<char>) -> Option<Seq<Seq<char>>>,
    exclusions: Seq<JsonRecord>,
    exclusion_ids: Seq<Seq<char>>,
) -> Seq<bool> {
    Seq::new(
        observations.len(),
        |k: int|
            observation_report_errors(observations, k, authorized, heads, exclusions, exclusion_ids).len()
                == 0,
    )
}

pub open spec fn observation_error_lines(
    observations: Seq<JsonRecord>,
    authorized: Seq<Seq<char>>,
    heads: spec_fn(Seq<char>) -> Option<Seq<Seq<char>>>,
    exclusions: Seq<JsonRecord>,
    exclusion_ids: Seq<Seq<char>>,
    n: int,
) -> Seq<Seq<char>>
    decreases n,
{
    if n <= 0 {
        seq![]
    } else {
        observation_error_lines(observations, authorized, heads, exclusions, exclusion_ids, n - 1)
            + labelled(
            "observations"@,
            n - 1,
            observation_report_errors(observations, n - 1, authorized, heads, exclusions, exclusion_ids),
        )
    }
}

fn id_text<'a>(r: &'a JsonRecord, key: &str) -> (s: &'a str)
    ensures
        s@ == record_id(*r, key@),
{
    match get_str(r, key) {
        Some(s) => s,
        None => {
            proof {
                reveal_strlit("");
            }
            ""
        },
    }
}

fn text_is_empty(s: &str) -> (b: bool)
    ensures
        b == (s@.len() == 0),
{
    crate::text::chars_of(s).len() == 0
}

/// Appends `label[i]: error` for each error.
fn push_labelled(out: &mut Vec<String>, label: &str, i: usize, errors: &Vec<String>)
    ensures
        views(final(out)@) == views(old(out)@) + labelled(label@, i as int, views(errors@)),
{
    let ghost start = views(out@);
    let idx = usize_to_string(i);
    let mut j: usize = 0;
    while j < errors.len()
        invariant
            j <= errors@.len(),
            idx@ == decimal(i as nat),
            views(out@) == start + labelled(label@, i as int, views(errors@)).take(j as int),
        decreases errors.len() - j,
    {
        let mut line = concat(label, "[");
        push_str(&mut line, idx.as_str());
        push_str(&mut line, "]: ");
        push_str(&mut line, errors[j].as_str());
        let ghost before = views(out@);
        out.push(line);
        assert(views(out@) =~= before.push(line@));
        assert(labelled(label@, i as int, views(errors@)).take(j + 1) =~= labelled(
            label@,
            i as int,
            views(errors@),
        ).take(j as int).push(line@));
        j += 1;
    }
    assert(labelled(label@, i as int, views(errors@)).take(errors@.len() as int) =~= labelled(
        label@,
        i as int,
        views(errors@),
    ));
}

/// One pass over a kind of record: which are valid, their labelled
/// errors, and the non-empty ids seen.
pub struct RecordPass {
    pub valid: Vec<bool>,
    pub errors: Vec<String>,
    pub ids: Vec<String>,
}

fn check_cases(cases: &Vec<JsonRecord>, authorized: &Vec<String>) -> (p: RecordPass)
    ensures
        p.valid@ == case_eligibility(cases@, views(authorized@)),
        views(p.errors@) == case_error_lines(cases@, views(authorized@), cases@.len() as int),
        views(p.ids@) == ids_upto(cases@, "attempt_id"@, cases@.len() as int),
{
    let ghost a = views(authorized@);
    let mut valid: Vec<bool> = Vec::new();
    let mut errors: Vec<String> = Vec::new();
    let mut ids: Vec<String> = Vec::new();
    let mut i: usize = 0;
    while i < cases.len()
        invariant
            i <= cases@.len(),
            a == views(authorized@),
            valid@ =~= case_eligibility(cases@, a).take(i as int),
            views(errors@) == case_error_lines(cases@, a, i as int),
            views(ids@) == ids_upto(cases@, "attempt_id"@, i as int),
        decreases cases.len() - i,
    {
        let r = &cases[i];
        let mut errs = case_errors_exec(r, authorized);
        let id = id_text(r, "attempt_id");
        let fresh = text_is_empty(id);
        let repeated = !fresh && crate::repair_trust::contains_text(&ids, id);
        push_when(&mut errs, repeated, concat("duplicate id ", id));
        assert(views(errs@) == case_report_errors(cases@, i as int, a));
        valid.push(errs.len() == 0);
        push_labelled(&mut errors, "cases", i, &errs);
        if !fresh {
            let ghost before = views(ids@);
            ids.push(owned(id));
            assert(views(ids@) =~= before + seq![id@]);
        } else {
            assert(views(ids@) =~= views(ids@) + Seq::<Seq<char>>::empty());
        }
        i += 1;
    }
    RecordPass { valid, errors, ids }
}

fn check_exclusions(
    exclusions: &Vec<JsonRecord>,
    authorized: &Vec<String>,
    case_ids: &Vec<String>,
) -> (p: RecordPass)
    ensures
        p.valid@ == exclusion_validity(exclusions@, views(authorized@), views(case_ids@)),
        views(p.errors@) == exclusion_error_lines(
            exclusions@,
            views(authorized@),
            views(case_ids@),
            exclusions@.len() as int,
        ),
        views(p.ids@) == valid_ids(
            exclusions@,
            exclusion_validity(exclusions@, views(authorized@), views(case_ids@)),
            "exclusion_id"@,
            exclusions@.len() as int,
        ),
{
    let ghost a = views(authorized@);
    let ghost c = views(case_ids@);
    let ghost validity = exclusion_validity(exclusions@, a, c);
    let mut valid: Vec<bool> = Vec::new();
    let mut errors: Vec<String> = Vec::new();
    let mut seen: Vec<String> = Vec::new();
    let mut ids: Vec<String> = Vec::new();
    let mut k: usize = 0;
    while k < exclusions.len()
        invariant
            k <= exclusions@.len(),
            a == views(authorized@),
            c == views(case_ids@),
            validity == exclusion_validity(exclusions@, a, c),
            valid@ =~= validity.take(k as int),
            views(errors@) == exclusion_error_lines(exclusions@, a, c, k as int),
            views(seen@) == ids_upto(exclusions@, "exclusion_id"@, k as int),
            views(ids@) == valid_ids(exclusions@, validity, "exclusion_id"@, k as int),
        decreases exclusions.len() - k,
    {
        let r = &exclusions[k];
        let mut errs = exclusion_errors_exec(r, authorized);
        let id = id_text(r, "exclusion_id");
        let fresh = text_is_empty(id);
        let repeated = !fresh && crate::repair_trust::contains_text(&seen, id);
        push_when(&mut errs, repeated, concat("duplicate exclusion id ", id));
        let collides = !fresh && crate::repair_trust::contains_text(case_ids, id);
        push_when(&mut errs, collides, concat3("exclusion id ", id, " collides with an attempt id"));
        assert(views(errs@) == exclusion_report_errors(exclusions@, k as int, a, c));
        let ok = errs.len() == 0;
        valid.push(ok);
        push_labelled(&mut errors, "exclusions", k, &errs);
        if !fresh {
            let ghost before = views(seen@);
            seen.push(owned(id));
            assert(views(seen@) =~= before + seq![id@]);
        } else {
            assert(views(seen@) =~= views(seen@) + Seq::<Seq<char>>::empty());
        }
        if ok {
            let ghost before = views(ids@);
            ids.push(owned(id));
            assert(views(ids@) =~= before + seq![id@]);
        } else {
            assert(views(ids@) =~= views(ids@) + Seq::<Seq<char>>::empty());
        }
        k += 1;
    }
    RecordPass { valid, errors, ids }
}

fn check_observations(
    observations: &Vec<JsonRecord>,
    authorized: &Vec<String>,
    heads: &Vec<ObservationHeads>,
    exclusions: &Vec<JsonRecord>,
    exclusion_ids: &Vec<String>,
) -> (p: RecordPass)
    ensures
        p.valid@ == observation_validity(
            observations@,
            views(authorized@),
            heads_fn(heads@),
            exclusions@,
            views(exclusion_ids@),
        ),
        views(p.errors@) == observation_error_lines(
            observations@,
            views(authorized@),
            heads_fn(heads@),
            exclusions@,
            views(exclusion_ids@),
            observations@.len() as int,
        ),
        views(p.ids@) == ids_upto(observations@, "observation_id"@, observations@.len() as int),
{
    let ghost a = views(authorized@);
    let ghost h = heads_fn(heads@);
    let ghost x = views(exclusion_ids@);
    let mut valid: Vec<bool> = Vec::new();
    let mut errors: Vec<String> = Vec::new();
    let mut ids: Vec<String> = Vec::new();
    let mut k: usize = 0;
    while k < observations.len()
        invariant
            k <= observations@.len(),
            a == views(authorized@),
            h == heads_fn(heads@),
            x == views(exclusion_ids@),
            valid@ =~= observation_validity(observations@, a, h, exclusions@, x).take(k as int),
            views(errors@) == observation_error_lines(observations@, a, h, exclusions@, x, k as int),
            views(ids@) == ids_upto(observations@, "observation_id"@, k as int),
        decreases observations.len() - k,
    {
        let r = &observations[k];
        let mut errs = observation_errors_exec(r, authorized, heads, exclusions, exclusion_ids);
        let id = id_text(r, "observation_id");
        let fresh = text_is_empty(id);
        let repeated = !fresh && crate::repair_trust::contains_text(&ids, id);
        push_when(&mut errs, repeated, concat("duplicate observation id ", id));
        assert(views(errs@) == observation_report_errors(observations@, k as int, a, h, exclusions@, x));
        valid.push(errs.len() == 0);
        push_labelled(&mut errors, "observations", k, &errs);
        if !fresh {
            let ghost before = views(ids@);
            ids.push(owned(id));
            assert(views(ids@) =~= before + seq![id@]);
        } else {
            assert(views(ids@) =~= views(ids@) + Seq::<Seq<char>>::empty());
        }
        k += 1;
    }
    RecordPass { valid, errors, ids }
}

// ---------------------------------------------------------------------------
// Tallies
// ---------------------------------------------------------------------------

proof fn lemma_count_upto_ext(p: spec_fn(int) -> bool, q: spec_fn(int) -> bool, n: int)
    requires
        forall|j: int| 0 <= j < n ==> #[trigger] p(j) == q(j),
    ensures
        count_upto(p, n) == count_upto(q, n),
    decreases n,
{
    if n > 0 {
        lemma_count_upto_ext(p, q, n - 1);
    }
}

proof fn lemma_sum_upto_ext(f: spec_fn(int) -> nat, g: spec_fn(int) -> nat, n: int)
    requires
        forall|j: int| 0 <= j < n ==> #[trigger] f(j) == g(j),
    ensures
        sum_upto(f, n) == sum_upto(g, n),
    decreases n,
{
    if n > 0 {
        lemma_sum_upto_ext(f, g, n - 1);
    }
}

pub open spec fn flag_set(flags: Seq<bool>) -> spec_fn(int) -> bool {
    |j: int| flags[j]
}

/// The valid records whose `key` is the text `value`.
pub open spec fn valid_with_text(
    records: Seq<JsonRecord>,
    valid: Seq<bool>,
    key: Seq<char>,
    value: Seq<char>,
) -> spec_fn(int) -> bool {
    |j: int| valid[j] && str_field(records[j], key) == Some(value)
}

/// The valid records whose `key` is `true`.
pub open spec fn valid_with_flag(records: Seq<JsonRecord>, valid: Seq<bool>, key: Seq<char>) -> spec_fn(int) -> bool {
    |j: int| valid[j] && as_bool(field(records[j], key)) == Some(true)
}

/// The valid attempts that list limitations.
pub open spec fn valid_limited(cases: Seq<JsonRecord>, valid: Seq<bool>) -> spec_fn(int) -> bool {
    |j: int| valid[j] && filled_array(cases[j], "limitations"@)
}

/// `s` with ASCII capitals lowered (`str::to_ascii_lowercase`).
pub open spec fn lowered(s: Seq<char>) -> Seq<char> {
    s.map_values(|c: char| crate::text::ascii_lower(c))
}

/// Whether a limitation names the CallPresence observer.
pub open spec fn names_call_presence(s: Seq<char>) -> bool {
    crate::text::contains(lowered(s), "callpresence"@) || crate::text::contains(
        lowered(s),
        "call_presence"@,
    )
}

/// Whether an attempt lists limitations, one of them naming CallPresence.
pub open spec fn call_presence_limited(c: JsonRecord) -> bool {
    as_array(field(c, "limitations"@)) matches Some(a) && a.len() > 0 && exists|k: int|
        0 <= k < a.len() && #[trigger] a[k] is Some && names_call_presence(a[k]->0)
}

pub open spec fn valid_call_presence(cases: Seq<JsonRecord>, valid: Seq<bool>) -> spec_fn(int) -> bool {
    |j: int| valid[j] && call_presence_limited(cases[j])
}

/// The records where `key` is not a non-empty string.
pub open spec fn missing_text(records: Seq<JsonRecord>, key: Seq<char>) -> spec_fn(int) -> bool {
    |j: int| !nonempty_str(records[j], key)
}

fn count_flags(flags: &Vec<bool>) -> (c: usize)
    ensures
        c == count_upto(flag_set(flags@), flags@.len() as int),
{
    let f = |j: usize| -> (b: bool)
        requires
            j < flags@.len(),
        ensures
            b == flags@[j as int],
        { flags[j] };
    count_where(flags.len(), f, Ghost(flag_set(flags@)))
}

fn count_with_text(records: &Vec<JsonRecord>, valid: &Vec<bool>, key: &str, value: &str) -> (c: usize)
    requires
        valid@.len() == records@.len(),
    ensures
        c == count_upto(valid_with_text(records@, valid@, key@, value@), records@.len() as int),
{
    let f = |j: usize| -> (b: bool)
        requires
            j < records@.len(),
            valid@.len() == records@.len(),
        ensures
            b == (valid@[j as int] && str_field(records@[j as int], key@) == Some(value@)),
        {
            valid[j] && match get_str(&records[j], key) {
                Some(t) => str_eq(t, value),
                None => false,
            }
        };
    count_where(records.len(), f, Ghost(valid_with_text(records@, valid@, key@, value@)))
}

fn count_with_flag(records: &Vec<JsonRecord>, valid: &Vec<bool>, key: &str) -> (c: usize)
    requires
        valid@.len() == records@.len(),
    ensures
        c == count_upto(valid_with_flag(records@, valid@, key@), records@.len() as int),
{
    let f = |j: usize| -> (b: bool)
        requires
            j < records@.len(),
            valid@.len() == records@.len(),
        ensures
            b == (valid@[j as int] && as_bool(field(records@[j as int], key@)) == Some(true)),
        {
            valid[j] && match get_field(&records[j], key) {
                JsonField::Bool(t) => *t,
                _ => false,
            }
        };
    count_where(records.len(), f, Ghost(valid_with_flag(records@, valid@, key@)))
}

fn count_limited(cases: &Vec<JsonRecord>, valid: &Vec<bool>) -> (c: usize)
    requires
        valid@.len() == cases@.len(),
    ensures
        c == count_upto(valid_limited(cases@, valid@), cases@.len() as int),
{
    let f = |j: usize| -> (b: bool)
        requires
            j < cases@.len(),
            valid@.len() == cases@.len(),
        ensures
            b == (valid@[j as int] && filled_array(cases@[j as int], "limitations"@)),
        { valid[j] && array_filled(&cases[j], "limitations") };
    count_where(cases.len(), f, Ghost(valid_limited(cases@, valid@)))
}

fn lowercase(s: &str) -> (r: String)
    ensures
        r@ == lowered(s@),
{
    let v = crate::text::chars_of(s);
    let mut out: Vec<char> = Vec::new();
    let mut i: usize = 0;
    while i < v.len()
        invariant
            i <= v@.len(),
            v@ == s@,
            out@ =~= lowered(s@).take(i as int),
        decreases v.len() - i,
    {
        out.push(crate::text::ascii_lower_exec(v[i]));
        i += 1;
    }
    crate::text::string_of(&out)
}

fn mentions_call_presence(s: &str) -> (b: bool)
    ensures
        b == names_call_presence(s@),
{
    let low = lowercase(s);
    crate::text::str_contains(low.as_str(), "callpresence") || crate::text::str_contains(
        low.as_str(),
        "call_presence",
    )
}

fn is_call_presence_limited(c: &JsonRecord) -> (b: bool)
    ensures
        b == call_presence_limited(*c),
{
    let lim = get_field(c, "limitations");
    match lim {
        JsonField::Array(items) => {
            let ghost a = items@.map_values(|e: Option<String>| opt_view(e));
            assert(as_array(field(*c, "limitations"@)) == Some(a));
            if items.len() == 0 {
                return false;
            }
            let mut k: usize = 0;
            while k < items.len()
                invariant
                    k <= items@.len(),
                    a == items@.map_values(|e: Option<String>| opt_view(e)),
                    as_array(field(*c, "limitations"@)) == Some(a),
                    items@.len() > 0,
                    forall|q: int| 0 <= q < k ==> !(#[trigger] a[q] is Some && names_call_presence(a[q]->0)),
                decreases items.len() - k,
            {
                match &items[k] {
                    Some(s) => {
                        if mentions_call_presence(s.as_str()) {
                            assert(a.len() == items@.len());
                            assert(a[k as int] == opt_view(items@[k as int]));
                            assert(a[k as int] is Some && names_call_presence(a[k as int]->0));
                            return true;
                        }
                    },
                    None => {},
                }
                k += 1;
            }
            false
        },
        _ => false,
    }
}

fn count_call_presence(cases: &Vec<JsonRecord>, valid: &Vec<bool>) -> (c: usize)
    requires
        valid@.len() == cases@.len(),
    ensures
        c == count_upto(valid_call_presence(cases@, valid@), cases@.len() as int),
{
    let f = |j: usize| -> (b: bool)
        requires
            j < cases@.len(),
            valid@.len() == cases@.len(),
        ensures
            b == (valid@[j as int] && call_presence_limited(cases@[j as int])),
        { valid[j] && is_call_presence_limited(&cases[j]) };
    count_where(cases.len(), f, Ghost(valid_call_presence(cases@, valid@)))
}

fn count_missing(records: &Vec<JsonRecord>, key: &str) -> (c: usize)
    ensures
        c == count_upto(missing_text(records@, key@), records@.len() as int),
{
    let f = |j: usize| -> (b: bool)
        requires
            j < records@.len(),
        ensures
            b == !nonempty_str(records@[j as int], key@),
        {
            match get_str(&records[j], key) {
                Some(t) => text_is_empty(t),
                None => true,
            }
        };
    count_where(records.len(), f, Ghost(missing_text(records@, key@)))
}

/// Each word with its count, in the words' order; without the zero counts
/// unless `keep_zero`.
pub open spec fn word_counts(
    words: Seq<Seq<char>>,
    count: spec_fn(Seq<char>) -> nat,
    keep_zero: bool,
) -> Seq<(Seq<char>, nat)>
    decreases words.len(),
{
    if words.len() == 0 {
        seq![]
    } else {
        word_counts(words.drop_last(), count, keep_zero) + if keep_zero || count(words.last()) > 0 {
            seq![(words.last(), count(words.last()))]
        } else {
            seq![]
        }
    }
}

pub open spec fn pairs_view(v: Seq<(String, usize)>) -> Seq<(Seq<char>, nat)> {
    v.map_values(|p: (String, usize)| (p.0@, p.1 as nat))
}

pub open spec fn words_view(words: Seq<&str>) -> Seq<Seq<char>> {
    words.map_values(|s: &str| s@)
}

fn tally<F: Fn(&str) -> usize>(
    words: &Vec<&str>,
    f: F,
    keep_zero: bool,
    Ghost(count): Ghost<spec_fn(Seq<char>) -> nat>,
) -> (v: Vec<(String, usize)>)
    requires
        forall|w: &str| #[trigger] f.requires((w,)),
        forall|w: &str, c: usize| #[trigger] f.ensures((w,), c) ==> c == count(w@),
    ensures
        pairs_view(v@) == word_counts(words_view(words@), count, keep_zero),
{
    let ghost ws = words_view(words@);
    let mut v: Vec<(String, usize)> = Vec::new();
    let mut i: usize = 0;
    while i < words.len()
        invariant
            i <= words@.len(),
            ws == words_view(words@),
            pairs_view(v@) == word_counts(ws.take(i as int), count, keep_zero),
            forall|w: &str| #[trigger] f.requires((w,)),
            forall|w: &str, c: usize| #[trigger] f.ensures((w,), c) ==> c == count(w@),
        decreases words.len() - i,
    {
        assert(ws.take(i + 1).drop_last() =~= ws.take(i as int));
        assert(ws.take(i + 1).last() == words@[i as int]@);
        let c = f(words[i]);
        let ghost before = pairs_view(v@);
        if keep_zero || c > 0 {
            v.push((owned(words[i]), c));
            assert(pairs_view(v@) =~= before + seq![(words@[i as int]@, c as nat)]);
        } else {
            assert(pairs_view(v@) =~= before + Seq::<(Seq<char>, nat)>::empty());
        }
        i += 1;
    }
    assert(ws.take(words@.len() as int) =~= ws);
    v
}

// ---------------------------------------------------------------------------
// Gap groups
// ---------------------------------------------------------------------------

/// The gap group of an attempt: its repository and canonical gap.
pub open spec fn group_key(c: JsonRecord) -> (Seq<char>, Seq<char>) {
    (record_id(c, "repository"@), record_id(c, "canonical_gap_id"@))
}

/// The gap groups of the eligible attempts among the first `n`, in order,
/// with repeats.
pub open spec fn group_keys(cases: Seq<JsonRecord>, elig: Seq<bool>, n: int) -> Seq<(Seq<char>, Seq<char>)>
    decreases n,
{
    if n <= 0 {
        seq![]
    } else {
        group_keys(cases, elig, n - 1) + if elig[n - 1] {
            seq![group_key(cases[n - 1])]
        } else {
            seq![]
        }
    }
}

/// Whether an attempt closed or improved its gap.
pub open spec fn improving(c: JsonRecord) -> bool {
    str_field(c, "movement"@) == Some("closed"@) || str_field(c, "movement"@) == Some("improved"@)
}

pub open spec fn attempt_number(c: JsonRecord) -> u64 {
    match as_u64(field(c, "attempt_number"@)) {
        Some(a) => a,
        None => 0,
    }
}

/// The lowest attempt number among the eligible attempts of group `k`
/// (within the first `n`) that closed or improved it.
pub open spec fn first_improvement(
    cases: Seq<JsonRecord>,
    elig: Seq<bool>,
    n: int,
    k: (Seq<char>, Seq<char>),
) -> Option<u64>
    decreases n,
{
    if n <= 0 {
        None
    } else {
        let prev = first_improvement(cases, elig, n - 1, k);
        let c = cases[n - 1];
        if elig[n - 1] && group_key(c) == k && improving(c) {
            match prev {
                None => Some(attempt_number(c)),
                Some(b) => Some(
                    if attempt_number(c) < b {
                        attempt_number(c)
                    } else {
                        b
                    },
                ),
            }
        } else {
            prev
        }
    }
}

/// The distinct gap groups of the eligible attempts.
pub open spec fn gap_groups(cases: Seq<JsonRecord>, elig: Seq<bool>) -> Seq<(Seq<char>, Seq<char>)> {
    distinct(group_keys(cases, elig, cases.len() as int))
}

pub open spec fn group_first(cases: Seq<JsonRecord>, elig: Seq<bool>, j: int) -> Option<u64> {
    first_improvement(cases, elig, cases.len() as int, gap_groups(cases, elig)[j])
}

/// The groups first improved on their first attempt.
pub open spec fn improved_at_once(cases: Seq<JsonRecord>, elig: Seq<bool>) -> spec_fn(int) -> bool {
    |j: int| group_first(cases, elig, j) == Some(1u64)
}

/// The groups improved at some attempt.
pub open spec fn improved_at_all(cases: Seq<JsonRecord>, elig: Seq<bool>) -> spec_fn(int) -> bool {
    |j: int| group_first(cases, elig, j) is Some
}

/// The attempt number of each group's first improvement (zero for none).
pub open spec fn first_attempts(cases: Seq<JsonRecord>, elig: Seq<bool>) -> spec_fn(int) -> nat {
    |j: int|
        match group_first(cases, elig, j) {
            Some(a) => a as nat,
            None => 0,
        }
}

proof fn lemma_push_contains<A>(d: Seq<A>, x: A, y: A)
    requires
        d.contains(y),
    ensures
        d.push(x).contains(y),
{
    let i = choose|i: int| 0 <= i < d.len() && d[i] == y;
    assert(d.push(x)[i] == y);
}

proof fn lemma_distinct_holds<A>(s: Seq<A>, x: A)
    ensures
        distinct(s.push(x)).contains(x),
{
    lemma_distinct_push(s, x);
    if !distinct(s).contains(x) {
        assert(distinct(s).push(x)[distinct(s).len() as int] == x);
    }
}

proof fn lemma_first_needs_group(
    cases: Seq<JsonRecord>,
    elig: Seq<bool>,
    n: int,
    k: (Seq<char>, Seq<char>),
)
    requires
        first_improvement(cases, elig, n, k) is Some,
    ensures
        distinct(group_keys(cases, elig, n)).contains(k),
    decreases n,
{
    if n > 0 {
        let prev = group_keys(cases, elig, n - 1);
        if elig[n - 1] {
            let key = group_key(cases[n - 1]);
            assert(group_keys(cases, elig, n) =~= prev.push(key));
            lemma_distinct_push(prev, key);
            if first_improvement(cases, elig, n - 1, k) is Some {
                lemma_first_needs_group(cases, elig, n - 1, k);
                if !distinct(prev).contains(key) {
                    lemma_push_contains(distinct(prev), key, k);
                }
            } else {
                lemma_distinct_holds(prev, key);
            }
        } else {
            assert(group_keys(cases, elig, n) =~= prev);
            lemma_first_needs_group(cases, elig, n - 1, k);
        }
    }
}

/// The improvement scorecard over gap groups.
pub struct GroupScore {
    pub group_count: usize,
    pub improved_at_once: usize,
    pub improved_groups: usize,
    pub first_attempt_sum: u128,
}

fn is_improving(c: &JsonRecord) -> (b: bool)
    ensures
        b == improving(*c),
{
    match get_str(c, "movement") {
        Some(m) => str_eq(m, "closed") || str_eq(m, "improved"),
        None => false,
    }
}

fn attempt_number_of(c: &JsonRecord) -> (a: u64)
    ensures
        a == attempt_number(*c),
{
    match get_field(c, "attempt_number") {
        JsonField::Number(Some(a)) => *a,
        _ => 0,
    }
}

fn score_groups(cases: &Vec<JsonRecord>, elig: &Vec<bool>) -> (g: GroupScore)
    requires
        elig@.len() == cases@.len(),
    ensures
        g.group_count == gap_groups(cases@, elig@).len(),
        g.improved_at_once == count_upto(
            improved_at_once(cases@, elig@),
            gap_groups(cases@, elig@).len() as int,
        ),
        g.improved_groups == count_upto(
            improved_at_all(cases@, elig@),
            gap_groups(cases@, elig@).len() as int,
        ),
        g.first_attempt_sum == sum_upto(
            first_attempts(cases@, elig@),
            gap_groups(cases@, elig@).len() as int,
        ),
{
    let ghost e = elig@;
    let mut repos: Vec<String> = Vec::new();
    let mut gaps: Vec<String> = Vec::new();
    let mut firsts: Vec<Option<u64>> = Vec::new();
    let mut i: usize = 0;
    while i < cases.len()
        invariant
            i <= cases@.len(),
            e == elig@,
            e.len() == cases@.len(),
            repos@.len() == distinct(group_keys(cases@, e, i as int)).len(),
            gaps@.len() == repos@.len(),
            firsts@.len() == repos@.len(),
            forall|j: int|
                0 <= j < repos@.len() ==> (repos@[j]@, gaps@[j]@) == #[trigger] distinct(
                    group_keys(cases@, e, i as int),
                )[j],
            forall|j: int|
                0 <= j < repos@.len() ==> #[trigger] firsts@[j] == first_improvement(
                    cases@,
                    e,
                    i as int,
                    distinct(group_keys(cases@, e, i as int))[j],
                ),
        decreases cases.len() - i,
    {
        let ghost keys = distinct(group_keys(cases@, e, i as int));
        if elig[i] {
            let r = &cases[i];
            let repo = id_text(r, "repository");
            let gap = id_text(r, "canonical_gap_id");
            let imp = is_improving(r);
            let a = attempt_number_of(r);
            let ghost k = group_key(cases@[i as int]);
            assert(k == (repo@, gap@));
            let mut found = false;
            let mut j: usize = 0;
            while j < firsts.len()
                invariant
                    j <= firsts@.len(),
                    firsts@.len() == repos@.len(),
                    gaps@.len() == repos@.len(),
                    repos@.len() == keys.len(),
                    e == elig@,
                    e.len() == cases@.len(),
                    i < cases@.len(),
                    e[i as int],
                    k == (repo@, gap@),
                    k == group_key(cases@[i as int]),
                    imp == improving(cases@[i as int]),
                    a == attempt_number(cases@[i as int]),
                    forall|q: int| 0 <= q < repos@.len() ==> (repos@[q]@, gaps@[q]@) == #[trigger] keys[q],
                    found == (exists|q: int| 0 <= q < j && #[trigger] keys[q] == k),
                    forall|q: int|
                        0 <= q < j ==> #[trigger] firsts@[q] == first_improvement(
                            cases@,
                            e,
                            i + 1,
                            keys[q],
                        ),
                    forall|q: int|
                        j <= q < firsts@.len() ==> #[trigger] firsts@[q] == first_improvement(
                            cases@,
                            e,
                            i as int,
                            keys[q],
                        ),
                decreases firsts.len() - j,
            {
                let same = str_eq(repos[j].as_str(), repo) && str_eq(gaps[j].as_str(), gap);
                assert(same == (keys[j as int] == k));
                if same {
                    found = true;
                    if imp {
                        let nf = match firsts[j] {
                            None => Some(a),
                            Some(b) => Some(
                                if a < b {
                                    a
                                } else {
                                    b
                                },
                            ),
                        };
                        firsts.set(j, nf);
                    }
                }
                j += 1;
            }
            proof {
                assert(group_keys(cases@, e, i + 1) =~= group_keys(cases@, e, i as int).push(k));
                lemma_distinct_push(group_keys(cases@, e, i as int), k);
            }
            if !found {
                proof {
                    assert(!keys.contains(k));
                    if first_improvement(cases@, e, i as int, k) is Some {
                        lemma_first_needs_group(cases@, e, i as int, k);
                    }
                }
                repos.push(owned(repo));
                gaps.push(owned(gap));
                firsts.push(
                    if imp {
                        Some(a)
                    } else {
                        None
                    },
                );
                assert(keys.push(k)[keys.len() as int] == k);
            } else {
                assert(keys.contains(k));
            }
        } else {
            proof {
                assert(group_keys(cases@, e, i + 1) =~= group_keys(cases@, e, i as int));
                assert forall|j: int| 0 <= j < repos@.len() implies #[trigger] firsts@[j]
                    == first_improvement(cases@, e, i + 1, keys[j]) by {
                    assert(firsts@[j] == first_improvement(cases@, e, i as int, keys[j]));
                }
            }
        }
        i += 1;
    }
    let ghost gs = gap_groups(cases@, e);
    assert(gs == distinct(group_keys(cases@, e, cases@.len() as int)));
    let n = firsts.len();
    let once = |j: usize| -> (b: bool)
        requires
            j < firsts@.len(),
        ensures
            b == (firsts@[j as int] == Some(1u64)),
        {
            match firsts[j] {
                Some(x) => x == 1,
                None => false,
            }
        };
    let improved_at_once_count = count_where(n, once, Ghost(|j: int| firsts@[j] == Some(1u64)));
    let some = |j: usize| -> (b: bool)
        requires
            j < firsts@.len(),
        ensures
            b == (firsts@[j as int] is Some),
        { firsts[j].is_some() };
    let improved = count_where(n, some, Ghost(|j: int| firsts@[j] is Some));
    let mut sum: u128 = 0;
    let mut j: usize = 0;
    while j < n
        invariant
            j <= n,
            n == firsts@.len(),
            sum == sum_upto(
                |q: int|
                    match firsts@[q] {
                        Some(a) => a as nat,
                        None => 0,
                    },
                j as int,
            ),
            sum <= j * 0xffff_ffff_ffff_ffffu64,
        decreases n - j,
    {
        match firsts[j] {
            Some(a) => {
                sum = sum + a as u128;
            },
            None => {},
        }
        j += 1;
    }
    proof {
        assert forall|q: int| 0 <= q < n implies #[trigger] firsts@[q] == group_first(cases@, e, q) by {
        }
        lemma_count_upto_ext(|j: int| firsts@[j] == Some(1u64), improved_at_once(cases@, e), n as int);
        lemma_count_upto_ext(|j: int| firsts@[j] is Some, improved_at_all(cases@, e), n as int);
        lemma_sum_upto_ext(
            |q: int|
                match firsts@[q] {
                    Some(a) => a as nat,
                    None => 0,
                },
            first_attempts(cases@, e),
            n as int,
        );
    }
    GroupScore {
        group_count: n,
        improved_at_once: improved_at_once_count,
        improved_groups: improved,
        first_attempt_sum: sum,
    }
}

// ---------------------------------------------------------------------------
// Repositories seen
// ---------------------------------------------------------------------------

/// The texts of `key` in the records marked valid, among the first `n`.
pub open spec fn texts_where(records: Seq<JsonRecord>, valid: Seq<bool>, key: Seq<char>, n: int) -> Seq<Seq<char>>
    decreases n,
{
    if n <= 0 {
        seq![]
    } else {
        texts_where(records, valid, key, n - 1) + if valid[n - 1] && str_field(records[n - 1], key) is Some {
            seq![str_field(records[n - 1], key)->0]
        } else {
            seq![]
        }
    }
}

fn all_marked(n: usize) -> (v: Vec<bool>)
    ensures
        v@ == Seq::new(n as nat, |j: int| true),
{
    let mut v: Vec<bool> = Vec::new();
    let mut i: usize = 0;
    while i < n
        invariant
            i <= n,
            v@ =~= Seq::new(i as nat, |j: int| true),
        decreases n - i,
    {
        v.push(true);
        i += 1;
    }
    v
}

/// Adds the texts of `key` of the marked records to a distinct list.
fn add_texts(
    out: &mut Vec<String>,
    records: &Vec<JsonRecord>,
    valid: &Vec<bool>,
    key: &str,
    Ghost(seen): Ghost<Seq<Seq<char>>>,
)
    requires
        valid@.len() == records@.len(),
        views(old(out)@) == distinct(seen),
    ensures
        views(final(out)@) == distinct(
            seen + texts_where(records@, valid@, key@, records@.len() as int),
        ),
{
    let mut i: usize = 0;
    assert(seen + texts_where(records@, valid@, key@, 0) =~= seen);
    while i < records.len()
        invariant
            i <= records@.len(),
            valid@.len() == records@.len(),
            views(out@) == distinct(seen + texts_where(records@, valid@, key@, i as int)),
        decreases records.len() - i,
    {
        let ghost t = texts_where(records@, valid@, key@, i as int);
        if valid[i] {
            match get_str(&records[i], key) {
                Some(x) => {
                    proof {
                        assert(seen + texts_where(records@, valid@, key@, i + 1) =~= (seen + t).push(x@));
                        lemma_distinct_push(seen + t, x@);
                    }
                    push_distinct(out, x);
                },
                None => {
                    assert(seen + texts_where(records@, valid@, key@, i + 1) =~= seen + t);
                },
            }
        } else {
            assert(seen + texts_where(records@, valid@, key@, i + 1) =~= seen + t);
        }
        i += 1;
    }
}

// ---------------------------------------------------------------------------
// The report
// ---------------------------------------------------------------------------

/// The fewest authorized repositories a complete report needs.
pub const MIN_REPOSITORIES: usize = 3;

/// The fewest eligible attempts a complete report needs.
pub const MIN_ATTEMPTS: usize = 20;

/// A repair trust corpus, as its report reads it.
pub struct RepairTrustCorpus {
    pub schema_version: Option<String>,
    pub kind: Option<String>,
    /// `authorization.status` when it is a string.
    pub authorization_status: Option<String>,
    /// `authorization.repositories` when it is an array.
    pub authorization_repositories: Option<Vec<JsonRecord>>,
    /// `cases` when it is an array.
    pub cases: Option<Vec<JsonRecord>>,
    pub exclusions: Vec<JsonRecord>,
    pub observations: Vec<JsonRecord>,
}

/// The report's counts, tallies, limitations and validation errors; rates
/// are their numerators over their denominators.
pub struct RepairTrustReport {
    pub threshold_met: bool,
    pub authorization_status: String,
    pub repository_count: usize,
    pub authorized_repository_count: usize,
    pub attempt_count: usize,
    pub eligible_attempt_count: usize,
    pub exclusion_count: usize,
    pub valid_exclusion_count: usize,
    pub observation_count: usize,
    pub valid_observation_count: usize,
    pub duplicate_observation_count: usize,
    pub timeout_observation_count: usize,
    pub observation_classification_counts: Vec<(String, usize)>,
    pub movement_counts: Vec<(String, usize)>,
    pub exclusion_reason_counts: Vec<(String, usize)>,
    pub groups: GroupScore,
    pub limited_attempt_count: usize,
    pub call_presence_attempt_count: usize,
    pub missing_route_fields: Vec<(String, usize)>,
    pub false_actionability_incidents: usize,
    pub known_impossible_recommendations: usize,
    pub parity_failures: usize,
    pub artifact_archaeology_incidents: usize,
    pub limitations: Vec<String>,
    pub validation_errors: Vec<String>,
}

pub open spec fn corpus_repos(c: RepairTrustCorpus) -> Seq<JsonRecord> {
    match c.authorization_repositories {
        Some(v) => v@,
        None => seq![],
    }
}

pub open spec fn corpus_cases(c: RepairTrustCorpus) -> Seq<JsonRecord> {
    match c.cases {
        Some(v) => v@,
        None => seq![],
    }
}

pub open spec fn corpus_authorized(c: RepairTrustCorpus) -> Seq<Seq<char>> {
    authorized_names(corpus_repos(c))
}

pub open spec fn corpus_eligibility(c: RepairTrustCorpus) -> Seq<bool> {
    case_eligibility(corpus_cases(c), corpus_authorized(c))
}

pub open spec fn corpus_case_ids(c: RepairTrustCorpus) -> Seq<Seq<char>> {
    ids_upto(corpus_cases(c), "attempt_id"@, corpus_cases(c).len() as int)
}

pub open spec fn corpus_exclusion_validity(c: RepairTrustCorpus) -> Seq<bool> {
    exclusion_validity(c.exclusions@, corpus_authorized(c), corpus_case_ids(c))
}

pub open spec fn corpus_exclusion_ids(c: RepairTrustCorpus) -> Seq<Seq<char>> {
    valid_ids(
        c.exclusions@,
        corpus_exclusion_validity(c),
        "exclusion_id"@,
        c.exclusions@.len() as int,
    )
}

pub open spec fn corpus_observation_validity(c: RepairTrustCorpus) -> Seq<bool> {
    observation_validity(
        c.observations@,
        corpus_authorized(c),
        heads_table(corpus_repos(c)),
        c.exclusions@,
        corpus_exclusion_ids(c),
    )
}

/// `authorization.status`, or `missing`.
pub open spec fn authorization_status_of(c: RepairTrustCorpus) -> Seq<char> {
    match opt_view(c.authorization_status) {
        Some(s) => s,
        None => "missing"@,
    }
}

pub open spec fn eligible_count(c: RepairTrustCorpus) -> nat {
    count_upto(flag_set(corpus_eligibility(c)), corpus_cases(c).len() as int)
}

/// The corpus-level errors, before any record's.
pub open spec fn header_errors(c: RepairTrustCorpus) -> Seq<Seq<char>> {
    reason_if(opt_view(c.schema_version) != Some("0.1"@), "schema_version must be 0.1"@) + reason_if(
        opt_view(c.kind) != Some("rust_repair_trust_corpus"@),
        "kind must be rust_repair_trust_corpus"@,
    ) + reason_if(
        corpus_repos(c).len() != corpus_authorized(c).len(),
        "every authorization repository requires revision/branch, artifact paths, analysis actions, write policy, and date"@,
    ) + reason_if(
        authorization_status_of(c) != "complete"@,
        "authorization.status must be complete"@,
    ) + reason_if(
        corpus_authorized(c).len() < MIN_REPOSITORIES,
        "at least 3 authorized repositories are required"@,
    ) + reason_if(c.cases is None, "cases must be an array"@)
}

/// The labelled errors of the attempts, exclusions and observations.
pub open spec fn record_errors(c: RepairTrustCorpus) -> Seq<Seq<char>> {
    case_error_lines(corpus_cases(c), corpus_authorized(c), corpus_cases(c).len() as int)
        + exclusion_error_lines(
        c.exclusions@,
        corpus_authorized(c),
        corpus_case_ids(c),
        c.exclusions@.len() as int,
    ) + observation_error_lines(
        c.observations@,
        corpus_authorized(c),
        heads_table(corpus_repos(c)),
        c.exclusions@,
        corpus_exclusion_ids(c),
        c.observations@.len() as int,
    )
}

/// Whether the corpus meets the threshold of a complete report.
pub open spec fn threshold_met(c: RepairTrustCorpus) -> bool {
    &&& authorization_status_of(c) == "complete"@
    &&& corpus_authorized(c).len() >= MIN_REPOSITORIES
    &&& eligible_count(c) >= MIN_ATTEMPTS
    &&& (header_errors(c) + record_errors(c)).len() == 0
}

pub open spec fn report_validation_errors(c: RepairTrustCorpus) -> Seq<Seq<char>> {
    header_errors(c) + record_errors(c) + reason_if(
        eligible_count(c) < MIN_ATTEMPTS,
        "at least 20 eligible attempts are required"@,
    )
}

pub open spec fn report_limitations(c: RepairTrustCorpus) -> Seq<Seq<char>> {
    reason_if(authorization_status_of(c) != "complete"@, "authorization_missing"@) + reason_if(
        corpus_authorized(c).len() < MIN_REPOSITORIES,
        "fewer_than_three_authorized_repositories"@,
    ) + reason_if(eligible_count(c) < MIN_ATTEMPTS, "fewer_than_twenty_eligible_attempts"@)
        + reason_if(eligible_count(c) == 0, "no_real_rust_attempts_recorded"@)
}

/// Every repository that an attempt names, or a valid exclusion or
/// observation.
pub open spec fn repository_mentions(c: RepairTrustCorpus) -> Seq<Seq<char>> {
    texts_where(
        corpus_cases(c),
        Seq::new(corpus_cases(c).len(), |j: int| true),
        "repository"@,
        corpus_cases(c).len() as int,
    ) + texts_where(
        c.exclusions@,
        corpus_exclusion_validity(c),
        "repository"@,
        c.exclusions@.len() as int,
    ) + texts_where(
        c.observations@,
        corpus_observation_validity(c),
        "repository"@,
        c.observations@.len() as int,
    )
}

/// The valid duplicate observations of a timeout.
pub open spec fn duplicate_timeouts(observations: Seq<JsonRecord>, valid: Seq<bool>) -> spec_fn(int) -> bool {
    |k: int|
        valid[k] && str_field(observations[k], "classification"@) == Some("duplicate_observation"@)
            && str_field(observations[k], "reason"@) == Some("analysis_timeout"@)
}

/// How many valid records hold each text under `key`.
pub open spec fn text_tally(records: Seq<JsonRecord>, valid: Seq<bool>, key: Seq<char>) -> spec_fn(Seq<char>) -> nat {
    |w: Seq<char>| count_upto(valid_with_text(records, valid, key, w), records.len() as int)
}

/// How many records lack each field.
pub open spec fn missing_tally(records: Seq<JsonRecord>) -> spec_fn(Seq<char>) -> nat {
    |w: Seq<char>| count_upto(missing_text(records, w), records.len() as int)
}

pub open spec fn sorted_classifications() -> Seq<Seq<char>> {
    seq!["duplicate_observation"@, "new_exclusion"@]
}

pub open spec fn sorted_exclusion_reasons() -> Seq<Seq<char>> {
    seq![
        "analysis_timeout"@,
        "diff_scope_oversized"@,
        "false_actionability"@,
        "no_current_behavior_change"@,
        "production_test_path_rejected"@,
        "static_limitation_no_repair_packet"@,
        "verification_failed"@,
    ]
}

pub open spec fn sorted_route_fields() -> Seq<Seq<char>> {
    seq![
        "after_receipt"@,
        "analyzed_head_sha"@,
        "attempt_id"@,
        "before_receipt"@,
        "canonical_gap_id"@,
        "changed_behavior"@,
        "claim_boundary"@,
        "file_line"@,
        "focused_test_intent"@,
        "inspection_command"@,
        "missing_discriminator"@,
        "receipt_command"@,
        "related_test_or_production_caller"@,
        "repair_intent"@,
        "repository"@,
        "seam_id"@,
        "targeted_rerun_command"@,
        "verification_command"@,
        "verification_result"@,
    ]
}

proof fn lemma_count_upto_mono(p: spec_fn(int) -> bool, q: spec_fn(int) -> bool, n: int)
    requires
        forall|j: int| 0 <= j < n && #[trigger] p(j) ==> q(j),
    ensures
        count_upto(p, n) <= count_upto(q, n),
    decreases n,
{
    if n > 0 {
        lemma_count_upto_mono(p, q, n - 1);
    }
}

fn count_duplicate_timeouts(observations: &Vec<JsonRecord>, valid: &Vec<bool>) -> (c: usize)
    requires
        valid@.len() == observations@.len(),
    ensures
        c == count_upto(duplicate_timeouts(observations@, valid@), observations@.len() as int),
{
    let f = |k: usize| -> (b: bool)
        requires
            k < observations@.len(),
            valid@.len() == observations@.len(),
        ensures
            b == (valid@[k as int] && str_field(observations@[k as int], "classification"@) == Some(
                "duplicate_observation"@,
            ) && str_field(observations@[k as int], "reason"@) == Some("analysis_timeout"@)),
        {
            valid[k] && match get_str(&observations[k], "classification") {
                Some(t) => str_eq(t, "duplicate_observation"),
                None => false,
            } && match get_str(&observations[k], "reason") {
                Some(t) => str_eq(t, "analysis_timeout"),
                None => false,
            }
        };
    count_where(observations.len(), f, Ghost(duplicate_timeouts(observations@, valid@)))
}

fn text_is(o: &Option<String>, value: &str) -> (b: bool)
    ensures
        b == (opt_view(*o) == Some(value@)),
{
    match o {
        Some(s) => str_eq(s.as_str(), value),
        None => false,
    }
}

fn header_error_list(c: &RepairTrustCorpus, auth: &AuthorizationSummary, complete: bool) -> (errors: Vec<String>)
    requires
        auth.entry_count == corpus_repos(*c).len(),
        views(auth.authorized@) == corpus_authorized(*c),
        complete == (authorization_status_of(*c) == "complete"@),
    ensures
        views(errors@) == header_errors(*c),
{
    let mut errors: Vec<String> = Vec::new();
    push_when(&mut errors, !text_is(&c.schema_version, "0.1"), owned("schema_version must be 0.1"));
    push_when(
        &mut errors,
        !text_is(&c.kind, "rust_repair_trust_corpus"),
        owned("kind must be rust_repair_trust_corpus"),
    );
    push_when(
        &mut errors,
        auth.entry_count != auth.authorized.len(),
        owned(
            "every authorization repository requires revision/branch, artifact paths, analysis actions, write policy, and date",
        ),
    );
    push_when(&mut errors, !complete, owned("authorization.status must be complete"));
    push_when(
        &mut errors,
        auth.authorized.len() < MIN_REPOSITORIES,
        owned("at least 3 authorized repositories are required"),
    );
    push_when(&mut errors, c.cases.is_none(), owned("cases must be an array"));
    assert(views(errors@) =~= header_errors(*c));
    errors
}

/// The three record passes of a corpus.
pub struct CorpusPasses {
    pub cases: RecordPass,
    pub exclusions: RecordPass,
    pub observations: RecordPass,
}

fn run_passes(c: &RepairTrustCorpus, cases: &Vec<JsonRecord>, auth: &AuthorizationSummary) -> (p: CorpusPasses)
    requires
        cases@ == corpus_cases(*c),
        views(auth.authorized@) == corpus_authorized(*c),
        heads_fn(auth.heads@) == heads_table(corpus_repos(*c)),
    ensures
        p.cases.valid@ == corpus_eligibility(*c),
        p.exclusions.valid@ == corpus_exclusion_validity(*c),
        p.observations.valid@ == corpus_observation_validity(*c),
        views(p.cases.errors@) + views(p.exclusions.errors@) + views(p.observations.errors@)
            == record_errors(*c),
{
    let case_pass = check_cases(cases, &auth.authorized);
    let exclusion_pass = check_exclusions(&c.exclusions, &auth.authorized, &case_pass.ids);
    let observation_pass = check_observations(
        &c.observations,
        &auth.authorized,
        &auth.heads,
        &c.exclusions,
        &exclusion_pass.ids,
    );
    CorpusPasses { cases: case_pass, exclusions: exclusion_pass, observations: observation_pass }
}

fn limitation_list(complete: bool, authorized: usize, eligible: usize) -> (v: Vec<String>)
    ensures
        views(v@) == reason_if(!complete, "authorization_missing"@) + reason_if(
            authorized < MIN_REPOSITORIES,
            "fewer_than_three_authorized_repositories"@,
        ) + reason_if(eligible < MIN_ATTEMPTS, "fewer_than_twenty_eligible_attempts"@) + reason_if(
            eligible == 0,
            "no_real_rust_attempts_recorded"@,
        ),
{
    let mut limitations: Vec<String> = Vec::new();
    push_when(&mut limitations, !complete, owned("authorization_missing"));
    push_when(
        &mut limitations,
        authorized < MIN_REPOSITORIES,
        owned("fewer_than_three_authorized_repositories"),
    );
    push_when(
        &mut limitations,
        eligible < MIN_ATTEMPTS,
        owned("fewer_than_twenty_eligible_attempts"),
    );
    push_when(&mut limitations, eligible == 0, owned("no_real_rust_attempts_recorded"));
    limitations
}

fn count_repositories(c: &RepairTrustCorpus, cases: &Vec<JsonRecord>, p: &CorpusPasses) -> (n: usize)
    requires
        cases@ == corpus_cases(*c),
        p.exclusions.valid@ == corpus_exclusion_validity(*c),
        p.observations.valid@ == corpus_observation_validity(*c),
        p.exclusions.valid@.len() == c.exclusions@.len(),
        p.observations.valid@.len() == c.observations@.len(),
    ensures
        n == distinct(repository_mentions(*c)).len(),
{
    let mut repositories: Vec<String> = Vec::new();
    let every_case = all_marked(cases.len());
    assert(views(repositories@) =~= distinct(Seq::<Seq<char>>::empty()));
    add_texts(&mut repositories, cases, &every_case, "repository", Ghost(Seq::empty()));
    let ghost after_cases = Seq::<Seq<char>>::empty() + texts_where(
        cases@,
        every_case@,
        "repository"@,
        cases@.len() as int,
    );
    add_texts(&mut repositories, &c.exclusions, &p.exclusions.valid, "repository", Ghost(after_cases));
    let ghost after_exclusions = after_cases + texts_where(
        c.exclusions@,
        p.exclusions.valid@,
        "repository"@,
        c.exclusions@.len() as int,
    );
    add_texts(
        &mut repositories,
        &c.observations,
        &p.observations.valid,
        "repository",
        Ghost(after_exclusions),
    );
    assert(after_exclusions + texts_where(
        c.observations@,
        p.observations.valid@,
        "repository"@,
        c.observations@.len() as int,
    ) =~= repository_mentions(*c));
    repositories.len()
}

/// The exclusion and observation counts of a report.
pub struct EvidenceTally {
    pub valid_exclusions: usize,
    pub valid_observations: usize,
    pub new_exclusions: usize,
    pub duplicates: usize,
    pub timeouts: usize,
    pub classification_counts: Vec<(String, usize)>,
    pub reason_counts: Vec<(String, usize)>,
}

fn tally_evidence(
    exclusions: &Vec<JsonRecord>,
    xvalid: &Vec<bool>,
    observations: &Vec<JsonRecord>,
    ovalid: &Vec<bool>,
) -> (t: EvidenceTally)
    requires
        xvalid@.len() == exclusions@.len(),
        ovalid@.len() == observations@.len(),
        exclusions@.len() + observations@.len() <= usize::MAX,
    ensures
        t.valid_exclusions == count_upto(flag_set(xvalid@), exclusions@.len() as int),
        t.valid_observations == count_upto(flag_set(ovalid@), observations@.len() as int),
        t.new_exclusions == count_upto(
            valid_with_text(observations@, ovalid@, "classification"@, "new_exclusion"@),
            observations@.len() as int,
        ),
        t.new_exclusions <= t.valid_observations,
        t.valid_exclusions + t.valid_observations <= usize::MAX,
        t.duplicates == count_upto(
            valid_with_text(observations@, ovalid@, "classification"@, "duplicate_observation"@),
            observations@.len() as int,
        ),
        t.timeouts == count_upto(
            valid_with_text(exclusions@, xvalid@, "reason"@, "analysis_timeout"@),
            exclusions@.len() as int,
        ) + count_upto(duplicate_timeouts(observations@, ovalid@), observations@.len() as int),
        pairs_view(t.classification_counts@) == word_counts(
            sorted_classifications(),
            text_tally(observations@, ovalid@, "classification"@),
            false,
        ),
        pairs_view(t.reason_counts@) == word_counts(
            sorted_exclusion_reasons(),
            text_tally(exclusions@, xvalid@, "reason"@),
            false,
        ),
{
    let valid_exclusions = count_flags(xvalid);
    let valid_observations = count_flags(ovalid);
    let new_exclusions = count_with_text(observations, ovalid, "classification", "new_exclusion");
    let duplicates = count_with_text(observations, ovalid, "classification", "duplicate_observation");
    let timeout_exclusions = count_with_text(exclusions, xvalid, "reason", "analysis_timeout");
    let duplicate_timeouts_count = count_duplicate_timeouts(observations, ovalid);
    proof {
        lemma_count_upto_le(flag_set(xvalid@), exclusions@.len() as int);
        lemma_count_upto_le(flag_set(ovalid@), observations@.len() as int);
        lemma_count_upto_mono(
            valid_with_text(observations@, ovalid@, "classification"@, "new_exclusion"@),
            flag_set(ovalid@),
            observations@.len() as int,
        );
        lemma_count_upto_mono(
            valid_with_text(exclusions@, xvalid@, "reason"@, "analysis_timeout"@),
            flag_set(xvalid@),
            exclusions@.len() as int,
        );
        lemma_count_upto_le(duplicate_timeouts(observations@, ovalid@), observations@.len() as int);
    }
    let class_words = vec!["duplicate_observation", "new_exclusion"];
    assert(words_view(class_words@) =~= sorted_classifications());
    let class_count = |w: &str| -> (n: usize)
        ensures
            n == (text_tally(observations@, ovalid@, "classification"@))(w@),
        { count_with_text(observations, ovalid, "classification", w) };
    let classification_counts = tally(
        &class_words,
        class_count,
        false,
        Ghost(text_tally(observations@, ovalid@, "classification"@)),
    );
    let reason_words = vec![
        "analysis_timeout",
        "diff_scope_oversized",
        "false_actionability",
        "no_current_behavior_change",
        "production_test_path_rejected",
        "static_limitation_no_repair_packet",
        "verification_failed",
    ];
    assert(words_view(reason_words@) =~= sorted_exclusion_reasons());
    let reason_count = |w: &str| -> (n: usize)
        ensures
            n == (text_tally(exclusions@, xvalid@, "reason"@))(w@),
        { count_with_text(exclusions, xvalid, "reason", w) };
    let reason_counts = tally(
        &reason_words,
        reason_count,
        false,
        Ghost(text_tally(exclusions@, xvalid@, "reason"@)),
    );
    EvidenceTally {
        valid_exclusions,
        valid_observations,
        new_exclusions,
        duplicates,
        timeouts: timeout_exclusions + duplicate_timeouts_count,
        classification_counts,
        reason_counts,
    }
}

/// The attempt counts of a report.
pub struct AttemptTally {
    pub movement_counts: Vec<(String, usize)>,
    pub missing_route_fields: Vec<(String, usize)>,
    pub groups: GroupScore,
    pub limited: usize,
    pub call_presence: usize,
    pub false_actionability: usize,
    pub known_impossible: usize,
    pub parity: usize,
    pub archaeology: usize,
}

fn tally_attempts(cases: &Vec<JsonRecord>, valid: &Vec<bool>) -> (t: AttemptTally)
    requires
        valid@.len() == cases@.len(),
    ensures
        pairs_view(t.movement_counts@) == word_counts(
            crate::repair_trust::movements(),
            text_tally(cases@, valid@, "movement"@),
            true,
        ),
        pairs_view(t.missing_route_fields@) == word_counts(
            sorted_route_fields(),
            missing_tally(cases@),
            false,
        ),
        t.groups.group_count == gap_groups(cases@, valid@).len(),
        t.groups.improved_at_once == count_upto(
            improved_at_once(cases@, valid@),
            gap_groups(cases@, valid@).len() as int,
        ),
        t.groups.improved_groups == count_upto(
            improved_at_all(cases@, valid@),
            gap_groups(cases@, valid@).len() as int,
        ),
        t.groups.first_attempt_sum == sum_upto(
            first_attempts(cases@, valid@),
            gap_groups(cases@, valid@).len() as int,
        ),
        t.limited == count_upto(valid_limited(cases@, valid@), cases@.len() as int),
        t.call_presence == count_upto(valid_call_presence(cases@, valid@), cases@.len() as int),
        t.false_actionability == count_upto(
            valid_with_flag(cases@, valid@, "false_actionability"@),
            cases@.len() as int,
        ),
        t.known_impossible == count_upto(
            valid_with_flag(cases@, valid@, "known_impossible_recommendation"@),
            cases@.len() as int,
        ),
        t.parity == count_upto(
            valid_with_flag(cases@, valid@, "parity_failure"@),
            cases@.len() as int,
        ),
        t.archaeology == count_upto(
            valid_with_flag(cases@, valid@, "artifact_archaeology"@),
            cases@.len() as int,
        ),
{
    let movement_words = vec!["closed", "improved", "unchanged", "regressed", "limited"];
    assert(words_view(movement_words@) =~= crate::repair_trust::movements());
    let movement_count = |w: &str| -> (n: usize)
        ensures
            n == (text_tally(cases@, valid@, "movement"@))(w@),
        { count_with_text(cases, valid, "movement", w) };
    let movement_counts = tally(
        &movement_words,
        movement_count,
        true,
        Ghost(text_tally(cases@, valid@, "movement"@)),
    );
    let field_words = vec![
        "after_receipt",
        "analyzed_head_sha",
        "attempt_id",
        "before_receipt",
        "canonical_gap_id",
        "changed_behavior",
        "claim_boundary",
        "file_line",
        "focused_test_intent",
        "inspection_command",
        "missing_discriminator",
        "receipt_command",
        "related_test_or_production_caller",
        "repair_intent",
        "repository",
        "seam_id",
        "targeted_rerun_command",
        "verification_command",
        "verification_result",
    ];
    assert(words_view(field_words@) =~= sorted_route_fields());
    let missing_count = |w: &str| -> (n: usize)
        ensures
            n == (missing_tally(cases@))(w@),
        { count_missing(cases, w) };
    let missing_route_fields = tally(&field_words, missing_count, false, Ghost(missing_tally(cases@)));
    AttemptTally {
        movement_counts,
        missing_route_fields,
        groups: score_groups(cases, valid),
        limited: count_limited(cases, valid),
        call_presence: count_call_presence(cases, valid),
        false_actionability: count_with_flag(cases, valid, "false_actionability"),
        known_impossible: count_with_flag(cases, valid, "known_impossible_recommendation"),
        parity: count_with_flag(cases, valid, "parity_failure"),
        archaeology: count_with_flag(cases, valid, "artifact_archaeology"),
    }
}

/// Builds the report of a corpus.
pub fn build_report(c: &RepairTrustCorpus) -> (r: RepairTrustReport)
    requires
        c.exclusions@.len() + c.observations@.len() <= usize::MAX,
    ensures
        r.threshold_met == threshold_met(*c),
        r.authorization_status@ == authorization_status_of(*c),
        r.repository_count == distinct(repository_mentions(*c)).len(),
        r.authorized_repository_count == corpus_authorized(*c).len(),
        r.attempt_count == corpus_cases(*c).len(),
        r.eligible_attempt_count == eligible_count(*c),
        r.exclusion_count == c.exclusions@.len(),
        r.valid_exclusion_count == count_upto(
            flag_set(corpus_exclusion_validity(*c)),
            c.exclusions@.len() as int,
        ),
        r.valid_observation_count == count_upto(
            flag_set(corpus_observation_validity(*c)),
            c.observations@.len() as int,
        ),
        r.observation_count == r.valid_exclusion_count + r.valid_observation_count - count_upto(
            valid_with_text(
                c.observations@,
                corpus_observation_validity(*c),
                "classification"@,
                "new_exclusion"@,
            ),
            c.observations@.len() as int,
        ),
        r.duplicate_observation_count == count_upto(
            valid_with_text(
                c.observations@,
                corpus_observation_validity(*c),
                "classification"@,
                "duplicate_observation"@,
            ),
            c.observations@.len() as int,
        ),
        r.timeout_observation_count == count_upto(
            valid_with_text(
                c.exclusions@,
                corpus_exclusion_validity(*c),
                "reason"@,
                "analysis_timeout"@,
            ),
            c.exclusions@.len() as int,
        ) + count_upto(
            duplicate_timeouts(c.observations@, corpus_observation_validity(*c)),
            c.observations@.len() as int,
        ),
        pairs_view(r.observation_classification_counts@) == word_counts(
            sorted_classifications(),
            text_tally(c.observations@, corpus_observation_validity(*c), "classification"@),
            false,
        ),
        pairs_view(r.movement_counts@) == word_counts(
            crate::repair_trust::movements(),
            text_tally(corpus_cases(*c), corpus_eligibility(*c), "movement"@),
            true,
        ),
        pairs_view(r.exclusion_reason_counts@) == word_counts(
            sorted_exclusion_reasons(),
            text_tally(c.exclusions@, corpus_exclusion_validity(*c), "reason"@),
            false,
        ),
        r.groups.group_count == gap_groups(corpus_cases(*c), corpus_eligibility(*c)).len(),
        r.groups.improved_at_once == count_upto(
            improved_at_once(corpus_cases(*c), corpus_eligibility(*c)),
            gap_groups(corpus_cases(*c), corpus_eligibility(*c)).len() as int,
        ),
        r.groups.improved_groups == count_upto(
            improved_at_all(corpus_cases(*c), corpus_eligibility(*c)),
            gap_groups(corpus_cases(*c), corpus_eligibility(*c)).len() as int,
        ),
        r.groups.first_attempt_sum == sum_upto(
            first_attempts(corpus_cases(*c), corpus_eligibility(*c)),
            gap_groups(corpus_cases(*c), corpus_eligibility(*c)).len() as int,
        ),
        r.limited_attempt_count == count_upto(
            valid_limited(corpus_cases(*c), corpus_eligibility(*c)),
            corpus_cases(*c).len() as int,
        ),
        r.call_presence_attempt_count == count_upto(
            valid_call_presence(corpus_cases(*c), corpus_eligibility(*c)),
            corpus_cases(*c).len() as int,
        ),
        pairs_view(r.missing_route_fields@) == word_counts(
            sorted_route_fields(),
            missing_tally(corpus_cases(*c)),
            false,
        ),
        r.false_actionability_incidents == count_upto(
            valid_with_flag(corpus_cases(*c), corpus_eligibility(*c), "false_actionability"@),
            corpus_cases(*c).len() as int,
        ),
        r.known_impossible_recommendations == count_upto(
            valid_with_flag(
                corpus_cases(*c),
                corpus_eligibility(*c),
                "known_impossible_recommendation"@,
            ),
            corpus_cases(*c).len() as int,
        ),
        r.parity_failures == count_upto(
            valid_with_flag(corpus_cases(*c), corpus_eligibility(*c), "parity_failure"@),
            corpus_cases(*c).len() as int,
        ),
        r.artifact_archaeology_incidents == count_upto(
            valid_with_flag(corpus_cases(*c), corpus_eligibility(*c), "artifact_archaeology"@),
            corpus_cases(*c).len() as int,
        ),
        views(r.limitations@) == report_limitations(*c),
        views(r.validation_errors@) == report_validation_errors(*c),
{
    let no_records: Vec<JsonRecord> = Vec::new();
    let repos = match &c.authorization_repositories {
        Some(v) => v,
        None => &no_records,
    };
    let cases = match &c.cases {
        Some(v) => v,
        None => &no_records,
    };
    assert(repos@ == corpus_repos(*c));
    assert(cases@ == corpus_cases(*c));
    let auth = summarize_authorization(Some(repos));
    let status: &str = match &c.authorization_status {
        Some(s) => s.as_str(),
        None => "missing",
    };
    let complete = str_eq(status, "complete");
    let mut errors = header_error_list(c, &auth, complete);
    let passes = run_passes(c, cases, &auth);
    crate::text::extend_strings(&mut errors, &passes.cases.errors);
    crate::text::extend_strings(&mut errors, &passes.exclusions.errors);
    crate::text::extend_strings(&mut errors, &passes.observations.errors);
    assert(views(errors@) =~= header_errors(*c) + record_errors(*c));
    let eligible = count_flags(&passes.cases.valid);
    let threshold = complete && auth.authorized.len() >= MIN_REPOSITORIES && eligible >= MIN_ATTEMPTS
        && errors.len() == 0;
    push_when(
        &mut errors,
        eligible < MIN_ATTEMPTS,
        owned("at least 20 eligible attempts are required"),
    );
    let limitations = limitation_list(complete, auth.authorized.len(), eligible);
    let repository_count = count_repositories(c, cases, &passes);
    let evidence = tally_evidence(
        &c.exclusions,
        &passes.exclusions.valid,
        &c.observations,
        &passes.observations.valid,
    );
    let attempts = tally_attempts(cases, &passes.cases.valid);
    RepairTrustReport {
        threshold_met: threshold,
        authorization_status: owned(status),
        repository_count,
        authorized_repository_count: auth.authorized.len(),
        attempt_count: cases.len(),
        eligible_attempt_count: eligible,
        exclusion_count: c.exclusions.len(),
        valid_exclusion_count: evidence.valid_exclusions,
        observation_count: evidence.valid_exclusions + (evidence.valid_observations
            - evidence.new_exclusions),
        valid_observation_count: evidence.valid_observations,
        duplicate_observation_count: evidence.duplicates,
        timeout_observation_count: evidence.timeouts,
        observation_classification_counts: evidence.classification_counts,
        movement_counts: attempts.movement_counts,
        exclusion_reason_counts: evidence.reason_counts,
        groups: attempts.groups,
        limited_attempt_count: attempts.limited,
        call_presence_attempt_count: attempts.call_presence,
        missing_route_fields: attempts.missing_route_fields,
        false_actionability_incidents: attempts.false_actionability,
        known_impossible_recommendations: attempts.known_impossible,
        parity_failures: attempts.parity,
        artifact_archaeology_incidents: attempts.archaeology,
        limitations,
        validation_errors: errors,
    }
}

// ---------------------------------------------------------------------------
// Markdown
// ---------------------------------------------------------------------------

/// `pre + word + mid + count + post` for each counted word.
pub open spec fn pair_texts(
    pairs: Seq<(Seq<char>, nat)>,
    pre: Seq<char>,
    mid: Seq<char>,
    post: Seq<char>,
) -> Seq<Seq<char>> {
    pairs.map_values(|p: (Seq<char>, nat)| pre + p.0 + mid + decimal(p.1) + post)
}

pub open spec fn status_word(r: RepairTrustReport) -> Seq<char> {
    if r.threshold_met {
        "complete"@
    } else {
        "limited"@
    }
}

pub open spec fn run_status_word(r: RepairTrustReport) -> Seq<char> {
    if r.threshold_met {
        "full"@
    } else {
        "limited_incomplete_input"@
    }
}

pub open spec fn md_head(r: RepairTrustReport) -> Seq<char> {
    "# Rust repair trust report\n\nStatus: `"@ + status_word(r) + "`\nRun status: `"@
        + run_status_word(r) + "`\n\n"@
}

pub open spec fn md_supplied(r: RepairTrustReport) -> Seq<char> {
    "## Denominators\n\n- Attempts supplied: "@ + decimal(r.attempt_count as nat)
        + "\n- Eligible attempts: "@ + decimal(r.eligible_attempt_count as nat)
        + "\n- Observed runs: "@ + decimal(r.observation_count as nat)
        + "\n- Exclusions supplied: "@ + decimal(r.exclusion_count as nat)
}

pub open spec fn md_kept(r: RepairTrustReport) -> Seq<char> {
    "\n- Valid/unique exclusions: "@ + decimal(r.valid_exclusion_count as nat) + " / "@ + decimal(
        r.valid_exclusion_count as nat,
    ) + "\n- Duplicate observations: "@ + decimal(r.duplicate_observation_count as nat)
        + "\n- Timeout observations: "@ + decimal(r.timeout_observation_count as nat)
        + "\n- Repositories supplied: "@ + decimal(r.repository_count as nat)
        + "\n- Authorized repositories: "@ + decimal(r.authorized_repository_count as nat) + "\n\n"@
}

pub open spec fn md_denominators(r: RepairTrustReport) -> Seq<char> {
    md_supplied(r) + md_kept(r)
}

pub open spec fn md_tables(r: RepairTrustReport) -> Seq<char> {
    "## Movement\n\n| Movement | Count |\n| --- | ---: |\n"@ + concat_all(
        pair_texts(pairs_view(r.movement_counts@), "| `"@, "` | "@, " |\n"@),
    ) + "\n## Limitations\n\n"@ + concat_all(wrapped(views(r.limitations@), "- `"@, "`\n"@))
        + "\n## Exclusions\n\n"@ + concat_all(
        pair_texts(pairs_view(r.exclusion_reason_counts@), "- `"@, "`: "@, "\n"@),
    )
}

/// The rate fragment `rate` + "` (" + num + " / " + den + ")".
pub open spec fn rate_fragment(rate: Seq<char>, num: usize, den: usize) -> Seq<char> {
    rate + "` ("@ + decimal(num as nat) + " / "@ + decimal(den as nat) + ")"@
}

pub open spec fn md_rates(
    r: RepairTrustReport,
    one_attempt: Seq<char>,
    limitation: Seq<char>,
    call_presence: Seq<char>,
) -> Seq<char> {
    "\n## Route-quality scorecard\n\n- One-attempt improvement rate: `"@ + rate_fragment(
        one_attempt,
        r.groups.improved_at_once,
        r.groups.group_count,
    ) + "\n- Limitation frequency: `"@ + rate_fragment(
        limitation,
        r.limited_attempt_count,
        r.eligible_attempt_count,
    ) + "\n- CallPresence limitation frequency: `"@ + rate_fragment(
        call_presence,
        r.call_presence_attempt_count,
        r.eligible_attempt_count,
    ) + "\n"@
}

pub open spec fn md_incidents(r: RepairTrustReport) -> Seq<char> {
    "- Repair rounds counted: `"@ + decimal(r.eligible_attempt_count as nat)
        + "`\n- False-actionability incidents: `"@ + decimal(r.false_actionability_incidents as nat)
        + "`\n- Known-impossible recommendations: `"@ + decimal(
        r.known_impossible_recommendations as nat,
    ) + "`\n- Parity failures: `"@ + decimal(r.parity_failures as nat)
        + "`\n- Artifact-archaeology incidents: `"@ + decimal(
        r.artifact_archaeology_incidents as nat,
    ) + "`\n- Missing route fields: "@ + join(
        pair_texts(pairs_view(r.missing_route_fields@), "`"@, "`="@, ""@),
        ", "@,
    ) + "\n"@
}

pub open spec fn md_scorecard(
    r: RepairTrustReport,
    one_attempt: Seq<char>,
    limitation: Seq<char>,
    call_presence: Seq<char>,
) -> Seq<char> {
    md_rates(r, one_attempt, limitation, call_presence) + md_incidents(r)
}

pub open spec fn md_footer() -> Seq<char> {
    "\nThis report is not runtime mutation evidence, coverage evidence, or a correctness proof. Synthetic and preview cases do not satisfy the Rust corpus threshold.\n"@
}

/// The Markdown report; the three rates come already rendered (`N/A` when
/// a rate has no denominator).
pub open spec fn repair_trust_markdown(
    r: RepairTrustReport,
    one_attempt: Seq<char>,
    limitation: Seq<char>,
    call_presence: Seq<char>,
) -> Seq<char> {
    md_head(r) + md_denominators(r) + md_tables(r) + md_scorecard(
        r,
        one_attempt,
        limitation,
        call_presence,
    ) + md_footer()
}

fn push_count(out: &mut String, n: usize)
    ensures
        final(out)@ == old(out)@ + decimal(n as nat),
{
    let t = usize_to_string(n);
    push_str(out, t.as_str());
}

fn pair_lines(pairs: &Vec<(String, usize)>, pre: &str, mid: &str, post: &str) -> (v: Vec<String>)
    ensures
        views(v@) == pair_texts(pairs_view(pairs@), pre@, mid@, post@),
{
    let ghost all = pair_texts(pairs_view(pairs@), pre@, mid@, post@);
    let mut v: Vec<String> = Vec::new();
    let mut i: usize = 0;
    while i < pairs.len()
        invariant
            i <= pairs@.len(),
            all == pair_texts(pairs_view(pairs@), pre@, mid@, post@),
            views(v@) =~= all.take(i as int),
        decreases pairs.len() - i,
    {
        let mut line = owned(pre);
        push_str(&mut line, pairs[i].0.as_str());
        push_str(&mut line, mid);
        push_count(&mut line, pairs[i].1);
        push_str(&mut line, post);
        let ghost before = views(v@);
        v.push(line);
        assert(views(v@) =~= before.push(line@));
        i += 1;
    }
    v
}

fn push_head(out: &mut String, r: &RepairTrustReport)
    ensures
        final(out)@ == old(out)@ + md_head(*r),
{
    let ghost start = out@;
    push_str(out, "# Rust repair trust report\n\nStatus: `");
    push_str(
        out,
        if r.threshold_met {
            "complete"
        } else {
            "limited"
        },
    );
    push_str(out, "`\nRun status: `");
    push_str(
        out,
        if r.threshold_met {
            "full"
        } else {
            "limited_incomplete_input"
        },
    );
    push_str(out, "`\n\n");
    assert(out@ =~= start + md_head(*r));
}

fn push_supplied(out: &mut String, r: &RepairTrustReport)
    ensures
        final(out)@ == old(out)@ + md_supplied(*r),
{
    let ghost start = out@;
    push_str(out, "## Denominators\n\n- Attempts supplied: ");
    push_count(out, r.attempt_count);
    push_str(out, "\n- Eligible attempts: ");
    push_count(out, r.eligible_attempt_count);
    push_str(out, "\n- Observed runs: ");
    push_count(out, r.observation_count);
    push_str(out, "\n- Exclusions supplied: ");
    push_count(out, r.exclusion_count);
    assert(out@ =~= start + md_supplied(*r));
}

fn push_kept(out: &mut String, r: &RepairTrustReport)
    ensures
        final(out)@ == old(out)@ + md_kept(*r),
{
    let ghost start = out@;
    push_str(out, "\n- Valid/unique exclusions: ");
    push_count(out, r.valid_exclusion_count);
    push_str(out, " / ");
    push_count(out, r.valid_exclusion_count);
    push_str(out, "\n- Duplicate observations: ");
    push_count(out, r.duplicate_observation_count);
    push_str(out, "\n- Timeout observations: ");
    push_count(out, r.timeout_observation_count);
    push_str(out, "\n- Repositories supplied: ");
    push_count(out, r.repository_count);
    push_str(out, "\n- Authorized repositories: ");
    push_count(out, r.authorized_repository_count);
    push_str(out, "\n\n");
    assert(out@ =~= start + md_kept(*r));
}

fn push_tables(out: &mut String, r: &RepairTrustReport)
    ensures
        final(out)@ == old(out)@ + md_tables(*r),
{
    let ghost start = out@;
    push_str(out, "## Movement\n\n| Movement | Count |\n| --- | ---: |\n");
    let rows = pair_lines(&r.movement_counts, "| `", "` | ", " |\n");
    crate::text::push_joined(out, &rows, "");
    push_str(out, "\n## Limitations\n\n");
    crate::text::push_wrapped_items(out, &r.limitations, "- `", "`\n");
    push_str(out, "\n## Exclusions\n\n");
    let reasons = pair_lines(&r.exclusion_reason_counts, "- `", "`: ", "\n");
    crate::text::push_joined(out, &reasons, "");
    proof {
        lemma_join_empty_is_concat(views(rows@));
        lemma_join_empty_is_concat(views(reasons@));
    }
    assert(out@ =~= start + md_tables(*r));
}

proof fn lemma_join_empty_is_concat(items: Seq<Seq<char>>)
    ensures
        crate::text::join(items, ""@) == crate::text::concat_all(items),
    decreases items.len(),
{
    reveal_strlit("");
    if items.len() == 1 {
        assert(items.drop_last() =~= Seq::<Seq<char>>::empty());
        assert(crate::text::concat_all(items.drop_last()) =~= Seq::<char>::empty());
        assert(crate::text::concat_all(items) =~= items[0]);
    } else if items.len() > 1 {
        lemma_join_empty_is_concat(items.drop_last());
        assert(crate::text::join(items, ""@) =~= crate::text::join(items.drop_last(), ""@)
            + items.last());
    }
}

fn push_rate(out: &mut String, rate: &str, num: usize, den: usize)
    ensures
        final(out)@ == old(out)@ + rate_fragment(rate@, num, den),
{
    let ghost start = out@;
    push_str(out, rate);
    push_str(out, "` (");
    push_count(out, num);
    push_str(out, " / ");
    push_count(out, den);
    push_str(out, ")");
    assert(out@ =~= start + rate_fragment(rate@, num, den));
}

fn push_rates(
    out: &mut String,
    r: &RepairTrustReport,
    one_attempt: &str,
    limitation: &str,
    call_presence: &str,
)
    ensures
        final(out)@ == old(out)@ + md_rates(*r, one_attempt@, limitation@, call_presence@),
{
    let ghost start = out@;
    push_str(out, "\n## Route-quality scorecard\n\n- One-attempt improvement rate: `");
    push_rate(out, one_attempt, r.groups.improved_at_once, r.groups.group_count);
    push_str(out, "\n- Limitation frequency: `");
    push_rate(out, limitation, r.limited_attempt_count, r.eligible_attempt_count);
    push_str(out, "\n- CallPresence limitation frequency: `");
    push_rate(out, call_presence, r.call_presence_attempt_count, r.eligible_attempt_count);
    push_str(out, "\n");
    assert(out@ =~= start + md_rates(*r, one_attempt@, limitation@, call_presence@));
}

fn push_incidents(out: &mut String, r: &RepairTrustReport)
    ensures
        final(out)@ == old(out)@ + md_incidents(*r),
{
    let ghost start = out@;
    push_str(out, "- Repair rounds counted: `");
    push_count(out, r.eligible_attempt_count);
    push_str(out, "`\n- False-actionability incidents: `");
    push_count(out, r.false_actionability_incidents);
    push_str(out, "`\n- Known-impossible recommendations: `");
    push_count(out, r.known_impossible_recommendations);
    push_str(out, "`\n- Parity failures: `");
    push_count(out, r.parity_failures);
    push_str(out, "`\n- Artifact-archaeology incidents: `");
    push_count(out, r.artifact_archaeology_incidents);
    push_str(out, "`\n- Missing route fields: ");
    let fields = pair_lines(&r.missing_route_fields, "`", "`=", "");
    crate::text::push_joined(out, &fields, ", ");
    push_str(out, "\n");
    assert(out@ =~= start + md_incidents(*r));
}

/// Renders the Markdown report, given the three rates already rendered.
pub fn markdown_report(
    r: &RepairTrustReport,
    one_attempt: &str,
    limitation: &str,
    call_presence: &str,
) -> (md: String)
    ensures
        md@ == repair_trust_markdown(*r, one_attempt@, limitation@, call_presence@),
{
    let mut out = String::new();
    push_head(&mut out, r);
    push_supplied(&mut out, r);
    push_kept(&mut out, r);
    push_tables(&mut out, r);
    push_rates(&mut out, r, one_attempt, limitation, call_presence);
    push_incidents(&mut out, r);
    push_str(
        &mut out,
        "\nThis report is not runtime mutation evidence, coverage evidence, or a correctness proof. Synthetic and preview cases do not satisfy the Rust corpus threshold.\n",
    );
    assert(out@ =~= repair_trust_markdown(*r, one_attempt@, limitation@, call_presence@));
    out
}

// ---------------------------------------------------------------------------
// Laws
// ---------------------------------------------------------------------------

/// A complete report carries no validation error and no limitation, and
/// rests on at least the minimum of eligible attempts and authorized
/// repositories.
pub proof fn law_complete_report_is_clean(c: RepairTrustCorpus)
    requires
        threshold_met(c),
    ensures
        report_validation_errors(c).len() == 0,
        report_limitations(c).len() == 0,
        eligible_count(c) >= MIN_ATTEMPTS,
        corpus_authorized(c).len() >= MIN_REPOSITORIES,
{
}

/// Exclusions and observations never change which attempts are eligible,
/// nor the attempt denominators and the gap groups built on them.
pub proof fn law_evidence_stays_out_of_attempt_denominators(c1: RepairTrustCorpus, c2: RepairTrustCorpus)
    requires
        corpus_cases(c1) == corpus_cases(c2),
        corpus_repos(c1) == corpus_repos(c2),
    ensures
        corpus_eligibility(c1) == corpus_eligibility(c2),
        eligible_count(c1) == eligible_count(c2),
        gap_groups(corpus_cases(c1), corpus_eligibility(c1)) == gap_groups(
            corpus_cases(c2),
            corpus_eligibility(c2),
        ),
{
}

/// Observations never change which exclusions are valid, so repeated
/// observations cannot inflate the unique exclusions or their reasons.
pub proof fn law_observations_leave_exclusions_alone(c1: RepairTrustCorpus, c2: RepairTrustCorpus)
    requires
        corpus_cases(c1) == corpus_cases(c2),
        corpus_repos(c1) == corpus_repos(c2),
        c1.exclusions@ == c2.exclusions@,
    ensures
        corpus_exclusion_validity(c1) == corpus_exclusion_validity(c2),
        count_upto(flag_set(corpus_exclusion_validity(c1)), c1.exclusions@.len() as int) == count_upto(
            flag_set(corpus_exclusion_validity(c2)),
            c2.exclusions@.len() as int,
        ),
        text_tally(c1.exclusions@, corpus_exclusion_validity(c1), "reason"@) == text_tally(
            c2.exclusions@,
            corpus_exclusion_validity(c2),
            "reason"@,
        ),
{
    assert(corpus_case_ids(c1) == corpus_case_ids(c2));
}

proof fn lemma_required_present(r: JsonRecord, keys: Seq<Seq<char>>, n: int, i: int)
    requires
        0 <= i < n <= keys.len(),
        crate::repair_trust::required_string_errors(r, keys, n).len() == 0,
    ensures
        nonempty_str(r, keys[i]),
    decreases n,
{
    if i < n - 1 {
        lemma_required_present(r, keys, n - 1, i);
    }
}

proof fn lemma_valid_observation_parts(c: RepairTrustCorpus, k: int)
    requires
        0 <= k < c.observations@.len(),
        corpus_observation_validity(c)[k],
    ensures
        str_field(c.observations@[k], "repository"@) is Some,
        str_field(c.observations@[k], "analyzed_head_sha"@) is Some,
        observation_errors(
            c.observations@[k],
            corpus_authorized(c),
            heads_table(corpus_repos(c)),
            c.exclusions@,
            corpus_exclusion_ids(c),
        ).len() == 0,
{
    let obs = c.observations@[k];
    let errs = observation_errors(
        obs,
        corpus_authorized(c),
        heads_table(corpus_repos(c)),
        c.exclusions@,
        corpus_exclusion_ids(c),
    );
    let required = crate::repair_trust::required_string_errors(
        obs,
        crate::repair_trust::observation_fields(),
        9,
    );
    assert(required.len() <= errs.len());
    lemma_required_present(obs, crate::repair_trust::observation_fields(), 9, 1);
    lemma_required_present(obs, crate::repair_trust::observation_fields(), 9, 2);
}

/// A valid observation's revision is on its repository's non-empty list of
/// authorized observation heads.
pub proof fn law_valid_observation_has_authorized_head(c: RepairTrustCorpus, k: int)
    requires
        0 <= k < c.observations@.len(),
        corpus_observation_validity(c)[k],
    ensures
        heads_among(
            corpus_repos(c),
            corpus_repos(c).len() as int,
            str_field(c.observations@[k], "repository"@)->0,
        ) matches Some(h) && h.len() > 0 && h.contains(
            str_field(c.observations@[k], "analyzed_head_sha"@)->0,
        ),
{
    lemma_valid_observation_parts(c, k);
}

/// A valid duplicate observation names a valid exclusion.
pub proof fn law_valid_duplicate_names_valid_exclusion(c: RepairTrustCorpus, k: int)
    requires
        0 <= k < c.observations@.len(),
        corpus_observation_validity(c)[k],
        str_field(c.observations@[k], "classification"@) == Some("duplicate_observation"@),
    ensures
        str_field(c.observations@[k], "duplicate_of"@) matches Some(d) && corpus_exclusion_ids(
            c,
        ).contains(d),
{
    lemma_valid_observation_parts(c, k);
}

proof fn lemma_distinct_len<A>(s: Seq<A>)
    ensures
        distinct(s).len() <= s.len(),
    decreases s.len(),
{
    if s.len() > 0 {
        lemma_distinct_len(s.drop_last());
    }
}

proof fn lemma_group_keys_len(cases: Seq<JsonRecord>, elig: Seq<bool>, n: int)
    requires
        0 <= n,
    ensures
        group_keys(cases, elig, n).len() == count_upto(flag_set(elig), n),
    decreases n,
{
    if n > 0 {
        lemma_group_keys_len(cases, elig, n - 1);
    }
}

/// Every numerator stays within its denominator: limited attempts within
/// eligible ones, CallPresence within limited, groups improved at once
/// within groups improved, those within the gap groups, the gap groups
/// within the eligible attempts, and those within the attempts supplied.
pub proof fn law_numerators_within_denominators(c: RepairTrustCorpus)
    ensures
        count_upto(
            valid_limited(corpus_cases(c), corpus_eligibility(c)),
            corpus_cases(c).len() as int,
        ) <= eligible_count(c),
        count_upto(
            valid_call_presence(corpus_cases(c), corpus_eligibility(c)),
            corpus_cases(c).len() as int,
        ) <= count_upto(
            valid_limited(corpus_cases(c), corpus_eligibility(c)),
            corpus_cases(c).len() as int,
        ),
        count_upto(
            improved_at_once(corpus_cases(c), corpus_eligibility(c)),
            gap_groups(corpus_cases(c), corpus_eligibility(c)).len() as int,
        ) <= count_upto(
            improved_at_all(corpus_cases(c), corpus_eligibility(c)),
            gap_groups(corpus_cases(c), corpus_eligibility(c)).len() as int,
        ),
        count_upto(
            improved_at_all(corpus_cases(c), corpus_eligibility(c)),
            gap_groups(corpus_cases(c), corpus_eligibility(c)).len() as int,
        ) <= gap_groups(corpus_cases(c), corpus_eligibility(c)).len(),
        gap_groups(corpus_cases(c), corpus_eligibility(c)).len() <= eligible_count(c),
        eligible_count(c) <= corpus_cases(c).len(),
{
    let cases = corpus_cases(c);
    let e = corpus_eligibility(c);
    let n = cases.len() as int;
    let g = gap_groups(cases, e).len() as int;
    lemma_count_upto_mono(valid_limited(cases, e), flag_set(e), n);
    assert forall|j: int| 0 <= j < n && #[trigger] (valid_call_presence(cases, e))(j) implies (valid_limited(
        cases,
        e,
    ))(j) by {
        assert(filled_array(cases[j], "limitations"@));
    }
    lemma_count_upto_mono(valid_call_presence(cases, e), valid_limited(cases, e), n);
    lemma_count_upto_mono(improved_at_once(cases, e), improved_at_all(cases, e), g);
    lemma_count_upto_le(improved_at_all(cases, e), g);
    lemma_distinct_len(group_keys(cases, e, n));
    lemma_group_keys_len(cases, e, n);
    lemma_count_upto_le(flag_set(e), n);
}

} // verus!

//! Character-level text operations on `str`/`String` with specifications
//! over their `Seq<char>` views.

use vstd::prelude::*;

verus! {

broadcast use vstd::string::group_string_axioms;

// ---------------------------------------------------------------------------
// Specifications
// ---------------------------------------------------------------------------

/// Unicode `White_Space`, the property `char::is_whitespace` tests.
pub open spec fn is_ws(c: char) -> bool {
    let u = c as u32;
    (0x09 <= u && u <= 0x0D) || u == 0x20 || u == 0x85 || u == 0xA0 || u == 0x1680
        || (0x2000 <= u && u <= 0x200A) || u == 0x2028 || u == 0x2029 || u == 0x202F
        || u == 0x205F || u == 0x3000
}

pub open spec fn is_ascii_digit(c: char) -> bool {
    '0' <= c && c <= '9'
}

pub open spec fn is_ascii_alpha(c: char) -> bool {
    ('a' <= c && c <= 'z') || ('A' <= c && c <= 'Z')
}

pub open spec fn is_ascii_alnum(c: char) -> bool {
    is_ascii_digit(c) || is_ascii_alpha(c)
}

pub open spec fn is_ascii_hex(c: char) -> bool {
    is_ascii_digit(c) || ('a' <= c && c <= 'f') || ('A' <= c && c <= 'F')
}

pub open spec fn ascii_lower(c: char) -> char {
    if 'A' <= c && c <= 'Z' {
        ((c as u32) + 32) as char
    } else {
        c
    }
}

/// `s` with leading whitespace removed (`str::trim_start`).
pub open spec fn trim_start(s: Seq<char>) -> Seq<char>
    decreases s.len(),
{
    if s.len() > 0 && is_ws(s[0]) {
        trim_start(s.drop_first())
    } else {
        s
    }
}

/// `s` with trailing whitespace removed (`str::trim_end`).
pub open spec fn trim_end(s: Seq<char>) -> Seq<char>
    decreases s.len(),
{
    if s.len() > 0 && is_ws(s.last()) {
        trim_end(s.drop_last())
    } else {
        s
    }
}

/// `str::trim`.
pub open spec fn trim(s: Seq<char>) -> Seq<char> {
    trim_end(trim_start(s))
}

/// Whether `s` holds only whitespace (so its trim is empty).
pub open spec fn is_blank(s: Seq<char>) -> bool {
    forall|i: int| 0 <= i < s.len() ==> is_ws(#[trigger] s[i])
}

pub open spec fn starts_with(s: Seq<char>, p: Seq<char>) -> bool {
    p.len() <= s.len() && s.take(p.len() as int) == p
}

pub open spec fn ends_with(s: Seq<char>, p: Seq<char>) -> bool {
    p.len() <= s.len() && s.skip(s.len() - p.len()) == p
}

/// `n` occurs in `h` starting at index `i`.
pub open spec fn occurs_at(h: Seq<char>, n: Seq<char>, i: int) -> bool {
    0 <= i && i + n.len() <= h.len() && h.subrange(i, i + n.len()) == n
}

/// `str::contains` with a string pattern.
pub open spec fn contains(h: Seq<char>, n: Seq<char>) -> bool {
    exists|i: int| occurs_at(h, n, i)
}

/// The leftmost position at which `n` occurs in `h`, if any.
pub open spec fn first_match(h: Seq<char>, n: Seq<char>) -> Option<int>
    decreases h.len(),
{
    if n.len() > h.len() {
        None
    } else if h.take(n.len() as int) == n {
        Some(0)
    } else if h.len() == 0 {
        None
    } else {
        match first_match(h.drop_first(), n) {
            Some(i) => Some(i + 1),
            None => None,
        }
    }
}

/// Number of leftmost non-overlapping matches of `n` in `h`
/// (`h.matches(n).count()`); an empty pattern matches at every char boundary.
pub open spec fn match_count(h: Seq<char>, n: Seq<char>) -> nat
    decreases h.len(),
{
    if n.len() == 0 {
        h.len() + 1
    } else if n.len() > h.len() {
        0
    } else if h.take(n.len() as int) == n {
        1 + match_count(h.skip(n.len() as int), n)
    } else {
        match_count(h.drop_first(), n)
    }
}

/// `str::replace` for a non-empty pattern: every leftmost non-overlapping
/// match of `n` is replaced by `t`.
pub open spec fn replace_all(h: Seq<char>, n: Seq<char>, t: Seq<char>) -> Seq<char>
    decreases h.len(),
{
    if n.len() == 0 || n.len() > h.len() {
        h
    } else if h.take(n.len() as int) == n {
        t + replace_all(h.skip(n.len() as int), n, t)
    } else {
        seq![h[0]] + replace_all(h.drop_first(), n, t)
    }
}

/// `str::replacen(n, t, 1)` for a non-empty pattern.
pub open spec fn replace_first(h: Seq<char>, n: Seq<char>, t: Seq<char>) -> Seq<char> {
    match first_match(h, n) {
        Some(i) => h.take(i) + t + h.skip(i + n.len()),
        None => h,
    }
}

/// Index of the first `c` in `s`, or `s.len()` when there is none.
pub open spec fn char_index(s: Seq<char>, c: char) -> nat
    decreases s.len(),
{
    if s.len() == 0 {
        0
    } else if s[0] == c {
        0
    } else {
        1 + char_index(s.drop_first(), c)
    }
}

/// `str::split(c)` for a single character: the pieces between occurrences.
pub open spec fn split_char(s: Seq<char>, c: char) -> Seq<Seq<char>>
    decreases s.len(),
{
    let k = char_index(s, c);
    if k >= s.len() {
        seq![s]
    } else {
        seq![s.take(k as int)] + split_char(s.skip(k + 1int), c)
    }
}

/// A line as `str::lines` yields it: a trailing `'\r'` is dropped when the
/// line was ended by `'\n'`.
pub open spec fn line_content(piece: Seq<char>, terminated: bool) -> Seq<char> {
    if terminated && piece.len() > 0 && piece.last() == '\r' {
        piece.drop_last()
    } else {
        piece
    }
}

/// `str::lines`.
pub open spec fn lines(s: Seq<char>) -> Seq<Seq<char>>
    decreases s.len(),
{
    if s.len() == 0 {
        seq![]
    } else {
        let k = char_index(s, '\n');
        if k >= s.len() {
            seq![s]
        } else {
            seq![line_content(s.take(k as int), true)] + lines(s.skip(k + 1int))
        }
    }
}

/// The first line of `s` (`s.lines().next()`), if there is one.
pub open spec fn first_line(s: Seq<char>) -> Option<Seq<char>> {
    if s.len() == 0 {
        None
    } else {
        let k = char_index(s, '\n');
        if k >= s.len() {
            Some(s)
        } else {
            Some(line_content(s.take(k as int), true))
        }
    }
}

pub open spec fn digit_char(d: nat) -> char {
    ((48 + d) as u32) as char
}

/// Decimal rendering of a natural number (`to_string` on unsigned integers).
pub open spec fn decimal(n: nat) -> Seq<char>
    decreases n,
{
    if n < 10 {
        seq![digit_char(n)]
    } else {
        decimal(n / 10).push(digit_char(n % 10))
    }
}

/// Decimal rendering of an integer (`to_string` on signed integers).
pub open spec fn decimal_int(n: int) -> Seq<char> {
    if n < 0 {
        seq!['-'] + decimal((-n) as nat)
    } else {
        decimal(n as nat)
    }
}

/// Lexicographic order on character sequences (the order of `str`'s `<`).
pub open spec fn seq_less(a: Seq<char>, b: Seq<char>) -> bool
    decreases a.len(),
{
    if a.len() == 0 {
        b.len() > 0
    } else if b.len() == 0 {
        false
    } else if a[0] < b[0] {
        true
    } else if a[0] == b[0] {
        seq_less(a.drop_first(), b.drop_first())
    } else {
        false
    }
}

/// No sequence is below itself.
pub proof fn lemma_seq_less_irreflexive(a: Seq<char>)
    ensures
        !seq_less(a, a),
    decreases a.len(),
{
    if a.len() > 0 {
        lemma_seq_less_irreflexive(a.drop_first());
    }
}

/// The order is transitive.
pub proof fn lemma_seq_less_transitive(a: Seq<char>, b: Seq<char>, c: Seq<char>)
    requires
        seq_less(a, b),
        seq_less(b, c),
    ensures
        seq_less(a, c),
    decreases a.len(),
{
    if a.len() > 0 && b.len() > 0 && c.len() > 0 && a[0] == b[0] && b[0] == c[0] {
        lemma_seq_less_transitive(a.drop_first(), b.drop_first(), c.drop_first());
    }
}

/// Two different sequences are ordered one way or the other.
pub proof fn lemma_seq_less_total(a: Seq<char>, b: Seq<char>)
    requires
        a != b,
    ensures
        seq_less(a, b) || seq_less(b, a),
    decreases a.len(),
{
    if a.len() == 0 && b.len() == 0 {
        assert(a =~= b);
    }
    if a.len() > 0 && b.len() > 0 && a[0] == b[0] {
        if a.drop_first() == b.drop_first() {
            assert(a =~= seq![a[0]] + a.drop_first());
            assert(b =~= seq![b[0]] + b.drop_first());
        }
        lemma_seq_less_total(a.drop_first(), b.drop_first());
    }
}

/// The view of an optional owned string.
pub open spec fn opt_view(o: Option<String>) -> Option<Seq<char>> {
    match o {
        Some(s) => Some(s@),
        None => None,
    }
}

/// The view of an optional string slice.
pub open spec fn opt_str_view(o: Option<&str>) -> Option<Seq<char>> {
    match o {
        Some(s) => Some(s@),
        None => None,
    }
}

/// The views of a vector of owned strings.
pub open spec fn views(v: Seq<String>) -> Seq<Seq<char>> {
    v.map_values(|s: String| s@)
}

// ---------------------------------------------------------------------------
// Building strings
// ---------------------------------------------------------------------------

/// Appends one character to a `String`.
#[verifier::external_body]
pub(crate) fn push_char(s: &mut String, c: char)
    ensures
        final(s)@ == old(s)@.push(c),
{
    s.push(c);
}

/// The characters of `s`, in order.
pub fn chars_of(s: &str) -> (v: Vec<char>)
    ensures
        v@ == s@,
{
    let mut v: Vec<char> = Vec::new();
    for c in it: s.chars()
        invariant
            it.seq() == s@,
            v@ == it.seq().take(it.index()),
    {
        v.push(c);
    }
    v
}

/// A `String` holding `v[from..to]`.
pub fn string_from(v: &Vec<char>, from: usize, to: usize) -> (s: String)
    requires
        from <= to <= v@.len(),
    ensures
        s@ == v@.subrange(from as int, to as int),
{
    let mut s = String::new();
    let mut i = from;
    while i < to
        invariant
            from <= i <= to <= v@.len(),
            s@ == v@.subrange(from as int, i as int),
        decreases to - i,
    {
        push_char(&mut s, v[i]);
        assert(v@.subrange(from as int, i + 1) == v@.subrange(from as int, i as int).push(v@[i as int]));
        i += 1;
    }
    s
}

/// A `String` holding all of `v`.
pub fn string_of(v: &Vec<char>) -> (s: String)
    ensures
        s@ == v@,
{
    let s = string_from(v, 0, v.len());
    assert(v@.subrange(0, v@.len() as int) == v@);
    s
}

/// An owned copy of `s`.
pub fn owned(s: &str) -> (r: String)
    ensures
        r@ == s@,
{
    let v = chars_of(s);
    string_of(&v)
}

/// Appends the text `t` to `s`.
pub fn push_str(s: &mut String, t: &str)
    ensures
        final(s)@ == old(s)@ + t@,
{
    let v = chars_of(t);
    let mut i: usize = 0;
    while i < v.len()
        invariant
            v@ == t@,
            i <= v@.len(),
            s@ == old(s)@ + v@.take(i as int),
        decreases v.len() - i,
    {
        push_char(s, v[i]);
        assert(v@.take(i + 1) == v@.take(i as int).push(v@[i as int]));
        i += 1;
    }
    assert(v@.take(v@.len() as int) == v@);
}

/// `a` followed by `b`.
pub fn concat(a: &str, b: &str) -> (r: String)
    ensures
        r@ == a@ + b@,
{
    let mut r = owned(a);
    push_str(&mut r, b);
    r
}

/// `a`, `b`, `c` in order.
pub fn concat3(a: &str, b: &str, c: &str) -> (r: String)
    ensures
        r@ == a@ + b@ + c@,
{
    let mut r = owned(a);
    push_str(&mut r, b);
    push_str(&mut r, c);
    r
}

fn push_decimal(s: &mut String, n: u64)
    ensures
        final(s)@ == old(s)@ + decimal(n as nat),
    decreases n,
{
    if n >= 10 {
        push_decimal(s, n / 10);
    }
    let d = (n % 10) as u8;
    let c = (48u8 + d) as char;
    assert(c == digit_char((n % 10) as nat));
    push_char(s, c);
    if n < 10 {
        assert(decimal(n as nat) == seq![digit_char(n as nat)]);
    }
}

/// Decimal rendering of an unsigned integer.
pub fn u64_to_string(n: u64) -> (s: String)
    ensures
        s@ == decimal(n as nat),
{
    let mut s = String::new();
    push_decimal(&mut s, n);
    s
}

/// Decimal rendering of a `usize`.
pub fn usize_to_string(n: usize) -> (s: String)
    ensures
        s@ == decimal(n as nat),
{
    u64_to_string(n as u64)
}

/// Decimal rendering of an `i32`, with a leading `-` when negative.
pub fn i32_to_string(n: i32) -> (s: String)
    ensures
        s@ == decimal_int(n as int),
{
    let mut s = String::new();
    if n < 0 {
        push_char(&mut s, '-');
        let m: i64 = -(n as i64);
        push_decimal(&mut s, m as u64);
    } else {
        push_decimal(&mut s, n as u64);
    }
    s
}

/// Decimal rendering of an `i64`, with a leading `-` when negative.
pub fn i64_to_string(n: i64) -> (s: String)
    ensures
        s@ == decimal_int(n as int),
{
    let mut s = String::new();
    if n < 0 {
        push_char(&mut s, '-');
        let m: i128 = -(n as i128);
        push_decimal(&mut s, m as u64);
    } else {
        push_decimal(&mut s, n as u64);
    }
    s
}

/// The `Debug` rendering of a string (`format!("{s:?}")`): the text in
/// double quotes with Rust's escapes.
pub uninterp spec fn debug_quoted(s: Seq<char>) -> Seq<char>;

/// `format!("{s:?}")` for a string slice.
#[verifier::external_body]
pub(crate) fn debug_quote(s: &str) -> (r: String)
    ensures
        r@ == debug_quoted(s@),
{
    format!("{s:?}")
}

// ---------------------------------------------------------------------------
// Comparing and searching
// ---------------------------------------------------------------------------

proof fn lemma_skip_step(h: Seq<char>, n: Seq<char>, i: int)
    requires
        0 <= i < h.len(),
    ensures
        h.skip(i).len() > 0,
        h.skip(i)[0] == h[i],
        h.skip(i).drop_first() == h.skip(i + 1),
        (n.len() <= h.skip(i).len() && h.skip(i).take(n.len() as int) == n) == occurs_at(h, n, i),
        n.len() <= h.skip(i).len() ==> h.skip(i).skip(n.len() as int) == h.skip(i + n.len()),
{
    assert(h.skip(i).drop_first() =~= h.skip(i + 1));
    if n.len() <= h.skip(i).len() {
        assert(h.skip(i).take(n.len() as int) =~= h.subrange(i, i + n.len()));
        assert(h.skip(i).skip(n.len() as int) =~= h.skip(i + n.len()));
    }
}

/// `first_match` is the least index at which the pattern occurs.
pub proof fn lemma_first_match(h: Seq<char>, n: Seq<char>)
    ensures
        first_match(h, n) matches Some(i) ==> occurs_at(h, n, i) && forall|j: int|
            0 <= j < i ==> !occurs_at(h, n, j),
        first_match(h, n) is None ==> forall|j: int| !occurs_at(h, n, j),
    decreases h.len(),
{
    if n.len() > h.len() {
    } else if h.take(n.len() as int) == n {
        assert(h.subrange(0, n.len() as int) =~= h.take(n.len() as int));
    } else if h.len() == 0 {
        assert(h.take(n.len() as int) =~= n);
    } else {
        let t = h.drop_first();
        lemma_first_match(t, n);
        assert(!occurs_at(h, n, 0)) by {
            if occurs_at(h, n, 0) {
                assert(h.subrange(0, n.len() as int) =~= h.take(n.len() as int));
            }
        }
        assert forall|j: int| 0 <= j implies (#[trigger] occurs_at(h, n, j + 1) == occurs_at(t, n, j)) by {
            if 0 <= j && j + 1 + n.len() <= h.len() {
                assert(h.subrange(j + 1, j + 1 + n.len()) =~= t.subrange(j, j + n.len()));
            }
        }
        if first_match(t, n) is None {
            assert forall|j: int| !occurs_at(h, n, j) by {
                if j >= 1 {
                    assert(occurs_at(h, n, (j - 1) + 1) == occurs_at(t, n, j - 1));
                }
            }
        } else {
            let k = first_match(t, n)->0;
            assert(occurs_at(h, n, k + 1) == occurs_at(t, n, k));
            assert forall|j: int| 0 <= j < k + 1 implies !occurs_at(h, n, j) by {
                if j >= 1 {
                    assert(occurs_at(h, n, (j - 1) + 1) == occurs_at(t, n, j - 1));
                }
            }
        }
    }
}

/// Whether `n` occurs in `h` at index `i`.
pub fn occurs_at_exec(h: &Vec<char>, n: &Vec<char>, i: usize) -> (r: bool)
    ensures
        r == occurs_at(h@, n@, i as int),
{
    if i > h.len() || n.len() > h.len() - i {
        return false;
    }
    let mut k: usize = 0;
    while k < n.len()
        invariant
            i + n@.len() <= h@.len(),
            h@.len() == h.len(),
            k <= n@.len(),
            forall|m: int| 0 <= m < k ==> h@[i + m] == n@[m],
        decreases n.len() - k,
    {
        if h[i + k] != n[k] {
            assert(h@.subrange(i as int, i + n@.len())[k as int] != n@[k as int]);
            return false;
        }
        k += 1;
    }
    assert(h@.subrange(i as int, i + n@.len()) =~= n@);
    true
}

/// The first index `>= from` at which `n` occurs in `h`.
pub fn find_from(h: &Vec<char>, n: &Vec<char>, from: usize) -> (r: Option<usize>)
    ensures
        r matches Some(i) ==> from <= i && occurs_at(h@, n@, i as int) && forall|j: int|
            from <= j < i ==> !occurs_at(h@, n@, j),
        r is None ==> forall|j: int| from <= j ==> !occurs_at(h@, n@, j),
{
    let mut i = from;
    while i < h.len()
        invariant
            from <= i,
            forall|j: int| from <= j < i ==> !occurs_at(h@, n@, j),
        decreases h.len() - i,
    {
        if occurs_at_exec(h, n, i) {
            return Some(i);
        }
        i += 1;
    }
    if occurs_at_exec(h, n, i) {
        return Some(i);
    }
    None
}

/// The leftmost index at which `n` occurs in `h`, as `first_match` gives it.
pub fn find_first(h: &Vec<char>, n: &Vec<char>) -> (r: Option<usize>)
    ensures
        match r {
            Some(i) => first_match(h@, n@) == Some(i as int),
            None => first_match(h@, n@) is None,
        },
{
    proof {
        lemma_first_match(h@, n@);
    }
    match find_from(h, n, 0) {
        Some(i) => {
            proof {
                if first_match(h@, n@) is None {
                    assert(!occurs_at(h@, n@, i as int));
                } else {
                    let k = first_match(h@, n@)->0;
                    assert(!(k < i) && !(i < k));
                }
            }
            Some(i)
        },
        None => {
            proof {
                if first_match(h@, n@) is Some {
                    let k = first_match(h@, n@)->0;
                    assert(occurs_at(h@, n@, k));
                }
            }
            None
        },
    }
}

/// Whether the two character sequences are equal.
pub fn chars_eq(a: &Vec<char>, b: &Vec<char>) -> (r: bool)
    ensures
        r == (a@ == b@),
{
    if a.len() != b.len() {
        return false;
    }
    let r = occurs_at_exec(a, b, 0);
    assert(a@.subrange(0, a@.len() as int) =~= a@);
    r
}

/// `a == b` on string slices.
pub fn str_eq(a: &str, b: &str) -> (r: bool)
    ensures
        r == (a@ == b@),
{
    let va = chars_of(a);
    let vb = chars_of(b);
    chars_eq(&va, &vb)
}

/// `a < b` on string slices: lexicographic order of their characters.
pub fn str_less(a: &str, b: &str) -> (r: bool)
    ensures
        r == seq_less(a@, b@),
{
    let va = chars_of(a);
    let vb = chars_of(b);
    let mut i: usize = 0;
    assert(va@.skip(0) =~= va@);
    assert(vb@.skip(0) =~= vb@);
    while i < va.len() && i < vb.len() && va[i] == vb[i]
        invariant
            i <= va@.len(),
            i <= vb@.len(),
            seq_less(va@.skip(i as int), vb@.skip(i as int)) == seq_less(va@, vb@),
        decreases va.len() - i,
    {
        assert(va@.skip(i as int).drop_first() =~= va@.skip(i + 1));
        assert(vb@.skip(i as int).drop_first() =~= vb@.skip(i + 1));
        i += 1;
    }
    if i == va.len() {
        i < vb.len()
    } else if i == vb.len() {
        false
    } else {
        va[i] < vb[i]
    }
}

/// `h.contains(n)`.
pub fn str_contains(h: &str, n: &str) -> (r: bool)
    ensures
        r == contains(h@, n@),
{
    let vh = chars_of(h);
    let vn = chars_of(n);
    find_from(&vh, &vn, 0).is_some()
}

/// `h.starts_with(p)`.
pub fn str_starts_with(h: &str, p: &str) -> (r: bool)
    ensures
        r == starts_with(h@, p@),
{
    let vh = chars_of(h);
    let vp = chars_of(p);
    let r = occurs_at_exec(&vh, &vp, 0);
    if vp.len() <= vh.len() {
        assert(vh@.subrange(0, vp@.len() as int) =~= vh@.take(vp@.len() as int));
    }
    r
}

/// `h.ends_with(p)`.
pub fn str_ends_with(h: &str, p: &str) -> (r: bool)
    ensures
        r == ends_with(h@, p@),
{
    let vh = chars_of(h);
    let vp = chars_of(p);
    if vp.len() > vh.len() {
        return false;
    }
    let r = occurs_at_exec(&vh, &vp, vh.len() - vp.len());
    assert(vh@.subrange(vh@.len() - vp@.len(), vh@.len() as int) =~= vh@.skip(vh@.len() - vp@.len()));
    r
}

/// `h.strip_prefix(p)`.
pub fn str_strip_prefix(h: &str, p: &str) -> (r: Option<String>)
    ensures
        r is Some == starts_with(h@, p@),
        r matches Some(rest) ==> rest@ == h@.skip(p@.len() as int),
{
    let vh = chars_of(h);
    let vp = chars_of(p);
    if occurs_at_exec(&vh, &vp, 0) {
        assert(vh@.subrange(0, vp@.len() as int) =~= vh@.take(vp@.len() as int));
        let rest = string_from(&vh, vp.len(), vh.len());
        assert(vh@.subrange(vp@.len() as int, vh@.len() as int) =~= vh@.skip(vp@.len() as int));
        Some(rest)
    } else {
        if vp.len() <= vh.len() {
            assert(vh@.subrange(0, vp@.len() as int) =~= vh@.take(vp@.len() as int));
        }
        None
    }
}

/// `h.strip_suffix(p)`.
pub fn str_strip_suffix(h: &str, p: &str) -> (r: Option<String>)
    ensures
        r is Some == ends_with(h@, p@),
        r matches Some(rest) ==> rest@ == h@.take(h@.len() - p@.len()),
{
    let vh = chars_of(h);
    let vp = chars_of(p);
    if vp.len() > vh.len() {
        return None;
    }
    let start = vh.len() - vp.len();
    assert(vh@.subrange(start as int, vh@.len() as int) =~= vh@.skip(start as int));
    if occurs_at_exec(&vh, &vp, start) {
        let rest = string_from(&vh, 0, start);
        assert(vh@.subrange(0, start as int) =~= vh@.take(start as int));
        Some(rest)
    } else {
        None
    }
}

// ---------------------------------------------------------------------------
// Characters, trimming, counting and replacing
// ---------------------------------------------------------------------------

/// `char::is_whitespace`.
pub fn is_ws_exec(c: char) -> (r: bool)
    ensures
        r == is_ws(c),
{
    let u = c as u32;
    (0x09 <= u && u <= 0x0D) || u == 0x20 || u == 0x85 || u == 0xA0 || u == 0x1680 || (0x2000
        <= u && u <= 0x200A) || u == 0x2028 || u == 0x2029 || u == 0x202F || u == 0x205F || u
        == 0x3000
}

/// `char::is_ascii_digit`.
pub fn is_ascii_digit_exec(c: char) -> (r: bool)
    ensures
        r == is_ascii_digit(c),
{
    '0' <= c && c <= '9'
}

/// `char::is_ascii_alphanumeric`.
pub fn is_ascii_alnum_exec(c: char) -> (r: bool)
    ensures
        r == is_ascii_alnum(c),
{
    ('0' <= c && c <= '9') || ('a' <= c && c <= 'z') || ('A' <= c && c <= 'Z')
}

/// `char::is_ascii_hexdigit`.
pub fn is_ascii_hex_exec(c: char) -> (r: bool)
    ensures
        r == is_ascii_hex(c),
{
    ('0' <= c && c <= '9') || ('a' <= c && c <= 'f') || ('A' <= c && c <= 'F')
}

/// `char::to_ascii_lowercase`.
pub fn ascii_lower_exec(c: char) -> (r: char)
    ensures
        r == ascii_lower(c),
{
    if 'A' <= c && c <= 'Z' {
        let u = (c as u32) + 32;
        assert(u == (c as u32) + 32);
        let b = u as u8;
        let r = b as char;
        assert(r == ((c as u32) + 32) as char) by {
            assert(b as u32 == u);
        }
        r
    } else {
        c
    }
}

proof fn lemma_trim_start_skip(s: Seq<char>, k: int)
    requires
        0 <= k <= s.len(),
        forall|i: int| 0 <= i < k ==> is_ws(#[trigger] s[i]),
        k < s.len() ==> !is_ws(s[k]),
    ensures
        trim_start(s) == s.skip(k),
    decreases k,
{
    if k == 0 {
        assert(s.skip(0) =~= s);
    } else {
        let t = s.drop_first();
        assert forall|i: int| 0 <= i < k - 1 implies is_ws(#[trigger] t[i]) by {
            assert(t[i] == s[i + 1]);
        }
        lemma_trim_start_skip(t, k - 1);
        assert(t.skip(k - 1) =~= s.skip(k));
    }
}

proof fn lemma_trim_end_take(s: Seq<char>, e: int)
    requires
        0 <= e <= s.len(),
        forall|i: int| e <= i < s.len() ==> is_ws(#[trigger] s[i]),
        e > 0 ==> !is_ws(s[e - 1]),
    ensures
        trim_end(s) == s.take(e),
    decreases s.len() - e,
{
    if e == s.len() {
        assert(s.take(e) =~= s);
    } else {
        let t = s.drop_last();
        assert forall|i: int| e <= i < t.len() implies is_ws(#[trigger] t[i]) by {
            assert(t[i] == s[i]);
        }
        lemma_trim_end_take(t, e);
        assert(t.take(e) =~= s.take(e));
    }
}

/// `s.trim()` on a character vector: the bounds `(start, end)` of the
/// trimmed range.
pub fn trim_bounds(v: &Vec<char>) -> (r: (usize, usize))
    ensures
        r.0 <= r.1 <= v@.len(),
        v@.subrange(r.0 as int, r.1 as int) == trim(v@),
{
    let mut start: usize = 0;
    while start < v.len() && is_ws_exec(v[start])
        invariant
            start <= v@.len(),
            forall|i: int| 0 <= i < start ==> is_ws(#[trigger] v@[i]),
        decreases v.len() - start,
    {
        start += 1;
    }
    proof {
        lemma_trim_start_skip(v@, start as int);
    }
    let ghost t = v@.skip(start as int);
    let mut end: usize = v.len();
    while end > start && is_ws_exec(v[end - 1])
        invariant
            start <= end <= v@.len(),
            t == v@.skip(start as int),
            forall|i: int| end <= i < v@.len() ==> is_ws(#[trigger] v@[i]),
        decreases end,
    {
        end -= 1;
    }
    proof {
        assert forall|i: int| end - start <= i < t.len() implies is_ws(#[trigger] t[i]) by {
            assert(t[i] == v@[i + start]);
        }
        if end > start {
            assert(t[end - start - 1] == v@[end - 1]);
        }
        lemma_trim_end_take(t, end - start);
        assert(t.take(end - start) =~= v@.subrange(start as int, end as int));
    }
    (start, end)
}

/// `s.trim()`.
pub fn str_trim(s: &str) -> (r: String)
    ensures
        r@ == trim(s@),
{
    let v = chars_of(s);
    let (a, b) = trim_bounds(&v);
    string_from(&v, a, b)
}

/// `s.trim().is_empty()`.
pub fn str_is_blank(s: &str) -> (r: bool)
    ensures
        r == (trim(s@).len() == 0),
{
    let v = chars_of(s);
    let (a, b) = trim_bounds(&v);
    a == b
}

/// `h.matches(n).count()`.
pub fn match_count_exec(h: &Vec<char>, n: &Vec<char>) -> (c: usize)
    requires
        n@.len() > 0 || h@.len() < usize::MAX,
    ensures
        c == match_count(h@, n@),
{
    if n.len() == 0 {
        return h.len() + 1;
    }
    let mut i: usize = 0;
    let mut count: usize = 0;
    assert(h@.skip(0) =~= h@);
    while i < h.len()
        invariant
            n@.len() > 0,
            i <= h@.len(),
            count <= i,
            count + match_count(h@.skip(i as int), n@) == match_count(h@, n@),
        decreases h.len() - i,
    {
        proof {
            lemma_skip_step(h@, n@, i as int);
        }
        if occurs_at_exec(h, n, i) {
            count += 1;
            i += n.len();
        } else {
            i += 1;
        }
    }
    assert(h@.skip(i as int).len() == 0);
    count
}

/// `h.matches(n).count()` on string slices.
pub fn str_match_count(h: &str, n: &str) -> (c: usize)
    requires
        n@.len() > 0 || h@.len() < usize::MAX,
    ensures
        c == match_count(h@, n@),
{
    let vh = chars_of(h);
    let vn = chars_of(n);
    match_count_exec(&vh, &vn)
}

/// `h.replace(n, t)` for a non-empty pattern.
pub fn replace_all_exec(h: &Vec<char>, n: &Vec<char>, t: &Vec<char>) -> (r: Vec<char>)
    requires
        n@.len() > 0,
    ensures
        r@ == replace_all(h@, n@, t@),
{
    let mut out: Vec<char> = Vec::new();
    let mut i: usize = 0;
    assert(h@.skip(0) =~= h@);
    assert(out@ + replace_all(h@, n@, t@) =~= replace_all(h@, n@, t@));
    while i < h.len()
        invariant
            n@.len() > 0,
            i <= h@.len(),
            out@ + replace_all(h@.skip(i as int), n@, t@) == replace_all(h@, n@, t@),
        decreases h.len() - i,
    {
        proof {
            lemma_skip_step(h@, n@, i as int);
        }
        let ghost before = out@;
        if occurs_at_exec(h, n, i) {
            let mut k: usize = 0;
            while k < t.len()
                invariant
                    k <= t@.len(),
                    out@ == before + t@.take(k as int),
                decreases t.len() - k,
            {
                out.push(t[k]);
                assert(t@.take(k + 1) =~= t@.take(k as int).push(t@[k as int]));
                k += 1;
            }
            assert(t@.take(t@.len() as int) =~= t@);
            assert(before + (t@ + replace_all(h@.skip(i + n@.len()), n@, t@)) =~= out@
                + replace_all(h@.skip(i + n@.len()), n@, t@));
            i += n.len();
        } else {
            out.push(h[i]);
            assert(before + (seq![h@[i as int]] + replace_all(h@.skip(i + 1), n@, t@)) =~= out@
                + replace_all(h@.skip(i + 1), n@, t@));
            i += 1;
        }
    }
    assert(h@.skip(i as int).len() == 0);
    assert(out@ + replace_all(h@.skip(i as int), n@, t@) =~= out@);
    out
}

/// `h.replace(n, t)` on string slices, for a non-empty pattern.
pub fn str_replace(h: &str, n: &str, t: &str) -> (r: String)
    requires
        n@.len() > 0,
    ensures
        r@ == replace_all(h@, n@, t@),
{
    let vh = chars_of(h);
    let vn = chars_of(n);
    let vt = chars_of(t);
    let r = replace_all_exec(&vh, &vn, &vt);
    string_of(&r)
}

/// `h.replacen(n, t, 1)` for a non-empty pattern.
pub fn str_replace_first(h: &str, n: &str, t: &str) -> (r: String)
    requires
        n@.len() > 0,
    ensures
        r@ == replace_first(h@, n@, t@),
{
    let vh = chars_of(h);
    let vn = chars_of(n);
    proof {
        lemma_first_match(vh@, vn@);
    }
    match find_from(&vh, &vn, 0) {
        Some(i) => {
            proof {
                if first_match(vh@, vn@) is None {
                    assert(!occurs_at(vh@, vn@, i as int));
                } else {
                    let k = first_match(vh@, vn@)->0;
                    assert(!(k < i) && !(i < k));
                }
            }
            assert(occurs_at(vh@, vn@, i as int));
            assert(i + vn.len() <= vh.len());
            let mut r = string_from(&vh, 0, i);
            push_str(&mut r, t);
            let rest = string_from(&vh, i + vn.len(), vh.len());
            push_str(&mut r, rest.as_str());
            assert(vh@.subrange(0, i as int) =~= vh@.take(i as int));
            assert(vh@.subrange(i + vn@.len(), vh@.len() as int) =~= vh@.skip(i + vn@.len()));
            r
        },
        None => {
            proof {
                if first_match(vh@, vn@) is Some {
                    let k = first_match(vh@, vn@)->0;
                    assert(occurs_at(vh@, vn@, k));
                }
            }
            string_of(&vh)
        },
    }
}

/// The index of the first `c` in `v` at or after `from`, or `v.len()`.
pub fn char_index_from(v: &Vec<char>, c: char, from: usize) -> (k: usize)
    requires
        from <= v@.len(),
    ensures
        from <= k <= v@.len(),
        k == from + char_index(v@.skip(from as int), c),
{
    let mut k = from;
    while k < v.len() && v[k] != c
        invariant
            from <= k <= v@.len(),
            char_index(v@.skip(from as int), c) == (k - from) + char_index(v@.skip(k as int), c),
        decreases v.len() - k,
    {
        assert(v@.skip(k as int).drop_first() =~= v@.skip(k + 1));
        k += 1;
    }
    k
}

proof fn lemma_char_index_skip(v: Seq<char>, c: char, p: int, k: int)
    requires
        0 <= p <= k <= v.len(),
        k == p + char_index(v.skip(p), c),
    ensures
        k < v.len() ==> v[k] == c,
        forall|j: int| p <= j < k ==> v[j] != c,
    decreases k - p,
{
    let t = v.skip(p);
    if t.len() == 0 {
    } else if t[0] == c {
    } else {
        assert(t.drop_first() =~= v.skip(p + 1));
        lemma_char_index_skip(v, c, p + 1, k);
    }
}

/// `s.lines()`, collected.
pub fn split_lines(s: &str) -> (r: Vec<String>)
    ensures
        r@.map_values(|l: String| l@) == lines(s@),
{
    let v = chars_of(s);
    let mut out: Vec<String> = Vec::new();
    let mut p: usize = 0;
    assert(v@.skip(0) =~= v@);
    assert(out@.map_values(|l: String| l@) + lines(v@) =~= lines(v@));
    while p < v.len()
        invariant
            p <= v@.len(),
            v@ == s@,
            out@.map_values(|l: String| l@) + lines(v@.skip(p as int)) == lines(v@),
        decreases v.len() - p,
    {
        let ghost before = out@.map_values(|l: String| l@);
        let ghost t = v@.skip(p as int);
        let k = char_index_from(&v, '\n', p);
        if k == v.len() {
            let line = string_from(&v, p, k);
            assert(line@ =~= t);
            out.push(line);
            assert(out@.map_values(|l: String| l@) =~= before.push(line@));
            assert(lines(t) == seq![t]);
            assert(v@.skip(k as int).len() == 0);
            assert(lines(v@.skip(k as int)) =~= Seq::<Seq<char>>::empty());
            assert(before + seq![t] =~= out@.map_values(|l: String| l@) + lines(v@.skip(k as int)));
            p = k;
        } else {
            let ghost piece = v@.subrange(p as int, k as int);
            let mut end = k;
            if end > p && v[end - 1] == '\r' {
                end = end - 1;
            }
            let line = string_from(&v, p, end);
            assert(t.take(k - p) =~= piece);
            assert(line@ == line_content(piece, true)) by {
                if piece.len() > 0 && piece.last() == '\r' {
                    assert(piece.drop_last() =~= v@.subrange(p as int, end as int));
                }
            }
            out.push(line);
            assert(out@.map_values(|l: String| l@) =~= before.push(line@));
            assert(t.skip(k - p + 1) =~= v@.skip(k + 1));
            assert(lines(t) == seq![line@] + lines(v@.skip(k + 1)));
            assert(before + (seq![line@] + lines(v@.skip(k + 1))) =~= out@.map_values(
                |l: String| l@,
            ) + lines(v@.skip(k + 1)));
            p = k + 1;
        }
    }
    assert(v@.skip(p as int).len() == 0);
    assert(lines(v@.skip(p as int)) =~= Seq::<Seq<char>>::empty());
    assert(out@.map_values(|l: String| l@) + lines(v@.skip(p as int)) =~= out@.map_values(
        |l: String| l@,
    ));
    out
}

/// `s.split_once(c)`: the text before and after the first `c`.
pub fn split_once_char(s: &str, c: char) -> (r: Option<(String, String)>)
    ensures
        r is Some == (char_index(s@, c) < s@.len()),
        r matches Some(parts) ==> parts.0@ == s@.take(char_index(s@, c) as int) && parts.1@
            == s@.skip(char_index(s@, c) + 1int),
{
    let v = chars_of(s);
    let k = char_index_from(&v, c, 0);
    assert(v@.skip(0) =~= v@);
    if k < v.len() {
        let a = string_from(&v, 0, k);
        let b = string_from(&v, k + 1, v.len());
        assert(v@.subrange(0, k as int) =~= v@.take(k as int));
        assert(v@.subrange(k + 1, v@.len() as int) =~= v@.skip(k + 1));
        Some((a, b))
    } else {
        None
    }
}

/// `s.split(c)`, collected.
pub fn split_on_char(s: &str, c: char) -> (r: Vec<String>)
    ensures
        r@.map_values(|l: String| l@) == split_char(s@, c),
{
    let v = chars_of(s);
    let mut out: Vec<String> = Vec::new();
    let mut p: usize = 0;
    assert(v@.skip(0) =~= v@);
    assert(out@.map_values(|l: String| l@) + split_char(v@, c) =~= split_char(v@, c));
    loop
        invariant
            p <= v@.len(),
            v@ == s@,
            out@.map_values(|l: String| l@) + split_char(v@.skip(p as int), c) == split_char(v@, c),
        decreases v.len() - p,
    {
        let ghost before = out@.map_values(|l: String| l@);
        let ghost t = v@.skip(p as int);
        let k = char_index_from(&v, c, p);
        let piece = string_from(&v, p, k);
        assert(k < v.len() ==> t.take(k - p) =~= piece@);
        if k == v.len() {
            assert(piece@ =~= t);
            out.push(piece);
            assert(out@.map_values(|l: String| l@) =~= before.push(t));
            assert(before + seq![t] =~= out@.map_values(|l: String| l@));
            return out;
        }
        out.push(piece);
        assert(out@.map_values(|l: String| l@) =~= before.push(piece@));
        assert(t.skip(k - p + 1) =~= v@.skip(k + 1));
        assert(before + (seq![piece@] + split_char(v@.skip(k + 1), c)) =~= out@.map_values(
            |l: String| l@,
        ) + split_char(v@.skip(k + 1), c));
        p = k + 1;
    }
}

/// Appends copies of every string of `b` to `a`.
pub fn extend_strings(a: &mut Vec<String>, b: &Vec<String>)
    ensures
        views(final(a)@) == views(old(a)@) + views(b@),
{
    let mut i: usize = 0;
    let ghost start = views(a@);
    while i < b.len()
        invariant
            i <= b@.len(),
            views(a@) == start + views(b@).take(i as int),
        decreases b.len() - i,
    {
        let ghost before = a@;
        a.push(owned(b[i].as_str()));
        assert(views(a@) =~= views(before).push(b@[i as int]@));
        assert(views(b@).take(i + 1) =~= views(b@).take(i as int).push(b@[i as int]@));
        i += 1;
    }
    assert(views(b@).take(b@.len() as int) =~= views(b@));
}

// ---------------------------------------------------------------------------
// UTF-8
// ---------------------------------------------------------------------------

/// The UTF-8 encoding of one character.
pub open spec fn utf8_char(c: char) -> Seq<u8> {
    let u = c as u32;
    if u < 0x80 {
        seq![u as u8]
    } else if u < 0x800 {
        seq![(0xC0 + u / 64) as u8, (0x80 + u % 64) as u8]
    } else if u < 0x10000 {
        seq![(0xE0 + u / 4096) as u8, (0x80 + (u / 64) % 64) as u8, (0x80 + u % 64) as u8]
    } else {
        seq![
            (0xF0 + u / 262144) as u8,
            (0x80 + (u / 4096) % 64) as u8,
            (0x80 + (u / 64) % 64) as u8,
            (0x80 + u % 64) as u8,
        ]
    }
}

/// The UTF-8 encoding of a character sequence: the bytes `str::as_bytes`
/// holds.
pub open spec fn utf8(s: Seq<char>) -> Seq<u8>
    decreases s.len(),
{
    if s.len() == 0 {
        seq![]
    } else {
        utf8(s.drop_last()) + utf8_char(s.last())
    }
}

fn push_utf8_char(out: &mut Vec<u8>, c: char)
    ensures
        final(out)@ == old(out)@ + utf8_char(c),
{
    let u = c as u32;
    assert(u <= 0x10FFFF);
    if u < 0x80 {
        out.push(u as u8);
    } else if u < 0x800 {
        out.push((0xC0 + u / 64) as u8);
        out.push((0x80 + u % 64) as u8);
    } else if u < 0x10000 {
        out.push((0xE0 + u / 4096) as u8);
        out.push((0x80 + (u / 64) % 64) as u8);
        out.push((0x80 + u % 64) as u8);
    } else {
        assert(u / 262144 <= 4) by (nonlinear_arith)
            requires
                u <= 0x10FFFF,
        ;
        out.push((0xF0 + u / 262144) as u8);
        out.push((0x80 + (u / 4096) % 64) as u8);
        out.push((0x80 + (u / 64) % 64) as u8);
        out.push((0x80 + u % 64) as u8);
    }
    assert(out@ =~= old(out)@ + utf8_char(c));
}

/// The UTF-8 bytes of `s`.
pub fn utf8_bytes(s: &str) -> (r: Vec<u8>)
    ensures
        r@ == utf8(s@),
{
    let v = chars_of(s);
    let mut out: Vec<u8> = Vec::new();
    let mut i: usize = 0;
    while i < v.len()
        invariant
            v@ == s@,
            i <= v@.len(),
            out@ == utf8(v@.take(i as int)),
        decreases v.len() - i,
    {
        push_utf8_char(&mut out, v[i]);
        assert(v@.take(i + 1).drop_last() =~= v@.take(i as int));
        i += 1;
    }
    assert(v@.take(v@.len() as int) =~= v@);
    out
}

/// The byte offset of character index `k` in the UTF-8 encoding of `v`.
pub fn utf8_offset(v: &Vec<char>, k: usize) -> (r: usize)
    requires
        k <= v@.len(),
    ensures
        r == utf8(v@.take(k as int)).len(),
{
    let prefix = string_from(v, 0, k);
    assert(v@.subrange(0, k as int) =~= v@.take(k as int));
    let bytes = utf8_bytes(prefix.as_str());
    bytes.len()
}

// ---------------------------------------------------------------------------
// Markdown helpers
// ---------------------------------------------------------------------------

/// The concatenation of all parts, in order.
pub open spec fn concat_all(parts: Seq<Seq<char>>) -> Seq<char>
    decreases parts.len(),
{
    if parts.len() == 0 {
        seq![]
    } else {
        concat_all(parts.drop_last()) + parts.last()
    }
}

/// Markdown inline escape: `|` becomes `\|` and a newline becomes a space.
pub open spec fn md_esc(s: Seq<char>) -> Seq<char> {
    replace_all(replace_all(s, "|"@, "\\|"@), "\n"@, " "@)
}

/// `value.replace('|', "\\|").replace('\n', " ")`.
pub fn md_escape(value: &str) -> (r: String)
    ensures
        r@ == md_esc(value@),
{
    proof {
        reveal_strlit("|");
        reveal_strlit("\n");
    }
    let a = str_replace(value, "|", "\\|");
    str_replace(a.as_str(), "\n", " ")
}

/// `prefix + item + suffix` for every item.
pub open spec fn wrapped(items: Seq<Seq<char>>, prefix: Seq<char>, suffix: Seq<char>) -> Seq<Seq<char>> {
    items.map_values(|a: Seq<char>| prefix + a + suffix)
}

/// `prefix + md_esc(item) + suffix` for every item.
pub open spec fn wrapped_md(items: Seq<Seq<char>>, prefix: Seq<char>, suffix: Seq<char>) -> Seq<
    Seq<char>,
> {
    items.map_values(|a: Seq<char>| prefix + md_esc(a) + suffix)
}

/// Appends `prefix + item + suffix` for each item, in order.
pub fn push_wrapped_items(out: &mut String, items: &Vec<String>, prefix: &str, suffix: &str)
    ensures
        final(out)@ == old(out)@ + concat_all(wrapped(views(items@), prefix@, suffix@)),
{
    let ghost all = wrapped(views(items@), prefix@, suffix@);
    let mut i: usize = 0;
    assert(all.take(0) =~= Seq::<Seq<char>>::empty());
    while i < items.len()
        invariant
            i <= items@.len(),
            all == wrapped(views(items@), prefix@, suffix@),
            all.len() == items@.len(),
            out@ == old(out)@ + concat_all(all.take(i as int)),
        decreases items.len() - i,
    {
        push_str(out, prefix);
        push_str(out, items[i].as_str());
        push_str(out, suffix);
        assert(all.take(i + 1).drop_last() =~= all.take(i as int));
        assert(all[i as int] == prefix@ + items@[i as int]@ + suffix@);
        i += 1;
    }
    assert(all.take(items@.len() as int) =~= all);
}

/// Appends `prefix + md_esc(item) + suffix` for each item, in order.
pub fn push_wrapped_md_items(out: &mut String, items: &Vec<String>, prefix: &str, suffix: &str)
    ensures
        final(out)@ == old(out)@ + concat_all(wrapped_md(views(items@), prefix@, suffix@)),
{
    let ghost all = wrapped_md(views(items@), prefix@, suffix@);
    let mut i: usize = 0;
    assert(all.take(0) =~= Seq::<Seq<char>>::empty());
    while i < items.len()
        invariant
            i <= items@.len(),
            all == wrapped_md(views(items@), prefix@, suffix@),
            all.len() == items@.len(),
            out@ == old(out)@ + concat_all(all.take(i as int)),
        decreases items.len() - i,
    {
        push_str(out, prefix);
        let e = md_escape(items[i].as_str());
        push_str(out, e.as_str());
        push_str(out, suffix);
        assert(all.take(i + 1).drop_last() =~= all.take(i as int));
        assert(all[i as int] == prefix@ + md_esc(items@[i as int]@) + suffix@);
        i += 1;
    }
    assert(all.take(items@.len() as int) =~= all);
}

/// The items joined with `sep` between consecutive items.
pub open spec fn join(items: Seq<Seq<char>>, sep: Seq<char>) -> Seq<char>
    decreases items.len(),
{
    if items.len() == 0 {
        seq![]
    } else if items.len() == 1 {
        items[0]
    } else {
        join(items.drop_last(), sep) + sep + items.last()
    }
}

/// Appends the items joined with `sep`.
pub fn push_joined(out: &mut String, items: &Vec<String>, sep: &str)
    ensures
        final(out)@ == old(out)@ + join(views(items@), sep@),
{
    let ghost all = views(items@);
    let mut i: usize = 0;
    assert(all.take(0) =~= Seq::<Seq<char>>::empty());
    while i < items.len()
        invariant
            i <= items@.len(),
            all == views(items@),
            all.len() == items@.len(),
            out@ == old(out)@ + join(all.take(i as int), sep@),
        decreases items.len() - i,
    {
        if i > 0 {
            push_str(out, sep);
        }
        push_str(out, items[i].as_str());
        assert(all.take(i + 1).drop_last() =~= all.take(i as int));
        if i == 0 {
            assert(all.take(1) =~= seq![all[0]]);
        }
        i += 1;
    }
    assert(all.take(items@.len() as int) =~= all);
}

} // verus!

//! A JSON object read one level deep: for each key, what kind of value it
//! holds (with the strings of an array), and the value's canonical JSON
//! text, by which two values are compared.

use vstd::prelude::*;
use crate::text::{str_eq, opt_view};

verus! {

/// What a field holds.
#[derive(Clone, Debug, PartialEq, Eq)]
pub enum JsonField {
    Missing,
    Null,
    Bool(bool),
    /// A number, with its value when it is an unsigned integer.
    Number(Option<u64>),
    Text(String),
    /// An array, with each element's text when the element is a string.
    Array(Vec<Option<String>>),
    Object,
}

/// One key of an object, its value and the value's canonical JSON text.
#[derive(Clone, Debug, PartialEq, Eq)]
pub struct JsonEntry {
    pub key: String,
    pub value: JsonField,
    pub canonical: String,
}

/// An object's entries, in key order, each key once.
#[derive(Clone, Debug, PartialEq, Eq)]
pub struct JsonRecord {
    pub entries: Vec<JsonEntry>,
}

/// The index of the entry for `key` among the first `n` entries.
pub open spec fn entry_index(entries: Seq<JsonEntry>, key: Seq<char>, n: int) -> Option<int>
    decreases n,
{
    if n <= 0 {
        None
    } else {
        match entry_index(entries, key, n - 1) {
            Some(i) => Some(i),
            None => if entries[n - 1].key@ == key {
                Some(n - 1)
            } else {
                None
            },
        }
    }
}

/// The value of `key` (`Missing` when absent).
pub open spec fn field(r: JsonRecord, key: Seq<char>) -> JsonField {
    match entry_index(r.entries@, key, r.entries@.len() as int) {
        Some(i) => r.entries@[i].value,
        None => JsonField::Missing,
    }
}

/// The canonical JSON text of `key`'s value (none when absent).
pub open spec fn canonical(r: JsonRecord, key: Seq<char>) -> Option<Seq<char>> {
    match entry_index(r.entries@, key, r.entries@.len() as int) {
        Some(i) => Some(r.entries@[i].canonical@),
        None => None,
    }
}

pub open spec fn as_str(f: JsonField) -> Option<Seq<char>> {
    match f {
        JsonField::Text(s) => Some(s@),
        _ => None,
    }
}

pub open spec fn as_u64(f: JsonField) -> Option<u64> {
    match f {
        JsonField::Number(n) => n,
        _ => None,
    }
}

pub open spec fn as_bool(f: JsonField) -> Option<bool> {
    match f {
        JsonField::Bool(b) => Some(b),
        _ => None,
    }
}

pub open spec fn as_array(f: JsonField) -> Option<Seq<Option<Seq<char>>>> {
    match f {
        JsonField::Array(items) => Some(items@.map_values(|e: Option<String>| opt_view(e))),
        _ => None,
    }
}

/// The text of `key` when it is a string.
pub open spec fn str_field(r: JsonRecord, key: Seq<char>) -> Option<Seq<char>> {
    as_str(field(r, key))
}

proof fn lemma_entry_index_stable(entries: Seq<JsonEntry>, key: Seq<char>, i: int, n: int)
    requires
        i <= n,
        entry_index(entries, key, i) is Some,
    ensures
        entry_index(entries, key, n) == entry_index(entries, key, i),
    decreases n - i,
{
    if i < n {
        lemma_entry_index_stable(entries, key, i, n - 1);
    }
}

proof fn lemma_entry_index_bound(entries: Seq<JsonEntry>, key: Seq<char>, n: int)
    requires
        entry_index(entries, key, n) is Some,
    ensures
        0 <= entry_index(entries, key, n)->0 < n,
    decreases n,
{
    if entry_index(entries, key, n - 1) is Some {
        lemma_entry_index_bound(entries, key, n - 1);
    }
}

/// The index of `key`'s entry.
pub fn find_entry(r: &JsonRecord, key: &str) -> (idx: Option<usize>)
    ensures
        match entry_index(r.entries@, key@, r.entries@.len() as int) {
            Some(i) => idx is Some && idx->0 as int == i && 0 <= i < r.entries@.len(),
            None => idx is None,
        },
{
    let mut i: usize = 0;
    while i < r.entries.len()
        invariant
            i <= r.entries@.len(),
            entry_index(r.entries@, key@, i as int) is None,
        decreases r.entries.len() - i,
    {
        if str_eq(r.entries[i].key.as_str(), key) {
            proof {
                lemma_entry_index_stable(r.entries@, key@, i + 1, r.entries@.len() as int);
            }
            return Some(i);
        }
        i += 1;
    }
    None
}

/// The value of `key`.
pub fn get_field<'a>(r: &'a JsonRecord, key: &str) -> (f: &'a JsonField)
    ensures
        *f == field(*r, key@),
{
    match find_entry(r, key) {
        Some(i) => &r.entries[i].value,
        None => &JsonField::Missing,
    }
}

/// The text of `key` when it is a string.
pub fn get_str<'a>(r: &'a JsonRecord, key: &str) -> (s: Option<&'a str>)
    ensures
        crate::text::opt_str_view(s) == str_field(*r, key@),
{
    match get_field(r, key) {
        JsonField::Text(s) => Some(s.as_str()),
        _ => None,
    }
}

/// The canonical text of `key`'s value.
pub fn get_canonical<'a>(r: &'a JsonRecord, key: &str) -> (s: Option<&'a str>)
    ensures
        crate::text::opt_str_view(s) == canonical(*r, key@),
{
    match find_entry(r, key) {
        Some(i) => Some(r.entries[i].canonical.as_str()),
        None => None,
    }
}


/// A field as plain values.
pub enum FieldView {
    Missing,
    Null,
    Bool(bool),
    Number(Option<u64>),
    Text(Seq<char>),
    Array(Seq<Option<Seq<char>>>),
    Object,
}

pub open spec fn field_view(f: JsonField) -> FieldView {
    match f {
        JsonField::Missing => FieldView::Missing,
        JsonField::Null => FieldView::Null,
        JsonField::Bool(b) => FieldView::Bool(b),
        JsonField::Number(n) => FieldView::Number(n),
        JsonField::Text(s) => FieldView::Text(s@),
        JsonField::Array(items) => FieldView::Array(items@.map_values(|e: Option<String>| opt_view(e))),
        JsonField::Object => FieldView::Object,
    }
}

/// What a record holds under `key`: the field and its canonical JSON text.
pub open spec fn entry_view(r: JsonRecord, key: Seq<char>) -> (FieldView, Option<Seq<char>>) {
    (field_view(field(r, key)), canonical(r, key))
}

proof fn lemma_entry_index_keys(a: Seq<JsonEntry>, b: Seq<JsonEntry>, key: Seq<char>, n: int)
    requires
        0 <= n <= a.len(),
        n <= b.len(),
        forall|j: int| 0 <= j < n ==> (#[trigger] a[j]).key@ == b[j].key@,
    ensures
        entry_index(a, key, n) == entry_index(b, key, n),
    decreases n,
{
    if n > 0 {
        lemma_entry_index_keys(a, b, key, n - 1);
    }
}

proof fn lemma_entry_index_key(a: Seq<JsonEntry>, key: Seq<char>, n: int)
    requires
        entry_index(a, key, n) is Some,
    ensures
        a[entry_index(a, key, n)->0].key@ == key,
    decreases n,
{
    if entry_index(a, key, n - 1) is Some {
        lemma_entry_index_key(a, key, n - 1);
    }
}

/// Sets `key` to `value` (with its canonical text), replacing the entry of
/// that key or adding one at the end.
pub fn put_entry(r: &mut JsonRecord, key: &str, value: JsonField, canonical_text: String)
    ensures
        forall|k: Seq<char>| #[trigger] entry_view(*final(r), k) == if k == key@ {
            (field_view(value), Some(canonical_text@))
        } else {
            entry_view(*old(r), k)
        },
{
    let ghost old_entries = r.entries@;
    let ghost n = old_entries.len() as int;
    let ghost cv = canonical_text@;
    let ghost fv = field_view(value);
    let entry = JsonEntry { key: crate::text::owned(key), value, canonical: canonical_text };
    match find_entry(r, key) {
        Some(i) => {
            proof {
                lemma_entry_index_key(old_entries, key@, n);
            }
            r.entries.set(i, entry);
            proof {
                let new_entries = r.entries@;
                assert forall|j: int| 0 <= j < n implies (#[trigger] new_entries[j]).key@ == old_entries[j].key@ by {
                    if j == i as int {
                        assert(new_entries[j].key@ == key@);
                    }
                }
                assert forall|k: Seq<char>| #[trigger] entry_view(*r, k) == if k == key@ {
                    (fv, Some(cv))
                } else {
                    entry_view(*old(r), k)
                } by {
                    lemma_entry_index_keys(new_entries, old_entries, k, n);
                    if k != key@ {
                        match entry_index(old_entries, k, n) {
                            Some(j) => {
                                lemma_entry_index_key(old_entries, k, n);
                                lemma_entry_index_bound(old_entries, k, n);
                                assert(j != i as int);
                                assert(new_entries[j] == old_entries[j]);
                            },
                            None => {},
                        }
                    }
                }
            }
        },
        None => {
            r.entries.push(entry);
            proof {
                let new_entries = r.entries@;
                assert(new_entries.len() == n + 1);
                assert forall|j: int| 0 <= j < n implies (#[trigger] new_entries[j]).key@ == old_entries[j].key@ by {
                    assert(new_entries[j] == old_entries[j]);
                }
                assert forall|k: Seq<char>| #[trigger] entry_view(*r, k) == if k == key@ {
                    (fv, Some(cv))
                } else {
                    entry_view(*old(r), k)
                } by {
                    lemma_entry_index_keys(new_entries, old_entries, k, n);
                    match entry_index(old_entries, k, n) {
                        Some(j) => {
                            lemma_entry_index_bound(old_entries, k, n);
                            assert(new_entries[j] == old_entries[j]);
                        },
                        None => {
                            assert(new_entries[n].key@ == key@);
                        },
                    }
                }
            }
        },
    }
}

/// A record with no entries.
pub fn empty_record() -> (r: JsonRecord)
    ensures
        forall|k: Seq<char>| #[trigger] entry_view(r, k) == (FieldView::Missing, None::<Seq<char>>),
{
    JsonRecord { entries: Vec::new() }
}

} // verus!

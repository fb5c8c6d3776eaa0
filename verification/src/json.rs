//! An untyped JSON tree and the URL extractor that walks it.
//!
//! The catalog's shape is undocumented and evolving, so nothing here assumes
//! a schema: the extractor collects every string value stored directly under
//! a designated key, anywhere in the nested structure, in document order.

use crate::errors::CatalogError;
use vstd::prelude::*;

verus! {

#[verifier::external_type_specification]
#[verifier::external_body]
pub struct ExValue(serde_json::Value);

/// The tree that parsing `text` as JSON yields, or `None` when `text` is
/// not well-formed JSON. Parsing is a pure function of the text.
pub uninterp spec fn spec_parse_json(text: Seq<char>) -> Option<JsonValue>;

/// One node of an untyped JSON document tree.
///
/// Object entries keep their serialized order, so a traversal of this tree
/// is a traversal of the document. The numeric payload is kept as its
/// decimal text; the pipeline never computes with numbers.
#[derive(Debug)]
pub enum JsonValue {
    Null,
    Bool(bool),
    Number(String),
    Text(String),
    Array(Vec<JsonValue>),
    Object(Vec<(String, JsonValue)>),
}

/// The strings stored under `key` anywhere in `j`, in document order.
///
/// At an object, each entry whose key equals `key` contributes its value
/// exactly when that value is a string; an entry under any other key is
/// recursed into. At an array, every element is recursed into in index
/// order. Other nodes contribute nothing.
pub open spec fn urls_under(j: JsonValue, key: Seq<char>) -> Seq<Seq<char>>
    decreases j,
{
    match j {
        JsonValue::Object(entries) => urls_under_entries(entries@, key),
        JsonValue::Array(items) => urls_under_items(items@, key),
        _ => Seq::empty(),
    }
}

/// The strings stored under `key` in a run of object entries.
pub open spec fn urls_under_entries(entries: Seq<(String, JsonValue)>, key: Seq<char>) -> Seq<
    Seq<char>,
>
    decreases entries,
{
    if entries.len() == 0 {
        Seq::empty()
    } else {
        urls_under_entries(entries.drop_last(), key) + entry_urls(entries.last(), key)
    }
}

/// The strings stored under `key` in a run of array elements.
pub open spec fn urls_under_items(items: Seq<JsonValue>, key: Seq<char>) -> Seq<Seq<char>>
    decreases items,
{
    if items.len() == 0 {
        Seq::empty()
    } else {
        urls_under_items(items.drop_last(), key) + urls_under(items.last(), key)
    }
}

/// What one object entry contributes: a matching key emits its value when
/// the value is a string and otherwise ends the branch — the subtree of a
/// matching key is never scanned. A non-matching key is recursed into.
pub open spec fn entry_urls(entry: (String, JsonValue), key: Seq<char>) -> Seq<Seq<char>>
    decreases entry,
{
    if entry.0@ == key {
        match entry.1 {
            JsonValue::Text(s) => seq![s@],
            _ => Seq::empty(),
        }
    } else {
        urls_under(entry.1, key)
    }
}

/// Law: an entry whose key matches but whose value is no string — a
/// number, an object, an array — contributes nothing, and its subtree is
/// never scanned for nested occurrences of the key.
pub proof fn lemma_matched_key_ends_branch(entry: (String, JsonValue), key: Seq<char>)
    requires
        entry.0@ == key,
        !(entry.1 is Text),
    ensures
        entry_urls(entry, key) == Seq::<Seq<char>>::empty(),
{
}

/// Appends to `urls` every string stored under `key` anywhere in `element`,
/// in document order.
pub fn extract_urls(element: &JsonValue, key: &String, urls: &mut Vec<String>)
    ensures
        final(urls).deep_view() == old(urls).deep_view() + urls_under(*element, key@),
    decreases *element,
{
    match element {
        JsonValue::Object(entries) => {
            let ghost orig = urls.deep_view();
            let n = entries.len();
            let mut i: usize = 0;
            while i < n
                invariant
                    i <= n,
                    n == entries@.len(),
                    *element == JsonValue::Object(*entries),
                    urls.deep_view() == orig + urls_under_entries(
                        entries@.take(i as int),
                        key@,
                    ),
                decreases n - i,
            {
                let ghost before = urls.deep_view();
                let entry = &entries[i];
                if entry.0 == *key {
                    if let JsonValue::Text(s) = &entry.1 {
                        urls.push(s.clone());
                    }
                } else {
                    proof {
                        let es = (*element)->Object_0;
                        assert(decreases_to!(*element => (*element)->Object_0));
                        assert(decreases_to!(es => es@));
                        assert(decreases_to!(es@ => es@[i as int]));
                        assert(decreases_to!(es@[i as int] => es@[i as int].1));
                        assert(decreases_to!(*element => entries@[i as int].1));
                    }
                    extract_urls(&entry.1, key, urls);
                }
                proof {
                    assert(urls.deep_view() =~= before + entry_urls(entries@[i as int], key@));
                    assert(entries@.take(i + 1).drop_last() =~= entries@.take(i as int));
                    assert(urls.deep_view() =~= orig + urls_under_entries(
                        entries@.take(i + 1),
                        key@,
                    ));
                }
                i = i + 1;
            }
            proof {
                assert(entries@.take(n as int) =~= entries@);
            }
        },
        JsonValue::Array(items) => {
            let ghost orig = urls.deep_view();
            let n = items.len();
            let mut i: usize = 0;
            while i < n
                invariant
                    i <= n,
                    n == items@.len(),
                    *element == JsonValue::Array(*items),
                    urls.deep_view() == orig + urls_under_items(items@.take(i as int), key@),
                decreases n - i,
            {
                let ghost before = urls.deep_view();
                proof {
                    let its = (*element)->Array_0;
                    assert(decreases_to!(*element => (*element)->Array_0));
                    assert(decreases_to!(its => its@));
                    assert(decreases_to!(its@ => its@[i as int]));
                    assert(decreases_to!(*element => items@[i as int]));
                }
                extract_urls(&items[i], key, urls);
                proof {
                    assert(items@.take(i + 1).drop_last() =~= items@.take(i as int));
                    assert(urls.deep_view() =~= orig + urls_under_items(
                        items@.take(i + 1),
                        key@,
                    ));
                }
                i = i + 1;
            }
            proof {
                assert(items@.take(n as int) =~= items@);
            }
        },
        _ => {
            proof {
                assert(urls.deep_view() =~= old(urls).deep_view() + urls_under(
                    *element,
                    key@,
                ));
            }
        },
    }
}

/// Relies on `serde_json::Value`: mirrors each variant of the parsed tree
/// into the library's own tree, one for one; a number becomes its decimal
/// text.
#[verifier::external_body]
fn value_from_serde(v: &serde_json::Value) -> JsonValue {
    match v {
        serde_json::Value::Null => JsonValue::Null,
        serde_json::Value::Bool(b) => JsonValue::Bool(*b),
        serde_json::Value::Number(n) => JsonValue::Number(n.to_string()),
        serde_json::Value::String(s) => JsonValue::Text(s.clone()),
        serde_json::Value::Array(items) => JsonValue::Array(
            items.iter().map(value_from_serde).collect(),
        ),
        serde_json::Value::Object(entries) => JsonValue::Object(
            entries.iter().map(|(k, x)| (k.clone(), value_from_serde(x))).collect(),
        ),
    }
}

/// Relies on `serde_json::from_str::<serde_json::Value>`: whether the text
/// parses, and the tree it parses to, are pure functions of the text.
#[verifier::external_body]
fn parse_json_text(text: &str) -> (r: Option<JsonValue>)
    ensures
        r == spec_parse_json(text@),
{
    match serde_json::from_str::<serde_json::Value>(text) {
        Ok(v) => Some(value_from_serde(&v)),
        Err(_) => None,
    }
}

/// Parses the raw catalog document handed over by the catalog client.
/// A document that is not well-formed JSON is a malformed catalog; with no
/// tree to walk, the batch cannot proceed.
pub fn parse_catalog(text: &str) -> (r: Result<JsonValue, CatalogError>)
    ensures
        r is Ok <==> spec_parse_json(text@) is Some,
        r matches Ok(j) ==> spec_parse_json(text@) == Some(j),
        r matches Err(e) ==> e == CatalogError::Malformed,
{
    match parse_json_text(text) {
        Some(j) => Ok(j),
        None => Err(CatalogError::Malformed),
    }
}

/// The strings stored under `key` anywhere in `element`, in document order.
pub fn find_urls_under(element: &JsonValue, key: &String) -> (urls: Vec<String>)
    ensures
        urls.deep_view() == urls_under(*element, key@),
{
    let mut urls: Vec<String> = Vec::new();
    extract_urls(element, key, &mut urls);
    proof {
        assert(urls.deep_view() =~= urls_under(*element, key@));
    }
    urls
}

} // verus!

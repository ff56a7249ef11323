//! The text of JSON values, read and written by `serde_json`.
use serde_json::{Number, Value};
use vstd::prelude::*;

use crate::json::{lemma_array_view, lemma_members, lemma_members_finite, lemma_object_view, Json};
#[allow(unused_imports)]
use crate::json::{entry_views, item_views, members_of, JsonView};

verus! {

/// `serde_json::Value`, carried through as it is.
#[verifier::external_type_specification]
#[verifier::external_body]
pub struct ExValue(serde_json::Value);

/// `serde_json::Number`, carried through as it is.
#[verifier::external_type_specification]
#[verifier::external_body]
pub struct ExNumber(serde_json::Number);

/// `serde_json::Map`, the members of an object.
#[verifier::external_type_specification]
#[verifier::external_body]
#[verifier::reject_recursive_types(K)]
#[verifier::reject_recursive_types(V)]
pub struct ExMap<K, V>(serde_json::Map<K, V>);

/// What a `serde_json` value holds.
pub uninterp spec fn value_contents(value: serde_json::Value) -> JsonView;

/// What a `serde_json` map holds.
pub uninterp spec fn map_contents(
    map: serde_json::Map<String, serde_json::Value>,
) -> Map<Seq<char>, JsonView>;

/// The value that a text is read as, or the message that says why it is not JSON.
pub uninterp spec fn parsed(text: Seq<char>) -> Result<JsonView, Seq<char>>;

/// The text of a value, without white space between its tokens.
pub uninterp spec fn printed(value: JsonView) -> Seq<char>;

/// The text of a value, over several lines and indented, where one can be written.
pub uninterp spec fn printed_pretty(value: JsonView) -> Option<Seq<char>>;

/// The number for an unsigned integer.
pub uninterp spec fn number(n: u64) -> Number;

/// One level of a `serde_json` value.
pub enum Level {
    Null,
    Bool(bool),
    Number(Number),
    Text(String),
    Array(Vec<Value>),
    Object(serde_json::Map<String, Value>),
}

/// The contents of the items of an array.
pub open spec fn value_views(items: Seq<Value>) -> Seq<JsonView> {
    items.map_values(|v: Value| value_contents(v))
}

/// The contents of the entries of an object.
pub open spec fn value_entry_views(entries: Seq<(String, Value)>) -> Seq<(Seq<char>, JsonView)> {
    entries.map_values(|e: (String, Value)| (e.0@, value_contents(e.1)))
}

impl View for Level {
    type V = JsonView;

    open spec fn view(&self) -> JsonView {
        match self {
            Level::Null => JsonView::Null,
            Level::Bool(b) => JsonView::Bool(*b),
            Level::Number(n) => JsonView::Number(*n),
            Level::Text(s) => JsonView::Text(s@),
            Level::Array(items) => JsonView::Array(value_views(items@)),
            Level::Object(map) => JsonView::Object(map_contents(*map)),
        }
    }
}

/// `Number::clone`, which derives from its fields, gives the same number.
pub assume_specification[ <serde_json::Number as Clone>::clone ](n: &Number) -> (r: Number)
    ensures
        r == *n,
;

/// `Number::from` for `u64` gives the number of that integer, which rests on the integer alone.
#[verifier::external_body]
pub(crate) fn number_from(n: u64) -> (r: Number)
    ensures
        r == number(n),
{
    Number::from(n)
}

/// `serde_json::from_str` for `Value` reads the text. The value, or the message of the error, rests
/// on the text alone.
#[verifier::external_body]
fn value_from_text(text: &str) -> (r: Result<Value, String>)
    ensures
        match r {
            Ok(v) => parsed(text@) == Ok::<JsonView, Seq<char>>(value_contents(v)),
            Err(e) => parsed(text@) == Err::<JsonView, Seq<char>>(e@),
        },
{
    serde_json::from_str::<Value>(text).map_err(|e| e.to_string())
}

/// `Value` as its `Display` prints it: compact, with the members of an object in the order of their
/// keys. The text rests on the contents alone.
#[verifier::external_body]
fn value_to_text(value: &Value) -> (r: String)
    ensures
        r@ == printed(value_contents(*value)),
{
    value.to_string()
}

/// `serde_json::to_string_pretty` for `Value`. The text rests on the contents alone, and there always
/// is one: a value has only strings for keys, and nothing in it refuses to be written.
#[verifier::external_body]
fn value_to_pretty_text(value: &Value) -> (r: Option<String>)
    ensures
        match r {
            Some(s) => printed_pretty(value_contents(*value)) == Some(s@),
            None => printed_pretty(value_contents(*value)) is None,
        },
        r is Some,
{
    serde_json::to_string_pretty(value).ok()
}

/// The variant of a `Value`, with what it holds.
#[verifier::external_body]
fn open_value(value: Value) -> (r: Level)
    ensures
        r@ == value_contents(value),
{
    match value {
        Value::Null => Level::Null,
        Value::Bool(b) => Level::Bool(b),
        Value::Number(n) => Level::Number(n),
        Value::String(s) => Level::Text(s),
        Value::Array(items) => Level::Array(items),
        Value::Object(map) => Level::Object(map),
    }
}

/// The `Value` of a variant and what it holds.
#[verifier::external_body]
fn close_value(level: Level) -> (r: Value)
    ensures
        value_contents(r) == level@,
{
    match level {
        Level::Null => Value::Null,
        Level::Bool(b) => Value::Bool(b),
        Level::Number(n) => Value::Number(n),
        Level::Text(s) => Value::String(s),
        Level::Array(items) => Value::Array(items),
        Level::Object(map) => Value::Object(map),
    }
}

/// `Map::into_iter` gives every entry of the map, each key once.
#[verifier::external_body]
fn map_entries(map: serde_json::Map<String, Value>) -> (r: Vec<(String, Value)>)
    ensures
        forall|i: int, j: int|
            0 <= i < j < r@.len() ==> (#[trigger] r@[i]).0@ != (#[trigger] r@[j]).0@,
        members_of(value_entry_views(r@)) == map_contents(map),
{
    map.into_iter().collect()
}

/// `Map::new` gives a map without entries.
#[verifier::external_body]
fn new_map() -> (r: serde_json::Map<String, Value>)
    ensures
        map_contents(r) == members_of(Seq::empty()),
{
    serde_json::Map::new()
}

/// `Map::insert` puts the value under the key, in place of one that was there.
#[verifier::external_body]
fn map_insert(map: &mut serde_json::Map<String, Value>, key: String, value: Value)
    ensures
        map_contents(*final(map)) == map_contents(*old(map)).insert(key@, value_contents(value)),
{
    map.insert(key, value);
}

/// The library's tree of a `serde_json` value.
fn from_value(value: Value) -> (r: Json)
    ensures
        r@ == value_contents(value),
    decreases value_contents(value),
{
    match open_value(value) {
        Level::Null => Json::Null,
        Level::Bool(b) => Json::Bool(b),
        Level::Number(n) => Json::Number(n),
        Level::Text(s) => Json::Text(s),
        Level::Array(items) => {
            let ghost whole = items@;
            let ghost wanted = value_views(whole);
            let mut out: Vec<Json> = Vec::new();
            for item in it: items
                invariant
                    it.seq() == whole,
                    wanted == value_views(whole),
                    value_contents(value) == JsonView::Array(wanted),
                    item_views(out@) == wanted.take(it.index() as int),
            {
                let ghost had = out@;
                assert(wanted[it.index() as int] == value_contents(item));
                assert(value_contents(value)->Array_0 == wanted);
                let tree = from_value(item);
                out.push(tree);
                assert(item_views(out@) =~= item_views(had).push(tree@));
                assert(wanted.take(it.index() + 1) =~= wanted.take(it.index() as int).push(tree@));
            }
            proof {
                assert(wanted.take(wanted.len() as int) =~= wanted);
                lemma_array_view(out);
            }
            Json::Array(out)
        },
        Level::Object(map) => {
            let entries = map_entries(map);
            let ghost whole = entries@;
            let ghost wanted = value_entry_views(whole);
            proof {
                lemma_members_finite(wanted);
            }
            let mut out: Vec<(String, Json)> = Vec::new();
            for entry in it: entries
                invariant
                    it.seq() == whole,
                    wanted == value_entry_views(whole),
                    value_contents(value) == JsonView::Object(members_of(wanted)),
                    members_of(wanted).dom().finite(),
                    forall|i: int, j: int|
                        0 <= i < j < whole.len() ==> (#[trigger] whole[i]).0@ != (
                        #[trigger] whole[j]).0@,
                    entry_views(out@) == wanted.take(it.index() as int),
            {
                let ghost had = out@;
                let ghost n = it.index() as int;
                assert(wanted[n] == (entry.0@, value_contents(entry.1)));
                proof {
                    assert forall|j: int| n + 1 <= j < wanted.len() implies (#[trigger] wanted[j]).0
                        != entry.0@ by {
                        assert(wanted[j].0 == whole[j].0@);
                        assert(whole[n].0@ != whole[j].0@);
                    }
                    lemma_members(wanted, entry.0@, n + 1);
                    assert(value_contents(value)->Object_0 == members_of(wanted));
                    assert(members_of(wanted)[entry.0@] == value_contents(entry.1));
                }
                let (key, value1) = entry;
                let tree = from_value(value1);
                out.push((key, tree));
                assert(entry_views(out@) =~= entry_views(had).push((key@, tree@)));
                assert(wanted.take(n + 1) =~= wanted.take(n).push((key@, tree@)));
            }
            proof {
                assert(wanted.take(wanted.len() as int) =~= wanted);
                lemma_object_view(out);
            }
            Json::Object(out)
        },
    }
}

/// The `serde_json` value of the library's tree.
fn to_value(json: &Json) -> (r: Value)
    ensures
        value_contents(r) == json@,
    decreases json,
{
    match json {
        Json::Null => close_value(Level::Null),
        Json::Bool(b) => close_value(Level::Bool(*b)),
        Json::Number(n) => close_value(Level::Number(n.clone())),
        Json::Text(s) => close_value(Level::Text(s.clone())),
        Json::Array(items) => {
            let ghost wanted = item_views(items@);
            let mut out: Vec<Value> = Vec::new();
            let mut i: usize = 0;
            while i < items.len()
                invariant
                    i <= items@.len(),
                    *json == Json::Array(*items),
                    wanted == item_views(items@),
                    value_views(out@) == wanted.take(i as int),
                decreases items@.len() - i,
            {
                let ghost had = out@;
                assert(decreases_to!(*json => json->Array_0));
                assert(decreases_to!(*items => items[i as int]));
                let value = to_value(&items[i]);
                out.push(value);
                assert(value_views(out@) =~= value_views(had).push(value_contents(value)));
                assert(wanted.take(i + 1) =~= wanted.take(i as int).push(value_contents(value)));
                i += 1;
            }
            proof {
                assert(wanted.take(i as int) =~= wanted);
                lemma_array_view(*items);
            }
            close_value(Level::Array(out))
        },
        Json::Object(entries) => {
            let ghost wanted = entry_views(entries@);
            let mut out = new_map();
            let mut i: usize = 0;
            assert(wanted.take(0) =~= Seq::empty());
            while i < entries.len()
                invariant
                    i <= entries@.len(),
                    *json == Json::Object(*entries),
                    wanted == entry_views(entries@),
                    map_contents(out) == members_of(wanted.take(i as int)),
                decreases entries@.len() - i,
            {
                assert(decreases_to!(*json => json->Object_0));
                assert(decreases_to!(*entries => entries[i as int]));
                assert(decreases_to!(entries[i as int] => entries[i as int].1));
                let value = to_value(&entries[i].1);
                map_insert(&mut out, entries[i].0.clone(), value);
                assert(wanted.take(i + 1).drop_last() =~= wanted.take(i as int));
                assert(wanted.take(i + 1).last() == wanted[i as int]);
                i += 1;
            }
            proof {
                assert(wanted.take(i as int) =~= wanted);
                lemma_object_view(*entries);
            }
            close_value(Level::Object(out))
        },
    }
}

/// The view of a value read, or of what went wrong.
pub open spec fn reading(r: Result<Json, String>) -> Result<JsonView, Seq<char>> {
    match r {
        Ok(j) => Ok(j@),
        Err(e) => Err(e@),
    }
}

/// Reads a text as JSON.
pub fn parse(text: &str) -> (r: Result<Json, String>)
    ensures
        reading(r) == parsed(text@),
{
    match value_from_text(text) {
        Ok(v) => Ok(from_value(v)),
        Err(e) => Err(e),
    }
}

/// The compact text of a value.
pub fn to_text(json: &Json) -> (r: String)
    ensures
        r@ == printed(json@),
{
    value_to_text(&to_value(json))
}

/// The indented text of a value. There always is one.
pub fn to_pretty_text(json: &Json) -> (r: Option<String>)
    ensures
        match r {
            Some(s) => printed_pretty(json@) == Some(s@),
            None => printed_pretty(json@) is None,
        },
        r is Some,
{
    value_to_pretty_text(&to_value(json))
}

} // verus!

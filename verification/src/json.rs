//! JSON values.
use serde_json::Number;
use vstd::prelude::*;

use crate::text;

verus! {

/// What a JSON value says.
pub enum JsonView {
    Null,
    Bool(bool),
    Number(Number),
    Text(Seq<char>),
    Array(Seq<JsonView>),
    Object(Map<Seq<char>, JsonView>),
}

/// A JSON value. Where a key occurs twice in an object, the later entry counts.
#[derive(Debug)]
pub enum Json {
    Null,
    Bool(bool),
    Number(Number),
    Text(String),
    Array(Vec<Json>),
    Object(Vec<(String, Json)>),
}

/// The members that the entries make when they are put in one after the other.
pub open spec fn members_of(entries: Seq<(Seq<char>, JsonView)>) -> Map<Seq<char>, JsonView>
    decreases entries.len(),
{
    if entries.len() == 0 {
        Map::empty()
    } else {
        members_of(entries.drop_last()).insert(entries.last().0, entries.last().1)
    }
}

/// The object with the given entries.
pub open spec fn object(entries: Seq<(Seq<char>, JsonView)>) -> JsonView {
    JsonView::Object(members_of(entries))
}

impl View for Json {
    type V = JsonView;

    open spec fn view(&self) -> JsonView
        decreases self,
    {
        match self {
            Json::Null => JsonView::Null,
            Json::Bool(b) => JsonView::Bool(*b),
            Json::Number(n) => JsonView::Number(*n),
            Json::Text(s) => JsonView::Text(s@),
            Json::Array(items) => JsonView::Array(
                Seq::new(
                    items@.len(),
                    |i: int|
                        if 0 <= i < items@.len() {
                            items@[i].view()
                        } else {
                            JsonView::Null
                        },
                ),
            ),
            Json::Object(entries) => object(listed(entries@)),
        }
    }
}

/// The views of the entries of an object, one after the other.
pub open spec fn listed(entries: Seq<(String, Json)>) -> Seq<(Seq<char>, JsonView)>
    decreases entries,
{
    if entries.len() == 0 {
        Seq::empty()
    } else {
        listed(entries.drop_last()).push((entries.last().0@, entries.last().1.view()))
    }
}

/// The views of the items of an array.
pub open spec fn item_views(items: Seq<Json>) -> Seq<JsonView> {
    items.map_values(|j: Json| j@)
}

/// The views of the entries of an object.
pub open spec fn entry_views(entries: Seq<(String, Json)>) -> Seq<(Seq<char>, JsonView)> {
    entries.map_values(|e: (String, Json)| (e.0@, e.1@))
}

/// An array's view holds the views of its items.
pub proof fn lemma_array_view(items: Vec<Json>)
    ensures
        Json::Array(items)@ == JsonView::Array(item_views(items@)),
{
    assert(Json::Array(items)@->Array_0 =~= item_views(items@));
}

/// Listing the entries one after the other lists them all.
proof fn lemma_listed(entries: Seq<(String, Json)>)
    ensures
        listed(entries) == entry_views(entries),
    decreases entries.len(),
{
    if entries.len() > 0 {
        reveal_with_fuel(listed, 2);
        lemma_listed(entries.drop_last());
        assert(entry_views(entries).drop_last() =~= entry_views(entries.drop_last()));
    }
    assert(listed(entries) =~= entry_views(entries));
}

/// An object's view is made of the views of its entries.
pub proof fn lemma_object_view(entries: Vec<(String, Json)>)
    ensures
        Json::Object(entries)@ == object(entry_views(entries@)),
{
    lemma_listed(entries@);
}

impl JsonView {
    /// The member of an object under `key`.
    pub open spec fn get(self, key: Seq<char>) -> Option<JsonView> {
        match self {
            JsonView::Object(m) => if m.dom().contains(key) {
                Some(m[key])
            } else {
                None
            },
            _ => None,
        }
    }

    /// The item of an array at index `i`.
    pub open spec fn at(self, i: int) -> Option<JsonView> {
        match self {
            JsonView::Array(s) => if 0 <= i < s.len() {
                Some(s[i])
            } else {
                None
            },
            _ => None,
        }
    }

    /// The characters of a string.
    pub open spec fn as_str(self) -> Option<Seq<char>> {
        match self {
            JsonView::Text(s) => Some(s),
            _ => None,
        }
    }

    /// The items of an array.
    pub open spec fn as_array(self) -> Option<Seq<JsonView>> {
        match self {
            JsonView::Array(s) => Some(s),
            _ => None,
        }
    }
}

/// The member under `key` of the value that `v` may hold.
pub open spec fn member(v: Option<JsonView>, key: Seq<char>) -> Option<JsonView> {
    match v {
        Some(j) => j.get(key),
        None => None,
    }
}

/// The item at index `i` of the value that `v` may hold.
pub open spec fn item(v: Option<JsonView>, i: int) -> Option<JsonView> {
    match v {
        Some(j) => j.at(i),
        None => None,
    }
}

/// The characters of the string that `v` may hold.
pub open spec fn string(v: Option<JsonView>) -> Option<Seq<char>> {
    match v {
        Some(j) => j.as_str(),
        None => None,
    }
}

/// The items of the array that `v` may hold.
pub open spec fn array(v: Option<JsonView>) -> Option<Seq<JsonView>> {
    match v {
        Some(j) => j.as_array(),
        None => None,
    }
}

/// The last entry with a key gives the member under it; a key of no entry has none.
pub proof fn lemma_members(entries: Seq<(Seq<char>, JsonView)>, key: Seq<char>, n: int)
    requires
        0 <= n <= entries.len(),
        forall|j: int| n <= j < entries.len() ==> (#[trigger] entries[j]).0 != key,
    ensures
        n > 0 && entries[n - 1].0 == key ==> {
            &&& members_of(entries).dom().contains(key)
            &&& members_of(entries)[key] == entries[n - 1].1
        },
        n == 0 ==> !members_of(entries).dom().contains(key),
    decreases entries.len(),
{
    if entries.len() > 0 {
        let front = entries.drop_last();
        if n < entries.len() {
            assert forall|j: int| n <= j < front.len() implies (#[trigger] front[j]).0 != key by {
                assert(front[j] == entries[j]);
            }
            lemma_members(front, key, n);
            assert(entries[entries.len() - 1].0 != key);
        }
    }
}

/// An object has finitely many members.
pub proof fn lemma_members_finite(entries: Seq<(Seq<char>, JsonView)>)
    ensures
        members_of(entries).dom().finite(),
    decreases entries.len(),
{
    if entries.len() > 0 {
        lemma_members_finite(entries.drop_last());
    }
}

impl Json {
    /// The member of an object under `key`.
    pub fn get(&self, key: &str) -> (r: Option<&Json>)
        ensures
            match r {
                Some(j) => self@.get(key@) == Some(j@),
                None => self@.get(key@) is None,
            },
    {
        match self {
            Json::Object(entries) => {
                proof {
                    lemma_object_view(*entries);
                }
                let ghost views = entry_views(entries@);
                let mut i: usize = entries.len();
                while i > 0
                    invariant
                        i <= entries@.len(),
                        views == entry_views(entries@),
                        self@ == object(views),
                        forall|j: int| i <= j < entries@.len() ==> (#[trigger] views[j]).0 != key@,
                    decreases i,
                {
                    let entry = &entries[i - 1];
                    assert(views[i - 1] == (entry.0@, entry.1@));
                    if text::same(entry.0.as_str(), key) {
                        proof {
                            lemma_members(views, key@, i as int);
                        }
                        return Some(&entry.1);
                    }
                    i -= 1;
                }
                proof {
                    lemma_members(views, key@, 0);
                }
                None
            },
            _ => None,
        }
    }

    /// The item of an array at index `i`.
    pub fn at(&self, i: usize) -> (r: Option<&Json>)
        ensures
            match r {
                Some(j) => self@.at(i as int) == Some(j@),
                None => self@.at(i as int) is None,
            },
    {
        match self {
            Json::Array(items) => {
                proof {
                    lemma_array_view(*items);
                }
                if i < items.len() {
                    Some(&items[i])
                } else {
                    None
                }
            },
            _ => None,
        }
    }

    /// The characters of a string.
    pub fn as_str(&self) -> (r: Option<&str>)
        ensures
            match r {
                Some(s) => self@.as_str() == Some(s@),
                None => self@.as_str() is None,
            },
    {
        match self {
            Json::Text(s) => Some(s.as_str()),
            _ => None,
        }
    }

    /// The items of an array.
    pub fn as_array(&self) -> (r: Option<&Vec<Json>>)
        ensures
            match r {
                Some(items) => self@.as_array() == Some(item_views(items@)),
                None => self@.as_array() is None,
            },
    {
        match self {
            Json::Array(items) => {
                proof {
                    lemma_array_view(*items);
                }
                Some(items)
            },
            _ => None,
        }
    }
}

/// The member under `key` of the value that `v` may hold.
pub fn get_member<'a>(v: Option<&'a Json>, key: &str) -> (r: Option<&'a Json>)
    ensures
        match r {
            Some(j) => v matches Some(w) && w@.get(key@) == Some(j@),
            None => v matches Some(w) ==> w@.get(key@) is None,
        },
{
    match v {
        Some(j) => j.get(key),
        None => None,
    }
}

/// The characters of the string under `key`.
pub fn get_text<'a>(v: &'a Json, key: &str) -> (r: Option<&'a str>)
    ensures
        match r {
            Some(s) => string(v@.get(key@)) == Some(s@),
            None => string(v@.get(key@)) is None,
        },
{
    match v.get(key) {
        Some(j) => j.as_str(),
        None => None,
    }
}

impl Clone for Json {
    fn clone(&self) -> (r: Self)
        ensures
            r@ == self@,
        decreases self,
    {
        match self {
            Json::Null => Json::Null,
            Json::Bool(b) => Json::Bool(*b),
            Json::Number(n) => Json::Number(n.clone()),
            Json::Text(s) => Json::Text(s.clone()),
            Json::Array(items) => {
                let mut out: Vec<Json> = Vec::new();
                let mut i: usize = 0;
                while i < items.len()
                    invariant
                        i <= items@.len(),
                        *self == Json::Array(*items),
                        item_views(out@) == item_views(items@).take(i as int),
                    decreases items@.len() - i,
                {
                    let ghost had = out@;
                    assert(decreases_to!(*self => self->Array_0));
                    assert(decreases_to!(*items => items[i as int]));
                    let copy = items[i].clone();
                    out.push(copy);
                    assert(item_views(out@) =~= item_views(had).push(copy@));
                    assert(item_views(items@).take(i + 1) =~= item_views(items@).take(i as int).push(
                        items@[i as int]@,
                    ));
                    i += 1;
                }
                proof {
                    assert(item_views(items@).take(i as int) =~= item_views(items@));
                    lemma_array_view(*items);
                    lemma_array_view(out);
                }
                Json::Array(out)
            },
            Json::Object(entries) => {
                let mut out: Vec<(String, Json)> = Vec::new();
                let mut i: usize = 0;
                while i < entries.len()
                    invariant
                        i <= entries@.len(),
                        *self == Json::Object(*entries),
                        entry_views(out@) == entry_views(entries@).take(i as int),
                    decreases entries@.len() - i,
                {
                    let ghost had = out@;
                    assert(decreases_to!(*self => self->Object_0));
                    assert(decreases_to!(*entries => entries[i as int]));
                    assert(decreases_to!(entries[i as int] => entries[i as int].1));
                    let copy = (entries[i].0.clone(), entries[i].1.clone());
                    out.push(copy);
                    assert(entry_views(out@) =~= entry_views(had).push((copy.0@, copy.1@)));
                    assert(entry_views(entries@).take(i + 1) =~= entry_views(entries@).take(
                        i as int,
                    ).push((entries@[i as int].0@, entries@[i as int].1@)));
                    i += 1;
                }
                proof {
                    assert(entry_views(entries@).take(i as int) =~= entry_views(entries@));
                    lemma_object_view(*entries);
                    lemma_object_view(out);
                }
                Json::Object(out)
            },
        }
    }
}

/// An entry of an object.
pub(crate) fn entry(key: &str, value: Json) -> (r: (String, Json))
    ensures
        r.0@ == key@,
        r.1 == value,
{
    (key.to_string(), value)
}

/// A JSON string.
pub(crate) fn text_value(s: &str) -> (r: Json)
    ensures
        r@ == JsonView::Text(s@),
{
    Json::Text(s.to_string())
}

/// An object without members.
pub(crate) fn empty_object() -> (r: Json)
    ensures
        r@ == object(Seq::empty()),
{
    let entries: Vec<(String, Json)> = Vec::new();
    assert(entry_views(entries@) =~= Seq::empty());
    make_object(entries)
}

/// An object with the given entries.
pub(crate) fn make_object(entries: Vec<(String, Json)>) -> (r: Json)
    ensures
        r@ == object(entry_views(entries@)),
{
    proof {
        lemma_object_view(entries);
    }
    Json::Object(entries)
}

/// An array with the given items.
pub(crate) fn make_array(items: Vec<Json>) -> (r: Json)
    ensures
        r@ == JsonView::Array(item_views(items@)),
{
    proof {
        lemma_array_view(items);
    }
    Json::Array(items)
}

} // verus!

//! What holds of the parts of JSON values.
use vstd::prelude::*;

#[allow(unused_imports)]
use crate::json::{array, item, lemma_members, member, object, string, JsonView};

verus! {

/// `v` is an object, and `w` stands in it under `key`.
pub open spec fn has_member(v: JsonView, key: Seq<char>, w: JsonView) -> bool {
    v matches JsonView::Object(m) && m.dom().contains(key) && m[key] == w
}

/// `v` is an object, and a string stands in it under `key`.
pub open spec fn has_text(v: JsonView, key: Seq<char>) -> bool {
    exists|s: Seq<char>| #[trigger] has_member(v, key, JsonView::Text(s))
}

/// What stands in an object under a key is what is found there, and nothing else is.
pub proof fn law_member(v: JsonView, key: Seq<char>, w: JsonView)
    ensures
        v.get(key) == Some(w) <==> has_member(v, key, w),
        member(Some(v), key) == v.get(key),
        member(None, key) is None,
{
}

/// What stands at an index of an array is what is found there, and nothing else has parts of the
/// kind.
pub proof fn law_parts(v: JsonView, i: int, s: Seq<char>)
    ensures
        match v {
            JsonView::Array(items) => {
                &&& v.as_array() == Some(items)
                &&& v.at(i) == if 0 <= i < items.len() {
                    Some(items[i])
                } else {
                    None
                }
            },
            _ => v.as_array() is None && v.at(i) is None,
        },
        v.as_str() == Some(s) <==> v == JsonView::Text(s),
        string(Some(v)) == v.as_str() && array(Some(v)) == v.as_array(),
        item(Some(v), i) == v.at(i),
        string(None) is None && array(None) is None && item(None, i) is None,
{
}

/// An object has the last entry of each key for its member, and no other members.
pub proof fn law_object(entries: Seq<(Seq<char>, JsonView)>, key: Seq<char>, i: int)
    requires
        -1 <= i < entries.len(),
        forall|j: int| i < j < entries.len() ==> (#[trigger] entries[j]).0 != key,
        i >= 0 ==> entries[i].0 == key,
    ensures
        i >= 0 ==> has_member(object(entries), key, entries[i].1),
        i < 0 ==> forall|w: JsonView| !has_member(object(entries), key, w),
{
    lemma_members(entries, key, i + 1);
}

/// A key under which a member stands is that of an entry.
pub proof fn law_members_are_entries(
    entries: Seq<(Seq<char>, JsonView)>,
    key: Seq<char>,
    w: JsonView,
)
    requires
        has_member(object(entries), key, w),
    ensures
        exists|i: int| 0 <= i < entries.len() && (#[trigger] entries[i]) == (key, w),
    decreases entries.len(),
{
    if entries.len() > 0 {
        if entries.last().0 == key {
            law_object(entries, key, entries.len() - 1);
            assert(entries[entries.len() - 1] == (key, w));
        } else {
            let before = entries.drop_last();
            assert(object(before)->Object_0.insert(entries.last().0, entries.last().1)
                == object(entries)->Object_0);
            law_members_are_entries(before, key, w);
            let i = choose|i: int| 0 <= i < before.len() && (#[trigger] before[i]) == (key, w);
            assert(entries[i] == (key, w));
        }
    }
}

} // verus!

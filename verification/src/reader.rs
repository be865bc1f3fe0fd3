//! Reading JSON text with `serde_json`, and turning what it yields into a
//! [`Json`] document.

use crate::json::{
    items_view, lemma_map_of_finite, lemma_map_of_last, lemma_map_of_push, map_of, Json, JsonMap,
    JsonView,
};
use vstd::prelude::*;

verus! {

/// `serde_json::Value`, carried through as it is: what it holds is known
/// only through [`value_view`].
#[verifier::external_type_specification]
#[verifier::external_body]
pub struct ExValue(serde_json::Value);

/// The document that a `serde_json::Value` holds. An integer is `Int`
/// whichever way it is stored; any other number is `Float` with the text
/// that `serde_json` prints for it.
pub uninterp spec fn value_view(v: serde_json::Value) -> JsonView;

/// What `serde_json::from_str` makes of a text: the document it reads, or
/// `None` where it reports an error.
pub uninterp spec fn json_of_text(text: Seq<char>) -> Option<JsonView>;

/// The views of the members that an object hands out.
pub open spec fn member_views(members: Seq<(&String, &serde_json::Value)>) -> Seq<
    (Seq<char>, JsonView),
> {
    Seq::new(members.len(), |i: int| (members[i].0@, value_view(*members[i].1)))
}

/// `serde_json::from_str` at type `Value`: the value read from `text`, with
/// the error dropped. The result depends on the text alone.
#[verifier::external_body]
fn read_value(text: &str) -> (read: Option<serde_json::Value>)
    ensures
        match read {
            Some(v) => json_of_text(text@) == Some(value_view(v)),
            None => json_of_text(text@) is None,
        },
{
    serde_json::from_str::<serde_json::Value>(text).ok()
}

/// `Value::as_bool` gives the boolean of a `Bool` and `None` otherwise.
pub assume_specification[ serde_json::Value::as_bool ](v: &serde_json::Value) -> (b: Option<bool>)
    ensures
        match b {
            Some(x) => value_view(*v) == JsonView::Bool(x),
            None => !(value_view(*v) is Bool),
        },
;

/// `Value::as_u64` gives the number where it is a non-negative integer, and
/// `None` otherwise.
pub assume_specification[ serde_json::Value::as_u64 ](v: &serde_json::Value) -> (n: Option<u64>)
    ensures
        match n {
            Some(x) => value_view(*v) == JsonView::Int(x as int),
            None => !(value_view(*v) matches JsonView::Int(i) && i >= 0),
        },
;

/// `Value::as_i64` gives the number where it is an integer that fits `i64`,
/// and `None` otherwise.
pub assume_specification[ serde_json::Value::as_i64 ](v: &serde_json::Value) -> (n: Option<i64>)
    ensures
        match n {
            Some(x) => value_view(*v) == JsonView::Int(x as int),
            None => !(value_view(*v) matches JsonView::Int(i) && i <= i64::MAX),
        },
;

/// `Value::as_str` gives the text of a `String` and `None` otherwise.
pub assume_specification<'a>[ serde_json::Value::as_str ](v: &'a serde_json::Value) -> (s: Option<
    &'a str,
>)
    ensures
        match s {
            Some(t) => value_view(*v) == JsonView::Str(t@),
            None => !(value_view(*v) is Str),
        },
;

/// `Value::as_array` gives the elements of an `Array` and `None` otherwise.
pub assume_specification<'a>[ serde_json::Value::as_array ](v: &'a serde_json::Value) -> (a: Option<
    &'a Vec<serde_json::Value>,
>)
    ensures
        match a {
            Some(items) => value_view(*v) == JsonView::Array(
                Seq::new(items@.len(), |i: int| value_view(items@[i])),
            ),
            None => !(value_view(*v) is Array),
        },
;

/// The text that `Number`'s `Display` prints for a `Number`; `None` for a
/// value that is no number. Only of a number that is no integer does the
/// contract say what the text is: it is the text held in the view.
#[verifier::external_body]
fn number_text(v: &serde_json::Value) -> (text: Option<String>)
    ensures
        match text {
            Some(t) => value_view(*v) is Int || value_view(*v) == JsonView::Float(t@),
            None => !(value_view(*v) is Int) && !(value_view(*v) is Float),
        },
{
    match v {
        serde_json::Value::Number(n) => Some(n.to_string()),
        _ => None,
    }
}

/// The members of an `Object` as `Map::iter` hands them out, each key once;
/// `None` for a value that is no object.
#[verifier::external_body]
fn object_members(v: &serde_json::Value) -> (members: Option<
    Vec<(&String, &serde_json::Value)>,
>)
    ensures
        match members {
            Some(ms) => {
                &&& value_view(*v) == JsonView::Object(map_of(member_views(ms@)))
                &&& forall|i: int, j: int|
                    0 <= i < j < ms@.len() ==> ms@[i].0@ != ms@[j].0@
            },
            None => !(value_view(*v) is Object),
        },
{
    match v {
        serde_json::Value::Object(m) => Some(m.iter().collect()),
        _ => None,
    }
}

/// Turns a value read by `serde_json` into a document with the same view.
fn json_from_value(v: &serde_json::Value) -> (doc: Json)
    ensures
        doc@ == value_view(*v),
    decreases value_view(*v),
{
    if let Some(b) = v.as_bool() {
        return Json::Bool(b);
    }
    if let Some(n) = v.as_u64() {
        return Json::PosInt(n);
    }
    if let Some(n) = v.as_i64() {
        return Json::NegInt(n);
    }
    if let Some(t) = number_text(v) {
        return Json::Float(t);
    }
    if let Some(s) = v.as_str() {
        return Json::Str(s.to_owned());
    }
    if let Some(items) = v.as_array() {
        let ghost views = Seq::new(items@.len(), |i: int| value_view(items@[i]));
        let mut docs: Vec<Json> = Vec::new();
        let mut i: usize = 0;
        while i < items.len()
            invariant
                i <= items@.len(),
                docs@.len() == i,
                value_view(*v) == JsonView::Array(views),
                views == Seq::new(items@.len(), |i: int| value_view(items@[i])),
                forall|j: int| 0 <= j < i ==> docs@[j]@ == views[j],
            decreases items@.len() - i,
        {
            proof {
                assert(value_view(*v)->Array_0 == views);
                assert(views[i as int] == value_view(items@[i as int]));
            }
            let doc = json_from_value(&items[i]);
            docs.push(doc);
            i += 1;
        }
        assert(items_view(docs@) =~= views);
        return Json::Array(docs);
    }
    if let Some(members) = object_members(v) {
        let ghost views = member_views(members@);
        let mut map = JsonMap::new();
        let mut i: usize = 0;
        proof {
            assert(views.take(0) =~= Seq::empty());
        }
        while i < members.len()
            invariant
                i <= members@.len(),
                views == member_views(members@),
                value_view(*v) == JsonView::Object(map_of(views)),
                forall|a: int, b: int|
                    0 <= a < b < members@.len() ==> members@[a].0@ != members@[b].0@,
                map@ == map_of(views.take(i as int)),
            decreases members@.len() - i,
        {
            proof {
                lemma_map_of_finite(views);
                lemma_map_of_last(views, i as int);
                assert(value_view(*v)->Object_0 == map_of(views));
                assert(map_of(views)[views[i as int].0] == value_view(*members@[i as int].1));
                lemma_map_of_push(views.take(i as int), views[i as int].0, views[i as int].1);
                assert(views.take(i as int + 1) =~= views.take(i as int).push(views[i as int]));
            }
            let doc = json_from_value(members[i].1);
            map.insert(members[i].0.as_str(), doc);
            i += 1;
        }
        assert(views.take(i as int) =~= views);
        return Json::Object(map);
    }
    Json::Null
}

/// Reads a JSON text. The document is the one `serde_json` reads from the
/// text; `None` where it rejects the text.
pub fn parse_json(text: &str) -> (doc: Option<Json>)
    ensures
        match doc {
            Some(d) => json_of_text(text@) == Some(d@),
            None => json_of_text(text@) is None,
        },
{
    match read_value(text) {
        Some(v) => Some(json_from_value(&v)),
        None => None,
    }
}

} // verus!

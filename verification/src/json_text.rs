//! JSON as text: what `serde_json` reads from a text and how it prints a value.

use crate::json;
use crate::json::{array, object, Json, JsonView};
use vstd::prelude::*;

verus! {

/// A value of `serde_json`.
#[verifier::external_type_specification]
#[verifier::external_body]
pub struct ExValue(serde_json::Value);

/// What a value of `serde_json` holds.
pub uninterp spec fn held(v: serde_json::Value) -> JsonView;

/// What `serde_json::from_str` reads from a text, nothing where the text is no JSON.
pub uninterp spec fn read(s: Seq<char>) -> Option<JsonView>;

/// How `serde_json::to_string_pretty` prints a value.
pub uninterp spec fn pretty(v: JsonView) -> Seq<char>;

/// The outermost layer of a value of `serde_json`. A number comes as a natural
/// number of 64 bits, where it is one, and as it is printed.
pub enum Layer {
    Null,
    Bool(bool),
    Number(Option<u64>, String),
    Text(String),
    Array(Vec<serde_json::Value>),
    Object(Vec<(String, serde_json::Value)>),
}

/// The values of a list of values.
pub open spec fn held_items(v: Seq<serde_json::Value>) -> Seq<JsonView> {
    v.map_values(|x: serde_json::Value| held(x))
}

/// The members of a list of members.
pub open spec fn held_members(v: Seq<(String, serde_json::Value)>) -> Seq<(Seq<char>, JsonView)> {
    v.map_values(|m: (String, serde_json::Value)| (m.0@, held(m.1)))
}

/// What a layer holds.
pub open spec fn layered(l: Layer) -> JsonView {
    match l {
        Layer::Null => JsonView::Null,
        Layer::Bool(b) => JsonView::Bool(b),
        Layer::Number(Some(n), _) => JsonView::Uint(n),
        Layer::Number(None, s) => JsonView::Number(s@),
        Layer::Text(s) => JsonView::Text(s@),
        Layer::Array(items) => JsonView::Array(held_items(items@)),
        Layer::Object(members) => JsonView::Object(held_members(members@)),
    }
}

/// The members of an object into which the given ones were put one after the
/// other: each key once, in the order of the keys, under its last value.
pub open spec fn gathered(ms: Seq<(Seq<char>, JsonView)>) -> Seq<(Seq<char>, JsonView)>
    decreases ms.len(),
{
    if ms.len() == 0 {
        ms
    } else {
        json::with_member(gathered(ms.drop_last()), ms.last().0, ms.last().1)
    }
}

/// Tells the variants of `serde_json::Value` apart. The fields are moved; of a
/// number come `Number::as_u64` and its text, and the members of an object in the
/// order in which its map hands them out.
#[verifier::external_body]
fn take_apart(v: serde_json::Value) -> (r: Layer)
    ensures
        layered(r) == held(v),
{
    match v {
        serde_json::Value::Null => Layer::Null,
        serde_json::Value::Bool(b) => Layer::Bool(b),
        serde_json::Value::Number(n) => Layer::Number(n.as_u64(), n.to_string()),
        serde_json::Value::String(s) => Layer::Text(s),
        serde_json::Value::Array(items) => Layer::Array(items),
        serde_json::Value::Object(members) => Layer::Object(members.into_iter().collect()),
    }
}

/// Makes a `serde_json::Value` of a layer. A natural number goes through
/// `Value::from`, and the members of an object through `Map::from_iter`, a map
/// ordered by its keys that keeps the last value of each.
#[verifier::external_body]
fn put_together(l: Layer) -> (r: serde_json::Value)
    requires
        !(l matches Layer::Number(None, _)),
    ensures
        l matches Layer::Object(members) ==> held(r) == JsonView::Object(
            gathered(held_members(members@)),
        ),
        !(l is Object) ==> held(r) == layered(l),
{
    match l {
        Layer::Null => serde_json::Value::Null,
        Layer::Bool(b) => serde_json::Value::Bool(b),
        Layer::Number(n, _) => serde_json::Value::from(n),
        Layer::Text(s) => serde_json::Value::String(s),
        Layer::Array(items) => serde_json::Value::Array(items),
        Layer::Object(members) => serde_json::Value::Object(members.into_iter().collect()),
    }
}

/// `serde_json::from_str` reads a text as a value. Whether it is JSON, and which,
/// depends on the text alone.
#[verifier::external_body]
fn read_value(s: &str) -> (r: Option<serde_json::Value>)
    ensures
        match r {
            Some(v) => read(s@) == Some(held(v)),
            None => read(s@) is None,
        },
{
    serde_json::from_str(s).ok()
}

/// `serde_json::to_string_pretty` prints a value; the keys of an object are texts,
/// so that it does not fail. The text depends on what the value holds alone.
#[verifier::external_body]
fn print_value(v: &serde_json::Value) -> (r: String)
    ensures
        r@ == pretty(held(*v)),
{
    serde_json::to_string_pretty(v).unwrap_or_default()
}

// ---------------------------------------------------------------------------
// Reading
// ---------------------------------------------------------------------------

/// The value of `serde_json` as a value of the library.
fn to_json(v: serde_json::Value) -> (r: Json)
    ensures
        r@ == held(v),
    decreases held(v),
{
    let ghost whole = held(v);
    match take_apart(v) {
        Layer::Null => Json::Null,
        Layer::Bool(b) => Json::Bool(b),
        Layer::Number(Some(n), _) => Json::Uint(n),
        Layer::Number(None, s) => Json::Number(s),
        Layer::Text(s) => Json::Text(s),
        Layer::Array(items) => {
            let ghost all = items@;
            let mut out: Vec<Json> = Vec::new();
            for item in it: items
                invariant
                    it.seq() == all,
                    whole == JsonView::Array(held_items(all)),
                    whole == held(v),
                    out@.len() == it.index(),
                    forall|k: int| 0 <= k < it.index() ==> (#[trigger] out@[k])@ == held(all[k]),
            {
                assert(whole->Array_0[it.index() as int] == held(item));
                out.push(to_json(item));
            }
            let r = array(out);
            assert(r@->Array_0 =~= held_items(all));
            r
        },
        Layer::Object(members) => {
            let ghost all = members@;
            let mut out: Vec<(String, Json)> = Vec::new();
            for member in it: members
                invariant
                    it.seq() == all,
                    whole == JsonView::Object(held_members(all)),
                    whole == held(v),
                    out@.len() == it.index(),
                    forall|k: int|
                        0 <= k < it.index() ==> (#[trigger] out@[k]).0@ == all[k].0@ && out@[k].1@
                            == held(all[k].1),
            {
                assert(whole->Object_0[it.index() as int].1 == held(member.1));
                out.push((member.0, to_json(member.1)));
            }
            let r = object(out);
            assert(r@->Object_0 =~= held_members(all));
            r
        },
    }
}

/// Reads a text as JSON.
pub fn parse_json(s: &str) -> (r: Option<Json>)
    ensures
        match r {
            Some(v) => read(s@) == Some(v@),
            None => read(s@) is None,
        },
{
    match read_value(s) {
        Some(v) => Some(to_json(v)),
        None => None,
    }
}

// ---------------------------------------------------------------------------
// Printing
// ---------------------------------------------------------------------------

/// A value as it is printed: the members of each object gathered, and a written
/// number read as one, or else taken as a text.
pub open spec fn settled(v: JsonView) -> JsonView
    decreases v,
{
    match v {
        JsonView::Number(s) => match read(s) {
            Some(n) => n,
            None => JsonView::Text(s),
        },
        JsonView::Array(items) => JsonView::Array(settled_items(items)),
        JsonView::Object(ms) => JsonView::Object(gathered(settled_members(ms))),
        _ => v,
    }
}

/// Values as they are printed.
pub open spec fn settled_items(items: Seq<JsonView>) -> Seq<JsonView>
    decreases items,
{
    Seq::new(
        items.len(),
        |i: int|
            if 0 <= i < items.len() {
                settled(items[i])
            } else {
                JsonView::Null
            },
    )
}

/// Members with their values as they are printed.
pub open spec fn settled_members(ms: Seq<(Seq<char>, JsonView)>) -> Seq<(Seq<char>, JsonView)>
    decreases ms,
{
    Seq::new(
        ms.len(),
        |i: int|
            if 0 <= i < ms.len() {
                (ms[i].0, settled(ms[i].1))
            } else {
                (Seq::empty(), JsonView::Null)
            },
    )
}

/// The value of the library as a value of `serde_json`.
fn from_json(v: &Json) -> (r: serde_json::Value)
    ensures
        held(r) == settled(v@),
    decreases v,
{
    proof {
        json::lemma_json_view(*v);
    }
    match v {
        Json::Null => put_together(Layer::Null),
        Json::Bool(b) => put_together(Layer::Bool(*b)),
        Json::Uint(n) => put_together(Layer::Number(Some(*n), String::new())),
        Json::Number(s) => match read_value(s.as_str()) {
            Some(n) => n,
            None => put_together(Layer::Text(s.as_str().to_owned())),
        },
        Json::Text(s) => put_together(Layer::Text(s.as_str().to_owned())),
        Json::Array(items) => {
            let mut out: Vec<serde_json::Value> = Vec::new();
            let mut i: usize = 0;
            while i < items.len()
                invariant
                    i <= items@.len(),
                    *v == Json::Array(*items),
                    out@.len() == i,
                    forall|k: int| 0 <= k < i ==> held(#[trigger] out@[k]) == settled(items@[k]@),
                decreases items@.len() - i,
            {
                assert(decreases_to!(*v => v->Array_0@[i as int]));
                out.push(from_json(&items[i]));
                i += 1;
            }
            assert(held_items(out@) =~= settled_items(v@->Array_0));
            assert(settled(v@) == JsonView::Array(settled_items(v@->Array_0)));
            put_together(Layer::Array(out))
        },
        Json::Object(ms) => {
            let mut out: Vec<(String, serde_json::Value)> = Vec::new();
            let mut i: usize = 0;
            while i < ms.len()
                invariant
                    i <= ms@.len(),
                    *v == Json::Object(*ms),
                    out@.len() == i,
                    forall|k: int|
                        0 <= k < i ==> (#[trigger] out@[k]).0@ == ms@[k].0@ && held(out@[k].1)
                            == settled(ms@[k].1@),
                decreases ms@.len() - i,
            {
                assert(decreases_to!(*v => v->Object_0@[i as int].1));
                out.push((ms[i].0.as_str().to_owned(), from_json(&ms[i].1)));
                i += 1;
            }
            assert(held_members(out@) =~= settled_members(v@->Object_0));
            assert(settled(v@) == JsonView::Object(gathered(settled_members(v@->Object_0))));
            put_together(Layer::Object(out))
        },
    }
}

/// Prints a value with one member or item to a line.
pub fn pretty_text(v: &Json) -> (r: String)
    ensures
        r@ == pretty(settled(v@)),
{
    print_value(&from_json(v))
}

} // verus!

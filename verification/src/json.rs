//! JSON values.
//!
//! The members of an object stand in the order of their keys. A number that is
//! no natural number is kept as it is written.

use crate::text;
use crate::text::{same, text_at_most};
use vstd::prelude::*;

verus! {

/// A JSON value.
#[derive(Debug)]
pub enum Json {
    Null,
    Bool(bool),
    Uint(u64),
    Number(String),
    Text(String),
    Array(Vec<Json>),
    Object(Vec<(String, Json)>),
}

/// A JSON value as a mathematical value.
pub enum JsonView {
    Null,
    Bool(bool),
    Uint(u64),
    Number(Seq<char>),
    Text(Seq<char>),
    Array(Seq<JsonView>),
    Object(Seq<(Seq<char>, JsonView)>),
}

/// What a JSON value holds.
pub open spec fn json_view(v: Json) -> JsonView
    decreases v,
{
    match v {
        Json::Null => JsonView::Null,
        Json::Bool(b) => JsonView::Bool(b),
        Json::Uint(n) => JsonView::Uint(n),
        Json::Number(s) => JsonView::Number(s@),
        Json::Text(s) => JsonView::Text(s@),
        Json::Array(items) => JsonView::Array(
            Seq::new(
                items@.len(),
                |i: int|
                    if 0 <= i < items@.len() {
                        json_view(items@[i])
                    } else {
                        JsonView::Null
                    },
            ),
        ),
        Json::Object(members) => JsonView::Object(
            Seq::new(
                members@.len(),
                |i: int|
                    if 0 <= i < members@.len() {
                        (members@[i].0@, json_view(members@[i].1))
                    } else {
                        (Seq::empty(), JsonView::Null)
                    },
            ),
        ),
    }
}

impl View for Json {
    type V = JsonView;

    open spec fn view(&self) -> JsonView {
        json_view(*self)
    }
}

/// The values of a list.
pub open spec fn items_view(v: Seq<Json>) -> Seq<JsonView> {
    v.map_values(|j: Json| j@)
}

/// The members of an object.
pub open spec fn members_view(v: Seq<(String, Json)>) -> Seq<(Seq<char>, JsonView)> {
    v.map_values(|m: (String, Json)| (m.0@, m.1@))
}

/// What an array and an object hold, as the views of what they are made from.
pub proof fn lemma_json_view(v: Json)
    ensures
        v matches Json::Array(items) ==> v@ == JsonView::Array(items_view(items@)),
        v matches Json::Object(members) ==> v@ == JsonView::Object(members_view(members@)),
{
    match v {
        Json::Array(items) => {
            assert(v@->Array_0 =~= items_view(items@));
        },
        Json::Object(members) => {
            assert(v@->Object_0 =~= members_view(members@));
        },
        _ => {},
    }
}

/// An array of the given values.
pub fn array(items: Vec<Json>) -> (r: Json)
    ensures
        r@ == JsonView::Array(items_view(items@)),
        r == Json::Array(items),
{
    let r = Json::Array(items);
    proof {
        lemma_json_view(r);
    }
    r
}

/// An object of the given members.
pub fn object(members: Vec<(String, Json)>) -> (r: Json)
    ensures
        r@ == JsonView::Object(members_view(members@)),
        r == Json::Object(members),
{
    let r = Json::Object(members);
    proof {
        lemma_json_view(r);
    }
    r
}

/// No members.
pub open spec fn no_members() -> Seq<(Seq<char>, JsonView)> {
    Seq::empty()
}

/// The members of an object, none yet.
pub fn members() -> (r: Vec<(String, Json)>)
    ensures
        members_view(r@) == no_members(),
{
    let r: Vec<(String, Json)> = Vec::new();
    assert(members_view(r@) =~= no_members());
    r
}

/// The members with one more behind them.
pub fn and(ms: Vec<(String, Json)>, key: &str, value: Json) -> (r: Vec<(String, Json)>)
    ensures
        members_view(r@) == members_view(ms@).push((key@, value@)),
{
    let mut out = ms;
    let ghost before = out@;
    out.push((key.to_owned(), value));
    assert(members_view(out@) =~= members_view(before).push((key@, value@)));
    out
}

/// A number of 64 bits.
pub fn number(n: u64) -> (r: Json)
    ensures
        r@ == JsonView::Uint(n),
{
    Json::Uint(n)
}

/// True or false.
pub fn boolean(b: bool) -> (r: Json)
    ensures
        r@ == JsonView::Bool(b),
{
    Json::Bool(b)
}

/// A number as it is written.
pub fn written(s: &str) -> (r: Json)
    ensures
        r@ == JsonView::Number(s@),
{
    Json::Number(s.to_owned())
}

/// An optional text, null where there is none.
pub open spec fn optional_text_view(o: Option<Seq<char>>) -> JsonView {
    match o {
        Some(s) => JsonView::Text(s),
        None => JsonView::Null,
    }
}

/// An optional text, null where there is none.
pub fn optional_string(o: &Option<String>) -> (r: Json)
    ensures
        r@ == optional_text_view(text::optional(*o)),
{
    match o {
        Some(s) => string(s.as_str()),
        None => Json::Null,
    }
}

/// A text.
pub fn string(s: &str) -> (r: Json)
    ensures
        r@ == JsonView::Text(s@),
{
    Json::Text(s.to_owned())
}

/// A natural number.
pub fn uint(n: usize) -> (r: Json)
    ensures
        r@ == JsonView::Uint(n as u64),
{
    Json::Uint(n as u64)
}

/// A list of texts as an array.
pub fn string_array(v: &Vec<String>) -> (r: Json)
    ensures
        r@ == text_array_view(text::texts(v@)),
{
    let mut items: Vec<Json> = Vec::new();
    let mut i: usize = 0;
    while i < v.len()
        invariant
            i <= v.len(),
            items@.len() == i,
            forall|k: int| 0 <= k < i ==> (#[trigger] items@[k])@ == JsonView::Text(v@[k]@),
        decreases v.len() - i,
    {
        items.push(string(v[i].as_str()));
        i += 1;
    }
    let r = array(items);
    proof {
        assert(r@->Array_0 =~= text_array_view(text::texts(v@))->Array_0);
    }
    r
}

/// The array of some texts.
pub open spec fn text_array_view(v: Seq<Seq<char>>) -> JsonView {
    JsonView::Array(v.map_values(|t: Seq<char>| JsonView::Text(t)))
}

/// A copy of a JSON value.
pub fn copy_json(a: &Json) -> (r: Json)
    ensures
        r@ == a@,
    decreases a,
{
        match a {
            Json::Null => Json::Null,
        Json::Bool(b) => Json::Bool(*b),
        Json::Uint(n) => Json::Uint(*n),
        Json::Number(s) => Json::Number(s.clone()),
        Json::Text(s) => Json::Text(s.clone()),
        Json::Array(items) => {
            let mut out: Vec<Json> = Vec::new();
            let mut i: usize = 0;
            while i < items.len()
                invariant
                    i <= items.len(),
                    out@.len() == i,
                    *a == Json::Array(*items),
                    forall|k: int| 0 <= k < i ==> (#[trigger] out@[k])@ == items@[k]@,
                decreases items.len() - i,
            {
                assert(decreases_to!(*a => a->Array_0@[i as int]));
                let item = copy_json(&items[i]);
                out.push(item);
                i += 1;
            }
            let r = array(out);
            proof {
                lemma_json_view(*a);
                assert(items_view(out@) =~= items_view(items@));
            }
            r
        },
        Json::Object(members) => {
            let mut out: Vec<(String, Json)> = Vec::new();
            let mut i: usize = 0;
            while i < members.len()
                invariant
                    i <= members.len(),
                    out@.len() == i,
                    *a == Json::Object(*members),
                    forall|k: int|
                        0 <= k < i ==> (#[trigger] out@[k]).0@ == members@[k].0@ && out@[k].1@
                            == members@[k].1@,
                decreases members.len() - i,
            {
                assert(decreases_to!(*a => a->Object_0@[i as int].1));
                let name = members[i].0.clone();
                let item = copy_json(&members[i].1);
                out.push((name, item));
                i += 1;
            }
            let r = object(out);
            proof {
                lemma_json_view(*a);
                assert(members_view(out@) =~= members_view(members@));
            }
            r
        },
    }
}

impl Clone for Json {
    fn clone(&self) -> (r: Self)
        ensures
            r@ == self@,
    {
        copy_json(self)
    }
}

/// Whether two JSON values hold the same.
pub fn same_json(a: &Json, b: &Json) -> (r: bool)
    ensures
        r == (a@ == b@),
    decreases a,
{
    proof {
        lemma_json_view(*a);
        lemma_json_view(*b);
    }
    match (a, b) {
        (Json::Null, Json::Null) => true,
        (Json::Bool(x), Json::Bool(y)) => *x == *y,
        (Json::Uint(x), Json::Uint(y)) => *x == *y,
        (Json::Number(x), Json::Number(y)) => same(x.as_str(), y.as_str()),
        (Json::Text(x), Json::Text(y)) => same(x.as_str(), y.as_str()),
        (Json::Array(x), Json::Array(y)) => {
            if x.len() != y.len() {
                assert(items_view(x@).len() != items_view(y@).len());
                return false;
            }
            let mut i: usize = 0;
            while i < x.len()
                invariant
                    i <= x.len(),
                    x.len() == y.len(),
                    *a == Json::Array(*x),
                    a@ == JsonView::Array(items_view(x@)),
                    b@ == JsonView::Array(items_view(y@)),
                    forall|k: int| 0 <= k < i ==> (#[trigger] x@[k])@ == y@[k]@,
                decreases x.len() - i,
            {
                if !same_json(&x[i], &y[i]) {
                    assert(items_view(x@)[i as int] != items_view(y@)[i as int]);
                    return false;
                }
                i += 1;
            }
            assert(items_view(x@) =~= items_view(y@));
            true
        },
        (Json::Object(x), Json::Object(y)) => {
            if x.len() != y.len() {
                assert(members_view(x@).len() != members_view(y@).len());
                return false;
            }
            let mut i: usize = 0;
            while i < x.len()
                invariant
                    i <= x.len(),
                    x.len() == y.len(),
                    *a == Json::Object(*x),
                    a@ == JsonView::Object(members_view(x@)),
                    b@ == JsonView::Object(members_view(y@)),
                    forall|k: int|
                        0 <= k < i ==> (#[trigger] x@[k]).0@ == y@[k].0@ && x@[k].1@ == y@[k].1@,
                decreases x.len() - i,
            {
                if !same(x[i].0.as_str(), y[i].0.as_str()) || !same_json(&x[i].1, &y[i].1) {
                    assert(members_view(x@)[i as int] != members_view(y@)[i as int]);
                    return false;
                }
                i += 1;
            }
            assert(members_view(x@) =~= members_view(y@));
            true
        },
        _ => false,
    }
}

// ---------------------------------------------------------------------------
// Members
// ---------------------------------------------------------------------------

/// The value under `key` in the members of an object.
pub open spec fn member(ms: Seq<(Seq<char>, JsonView)>, key: Seq<char>) -> Option<JsonView>
    decreases ms.len(),
{
    if ms.len() == 0 {
        None
    } else if ms.first().0 == key {
        Some(ms.first().1)
    } else {
        member(ms.drop_first(), key)
    }
}

/// The members of an object with `value` under `key`: in the place of the value
/// that stood there, else in the order of the keys.
pub open spec fn with_member(
    ms: Seq<(Seq<char>, JsonView)>,
    key: Seq<char>,
    value: JsonView,
) -> Seq<(Seq<char>, JsonView)>
    decreases ms.len(),
{
    if ms.len() == 0 {
        seq![(key, value)]
    } else if ms.first().0 == key {
        seq![(key, value)] + ms.drop_first()
    } else if text::text_le(key, ms.first().0) {
        seq![(key, value)] + ms
    } else {
        seq![ms.first()] + with_member(ms.drop_first(), key, value)
    }
}

/// What is written under a key is read back under it, and nothing else changes.
pub proof fn law_member_reads_what_was_written(
    ms: Seq<(Seq<char>, JsonView)>,
    key: Seq<char>,
    value: JsonView,
    other: Seq<char>,
)
    ensures
        member(with_member(ms, key, value), key) == Some(value),
        other != key ==> member(with_member(ms, key, value), other) == member(ms, other),
    decreases ms.len(),
{
    reveal_with_fuel(member, 2);
    let r = with_member(ms, key, value);
    if ms.len() == 0 {
        assert(r.drop_first() =~= Seq::<(Seq<char>, JsonView)>::empty());
    } else if ms.first().0 == key {
        assert(r.drop_first() =~= ms.drop_first());
    } else if text::text_le(key, ms.first().0) {
        assert(r.drop_first() =~= ms);
    } else {
        law_member_reads_what_was_written(ms.drop_first(), key, value, other);
        assert(r.drop_first() =~= with_member(ms.drop_first(), key, value));
    }
}

/// The value under `key`, where `v` is an object that has one.
pub open spec fn field(v: JsonView, key: Seq<char>) -> Option<JsonView> {
    match v {
        JsonView::Object(ms) => member(ms, key),
        _ => None,
    }
}

/// The text under `key`, where `v` is an object that has one.
pub open spec fn text_field(v: JsonView, key: Seq<char>) -> Option<Seq<char>> {
    match field(v, key) {
        Some(JsonView::Text(t)) => Some(t),
        _ => None,
    }
}

proof fn lemma_member_skip(ms: Seq<(Seq<char>, JsonView)>, key: Seq<char>, i: int)
    requires
        0 <= i < ms.len(),
    ensures
        ms[i].0 == key ==> member(ms.skip(i), key) == Some(ms[i].1),
        ms[i].0 != key ==> member(ms.skip(i), key) == member(ms.skip(i + 1), key),
{
    assert(ms.skip(i).drop_first() =~= ms.skip(i + 1));
}

/// The place of `key` among the members of an object.
pub fn find_member(ms: &Vec<(String, Json)>, key: &str) -> (r: Option<usize>)
    ensures
        match r {
            Some(i) => {
                &&& i < ms@.len()
                &&& ms@[i as int].0@ == key@
                &&& member(members_view(ms@), key@) == Some(ms@[i as int].1@)
            },
            None => member(members_view(ms@), key@) is None,
        },
{
    let ghost all = members_view(ms@);
    let mut i: usize = 0;
    assert(all.skip(0) =~= all);
    while i < ms.len()
        invariant
            i <= ms.len(),
            all == members_view(ms@),
            member(all, key@) == member(all.skip(i as int), key@),
        decreases ms.len() - i,
    {
        proof {
            lemma_member_skip(all, key@, i as int);
        }
        if same(ms[i].0.as_str(), key) {
            return Some(i);
        }
        i += 1;
    }
    None
}

proof fn lemma_with_member_skip(
    ms: Seq<(Seq<char>, JsonView)>,
    key: Seq<char>,
    value: JsonView,
    i: int,
)
    requires
        0 <= i < ms.len(),
    ensures
        ms[i].0 == key ==> with_member(ms.skip(i), key, value) == seq![(key, value)] + ms.skip(
            i + 1,
        ),
        ms[i].0 != key && text::text_le(key, ms[i].0) ==> with_member(ms.skip(i), key, value)
            == seq![(key, value)] + ms.skip(i),
        ms[i].0 != key && !text::text_le(key, ms[i].0) ==> with_member(ms.skip(i), key, value)
            == seq![ms[i]] + with_member(ms.skip(i + 1), key, value),
{
    assert(ms.skip(i).drop_first() =~= ms.skip(i + 1));
}

/// Puts `value` under `key`.
pub fn set_member(ms: &mut Vec<(String, Json)>, key: &str, value: Json)
    ensures
        members_view(final(ms)@) == with_member(members_view(old(ms)@), key@, value@),
{
    let ghost before = ms@;
    let ghost all = members_view(ms@);
    let ghost target = with_member(all, key@, value@);
    let mut i: usize = 0;
    proof {
        assert(all.skip(0) =~= all);
        assert(all.take(0) + with_member(all.skip(0), key@, value@) =~= target);
    }
    while i < ms.len()
        invariant
            i <= ms.len(),
            ms@ == before,
            before == old(ms)@,
            all == members_view(before),
            target == with_member(all, key@, value@),
            target == all.take(i as int) + with_member(all.skip(i as int), key@, value@),
        decreases ms.len() - i,
    {
        proof {
            lemma_with_member_skip(all, key@, value@, i as int);
        }
        if same(ms[i].0.as_str(), key) {
            ms.set(i, (key.to_owned(), value));
            assert(members_view(ms@) =~= all.take(i as int) + (seq![(key@, value@)] + all.skip(
                i + 1,
            )));
            return;
        }
        if text_at_most(key, ms[i].0.as_str()) {
            ms.insert(i, (key.to_owned(), value));
            assert(members_view(ms@) =~= all.take(i as int) + (seq![(key@, value@)] + all.skip(
                i as int,
            )));
            return;
        }
        assert(all.take(i as int) + (seq![all[i as int]] + with_member(
            all.skip(i + 1),
            key@,
            value@,
        )) =~= all.take(i + 1) + with_member(all.skip(i + 1), key@, value@));
        i += 1;
    }
    ms.push((key.to_owned(), value));
    assert(all.skip(i as int) =~= Seq::<(Seq<char>, JsonView)>::empty());
    assert(members_view(ms@) =~= all.take(i as int) + seq![(key@, value@)]);
}

/// The value under `key`, where `v` is an object that has one.
pub fn get<'a>(v: &'a Json, key: &str) -> (r: Option<&'a Json>)
    ensures
        match r {
            Some(found) => field(v@, key@) == Some(found@),
            None => field(v@, key@) is None,
        },
{
    proof {
        lemma_json_view(*v);
    }
    match v {
        Json::Object(ms) => match find_member(ms, key) {
            Some(i) => Some(&ms[i].1),
            None => None,
        },
        _ => None,
    }
}

/// The text of a value that is one.
pub fn as_text<'a>(v: &'a Json) -> (r: Option<&'a str>)
    ensures
        match r {
            Some(t) => v@ == JsonView::Text(t@),
            None => !(v@ is Text),
        },
{
    match v {
        Json::Text(t) => Some(t.as_str()),
        _ => None,
    }
}

/// The text under `key`, where `v` is an object that has one.
pub fn get_text<'a>(v: &'a Json, key: &str) -> (r: Option<&'a str>)
    ensures
        match r {
            Some(t) => text_field(v@, key@) == Some(t@),
            None => text_field(v@, key@) is None,
        },
{
    match get(v, key) {
        Some(found) => as_text(found),
        None => None,
    }
}

} // verus!

//! JSON: values that are written, and what is read of values that were received.

use crate::text::text_eq;
use vstd::prelude::*;

verus! {

/// `serde_json::Value`.
#[verifier::external_type_specification]
#[verifier::external_body]
pub struct ExValue(serde_json::Value);

/// `serde_json::Error`.
#[verifier::external_type_specification]
#[verifier::external_body]
pub struct ExError(serde_json::Error);

/// What a JSON value holds.
pub enum JsonView {
    Null,
    Bool(bool),
    Int(int),
    /// A number that is no integer, by the bits of its binary form.
    Fraction(u64),
    Text(Seq<char>),
    Array(Seq<JsonView>),
    Object(Map<Seq<char>, JsonView>),
}

/// What a `serde_json::Value` holds: an object is a map, so the order in which its members
/// were set does not matter.
pub uninterp spec fn json_contents(value: serde_json::Value) -> JsonView;

/// The text that `serde_json::to_vec` writes for a value: on one line, the members of an object
/// in the order of their keys.
pub uninterp spec fn json_bytes(contents: JsonView) -> Seq<u8>;

/// The text that `serde_json::to_string` writes for a value.
pub uninterp spec fn json_string(contents: JsonView) -> Seq<char>;

/// `serde_json::Value::from(bool)`: the value holds the boolean.
#[verifier::external_body]
fn bool_value(b: bool) -> (r: serde_json::Value)
    ensures
        json_contents(r) == JsonView::Bool(b),
{
    serde_json::Value::from(b)
}

/// `serde_json::Value::from(i64)`: the value holds the integer.
#[verifier::external_body]
pub(crate) fn int_value(n: i64) -> (r: serde_json::Value)
    ensures
        json_contents(r) == JsonView::Int(n as int),
{
    serde_json::Value::from(n)
}

/// `serde_json::Value::from(String)`: the value holds the text.
#[verifier::external_body]
fn text_value(s: String) -> (r: serde_json::Value)
    ensures
        json_contents(r) == JsonView::Text(s@),
{
    serde_json::Value::from(s)
}

/// `serde_json::Value::from(Vec<Value>)`: the value holds the items in order.
#[verifier::external_body]
fn array_value(items: Vec<serde_json::Value>) -> (r: serde_json::Value)
    ensures
        json_contents(r) == JsonView::Array(
            Seq::new(items@.len(), |i: int| json_contents(items@[i])),
        ),
{
    serde_json::Value::from(items)
}

/// `serde_json::Map::new`, as a value: an object without members.
#[verifier::external_body]
fn object_value() -> (r: serde_json::Value)
    ensures
        json_contents(r) == JsonView::Object(Map::empty()),
{
    serde_json::Value::Object(serde_json::Map::new())
}

/// Assignment through the index of a `serde_json::Value` that is an object: the member of that
/// key is set, and replaced where it was there; the other members stay. A value that is neither
/// an object nor null has no members, and the outside code panics on it.
#[verifier::external_body]
pub(crate) fn set_member(object: &mut serde_json::Value, key: &str, value: serde_json::Value)
    requires
        json_contents(*old(object)) is Object,
    ensures
        json_contents(*final(object)) == JsonView::Object(
            json_contents(*old(object))->Object_0.insert(key@, json_contents(value)),
        ),
{
    object[key] = value;
}

/// `serde_json::to_vec`. A `Value` has only text as keys and is written to memory, so there is
/// nothing in it that fails; the text depends on what the value holds alone.
#[verifier::external_body]
pub(crate) fn to_vec(value: &serde_json::Value) -> (r: Result<Vec<u8>, serde_json::Error>)
    ensures
        r is Ok,
        r->Ok_0@ == json_bytes(json_contents(*value)),
{
    serde_json::to_vec(value)
}

/// `serde_json::to_string`. As with `serde_json::to_vec` nothing in a `Value` makes it fail,
/// and the text depends on what the value holds alone.
#[verifier::external_body]
fn to_string(value: &serde_json::Value) -> (r: Result<String, serde_json::Error>)
    ensures
        r is Ok,
        r->Ok_0@ == json_string(json_contents(*value)),
{
    serde_json::to_string(value)
}

/// A JSON value that is written.
#[derive(Debug)]
pub enum Json {
    Bool(bool),
    Int(i64),
    Text(String),
    Array(Vec<Json>),
    /// An object; of members with the same key the last one counts.
    Object(Vec<(String, Json)>),
}

impl Json {
    pub open spec fn view(&self) -> JsonView
        decreases self,
    {
        match *self {
            Json::Bool(b) => JsonView::Bool(b),
            Json::Int(n) => JsonView::Int(n as int),
            Json::Text(s) => JsonView::Text(s@),
            Json::Array(items) => JsonView::Array(Json::items_view(items@)),
            Json::Object(members) => JsonView::Object(Json::members_view(members@)),
        }
    }

    pub open spec fn items_view(items: Seq<Json>) -> Seq<JsonView>
        decreases items,
    {
        if items.len() == 0 {
            Seq::empty()
        } else {
            Json::items_view(items.drop_last()).push(items.last().view())
        }
    }

    pub open spec fn members_view(members: Seq<(String, Json)>) -> Map<Seq<char>, JsonView>
        decreases members,
    {
        if members.len() == 0 {
            Map::empty()
        } else {
            Json::members_view(members.drop_last()).insert(
                members.last().0@,
                members.last().1.view(),
            )
        }
    }

    /// The text.
    pub fn text(s: &str) -> (r: Json)
        ensures
            r.view() == JsonView::Text(s@),
    {
        Json::Text(s.to_owned())
    }

    /// An object without members.
    pub fn object() -> (r: Json)
        ensures
            r.view() == JsonView::Object(Map::empty()),
    {
        Json::Object(Vec::new())
    }

    /// The object with this member set.
    pub fn with(self, key: &str, value: Json) -> (r: Json)
        requires
            self.view() is Object,
        ensures
            r.view() == JsonView::Object(self.view()->Object_0.insert(key@, value.view())),
    {
        match self {
            Json::Object(members) => {
                let mut members = members;
                let ghost before = members@;
                members.push((key.to_owned(), value));
                assert(members@.drop_last() =~= before);
                Json::Object(members)
            },
            other => other,
        }
    }

    /// The value as `serde_json` holds it.
    pub fn to_value(&self) -> (r: serde_json::Value)
        ensures
            json_contents(r) == self.view(),
        decreases self,
    {
        match self {
            Json::Bool(b) => bool_value(*b),
            Json::Int(n) => int_value(*n),
            Json::Text(s) => text_value(s.clone()),
            Json::Array(items) => {
                let mut values: Vec<serde_json::Value> = Vec::new();
                let mut i: usize = 0;
                while i < items.len()
                    invariant
                        i <= items.len(),
                        values@.len() == i,
                        self == Json::Array(*items),
                        Seq::new(values@.len(), |k: int| json_contents(values@[k]))
                            == Json::items_view(items@.take(i as int)),
                    decreases items.len() - i,
                {
                    let ghost before = values@;
                    assert(decreases_to!(self => self->Array_0@[i as int]));
                    values.push(items[i].to_value());
                    proof {
                        let taken = items@.take(i + 1);
                        assert(taken.drop_last() =~= items@.take(i as int));
                        assert(Seq::new(values@.len(), |k: int| json_contents(values@[k]))
                            =~= Seq::new(before.len(), |k: int| json_contents(before[k])).push(
                            items@[i as int].view(),
                        ));
                    }
                    i += 1;
                }
                assert(items@.take(i as int) =~= items@);
                array_value(values)
            },
            Json::Object(members) => {
                let mut value = object_value();
                let mut i: usize = 0;
                while i < members.len()
                    invariant
                        i <= members.len(),
                        self == Json::Object(*members),
                        json_contents(value) == JsonView::Object(
                            Json::members_view(members@.take(i as int)),
                        ),
                    decreases members.len() - i,
                {
                    assert(decreases_to!(self => self->Object_0@[i as int].1));
                    let member = members[i].1.to_value();
                    set_member(&mut value, members[i].0.as_str(), member);
                    assert(members@.take(i + 1).drop_last() =~= members@.take(i as int));
                    i += 1;
                }
                assert(members@.take(i as int) =~= members@);
                value
            },
        }
    }

    /// The value as JSON text.
    pub fn to_text(&self) -> (r: String)
        ensures
            r@ == json_string(self.view()),
    {
        match to_string(&self.to_value()) {
            Ok(s) => s,
            Err(_) => String::new(),
        }
    }
}

/// A JSON value that was received.
#[derive(Debug)]
pub enum Payload {
    Null,
    Bool(bool),
    /// An integer of 64 bits.
    Int(i64),
    /// Any other number.
    Number,
    Text(String),
    Array(Vec<Payload>),
    Object(Vec<(String, Payload)>),
}

/// The member of that key, where there is one.
pub open spec fn member(members: Seq<(String, Payload)>, key: Seq<char>) -> Option<Payload>
    decreases members.len(),
{
    if members.len() == 0 {
        None
    } else if members[0].0@ == key {
        Some(members[0].1)
    } else {
        member(members.drop_first(), key)
    }
}

/// The member of that key of a value, which only an object has.
pub open spec fn field(value: Payload, key: Seq<char>) -> Option<Payload> {
    match value {
        Payload::Object(members) => member(members@, key),
        _ => None,
    }
}

/// The text that a value is, where it is one.
pub open spec fn text_of(value: Payload) -> Option<Seq<char>> {
    match value {
        Payload::Text(s) => Some(s@),
        _ => None,
    }
}

pub open spec fn is_number(value: Payload) -> bool {
    value is Int || value is Number
}

pub fn find_member<'a>(members: &'a Vec<(String, Payload)>, key: &str) -> (r: Option<&'a Payload>)
    ensures
        match r {
            Some(value) => member(members@, key@) == Some(*value),
            None => member(members@, key@) is None,
        },
{
    let mut i: usize = 0;
    assert(members@.skip(0) =~= members@);
    while i < members.len()
        invariant
            i <= members.len(),
            member(members@, key@) == member(members@.skip(i as int), key@),
        decreases members.len() - i,
    {
        assert(members@.skip(i as int).drop_first() =~= members@.skip(i + 1));
        if text_eq(members[i].0.as_str(), key) {
            return Some(&members[i].1);
        }
        i += 1;
    }
    None
}

impl Payload {
    pub fn get(&self, key: &str) -> (r: Option<&Payload>)
        ensures
            match r {
                Some(value) => field(*self, key@) == Some(*value),
                None => field(*self, key@) is None,
            },
    {
        match self {
            Payload::Object(members) => find_member(members, key),
            _ => None,
        }
    }

    /// The text that the value is; `default` where it is none.
    pub fn text_or<'a>(&'a self, default: &'a str) -> (r: &'a str)
        ensures
            r@ == match text_of(*self) {
                Some(s) => s,
                None => default@,
            },
    {
        match self {
            Payload::Text(s) => s.as_str(),
            _ => default,
        }
    }

    pub fn is_number(&self) -> (r: bool)
        ensures
            r == is_number(*self),
    {
        match self {
            Payload::Int(_) => true,
            Payload::Number => true,
            _ => false,
        }
    }
}

} // verus!

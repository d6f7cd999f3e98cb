//! JSON: what is sent, as a tree of the library's own, and what is read,
//! through `serde_json`.

use crate::number;
use crate::text;
use vstd::prelude::*;

verus! {

// ---------------------------------------------------------------------
// What is sent
// ---------------------------------------------------------------------

/// A JSON value to be sent.
#[derive(Debug)]
pub enum Json {
    Int(i64),
    /// A number with a fraction, as it is written.
    Decimal(String),
    Text(String),
    Array(Vec<Json>),
    Object(Vec<(String, Json)>),
}

/// What a JSON value to be sent says. An object's members stand in the
/// order in which they are written.
#[verifier::ext_equal]
pub enum JsonView {
    Int(int),
    Decimal(Seq<char>),
    Text(Seq<char>),
    Array(Seq<JsonView>),
    Object(Seq<(Seq<char>, JsonView)>),
}

impl View for Json {
    type V = JsonView;

    open spec fn view(&self) -> JsonView {
        json_view(*self)
    }
}

pub open spec fn json_view(j: Json) -> JsonView
    decreases j,
{
    match j {
        Json::Int(n) => JsonView::Int(n as int),
        Json::Decimal(s) => JsonView::Decimal(s@),
        Json::Text(s) => JsonView::Text(s@),
        Json::Array(v) => JsonView::Array(
            Seq::new(
                v@.len(),
                |i: int|
                    if 0 <= i < v@.len() {
                        json_view(v@[i])
                    } else {
                        JsonView::Int(0)
                    },
            ),
        ),
        Json::Object(v) => JsonView::Object(
            Seq::new(
                v@.len(),
                |i: int|
                    if 0 <= i < v@.len() {
                        (v@[i].0@, json_view(v@[i].1))
                    } else {
                        (Seq::<char>::empty(), JsonView::Int(0))
                    },
            ),
        ),
    }
}

/// A text as JSON.
pub fn text_value(s: &str) -> (r: Json)
    ensures
        r@ == JsonView::Text(s@),
{
    Json::Text(s.to_owned())
}

/// A list of values as JSON.
pub fn array_of(items: Vec<Json>) -> (r: Json)
    ensures
        r@ == JsonView::Array(items@.map_values(|j: Json| j@)),
{
    let r = Json::Array(items);
    assert(r@->Array_0 =~= items@.map_values(|j: Json| j@));
    r
}

/// The members of an object, as they read.
pub open spec fn members_view(members: Seq<(String, Json)>) -> Seq<(Seq<char>, JsonView)> {
    members.map_values(|m: (String, Json)| (m.0@, m.1@))
}

/// Members as a JSON object.
pub fn object_of(members: Vec<(String, Json)>) -> (r: Json)
    ensures
        r@ == JsonView::Object(members_view(members@)),
{
    let r = Json::Object(members);
    assert(r@->Object_0 =~= members_view(members@));
    r
}

/// Adds a member to those that an object is going to have.
pub fn put(members: &mut Vec<(String, Json)>, key: &str, value: Json)
    ensures
        members_view(final(members)@) == members_view(old(members)@).push((key@, value@)),
{
    members.push((key.to_owned(), value));
    assert(members_view(members@) =~= members_view(old(members)@).push((key@, value@)));
}

// ---------------------------------------------------------------------
// What is read
// ---------------------------------------------------------------------

/// `serde_json::Value`: a JSON document that has been read.
#[verifier::external_type_specification]
#[verifier::external_body]
pub struct ExValue(serde_json::Value);

/// What a JSON document that has been read says. Of a number only that it
/// is one is kept.
pub enum Document {
    Null,
    Bool(bool),
    Number,
    Text(Seq<char>),
    Array(Seq<Document>),
    Object(Map<Seq<char>, Document>),
}

/// What a `serde_json::Value` holds.
pub uninterp spec fn document(v: serde_json::Value) -> Document;

/// What the values of a list hold.
pub open spec fn documents(v: Seq<serde_json::Value>) -> Seq<Document> {
    v.map_values(|x: serde_json::Value| document(x))
}

/// What `serde_json::from_str` makes of a text: a document, or its
/// complaint.
pub uninterp spec fn json_reading(source: Seq<char>) -> Result<Document, Seq<char>>;

/// What an attempt to read a document gave.
pub open spec fn reading(r: Result<serde_json::Value, String>) -> Result<Document, Seq<char>> {
    match r {
        Ok(v) => Ok(document(v)),
        Err(e) => Err(e@),
    }
}

/// `serde_json::from_str` into a `serde_json::Value`, with the error it
/// returns as its text. Only that the outcome depends on the text alone is
/// claimed.
#[verifier::external_body]
pub(crate) fn read_json(source: &str) -> (r: Result<serde_json::Value, String>)
    ensures
        reading(r) == json_reading(source@),
{
    match serde_json::from_str(source) {
        Ok(v) => Ok(v),
        Err(e) => Err(e.to_string()),
    }
}

/// `serde_json::Value::as_str`: the text, if the value is one.
pub assume_specification[ serde_json::Value::as_str ](v: &serde_json::Value) -> (r: Option<&str>)
    ensures
        (match document(*v) {
            Document::Text(s) => r is Some && r->0@ == s,
            _ => r is None,
        }),
;

/// `serde_json::Value::as_array`: the list of values, if the value is an
/// array.
pub assume_specification[ serde_json::Value::as_array ](v: &serde_json::Value) -> (r: Option<
    &Vec<serde_json::Value>,
>)
    ensures
        (match document(*v) {
            Document::Array(items) => r is Some && documents(r->0@) == items,
            _ => r is None,
        }),
;

/// `serde_json::Value::get` with a number: the value at that place, if the
/// value is an array that long.
#[verifier::external_body]
pub(crate) fn element(v: &serde_json::Value, index: usize) -> (r: Option<&serde_json::Value>)
    ensures
        (match document(*v) {
            Document::Array(items) => if index < items.len() {
                r is Some && document(*r->0) == items[index as int]
            } else {
                r is None
            },
            _ => r is None,
        }),
{
    v.get(index)
}

/// The place in an array that a part of a JSON pointer names: a decimal
/// number without a sign and without a zero before other digits.
pub open spec fn index_in(token: Seq<char>) -> Option<nat> {
    if token.len() > 0 && (token[0] == '+' || (token[0] == '0' && token.len() != 1)) {
        None
    } else {
        number::unsigned_in(token, usize::MAX as nat)
    }
}

/// The value that is reached from a document by a JSON pointer's parts, one
/// after the other: by name in an object, by place in an array.
pub open spec fn reached(d: Document, tokens: Seq<Seq<char>>) -> Option<Document>
    decreases tokens.len(),
{
    if tokens.len() == 0 {
        Some(d)
    } else {
        let token = text::replaced(text::replaced(tokens[0], seq!['~', '1'], seq!['/']), seq!['~', '0'], seq!['~']);
        match d {
            Document::Object(members) => if members.contains_key(token) {
                reached(members[token], tokens.skip(1))
            } else {
                None
            },
            Document::Array(items) => match index_in(token) {
                Some(i) => if i < items.len() {
                    reached(items[i as int], tokens.skip(1))
                } else {
                    None
                },
                None => None,
            },
            _ => None,
        }
    }
}

/// The value that a JSON pointer names, if there is one.
pub open spec fn pointed(d: Document, pointer: Seq<char>) -> Option<Document> {
    if pointer.len() == 0 {
        Some(d)
    } else if pointer[0] != '/' {
        None
    } else {
        reached(d, text::pieces(pointer, text::Delimiter::Char('/')).skip(1))
    }
}

/// `serde_json::Value::pointer`: the value that a JSON pointer names, found
/// as RFC 6901 has it.
pub assume_specification<'a>[ serde_json::Value::pointer ](
    v: &'a serde_json::Value,
    pointer: &str,
) -> (r: Option<&'a serde_json::Value>)
    ensures
        (match pointed(document(*v), pointer@) {
            Some(d) => r is Some && document(*r->0) == d,
            None => r is None,
        }),
;

// ---------------------------------------------------------------------
// Laws
// ---------------------------------------------------------------------

/// A text becomes a JSON text of its characters.
pub proof fn law_text_value(s: &str, r: Json)
    requires
        call_ensures(text_value, (s,), r),
    ensures
        r matches Json::Text(t) && t@ == s@,
{
}

/// An array holds its items in their order.
pub proof fn law_array(items: Vec<Json>, r: Json, i: int)
    requires
        call_ensures(array_of, (items,), r),
    ensures
        r matches Json::Array(v) && v@.len() == items@.len() && (0 <= i < items@.len() ==> v@[i]@
            == items@[i]@),
{
    let inner = items@.map_values(|j: Json| j@);
    assert(json_view(r) == JsonView::Array(inner));
    if let Json::Array(v) = r {
        assert(json_view(r)->Array_0.len() == v@.len());
        if 0 <= i < items@.len() {
            assert(json_view(r)->Array_0[i] == json_view(v@[i]));
            assert(inner[i] == items@[i]@);
        }
    }
}

/// An object holds its members in their order.
pub proof fn law_object(members: Vec<(String, Json)>, r: Json, i: int)
    requires
        call_ensures(object_of, (members,), r),
    ensures
        r matches Json::Object(v) && v@.len() == members@.len() && (0 <= i < members@.len()
            ==> v@[i].0@ == members@[i].0@ && v@[i].1@ == members@[i].1@),
{
    assert(json_view(r) == JsonView::Object(members_view(members@)));
    if let Json::Object(v) = r {
        assert(json_view(r)->Object_0.len() == v@.len());
        if 0 <= i < members@.len() {
            assert(json_view(r)->Object_0[i] == (v@[i].0@, json_view(v@[i].1)));
            assert(members_view(members@)[i] == (members@[i].0@, members@[i].1@));
        }
    }
}

/// A member is put behind the others.
pub proof fn law_member_is_put_last(
    members: &mut Vec<(String, Json)>,
    key: &str,
    value: Json,
    i: int,
)
    requires
        call_ensures(put, (members, key, value), ()),
    ensures
        final(members)@.len() == old(members)@.len() + 1,
        final(members)@.last().0@ == key@,
        final(members)@.last().1@ == value@,
        0 <= i < old(members)@.len() ==> final(members)@[i].0@ == old(members)@[i].0@
            && final(members)@[i].1@ == old(members)@[i].1@,
{
    let a = members_view(old(members)@);
    let b = members_view(final(members)@);
    assert(b.len() == final(members)@.len());
    assert(b[a.len() as int] == (final(members)@.last().0@, final(members)@.last().1@));
    if 0 <= i < old(members)@.len() {
        assert(b[i] == (final(members)@[i].0@, final(members)@[i].1@));
        assert(a[i] == (old(members)@[i].0@, old(members)@[i].1@));
    }
}

} // verus!

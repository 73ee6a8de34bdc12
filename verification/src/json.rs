//! JSON documents as plain values, and the bridge to the JSON parser.
//!
//! Reading text is left to `serde_json`. What it hands back is walked once and
//! copied into [`Json`], a plain tree that the rest of the crate reasons about.

use crate::text::same_text;
use vstd::prelude::*;

verus! {

/// A JSON number, by the way it is written.
///
/// `Unsigned` is an integer without a sign, `Negative` an integer below zero,
/// and `Real` any other number: one with a fraction or an exponent, a negative
/// zero, or an integer too large for 128 bits.
#[derive(Clone, Copy, Debug, PartialEq, Eq)]
pub enum Number {
    Unsigned(u128),
    Negative(i128),
    Real,
}

/// A JSON document held as plain values. The members of an object are kept as
/// a list, in the order in which they were handed over.
#[derive(Debug, PartialEq, Eq)]
pub enum Json {
    Null,
    Bool(bool),
    Number(Number),
    String(String),
    Array(Vec<Json>),
    Object(Vec<(String, Json)>),
}

/// The mathematical value of a JSON document.
pub enum JsonView {
    Null,
    Bool(bool),
    Number(Number),
    Text(Seq<char>),
    Array(Seq<JsonView>),
    Object(Seq<(Seq<char>, JsonView)>),
}

/// The value of a document: scalars as they are, an array as the values of
/// its elements, an object as the names and values of its members.
pub open spec fn json_view(j: Json) -> JsonView
    decreases j,
{
    match j {
        Json::Null => JsonView::Null,
        Json::Bool(b) => JsonView::Bool(b),
        Json::Number(n) => JsonView::Number(n),
        Json::String(s) => JsonView::Text(s@),
        Json::Array(items) => JsonView::Array(
            Seq::new(
                items@.len(),
                |i: int|
                    if 0 <= i < items@.len() {
                        json_view(items@[i])
                    } else {
                        JsonView::Null
                    },
            ),
        ),
        Json::Object(members) => JsonView::Object(
            Seq::new(
                members@.len(),
                |i: int|
                    if 0 <= i < members@.len() {
                        (members@[i].0@, json_view(members@[i].1))
                    } else {
                        (Seq::empty(), JsonView::Null)
                    },
            ),
        ),
    }
}

impl View for Json {
    type V = JsonView;

    open spec fn view(&self) -> JsonView {
        json_view(*self)
    }
}

/// The values of a list of documents, in order.
pub open spec fn items_view(items: Seq<Json>) -> Seq<JsonView> {
    Seq::new(items.len(), |i: int| items[i]@)
}

/// The members of an object as names and values, in order.
pub open spec fn members_view(members: Seq<(String, Json)>) -> Seq<(Seq<char>, JsonView)> {
    Seq::new(members.len(), |i: int| (members[i].0@, members[i].1@))
}

/// The value of an array is the list of its elements' values.
pub proof fn lemma_array_view(items: Vec<Json>)
    ensures
        Json::Array(items)@ == JsonView::Array(items_view(items@)),
{
    assert(Json::Array(items)@->Array_0 =~= items_view(items@));
}

/// The value of an object is the list of its members' names and values.
pub proof fn lemma_object_view(members: Vec<(String, Json)>)
    ensures
        Json::Object(members)@ == JsonView::Object(members_view(members@)),
{
    assert(Json::Object(members)@->Object_0 =~= members_view(members@));
}

/// The member of the given name: the last one, where the name is listed more
/// than once.
pub open spec fn member(members: Seq<(Seq<char>, JsonView)>, name: Seq<char>) -> Option<JsonView>
    decreases members.len(),
{
    if members.len() == 0 {
        None
    } else if members.last().0 == name {
        Some(members.last().1)
    } else {
        member(members.drop_last(), name)
    }
}

/// Members behind which the name does not occur again decide the lookup.
pub proof fn lemma_member_prefix(members: Seq<(Seq<char>, JsonView)>, name: Seq<char>, n: int)
    requires
        0 <= n <= members.len(),
        forall|j: int| n <= j < members.len() ==> (#[trigger] members[j]).0 != name,
    ensures
        member(members, name) == member(members.take(n), name),
    decreases members.len(),
{
    if n == members.len() {
        assert(members.take(n) =~= members);
    } else {
        assert(members.last() == members[members.len() - 1]);
        assert(members.drop_last().take(n) =~= members.take(n));
        lemma_member_prefix(members.drop_last(), name, n);
    }
}

/// Looking up a name behind one more member: the new member answers for its
/// own name, the members before it for every other.
pub proof fn lemma_member_push(
    members: Seq<(Seq<char>, JsonView)>,
    name: Seq<char>,
    value: JsonView,
    wanted: Seq<char>,
)
    ensures
        member(members.push((name, value)), wanted) == if name == wanted {
            Some(value)
        } else {
            member(members, wanted)
        },
{
    assert(members.push((name, value)).drop_last() =~= members);
}

/// Looks up the member of the given name among the members of an object.
pub fn find_member<'a>(members: &'a Vec<(String, Json)>, name: &str) -> (r: Option<&'a Json>)
    ensures
        match r {
            Some(j) => member(members_view(members@), name@) == Some(j@),
            None => member(members_view(members@), name@) is None,
        },
{
    let ghost all = members_view(members@);
    let mut n: usize = members.len();
    while n > 0
        invariant
            n <= members.len(),
            all == members_view(members@),
            forall|j: int| n <= j < all.len() ==> (#[trigger] all[j]).0 != name@,
        decreases n,
    {
        if same_text(members[n - 1].0.as_str(), name) {
            proof {
                lemma_member_prefix(all, name@, n as int);
                assert(all.take(n as int).last() == all[n - 1]);
            }
            return Some(&members[n - 1].1);
        }
        n = n - 1;
    }
    proof {
        lemma_member_prefix(all, name@, 0);
        assert(all.take(0).len() == 0);
    }
    None
}

/// `serde_json::Value`, the parser's own document type. Its inside is not
/// visible here; [`value_model`] names what it holds.
#[verifier::external_type_specification]
#[verifier::external_body]
pub struct ExValue(serde_json::Value);

/// `serde_json::Error`, carried from the parser to [`describe`].
#[verifier::external_type_specification]
#[verifier::external_body]
pub struct ExSyntaxError(serde_json::Error);

/// The document that a `serde_json::Value` holds: its variant, and under it
/// the scalar, the elements in order, or the members in the order in which the
/// value's map walks them.
pub uninterp spec fn value_model(v: serde_json::Value) -> JsonView;

/// What `serde_json::from_str` makes of a text: the document it reads, or
/// `None` where it reports an error.
pub uninterp spec fn json_document(text: Seq<char>) -> Option<JsonView>;

/// `serde_json::Value::is_null`: true exactly for the `Null` variant.
pub assume_specification[ serde_json::Value::is_null ](v: &serde_json::Value) -> (r: bool)
    ensures
        r == (value_model(*v) is Null),
;

/// `serde_json::Value::as_bool`: the boolean of a `Bool`, `None` for every
/// other variant.
pub assume_specification[ serde_json::Value::as_bool ](v: &serde_json::Value) -> (r: Option<bool>)
    ensures
        match r {
            Some(b) => value_model(*v) == JsonView::Bool(b),
            None => !(value_model(*v) is Bool),
        },
;

/// `serde_json::Value::as_str`: the text of a `String`, `None` for every other
/// variant.
pub assume_specification<'a>[ serde_json::Value::as_str ](v: &'a serde_json::Value) -> (r: Option<
    &'a str,
>)
    ensures
        match r {
            Some(s) => value_model(*v) == JsonView::Text(s@),
            None => !(value_model(*v) is Text),
        },
;

/// `serde_json::Value::as_array`: the vector of an `Array`, whose elements
/// are the document's elements in order; `None` for every other variant.
pub assume_specification<'a>[ serde_json::Value::as_array ](v: &'a serde_json::Value) -> (r: Option<
    &'a Vec<serde_json::Value>,
>)
    ensures
        match r {
            Some(items) => value_model(*v) == JsonView::Array(
                items@.map_values(|x: serde_json::Value| value_model(x)),
            ),
            None => !(value_model(*v) is Array),
        },
;

/// `serde_json::Value::as_number`, then `serde_json::Number::as_u128`: the
/// integer where the value is a number that is written as an integer without
/// a sign and fits 128 bits, `None` for every other number and every other
/// variant.
#[verifier::external_body]
fn value_as_u128(v: &serde_json::Value) -> (r: Option<u128>)
    ensures
        match r {
            Some(n) => value_model(*v) == JsonView::Number(Number::Unsigned(n)),
            None => !(value_model(*v) matches JsonView::Number(Number::Unsigned(_))),
        },
{
    v.as_number().and_then(serde_json::Number::as_u128)
}

/// `serde_json::Value::as_number`, then `serde_json::Number::as_i128`: the
/// integer where the value is a number that is written as an integer and fits
/// 128 bits with a sign. A result below zero is the value of a `Negative`; any
/// other result comes from a number that is no `Negative`; without a result
/// the document is no `Negative` either.
#[verifier::external_body]
fn value_as_i128(v: &serde_json::Value) -> (r: Option<i128>)
    ensures
        match r {
            Some(i) => if i < 0 {
                value_model(*v) == JsonView::Number(Number::Negative(i))
            } else {
                value_model(*v) matches JsonView::Number(n) && !(n is Negative)
            },
            None => !(value_model(*v) matches JsonView::Number(Number::Negative(_))),
        },
{
    v.as_number().and_then(serde_json::Number::as_i128)
}

/// `serde_json::Value::as_object` and `serde_json::Map::iter`: the members of
/// an `Object`, each as its key and its value, in the order in which the map
/// walks them; `None` for every other variant.
#[verifier::external_body]
fn value_members(v: &serde_json::Value) -> (r: Option<Vec<(&String, &serde_json::Value)>>)
    ensures
        match r {
            Some(members) => value_model(*v) == JsonView::Object(
                Seq::new(
                    members@.len(),
                    |i: int| (members@[i].0@, value_model(*members@[i].1)),
                ),
            ),
            None => !(value_model(*v) is Object),
        },
{
    v.as_object().map(|m| m.iter().collect())
}

/// `serde_json::from_str` at the type `serde_json::Value`: the value holds the
/// document that [`json_document`] names for the text, and an error comes
/// exactly where that is `None`.
#[verifier::external_body]
fn read_value(text: &str) -> (r: Result<serde_json::Value, serde_json::Error>)
    ensures
        match r {
            Ok(v) => json_document(text@) == Some(value_model(v)),
            Err(_) => json_document(text@) is None,
        },
{
    serde_json::from_str(text)
}

/// The `Display` text of a `serde_json::Error`. Nothing is claimed of it.
#[verifier::external_body]
fn describe(e: &serde_json::Error) -> String {
    e.to_string()
}

impl Json {
    /// Copies a parser value into a plain document.
    pub fn from_value(v: &serde_json::Value) -> (j: Json)
        ensures
            j@ == value_model(*v),
        decreases value_model(*v),
    {
        if v.is_null() {
            return Json::Null;
        }
        if let Some(b) = v.as_bool() {
            return Json::Bool(b);
        }
        if let Some(s) = v.as_str() {
            return Json::String(s.to_owned());
        }
        if let Some(items) = v.as_array() {
            let mut out: Vec<Json> = Vec::new();
            let mut i: usize = 0;
            while i < items.len()
                invariant
                    i <= items.len(),
                    out.len() == i,
                    value_model(*v) == JsonView::Array(
                        items@.map_values(|x: serde_json::Value| value_model(x)),
                    ),
                    forall|k: int| 0 <= k < i ==> (#[trigger] out@[k])@ == value_model(items@[k]),
                decreases items.len() - i,
            {
                proof {
                    let children = value_model(*v)->Array_0;
                    assert(children[i as int] == value_model(items@[i as int]));
                    assert(decreases_to!(value_model(*v) => children[i as int]));
                }
                let child = Json::from_value(&items[i]);
                out.push(child);
                i = i + 1;
            }
            let j = Json::Array(out);
            assert(j@->Array_0 =~= value_model(*v)->Array_0);
            return j;
        }
        if let Some(members) = value_members(v) {
            let mut out: Vec<(String, Json)> = Vec::new();
            let mut i: usize = 0;
            while i < members.len()
                invariant
                    i <= members.len(),
                    out.len() == i,
                    value_model(*v) == JsonView::Object(
                        Seq::new(
                            members@.len(),
                            |k: int| (members@[k].0@, value_model(*members@[k].1)),
                        ),
                    ),
                    forall|k: int|
                        0 <= k < i ==> (#[trigger] out@[k]).0@ == members@[k].0@ && out@[k].1@
                            == value_model(*members@[k].1),
                decreases members.len() - i,
            {
                proof {
                    let listed = value_model(*v)->Object_0;
                    assert(listed[i as int].1 == value_model(*members@[i as int].1));
                    assert(decreases_to!(value_model(*v) => listed[i as int].1));
                }
                let key = members[i].0.clone();
                let child = Json::from_value(members[i].1);
                out.push((key, child));
                i = i + 1;
            }
            let j = Json::Object(out);
            assert(j@->Object_0 =~= value_model(*v)->Object_0);
            return j;
        }
        if let Some(n) = value_as_u128(v) {
            return Json::Number(Number::Unsigned(n));
        }
        match value_as_i128(v) {
            Some(i) => if i < 0 {
                Json::Number(Number::Negative(i))
            } else {
                Json::Number(Number::Real)
            },
            None => Json::Number(Number::Real),
        }
    }

    /// Reads a text as one JSON document. An error carries the parser's own
    /// description of what it found.
    pub fn parse(text: &str) -> (r: Result<Json, String>)
        ensures
            match r {
                Ok(j) => json_document(text@) == Some(j@),
                Err(_) => json_document(text@) is None,
            },
    {
        match read_value(text) {
            Ok(v) => Ok(Json::from_value(&v)),
            Err(e) => Err(describe(&e)),
        }
    }
}

} // verus!


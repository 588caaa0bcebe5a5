//! JSON documents, as the transport exchanges them.

use crate::error::CockpitError;
use vstd::prelude::*;

verus! {

/// `serde_json::Number`: a JSON number, carried through without a look inside.
#[verifier::external_type_specification]
#[verifier::external_body]
pub struct ExNumber(serde_json::Number);

/// `serde_json::Value`: a document in the form that the printer takes.
#[verifier::external_type_specification]
#[verifier::external_body]
pub struct ExValue(serde_json::Value);

/// `serde_json::Map`: the members of an object, in the form that the printer takes.
#[verifier::external_type_specification]
#[verifier::external_body]
#[verifier::reject_recursive_types(K)]
#[verifier::reject_recursive_types(V)]
pub struct ExMap<K, V>(serde_json::Map<K, V>);

/// `serde_json::Error`: what the printer may return in place of a text.
#[verifier::external_type_specification]
#[verifier::external_body]
pub struct ExError(serde_json::Error);

/// A JSON document.
#[derive(Debug)]
pub enum Json {
    Null,
    Bool(bool),
    Number(serde_json::Number),
    Text(String),
    Array(Vec<Json>),
    /// The members of an object. Of two with one key, the later one counts.
    Object(Vec<Member>),
}

/// A member of a JSON object.
#[derive(Debug)]
pub struct Member {
    pub key: String,
    pub value: Json,
}

/// What a JSON document says.
pub enum JsonModel {
    Null,
    Bool(bool),
    Number(serde_json::Number),
    Text(Seq<char>),
    Array(Seq<JsonModel>),
    Object(Map<Seq<char>, JsonModel>),
}

impl Json {
    pub open spec fn model(self) -> JsonModel
        decreases self,
    {
        match self {
            Json::Null => JsonModel::Null,
            Json::Bool(b) => JsonModel::Bool(b),
            Json::Number(n) => JsonModel::Number(n),
            Json::Text(text) => JsonModel::Text(text@),
            Json::Array(items) => JsonModel::Array(item_models(items@)),
            Json::Object(members) => JsonModel::Object(member_models(members@)),
        }
    }
}

pub open spec fn item_models(items: Seq<Json>) -> Seq<JsonModel>
    decreases items,
{
    if items.len() == 0 {
        Seq::empty()
    } else {
        item_models(items.drop_last()).push(items.last().model())
    }
}

pub open spec fn member_models(members: Seq<Member>) -> Map<Seq<char>, JsonModel>
    decreases members,
{
    if members.len() == 0 {
        Map::empty()
    } else {
        let last = members.last();
        member_models(members.drop_last()).insert(last.key@, last.value.model())
    }
}

impl View for Json {
    type V = JsonModel;

    open spec fn view(&self) -> JsonModel {
        self.model()
    }
}

/// The JSON number for an integer.
pub uninterp spec fn number_of(i: i64) -> serde_json::Number;

/// Calls `serde_json::Number::from` with an `i64`. Believed of it: the result depends on the
/// integer alone, and `number_of` names it.
#[verifier::external_body]
fn number_from(i: i64) -> (number: serde_json::Number)
    ensures
        number == number_of(i),
{
    serde_json::Number::from(i)
}

impl JsonModel {
    /// The number for an integer.
    pub open spec fn integer(i: i64) -> JsonModel {
        JsonModel::Number(number_of(i))
    }

    /// The object without members.
    pub open spec fn object() -> JsonModel {
        JsonModel::Object(Map::empty())
    }

    /// The array without items.
    pub open spec fn array() -> JsonModel {
        JsonModel::Array(Seq::empty())
    }

    /// An object with one more member; what is no object stays as it is.
    pub open spec fn with(self, key: Seq<char>, value: JsonModel) -> JsonModel {
        match self {
            JsonModel::Object(members) => JsonModel::Object(members.insert(key, value)),
            _ => self,
        }
    }

    /// An array with one more item; what is no array stays as it is.
    pub open spec fn and(self, item: JsonModel) -> JsonModel {
        match self {
            JsonModel::Array(items) => JsonModel::Array(items.push(item)),
            _ => self,
        }
    }

    /// The member of an object with the given key.
    pub open spec fn get(self, key: Seq<char>) -> Option<JsonModel> {
        match self {
            JsonModel::Object(members) => if members.contains_key(key) {
                Some(members[key])
            } else {
                None
            },
            _ => None,
        }
    }
}

impl Json {
    /// A text.
    pub fn text(text: &str) -> (json: Json)
        ensures
            json@ == JsonModel::Text(text@),
    {
        Json::Text(text.to_owned())
    }

    /// The number for an integer.
    pub fn integer(i: i64) -> (json: Json)
        ensures
            json@ == JsonModel::integer(i),
    {
        Json::Number(number_from(i))
    }

    /// The object without members.
    pub fn object() -> (json: Json)
        ensures
            json@ == JsonModel::object(),
    {
        Json::Object(Vec::new())
    }

    /// The array without items.
    pub fn array() -> (json: Json)
        ensures
            json@ == JsonModel::array(),
    {
        Json::Array(Vec::new())
    }

    /// An object with one more member; what is no object stays as it is.
    pub fn with(self, key: &str, value: Json) -> (json: Json)
        ensures
            json@ == self@.with(key@, value@),
    {
        match self {
            Json::Object(members) => {
                let mut members = members;
                let ghost before = members@;
                members.push(Member { key: key.to_owned(), value });
                assert(members@.drop_last() == before);
                Json::Object(members)
            },
            other => other,
        }
    }

    /// An array with one more item; what is no array stays as it is.
    pub fn and(self, item: Json) -> (json: Json)
        ensures
            json@ == self@.and(item@),
    {
        match self {
            Json::Array(items) => {
                let mut items = items;
                let ghost before = items@;
                items.push(item);
                assert(items@.drop_last() == before);
                Json::Array(items)
            },
            other => other,
        }
    }

    /// Takes the member with the given key out of an object.
    pub fn into_member(self, key: &str) -> (member: Option<Json>)
        ensures
            match member {
                Some(value) => self@.get(key@) == Some(value@),
                None => self@.get(key@) is None,
            },
    {
        match self {
            Json::Object(members) => {
                let mut members = members;
                let wanted = key.to_owned();
                let ghost all = member_models(members@);
                loop
                    invariant
                        wanted@ == key@,
                        all.contains_key(key@) <==> member_models(members@).contains_key(key@),
                        all.contains_key(key@) ==> all[key@] == member_models(members@)[key@],
                        self@ == JsonModel::Object(all),
                    decreases members.len(),
                {
                    let ghost before = members@;
                    match members.pop() {
                        Some(member) => {
                            assert(before.drop_last() == members@);
                            if member.key == wanted {
                                return Some(member.value);
                            }
                        },
                        None => {
                            return None;
                        },
                    }
                }
            },
            _ => None,
        }
    }

    /// The member of an object with the given key.
    pub fn get(&self, key: &str) -> (member: Option<&Json>)
        ensures
            match member {
                Some(value) => self@.get(key@) == Some(value@),
                None => self@.get(key@) is None,
            },
    {
        match self {
            Json::Object(members) => {
                let wanted = key.to_owned();
                let ghost all = member_models(members@);
                let mut i: usize = members.len();
                assert(members@.take(i as int) == members@);
                while i > 0
                    invariant
                        i <= members.len(),
                        wanted@ == key@,
                        self@ == JsonModel::Object(all),
                        all.contains_key(key@) <==> member_models(
                            members@.take(i as int),
                        ).contains_key(key@),
                        all.contains_key(key@) ==> all[key@] == member_models(
                            members@.take(i as int),
                        )[key@],
                    decreases i,
                {
                    assert(members@.take(i as int).drop_last() == members@.take(i - 1));
                    i -= 1;
                    if members[i].key == wanted {
                        return Some(&members[i].value);
                    }
                }
                None
            },
            _ => None,
        }
    }
}

/// The document that a `serde_json::Value` holds.
pub uninterp spec fn held_by(value: serde_json::Value) -> JsonModel;

/// The members that a `serde_json::Map` holds, by their keys.
pub uninterp spec fn members_of(map: serde_json::Map<String, serde_json::Value>) -> Map<
    Seq<char>,
    JsonModel,
>;

/// Builds `serde_json::Value::Null`. Believed of it: it holds null.
#[verifier::external_body]
fn null_value() -> (value: serde_json::Value)
    ensures
        held_by(value) == JsonModel::Null,
{
    serde_json::Value::Null
}

/// Builds a `serde_json::Value::Bool`. Believed of it: it holds the truth value.
#[verifier::external_body]
fn bool_value(b: bool) -> (value: serde_json::Value)
    ensures
        held_by(value) == JsonModel::Bool(b),
{
    serde_json::Value::Bool(b)
}

/// Builds a `serde_json::Value::Number` from a copy of a number. Believed of it: it holds the
/// number.
#[verifier::external_body]
fn number_value(number: &serde_json::Number) -> (value: serde_json::Value)
    ensures
        held_by(value) == JsonModel::Number(*number),
{
    serde_json::Value::Number(number.clone())
}

/// Builds a `serde_json::Value::String`. Believed of it: it holds the text.
#[verifier::external_body]
fn text_value(text: String) -> (value: serde_json::Value)
    ensures
        held_by(value) == JsonModel::Text(text@),
{
    serde_json::Value::String(text)
}

/// Builds a `serde_json::Value::Array`. Believed of it: it holds what the items hold, in their
/// order.
#[verifier::external_body]
fn array_value(items: Vec<serde_json::Value>) -> (value: serde_json::Value)
    ensures
        held_by(value) == JsonModel::Array(
            items@.map_values(|item: serde_json::Value| held_by(item)),
        ),
{
    serde_json::Value::Array(items)
}

/// Builds a `serde_json::Value::Object`. Believed of it: it holds the members of the map.
#[verifier::external_body]
fn object_value(members: serde_json::Map<String, serde_json::Value>) -> (value: serde_json::Value)
    ensures
        held_by(value) == JsonModel::Object(members_of(members)),
{
    serde_json::Value::Object(members)
}

/// Calls `serde_json::Map::new`. Believed of it: the map has no members.
#[verifier::external_body]
fn no_members() -> (members: serde_json::Map<String, serde_json::Value>)
    ensures
        JsonModel::Object(members_of(members)) == JsonModel::object(),
{
    serde_json::Map::new()
}

/// Calls `serde_json::Map::insert`. Believed of it: the map then has the value under the key, in
/// place of the one that it may have had there, and is otherwise as it was.
#[verifier::external_body]
fn insert_member(
    members: &mut serde_json::Map<String, serde_json::Value>,
    key: String,
    value: serde_json::Value,
)
    ensures
        members_of(*final(members)) == members_of(*old(members)).insert(key@, held_by(value)),
{
    members.insert(key, value);
}

/// The document as a `serde_json::Value`.
fn to_value(json: &Json) -> (value: serde_json::Value)
    ensures
        held_by(value) == json@,
    decreases json,
{
    match json {
        Json::Null => null_value(),
        Json::Bool(b) => bool_value(*b),
        Json::Number(n) => number_value(n),
        Json::Text(text) => text_value(text.clone()),
        Json::Array(items) => {
            let mut values: Vec<serde_json::Value> = Vec::new();
            let mut i: usize = 0;
            while i < items.len()
                invariant
                    i <= items.len(),
                    json == Json::Array(*items),
                    values@.map_values(|item: serde_json::Value| held_by(item)) == item_models(
                        items@.take(i as int),
                    ),
                decreases items.len() - i,
            {
                let ghost before = values@;
                assert(decreases_to!(json => json->Array_0));
                assert(decreases_to!(items => items@));
                assert(decreases_to!(items@ => items@[i as int]));
                let value = to_value(&items[i]);
                values.push(value);
                proof {
                    let held = |item: serde_json::Value| held_by(item);
                    let so_far = before.map_values(held);
                    assert(values@.map_values(held) == so_far.push(held_by(value)));
                    assert(items@.take(i + 1).drop_last() == items@.take(i as int));
                }
                i += 1;
            }
            assert(items@.take(i as int) == items@);
            array_value(values)
        },
        Json::Object(members) => {
            let mut map = no_members();
            let mut i: usize = 0;
            while i < members.len()
                invariant
                    i <= members.len(),
                    json == Json::Object(*members),
                    members_of(map) == member_models(members@.take(i as int)),
                decreases members.len() - i,
            {
                let member = &members[i];
                assert(decreases_to!(json => json->Object_0));
                assert(decreases_to!(members => members@));
                assert(decreases_to!(members@ => members@[i as int]));
                assert(decreases_to!(members@[i as int] => members@[i as int].value));
                let value = to_value(&member.value);
                insert_member(&mut map, member.key.clone(), value);
                assert(members@.take(i + 1).drop_last() == members@.take(i as int));
                i += 1;
            }
            assert(members@.take(i as int) == members@);
            object_value(map)
        },
    }
}

/// The compact JSON text of a document.
pub uninterp spec fn json_text(json: JsonModel) -> Seq<char>;

/// Calls `serde_json::to_string`. Believed of it: a value always prints; the text depends on what
/// the value holds alone, and `json_text` names it; it holds no line feed, for the compact form
/// has no line breaks and strings have theirs escaped.
#[verifier::external_body]
fn print_value(value: &serde_json::Value) -> (text: Result<String, serde_json::Error>)
    ensures
        text is Ok,
        text->Ok_0@ == json_text(held_by(*value)),
        !text->Ok_0@.contains('\n'),
{
    serde_json::to_string(value)
}

/// The text of a document on one line, without the line feed that ends it.
pub fn document_line(json: &Json) -> (line: Result<String, CockpitError>)
    ensures
        line matches Ok(text) && text@ == json_text(json@) && !text@.contains('\n'),
{
    match print_value(&to_value(json)) {
        Ok(text) => Ok(text),
        Err(error) => Err(CockpitError::Json(error.to_string())),
    }
}

} // verus!

//! JSON values as the protocol logic reads and builds them.

use vstd::prelude::*;
use vstd::string::*;
use crate::text::str_eq;

verus! {

/// `serde_json::Number`, declared so that a JSON number can be carried through as it
/// is. Nothing is known of what is inside one.
#[verifier::external_type_specification]
#[verifier::external_body]
pub struct ExNumber(serde_json::Number);

/// `serde_json::Value`, declared so that the functions below that hand one to
/// `serde_json`, or take one from it, can name it. Nothing is known of what is inside
/// one.
#[verifier::external_type_specification]
#[verifier::external_body]
pub struct ExValue(serde_json::Value);

/// One `name: value` pair of a JSON object.
#[derive(Debug, PartialEq)]
pub struct Member {
    pub name: String,
    pub value: Json,
}

/// A JSON value. Numbers are carried through untouched; nothing here looks inside one.
#[derive(Debug, PartialEq)]
pub enum Json {
    Null,
    Bool(bool),
    Number(serde_json::Number),
    Str(String),
    Array(Vec<Json>),
    Object(Vec<Member>),
}

/// The mathematical value of a [`Json`]: strings are character sequences, arrays and
/// objects are sequences, an object's members in the order they are held.
pub enum JsonValue {
    Null,
    Bool(bool),
    Number(serde_json::Number),
    Str(Seq<char>),
    Array(Seq<JsonValue>),
    Object(Seq<Field>),
}

/// The mathematical value of a [`Member`].
pub struct Field {
    pub name: Seq<char>,
    pub value: JsonValue,
}

/// The value of the last member of `members` called `key`, if there is one. Where a
/// name occurs twice the later member counts, as it does in the text written.
pub open spec fn find_member(members: Seq<Field>, key: Seq<char>) -> Option<JsonValue>
    decreases members.len(),
{
    if members.len() == 0 {
        None
    } else if members.last().name == key {
        Some(members.last().value)
    } else {
        find_member(members.drop_last(), key)
    }
}

impl JsonValue {
    /// The member `key` of an object; `None` for anything but an object that has it.
    pub open spec fn member(self, key: Seq<char>) -> Option<JsonValue> {
        match self {
            JsonValue::Object(members) => find_member(members, key),
            _ => None,
        }
    }

    /// The characters of a JSON string; `None` for any other value.
    pub open spec fn text(self) -> Option<Seq<char>> {
        match self {
            JsonValue::Str(s) => Some(s),
            _ => None,
        }
    }

    /// The text of the member `key`, where that member is a JSON string.
    pub open spec fn member_text(self, key: Seq<char>) -> Option<Seq<char>> {
        match self.member(key) {
            Some(v) => v.text(),
            None => None,
        }
    }

    /// The first element of a non-empty array; `None` for any other value.
    pub open spec fn first(self) -> Option<JsonValue> {
        match self {
            JsonValue::Array(items) => if items.len() > 0 {
                Some(items[0])
            } else {
                None
            },
            _ => None,
        }
    }
}

impl View for Member {
    type V = Field;

    open spec fn view(&self) -> Field {
        Field { name: self.name@, value: self.value@ }
    }
}

impl View for Json {
    type V = JsonValue;

    open spec fn view(&self) -> JsonValue
        decreases self,
    {
        match self {
            Json::Null => JsonValue::Null,
            Json::Bool(b) => JsonValue::Bool(*b),
            Json::Number(n) => JsonValue::Number(*n),
            Json::Str(s) => JsonValue::Str(s@),
            Json::Array(items) => JsonValue::Array(
                Seq::new(
                    items@.len(),
                    |i: int|
                        if 0 <= i < items@.len() {
                            items@[i].view()
                        } else {
                            JsonValue::Null
                        },
                ),
            ),
            Json::Object(members) => JsonValue::Object(
                Seq::new(
                    members@.len(),
                    |i: int|
                        if 0 <= i < members@.len() {
                            Field { name: members@[i].name@, value: members@[i].value.view() }
                        } else {
                            Field { name: Seq::empty(), value: JsonValue::Null }
                        },
                ),
            ),
        }
    }
}

/// The view of an array is the sequence of its elements' views.
pub proof fn lemma_array_view(items: Vec<Json>)
    ensures
        Json::Array(items)@ is Array,
        Json::Array(items)@->Array_0.len() == items@.len(),
        forall|i: int|
            0 <= i < items@.len() ==> #[trigger] Json::Array(items)@->Array_0[i] == items@[i]@,
{
}

/// The view of an object is the sequence of its members' names and value views.
pub proof fn lemma_object_view(members: Vec<Member>)
    ensures
        Json::Object(members)@ is Object,
        Json::Object(members)@->Object_0.len() == members@.len(),
        forall|i: int|
            0 <= i < members@.len() ==> #[trigger] Json::Object(members)@->Object_0[i]
                == members@[i]@,
{
}

impl Json {
    /// Looks up the member `key` of an object.
    pub fn get(&self, key: &str) -> (found: Option<&Json>)
        ensures
            match found {
                Some(v) => self@.member(key@) == Some(v@),
                None => self@.member(key@) is None,
            },
    {
        match self {
            Json::Object(members) => {
                let ghost all = self@->Object_0;
                let mut i: usize = members.len();
                proof {
                    lemma_object_view(*members);
                }
                assert(all.subrange(0, all.len() as int) =~= all);
                while i > 0
                    invariant
                        i <= members.len(),
                        self@ == JsonValue::Object(all),
                        all.len() == members@.len(),
                        forall|k: int| 0 <= k < all.len() ==> all[k] == (#[trigger] members@[k])@,
                        find_member(all, key@) == find_member(all.subrange(0, i as int), key@),
                    decreases i,
                {
                    let ghost rest = all.subrange(0, i as int);
                    assert(rest.last() == all[i - 1]);
                    assert(rest.drop_last() =~= all.subrange(0, i - 1));
                    i = i - 1;
                    if str_eq(members[i].name.as_str(), key) {
                        assert(find_member(rest, key@) == Some(members@[i as int].value@));
                        return Some(&members[i].value);
                    }
                    assert(find_member(rest, key@) == find_member(rest.drop_last(), key@));
                }
                None
            },
            _ => None,
        }
    }

    /// The string inside a JSON string value.
    pub fn as_str(&self) -> (s: Option<&str>)
        ensures
            match s {
                Some(t) => self@.text() == Some(t@),
                None => self@.text() is None,
            },
    {
        match self {
            Json::Str(s) => Some(s.as_str()),
            _ => None,
        }
    }

    /// The first element of an array.
    pub fn first(&self) -> (found: Option<&Json>)
        ensures
            match found {
                Some(v) => self@.first() == Some(v@),
                None => self@.first() is None,
            },
    {
        match self {
            Json::Array(items) => if items.len() > 0 {
                Some(&items[0])
            } else {
                None
            },
            _ => None,
        }
    }

    /// The elements of an array.
    pub fn as_array(&self) -> (found: Option<&Vec<Json>>)
        ensures
            match found {
                Some(items) => self@ matches JsonValue::Array(values) && values.len()
                    == items@.len() && forall|i: int|
                    0 <= i < items@.len() ==> #[trigger] values[i] == items@[i]@,
                None => !(self@ is Array),
            },
    {
        match self {
            Json::Array(items) => {
                proof {
                    lemma_array_view(*items);
                }
                Some(items)
            },
            _ => None,
        }
    }

    /// A copy of this value.
    pub fn duplicate(&self) -> (copy: Json)
        ensures
            copy@ == self@,
        decreases self,
    {
        match self {
            Json::Null => Json::Null,
            Json::Bool(b) => Json::Bool(*b),
            Json::Number(n) => Json::Number(n.clone()),
            Json::Str(s) => Json::Str(s.clone()),
            Json::Array(items) => {
                let mut out: Vec<Json> = Vec::new();
                let mut i: usize = 0;
                while i < items.len()
                    invariant
                        *self == Json::Array(*items),
                        i <= items.len(),
                        out@.len() == i,
                        forall|k: int| 0 <= k < i ==> (#[trigger] out@[k])@ == items@[k]@,
                    decreases items.len() - i,
                {
                    proof {
                        assert(decreases_to!(*self => self->Array_0));
                        assert(decreases_to!(self->Array_0 => self->Array_0@));
                        assert(decreases_to!(self->Array_0@ => self->Array_0@[i as int]));
                    }
                    out.push(items[i].duplicate());
                    i = i + 1;
                }
                let copy = Json::Array(out);
                proof {
                    lemma_array_view(out);
                    lemma_array_view(*items);
                }
                assert(copy@->Array_0 =~= self@->Array_0);
                copy
            },
            Json::Object(members) => {
                let mut out: Vec<Member> = Vec::new();
                let mut i: usize = 0;
                while i < members.len()
                    invariant
                        *self == Json::Object(*members),
                        i <= members.len(),
                        out@.len() == i,
                        forall|k: int| 0 <= k < i ==> (#[trigger] out@[k])@ == members@[k]@,
                    decreases members.len() - i,
                {
                    proof {
                        assert(decreases_to!(*self => self->Object_0));
                        assert(decreases_to!(self->Object_0 => self->Object_0@));
                        assert(decreases_to!(self->Object_0@ => self->Object_0@[i as int]));
                        assert(decreases_to!(self->Object_0@[i as int] => self->Object_0@[i as int].value));
                    }
                    out.push(
                        Member {
                            name: members[i].name.clone(),
                            value: members[i].value.duplicate(),
                        },
                    );
                    i = i + 1;
                }
                let copy = Json::Object(out);
                proof {
                    lemma_object_view(out);
                    lemma_object_view(*members);
                }
                assert(copy@->Object_0 =~= self@->Object_0);
                copy
            },
        }
    }
}

/// The mathematical values of a sequence of members, in order.
pub open spec fn fields_of(members: Seq<Member>) -> Seq<Field> {
    members.map_values(|m: Member| m@)
}

impl Member {
    /// A member called `name` holding `value`.
    pub fn new(name: &str, value: Json) -> (member: Member)
        ensures
            member@ == (Field { name: name@, value: value@ }),
    {
        Member { name: String::from_str(name), value }
    }
}

impl Json {
    /// Builds a JSON string.
    pub fn string(text: &str) -> (json: Json)
        ensures
            json@ == JsonValue::Str(text@),
    {
        Json::Str(String::from_str(text))
    }

    /// Builds a JSON object from its members, kept in the order given.
    pub fn object(members: Vec<Member>) -> (json: Json)
        ensures
            json@ == JsonValue::Object(fields_of(members@)),
    {
        proof {
            lemma_object_view(members);
            assert(Json::Object(members)@->Object_0 =~= fields_of(members@));
        }
        Json::Object(members)
    }

    /// Reads a JSON text. `None` where the text is not one JSON value.
    pub fn parse(text: &str) -> (parsed: Option<Json>)
        ensures
            parsed matches Some(json) ==> json_parse(text@) == Some(json@),
            parsed is None ==> json_parse(text@) is None,
    {
        parse_json(text)
    }

    /// Writes this value as compact JSON text.
    pub fn to_text(&self) -> (text: String)
        ensures
            text@ == json_text(self@),
    {
        json_to_string(self)
    }
}

/// The value that `serde_json::from_str` reads from `text`, or `None` where it reports
/// an error.
pub uninterp spec fn json_parse(text: Seq<char>) -> Option<JsonValue>;

/// The compact text that `serde_json` writes for `value` (its `Display`).
pub uninterp spec fn json_text(value: JsonValue) -> Seq<char>;

/// Moves a `serde_json::Value` into a [`Json`], variant by variant; an object's members
/// come in the order in which the map hands them out.
#[verifier::external_body]
fn from_value(value: serde_json::Value) -> Json {
    match value {
        serde_json::Value::Null => Json::Null,
        serde_json::Value::Bool(b) => Json::Bool(b),
        serde_json::Value::Number(n) => Json::Number(n),
        serde_json::Value::String(s) => Json::Str(s),
        serde_json::Value::Array(items) => Json::Array(items.into_iter().map(from_value).collect()),
        serde_json::Value::Object(map) => Json::Object(
            map.into_iter().map(|(name, v)| Member { name, value: from_value(v) }).collect(),
        ),
    }
}

/// Copies a [`Json`] into a `serde_json::Value`, variant by variant; where an object
/// holds a name twice the later member stays, as `Map::insert` has it.
#[verifier::external_body]
fn to_value(json: &Json) -> serde_json::Value {
    match json {
        Json::Null => serde_json::Value::Null,
        Json::Bool(b) => serde_json::Value::Bool(*b),
        Json::Number(n) => serde_json::Value::Number(n.clone()),
        Json::Str(s) => serde_json::Value::String(s.clone()),
        Json::Array(items) => serde_json::Value::Array(items.iter().map(to_value).collect()),
        Json::Object(members) => serde_json::Value::Object(
            members.iter().map(|m| (m.name.clone(), to_value(&m.value))).collect(),
        ),
    }
}

/// `serde_json::from_str` into a `Value`: the result is a function of the text alone, so
/// it is named; an error of any kind becomes `None`.
#[verifier::external_body]
fn parse_json(text: &str) -> (parsed: Option<Json>)
    ensures
        parsed matches Some(json) ==> json_parse(text@) == Some(json@),
        parsed is None ==> json_parse(text@) is None,
{
    serde_json::from_str::<serde_json::Value>(text).ok().map(from_value)
}

/// `Value::to_string`: the compact text is a function of the value alone, so it is named.
#[verifier::external_body]
fn json_to_string(json: &Json) -> (text: String)
    ensures
        text@ == json_text(json@),
{
    to_value(json).to_string()
}

/// `Clone` for `serde_json::Number`: the copy is the same number.
pub assume_specification[ <serde_json::Number as Clone>::clone ](n: &serde_json::Number) -> (copy:
    serde_json::Number)
    ensures
        copy == *n,
;

} // verus!

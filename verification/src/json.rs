//! JSON values, as an interface description holds them.

use crate::failure::{diagnostic, new_diagnostic, Failure, FailureView, Span};
use crate::outside::{json_quoted, json_string};
use crate::text::{decimal, decimal_text, flag, flag_text, join_strings, joined, same_text, texts};
use vstd::prelude::*;

verus! {

/// A JSON value.
pub enum Json {
    Null,
    Bool(bool),
    /// A number that a `u64` holds.
    Number(u64),
    /// Any other number, as it is printed.
    OtherNumber(String),
    Text(String),
    Array(Vec<Json>),
    Object(Vec<Member>),
}

/// A member of a JSON object.
pub struct Member {
    pub key: String,
    pub value: Json,
}

/// The value of the first member with the given key.
pub open spec fn member(members: Seq<Member>, key: Seq<char>) -> Option<Json>
    decreases members.len(),
{
    if members.len() == 0 {
        None
    } else if members[0].key@ == key {
        Some(members[0].value)
    } else {
        member(members.skip(1), key)
    }
}

/// The value as JSON text, without white space.
pub open spec fn json_text(value: Json) -> Seq<char>
    decreases value,
{
    match value {
        Json::Null => "null"@,
        Json::Bool(flag_value) => flag(flag_value),
        Json::Number(n) => decimal(n as nat),
        Json::OtherNumber(text) => text@,
        Json::Text(text) => json_quoted(text@),
        Json::Array(items) => "["@ + joined(item_texts(items@), ","@) + "]"@,
        Json::Object(members) => "{"@ + joined(member_texts(members@), ","@) + "}"@,
    }
}

/// Each item as JSON text.
pub open spec fn item_texts(items: Seq<Json>) -> Seq<Seq<char>>
    decreases items,
{
    if items.len() == 0 {
        Seq::empty()
    } else {
        item_texts(items.drop_last()).push(json_text(items.last()))
    }
}

/// Each member as JSON text: the key, a colon and the value.
pub open spec fn member_texts(members: Seq<Member>) -> Seq<Seq<char>>
    decreases members,
{
    if members.len() == 0 {
        Seq::empty()
    } else {
        let last = members.last();
        member_texts(members.drop_last()).push(
            json_quoted(last.key@) + ":"@ + json_text(last.value),
        )
    }
}

/// The member of an object with the given key.
pub open spec fn member_of(value: Json, key: Seq<char>) -> Option<Json> {
    match value {
        Json::Object(members) => member(members@, key),
        _ => None,
    }
}

/// The text of a string.
pub open spec fn text_of(value: Json) -> Option<Seq<char>> {
    match value {
        Json::Text(text) => Some(text@),
        _ => None,
    }
}

/// The items of an array.
pub open spec fn items_of(value: Json) -> Option<Seq<Json>> {
    match value {
        Json::Array(items) => Some(items@),
        _ => None,
    }
}

/// The number that a `u64` holds.
pub open spec fn number_of(value: Json) -> Option<u64> {
    match value {
        Json::Number(n) => Some(n),
        _ => None,
    }
}

/// The string at a key of an object.
pub open spec fn text_at(value: Json, key: Seq<char>) -> Option<Seq<char>> {
    match member_of(value, key) {
        Some(found) => text_of(found),
        None => None,
    }
}

/// The items of the array at a key of an object; none where there is no array.
pub open spec fn elements(value: Json, key: Seq<char>) -> Seq<Json> {
    match array_at(value, key) {
        Some(items) => items,
        None => Seq::empty(),
    }
}

/// The items of the array at a key of an object.
pub open spec fn array_at(value: Json, key: Seq<char>) -> Option<Seq<Json>> {
    match member_of(value, key) {
        Some(found) => items_of(found),
        None => None,
    }
}

/// Whether the value at a key of an object is `true`.
pub open spec fn flag_at(value: Json, key: Seq<char>) -> bool {
    match member_of(value, key) {
        Some(Json::Bool(set)) => set,
        _ => false,
    }
}

proof fn lemma_member_found(members: Seq<Member>, key: Seq<char>) -> (i: int)
    requires
        member(members, key) is Some,
    ensures
        0 <= i < members.len(),
        member(members, key) == Some(members[i].value),
    decreases members.len(),
{
    if members[0].key@ == key {
        0
    } else {
        let i = lemma_member_found(members.skip(1), key);
        assert(members.skip(1)[i] == members[i + 1]);
        i + 1
    }
}

/// A value is larger than its members.
pub proof fn lemma_member_smaller(value: Json, key: Seq<char>)
    requires
        member_of(value, key) is Some,
    ensures
        decreases_to!(value => member_of(value, key)->Some_0),
{
    let members = value->Object_0;
    let i = lemma_member_found(members@, key);
    assert(decreases_to!(value->Object_0 => value->Object_0@[i]));
    assert(decreases_to!(value->Object_0@[i] => value->Object_0@[i].value));
}

/// A value is larger than the items of its members.
pub proof fn lemma_array_smaller(value: Json, key: Seq<char>)
    requires
        array_at(value, key) is Some,
    ensures
        decreases_to!(value => array_at(value, key)->Some_0),
{
    lemma_member_smaller(value, key);
    let found = member_of(value, key)->Some_0;
    assert(decreases_to!(found => found->Array_0@));
}

impl Json {
    /// The member of an object with the given key.
    pub fn get(&self, key: &str) -> (found: Option<&Json>)
        ensures
            match found {
                Some(value) => member_of(*self, key@) == Some(*value),
                None => member_of(*self, key@) is None,
            },
    {
        match self {
            Json::Object(members) => {
                assert(members@.skip(0) == members@);
                for i in 0..members.len()
                    invariant
                        *self == Json::Object(*members),
                        member(members@, key@) == member(members@.skip(i as int), key@),
                {
                    assert(members@.skip(i as int)[0] == members@[i as int]);
                    if same_text(members[i].key.as_str(), key) {
                        return Some(&members[i].value);
                    }
                    assert(members@.skip(i as int).skip(1) == members@.skip(i + 1));
                }
                None
            },
            _ => None,
        }
    }

    /// The text of a string.
    pub fn as_str(&self) -> (found: Option<&str>)
        ensures
            match found {
                Some(text) => text_of(*self) == Some(text@),
                None => text_of(*self) is None,
            },
    {
        match self {
            Json::Text(text) => Some(text.as_str()),
            _ => None,
        }
    }

    /// The items of an array.
    pub fn as_array(&self) -> (found: Option<&Vec<Json>>)
        ensures
            match found {
                Some(items) => items_of(*self) == Some(items@),
                None => items_of(*self) is None,
            },
    {
        match self {
            Json::Array(items) => Some(items),
            _ => None,
        }
    }

    /// The number that a `u64` holds.
    pub fn as_u64(&self) -> (found: Option<u64>)
        ensures
            found == number_of(*self),
    {
        match self {
            Json::Number(n) => Some(*n),
            _ => None,
        }
    }

    /// The string at a key of an object.
    pub fn text_at(&self, key: &str) -> (found: Option<&str>)
        ensures
            match found {
                Some(text) => text_at(*self, key@) == Some(text@),
                None => text_at(*self, key@) is None,
            },
    {
        match self.get(key) {
            Some(value) => value.as_str(),
            None => None,
        }
    }

    /// The array at a key of an object.
    pub fn array_at(&self, key: &str) -> (found: Option<&Vec<Json>>)
        ensures
            match found {
                Some(items) => array_at(*self, key@) == Some(items@),
                None => array_at(*self, key@) is None,
            },
    {
        match self.get(key) {
            Some(value) => value.as_array(),
            None => None,
        }
    }

    /// The array at a key of an object, or the given empty list.
    pub fn array_or<'a>(&'a self, key: &str, none: &'a Vec<Json>) -> (items: &'a Vec<Json>)
        requires
            none@.len() == 0,
        ensures
            items@ == elements(*self, key@),
    {
        match self.array_at(key) {
            Some(items) => items,
            None => {
                assert(none@ == Seq::<Json>::empty());
                none
            },
        }
    }

    /// Whether the value at a key of an object is `true`.
    pub fn flag_at(&self, key: &str) -> (set: bool)
        ensures
            set == flag_at(*self, key@),
    {
        match self.get(key) {
            Some(Json::Bool(set)) => *set,
            _ => false,
        }
    }

    /// Writes the value as JSON, without white space.
    pub fn to_text(&self) -> (out: String)
        ensures
            out@ == json_text(*self),
        decreases self,
    {
        match self {
            Json::Null => "null".to_owned(),
            Json::Bool(set) => flag_text(*set),
            Json::Number(n) => decimal_text(*n),
            Json::OtherNumber(text) => text.clone(),
            Json::Text(text) => json_string(text.as_str()),
            Json::Array(items) => {
                let mut parts: Vec<String> = Vec::new();
                assert(texts(parts@) == Seq::<Seq<char>>::empty());
                for i in 0..items.len()
                    invariant
                        *self == Json::Array(*items),
                        texts(parts@) == item_texts(items@.take(i as int)),
                {
                    assert(items@.take(i + 1).drop_last() == items@.take(i as int));
                    assert(decreases_to!(self->Array_0 => self->Array_0@[i as int]));
                    let ghost before = texts(parts@);
                    let text = items[i].to_text();
                    parts.push(text);
                    assert(texts(parts@) == before.push(text@));
                }
                assert(items@.take(items@.len() as int) == items@);
                "[".to_owned().concat(join_strings(&parts, ",").as_str()).concat("]")
            },
            Json::Object(members) => {
                let mut parts: Vec<String> = Vec::new();
                assert(texts(parts@) == Seq::<Seq<char>>::empty());
                for i in 0..members.len()
                    invariant
                        *self == Json::Object(*members),
                        texts(parts@) == member_texts(members@.take(i as int)),
                {
                    assert(members@.take(i + 1).drop_last() == members@.take(i as int));
                    assert(decreases_to!(self->Object_0 => self->Object_0@[i as int]));
                    let ghost before = texts(parts@);
                    let value = members[i].value.to_text();
                    let text = json_string(members[i].key.as_str()).concat(":").concat(
                        value.as_str(),
                    );
                    parts.push(text);
                    assert(texts(parts@) == before.push(text@));
                }
                assert(members@.take(members@.len() as int) == members@);
                "{".to_owned().concat(join_strings(&parts, ",").as_str()).concat("}")
            },
        }
    }
}

/// The string at a key, or the failure of an object without it.
pub open spec fn required_text(value: Json, key: Seq<char>, span: Span) -> Result<
    Seq<char>,
    FailureView,
> {
    match text_at(value, key) {
        Some(text) => Ok(text),
        None => Err(
            diagnostic(
                span,
                "IDL object is missing string field `"@ + key + "` in `"@ + json_text(value) + "`"@,
            ),
        ),
    }
}

/// The text or the failure, as sequences of characters.
pub open spec fn text_view(result: Result<&str, Failure>) -> Result<Seq<char>, FailureView> {
    match result {
        Ok(text) => Ok(text@),
        Err(failure) => Err(failure@),
    }
}

/// The string at a key of an object that must have it.
pub fn json_str<'a>(value: &'a Json, key: &str, span: Span) -> (out: Result<&'a str, Failure>)
    ensures
        text_view(out) == required_text(*value, key@, span),
{
    match value.text_at(key) {
        Some(text) => Ok(text),
        None => {
            let shown = value.to_text();
            Err(
                new_diagnostic(
                    span,
                    "IDL object is missing string field `".to_owned().concat(key).concat(
                        "` in `",
                    ).concat(shown.as_str()).concat("`"),
                ),
            )
        },
    }
}

} // verus!

//! Entities as the OData API returns them: the keys of the top-level object and of its
//! nested `fields` object, and which of their values are strings.

use vstd::prelude::*;

use crate::text::str_eq;

verus! {

/// A value of an entity field: a JSON string, or any other JSON value.
#[derive(Debug, Clone, PartialEq, Eq)]
pub enum FieldValue {
    Text(String),
    Other,
}

/// An entity object: its own keys (`top`) and those of its nested `fields` object (empty
/// when there is none or it is not an object).
#[derive(Debug, Clone, PartialEq, Eq)]
pub struct EntityRecord {
    pub top: Vec<(String, FieldValue)>,
    pub fields: Vec<(String, FieldValue)>,
}

/// The text of a field value, `None` when it is not a string.
pub open spec fn value_text(v: FieldValue) -> Option<Seq<char>> {
    match v {
        FieldValue::Text(s) => Some(s@),
        FieldValue::Other => None,
    }
}

/// `object.get(key)`: the value under the first entry named `key` (each key occurs once in
/// a JSON object), as `Some(text)` for a string and `Some(None)` for another value.
pub open spec fn lookup(entries: Seq<(String, FieldValue)>, key: Seq<char>) -> Option<
    Option<Seq<char>>,
>
    decreases entries.len(),
{
    if entries.len() == 0 {
        None
    } else if entries[0].0@ == key {
        Some(value_text(entries[0].1))
    } else {
        lookup(entries.drop_first(), key)
    }
}

/// `object.get(key).and_then(Value::as_str)`.
pub open spec fn str_at(entries: Seq<(String, FieldValue)>, key: Seq<char>) -> Option<Seq<char>> {
    match lookup(entries, key) {
        Some(Some(t)) => Some(t),
        _ => None,
    }
}

/// `a.or_else(|| b)`.
pub open spec fn or_opt(a: Option<Seq<char>>, b: Option<Seq<char>>) -> Option<Seq<char>> {
    match a {
        Some(t) => Some(t),
        None => b,
    }
}

/// The id of an entity: `entity_id`, else `Id`, else `fields.Id`, the first that is a string.
pub open spec fn entity_id_of(e: EntityRecord) -> Option<Seq<char>> {
    or_opt(
        str_at(e.top@, "entity_id"@),
        or_opt(str_at(e.top@, "Id"@), str_at(e.fields@, "Id"@)),
    )
}

/// The string under `name`, on the entity or in its `fields`.
pub open spec fn field_str_of(e: EntityRecord, name: Seq<char>) -> Option<Seq<char>> {
    or_opt(str_at(e.top@, name), str_at(e.fields@, name))
}

/// The first of `names` under which the entity, or its `fields`, holds a string.
pub open spec fn first_field_str(e: EntityRecord, names: Seq<&str>) -> Option<Seq<char>>
    decreases names.len(),
{
    if names.len() == 0 {
        None
    } else {
        or_opt(field_str_of(e, names[0]@), first_field_str(e, names.drop_first()))
    }
}

/// The id that a response names: the value under `entity_id`, or under `Id` when there is
/// no `entity_id`, provided it is a non-empty string.
pub open spec fn extracted_id(e: EntityRecord) -> Option<Seq<char>> {
    let v = match lookup(e.top@, "entity_id"@) {
        Some(v) => Some(v),
        None => lookup(e.top@, "Id"@),
    };
    match v {
        Some(Some(t)) => if t.len() > 0 {
            Some(t)
        } else {
            None
        },
        _ => None,
    }
}

/// The value under `key`, as [`lookup`] states it.
pub fn lookup_entry<'a>(entries: &'a Vec<(String, FieldValue)>, key: &str) -> (r: Option<
    &'a FieldValue,
>)
    ensures
        match r {
            Some(v) => lookup(entries@, key@) == Some(value_text(*v)),
            None => lookup(entries@, key@) is None,
        },
{
    let mut i: usize = 0;
    assert(entries@.skip(0) =~= entries@);
    while i < entries.len()
        invariant
            i <= entries@.len(),
            lookup(entries@, key@) == lookup(entries@.skip(i as int), key@),
        decreases entries@.len() - i,
    {
        let ghost rest = entries@.skip(i as int);
        assert(rest.drop_first() =~= entries@.skip(i + 1));
        if str_eq(entries[i].0.as_str(), key) {
            return Some(&entries[i].1);
        }
        i = i + 1;
    }
    None
}

/// `object.get(key).and_then(Value::as_str)`.
pub fn str_entry<'a>(entries: &'a Vec<(String, FieldValue)>, key: &str) -> (r: Option<&'a str>)
    ensures
        match r {
            Some(t) => str_at(entries@, key@) == Some(t@),
            None => str_at(entries@, key@) is None,
        },
{
    match lookup_entry(entries, key) {
        Some(FieldValue::Text(s)) => Some(s.as_str()),
        _ => None,
    }
}

/// The id of an entity: `entity_id`, else `Id`, else `fields.Id`.
pub fn entity_id_from_json(value: &EntityRecord) -> (r: Option<&str>)
    ensures
        match r {
            Some(t) => entity_id_of(*value) == Some(t@),
            None => entity_id_of(*value) is None,
        },
{
    match str_entry(&value.top, "entity_id") {
        Some(t) => Some(t),
        None => match str_entry(&value.top, "Id") {
            Some(t) => Some(t),
            None => str_entry(&value.fields, "Id"),
        },
    }
}

/// The string under the first of `names` that the entity, or its `fields`, holds as a string.
pub fn entity_field_str<'a>(value: &'a EntityRecord, names: &Vec<&str>) -> (r: Option<&'a str>)
    ensures
        match r {
            Some(t) => first_field_str(*value, names@) == Some(t@),
            None => first_field_str(*value, names@) is None,
        },
{
    let mut i: usize = 0;
    assert(names@.skip(0) =~= names@);
    while i < names.len()
        invariant
            i <= names@.len(),
            first_field_str(*value, names@) == first_field_str(*value, names@.skip(i as int)),
        decreases names@.len() - i,
    {
        let ghost rest = names@.skip(i as int);
        assert(rest.drop_first() =~= names@.skip(i + 1));
        let name = names[i];
        match str_entry(&value.top, name) {
            Some(t) => return Some(t),
            None => {},
        }
        match str_entry(&value.fields, name) {
            Some(t) => return Some(t),
            None => {},
        }
        i = i + 1;
    }
    None
}

/// The id that a response names: `entity_id`, or `Id` when there is no `entity_id`, as a
/// non-empty string.
pub fn extract_id(resp: &EntityRecord) -> (r: Option<String>)
    ensures
        match r {
            Some(t) => extracted_id(*resp) == Some(t@),
            None => extracted_id(*resp) is None,
        },
{
    let v = match lookup_entry(&resp.top, "entity_id") {
        Some(v) => Some(v),
        None => lookup_entry(&resp.top, "Id"),
    };
    match v {
        Some(FieldValue::Text(s)) => if !s.as_str().is_empty() {
            Some(s.clone())
        } else {
            None
        },
        _ => None,
    }
}

/// The id of a newly created entity: `entity_id`, else `fields.Id`, else `Id`.
pub open spec fn created_id_of(e: EntityRecord) -> Option<Seq<char>> {
    or_opt(
        str_at(e.top@, "entity_id"@),
        or_opt(str_at(e.fields@, "Id"@), str_at(e.top@, "Id"@)),
    )
}

/// The id that a create response names: `entity_id`, else `fields.Id`, else `Id`.
pub fn created_entity_id(value: &EntityRecord) -> (r: Option<&str>)
    ensures
        match r {
            Some(t) => created_id_of(*value) == Some(t@),
            None => created_id_of(*value) is None,
        },
{
    match str_entry(&value.top, "entity_id") {
        Some(t) => Some(t),
        None => match str_entry(&value.fields, "Id") {
            Some(t) => Some(t),
            None => str_entry(&value.top, "Id"),
        },
    }
}

} // verus!

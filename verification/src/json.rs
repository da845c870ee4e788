//! JSON documents as the weather API sends them, and the few paths into them
//! that a forecast is read by. Looking into a document never fails: what is
//! not there reads as `Null`, and what is no text reads as the empty text.

use vstd::prelude::*;
use vstd::string::*;
use crate::fetch::FetchError;

verus! {

/// A JSON value. A number is held as the text that stands for it, and an
/// object as its members in the order in which the document holds them.
#[derive(Debug, PartialEq, Eq)]
pub enum Json {
    Null,
    Bool(bool),
    Number(String),
    String(String),
    Array(Vec<Json>),
    Object(Vec<(String, Json)>),
}

/// The value of the first member named `key` among `members`, and `Null`
/// where there is none.
pub open spec fn member_among(members: Seq<(String, Json)>, key: Seq<char>) -> Json
    decreases members.len(),
{
    if members.len() == 0 {
        Json::Null
    } else if members.first().0@ == key {
        members.first().1
    } else {
        member_among(members.drop_first(), key)
    }
}

/// The member `key` of `json`: `Null` where `json` is no object or has no
/// such member.
pub open spec fn member(json: Json, key: Seq<char>) -> Json {
    match json {
        Json::Object(members) => member_among(members@, key),
        _ => Json::Null,
    }
}

/// The element `index` of `json`: `Null` where `json` is no array or is
/// shorter than that.
pub open spec fn element(json: Json, index: int) -> Json {
    match json {
        Json::Array(items) => if 0 <= index < items@.len() {
            items@[index]
        } else {
            Json::Null
        },
        _ => Json::Null,
    }
}

/// `json` as text: a string's content, a number's digits, and the empty text
/// for anything else.
pub open spec fn text_of(json: Json) -> Seq<char> {
    match json {
        Json::String(text) => text@,
        Json::Number(digits) => digits@,
        _ => Seq::empty(),
    }
}

/// The properties of the feature `index` of a feature collection.
pub open spec fn features_properties(prop: Json, index: int) -> Json {
    member(element(member(prop, "features"@), index), "properties"@)
}

/// The named part of the place that a point lies relative to.
pub open spec fn location(pjson: Json, key: Seq<char>) -> Json {
    member(member(member(pjson, "relativeLocation"@), "properties"@), key)
}

impl Json {
    /// Whether this is `Null`.
    pub fn is_null(&self) -> (null: bool)
        ensures
            null == (*self is Null),
    {
        match self {
            Json::Null => true,
            _ => false,
        }
    }
}

/// The member `key` of `json`.
pub fn get_object<'a>(json: &'a Json, key: &str) -> (found: &'a Json)
    ensures
        *found == member(*json, key@),
{
    match json {
        Json::Object(members) => {
            let wanted = String::from_str(key);
            let mut i: usize = 0;
            proof {
                assert(members@.skip(0) == members@);
            }
            while i < members.len()
                invariant
                    i <= members.len(),
                    wanted@ == key@,
                    member(*json, key@) == member_among(members@.skip(i as int), key@),
                decreases members.len() - i,
            {
                proof {
                    assert(members@.skip(i as int).drop_first() == members@.skip(i + 1));
                    assert(members@.skip(i as int).first() == members@[i as int]);
                }
                if members[i].0 == wanted {
                    return &members[i].1;
                }
                i += 1;
            }
            &Json::Null
        },
        _ => &Json::Null,
    }
}

/// The element `index` of the member `key` of `json`.
pub fn get_indexed_object<'a>(json: &'a Json, key: &str, index: usize) -> (found: &'a Json)
    ensures
        *found == element(member(*json, key@), index as int),
{
    match get_object(json, key) {
        Json::Array(items) => if index < items.len() {
            &items[index]
        } else {
            &Json::Null
        },
        _ => &Json::Null,
    }
}

/// The member `key` of `json` as text.
pub fn get_key(json: &Json, key: &str) -> (text: String)
    ensures
        text@ == text_of(member(*json, key@)),
{
    match get_object(json, key) {
        Json::String(text) => text.clone(),
        Json::Number(digits) => digits.clone(),
        _ => String::new(),
    }
}

/// The properties of the feature `index` of the feature collection `prop`.
pub fn get_features_properties(prop: &Json, index: usize) -> (found: &Json)
    ensures
        *found == features_properties(*prop, index as int),
{
    let features = get_indexed_object(prop, "features", index);
    if !features.is_null() {
        return get_object(features, "properties");
    }
    &Json::Null
}

/// The member `key` of the member `sub` of the properties of `json`, as
/// text.
pub fn get_properties_value_key(json: &Json, sub: &str, key: &str) -> (text: String)
    ensures
        text@ == text_of(member(member(member(*json, "properties"@), sub@), key@)),
{
    let pprop = get_object(json, "properties");
    if !pprop.is_null() {
        return get_key(get_object(pprop, sub), key);
    }
    String::new()
}

/// The member `key` of the properties of `json`, as text.
pub fn get_properties_key(json: &Json, key: &str) -> (text: String)
    ensures
        text@ == text_of(member(member(*json, "properties"@), key@)),
{
    let pprop = get_object(json, "properties");
    if !pprop.is_null() {
        return get_key(pprop, key);
    }
    String::new()
}

/// The member `key` of the properties of the feature `index` of `prop`, as
/// text.
pub fn get_features_properties_key(prop: &Json, index: usize, key: &str) -> (text: String)
    ensures
        text@ == text_of(member(features_properties(*prop, index as int), key@)),
{
    let properties = get_features_properties(prop, index);
    if !properties.is_null() {
        return get_key(properties, key);
    }
    String::new()
}

/// The member `key` of the feature `index` of `prop`, as text.
pub fn get_features_key(prop: &Json, index: usize, key: &str) -> (text: String)
    ensures
        text@ == text_of(member(element(member(*prop, "features"@), index as int), key@)),
{
    let feature = get_indexed_object(prop, "features", index);
    if !feature.is_null() {
        return get_key(feature, key);
    }
    String::new()
}

/// The member `value` of the properties of the feature `index` of `prop`.
pub fn get_features_properties_value<'a>(prop: &'a Json, index: usize, value: &str) -> (found:
    &'a Json)
    ensures
        *found == member(features_properties(*prop, index as int), value@),
{
    let fproperties = get_features_properties(prop, index);
    if !fproperties.is_null() {
        return get_object(fproperties, value);
    }
    &Json::Null
}

/// The member `key` of the member `value` of the properties of the feature
/// `index` of `prop`, as text.
pub fn get_features_properties_value_key(prop: &Json, index: usize, value: &str, key: &str) -> (text:
    String)
    ensures
        text@ == text_of(
            member(member(features_properties(*prop, index as int), value@), key@),
        ),
{
    let vprop = get_features_properties_value(prop, index, value);
    if !vprop.is_null() {
        return get_key(vprop, key);
    }
    String::new()
}

/// The part `key` of the place that the point `pjson` lies relative to, as
/// text.
pub fn get_location(pjson: &Json, key: &str) -> (text: String)
    ensures
        text@ == text_of(location(*pjson, key@)),
{
    let place = get_object(pjson, "relativeLocation");
    if !place.is_null() {
        let properties = get_object(place, "properties");
        if !properties.is_null() {
            return get_key(properties, key);
        }
    }
    String::new()
}

/// The city that the point `pjson` lies relative to.
pub fn get_city(pjson: &Json) -> (text: String)
    ensures
        text@ == text_of(location(*pjson, "city"@)),
{
    get_location(pjson, "city")
}

/// The state that the point `pjson` lies relative to.
pub fn get_state(pjson: &Json) -> (text: String)
    ensures
        text@ == text_of(location(*pjson, "state"@)),
{
    get_location(pjson, "state")
}

/// The forecast, given what reading the response body as JSON gave: a body
/// that is no JSON document ends the fetch.
pub fn load_forecast(parsed: Option<Json>) -> (forecast: Result<Json, FetchError>)
    ensures
        forecast == match parsed {
            Some(json) => Ok::<Json, FetchError>(json),
            None => Err(FetchError::Parse),
        },
{
    match parsed {
        Some(json) => Ok(json),
        None => Err(FetchError::Parse),
    }
}

} // verus!

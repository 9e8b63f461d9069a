//! JSON documents as the `.hashchain` records are read: `serde_json` parses
//! the text, and its value is carried over into `JsonValue`, whose fields
//! the record logic then reads.
use vstd::prelude::*;

verus! {

/// A JSON value. A number is held as `as_u64` reads it (an unsigned
/// integer, where it is one) and as `as_f64` read and cut to a whole
/// number the way a cast to `u64` cuts it.
pub enum JsonValue {
    Null,
    Bool(bool),
    Number { unsigned: Option<u64>, whole: Option<u64> },
    Text(String),
    List(Vec<JsonValue>),
    Object(Vec<(String, JsonValue)>),
}

#[verifier::external_type_specification]
#[verifier::external_body]
pub struct ExSerdeJsonValue(serde_json::Value);

/// What `serde_json` reads from a byte text; `None` where it reports an
/// error.
pub uninterp spec fn json_document(text: Seq<u8>) -> Option<JsonValue>;

/// Parses a JSON document with `serde_json::from_slice`. Its result is not
/// stated here, only named: it is what serde_json reads from these bytes,
/// carried over by `json_value_of`, and `None` where serde_json fails.
#[verifier::external_body]
pub(crate) fn parse_json(text: &[u8]) -> (v: Option<JsonValue>)
    ensures
        v == json_document(text@),
{
    match serde_json::from_slice::<serde_json::Value>(text) {
        Ok(value) => Some(json_value_of(value)),
        Err(_) => None,
    }
}

/// Carries a `serde_json::Value` over into a `JsonValue`, variant by
/// variant, reading a number with `Number::as_u64` and `Number::as_f64`.
#[verifier::external_body]
fn json_value_of(value: serde_json::Value) -> JsonValue {
    match value {
        serde_json::Value::Null => JsonValue::Null,
        serde_json::Value::Bool(b) => JsonValue::Bool(b),
        serde_json::Value::Number(n) => JsonValue::Number { unsigned: n.as_u64(), whole: n.as_f64().map(|x| x as u64) },
        serde_json::Value::String(s) => JsonValue::Text(s),
        serde_json::Value::Array(a) => JsonValue::List(a.into_iter().map(json_value_of).collect()),
        serde_json::Value::Object(m) => JsonValue::Object(m.into_iter().map(|(k, x)| (k, json_value_of(x))).collect()),
    }
}

/// The value of the first entry named `key`, `Null` where there is none.
pub open spec fn entry_value(entries: Seq<(String, JsonValue)>, key: Seq<char>) -> JsonValue
    decreases entries.len(),
{
    if entries.len() == 0 {
        JsonValue::Null
    } else if entries[0].0@ == key {
        entries[0].1
    } else {
        entry_value(entries.drop_first(), key)
    }
}

/// `value[key]`: the field of an object, `Null` where `value` is not an
/// object or has no such field.
pub open spec fn json_field(value: JsonValue, key: Seq<char>) -> JsonValue {
    match value {
        JsonValue::Object(entries) => entry_value(entries@, key),
        _ => JsonValue::Null,
    }
}

/// The text of a text value.
pub open spec fn text_of(value: JsonValue) -> Option<String> {
    match value {
        JsonValue::Text(s) => Some(s),
        _ => None,
    }
}

/// A number that is an unsigned integer.
pub open spec fn unsigned_of(value: JsonValue) -> Option<u64> {
    match value {
        JsonValue::Number { unsigned, .. } => unsigned,
        _ => None,
    }
}

/// A number cut to a whole number.
pub open spec fn whole_of(value: JsonValue) -> Option<u64> {
    match value {
        JsonValue::Number { whole, .. } => whole,
        _ => None,
    }
}

/// The items of a list.
pub open spec fn items_of(value: JsonValue) -> Option<Seq<JsonValue>> {
    match value {
        JsonValue::List(items) => Some(items@),
        _ => None,
    }
}

/// The items that are unsigned integers, in order.
pub open spec fn unsigned_items(items: Seq<JsonValue>) -> Seq<u64>
    decreases items.len(),
{
    if items.len() == 0 {
        Seq::empty()
    } else {
        let prev = unsigned_items(items.drop_last());
        match unsigned_of(items.last()) {
            Some(n) => prev.push(n),
            None => prev,
        }
    }
}

/// The items that are texts, in order.
pub open spec fn text_items(items: Seq<JsonValue>) -> Seq<String>
    decreases items.len(),
{
    if items.len() == 0 {
        Seq::empty()
    } else {
        let prev = text_items(items.drop_last());
        match text_of(items.last()) {
            Some(s) => prev.push(s),
            None => prev,
        }
    }
}

/// `value[key]`, or `None` where that is `Null` because the field is absent.
fn find_field<'a>(value: &'a JsonValue, key: &str) -> (f: Option<&'a JsonValue>)
    ensures
        f matches Some(x) ==> *x == json_field(*value, key@),
        f is None ==> json_field(*value, key@) is Null,
{
    match value {
        JsonValue::Object(entries) => {
            let wanted: String = key.to_owned();
            let mut i: usize = 0;
            assert(entries@.skip(0) =~= entries@);
            while i < entries.len()
                invariant
                    i <= entries@.len(),
                    wanted@ == key@,
                    json_field(*value, key@) == entry_value(entries@, key@),
                    entry_value(entries@, key@) == entry_value(entries@.skip(i as int), key@),
                decreases entries@.len() - i,
            {
                assert(entries@.skip(i as int)[0] == entries@[i as int]);
                if entries[i].0 == wanted {
                    assert(entries@.skip(i as int).len() > 0);
                    return Some(&entries[i].1);
                }
                assert(entries@.skip(i as int).drop_first() =~= entries@.skip(i + 1));
                i = i + 1;
            }
            assert(entries@.skip(i as int).len() == 0);
            None
        },
        _ => None,
    }
}

/// The text under `key`.
pub fn text_field(value: &JsonValue, key: &str) -> (t: Option<String>)
    ensures
        t == text_of(json_field(*value, key@)),
{
    match find_field(value, key) {
        Some(JsonValue::Text(s)) => Some(s.clone()),
        _ => None,
    }
}

/// The unsigned integer under `key`.
pub fn unsigned_field(value: &JsonValue, key: &str) -> (n: Option<u64>)
    ensures
        n == unsigned_of(json_field(*value, key@)),
{
    match find_field(value, key) {
        Some(JsonValue::Number { unsigned, .. }) => *unsigned,
        _ => None,
    }
}

/// The number under `key`, cut to a whole number.
pub fn whole_field(value: &JsonValue, key: &str) -> (n: Option<u64>)
    ensures
        n == whole_of(json_field(*value, key@)),
{
    match find_field(value, key) {
        Some(JsonValue::Number { whole, .. }) => *whole,
        _ => None,
    }
}

/// The unsigned integers of the list under `key`.
pub fn unsigned_list_field(value: &JsonValue, key: &str) -> (l: Option<Vec<u64>>)
    ensures
        match items_of(json_field(*value, key@)) {
            Some(items) => l matches Some(v) && v@ == unsigned_items(items),
            None => l is None,
        },
{
    match find_field(value, key) {
        Some(JsonValue::List(items)) => {
            let mut out: Vec<u64> = Vec::new();
            let mut i: usize = 0;
            while i < items.len()
                invariant
                    i <= items@.len(),
                    out@ == unsigned_items(items@.subrange(0, i as int)),
                decreases items@.len() - i,
            {
                assert(items@.subrange(0, i + 1).drop_last() =~= items@.subrange(0, i as int));
                match &items[i] {
                    JsonValue::Number { unsigned: Some(n), .. } => out.push(*n),
                    _ => {},
                }
                i = i + 1;
            }
            assert(items@.subrange(0, items@.len() as int) =~= items@);
            Some(out)
        },
        _ => None,
    }
}

/// The texts of the list under `key`.
pub fn text_list_field(value: &JsonValue, key: &str) -> (l: Option<Vec<String>>)
    ensures
        match items_of(json_field(*value, key@)) {
            Some(items) => l matches Some(v) && v@ == text_items(items),
            None => l is None,
        },
{
    match find_field(value, key) {
        Some(JsonValue::List(items)) => {
            let mut out: Vec<String> = Vec::new();
            let mut i: usize = 0;
            while i < items.len()
                invariant
                    i <= items@.len(),
                    out@ == text_items(items@.subrange(0, i as int)),
                decreases items@.len() - i,
            {
                assert(items@.subrange(0, i + 1).drop_last() =~= items@.subrange(0, i as int));
                match &items[i] {
                    JsonValue::Text(s) => out.push(s.clone()),
                    _ => {},
                }
                i = i + 1;
            }
            assert(items@.subrange(0, items@.len() as int) =~= items@);
            Some(out)
        },
        _ => None,
    }
}

} // verus!

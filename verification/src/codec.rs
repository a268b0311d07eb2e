//! The canonical envelope codec.
//!
//! The store accepts and returns items only as JSON objects. A value that
//! is not object-shaped is wrapped as `{"value": v}`, and a caller key is
//! merged in under `"key"`, overwriting any same-named field of the value
//! itself. Decoding runs the two inverse paths the wire format calls for:
//! a compact path for the two-field `{"key", "value"}` shape and an
//! envelope path that strips or keeps the `"key"` field.

use vstd::prelude::*;

use crate::error::Error;
use crate::item::{key_view, Item};
use crate::json::{
    entry_index, entry_value, entry_views, has_entry, lemma_entry_index,
    lemma_entry_index_of_first, remove_entry, set_entry, with_entry, without_entry, JsonValue,
};

verus! {

/// The fields of the envelope before key injection: the value's own
/// fields if it is an object, else the single wrapping field `"value"`.
pub open spec fn wrapped_fields(value: JsonValue) -> Seq<(Seq<char>, JsonValue)> {
    match value {
        JsonValue::Obj(es) => entry_views(es@),
        _ => seq![("value"@, value)],
    }
}

/// The fields of the full envelope: the wrapped value with the caller
/// key, if any, merged in under `"key"`.
pub open spec fn encoded_fields(key: Option<String>, value: JsonValue) -> Seq<
    (Seq<char>, JsonValue),
> {
    match key {
        Some(k) => with_entry(wrapped_fields(value), "key"@, JsonValue::Str(k)),
        None => wrapped_fields(value),
    }
}

/// Converts an item into the wire envelope, a JSON object.
pub fn encode(item: Item<JsonValue>) -> (r: JsonValue)
    ensures
        r is Obj,
        r.fields() == encoded_fields(item.key, item.value),
{
    let Item { key, value } = item;
    let mut es: Vec<(String, JsonValue)> = match value {
        JsonValue::Obj(es0) => es0,
        other => {
            let mut w: Vec<(String, JsonValue)> = Vec::new();
            w.push(("value".to_owned(), other));
            proof {
                assert(entry_views(w@) =~= seq![("value"@, item.value)]);
            }
            w
        },
    };
    assert(entry_views(es@) == wrapped_fields(item.value));
    if let Some(k) = key {
        set_entry(&mut es, "key".to_owned(), JsonValue::Str(k));
    }
    JsonValue::Obj(es)
}

/// What the compact decode path yields: the `"value"` field, or `Null`
/// if a two-field object happens to lack one.
pub open spec fn compact_value(fs: Seq<(Seq<char>, JsonValue)>) -> JsonValue {
    if has_entry(fs, "value"@) {
        entry_value(fs, "value"@)
    } else {
        JsonValue::Null
    }
}

/// How `decode_single` answers on a given wire document.
pub open spec fn decode_single_rel(wire: JsonValue, r: Result<JsonValue, Error>) -> bool {
    &&& !(wire is Obj) ==> r == Err::<JsonValue, Error>(Error::JSONDeserializingFailed)
    &&& wire is Obj && wire.fields().len() == 2 ==> r == Ok::<JsonValue, Error>(
        compact_value(wire.fields()),
    )
    &&& wire is Obj && wire.fields().len() != 2 && has_entry(wire.fields(), "key"@) ==> {
        &&& r matches Ok(v)
        &&& v is Obj
        &&& v.fields() == without_entry(wire.fields(), "key"@)
    }
    &&& wire is Obj && wire.fields().len() != 2 && !has_entry(wire.fields(), "key"@) ==> r
        == Err::<JsonValue, Error>(Error::JSONDeserializingFailed)
}

/// Decodes a fetched envelope to the bare value (the store's compact
/// two-field shape yields its `"value"` field; any other object has its
/// `"key"` field stripped and is returned whole).
pub fn decode_single(wire: JsonValue) -> (r: Result<JsonValue, Error>)
    ensures
        decode_single_rel(wire, r),
{
    match wire {
        JsonValue::Obj(mut es) => {
            if es.len() == 2 {
                match remove_entry(&mut es, &"value".to_owned()) {
                    Some(v) => Ok(v),
                    None => Ok(JsonValue::Null),
                }
            } else {
                match remove_entry(&mut es, &"key".to_owned()) {
                    Some(_) => Ok(JsonValue::Obj(es)),
                    None => Err(Error::JSONDeserializingFailed),
                }
            }
        },
        _ => Err(Error::JSONDeserializingFailed),
    }
}

/// Whether an envelope can be decoded as an item: a `"key"` field, if
/// present, must hold a string.
pub open spec fn item_decodable(fs: Seq<(Seq<char>, JsonValue)>) -> bool {
    has_entry(fs, "key"@) ==> entry_value(fs, "key"@) is Str
}

/// The key the envelope carries, if any.
pub open spec fn decoded_key(fs: Seq<(Seq<char>, JsonValue)>) -> Option<Seq<char>>
    recommends
        item_decodable(fs),
{
    if has_entry(fs, "key"@) {
        Some(entry_value(fs, "key"@)->Str_0@)
    } else {
        None
    }
}

/// The fields of the decoded item's value: the envelope without its
/// `"key"` field.
pub open spec fn decoded_fields(fs: Seq<(Seq<char>, JsonValue)>) -> Seq<(Seq<char>, JsonValue)> {
    without_entry(fs, "key"@)
}

/// How `decode_item` answers on a given wire document.
pub open spec fn decode_item_rel(wire: JsonValue, r: Result<Item<JsonValue>, Error>) -> bool {
    &&& !(wire is Obj) ==> r == Err::<Item<JsonValue>, Error>(Error::JSONDeserializingFailed)
    &&& wire is Obj && !item_decodable(wire.fields()) ==> r == Err::<Item<JsonValue>, Error>(
        Error::JSONDeserializingFailed,
    )
    &&& wire is Obj && item_decodable(wire.fields()) ==> {
        &&& r matches Ok(it)
        &&& key_view(it.key) == decoded_key(wire.fields())
        &&& it.value is Obj
        &&& it.value.fields() == decoded_fields(wire.fields())
    }
}

/// Decodes a fetched envelope to an item, keeping the key alongside the
/// value.
pub fn decode_item(wire: JsonValue) -> (r: Result<Item<JsonValue>, Error>)
    ensures
        decode_item_rel(wire, r),
{
    match wire {
        JsonValue::Obj(mut es) => {
            match remove_entry(&mut es, &"key".to_owned()) {
                Some(JsonValue::Str(s)) => Ok(Item { key: Some(s), value: JsonValue::Obj(es) }),
                Some(_) => Err(Error::JSONDeserializingFailed),
                None => Ok(Item { key: None, value: JsonValue::Obj(es) }),
            }
        },
        _ => Err(Error::JSONDeserializingFailed),
    }
}

/// Round-trip law: encoding an object-shaped value that has no `"key"`
/// field of its own and decoding the envelope back as an item returns
/// the original key and the original fields.
pub proof fn lemma_round_trip(item: Item<JsonValue>)
    requires
        item.value is Obj,
        !has_entry(item.value.fields(), "key"@),
    ensures
        ({
            let enc = encoded_fields(item.key, item.value);
            &&& item_decodable(enc)
            &&& decoded_key(enc) == key_view(item.key)
            &&& decoded_fields(enc) == item.value.fields()
        }),
{
    let fs = item.value.fields();
    match item.key {
        None => {
            assert(decoded_fields(fs) == fs);
        },
        Some(k) => {
            let enc = with_entry(fs, "key"@, JsonValue::Str(k));
            assert(enc == fs.push(("key"@, JsonValue::Str(k))));
            lemma_entry_index_of_first(enc, "key"@, fs.len() as int);
            assert(entry_value(enc, "key"@) == JsonValue::Str(k));
            assert(enc.remove(fs.len() as int) =~= fs);
        },
    }
}

/// Scalar wrap law: a value that is not object-shaped is wrapped under
/// `"value"`, and with a caller key the envelope has exactly the two
/// fields of the compact shape, whose compact decoding yields the value
/// back.
pub proof fn lemma_scalar_wrap(item: Item<JsonValue>)
    requires
        !(item.value is Obj),
    ensures
        ({
            let enc = encoded_fields(item.key, item.value);
            &&& has_entry(enc, "value"@)
            &&& compact_value(enc) == item.value
            &&& item.key is Some ==> enc.len() == 2
            &&& item.key is None ==> enc.len() == 1
        }),
{
    reveal_strlit("value");
    reveal_strlit("key");
    assert("value"@.len() == 5);
    assert("key"@.len() == 3);
    let fs = wrapped_fields(item.value);
    assert(fs == seq![("value"@, item.value)]);
    let enc = encoded_fields(item.key, item.value);
    match item.key {
        Some(k) => {
            assert(!has_entry(fs, "key"@));
            assert(enc == fs.push(("key"@, JsonValue::Str(k))));
            lemma_entry_index_of_first(enc, "value"@, 0);
        },
        None => {
            lemma_entry_index_of_first(enc, "value"@, 0);
        },
    }
}

/// Key precedence law: whenever the item carries a caller key, the
/// envelope's `"key"` field holds that key, whatever same-named field
/// the value itself may have had.
pub proof fn lemma_key_precedence(item: Item<JsonValue>)
    requires
        item.key is Some,
    ensures
        match item.key {
            Some(k) => {
                let enc = encoded_fields(item.key, item.value);
                &&& has_entry(enc, "key"@)
                &&& entry_value(enc, "key"@) == JsonValue::Str(k)
            },
            None => true,
        },
{
    let fs = wrapped_fields(item.value);
    let k = choose|k: String| item.key == Some(k);
    let enc = encoded_fields(item.key, item.value);
    if has_entry(fs, "key"@) {
        lemma_entry_index(fs, "key"@);
        let i = entry_index(fs, "key"@);
        assert(enc == fs.update(i, ("key"@, JsonValue::Str(k))));
        assert forall|j: int| 0 <= j < i implies enc[j].0 != "key"@ by {
            assert(enc[j] == fs[j]);
        }
        lemma_entry_index_of_first(enc, "key"@, i);
    } else {
        assert(enc == fs.push(("key"@, JsonValue::Str(k))));
        lemma_entry_index_of_first(enc, "key"@, fs.len() as int);
    }
}

} // verus!

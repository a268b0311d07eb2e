use deta::codec::{decode_item, decode_single, encode};
use deta::{Error, Item, JsonValue};

#[test]
fn item_constructors() {
    let item = Item::new(JsonValue::Int(5));
    assert_eq!(item.key, None);
    assert_eq!(item.value, JsonValue::Int(5));
    let item2 = Item::new_with_key("five", JsonValue::Int(5));
    assert_eq!(item2.key, Some("five".to_string()));
    assert_eq!(item2.value, JsonValue::Int(5));
}

#[test]
fn round_trip_object_item() {
    let value = JsonValue::Obj(vec![
        ("name".to_string(), JsonValue::Str("Jimmy".to_string())),
        ("age".to_string(), JsonValue::Int(33)),
    ]);
    let item = Item { key: Some("user-a".to_string()), value };
    let wire = encode(item);
    let back = decode_item(wire).unwrap();
    assert_eq!(back.key, Some("user-a".to_string()));
    assert_eq!(
        back.value,
        JsonValue::Obj(vec![
            ("name".to_string(), JsonValue::Str("Jimmy".to_string())),
            ("age".to_string(), JsonValue::Int(33)),
        ])
    );
}

#[test]
fn scalar_wrap_and_compact_decode() {
    let item = Item { key: Some("k1".to_string()), value: JsonValue::Int(60) };
    let wire = encode(item);
    assert_eq!(
        wire,
        JsonValue::Obj(vec![
            ("value".to_string(), JsonValue::Int(60)),
            ("key".to_string(), JsonValue::Str("k1".to_string())),
        ])
    );
    assert_eq!(decode_single(wire).unwrap(), JsonValue::Int(60));
}

#[test]
fn scalar_without_key_is_single_field_envelope() {
    let wire = encode(Item::new(JsonValue::Bool(true)));
    assert_eq!(
        wire,
        JsonValue::Obj(vec![("value".to_string(), JsonValue::Bool(true))])
    );
}

#[test]
fn key_precedence_caller_key_wins() {
    let value = JsonValue::Obj(vec![("key".to_string(), JsonValue::Str("x".to_string()))]);
    let item = Item { key: Some("y".to_string()), value };
    let wire = encode(item);
    assert_eq!(
        wire,
        JsonValue::Obj(vec![("key".to_string(), JsonValue::Str("y".to_string()))])
    );
}

#[test]
fn decode_single_strips_key_from_object_shape() {
    let wire = JsonValue::Obj(vec![
        ("a".to_string(), JsonValue::Int(1)),
        ("key".to_string(), JsonValue::Str("id".to_string())),
        ("b".to_string(), JsonValue::Int(2)),
    ]);
    assert_eq!(
        decode_single(wire).unwrap(),
        JsonValue::Obj(vec![
            ("a".to_string(), JsonValue::Int(1)),
            ("b".to_string(), JsonValue::Int(2)),
        ])
    );
}

#[test]
fn decode_single_without_key_fails() {
    let wire = JsonValue::Obj(vec![
        ("a".to_string(), JsonValue::Int(1)),
        ("b".to_string(), JsonValue::Int(2)),
        ("c".to_string(), JsonValue::Int(3)),
    ]);
    assert_eq!(decode_single(wire), Err(Error::JSONDeserializingFailed));
}

#[test]
fn decode_single_rejects_non_object() {
    assert_eq!(
        decode_single(JsonValue::Int(3)),
        Err(Error::JSONDeserializingFailed)
    );
}

#[test]
fn decode_item_key_not_string_fails() {
    let wire = JsonValue::Obj(vec![("key".to_string(), JsonValue::Int(9))]);
    assert_eq!(decode_item(wire), Err(Error::JSONDeserializingFailed));
}

#[test]
fn decode_item_without_key_keeps_all_fields() {
    let wire = JsonValue::Obj(vec![("a".to_string(), JsonValue::Bool(true))]);
    let item = decode_item(wire).unwrap();
    assert_eq!(item.key, None);
    assert_eq!(
        item.value,
        JsonValue::Obj(vec![("a".to_string(), JsonValue::Bool(true))])
    );
}

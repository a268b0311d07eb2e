use deta::batch::{prepare, reconcile};
use deta::{Error, Item, JsonValue};

#[test]
fn prepare_wraps_encoded_items() {
    let items = vec![
        Item { key: Some("a".to_string()), value: JsonValue::Int(1) },
        Item {
            key: None,
            value: JsonValue::Obj(vec![("x".to_string(), JsonValue::Int(2))]),
        },
    ];
    let w = prepare(items).unwrap();
    assert_eq!(
        w,
        JsonValue::Obj(vec![(
            "items".to_string(),
            JsonValue::Arr(vec![
                JsonValue::Obj(vec![
                    ("value".to_string(), JsonValue::Int(1)),
                    ("key".to_string(), JsonValue::Str("a".to_string())),
                ]),
                JsonValue::Obj(vec![("x".to_string(), JsonValue::Int(2))]),
            ]),
        )])
    );
}

#[test]
fn prepare_empty_batch_is_valid() {
    let w = prepare(Vec::new()).unwrap();
    assert_eq!(
        w,
        JsonValue::Obj(vec![("items".to_string(), JsonValue::Arr(vec![]))])
    );
}

#[test]
fn cap_rejects_26_items() {
    let mut items = Vec::new();
    for i in 0i64..26 {
        items.push(Item { key: Some(format!("k{}", i)), value: JsonValue::Int(i) });
    }
    assert_eq!(prepare(items), Err(Error::VecTooLong));
}

#[test]
fn cap_admits_25_items() {
    let mut items = Vec::new();
    for i in 0i64..25 {
        items.push(Item { key: Some(format!("k{}", i)), value: JsonValue::Int(i) });
    }
    assert!(prepare(items).is_ok());
}

#[test]
fn reconcile_partitions_complete() {
    let resp = JsonValue::Obj(vec![
        (
            "processed".to_string(),
            JsonValue::Obj(vec![(
                "items".to_string(),
                JsonValue::Arr(vec![
                    JsonValue::Obj(vec![
                        ("key".to_string(), JsonValue::Str("a".to_string())),
                        ("v".to_string(), JsonValue::Int(1)),
                    ]),
                    JsonValue::Obj(vec![
                        ("key".to_string(), JsonValue::Str("b".to_string())),
                        ("v".to_string(), JsonValue::Int(2)),
                    ]),
                ]),
            )]),
        ),
        (
            "failed".to_string(),
            JsonValue::Obj(vec![(
                "items".to_string(),
                JsonValue::Arr(vec![JsonValue::Obj(vec![
                    ("key".to_string(), JsonValue::Str("c".to_string())),
                    ("v".to_string(), JsonValue::Int(3)),
                ])]),
            )]),
        ),
    ]);
    let (processed, failed) = reconcile(resp).unwrap();
    assert_eq!(processed.len() + failed.len(), 3);
    assert_eq!(processed[0].key, Some("a".to_string()));
    assert_eq!(
        processed[0].value,
        JsonValue::Obj(vec![("v".to_string(), JsonValue::Int(1))])
    );
    assert_eq!(processed[1].key, Some("b".to_string()));
    assert_eq!(failed[0].key, Some("c".to_string()));
}

#[test]
fn reconcile_missing_partition_is_empty() {
    let resp = JsonValue::Obj(vec![(
        "processed".to_string(),
        JsonValue::Obj(vec![(
            "items".to_string(),
            JsonValue::Arr(vec![JsonValue::Obj(vec![(
                "key".to_string(),
                JsonValue::Str("a".to_string()),
            )])]),
        )]),
    )]);
    let (processed, failed) = reconcile(resp).unwrap();
    assert_eq!(processed.len(), 1);
    assert_eq!(failed.len(), 0);
}

#[test]
fn reconcile_null_partitions_are_empty() {
    let resp = JsonValue::Obj(vec![
        ("processed".to_string(), JsonValue::Null),
        ("failed".to_string(), JsonValue::Null),
    ]);
    let (processed, failed) = reconcile(resp).unwrap();
    assert_eq!(processed.len(), 0);
    assert_eq!(failed.len(), 0);
}

#[test]
fn reconcile_bad_partition_shape_fails() {
    let resp = JsonValue::Obj(vec![("processed".to_string(), JsonValue::Int(1))]);
    assert_eq!(reconcile(resp), Err(Error::JSONDeserializingFailed));
}

#[test]
fn reconcile_non_object_response_fails() {
    assert_eq!(
        reconcile(JsonValue::Arr(vec![])),
        Err(Error::JSONDeserializingFailed)
    );
}

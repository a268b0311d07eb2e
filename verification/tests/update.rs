use deta::{JsonValue, Update};

#[test]
fn append_accumulates_in_call_order() {
    let u = Update::new()
        .append("likes".to_string(), "ramen".to_string())
        .append("likes".to_string(), "noodles".to_string());
    let w = u.build();
    match &w {
        JsonValue::Obj(fields) => {
            assert_eq!(fields[2].0, "append");
            assert_eq!(
                fields[2].1,
                JsonValue::Obj(vec![(
                    "likes".to_string(),
                    JsonValue::Arr(vec![
                        JsonValue::Str("ramen".to_string()),
                        JsonValue::Str("noodles".to_string()),
                    ]),
                )])
            );
        }
        _ => panic!("update wire document must be an object"),
    }
}

#[test]
fn build_serializes_all_five_fields_even_empty() {
    let w = Update::new().build();
    assert_eq!(
        w,
        JsonValue::Obj(vec![
            ("set".to_string(), JsonValue::Obj(vec![])),
            ("increment".to_string(), JsonValue::Obj(vec![])),
            ("append".to_string(), JsonValue::Obj(vec![])),
            ("prepend".to_string(), JsonValue::Obj(vec![])),
            ("delete".to_string(), JsonValue::Arr(vec![])),
        ])
    );
}

#[test]
fn set_overwrites_same_path() {
    let u = Update::new()
        .set("a".to_string(), "1".to_string())
        .set("a".to_string(), "2".to_string());
    let w = u.build();
    match &w {
        JsonValue::Obj(fields) => {
            assert_eq!(
                fields[0].1,
                JsonValue::Obj(vec![("a".to_string(), JsonValue::Str("2".to_string()))])
            );
        }
        _ => panic!("update wire document must be an object"),
    }
}

#[test]
fn full_update_document() {
    let u = Update::new()
        .set("profile.age".to_string(), "33".to_string())
        .increment("purchases".to_string(), "2".to_string())
        .append("likes".to_string(), "ramen".to_string())
        .prepend("likes".to_string(), "noodles".to_string())
        .delete("profile.hometown".to_string())
        .delete("on_mobile".to_string());
    assert_eq!(
        u.build(),
        JsonValue::Obj(vec![
            (
                "set".to_string(),
                JsonValue::Obj(vec![(
                    "profile.age".to_string(),
                    JsonValue::Str("33".to_string())
                )])
            ),
            (
                "increment".to_string(),
                JsonValue::Obj(vec![(
                    "purchases".to_string(),
                    JsonValue::Str("2".to_string())
                )])
            ),
            (
                "append".to_string(),
                JsonValue::Obj(vec![(
                    "likes".to_string(),
                    JsonValue::Arr(vec![JsonValue::Str("ramen".to_string())])
                )])
            ),
            (
                "prepend".to_string(),
                JsonValue::Obj(vec![(
                    "likes".to_string(),
                    JsonValue::Arr(vec![JsonValue::Str("noodles".to_string())])
                )])
            ),
            (
                "delete".to_string(),
                JsonValue::Arr(vec![
                    JsonValue::Str("profile.hometown".to_string()),
                    JsonValue::Str("on_mobile".to_string()),
                ])
            ),
        ])
    );
}

#[test]
fn delete_keeps_duplicate_paths() {
    let u = Update::new()
        .delete("x".to_string())
        .delete("x".to_string());
    let w = u.build();
    match &w {
        JsonValue::Obj(fields) => {
            assert_eq!(
                fields[4].1,
                JsonValue::Arr(vec![
                    JsonValue::Str("x".to_string()),
                    JsonValue::Str("x".to_string()),
                ])
            );
        }
        _ => panic!("update wire document must be an object"),
    }
}

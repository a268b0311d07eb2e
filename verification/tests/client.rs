use deta::client::{
    delete_response, get_response, insert_response, put_many_response, put_response,
    update_response, Method, Response,
};
use deta::{Deta, Error, Item, JsonValue, Update};

#[test]
fn key_validation_accepts_token_chars() {
    let d = Deta::new_with_key("abc123_XY.z-~").unwrap();
    assert_eq!(d.key, "abc123_XY.z-~");
    assert_eq!(d.project_id, "abc123");
    assert_eq!(d.base_name, None);
}

#[test]
fn key_validation_rejects_bad_char() {
    assert!(matches!(Deta::new_with_key("abc 123"), Err(Error::InvalidKey)));
}

#[test]
fn key_without_separator_uses_whole_token() {
    let d = Deta::new_with_key("abcdef").unwrap();
    assert_eq!(d.project_id, "abcdef");
}

#[test]
fn base_binding_derives_new_handle() {
    let d = Deta::new_with_key("pid_rest").unwrap();
    let b = d.base("main");
    assert_eq!(b.base_name, Some("main".to_string()));
    assert_eq!(d.base_name, None);
    assert_eq!(b.project_id, "pid");
    assert_eq!(b.key, d.key);
}

#[test]
fn operation_without_base_fails_locally() {
    let d = Deta::new_with_key("pid_rest").unwrap();
    assert!(matches!(d.get_request("x"), Err(Error::BaseNameNotPresent)));
    assert!(matches!(d.delete_request("x"), Err(Error::BaseNameNotPresent)));
    assert!(matches!(
        d.insert_request(Item::new(JsonValue::Int(1))),
        Err(Error::BaseNameNotPresent)
    ));
    assert!(matches!(
        d.update_request("x", &Update::new()),
        Err(Error::BaseNameNotPresent)
    ));
}

#[test]
fn insert_then_fetch_scenario() {
    let base = Deta::new_with_key("pid_key").unwrap().base("main");

    let rq = base
        .insert_request(Item::new_with_key("id1", JsonValue::Int(60)))
        .unwrap();
    assert_eq!(rq.method, Method::Post);
    assert_eq!(
        rq.body,
        Some(JsonValue::Obj(vec![(
            "item".to_string(),
            JsonValue::Obj(vec![
                ("value".to_string(), JsonValue::Int(60)),
                ("key".to_string(), JsonValue::Str("id1".to_string())),
            ]),
        )]))
    );
    let created = insert_response(Some(Response {
        status: 201,
        body: Some(JsonValue::Obj(vec![(
            "key".to_string(),
            JsonValue::Str("id1".to_string()),
        )])),
    }));
    assert_eq!(created.unwrap(), "id1");

    let rq2 = base.get_request("id1").unwrap();
    assert_eq!(rq2.method, Method::Get);
    assert_eq!(rq2.item_key, Some("id1".to_string()));
    let fetched = get_response(Some(Response {
        status: 200,
        body: Some(JsonValue::Obj(vec![
            ("key".to_string(), JsonValue::Str("id1".to_string())),
            ("value".to_string(), JsonValue::Int(60)),
        ])),
    }));
    assert_eq!(fetched.unwrap(), JsonValue::Int(60));
}

#[test]
fn insert_conflict_scenario() {
    let base = Deta::new_with_key("pid_key").unwrap().base("main");
    assert!(base
        .insert_request(Item::new_with_key("dup", JsonValue::Int(1)))
        .is_ok());
    let first = insert_response(Some(Response {
        status: 201,
        body: Some(JsonValue::Obj(vec![(
            "key".to_string(),
            JsonValue::Str("dup".to_string()),
        )])),
    }));
    assert_eq!(first.unwrap(), "dup");
    let second = insert_response(Some(Response { status: 409, body: None }));
    assert_eq!(second, Err(Error::KeyConflict));
}

#[test]
fn mutate_absent_key_scenario() {
    let base = Deta::new_with_key("pid_key").unwrap().base("main");
    let u = Update::new().set("x".to_string(), "1".to_string());
    let rq = base.update_request("missing", &u).unwrap();
    assert_eq!(rq.method, Method::Patch);
    assert_eq!(rq.item_key, Some("missing".to_string()));
    let r = update_response(Some(Response { status: 404, body: None }));
    assert_eq!(r, Err(Error::KeyNonexistent));
}

#[test]
fn cap_rejected_before_any_transport_invocation() {
    let base = Deta::new_with_key("pid_k").unwrap().base("b");
    let mut items = Vec::new();
    for i in 0i64..26 {
        items.push(Item::new_with_key(&format!("k{}", i), JsonValue::Int(i)));
    }
    let mut transport_invocations = 0;
    match base.put_many_request(items) {
        Ok(_request) => transport_invocations += 1,
        Err(e) => assert_eq!(e, Error::VecTooLong),
    }
    assert_eq!(transport_invocations, 0);
}

#[test]
fn transport_failure_maps_to_request_send_error() {
    assert!(matches!(get_response(None), Err(Error::RequestSendError)));
    assert_eq!(delete_response(None), Err(Error::RequestSendError));
    assert!(matches!(put_response(None), Err(Error::RequestSendError)));
    assert!(matches!(put_many_response(None), Err(Error::RequestSendError)));
    assert!(matches!(insert_response(None), Err(Error::RequestSendError)));
    assert_eq!(update_response(None), Err(Error::RequestSendError));
}

#[test]
fn fetch_non_success_is_item_not_found() {
    let r = get_response(Some(Response { status: 404, body: None }));
    assert_eq!(r, Err(Error::ItemNotFound));
}

#[test]
fn delete_ignores_status() {
    assert_eq!(delete_response(Some(Response { status: 500, body: None })), Ok(()));
}

#[test]
fn put_response_reads_processed_key() {
    let r = put_response(Some(Response {
        status: 207,
        body: Some(JsonValue::Obj(vec![(
            "processed".to_string(),
            JsonValue::Obj(vec![(
                "items".to_string(),
                JsonValue::Arr(vec![JsonValue::Obj(vec![(
                    "key".to_string(),
                    JsonValue::Str("put_id".to_string()),
                )])]),
            )]),
        )])),
    }));
    assert_eq!(r.unwrap(), "put_id");
}

#[test]
fn put_response_non_success_is_bad_request() {
    assert_eq!(
        put_response(Some(Response { status: 400, body: None })),
        Err(Error::BadRequest)
    );
    assert_eq!(
        put_response(Some(Response { status: 500, body: None })),
        Err(Error::BadRequest)
    );
}

#[test]
fn put_response_empty_partition_fails() {
    let r = put_response(Some(Response {
        status: 200,
        body: Some(JsonValue::Obj(vec![(
            "processed".to_string(),
            JsonValue::Obj(vec![("items".to_string(), JsonValue::Arr(vec![]))]),
        )])),
    }));
    assert_eq!(r, Err(Error::JSONDeserializingFailed));
}

#[test]
fn update_response_status_table() {
    assert_eq!(
        update_response(Some(Response { status: 400, body: None })),
        Err(Error::BadRequest)
    );
    assert_eq!(
        update_response(Some(Response { status: 500, body: None })),
        Err(Error::ServerError)
    );
    assert_eq!(update_response(Some(Response { status: 200, body: None })), Ok(()));
}

#[test]
fn insert_response_status_table() {
    assert_eq!(
        insert_response(Some(Response { status: 400, body: None })),
        Err(Error::BadRequest)
    );
    assert_eq!(
        insert_response(Some(Response { status: 500, body: None })),
        Err(Error::ServerError)
    );
    let missing_key = insert_response(Some(Response {
        status: 200,
        body: Some(JsonValue::Obj(vec![])),
    }));
    assert_eq!(missing_key, Err(Error::ServerError));
    let no_body = insert_response(Some(Response { status: 200, body: None }));
    assert_eq!(no_body, Err(Error::JSONDeserializingFailed));
}

#[test]
fn put_many_request_and_response_flow() {
    let base = Deta::new_with_key("pid_k").unwrap().base("b");
    let items = vec![Item::new_with_key("a", JsonValue::Int(1))];
    let rq = base.put_many_request(items).unwrap();
    assert_eq!(rq.method, Method::Put);
    assert_eq!(rq.item_key, None);
    let resp = put_many_response(Some(Response {
        status: 200,
        body: Some(JsonValue::Obj(vec![(
            "processed".to_string(),
            JsonValue::Obj(vec![(
                "items".to_string(),
                JsonValue::Arr(vec![JsonValue::Obj(vec![
                    ("key".to_string(), JsonValue::Str("a".to_string())),
                    ("value".to_string(), JsonValue::Int(1)),
                ])]),
            )]),
        )])),
    }));
    let (processed, failed) = resp.unwrap();
    assert_eq!(processed.len(), 1);
    assert_eq!(failed.len(), 0);
    assert_eq!(processed[0].key, Some("a".to_string()));
}

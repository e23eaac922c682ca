use garage_secrets_controller::error::AppError;
use garage_secrets_controller::garage::{
    allow_path, allow_request_body, allow_response, bucket_after_create_lookup,
    bucket_create_response, bucket_from_value, bucket_path, bucket_search_response,
    create_bucket_body, create_key_body, endpoint_url, ensure_success, key_after_create_lookup,
    key_create_response, key_from_value, key_list_response, key_path, keys_from_listing,
    lookup_key_by_name, select_key_by_name, status_path, status_response, GarageKey, KeyLookup,
};
use garage_secrets_controller::json::{parse_json_value, Json, JsonNumber};

fn text(v: &str) -> Json {
    Json::Str(v.to_string())
}

fn obj(members: Vec<(&str, Json)>) -> Json {
    Json::Object(members.into_iter().map(|(k, v)| (k.to_string(), v)).collect())
}

fn key(id: &str, name: Option<&str>) -> GarageKey {
    GarageKey {
        access_key_id: id.to_string(),
        name: name.map(|n| n.to_string()),
        secret_access_key: None,
    }
}

#[test]
fn helpers_parse_bucket_and_key_shapes() {
    let bucket = obj(vec![("id", text("b1"))]);
    assert_eq!(bucket_from_value(&bucket).expect("bucket").id, "b1");

    let key_json = obj(vec![
        ("accessKeyId", text("k1")),
        ("secretAccessKey", text("s1")),
        ("name", text("n1")),
    ]);
    let key = key_from_value(&key_json).expect("key");
    assert_eq!(key.access_key_id, "k1");
    assert_eq!(key.secret_access_key.as_deref(), Some("s1"));
    assert_eq!(key.name.as_deref(), Some("n1"));

    assert!(bucket_from_value(&Json::Null).is_none());
    assert!(key_from_value(&obj(vec![("name", text("missing-id"))])).is_none());
}

#[test]
fn get_status_success_and_error() {
    let body = "{\"status\":\"ok\"}";
    let status = status_response(200, body).expect("status ok");
    assert_eq!(status.get_member("status"), Some(&text("ok")));

    match status_response(500, "boom").expect_err("status err") {
        AppError::GarageApi { status, message } => {
            assert_eq!(status, 500);
            assert_eq!(message, "boom");
        }
        other => panic!("unexpected error: {other:?}"),
    }
}

#[test]
fn create_bucket_covers_direct_and_fallback_paths() {
    let direct = bucket_create_response(200, "{\"id\":\"bucket-direct\"}")
    .expect("direct bucket")
    .expect("described bucket");
    assert_eq!(direct.id, "bucket-direct");

    let fallback = bucket_create_response(200, "{\"id\":\"bucket-fallback\"}")
    .expect("fallback bucket")
    .expect("described bucket");
    assert_eq!(fallback.id, "bucket-fallback");

    // The creation reply describes no bucket, and the search by alias finds none.
    let created = bucket_create_response(200, "{}").expect("created");
    assert!(created.is_none());
    let found = bucket_search_response(404, "not found");
    let missing = bucket_after_create_lookup("gamma", found);
    assert!(matches!(missing, Err(AppError::Resource(msg)) if msg.contains("lookup by alias failed")));
}

#[test]
fn create_key_lookup_and_allow_bucket_key() {
    let direct = key_create_response(200, "{\"accessKeyId\":\"k-direct\",\"name\":\"n\"}")
    .expect("direct key")
    .expect("described key");
    assert_eq!(direct.access_key_id, "k-direct");

    // The creation reply describes no key, and the key listing is not found.
    let created = key_create_response(200, "{}").expect("created");
    assert!(created.is_none());
    let listed = key_list_response(404, "not found");
    let none = key_after_create_lookup("ghost", lookup_key_by_name(listed, "ghost"));
    assert!(matches!(none, Err(AppError::Resource(msg)) if msg.contains("lookup failed")));

    assert_eq!(allow_path(), "/v2/AllowBucketKey");
    assert_eq!(endpoint_url("http://garage:3903", allow_path()), "http://garage:3903/v2/AllowBucketKey");
    let body = allow_request_body("bucket-x", "key-x", true, false, true);
    assert_eq!(body.get_member("bucketId"), Some(&text("bucket-x")));
    assert_eq!(body.get_member("accessKeyId"), Some(&text("key-x")));
    let perms = body.get_member("permissions").expect("permissions");
    assert_eq!(perms.get_member("read"), Some(&Json::Bool(true)));
    assert_eq!(perms.get_member("write"), Some(&Json::Bool(false)));
    assert_eq!(perms.get_member("owner"), Some(&Json::Bool(true)));
    assert!(allow_response(200, "{}").is_ok());
}

#[test]
fn bucket_reply_falls_back_to_bucket_id_and_first_array_element() {
    let by_bucket_id = obj(vec![("bucket_id", text("b2"))]);
    assert_eq!(bucket_from_value(&by_bucket_id).expect("bucket").id, "b2");
    let listed = Json::Array(vec![obj(vec![("id", text("first"))]), obj(vec![("id", text("second"))])]);
    assert_eq!(bucket_from_value(&listed).expect("bucket").id, "first");
    assert!(bucket_from_value(&Json::Array(vec![])).is_none());
    assert!(bucket_from_value(&obj(vec![("id", Json::Bool(true))])).is_none());
}

#[test]
fn key_reply_field_precedence() {
    let snake = obj(vec![
        ("id", text("plain-id")),
        ("access_key_id", text("snake-id")),
        ("secret_key", text("old-secret")),
        ("key_name", text("kn")),
    ]);
    let k = key_from_value(&snake).expect("key");
    assert_eq!(k.access_key_id, "snake-id");
    assert_eq!(k.secret_access_key.as_deref(), Some("old-secret"));
    assert_eq!(k.name.as_deref(), Some("kn"));

    let only_id = obj(vec![("id", text("plain-id"))]);
    let k = key_from_value(&only_id).expect("key");
    assert_eq!(k.access_key_id, "plain-id");
    assert_eq!(k.name, None);
    assert_eq!(k.secret_access_key, None);
}

#[test]
fn key_listing_shapes() {
    let arr = Json::Array(vec![
        obj(vec![("id", text("a")), ("name", text("app"))]),
        obj(vec![("id", text("b"))]),
    ]);
    let keys = keys_from_listing(&arr).expect("array listing");
    assert_eq!(keys.len(), 2);
    assert_eq!(keys[1].access_key_id, "b");

    let items = obj(vec![("items", Json::Array(vec![obj(vec![("accessKeyId", text("c"))])]))]);
    let keys = keys_from_listing(&items).expect("items listing");
    assert_eq!(keys.len(), 1);
    assert_eq!(keys[0].access_key_id, "c");

    let bad = Json::Array(vec![obj(vec![("name", text("no-id"))])]);
    match keys_from_listing(&bad).expect_err("bad entry") {
        AppError::Resource(m) => assert_eq!(m, "unable to parse entry from /v1/key list"),
        other => panic!("unexpected error: {other:?}"),
    }
    let bad_items = obj(vec![("items", Json::Array(vec![Json::Null]))]);
    match keys_from_listing(&bad_items).expect_err("bad item") {
        AppError::Resource(m) => assert_eq!(m, "unable to parse entry from /v1/key items"),
        other => panic!("unexpected error: {other:?}"),
    }

    let single = obj(vec![("accessKeyId", text("solo"))]);
    assert_eq!(keys_from_listing(&single).expect("single").len(), 1);
    assert!(keys_from_listing(&text("nothing")).expect("none").is_empty());
}

#[test]
fn key_search_by_name_counts_matches() {
    let keys = vec![key("a", Some("app")), key("b", Some("other")), key("c", None)];
    match select_key_by_name(keys, "app") {
        KeyLookup::Single(k) => assert_eq!(k.access_key_id, "a"),
        other => panic!("unexpected lookup: {other:?}"),
    }
    let keys = vec![key("a", Some("app")), key("b", Some("app"))];
    assert!(matches!(select_key_by_name(keys, "app"), KeyLookup::Multiple));
    let keys = vec![key("a", Some("app"))];
    assert!(matches!(select_key_by_name(keys, "ghost"), KeyLookup::NotFound));
    let failed = lookup_key_by_name(Err(AppError::Http("refused".to_string())), "app");
    assert!(matches!(failed, Err(AppError::Http(m)) if m == "refused"));
}

#[test]
fn key_created_but_ambiguous_or_failed() {
    let multiple = key_after_create_lookup("dup", Ok(KeyLookup::Multiple));
    assert!(matches!(multiple, Err(AppError::Resource(m)) if m == "key 'dup' was created but multiple matches were found"));
    let single = key_after_create_lookup("one", Ok(KeyLookup::Single(key("id-1", Some("one"))))).expect("single");
    assert_eq!(single.access_key_id, "id-1");
    let blank = key_create_response(200, "  \n").expect("blank body");
    assert!(blank.is_none());
    let not_json = key_create_response(200, "oops");
    assert!(matches!(not_json, Err(AppError::Json(m)) if m == "expected value at line 1 column 1"));
}

#[test]
fn replies_with_failure_status_are_garage_errors() {
    assert!(ensure_success(204, "").is_ok());
    match ensure_success(403, "forbidden").expect_err("refused") {
        AppError::GarageApi { status, message } => {
            assert_eq!(status, 403);
            assert_eq!(message, "forbidden");
        }
        other => panic!("unexpected error: {other:?}"),
    }
    assert!(matches!(bucket_search_response(500, "down"), Err(AppError::GarageApi { status: 500, .. })));
    assert!(bucket_search_response(404, "").expect("not found").is_none());
    assert!(matches!(key_list_response(502, "bad gateway"), Err(AppError::GarageApi { status: 502, .. })));
    assert!(matches!(allow_response(400, "bad"), Err(AppError::GarageApi { status: 400, .. })));
}

#[test]
fn endpoints_and_request_bodies() {
    assert_eq!(status_path(), "/v1/status");
    assert_eq!(bucket_path(), "/v1/bucket");
    assert_eq!(key_path(), "/v1/key");
    assert_eq!(endpoint_url("http://g", "//v1/key"), "http://g/v1/key");
    assert_eq!(create_bucket_body("alpha"), obj(vec![("global_alias", text("alpha"))]));
    assert_eq!(create_key_body("n"), obj(vec![("name", text("n"))]));
}

#[test]
fn parse_json_value_handles_success_and_error() {
    assert!(parse_json_value(r#"{"ok":true}"#).is_ok());
    assert!(parse_json_value("not-json").is_err());
}

#[test]
fn parsed_values_keep_shape_and_number_kinds() {
    let v = parse_json_value(r#"{"b":[1,-2,2.5,null,true],"a":"x"}"#).expect("json");
    let arr = Json::Array(vec![
        Json::Number(JsonNumber::PosInt(1)),
        Json::Number(JsonNumber::NegInt(-2)),
        Json::Number(JsonNumber::Float("2.5".to_string())),
        Json::Null,
        Json::Bool(true),
    ]);
    assert_eq!(v.get_member("b"), Some(&arr));
    assert_eq!(v.get_member("a"), Some(&text("x")));
    assert_eq!(parse_json_value("nope").unwrap_err(), "expected ident at line 1 column 2");
}

#[test]
fn replies_read_their_own_body() {
    let listed = key_list_response(200, r#"[{"id":"a","name":"app"},{"accessKeyId":"b"}]"#).expect("listing");
    assert_eq!(listed.len(), 2);
    assert_eq!(listed[0].name.as_deref(), Some("app"));
    assert_eq!(listed[1].access_key_id, "b");
    let found = bucket_search_response(200, r#"[{"id":"first"}]"#).expect("search").expect("bucket");
    assert_eq!(found.id, "first");
    assert!(matches!(status_response(200, "{"), Err(AppError::Json(_))));
}

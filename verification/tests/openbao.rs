use garage_secrets_controller::error::AppError;
use garage_secrets_controller::json::Json;
use garage_secrets_controller::openbao::{
    all_path, data_address, ensure_success, list_response, merge_listings, metadata_address,
    read_response, request_headers, write_request_body, write_response,
};

fn text(v: &str) -> Json {
    Json::Str(v.to_string())
}

fn obj(members: Vec<(&str, Json)>) -> Json {
    Json::Object(members.into_iter().map(|(k, v)| (k.to_string(), v)).collect())
}

fn strings(v: &[&str]) -> Vec<String> {
    v.iter().map(|s| s.to_string()).collect()
}

fn header_lines(token: &str, namespace: &str) -> Vec<String> {
    request_headers(token, namespace)
        .into_iter()
        .map(|(k, v)| format!("{}: {}", k, v).to_lowercase())
        .collect()
}

#[test]
fn list_covers_success_not_found_and_error() {
    assert_eq!(metadata_address("http://bao:8200", "secret", "apps"), "http://bao:8200/v1/secret/metadata/apps");
    assert!(header_lines("token-1", "").contains(&"x-vault-token: token-1".to_string()));
    let keys = list_response(200, r#"{"data":{"keys":["a/","b/"]}}"#, Ok(strings(&["a/", "b/"]))).expect("list ok");
    assert_eq!(keys, vec!["a/", "b/"]);

    let empty = list_response(404, "missing", Err("expected value".to_string())).expect("not found handled");
    assert!(empty.is_empty());

    match list_response(500, "boom", Err("expected value".to_string())).expect_err("list err") {
        AppError::OpenBaoApi { status, message } => {
            assert_eq!(status, 500);
            assert_eq!(message, "boom");
        }
        other => panic!("unexpected error: {other:?}"),
    }
}

#[test]
fn read_secret_covers_success_not_found_and_error() {
    assert_eq!(data_address("http://bao:8200", "secret", "users/alice"), "http://bao:8200/v1/secret/data/users/alice");
    let found = read_response(200, r#"{"data":{"data":{"name":"alice"}}}"#, Ok(obj(vec![("name", text("alice"))])))
        .expect("read ok")
        .expect("value");
    assert_eq!(found.get_member("name"), Some(&text("alice")));

    let none = read_response(404, "missing", Err("expected value".to_string())).expect("none");
    assert!(none.is_none());

    match read_response(403, "denied", Err("expected value".to_string())).expect_err("read err") {
        AppError::OpenBaoApi { status, message } => {
            assert_eq!(status, 403);
            assert_eq!(message, "denied");
        }
        other => panic!("unexpected error: {other:?}"),
    }
}

#[test]
fn write_secret_covers_success_and_error() {
    assert_eq!(data_address("http://bao:8200", "secret", "apps/demo"), "http://bao:8200/v1/secret/data/apps/demo");
    assert!(header_lines("token-z", "").contains(&"x-vault-token: token-z".to_string()));
    let payload = obj(vec![("access", text("granted"))]);
    let body = write_request_body(payload);
    assert_eq!(body, obj(vec![("data", obj(vec![("access", text("granted"))]))]));
    assert!(write_response(200, "{}").is_ok());

    let err = write_response(400, "bad request");
    assert!(matches!(err, Err(AppError::OpenBaoApi { status: 400, .. })));
}

#[test]
fn list_sends_namespace_header_when_set() {
    let lines = header_lines("t", "custo");
    assert!(lines.contains(&"x-vault-namespace: custo".to_string()));
    assert!(lines.contains(&"x-vault-token: t".to_string()));
}

#[test]
fn read_sends_namespace_header_when_set() {
    assert!(header_lines("tk", "the_ns").contains(&"x-vault-namespace: the_ns".to_string()));
}

#[test]
fn write_sends_namespace_header_when_set() {
    assert!(header_lines("tok", "ns").contains(&"x-vault-namespace: ns".to_string()));
}

#[test]
fn no_namespace_header_when_empty() {
    let lines = header_lines("t", "");
    assert!(!lines.iter().any(|l| l.contains("x-vault-namespace")));
    assert_eq!(lines, vec!["x-vault-token: t".to_string(), "accept-encoding: identity".to_string()]);
}

#[test]
fn read_of_unparsable_body_is_a_json_error() {
    let err = read_response(200, "nope", Err("expected ident at line 1 column 2".to_string()));
    assert!(matches!(err, Err(AppError::Json(m)) if m == "expected ident at line 1 column 2"));
    let err = list_response(200, "nope", Err("missing field `data`".to_string()));
    assert!(matches!(err, Err(AppError::Json(m)) if m == "missing field `data`"));
    assert!(ensure_success(299, "").is_ok());
    assert!(matches!(ensure_success(300, "moved"), Err(AppError::OpenBaoApi { status: 300, .. })));
}

#[test]
fn multi_namespace_list_multi_merges_entries() {
    let namespaces = strings(&["ns1", "ns2"]);
    let paths: Vec<String> = namespaces
        .iter()
        .map(|ns| all_path(&vec![ns.clone()], "controller/buckets"))
        .collect();
    assert_eq!(paths, vec!["ns1/controller/buckets", "ns2/controller/buckets"]);
    let listings = vec![strings(&["b1", "b2"]), strings(&["b2", "b3"])];
    let keys = merge_listings(&listings);

    assert_eq!(keys.len(), 3);
    let mut sorted = keys.clone();
    sorted.sort();
    assert_eq!(sorted, vec!["b1".to_string(), "b2".to_string(), "b3".to_string()]);
}

#[test]
fn multi_namespace_empty_list_returns_root() {
    assert_eq!(all_path(&vec![], "controller/buckets"), "controller/buckets");
    let keys = merge_listings(&vec![strings(&["x"])]);
    assert_eq!(keys, vec!["x".to_string()]);
}

#[test]
fn merged_listing_keeps_first_occurrence_order() {
    let listings = vec![strings(&["c", "a", "c"]), strings(&[]), strings(&["b", "a"])];
    assert_eq!(merge_listings(&listings), strings(&["c", "a", "b"]));
    assert!(merge_listings(&vec![]).is_empty());
}

#[test]
fn all_path_prefix_named_namespace() {
    let paths = all_path(&vec!["custo-ns".to_string()], "garage/buckets/my-bucket");
    assert_eq!(paths, "custo-ns/garage/buckets/my-bucket");
}

#[test]
fn all_path_empty_namespace_original_path() {
    let paths = all_path(&vec![], "garage/buckets/my-bucket");
    assert_eq!(paths, "garage/buckets/my-bucket");
}

#[test]
fn all_path_nests_several_namespaces() {
    assert_eq!(all_path(&strings(&["outer", "inner"]), "p"), "outer/inner/p");
}

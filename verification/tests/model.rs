use garage_secrets_controller::json::{Json, JsonNumber};
use garage_secrets_controller::model::{
    is_requested, BucketRecord, DesiredState, GrantRecord, KeyRecord,
};

fn text(v: &str) -> Json {
    Json::Str(v.to_string())
}

fn obj(members: Vec<(&str, Json)>) -> Json {
    Json::Object(members.into_iter().map(|(k, v)| (k.to_string(), v)).collect())
}

#[test]
fn requested_like_states_are_reconciled() {
    assert!(is_requested(&None));
    assert!(is_requested(&Some(DesiredState::Requested)));
    assert!(is_requested(&Some(DesiredState::Error)));
    assert!(!is_requested(&Some(DesiredState::Ready)));
}

#[test]
fn parse_requested_state() {
    let raw = obj(vec![("name", text("b")), ("state", text("requested"))]);
    let rec = BucketRecord::decode(&raw).expect("valid bucket json");
    assert_eq!(rec.state, Some(DesiredState::Requested));
}

#[test]
fn parse_grant_flags() {
    let raw = obj(vec![
        ("key", text("k")),
        ("bucket", text("b")),
        ("read", Json::Bool(true)),
        ("write", Json::Bool(false)),
        ("owner", Json::Bool(false)),
        ("state", text("requested")),
    ]);
    let rec = GrantRecord::decode(&raw).expect("valid grant json");
    assert!(rec.read);
    assert!(!rec.write);
}

#[test]
fn grant_flags_accept_boolean_strings_in_any_case() {
    let raw = obj(vec![
        ("key", text("k")),
        ("bucket", text("b")),
        ("read", text("TRUE")),
        ("write", text("False")),
        ("owner", text("true")),
    ]);
    let rec = GrantRecord::decode(&raw).expect("boolean strings");
    assert!(rec.read);
    assert!(!rec.write);
    assert!(rec.owner);
    assert_eq!(rec.state, None);
}

#[test]
fn grant_flag_errors_name_the_problem() {
    let bad_string = obj(vec![
        ("key", text("k")),
        ("bucket", text("b")),
        ("read", text("yes")),
        ("write", Json::Bool(false)),
        ("owner", Json::Bool(false)),
    ]);
    assert_eq!(GrantRecord::decode(&bad_string).unwrap_err(), "invalid boolean string 'yes'");
    let bad_kind = obj(vec![
        ("key", text("k")),
        ("bucket", text("b")),
        ("read", Json::Number(JsonNumber::PosInt(1))),
        ("write", Json::Bool(false)),
        ("owner", Json::Bool(false)),
    ]);
    assert_eq!(GrantRecord::decode(&bad_kind).unwrap_err(), "expected bool or boolean string");
}

#[test]
fn missing_required_field_is_reported() {
    let raw = obj(vec![("state", text("requested"))]);
    assert_eq!(BucketRecord::decode(&raw).unwrap_err(), "missing field `name`");
    let grant = obj(vec![("key", text("k")), ("bucket", text("b")), ("read", Json::Bool(true))]);
    assert_eq!(GrantRecord::decode(&grant).unwrap_err(), "missing field `write`");
}

#[test]
fn wrong_types_are_described() {
    let raw = obj(vec![("state", text("requested")), ("name", Json::Number(JsonNumber::PosInt(42)))]);
    assert_eq!(
        BucketRecord::decode(&raw).unwrap_err(),
        "invalid type: integer `42`, expected a string"
    );
    let negative = obj(vec![("name", Json::Number(JsonNumber::NegInt(-7)))]);
    assert_eq!(
        KeyRecord::decode(&negative).unwrap_err(),
        "invalid type: integer `-7`, expected a string"
    );
    let not_object = text("not-an-object");
    assert_eq!(
        BucketRecord::decode(&not_object).unwrap_err(),
        "invalid type: string \"not-an-object\", expected struct BucketRecord"
    );
    let null_name = obj(vec![("name", Json::Null)]);
    assert_eq!(
        BucketRecord::decode(&null_name).unwrap_err(),
        "invalid type: null, expected a string"
    );
}

#[test]
fn unknown_state_is_reported() {
    let raw = obj(vec![("name", text("b")), ("state", text("Ready"))]);
    assert_eq!(
        BucketRecord::decode(&raw).unwrap_err(),
        "unknown variant `Ready`, expected one of `requested`, `ready`, `error`"
    );
    let as_map = obj(vec![("name", text("b")), ("state", obj(vec![("ready", Json::Null)]))]);
    assert_eq!(BucketRecord::decode(&as_map).unwrap().state, Some(DesiredState::Ready));
    let empty_map = obj(vec![("name", text("b")), ("state", obj(vec![]))]);
    assert_eq!(
        BucketRecord::decode(&empty_map).unwrap_err(),
        "invalid value: map, expected map with a single key"
    );
}

#[test]
fn duplicate_field_is_reported() {
    let raw = obj(vec![("name", text("a")), ("name", text("b"))]);
    assert_eq!(BucketRecord::decode(&raw).unwrap_err(), "duplicate field `name`");
}

#[test]
fn unknown_fields_are_ignored_and_null_options_are_absent() {
    let raw = obj(vec![
        ("extra", Json::Array(vec![])),
        ("name", text("b")),
        ("garage_bucket_id", Json::Null),
    ]);
    let rec = BucketRecord::decode(&raw).expect("decodes");
    assert_eq!(rec.name, "b");
    assert_eq!(rec.garage_bucket_id, None);
}

#[test]
fn records_decode_from_arrays_by_position() {
    let raw = Json::Array(vec![text("b"), text("ready")]);
    let rec = BucketRecord::decode(&raw).expect("array form");
    assert_eq!(rec.name, "b");
    assert_eq!(rec.state, Some(DesiredState::Ready));
    assert_eq!(
        BucketRecord::decode(&Json::Array(vec![])).unwrap_err(),
        "invalid length 0, expected struct BucketRecord with 5 elements"
    );
    let too_long = Json::Array(vec![text("b"), Json::Null, Json::Null, Json::Null, Json::Null, Json::Null]);
    assert_eq!(
        BucketRecord::decode(&too_long).unwrap_err(),
        "invalid length 6, expected fewer elements in array"
    );
}

#[test]
fn timestamps_are_checked() {
    let good = obj(vec![("name", text("b")), ("updated_at", text("2026-07-14T12:34:56Z"))]);
    assert_eq!(
        BucketRecord::decode(&good).unwrap().updated_at.as_deref(),
        Some("2026-07-14T12:34:56Z")
    );
    let bad = obj(vec![("name", text("b")), ("updated_at", text("yesterday"))]);
    assert_eq!(BucketRecord::decode(&bad).unwrap_err(), "input contains invalid characters");
    let wrong = obj(vec![("name", text("b")), ("updated_at", Json::Bool(true))]);
    assert_eq!(
        BucketRecord::decode(&wrong).unwrap_err(),
        "invalid type: boolean `true`, expected an RFC 3339 formatted date and time string"
    );
}

#[test]
fn encoded_records_read_back() {
    let rec = KeyRecord {
        name: "app".to_string(),
        access_key_id: Some("ak".to_string()),
        secret_access_key: None,
        state: Some(DesiredState::Ready),
        error_message: None,
        updated_at: Some("2026-07-14T12:34:56Z".to_string()),
    };
    let json = rec.encode();
    assert_eq!(json.get_member("state"), Some(&text("ready")));
    assert_eq!(json.get_member("secret_access_key"), Some(&Json::Null));
    let back = KeyRecord::decode(&json).expect("reads back");
    assert_eq!(back.name, "app");
    assert_eq!(back.access_key_id.as_deref(), Some("ak"));
    assert_eq!(back.state, Some(DesiredState::Ready));
    assert_eq!(back.updated_at.as_deref(), Some("2026-07-14T12:34:56Z"));
}

#[test]
fn current_time_is_an_rfc3339_utc_stamp() {
    let now = garage_secrets_controller::model::now_rfc3339().expect("clock after the epoch");
    assert!(now.ends_with('Z'));
    assert_eq!(now.as_bytes()[4], b'-');
    assert_eq!(now.as_bytes()[10], b'T');
}

#[test]
fn clock_readings_are_written_as_rfc3339() {
    assert_eq!(garage_secrets_controller::model::rfc3339_of_unix(Some((0, 0))).as_deref(), Some("1970-01-01T00:00:00Z"));
    assert_eq!(garage_secrets_controller::model::rfc3339_of_unix(Some((1, 500_000_000))).as_deref(), Some("1970-01-01T00:00:01.500Z"));
    assert_eq!(garage_secrets_controller::model::rfc3339_of_unix(Some((1_784_032_496, 1_000))).as_deref(), Some("2026-07-14T12:34:56.000001Z"));
    assert_eq!(garage_secrets_controller::model::rfc3339_of_unix(None), None);
    assert_eq!(garage_secrets_controller::model::rfc3339_of_unix(Some((u64::MAX, 0))), None);
    assert_eq!(garage_secrets_controller::model::rfc3339_of_unix(Some((9_223_372_036_854_775_807, 0))), None);
}

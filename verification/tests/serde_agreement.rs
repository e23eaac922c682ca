//! The record decoding's error texts, held against what serde itself reports for the same
//! field types and the same values.
use garage_secrets_controller::json::{parse_json_value, Json};
use garage_secrets_controller::model::{BucketRecord, GrantRecord, KeyRecord};
use serde::de::Error as _;

fn lib_value(text: &str) -> Json {
    parse_json_value(text).expect("test value parses")
}

fn serde_value(text: &str) -> serde_json::Value {
    serde_json::from_str(text).expect("test value parses")
}

fn obj(members: Vec<(&str, Json)>) -> Json {
    Json::Object(members.into_iter().map(|(k, v)| (k.to_string(), v)).collect())
}

const VALUES: [&str; 10] = ["42", "-7", "2.5", "1.0", "true", "null", "[1]", "{\"a\":1}", "\"plain\"", "\"tab\\tq\\\"\\u0001\""];

#[test]
fn text_field_errors_match_serde() {
    for text in VALUES {
        let want = serde_json::from_value::<String>(serde_value(text));
        let got = BucketRecord::decode(&obj(vec![("name", lib_value(text))]));
        match want {
            Ok(_) => assert!(got.is_ok(), "{text}"),
            Err(e) => assert_eq!(got.err(), Some(e.to_string()), "{text}"),
        }
    }
}

#[test]
fn optional_text_field_errors_match_serde() {
    for text in VALUES {
        let want = serde_json::from_value::<Option<String>>(serde_value(text));
        let got = KeyRecord::decode(&obj(vec![("name", lib_value("\"k\"")), ("access_key_id", lib_value(text))]));
        match want {
            Ok(v) => assert_eq!(got.expect("decodes").access_key_id, v, "{text}"),
            Err(e) => assert_eq!(got.err(), Some(e.to_string()), "{text}"),
        }
    }
}

#[test]
fn timestamp_field_errors_match_serde() {
    let texts = ["5", "true", "\"garbage\"", "\"2026-07-14T12:34:56Z\"", "\"2026-07-14T12:34:56+02:00\"", "\"2026-13-01T00:00:00Z\""];
    for text in texts {
        let want = serde_json::from_value::<chrono::DateTime<chrono::Utc>>(serde_value(text));
        let got = BucketRecord::decode(&obj(vec![("name", lib_value("\"b\"")), ("updated_at", lib_value(text))]));
        match want {
            Ok(_) => assert!(got.is_ok(), "{text}"),
            Err(e) => assert_eq!(got.err(), Some(e.to_string()), "{text}"),
        }
    }
}

#[test]
fn structural_errors_match_serde() {
    let missing = serde_json::Error::missing_field("name").to_string();
    assert_eq!(BucketRecord::decode(&obj(vec![])).err(), Some(missing));
    let missing_bucket = serde_json::Error::missing_field("bucket").to_string();
    let grant = obj(vec![
        ("key", lib_value("\"k\"")),
        ("read", lib_value("true")),
        ("write", lib_value("true")),
        ("owner", lib_value("true")),
    ]);
    assert_eq!(GrantRecord::decode(&grant).err(), Some(missing_bucket));

    let duplicate = serde_json::Error::duplicate_field("name").to_string();
    let twice = obj(vec![("name", lib_value("\"a\"")), ("name", lib_value("\"b\""))]);
    assert_eq!(BucketRecord::decode(&twice).err(), Some(duplicate));

    let unknown = serde_json::Error::unknown_variant("bogus", &["requested", "ready", "error"]).to_string();
    let bad_state = obj(vec![("name", lib_value("\"a\"")), ("state", lib_value("\"bogus\""))]);
    assert_eq!(BucketRecord::decode(&bad_state).err(), Some(unknown));

    let not_struct = serde_json::Error::invalid_type(serde::de::Unexpected::Str("x"), &"struct KeyRecord").to_string();
    assert_eq!(KeyRecord::decode(&lib_value("\"x\"")).err(), Some(not_struct));
}

use std::collections::HashMap;

use garage_secrets_controller::error::AppError;
use garage_secrets_controller::garage::{Bucket, GarageKey, KeyLookup};
use garage_secrets_controller::json::{Json, JsonNumber};
use garage_secrets_controller::model::{is_requested, DesiredState};
use garage_secrets_controller::reconciler::{Action, Event, Reconciler, Section};

const NOW: &str = "2026-01-02T03:04:05Z";

fn text(v: &str) -> Json {
    Json::Str(v.to_string())
}

fn obj(members: Vec<(&str, Json)>) -> Json {
    Json::Object(members.into_iter().map(|(k, v)| (k.to_string(), v)).collect())
}

fn grant_flags(read: bool, write: bool, owner: bool, state: &str) -> Json {
    obj(vec![
        ("read", Json::Bool(read)),
        ("write", Json::Bool(write)),
        ("owner", Json::Bool(owner)),
        ("state", text(state)),
    ])
}

fn member<'a>(j: &'a Json, key: &str) -> &'a Json {
    j.get_member(key).unwrap_or_else(|| panic!("member {key} missing"))
}

fn message(j: &Json) -> String {
    match member(j, "error_message") {
        Json::Str(s) => s.clone(),
        other => panic!("message: {other:?}"),
    }
}

/// A secret store kept in memory, failing where told to.
#[derive(Default)]
struct MockKeyStore {
    list_map: HashMap<String, Vec<String>>,
    secrets: HashMap<String, Json>,
    writes: Vec<(String, Json)>,
    attempted_writes: Vec<(String, Json)>,
    list_errors: HashMap<String, String>,
    read_errors: HashMap<String, String>,
    write_errors: HashMap<String, String>,
}

impl MockKeyStore {
    fn list(&self, path: &str) -> Result<Vec<String>, AppError> {
        if let Some(msg) = self.list_errors.get(path) {
            return Err(AppError::Resource(msg.clone()));
        }
        Ok(self.list_map.get(path).cloned().unwrap_or_default())
    }

    fn read(&self, path: &str) -> Result<Option<Json>, AppError> {
        if let Some(msg) = self.read_errors.get(path) {
            return Err(AppError::Resource(msg.clone()));
        }
        Ok(self.secrets.get(path).map(|j| j.duplicate()))
    }

    fn write(&mut self, path: &str, data: Json) -> Result<(), AppError> {
        self.attempted_writes.push((path.to_string(), data.duplicate()));
        if let Some(msg) = self.write_errors.get(path) {
            return Err(AppError::Resource(msg.clone()));
        }
        self.writes.push((path.to_string(), data.duplicate()));
        self.secrets.insert(path.to_string(), data);
        Ok(())
    }

    fn secret(&self, path: &str) -> &Json {
        self.secrets.get(path).unwrap_or_else(|| panic!("secret {path} missing"))
    }
}

enum MockKey {
    Single(GarageKey),
    Multiple,
}

/// Garage kept in memory, failing where told to.
#[derive(Default)]
struct MockGarage {
    buckets: HashMap<String, String>,
    keys: HashMap<String, MockKey>,
    created_buckets: Vec<String>,
    created_keys: Vec<String>,
    allowed: Vec<(String, String, bool, bool, bool)>,
    fail_status: Option<String>,
    fail_create_bucket: Option<String>,
    fail_lookup_key: HashMap<String, String>,
    fail_create_key: Option<String>,
    fail_allow: Option<String>,
}

fn copy_key(k: &GarageKey) -> GarageKey {
    GarageKey {
        access_key_id: k.access_key_id.clone(),
        name: k.name.clone(),
        secret_access_key: k.secret_access_key.clone(),
    }
}

impl MockGarage {
    fn status(&self) -> Result<(), AppError> {
        match &self.fail_status {
            Some(msg) => Err(AppError::Resource(msg.clone())),
            None => Ok(()),
        }
    }

    fn bucket(&self, name: &str) -> Result<Option<Bucket>, AppError> {
        Ok(self.buckets.get(name).map(|id| Bucket { id: id.clone() }))
    }

    fn create_bucket(&mut self, name: &str) -> Result<Bucket, AppError> {
        if let Some(msg) = &self.fail_create_bucket {
            return Err(AppError::Resource(msg.clone()));
        }
        self.created_buckets.push(name.to_string());
        let id = format!("bucket-{name}");
        self.buckets.insert(name.to_string(), id.clone());
        Ok(Bucket { id })
    }

    fn lookup_key(&self, name: &str) -> Result<KeyLookup, AppError> {
        if let Some(msg) = self.fail_lookup_key.get(name) {
            return Err(AppError::Resource(msg.clone()));
        }
        Ok(match self.keys.get(name) {
            Some(MockKey::Single(k)) => KeyLookup::Single(copy_key(k)),
            Some(MockKey::Multiple) => KeyLookup::Multiple,
            None => KeyLookup::NotFound,
        })
    }

    fn create_key(&mut self, name: &str) -> Result<GarageKey, AppError> {
        if let Some(msg) = &self.fail_create_key {
            return Err(AppError::Resource(msg.clone()));
        }
        self.created_keys.push(name.to_string());
        let key = GarageKey {
            access_key_id: format!("ak-{name}"),
            name: Some(name.to_string()),
            secret_access_key: Some(format!("sk-{name}")),
        };
        self.keys.insert(name.to_string(), MockKey::Single(copy_key(&key)));
        Ok(key)
    }

    fn allow(&mut self, bucket_id: String, access_key_id: String, read: bool, write: bool, owner: bool) -> Result<(), AppError> {
        if let Some(msg) = &self.fail_allow {
            return Err(AppError::Resource(msg.clone()));
        }
        self.allowed.push((bucket_id, access_key_id, read, write, owner));
        Ok(())
    }
}

fn reconciler() -> Reconciler {
    Reconciler { bao_prefix: "controller".to_string(), namespaces: Vec::new(), dry_run: false }
}

fn dry_reconciler() -> Reconciler {
    Reconciler { dry_run: true, ..reconciler() }
}

/// Runs one pass against the mocks, answering each request the pass makes.
fn reconcile_once(r: &Reconciler, store: &mut MockKeyStore, garage: &mut MockGarage) -> Result<(), AppError> {
    let (mut pass, mut action) = r.start();
    for _ in 0..10_000 {
        let event = match action {
            Action::Finish { result } => {
                assert!(pass.is_done());
                return result;
            }
            Action::GetStatus => Event::Status(garage.status()),
            Action::List { path } => Event::Listed(store.list(&path)),
            Action::ReadSecret { path } => Event::SecretRead(store.read(&path)),
            Action::WriteSecret { path, data } => Event::SecretWritten(store.write(&path, data)),
            Action::LookupBucket { name } => Event::BucketFound(garage.bucket(&name)),
            Action::CreateBucket { name } => Event::BucketCreated(garage.create_bucket(&name)),
            Action::LookupKey { name } => Event::KeyFound(garage.lookup_key(&name)),
            Action::CreateKey { name } => Event::KeyCreated(garage.create_key(&name)),
            Action::AllowBucketKey { bucket_id, access_key_id, read, write, owner } => {
                Event::Allowed(garage.allow(bucket_id, access_key_id, read, write, owner))
            }
        };
        let (p, a) = r.step(pass, event, NOW);
        pass = p;
        action = a;
    }
    panic!("the pass did not end");
}

fn list(store: &mut MockKeyStore, path: &str, entries: &[&str]) {
    store.list_map.insert(path.to_string(), entries.iter().map(|e| e.to_string()).collect());
}

fn secret(store: &mut MockKeyStore, path: &str, value: Json) {
    store.secrets.insert(path.to_string(), value);
}

fn single_key(id: &str, name: &str) -> MockKey {
    MockKey::Single(GarageKey { access_key_id: id.to_string(), name: Some(name.to_string()), secret_access_key: None })
}

#[test]
fn reconcile_once_creates_missing_bucket_key_and_grant() {
    let mut bao = MockKeyStore::default();
    list(&mut bao, "controller/buckets", &["demo"]);
    list(&mut bao, "controller/keys", &["app"]);
    list(&mut bao, "controller/grants", &["app--demo"]);
    secret(&mut bao, "controller/buckets/demo", obj(vec![("state", text("requested"))]));
    secret(&mut bao, "controller/keys/app", obj(vec![("state", text("requested"))]));
    secret(&mut bao, "controller/grants/app--demo", grant_flags(true, false, false, "requested"));
    let mut garage = MockGarage::default();

    reconcile_once(&reconciler(), &mut bao, &mut garage).expect("reconcile");

    assert_eq!(garage.created_buckets, vec!["demo"]);
    assert_eq!(garage.created_keys, vec!["app"]);
    assert_eq!(garage.allowed.len(), 1);
    assert_eq!(bao.writes.len(), 3);
    assert_eq!(member(bao.secret("controller/buckets/demo"), "state"), &text("ready"));
    assert_eq!(member(bao.secret("controller/keys/app"), "state"), &text("ready"));
    assert_eq!(member(bao.secret("controller/grants/app--demo"), "state"), &text("ready"));
}

#[test]
fn existing_key_is_updated_not_duplicated() {
    let mut bao = MockKeyStore::default();
    list(&mut bao, "controller/keys", &["app"]);
    secret(&mut bao, "controller/keys/app", obj(vec![("name", text("app")), ("state", text("requested"))]));
    let mut garage = MockGarage::default();
    garage.keys.insert("app".to_string(), single_key("existing-ak", "app"));

    reconcile_once(&reconciler(), &mut bao, &mut garage).expect("keys");

    assert!(garage.created_keys.is_empty());
    assert_eq!(bao.writes.len(), 1);
    let (path, updated) = &bao.writes[0];
    assert_eq!(path, "controller/keys/app");
    assert_eq!(member(updated, "state"), &text("ready"));
    assert_eq!(member(updated, "access_key_id"), &text("existing-ak"));
}

#[test]
fn reconcile_grant_marks_error_when_bucket_missing() {
    let mut bao = MockKeyStore::default();
    list(&mut bao, "controller/grants", &["app--missing"]);
    secret(&mut bao, "controller/grants/app--missing", grant_flags(true, false, false, "requested"));

    reconcile_once(&reconciler(), &mut bao, &mut MockGarage::default()).expect("grants pass with error marking");

    let err = bao.secret("controller/grants/app--missing");
    assert_eq!(member(err, "state"), &text("error"));
    assert!(message(err).contains("bucket 'missing' not found"));
}

#[test]
fn dry_run_does_not_write_or_mutate_remote() {
    let mut bao = MockKeyStore::default();
    list(&mut bao, "controller/buckets", &["demo"]);
    secret(&mut bao, "controller/buckets/demo", obj(vec![("state", text("requested"))]));
    let mut garage = MockGarage::default();

    reconcile_once(&dry_reconciler(), &mut bao, &mut garage).expect("dry-run");

    assert!(bao.writes.is_empty());
    assert!(garage.created_buckets.is_empty());
}

#[test]
fn key_record_in_ready_state_is_ignored() {
    let mut bao = MockKeyStore::default();
    list(&mut bao, "controller/keys", &["app"]);
    secret(&mut bao, "controller/keys/app", obj(vec![("name", text("app")), ("state", text("ready"))]));
    let mut garage = MockGarage::default();

    reconcile_once(&reconciler(), &mut bao, &mut garage).expect("keys");

    assert!(garage.created_keys.is_empty());
    assert!(bao.writes.is_empty());
}

#[test]
fn bucket_record_in_ready_state_is_ignored() {
    let mut bao = MockKeyStore::default();
    list(&mut bao, "controller/buckets", &["demo"]);
    secret(&mut bao, "controller/buckets/demo", obj(vec![("name", text("demo")), ("state", text("ready"))]));
    let mut garage = MockGarage::default();

    reconcile_once(&reconciler(), &mut bao, &mut garage).expect("buckets");

    assert!(garage.created_buckets.is_empty());
    assert!(bao.writes.is_empty());
}

#[test]
fn missing_key_secret_is_ignored() {
    let mut bao = MockKeyStore::default();
    list(&mut bao, "controller/keys", &["missing"]);

    reconcile_once(&reconciler(), &mut bao, &mut MockGarage::default()).expect("keys");

    assert!(bao.writes.is_empty());
}

#[test]
fn dry_run_key_does_not_create_or_write() {
    let mut bao = MockKeyStore::default();
    list(&mut bao, "controller/keys", &["app"]);
    secret(&mut bao, "controller/keys/app", obj(vec![("state", text("requested"))]));
    let mut garage = MockGarage::default();

    reconcile_once(&dry_reconciler(), &mut bao, &mut garage).expect("dry-run key");

    assert!(garage.created_keys.is_empty());
    assert!(bao.writes.is_empty());
}

#[test]
fn multiple_matching_keys_are_skipped() {
    let mut bao = MockKeyStore::default();
    list(&mut bao, "controller/keys", &["app"]);
    secret(&mut bao, "controller/keys/app", obj(vec![("name", text("app")), ("state", text("requested"))]));
    let mut garage = MockGarage::default();
    garage.keys.insert("app".to_string(), MockKey::Multiple);

    reconcile_once(&reconciler(), &mut bao, &mut garage).expect("keys");

    assert!(garage.created_keys.is_empty());
    assert!(bao.writes.is_empty());
}

#[test]
fn invalid_bucket_record_is_marked_error() {
    let mut bao = MockKeyStore::default();
    list(&mut bao, "controller/buckets", &["bad"]);
    secret(
        &mut bao,
        "controller/buckets/bad",
        obj(vec![("state", text("requested")), ("name", Json::Number(JsonNumber::PosInt(42)))]),
    );

    reconcile_once(&reconciler(), &mut bao, &mut MockGarage::default()).expect("buckets");

    let err = bao.secret("controller/buckets/bad");
    assert_eq!(member(err, "state"), &text("error"));
    assert!(message(err).contains("decode bucket record"));
}

#[test]
fn non_object_existing_error_payload_is_replaced_during_mark_error() {
    let mut bao = MockKeyStore::default();
    list(&mut bao, "controller/buckets", &["boom"]);
    secret(&mut bao, "controller/buckets/boom", text("not-an-object"));
    let mut garage = MockGarage::default();
    garage.fail_create_bucket = Some("create failed".to_string());

    reconcile_once(&reconciler(), &mut bao, &mut garage).expect("buckets");

    let err = bao.secret("controller/buckets/boom");
    assert_eq!(member(err, "state"), &text("error"));
    assert!(message(err).contains("decode bucket record"));
}

#[test]
fn reconcile_once_fails_fast_when_garage_status_fails() {
    let mut bao = MockKeyStore::default();
    let mut garage = MockGarage::default();
    garage.fail_status = Some("status down".to_string());

    let err = reconcile_once(&reconciler(), &mut bao, &mut garage).expect_err("status failure should bubble up");
    assert!(err.to_string().contains("status down"));
    assert!(bao.writes.is_empty());
}

#[test]
fn grant_allow_failure_is_marked_error() {
    let mut bao = MockKeyStore::default();
    list(&mut bao, "controller/grants", &["app--demo"]);
    secret(&mut bao, "controller/grants/app--demo", grant_flags(true, true, false, "requested"));
    let mut garage = MockGarage::default();
    garage.buckets.insert("demo".to_string(), "bucket-1".to_string());
    garage.keys.insert("app".to_string(), single_key("ak-1", "app"));
    garage.fail_allow = Some("allow failed".to_string());

    reconcile_once(&reconciler(), &mut bao, &mut garage).expect("grants");

    let err = bao.secret("controller/grants/app--demo");
    assert_eq!(member(err, "state"), &text("error"));
    assert!(message(err).contains("allow failed"));
}

#[test]
fn provider_list_failure_bubbles_up() {
    let mut bao = MockKeyStore::default();
    bao.list_errors.insert("controller/buckets".to_string(), "list failed".to_string());

    let err = reconcile_once(&reconciler(), &mut bao, &mut MockGarage::default())
        .expect_err("list error should bubble up");

    assert!(err.to_string().contains("list failed"));
}

#[test]
fn missing_secret_is_ignored() {
    let mut bao = MockKeyStore::default();
    list(&mut bao, "controller/buckets", &["missing"]);

    reconcile_once(&reconciler(), &mut bao, &mut MockGarage::default()).expect("missing record ignored");

    assert!(bao.writes.is_empty());
}

#[test]
fn missing_grant_secret_is_ignored() {
    let mut bao = MockKeyStore::default();
    list(&mut bao, "controller/grants", &["app--demo"]);

    reconcile_once(&reconciler(), &mut bao, &mut MockGarage::default()).expect("grants");

    assert!(bao.writes.is_empty());
}

#[test]
fn existing_bucket_is_marked_ready_without_creating() {
    let mut bao = MockKeyStore::default();
    list(&mut bao, "controller/buckets", &["demo"]);
    secret(&mut bao, "controller/buckets/demo", obj(vec![("name", text("demo")), ("state", text("requested"))]));
    let mut garage = MockGarage::default();
    garage.buckets.insert("demo".to_string(), "bucket-existing".to_string());

    reconcile_once(&reconciler(), &mut bao, &mut garage).expect("bucket ready");

    assert!(garage.created_buckets.is_empty());
    assert_eq!(member(bao.secret("controller/buckets/demo"), "garage_bucket_id"), &text("bucket-existing"));
}

#[test]
fn bucket_create_failure_is_marked_error() {
    let mut bao = MockKeyStore::default();
    list(&mut bao, "controller/buckets", &["demo"]);
    secret(&mut bao, "controller/buckets/demo", obj(vec![("state", text("requested"))]));
    let mut garage = MockGarage::default();
    garage.fail_create_bucket = Some("create failed".to_string());

    reconcile_once(&reconciler(), &mut bao, &mut garage).expect("bucket error marked");

    let rec = bao.secret("controller/buckets/demo");
    assert_eq!(member(rec, "state"), &text("error"));
    assert!(message(rec).contains("create bucket 'demo'"));
}

#[test]
fn mark_error_write_failure_bubbles_up() {
    let mut bao = MockKeyStore::default();
    list(&mut bao, "controller/buckets", &["bad"]);
    secret(
        &mut bao,
        "controller/buckets/bad",
        obj(vec![("state", text("requested")), ("name", Json::Number(JsonNumber::PosInt(42)))]),
    );
    bao.write_errors.insert("controller/buckets/bad".to_string(), "write failed".to_string());

    let err = reconcile_once(&reconciler(), &mut bao, &mut MockGarage::default())
        .expect_err("mark error write failure should bubble up");

    assert!(err.to_string().contains("write failed"));
}

#[test]
fn direct_secret_write_failure_is_wrapped_for_keys() {
    let mut bao = MockKeyStore::default();
    list(&mut bao, "controller/keys", &["app"]);
    secret(&mut bao, "controller/keys/app", obj(vec![("state", text("requested"))]));
    bao.write_errors.insert("controller/keys/app".to_string(), "write failed".to_string());

    let err = reconcile_once(&reconciler(), &mut bao, &mut MockGarage::default())
        .expect_err("key write error should bubble up");

    // The failed status write is reported on the record, whose own write fails in turn.
    assert!(err.to_string().contains("write failed"));
    let (path, marked) = bao.attempted_writes.last().expect("error mark attempted");
    assert_eq!(path, "controller/keys/app");
    assert!(message(marked).contains("write key status"));
}

#[test]
fn read_key_failure_is_marked_error() {
    let mut bao = MockKeyStore::default();
    list(&mut bao, "controller/keys", &["app"]);
    bao.read_errors.insert("controller/keys/app".to_string(), "read failed".to_string());

    let err = reconcile_once(&reconciler(), &mut bao, &mut MockGarage::default())
        .expect_err("read failure should bubble up when error marking cannot read");

    assert!(err.to_string().contains("read failed"));
}

#[test]
fn invalid_key_record_is_marked_error() {
    let mut bao = MockKeyStore::default();
    list(&mut bao, "controller/keys", &["bad"]);
    secret(
        &mut bao,
        "controller/keys/bad",
        obj(vec![("name", Json::Number(JsonNumber::PosInt(42))), ("state", text("requested"))]),
    );

    reconcile_once(&reconciler(), &mut bao, &mut MockGarage::default()).expect("invalid key marked");

    assert!(message(bao.secret("controller/keys/bad")).contains("decode key record"));
}

#[test]
fn key_lookup_and_create_failures_are_marked_error() {
    let mut bao = MockKeyStore::default();
    list(&mut bao, "controller/keys", &["lookup", "create"]);
    secret(&mut bao, "controller/keys/lookup", obj(vec![("name", text("lookup")), ("state", text("requested"))]));
    secret(&mut bao, "controller/keys/create", obj(vec![("name", text("create")), ("state", text("requested"))]));
    let mut garage = MockGarage::default();
    garage.fail_lookup_key.insert("lookup".to_string(), "lookup failed".to_string());
    garage.fail_create_key = Some("create failed".to_string());

    reconcile_once(&reconciler(), &mut bao, &mut garage).expect("key errors marked");

    assert!(message(bao.secret("controller/keys/lookup")).contains("lookup key 'lookup'"));
    assert!(message(bao.secret("controller/keys/create")).contains("create key 'create'"));
}

#[test]
fn grant_ready_state_is_ignored() {
    let mut bao = MockKeyStore::default();
    list(&mut bao, "controller/grants", &["app--demo"]);
    secret(
        &mut bao,
        "controller/grants/app--demo",
        obj(vec![
            ("key", text("app")),
            ("bucket", text("demo")),
            ("read", Json::Bool(true)),
            ("write", Json::Bool(false)),
            ("owner", Json::Bool(false)),
            ("state", text("ready")),
        ]),
    );
    let mut garage = MockGarage::default();

    reconcile_once(&reconciler(), &mut bao, &mut garage).expect("ready grant ignored");

    assert!(garage.allowed.is_empty());
    assert!(bao.writes.is_empty());
}

#[test]
fn grant_key_missing_and_multiple_are_marked_error() {
    let mut bao = MockKeyStore::default();
    list(&mut bao, "controller/grants", &["missing--demo", "multi--demo"]);
    secret(&mut bao, "controller/grants/missing--demo", grant_flags(true, false, false, "requested"));
    secret(&mut bao, "controller/grants/multi--demo", grant_flags(true, false, false, "requested"));
    let mut garage = MockGarage::default();
    garage.buckets.insert("demo".to_string(), "bucket-1".to_string());
    garage.keys.insert("multi".to_string(), MockKey::Multiple);

    reconcile_once(&reconciler(), &mut bao, &mut garage).expect("grant errors marked");

    assert!(message(bao.secret("controller/grants/missing--demo")).contains("key 'missing' not found"));
    assert!(message(bao.secret("controller/grants/multi--demo")).contains("multiple keys found"));
}

#[test]
fn dry_run_grant_does_not_mutate_remote_or_write() {
    let mut bao = MockKeyStore::default();
    list(&mut bao, "controller/grants", &["app--demo"]);
    secret(&mut bao, "controller/grants/app--demo", grant_flags(true, true, true, "requested"));
    let mut garage = MockGarage::default();
    garage.buckets.insert("demo".to_string(), "bucket-1".to_string());
    garage.keys.insert("app".to_string(), single_key("ak-1", "app"));

    reconcile_once(&dry_reconciler(), &mut bao, &mut garage).expect("dry-run grant");

    assert!(garage.allowed.is_empty());
    assert!(bao.writes.is_empty());
}

#[test]
fn malformed_grant_name_is_marked_error() {
    let mut bao = MockKeyStore::default();
    list(&mut bao, "controller/grants", &["malformed"]);
    secret(&mut bao, "controller/grants/malformed", grant_flags(true, false, false, "requested"));

    reconcile_once(&reconciler(), &mut bao, &mut MockGarage::default()).expect("malformed grant marked");

    assert!(message(bao.secret("controller/grants/malformed")).contains("decode grant record"));
}

#[test]
fn non_object_grant_payload_with_inferable_name_is_marked_error() {
    let mut bao = MockKeyStore::default();
    list(&mut bao, "controller/grants", &["app--demo"]);
    secret(&mut bao, "controller/grants/app--demo", text("not-an-object"));

    reconcile_once(&reconciler(), &mut bao, &mut MockGarage::default()).expect("non-object grant marked");

    assert_eq!(member(bao.secret("controller/grants/app--demo"), "state"), &text("error"));
}

#[test]
fn dry_run_error_marking_does_not_write() {
    let mut bao = MockKeyStore::default();
    list(&mut bao, "controller/buckets", &["bad"]);
    secret(
        &mut bao,
        "controller/buckets/bad",
        obj(vec![("name", Json::Number(JsonNumber::PosInt(42))), ("state", text("requested"))]),
    );

    reconcile_once(&dry_reconciler(), &mut bao, &mut MockGarage::default()).expect("dry-run error marking");

    assert!(bao.writes.is_empty());
}

#[test]
fn empty_path_final_segments_report_inference_errors() {
    let mut bao = MockKeyStore::default();
    // An entry that is only a slash leaves the record path without a final segment.
    list(&mut bao, "controller/buckets", &["/"]);
    list(&mut bao, "controller/keys", &["/"]);
    list(&mut bao, "controller/grants", &["/"]);
    secret(&mut bao, "controller/buckets/", obj(vec![("state", text("requested"))]));
    secret(&mut bao, "controller/keys/", obj(vec![("state", text("requested"))]));
    secret(&mut bao, "controller/grants/", grant_flags(true, false, false, "requested"));

    reconcile_once(&reconciler(), &mut bao, &mut MockGarage::default()).expect("errors marked");

    let bucket_err = message(bao.secret("controller/buckets/"));
    let key_err = message(bao.secret("controller/keys/"));
    let grant_err = message(bao.secret("controller/grants/"));
    assert!(bucket_err.contains("cannot infer bucket name"));
    assert!(key_err.contains("cannot infer key name"));
    assert!(grant_err.contains("cannot infer grant fields"));
}

#[test]
fn requested_like_states_drive_reconciliation() {
    assert!(is_requested(&Some(DesiredState::Error)));
    let mut bao = MockKeyStore::default();
    list(&mut bao, "controller/buckets", &["again"]);
    secret(&mut bao, "controller/buckets/again", obj(vec![("state", text("error")), ("error_message", text("old"))]));
    let mut garage = MockGarage::default();

    reconcile_once(&reconciler(), &mut bao, &mut garage).expect("retried");

    let rec = bao.secret("controller/buckets/again");
    assert_eq!(garage.created_buckets, vec!["again"]);
    assert_eq!(member(rec, "state"), &text("ready"));
    assert_eq!(member(rec, "name"), &text("again"));
    assert_eq!(member(rec, "garage_bucket_id"), &text("bucket-again"));
    assert_eq!(member(rec, "error_message"), &Json::Null);
    assert_eq!(member(rec, "updated_at"), &text(NOW));
}

#[test]
fn error_mark_keeps_other_members_and_stamps_time() {
    let mut bao = MockKeyStore::default();
    list(&mut bao, "controller/grants", &["app--gone"]);
    secret(
        &mut bao,
        "controller/grants/app--gone",
        obj(vec![
            ("read", Json::Bool(true)),
            ("write", Json::Bool(false)),
            ("owner", Json::Bool(false)),
            ("note", text("keep me")),
        ]),
    );

    reconcile_once(&reconciler(), &mut bao, &mut MockGarage::default()).expect("marked");

    let rec = bao.secret("controller/grants/app--gone");
    assert_eq!(member(rec, "note"), &text("keep me"));
    assert_eq!(member(rec, "state"), &text("error"));
    assert_eq!(member(rec, "updated_at"), &text(NOW));
    assert_eq!(message(rec), "resource error: bucket 'gone' not found");
}

#[test]
fn entries_are_trimmed_and_paths_follow_prefix_and_namespaces() {
    let r = Reconciler { bao_prefix: "garage".to_string(), namespaces: vec!["team".to_string()], dry_run: false };
    assert_eq!(r.list_path_of(Section::Keys), "team/garage/keys");
    assert_eq!(r.record_path_of(Section::Buckets, "photos//"), "team/garage/buckets/photos");

    let mut bao = MockKeyStore::default();
    list(&mut bao, "team/garage/buckets", &["photos/"]);
    secret(&mut bao, "team/garage/buckets/photos", obj(vec![]));
    let mut garage = MockGarage::default();
    reconcile_once(&r, &mut bao, &mut garage).expect("namespaced pass");
    assert_eq!(garage.created_buckets, vec!["photos"]);
    assert_eq!(member(bao.secret("team/garage/buckets/photos"), "state"), &text("ready"));
}

#[test]
fn key_created_in_pass_records_its_secret() {
    let mut bao = MockKeyStore::default();
    list(&mut bao, "controller/keys", &["svc"]);
    secret(&mut bao, "controller/keys/svc", obj(vec![]));
    let mut garage = MockGarage::default();

    reconcile_once(&reconciler(), &mut bao, &mut garage).expect("key created");

    let rec = bao.secret("controller/keys/svc");
    assert_eq!(member(rec, "access_key_id"), &text("ak-svc"));
    assert_eq!(member(rec, "secret_access_key"), &text("sk-svc"));
    assert_eq!(garage.allowed.len(), 0);
}

#[test]
fn grant_is_applied_with_record_permissions() {
    let mut bao = MockKeyStore::default();
    list(&mut bao, "controller/grants", &["app--demo"]);
    secret(
        &mut bao,
        "controller/grants/app--demo",
        obj(vec![
            ("read", text("TRUE")),
            ("write", text("false")),
            ("owner", Json::Bool(true)),
        ]),
    );
    let mut garage = MockGarage::default();
    garage.buckets.insert("demo".to_string(), "bucket-1".to_string());
    garage.keys.insert("app".to_string(), single_key("ak-1", "app"));

    reconcile_once(&reconciler(), &mut bao, &mut garage).expect("granted");

    assert_eq!(garage.allowed, vec![("bucket-1".to_string(), "ak-1".to_string(), true, false, true)]);
    let rec = bao.secret("controller/grants/app--demo");
    assert_eq!(member(rec, "key"), &text("app"));
    assert_eq!(member(rec, "bucket"), &text("demo"));
    assert_eq!(member(rec, "read"), &Json::Bool(true));
}

#[test]
fn second_pass_over_written_records_changes_nothing() {
    let mut bao = MockKeyStore::default();
    list(&mut bao, "controller/buckets", &["demo"]);
    list(&mut bao, "controller/keys", &["app"]);
    list(&mut bao, "controller/grants", &["app--demo"]);
    secret(&mut bao, "controller/buckets/demo", obj(vec![("state", text("requested"))]));
    secret(&mut bao, "controller/keys/app", obj(vec![("state", text("requested"))]));
    secret(&mut bao, "controller/grants/app--demo", grant_flags(true, false, false, "requested"));
    let mut garage = MockGarage::default();
    let r = reconciler();

    reconcile_once(&r, &mut bao, &mut garage).expect("first pass");
    assert_eq!(bao.attempted_writes.len(), 3);
    reconcile_once(&r, &mut bao, &mut garage).expect("second pass");

    assert_eq!(bao.attempted_writes.len(), 3);
    assert_eq!(garage.created_buckets.len(), 1);
    assert_eq!(garage.created_keys.len(), 1);
    assert_eq!(garage.allowed.len(), 1);
}

#[test]
fn step_now_stamps_the_current_time() {
    let mut bao = MockKeyStore::default();
    list(&mut bao, "controller/buckets", &["demo"]);
    secret(&mut bao, "controller/buckets/demo", obj(vec![]));
    let mut garage = MockGarage::default();
    let r = reconciler();
    let (mut pass, mut action) = r.start();
    let result = loop {
        let event = match action {
            Action::Finish { result } => break result,
            Action::GetStatus => Event::Status(garage.status()),
            Action::List { path } => Event::Listed(bao.list(&path)),
            Action::ReadSecret { path } => Event::SecretRead(bao.read(&path)),
            Action::WriteSecret { path, data } => Event::SecretWritten(bao.write(&path, data)),
            Action::LookupBucket { name } => Event::BucketFound(garage.bucket(&name)),
            Action::CreateBucket { name } => Event::BucketCreated(garage.create_bucket(&name)),
            other => panic!("unexpected request: {other:?}"),
        };
        match r.step_now(pass, event) {
            Ok((p, a)) => {
                pass = p;
                action = a;
            }
            Err(_) => panic!("clock unreadable"),
        }
    };
    result.expect("pass");
    match member(bao.secret("controller/buckets/demo"), "updated_at") {
        Json::Str(t) => {
            assert!(t.ends_with('Z'));
            assert_ne!(t, NOW);
        }
        other => panic!("stamp: {other:?}"),
    }
}

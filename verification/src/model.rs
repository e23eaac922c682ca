//! The records kept in the secret store: their states, how they are read from JSON and how
//! they are written back.
use vstd::prelude::*;
use vstd::string::*;
use crate::json::{
    json_view, lemma_array_view, get, insert_member, invalid_type, invalid_type_message, lemma_object_view, members_view,
    member, Json, JsonV,
};
use crate::text::{
    ascii_lowercase, chars_of, decimal, owned, push_decimal, str_eq, to_ascii_lowercase,
};

verus! {

/// The lifecycle state of a record.
#[derive(Debug, Clone, Copy, PartialEq, Eq, Structural)]
pub enum DesiredState {
    Requested,
    Ready,
    Error,
}

/// Records in these states still need work: no state, `requested`, or `error`.
pub open spec fn requested(state: Option<DesiredState>) -> bool {
    match state {
        None => true,
        Some(DesiredState::Requested) => true,
        Some(DesiredState::Error) => true,
        Some(DesiredState::Ready) => false,
    }
}

/// Whether a record in `state` is still to be reconciled.
pub fn is_requested(state: &Option<DesiredState>) -> (b: bool)
    ensures
        b == requested(*state),
{
    match state {
        None => true,
        Some(DesiredState::Requested) => true,
        Some(DesiredState::Error) => true,
        Some(DesiredState::Ready) => false,
    }
}

/// The lowercase name a state is stored under.
pub open spec fn state_name(s: DesiredState) -> Seq<char> {
    match s {
        DesiredState::Requested => "requested"@,
        DesiredState::Ready => "ready"@,
        DesiredState::Error => "error"@,
    }
}

/// The name a state is stored under.
pub fn state_text(s: DesiredState) -> (r: &'static str)
    ensures
        r@ == state_name(s),
{
    match s {
        DesiredState::Requested => "requested",
        DesiredState::Ready => "ready",
        DesiredState::Error => "error",
    }
}

/// Names the error text of reading `s` as a UTC date and time; nothing when it reads.
pub uninterp spec fn rfc3339_error(s: Seq<char>) -> Option<Seq<char>>;

/// Whether a stored timestamp reads as a date and time.
pub open spec fn timestamp_ok(t: Option<Seq<char>>) -> bool {
    match t {
        Some(s) => rfc3339_error(s) is None,
        None => true,
    }
}

/// Parses `s` as `chrono::DateTime<chrono::Utc>` (its `FromStr`) and keeps only the error text.
///
/// Trusted: the outcome is named `rfc3339_error`, a function of `s` alone; the text is the
/// `Display` of chrono's `ParseError`.
#[verifier::external_body]
fn timestamp_error(s: &str) -> (r: Option<String>)
    ensures
        match r {
            Some(e) => rfc3339_error(s@) == Some(e@),
            None => rfc3339_error(s@) is None,
        },
{
    match s.parse::<chrono::DateTime<chrono::Utc>>() {
        Ok(_) => None,
        Err(e) => Some(e.to_string()),
    }
}

/// The system clock's time, carried opaquely.
#[verifier::external_type_specification]
#[verifier::external_body]
pub struct ExSystemTime(std::time::SystemTime);

/// The system clock's current time (`SystemTime::now`).
///
/// Trusted: the value depends on the clock; nothing is claimed of it.
#[verifier::external_body]
fn system_now() -> std::time::SystemTime {
    std::time::SystemTime::now()
}

/// The seconds and nanoseconds from the Unix epoch to `t`
/// (`t.duration_since(UNIX_EPOCH)`); nothing when `t` is earlier.
///
/// Trusted: only the range of the nanoseconds, which `Duration::subsec_nanos` documents, is
/// claimed; `t` is opaque, so its distance from the epoch cannot be stated.
#[verifier::external_body]
fn since_epoch(t: &std::time::SystemTime) -> (r: Option<(u64, u32)>)
    ensures
        r matches Some(d) ==> d.1 < 1_000_000_000,
{
    match t.duration_since(std::time::UNIX_EPOCH) {
        Ok(d) => Some((d.as_secs(), d.subsec_nanos())),
        Err(_) => None,
    }
}

/// Names the RFC 3339 text of a Unix time, as chrono writes a `DateTime<Utc>` in JSON; nothing
/// when chrono cannot represent the time.
pub uninterp spec fn rfc3339_at(secs: i64, nanos: u32) -> Option<Seq<char>>;

/// `DateTime::<Utc>::from_timestamp(secs, nanos)` written with
/// `to_rfc3339_opts(SecondsFormat::AutoSi, true)`.
///
/// Trusted: the outcome is named `rfc3339_at`, a function of the arguments alone, and a text
/// it gives reads back through chrono's parser. Which times chrono cannot represent (the
/// range of `from_timestamp`) is left unsaid.
#[verifier::external_body]
fn rfc3339_of_timestamp(secs: i64, nanos: u32) -> (r: Option<String>)
    ensures
        opt_view(r) == rfc3339_at(secs, nanos),
        r matches Some(s) ==> rfc3339_error(s@) is None,
{
    chrono::DateTime::from_timestamp(secs, nanos).map(|t| t.to_rfc3339_opts(chrono::SecondsFormat::AutoSi, true))
}

/// The RFC 3339 text of a clock reading: nothing without a reading or when its seconds do
/// not fit chrono's signed count.
pub open spec fn rfc3339_unix(t: Option<(u64, u32)>) -> Option<Seq<char>> {
    match t {
        None => None,
        Some((secs, nanos)) => if secs <= i64::MAX {
            rfc3339_at(secs as i64, nanos)
        } else {
            None
        },
    }
}

/// The RFC 3339 text of a clock reading (seconds and nanoseconds since the Unix epoch).
pub fn rfc3339_of_unix(t: Option<(u64, u32)>) -> (r: Option<String>)
    ensures
        opt_view(r) == rfc3339_unix(t),
        r matches Some(s) ==> rfc3339_error(s@) is None,
{
    match t {
        None => None,
        Some((secs, nanos)) => {
            if secs > 9_223_372_036_854_775_807u64 {
                None
            } else {
                rfc3339_of_timestamp(secs as i64, nanos)
            }
        },
    }
}

/// The current time as chrono writes it in JSON: the text of the system clock's reading, or
/// nothing when the clock reads before the Unix epoch or beyond what chrono represents.
pub fn now_rfc3339() -> (r: Option<String>)
    ensures
        exists|t: Option<(u64, u32)>| (t matches Some(x) ==> x.1 < 1_000_000_000) && opt_view(r) == rfc3339_unix(t),
        r matches Some(s) ==> rfc3339_error(s@) is None,
{
    let clock = system_now();
    let t = since_epoch(&clock);
    let r = rfc3339_of_unix(t);
    assert((t matches Some(x) ==> x.1 < 1_000_000_000) && opt_view(r) == rfc3339_unix(t));
    r
}

/// The kinds of record the store holds.
#[derive(Debug, Clone, Copy, PartialEq, Eq, Structural)]
pub enum RecordKind {
    Bucket,
    Key,
    Grant,
}

/// How a field's value is read.
#[derive(Debug, Clone, Copy, PartialEq, Eq, Structural)]
pub enum FieldKind {
    /// A required string.
    Text,
    /// An optional string.
    OptText,
    /// An optional state.
    State,
    /// A required boolean that may also be written as a string.
    Flag,
    /// An optional timestamp.
    Stamp,
}

/// The fields of each record, in declaration order.
pub open spec fn schema(rk: RecordKind) -> Seq<(Seq<char>, FieldKind)> {
    match rk {
        RecordKind::Bucket => seq![
            ("name"@, FieldKind::Text),
            ("state"@, FieldKind::State),
            ("garage_bucket_id"@, FieldKind::OptText),
            ("error_message"@, FieldKind::OptText),
            ("updated_at"@, FieldKind::Stamp),
        ],
        RecordKind::Key => seq![
            ("name"@, FieldKind::Text),
            ("access_key_id"@, FieldKind::OptText),
            ("secret_access_key"@, FieldKind::OptText),
            ("state"@, FieldKind::State),
            ("error_message"@, FieldKind::OptText),
            ("updated_at"@, FieldKind::Stamp),
        ],
        RecordKind::Grant => seq![
            ("key"@, FieldKind::Text),
            ("bucket"@, FieldKind::Text),
            ("read"@, FieldKind::Flag),
            ("write"@, FieldKind::Flag),
            ("owner"@, FieldKind::Flag),
            ("state"@, FieldKind::State),
            ("error_message"@, FieldKind::OptText),
            ("updated_at"@, FieldKind::Stamp),
        ],
    }
}

/// The name of each record type.
pub open spec fn record_name(rk: RecordKind) -> Seq<char> {
    match rk {
        RecordKind::Bucket => "BucketRecord"@,
        RecordKind::Key => "KeyRecord"@,
        RecordKind::Grant => "GrantRecord"@,
    }
}

/// Fields that must be present.
pub open spec fn required(k: FieldKind) -> bool {
    k == FieldKind::Text || k == FieldKind::Flag
}

pub fn field_count(rk: RecordKind) -> (n: usize)
    ensures
        n == schema(rk).len(),
{
    match rk {
        RecordKind::Bucket => 5,
        RecordKind::Key => 6,
        RecordKind::Grant => 8,
    }
}

pub fn field_name(rk: RecordKind, i: usize) -> (s: &'static str)
    requires
        i < schema(rk).len(),
    ensures
        s@ == schema(rk)[i as int].0,
{
    match rk {
        RecordKind::Bucket => {
            if i == 0 { "name" }
            else if i == 1 { "state" }
            else if i == 2 { "garage_bucket_id" }
            else if i == 3 { "error_message" }
            else { "updated_at" }
        },
        RecordKind::Key => {
            if i == 0 { "name" }
            else if i == 1 { "access_key_id" }
            else if i == 2 { "secret_access_key" }
            else if i == 3 { "state" }
            else if i == 4 { "error_message" }
            else { "updated_at" }
        },
        RecordKind::Grant => {
            if i == 0 { "key" }
            else if i == 1 { "bucket" }
            else if i == 2 { "read" }
            else if i == 3 { "write" }
            else if i == 4 { "owner" }
            else if i == 5 { "state" }
            else if i == 6 { "error_message" }
            else { "updated_at" }
        },
    }
}

pub fn field_kind(rk: RecordKind, i: usize) -> (k: FieldKind)
    requires
        i < schema(rk).len(),
    ensures
        k == schema(rk)[i as int].1,
{
    match rk {
        RecordKind::Bucket => {
            if i == 0 { FieldKind::Text }
            else if i == 1 { FieldKind::State }
            else if i == 4 { FieldKind::Stamp }
            else { FieldKind::OptText }
        },
        RecordKind::Key => {
            if i == 0 { FieldKind::Text }
            else if i == 3 { FieldKind::State }
            else if i == 5 { FieldKind::Stamp }
            else { FieldKind::OptText }
        },
        RecordKind::Grant => {
            if i <= 1 { FieldKind::Text }
            else if i <= 4 { FieldKind::Flag }
            else if i == 5 { FieldKind::State }
            else if i == 6 { FieldKind::OptText }
            else { FieldKind::Stamp }
        },
    }
}

fn record_name_text(rk: RecordKind) -> (s: &'static str)
    ensures
        s@ == record_name(rk),
{
    match rk {
        RecordKind::Bucket => "BucketRecord",
        RecordKind::Key => "KeyRecord",
        RecordKind::Grant => "GrantRecord",
    }
}

/// A decoded field value.
pub enum FieldValue {
    Text(String),
    OptText(Option<String>),
    State(Option<DesiredState>),
    Flag(bool),
    Stamp(Option<String>),
}

/// The view of a decoded field value.
pub enum FieldValueV {
    Text(Seq<char>),
    OptText(Option<Seq<char>>),
    State(Option<DesiredState>),
    Flag(bool),
    Stamp(Option<Seq<char>>),
}

pub open spec fn opt_view(o: Option<String>) -> Option<Seq<char>> {
    match o {
        Some(s) => Some(s@),
        None => None,
    }
}

impl View for FieldValue {
    type V = FieldValueV;

    open spec fn view(&self) -> FieldValueV {
        match self {
            FieldValue::Text(s) => FieldValueV::Text(s@),
            FieldValue::OptText(o) => FieldValueV::OptText(opt_view(*o)),
            FieldValue::State(s) => FieldValueV::State(*s),
            FieldValue::Flag(b) => FieldValueV::Flag(*b),
            FieldValue::Stamp(o) => FieldValueV::Stamp(opt_view(*o)),
        }
    }
}

/// The value a field takes when it is absent and may be.
pub open spec fn default_value(k: FieldKind) -> FieldValueV {
    match k {
        FieldKind::Text => FieldValueV::Text(Seq::empty()),
        FieldKind::OptText => FieldValueV::OptText(None),
        FieldKind::State => FieldValueV::State(None),
        FieldKind::Flag => FieldValueV::Flag(false),
        FieldKind::Stamp => FieldValueV::Stamp(None),
    }
}

fn default_field(k: FieldKind) -> (v: FieldValue)
    ensures
        v@ == default_value(k),
{
    match k {
        FieldKind::Text => {
            let s = String::new();
            FieldValue::Text(s)
        },
        FieldKind::OptText => FieldValue::OptText(None),
        FieldKind::State => FieldValue::State(None),
        FieldKind::Flag => FieldValue::Flag(false),
        FieldKind::Stamp => FieldValue::Stamp(None),
    }
}

/// `unknown variant `<s>`, expected one of `requested`, `ready`, `error``.
pub open spec fn unknown_variant(s: Seq<char>) -> Seq<char> {
    "unknown variant `"@ + s + "`, expected one of `requested`, `ready`, `error`"@
}

/// A state read from its name.
pub open spec fn state_from_name(s: Seq<char>) -> Result<DesiredState, Seq<char>> {
    if s == "requested"@ {
        Ok(DesiredState::Requested)
    } else if s == "ready"@ {
        Ok(DesiredState::Ready)
    } else if s == "error"@ {
        Ok(DesiredState::Error)
    } else {
        Err(unknown_variant(s))
    }
}

/// The message for a state written as a map that does not have exactly one member.
pub open spec fn single_key_message() -> Seq<char> {
    "invalid value: map, expected map with a single key"@
}

/// Reads an optional state: null, a state name, or a map of one state name to null.
pub open spec fn decode_state(v: JsonV) -> Result<Option<DesiredState>, Seq<char>> {
    match v {
        JsonV::Null => Ok(None),
        JsonV::Str(s) => match state_from_name(s) {
            Ok(st) => Ok(Some(st)),
            Err(e) => Err(e),
        },
        JsonV::Object(entries) => if entries.len() != 1 {
            Err(single_key_message())
        } else {
            match state_from_name(entries[0].0) {
                Err(e) => Err(e),
                Ok(st) => match entries[0].1 {
                    JsonV::Null => Ok(Some(st)),
                    other => Err(invalid_type(other, "unit"@)),
                },
            }
        },
        other => Err(invalid_type(other, "string or map"@)),
    }
}

/// Reads a boolean that may also be written as `"true"` or `"false"` in any ASCII case.
pub open spec fn decode_flag(v: JsonV) -> Result<bool, Seq<char>> {
    match v {
        JsonV::Bool(b) => Ok(b),
        JsonV::Str(s) => if ascii_lowercase(s) == "true"@ {
            Ok(true)
        } else if ascii_lowercase(s) == "false"@ {
            Ok(false)
        } else {
            Err("invalid boolean string '"@ + s + "'"@)
        },
        _ => Err("expected bool or boolean string"@),
    }
}

/// Reads one field value of the given kind.
pub open spec fn decode_field(k: FieldKind, v: JsonV) -> Result<FieldValueV, Seq<char>> {
    match k {
        FieldKind::Text => match v {
            JsonV::Str(s) => Ok(FieldValueV::Text(s)),
            other => Err(invalid_type(other, "a string"@)),
        },
        FieldKind::OptText => match v {
            JsonV::Null => Ok(FieldValueV::OptText(None)),
            JsonV::Str(s) => Ok(FieldValueV::OptText(Some(s))),
            other => Err(invalid_type(other, "a string"@)),
        },
        FieldKind::State => match decode_state(v) {
            Ok(s) => Ok(FieldValueV::State(s)),
            Err(e) => Err(e),
        },
        FieldKind::Flag => match decode_flag(v) {
            Ok(b) => Ok(FieldValueV::Flag(b)),
            Err(e) => Err(e),
        },
        FieldKind::Stamp => match v {
            JsonV::Null => Ok(FieldValueV::Stamp(None)),
            JsonV::Str(s) => match rfc3339_error(s) {
                None => Ok(FieldValueV::Stamp(Some(s))),
                Some(e) => Err(e),
            },
            other => Err(invalid_type(other, "an RFC 3339 formatted date and time string"@)),
        },
    }
}

fn state_from_text(s: &str) -> (r: Result<DesiredState, String>)
    ensures
        match r {
            Ok(st) => state_from_name(s@) == Ok::<DesiredState, Seq<char>>(st),
            Err(e) => state_from_name(s@) == Err::<DesiredState, Seq<char>>(e@),
        },
{
    if str_eq(s, "requested") {
        Ok(DesiredState::Requested)
    } else if str_eq(s, "ready") {
        Ok(DesiredState::Ready)
    } else if str_eq(s, "error") {
        Ok(DesiredState::Error)
    } else {
        let mut m = String::new();
        m.append("unknown variant `");
        m.append(s);
        m.append("`, expected one of `requested`, `ready`, `error`");
        assert(m@ =~= unknown_variant(s@));
        Err(m)
    }
}

fn decode_state_exec(v: &Json) -> (r: Result<Option<DesiredState>, String>)
    ensures
        match r {
            Ok(st) => decode_state(v@) == Ok::<Option<DesiredState>, Seq<char>>(st),
            Err(e) => decode_state(v@) == Err::<Option<DesiredState>, Seq<char>>(e@),
        },
{
    match v {
        Json::Null => Ok(None),
        Json::Str(s) => match state_from_text(s.as_str()) {
            Ok(st) => Ok(Some(st)),
            Err(e) => Err(e),
        },
        Json::Object(entries) => {
            proof {
                lemma_object_view(*entries);
            }
            if entries.len() != 1 {
                Err(owned("invalid value: map, expected map with a single key"))
            } else {
                assert(members_view(entries@)[0] == (entries@[0].0@, entries@[0].1@));
                match state_from_text(entries[0].0.as_str()) {
                    Err(e) => Err(e),
                    Ok(st) => match &entries[0].1 {
                        Json::Null => Ok(Some(st)),
                        other => Err(invalid_type_message(other, "unit")),
                    },
                }
            }
        },
        other => Err(invalid_type_message(other, "string or map")),
    }
}

fn decode_flag_exec(v: &Json) -> (r: Result<bool, String>)
    ensures
        match r {
            Ok(b) => decode_flag(v@) == Ok::<bool, Seq<char>>(b),
            Err(e) => decode_flag(v@) == Err::<bool, Seq<char>>(e@),
        },
{
    match v {
        Json::Bool(b) => Ok(*b),
        Json::Str(s) => {
            let lower = to_ascii_lowercase(s.as_str());
            if str_eq(lower.as_str(), "true") {
                Ok(true)
            } else if str_eq(lower.as_str(), "false") {
                Ok(false)
            } else {
                let mut m = String::new();
                m.append("invalid boolean string '");
                m.append(s.as_str());
                m.append("'");
                assert(m@ =~= "invalid boolean string '"@ + s@ + "'"@);
                Err(m)
            }
        },
        _ => Err(owned("expected bool or boolean string")),
    }
}

/// Reads one field value of the given kind.
pub fn decode_field_exec(k: FieldKind, v: &Json) -> (r: Result<FieldValue, String>)
    ensures
        match r {
            Ok(x) => decode_field(k, v@) == Ok::<FieldValueV, Seq<char>>(x@),
            Err(e) => decode_field(k, v@) == Err::<FieldValueV, Seq<char>>(e@),
        },
{
    match k {
        FieldKind::Text => match v {
            Json::Str(s) => Ok(FieldValue::Text(s.clone())),
            other => Err(invalid_type_message(other, "a string")),
        },
        FieldKind::OptText => match v {
            Json::Null => Ok(FieldValue::OptText(None)),
            Json::Str(s) => Ok(FieldValue::OptText(Some(s.clone()))),
            other => Err(invalid_type_message(other, "a string")),
        },
        FieldKind::State => match decode_state_exec(v) {
            Ok(s) => Ok(FieldValue::State(s)),
            Err(e) => Err(e),
        },
        FieldKind::Flag => match decode_flag_exec(v) {
            Ok(b) => Ok(FieldValue::Flag(b)),
            Err(e) => Err(e),
        },
        FieldKind::Stamp => match v {
            Json::Null => Ok(FieldValue::Stamp(None)),
            Json::Str(s) => match timestamp_error(s.as_str()) {
                None => Ok(FieldValue::Stamp(Some(s.clone()))),
                Some(e) => Err(e),
            },
            other => Err(invalid_type_message(other, "an RFC 3339 formatted date and time string")),
        },
    }
}


/// The position of the field named `key`, if the record has one.
pub open spec fn field_index_from(sch: Seq<(Seq<char>, FieldKind)>, key: Seq<char>, i: int) -> Option<int>
    decreases sch.len() - i,
{
    if i < 0 || i >= sch.len() {
        None
    } else if sch[i].0 == key {
        Some(i)
    } else {
        field_index_from(sch, key, i + 1)
    }
}

pub open spec fn field_index(rk: RecordKind, key: Seq<char>) -> Option<int> {
    field_index_from(schema(rk), key, 0)
}

/// `duplicate field `<name>``.
pub open spec fn duplicate_field(name: Seq<char>) -> Seq<char> {
    "duplicate field `"@ + name + "`"@
}

/// `missing field `<name>``.
pub open spec fn missing_field(name: Seq<char>) -> Seq<char> {
    "missing field `"@ + name + "`"@
}

/// `invalid length <n>, expected <what>`.
pub open spec fn invalid_length(n: nat, expected: Seq<char>) -> Seq<char> {
    "invalid length "@ + decimal(n) + ", expected "@ + expected
}

/// What a record written as an array is expected to hold.
pub open spec fn seq_expectation(rk: RecordKind) -> Seq<char> {
    "struct "@ + record_name(rk) + " with "@ + decimal(schema(rk).len()) + " elements"@
}

/// Reads object members in order into the field slots; members that name no field are skipped.
pub open spec fn decode_members(
    rk: RecordKind,
    entries: Seq<(Seq<char>, JsonV)>,
    slots: Seq<Option<FieldValueV>>,
) -> Result<Seq<Option<FieldValueV>>, Seq<char>>
    decreases entries.len(),
{
    if entries.len() == 0 {
        Ok(slots)
    } else {
        match field_index(rk, entries[0].0) {
            None => decode_members(rk, entries.drop_first(), slots),
            Some(f) => if slots[f] is Some {
                Err(duplicate_field(entries[0].0))
            } else {
                match decode_field(schema(rk)[f].1, entries[0].1) {
                    Err(e) => Err(e),
                    Ok(x) => decode_members(rk, entries.drop_first(), slots.update(f, Some(x))),
                }
            },
        }
    }
}

/// No field read yet.
pub open spec fn empty_slots(rk: RecordKind) -> Seq<Option<FieldValueV>> {
    Seq::new(schema(rk).len(), |i: int| None)
}

/// The first field from `i` on that is required and was not given.
pub open spec fn first_missing_from(rk: RecordKind, slots: Seq<Option<FieldValueV>>, i: int) -> Option<int>
    decreases schema(rk).len() - i,
{
    if i < 0 || i >= schema(rk).len() {
        None
    } else if slots[i] is None && required(schema(rk)[i].1) {
        Some(i)
    } else {
        first_missing_from(rk, slots, i + 1)
    }
}

/// The slots with absent optional fields set to their defaults.
pub open spec fn filled(rk: RecordKind, slots: Seq<Option<FieldValueV>>) -> Seq<FieldValueV> {
    Seq::new(
        schema(rk).len(),
        |i: int|
            match slots[i] {
                Some(v) => v,
                None => default_value(schema(rk)[i].1),
            },
    )
}

/// The field values once all members were read.
pub open spec fn finish_slots(rk: RecordKind, slots: Seq<Option<FieldValueV>>) -> Result<Seq<FieldValueV>, Seq<char>> {
    match first_missing_from(rk, slots, 0) {
        Some(i) => Err(missing_field(schema(rk)[i].0)),
        None => Ok(filled(rk, slots)),
    }
}

/// Fields read from array elements by position, starting at field `i`.
pub open spec fn decode_elements(rk: RecordKind, elems: Seq<JsonV>, i: int) -> Result<Seq<FieldValueV>, Seq<char>>
    decreases schema(rk).len() - i,
{
    let n = schema(rk).len();
    if i < 0 {
        Err(Seq::empty())
    } else if i >= n {
        if elems.len() > n {
            Err(invalid_length(elems.len(), "fewer elements in array"@))
        } else {
            Ok(Seq::empty())
        }
    } else if i < elems.len() {
        match decode_field(schema(rk)[i].1, elems[i]) {
            Err(e) => Err(e),
            Ok(x) => match decode_elements(rk, elems, i + 1) {
                Ok(rest) => Ok(seq![x] + rest),
                Err(e) => Err(e),
            },
        }
    } else if required(schema(rk)[i].1) {
        Err(invalid_length(i as nat, seq_expectation(rk)))
    } else {
        match decode_elements(rk, elems, i + 1) {
            Ok(rest) => Ok(seq![default_value(schema(rk)[i].1)] + rest),
            Err(e) => Err(e),
        }
    }
}

/// The field values of a record read from a JSON value: an object by member names, an array
/// by position; any other value is refused.
pub open spec fn decode_fields(rk: RecordKind, v: JsonV) -> Result<Seq<FieldValueV>, Seq<char>> {
    match v {
        JsonV::Object(entries) => match decode_members(rk, entries, empty_slots(rk)) {
            Ok(slots) => finish_slots(rk, slots),
            Err(e) => Err(e),
        },
        JsonV::Array(elems) => decode_elements(rk, elems, 0),
        other => Err(invalid_type(other, "struct "@ + record_name(rk))),
    }
}

fn field_index_exec(rk: RecordKind, key: &str) -> (r: Option<usize>)
    ensures
        match r {
            Some(i) => field_index(rk, key@) == Some(i as int) && i < schema(rk).len()
                && schema(rk)[i as int].0 == key@,
            None => field_index(rk, key@) is None,
        },
{
    let n = field_count(rk);
    let mut i: usize = 0;
    while i < n
        invariant
            i <= n,
            n == schema(rk).len(),
            field_index(rk, key@) == field_index_from(schema(rk), key@, i as int),
        decreases n - i,
    {
        if str_eq(field_name(rk, i), key) {
            return Some(i);
        }
        i += 1;
    }
    None
}

pub open spec fn slots_view(slots: Seq<Option<FieldValue>>) -> Seq<Option<FieldValueV>> {
    slots.map_values(|o: Option<FieldValue>| match o {
        Some(v) => Some(v@),
        None => None,
    })
}

pub open spec fn fields_view(fields: Seq<FieldValue>) -> Seq<FieldValueV> {
    fields.map_values(|v: FieldValue| v@)
}

fn decode_members_exec(rk: RecordKind, entries: &Vec<(String, Json)>) -> (r: Result<Vec<Option<FieldValue>>, String>)
    ensures
        match r {
            Ok(slots) => decode_members(rk, members_view(entries@), empty_slots(rk))
                == Ok::<Seq<Option<FieldValueV>>, Seq<char>>(slots_view(slots@))
                && slots@.len() == schema(rk).len(),
            Err(e) => decode_members(rk, members_view(entries@), empty_slots(rk))
                == Err::<Seq<Option<FieldValueV>>, Seq<char>>(e@),
        },
{
    let n = field_count(rk);
    let mut slots: Vec<Option<FieldValue>> = Vec::new();
    let mut j: usize = 0;
    while j < n
        invariant
            j <= n,
            n == schema(rk).len(),
            slots@.len() == j,
            forall|k: int| 0 <= k < j ==> (#[trigger] slots@[k]) is None,
        decreases n - j,
    {
        slots.push(None);
        j += 1;
    }
    let ghost all = members_view(entries@);
    let ghost start = empty_slots(rk);
    assert(slots_view(slots@) =~= start);
    assert(all.subrange(0, all.len() as int) =~= all);
    let mut i: usize = 0;
    while i < entries.len()
        invariant
            i <= entries@.len(),
            all == members_view(entries@),
            start == empty_slots(rk),
            slots@.len() == schema(rk).len(),
            decode_members(rk, all, start) == decode_members(rk, all.subrange(i as int, all.len() as int), slots_view(slots@)),
        decreases entries@.len() - i,
    {
        let ghost rest = all.subrange(i as int, all.len() as int);
        assert(rest[0] == (entries@[i as int].0@, entries@[i as int].1@));
        assert(rest.drop_first() =~= all.subrange(i + 1, all.len() as int));
        match field_index_exec(rk, entries[i].0.as_str()) {
            None => {},
            Some(f) => {
                assert(slots_view(slots@)[f as int] == match slots@[f as int] {
                    Some(v) => Some(v@),
                    None => None::<FieldValueV>,
                });
                if slots[f].is_some() {
                    let mut m = String::new();
                    m.append("duplicate field `");
                    m.append(entries[i].0.as_str());
                    m.append("`");
                    assert(m@ =~= duplicate_field(rest[0].0));
                    return Err(m);
                }
                match decode_field_exec(field_kind(rk, f), &entries[i].1) {
                    Err(e) => {
                        return Err(e);
                    },
                    Ok(x) => {
                        let ghost xv = x@;
                        let ghost before = slots_view(slots@);
                        slots.set(f, Some(x));
                        assert(slots_view(slots@) =~= before.update(f as int, Some(xv)));
                    },
                }
            },
        }
        i += 1;
    }
    assert(all.subrange(all.len() as int, all.len() as int) =~= Seq::<(Seq<char>, JsonV)>::empty());
    Ok(slots)
}


fn clone_field(v: &FieldValue) -> (r: FieldValue)
    ensures
        r@ == v@,
{
    match v {
        FieldValue::Text(s) => FieldValue::Text(s.clone()),
        FieldValue::OptText(o) => match o {
            Some(s) => FieldValue::OptText(Some(s.clone())),
            None => FieldValue::OptText(None),
        },
        FieldValue::State(st) => FieldValue::State(*st),
        FieldValue::Flag(b) => FieldValue::Flag(*b),
        FieldValue::Stamp(o) => match o {
            Some(s) => FieldValue::Stamp(Some(s.clone())),
            None => FieldValue::Stamp(None),
        },
    }
}

fn missing_field_message(name: &str) -> (m: String)
    ensures
        m@ == missing_field(name@),
{
    let mut m = String::new();
    m.append("missing field `");
    m.append(name);
    m.append("`");
    assert(m@ =~= missing_field(name@));
    m
}

fn invalid_length_message(n: usize, expected: &str) -> (m: String)
    ensures
        m@ == invalid_length(n as nat, expected@),
{
    let mut m = String::new();
    m.append("invalid length ");
    push_decimal(&mut m, n as u64);
    m.append(", expected ");
    m.append(expected);
    assert(m@ =~= invalid_length(n as nat, expected@));
    m
}

fn seq_expectation_text(rk: RecordKind) -> (m: String)
    ensures
        m@ == seq_expectation(rk),
{
    let mut m = String::new();
    m.append("struct ");
    m.append(record_name_text(rk));
    m.append(" with ");
    push_decimal(&mut m, field_count(rk) as u64);
    m.append(" elements");
    assert(m@ =~= seq_expectation(rk));
    m
}

fn finish_slots_exec(rk: RecordKind, slots: &Vec<Option<FieldValue>>) -> (r: Result<Vec<FieldValue>, String>)
    requires
        slots@.len() == schema(rk).len(),
    ensures
        match r {
            Ok(f) => finish_slots(rk, slots_view(slots@)) == Ok::<Seq<FieldValueV>, Seq<char>>(fields_view(f@)),
            Err(e) => finish_slots(rk, slots_view(slots@)) == Err::<Seq<FieldValueV>, Seq<char>>(e@),
        },
{
    let n = field_count(rk);
    let ghost sv = slots_view(slots@);
    let mut i: usize = 0;
    while i < n
        invariant
            i <= n,
            n == schema(rk).len() == slots@.len(),
            sv == slots_view(slots@),
            first_missing_from(rk, sv, 0) == first_missing_from(rk, sv, i as int),
        decreases n - i,
    {
        assert(sv[i as int] is None <==> slots@[i as int] is None);
        if slots[i].is_none() {
            let k = field_kind(rk, i);
            if k == FieldKind::Text || k == FieldKind::Flag {
                return Err(missing_field_message(field_name(rk, i)));
            }
        }
        i += 1;
    }
    let mut out: Vec<FieldValue> = Vec::new();
    let mut j: usize = 0;
    while j < n
        invariant
            j <= n,
            n == schema(rk).len() == slots@.len(),
            sv == slots_view(slots@),
            fields_view(out@) =~= filled(rk, sv).subrange(0, j as int),
        decreases n - j,
    {
        let v = match &slots[j] {
            Some(v) => clone_field(v),
            None => default_field(field_kind(rk, j)),
        };
        assert(v@ == filled(rk, sv)[j as int]);
        let ghost before = fields_view(out@);
        let ghost vv = v@;
        out.push(v);
        assert(fields_view(out@) =~= before.push(vv));
        j += 1;
        assert(fields_view(out@) =~= filled(rk, sv).subrange(0, j as int));
    }
    assert(filled(rk, sv).subrange(0, n as int) =~= filled(rk, sv));
    Ok(out)
}

/// The views of array elements.
pub open spec fn elems_view(a: Seq<Json>) -> Seq<JsonV> {
    a.map_values(|j: Json| json_view(j))
}

pub open spec fn prefix_then(p: Seq<FieldValueV>, r: Result<Seq<FieldValueV>, Seq<char>>) -> Result<Seq<FieldValueV>, Seq<char>> {
    match r {
        Ok(rest) => Ok(p + rest),
        Err(e) => Err(e),
    }
}

proof fn lemma_prefix_then(p: Seq<FieldValueV>, x: FieldValueV, r: Result<Seq<FieldValueV>, Seq<char>>)
    ensures
        prefix_then(p, prefix_then(seq![x], r)) == prefix_then(p.push(x), r),
{
    if let Ok(rest) = r {
        assert(p + (seq![x] + rest) =~= p.push(x) + rest);
    }
}

fn decode_elements_exec(rk: RecordKind, elems: &Vec<Json>) -> (r: Result<Vec<FieldValue>, String>)
    ensures
        match r {
            Ok(f) => decode_elements(rk, elems_view(elems@), 0) == Ok::<Seq<FieldValueV>, Seq<char>>(fields_view(f@)),
            Err(e) => decode_elements(rk, elems_view(elems@), 0) == Err::<Seq<FieldValueV>, Seq<char>>(e@),
        },
{
    let ghost ev = elems_view(elems@);
    let n = field_count(rk);
    let mut out: Vec<FieldValue> = Vec::new();
    let mut i: usize = 0;
    proof {
        match decode_elements(rk, ev, 0) {
            Ok(rest) => {
                assert(Seq::<FieldValueV>::empty() + rest =~= rest);
            },
            Err(_) => {},
        }
    }
    while i < n
        invariant
            i <= n,
            n == schema(rk).len(),
            ev == elems_view(elems@),
            decode_elements(rk, ev, 0) == prefix_then(fields_view(out@), decode_elements(rk, ev, i as int)),
        decreases n - i,
    {
        let k = field_kind(rk, i);
        if i < elems.len() {
            assert(ev[i as int] == elems@[i as int]@);
            match decode_field_exec(k, &elems[i]) {
                Err(e) => {
                    return Err(e);
                },
                Ok(x) => {
                    proof {
                        lemma_prefix_then(fields_view(out@), x@, decode_elements(rk, ev, i + 1));
                    }
                    let ghost before = fields_view(out@);
                    let ghost xv = x@;
                    out.push(x);
                    assert(fields_view(out@) =~= before.push(xv));
                },
            }
        } else if k == FieldKind::Text || k == FieldKind::Flag {
            let exp = seq_expectation_text(rk);
            return Err(invalid_length_message(i, exp.as_str()));
        } else {
            let x = default_field(k);
            proof {
                lemma_prefix_then(fields_view(out@), x@, decode_elements(rk, ev, i + 1));
            }
            let ghost before = fields_view(out@);
            let ghost xv = x@;
            out.push(x);
            assert(fields_view(out@) =~= before.push(xv));
        }
        i += 1;
    }
    if elems.len() > n {
        return Err(invalid_length_message(elems.len(), "fewer elements in array"));
    }
    assert(fields_view(out@) + Seq::<FieldValueV>::empty() =~= fields_view(out@));
    Ok(out)
}


/// The field values of a record read from a JSON value.
pub fn decode_fields_exec(rk: RecordKind, v: &Json) -> (r: Result<Vec<FieldValue>, String>)
    ensures
        match r {
            Ok(f) => decode_fields(rk, v@) == Ok::<Seq<FieldValueV>, Seq<char>>(fields_view(f@)),
            Err(e) => decode_fields(rk, v@) == Err::<Seq<FieldValueV>, Seq<char>>(e@),
        },
{
    match v {
        Json::Object(entries) => {
            proof {
                lemma_object_view(*entries);
            }
            match decode_members_exec(rk, entries) {
                Ok(slots) => finish_slots_exec(rk, &slots),
                Err(e) => Err(e),
            }
        },
        Json::Array(elems) => {
            proof {
                lemma_array_view(*elems);
            }
            decode_elements_exec(rk, elems)
        },
        other => {
            let mut exp = owned("struct ");
            exp.append(record_name_text(rk));
            Err(invalid_type_message(other, exp.as_str()))
        },
    }
}

/// How a field value is written.
pub open spec fn field_json(f: FieldValueV) -> JsonV {
    match f {
        FieldValueV::Text(s) => JsonV::Str(s),
        FieldValueV::OptText(o) => match o {
            Some(s) => JsonV::Str(s),
            None => JsonV::Null,
        },
        FieldValueV::State(o) => match o {
            Some(st) => JsonV::Str(state_name(st)),
            None => JsonV::Null,
        },
        FieldValueV::Flag(b) => JsonV::Bool(b),
        FieldValueV::Stamp(o) => match o {
            Some(s) => JsonV::Str(s),
            None => JsonV::Null,
        },
    }
}

/// A record written as a JSON object with one member per field, in declaration order.
pub open spec fn encode_fields(rk: RecordKind, f: Seq<FieldValueV>) -> JsonV {
    JsonV::Object(Seq::new(schema(rk).len(), |i: int| (schema(rk)[i].0, field_json(f[i]))))
}

fn field_json_exec(f: &FieldValue) -> (j: Json)
    ensures
        j@ == field_json(f@),
{
    match f {
        FieldValue::Text(s) => Json::Str(s.clone()),
        FieldValue::OptText(o) => match o {
            Some(s) => Json::Str(s.clone()),
            None => Json::Null,
        },
        FieldValue::State(o) => match o {
            Some(st) => Json::Str(owned(state_text(*st))),
            None => Json::Null,
        },
        FieldValue::Flag(b) => Json::Bool(*b),
        FieldValue::Stamp(o) => match o {
            Some(s) => Json::Str(s.clone()),
            None => Json::Null,
        },
    }
}

fn encode_fields_exec(rk: RecordKind, f: &Vec<FieldValue>) -> (j: Json)
    requires
        f@.len() == schema(rk).len(),
    ensures
        j@ == encode_fields(rk, fields_view(f@)),
{
    let n = field_count(rk);
    let mut members: Vec<(String, Json)> = Vec::new();
    let mut i: usize = 0;
    while i < n
        invariant
            i <= n,
            n == schema(rk).len() == f@.len(),
            members_view(members@) =~= Seq::new(i as nat, |k: int| (schema(rk)[k].0, field_json(fields_view(f@)[k]))),
        decreases n - i,
    {
        let key = owned(field_name(rk, i));
        let value = field_json_exec(&f[i]);
        let ghost before = members_view(members@);
        let ghost entry = (key@, value@);
        members.push((key, value));
        assert(members_view(members@) =~= before.push(entry));
        i += 1;
    }
    proof {
        lemma_object_view(members);
    }
    Json::Object(members)
}

pub open spec fn text_of(f: FieldValueV) -> Seq<char> {
    match f {
        FieldValueV::Text(s) => s,
        _ => Seq::empty(),
    }
}

pub open spec fn opt_text_of(f: FieldValueV) -> Option<Seq<char>> {
    match f {
        FieldValueV::OptText(o) => o,
        FieldValueV::Stamp(o) => o,
        _ => None,
    }
}

pub open spec fn state_of(f: FieldValueV) -> Option<DesiredState> {
    match f {
        FieldValueV::State(s) => s,
        _ => None,
    }
}

pub open spec fn flag_of(f: FieldValueV) -> bool {
    match f {
        FieldValueV::Flag(b) => b,
        _ => false,
    }
}

fn into_text(f: FieldValue) -> (s: String)
    ensures
        s@ == text_of(f@),
{
    match f {
        FieldValue::Text(s) => s,
        _ => String::new(),
    }
}

fn into_opt_text(f: FieldValue) -> (s: Option<String>)
    ensures
        opt_view(s) == opt_text_of(f@),
{
    match f {
        FieldValue::OptText(o) => o,
        FieldValue::Stamp(o) => o,
        _ => None,
    }
}

fn into_state(f: FieldValue) -> (s: Option<DesiredState>)
    ensures
        s == state_of(f@),
{
    match f {
        FieldValue::State(s) => s,
        _ => None,
    }
}

fn into_flag(f: FieldValue) -> (b: bool)
    ensures
        b == flag_of(f@),
{
    match f {
        FieldValue::Flag(b) => b,
        _ => false,
    }
}

fn pop_field(f: &mut Vec<FieldValue>) -> (v: FieldValue)
    requires
        old(f)@.len() > 0,
    ensures
        final(f)@ == old(f)@.drop_last(),
        v == old(f)@.last(),
{
    match f.pop() {
        Some(v) => v,
        None => FieldValue::Flag(false),
    }
}

fn stamp_field(o: &Option<String>) -> (f: FieldValue)
    ensures
        f@ == FieldValueV::Stamp(opt_view(*o)),
{
    match o {
        Some(s) => FieldValue::Stamp(Some(s.clone())),
        None => FieldValue::Stamp(None),
    }
}

fn opt_text_field(o: &Option<String>) -> (f: FieldValue)
    ensures
        f@ == FieldValueV::OptText(opt_view(*o)),
{
    match o {
        Some(s) => FieldValue::OptText(Some(s.clone())),
        None => FieldValue::OptText(None),
    }
}

/// A bucket that should exist in Garage.
#[derive(Debug)]
pub struct BucketRecord {
    pub name: String,
    pub state: Option<DesiredState>,
    pub garage_bucket_id: Option<String>,
    pub error_message: Option<String>,
    pub updated_at: Option<String>,
}

pub struct BucketRecordV {
    pub name: Seq<char>,
    pub state: Option<DesiredState>,
    pub garage_bucket_id: Option<Seq<char>>,
    pub error_message: Option<Seq<char>>,
    pub updated_at: Option<Seq<char>>,
}

impl View for BucketRecord {
    type V = BucketRecordV;

    open spec fn view(&self) -> BucketRecordV {
        BucketRecordV {
            name: self.name@,
            state: self.state,
            garage_bucket_id: opt_view(self.garage_bucket_id),
            error_message: opt_view(self.error_message),
            updated_at: opt_view(self.updated_at),
        }
    }
}

pub open spec fn bucket_fields(r: BucketRecordV) -> Seq<FieldValueV> {
    seq![
        FieldValueV::Text(r.name),
        FieldValueV::State(r.state),
        FieldValueV::OptText(r.garage_bucket_id),
        FieldValueV::OptText(r.error_message),
        FieldValueV::Stamp(r.updated_at),
    ]
}

pub open spec fn bucket_of(f: Seq<FieldValueV>) -> BucketRecordV {
    BucketRecordV {
        name: text_of(f[0]),
        state: state_of(f[1]),
        garage_bucket_id: opt_text_of(f[2]),
        error_message: opt_text_of(f[3]),
        updated_at: opt_text_of(f[4]),
    }
}

/// A bucket record read from a JSON value.
pub open spec fn decode_bucket(v: JsonV) -> Result<BucketRecordV, Seq<char>> {
    match decode_fields(RecordKind::Bucket, v) {
        Ok(f) => Ok(bucket_of(f)),
        Err(e) => Err(e),
    }
}

/// A bucket record written as JSON.
pub open spec fn encode_bucket(r: BucketRecordV) -> JsonV {
    encode_fields(RecordKind::Bucket, bucket_fields(r))
}

impl BucketRecord {
    /// Reads a bucket record from a JSON value.
    pub fn decode(v: &Json) -> (r: Result<BucketRecord, String>)
        ensures
            match r {
                Ok(rec) => decode_bucket(v@) == Ok::<BucketRecordV, Seq<char>>(rec@),
                Err(e) => decode_bucket(v@) == Err::<BucketRecordV, Seq<char>>(e@),
            },
    {
        match decode_fields_exec(RecordKind::Bucket, v) {
            Err(e) => Err(e),
            Ok(f) => {
                proof {
                    assert(decode_fields(RecordKind::Bucket, v@) is Ok);
                    lemma_decoded_len(RecordKind::Bucket, v@);
                }
                let mut f = f;
                let ghost fv = fields_view(f@);
                let updated_at = into_opt_text(pop_field(&mut f));
                let error_message = into_opt_text(pop_field(&mut f));
                let garage_bucket_id = into_opt_text(pop_field(&mut f));
                let state = into_state(pop_field(&mut f));
                let name = into_text(pop_field(&mut f));
                let rec = BucketRecord { name, state, garage_bucket_id, error_message, updated_at };
                assert(rec@ == bucket_of(fv));
                Ok(rec)
            },
        }
    }

    /// The record as JSON.
    pub fn encode(&self) -> (j: Json)
        ensures
            j@ == encode_bucket(self@),
    {
        let mut f: Vec<FieldValue> = Vec::new();
        f.push(FieldValue::Text(self.name.clone()));
        f.push(FieldValue::State(self.state));
        f.push(opt_text_field(&self.garage_bucket_id));
        f.push(opt_text_field(&self.error_message));
        f.push(stamp_field(&self.updated_at));
        assert(fields_view(f@) =~= bucket_fields(self@));
        encode_fields_exec(RecordKind::Bucket, &f)
    }
}

proof fn lemma_elements_len(rk: RecordKind, elems: Seq<JsonV>, i: int)
    requires
        0 <= i <= schema(rk).len(),
    ensures
        decode_elements(rk, elems, i) matches Ok(f) ==> f.len() == schema(rk).len() - i,
    decreases schema(rk).len() - i,
{
    if i < schema(rk).len() {
        lemma_elements_len(rk, elems, i + 1);
    }
}

pub proof fn lemma_decoded_len(rk: RecordKind, v: JsonV)
    ensures
        decode_fields(rk, v) matches Ok(f) ==> f.len() == schema(rk).len(),
{
    if let JsonV::Array(elems) = v {
        lemma_elements_len(rk, elems, 0);
    }
}


/// An S3 access key that should exist in Garage.
#[derive(Debug)]
pub struct KeyRecord {
    pub name: String,
    pub access_key_id: Option<String>,
    pub secret_access_key: Option<String>,
    pub state: Option<DesiredState>,
    pub error_message: Option<String>,
    pub updated_at: Option<String>,
}

pub struct KeyRecordV {
    pub name: Seq<char>,
    pub access_key_id: Option<Seq<char>>,
    pub secret_access_key: Option<Seq<char>>,
    pub state: Option<DesiredState>,
    pub error_message: Option<Seq<char>>,
    pub updated_at: Option<Seq<char>>,
}

impl View for KeyRecord {
    type V = KeyRecordV;

    open spec fn view(&self) -> KeyRecordV {
        KeyRecordV {
            name: self.name@,
            access_key_id: opt_view(self.access_key_id),
            secret_access_key: opt_view(self.secret_access_key),
            state: self.state,
            error_message: opt_view(self.error_message),
            updated_at: opt_view(self.updated_at),
        }
    }
}

pub open spec fn key_fields(r: KeyRecordV) -> Seq<FieldValueV> {
    seq![
        FieldValueV::Text(r.name),
        FieldValueV::OptText(r.access_key_id),
        FieldValueV::OptText(r.secret_access_key),
        FieldValueV::State(r.state),
        FieldValueV::OptText(r.error_message),
        FieldValueV::Stamp(r.updated_at),
    ]
}

pub open spec fn key_of(f: Seq<FieldValueV>) -> KeyRecordV {
    KeyRecordV {
        name: text_of(f[0]),
        access_key_id: opt_text_of(f[1]),
        secret_access_key: opt_text_of(f[2]),
        state: state_of(f[3]),
        error_message: opt_text_of(f[4]),
        updated_at: opt_text_of(f[5]),
    }
}

/// A key record read from a JSON value.
pub open spec fn decode_key(v: JsonV) -> Result<KeyRecordV, Seq<char>> {
    match decode_fields(RecordKind::Key, v) {
        Ok(f) => Ok(key_of(f)),
        Err(e) => Err(e),
    }
}

/// A key record written as JSON.
pub open spec fn encode_key(r: KeyRecordV) -> JsonV {
    encode_fields(RecordKind::Key, key_fields(r))
}

impl KeyRecord {
    /// Reads a key record from a JSON value.
    pub fn decode(v: &Json) -> (r: Result<KeyRecord, String>)
        ensures
            match r {
                Ok(rec) => decode_key(v@) == Ok::<KeyRecordV, Seq<char>>(rec@),
                Err(e) => decode_key(v@) == Err::<KeyRecordV, Seq<char>>(e@),
            },
    {
        match decode_fields_exec(RecordKind::Key, v) {
            Err(e) => Err(e),
            Ok(f) => {
                proof {
                    lemma_decoded_len(RecordKind::Key, v@);
                }
                let mut f = f;
                let ghost fv = fields_view(f@);
                let updated_at = into_opt_text(pop_field(&mut f));
                let error_message = into_opt_text(pop_field(&mut f));
                let state = into_state(pop_field(&mut f));
                let secret_access_key = into_opt_text(pop_field(&mut f));
                let access_key_id = into_opt_text(pop_field(&mut f));
                let name = into_text(pop_field(&mut f));
                let rec = KeyRecord {
                    name,
                    access_key_id,
                    secret_access_key,
                    state,
                    error_message,
                    updated_at,
                };
                assert(rec@ == key_of(fv));
                Ok(rec)
            },
        }
    }

    /// The record as JSON.
    pub fn encode(&self) -> (j: Json)
        ensures
            j@ == encode_key(self@),
    {
        let mut f: Vec<FieldValue> = Vec::new();
        f.push(FieldValue::Text(self.name.clone()));
        f.push(opt_text_field(&self.access_key_id));
        f.push(opt_text_field(&self.secret_access_key));
        f.push(FieldValue::State(self.state));
        f.push(opt_text_field(&self.error_message));
        f.push(stamp_field(&self.updated_at));
        assert(fields_view(f@) =~= key_fields(self@));
        encode_fields_exec(RecordKind::Key, &f)
    }
}

/// Permissions that a key should have on a bucket.
#[derive(Debug)]
pub struct GrantRecord {
    pub key: String,
    pub bucket: String,
    pub read: bool,
    pub write: bool,
    pub owner: bool,
    pub state: Option<DesiredState>,
    pub error_message: Option<String>,
    pub updated_at: Option<String>,
}

pub struct GrantRecordV {
    pub key: Seq<char>,
    pub bucket: Seq<char>,
    pub read: bool,
    pub write: bool,
    pub owner: bool,
    pub state: Option<DesiredState>,
    pub error_message: Option<Seq<char>>,
    pub updated_at: Option<Seq<char>>,
}

impl View for GrantRecord {
    type V = GrantRecordV;

    open spec fn view(&self) -> GrantRecordV {
        GrantRecordV {
            key: self.key@,
            bucket: self.bucket@,
            read: self.read,
            write: self.write,
            owner: self.owner,
            state: self.state,
            error_message: opt_view(self.error_message),
            updated_at: opt_view(self.updated_at),
        }
    }
}

pub open spec fn grant_fields(r: GrantRecordV) -> Seq<FieldValueV> {
    seq![
        FieldValueV::Text(r.key),
        FieldValueV::Text(r.bucket),
        FieldValueV::Flag(r.read),
        FieldValueV::Flag(r.write),
        FieldValueV::Flag(r.owner),
        FieldValueV::State(r.state),
        FieldValueV::OptText(r.error_message),
        FieldValueV::Stamp(r.updated_at),
    ]
}

pub open spec fn grant_of(f: Seq<FieldValueV>) -> GrantRecordV {
    GrantRecordV {
        key: text_of(f[0]),
        bucket: text_of(f[1]),
        read: flag_of(f[2]),
        write: flag_of(f[3]),
        owner: flag_of(f[4]),
        state: state_of(f[5]),
        error_message: opt_text_of(f[6]),
        updated_at: opt_text_of(f[7]),
    }
}

/// A grant record read from a JSON value.
pub open spec fn decode_grant(v: JsonV) -> Result<GrantRecordV, Seq<char>> {
    match decode_fields(RecordKind::Grant, v) {
        Ok(f) => Ok(grant_of(f)),
        Err(e) => Err(e),
    }
}

/// A grant record written as JSON.
pub open spec fn encode_grant(r: GrantRecordV) -> JsonV {
    encode_fields(RecordKind::Grant, grant_fields(r))
}

impl GrantRecord {
    /// Reads a grant record from a JSON value.
    pub fn decode(v: &Json) -> (r: Result<GrantRecord, String>)
        ensures
            match r {
                Ok(rec) => decode_grant(v@) == Ok::<GrantRecordV, Seq<char>>(rec@),
                Err(e) => decode_grant(v@) == Err::<GrantRecordV, Seq<char>>(e@),
            },
    {
        match decode_fields_exec(RecordKind::Grant, v) {
            Err(e) => Err(e),
            Ok(f) => {
                proof {
                    lemma_decoded_len(RecordKind::Grant, v@);
                }
                let mut f = f;
                let ghost fv = fields_view(f@);
                let updated_at = into_opt_text(pop_field(&mut f));
                let error_message = into_opt_text(pop_field(&mut f));
                let state = into_state(pop_field(&mut f));
                let owner = into_flag(pop_field(&mut f));
                let write = into_flag(pop_field(&mut f));
                let read = into_flag(pop_field(&mut f));
                let bucket = into_text(pop_field(&mut f));
                let key = into_text(pop_field(&mut f));
                let rec = GrantRecord { key, bucket, read, write, owner, state, error_message, updated_at };
                assert(rec@ == grant_of(fv));
                Ok(rec)
            },
        }
    }

    /// The record as JSON.
    pub fn encode(&self) -> (j: Json)
        ensures
            j@ == encode_grant(self@),
    {
        let mut f: Vec<FieldValue> = Vec::new();
        f.push(FieldValue::Text(self.key.clone()));
        f.push(FieldValue::Text(self.bucket.clone()));
        f.push(FieldValue::Flag(self.read));
        f.push(FieldValue::Flag(self.write));
        f.push(FieldValue::Flag(self.owner));
        f.push(FieldValue::State(self.state));
        f.push(opt_text_field(&self.error_message));
        f.push(stamp_field(&self.updated_at));
        assert(fields_view(f@) =~= grant_fields(self@));
        encode_fields_exec(RecordKind::Grant, &f)
    }
}


/// Whether a field value has the shape its kind calls for and, for a timestamp, reads back.
pub open spec fn value_fits(k: FieldKind, f: FieldValueV) -> bool {
    match k {
        FieldKind::Text => f is Text,
        FieldKind::OptText => f is OptText,
        FieldKind::State => f is State,
        FieldKind::Flag => f is Flag,
        FieldKind::Stamp => f matches FieldValueV::Stamp(t) && timestamp_ok(t),
    }
}

/// Whether a sequence of field values is one a record of kind `rk` can hold.
pub open spec fn fields_fit(rk: RecordKind, f: Seq<FieldValueV>) -> bool {
    &&& f.len() == schema(rk).len()
    &&& forall|i: int| 0 <= i < f.len() ==> value_fits(#[trigger] schema(rk)[i].1, f[i])
}

proof fn lemma_state_names()
    ensures
        state_from_name("requested"@) == Ok::<DesiredState, Seq<char>>(DesiredState::Requested),
        state_from_name("ready"@) == Ok::<DesiredState, Seq<char>>(DesiredState::Ready),
        state_from_name("error"@) == Ok::<DesiredState, Seq<char>>(DesiredState::Error),
{
    reveal_strlit("requested");
    reveal_strlit("ready");
    reveal_strlit("error");
    assert("ready"@.len() != "requested"@.len());
    assert("error"@[0] != "requested"@[0]);
    assert("error"@[0] != "ready"@[0]);
}

proof fn lemma_field_roundtrip(k: FieldKind, f: FieldValueV)
    requires
        value_fits(k, f),
    ensures
        decode_field(k, field_json(f)) == Ok::<FieldValueV, Seq<char>>(f),
{
    lemma_state_names();
}

proof fn lemma_field_names(rk: RecordKind, k: int)
    requires
        0 <= k < schema(rk).len(),
    ensures
        field_index(rk, schema(rk)[k].0) == Some(k),
{
    reveal_strlit("name");
    reveal_strlit("state");
    reveal_strlit("garage_bucket_id");
    reveal_strlit("error_message");
    reveal_strlit("updated_at");
    reveal_strlit("access_key_id");
    reveal_strlit("secret_access_key");
    reveal_strlit("key");
    reveal_strlit("bucket");
    reveal_strlit("read");
    reveal_strlit("write");
    reveal_strlit("owner");
    reveal_with_fuel(field_index_from, 9);
    let sch = schema(rk);
    assert forall|j: int| 0 <= j < k implies sch[j].0 != sch[k].0 by {
        assert(sch[j].0.len() != sch[k].0.len() || sch[j].0[0] != sch[k].0[0]
            || sch[j].0[1] != sch[k].0[1] || sch[j].0[2] != sch[k].0[2]);
    }
    lemma_field_index_first(sch, sch[k].0, 0, k);
}

proof fn lemma_field_index_first(sch: Seq<(Seq<char>, FieldKind)>, key: Seq<char>, i: int, k: int)
    requires
        0 <= i <= k < sch.len(),
        sch[k].0 == key,
        forall|j: int| 0 <= j < k ==> sch[j].0 != key,
    ensures
        field_index_from(sch, key, i) == Some(k),
    decreases k - i,
{
    if i < k {
        lemma_field_index_first(sch, key, i + 1, k);
    }
}

proof fn lemma_members_roundtrip(rk: RecordKind, f: Seq<FieldValueV>, k: int)
    requires
        fields_fit(rk, f),
        0 <= k <= schema(rk).len(),
    ensures
        ({
            let n = schema(rk).len() as int;
            let entries = Seq::new(n as nat, |i: int| (schema(rk)[i].0, field_json(f[i])));
            let slots = Seq::new(n as nat, |i: int| if i < k { Some(f[i]) } else { None });
            decode_members(rk, entries.subrange(k, n), slots) == Ok::<Seq<Option<FieldValueV>>, Seq<char>>(
                f.map_values(|x: FieldValueV| Some(x)),
            )
        }),
    decreases schema(rk).len() - k,
{
    let n = schema(rk).len() as int;
    let entries = Seq::new(n as nat, |i: int| (schema(rk)[i].0, field_json(f[i])));
    let slots = Seq::new(n as nat, |i: int| if i < k { Some(f[i]) } else { None });
    let rest = entries.subrange(k, n);
    if k == n {
        assert(slots =~= f.map_values(|x: FieldValueV| Some(x)));
    } else {
        lemma_field_names(rk, k);
        assert(rest[0] == (schema(rk)[k].0, field_json(f[k])));
        assert(value_fits(schema(rk)[k].1, f[k]));
        lemma_field_roundtrip(schema(rk)[k].1, f[k]);
        lemma_members_roundtrip(rk, f, k + 1);
        let next = Seq::new(n as nat, |i: int| if i < k + 1 { Some(f[i]) } else { None });
        assert(slots.update(k, Some(f[k])) =~= next);
        assert(rest.drop_first() =~= entries.subrange(k + 1, n));
    }
}

/// Writing a record's fields as JSON and reading them back gives the same fields.
pub proof fn lemma_fields_roundtrip(rk: RecordKind, f: Seq<FieldValueV>)
    requires
        fields_fit(rk, f),
    ensures
        decode_fields(rk, encode_fields(rk, f)) == Ok::<Seq<FieldValueV>, Seq<char>>(f),
{
    let n = schema(rk).len() as int;
    let entries = Seq::new(n as nat, |i: int| (schema(rk)[i].0, field_json(f[i])));
    lemma_members_roundtrip(rk, f, 0);
    assert(entries.subrange(0, n) =~= entries);
    assert(Seq::new(n as nat, |i: int| if i < 0 { Some(f[i]) } else { None }) =~= empty_slots(rk));
    let full = f.map_values(|x: FieldValueV| Some(x));
    lemma_no_missing(rk, full, 0);
    assert(filled(rk, full) =~= f);
}

proof fn lemma_no_missing(rk: RecordKind, slots: Seq<Option<FieldValueV>>, i: int)
    requires
        slots.len() == schema(rk).len(),
        forall|j: int| 0 <= j < slots.len() ==> (#[trigger] slots[j]) is Some,
        0 <= i <= schema(rk).len(),
    ensures
        first_missing_from(rk, slots, i) is None,
    decreases schema(rk).len() - i,
{
    if i < schema(rk).len() {
        lemma_no_missing(rk, slots, i + 1);
    }
}

/// A bucket record written by the controller reads back as the same record.
pub proof fn lemma_bucket_roundtrip(r: BucketRecordV)
    requires
        timestamp_ok(r.updated_at),
    ensures
        decode_bucket(encode_bucket(r)) == Ok::<BucketRecordV, Seq<char>>(r),
{
    lemma_fields_roundtrip(RecordKind::Bucket, bucket_fields(r));
}

/// A key record written by the controller reads back as the same record.
pub proof fn lemma_key_roundtrip(r: KeyRecordV)
    requires
        timestamp_ok(r.updated_at),
    ensures
        decode_key(encode_key(r)) == Ok::<KeyRecordV, Seq<char>>(r),
{
    lemma_fields_roundtrip(RecordKind::Key, key_fields(r));
}

/// A grant record written by the controller reads back as the same record.
pub proof fn lemma_grant_roundtrip(r: GrantRecordV)
    requires
        timestamp_ok(r.updated_at),
    ensures
        decode_grant(encode_grant(r)) == Ok::<GrantRecordV, Seq<char>>(r),
{
    lemma_fields_roundtrip(RecordKind::Grant, grant_fields(r));
}

} // verus!

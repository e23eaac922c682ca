//! One reconciliation pass as a state machine: from each answer of the secret store or of
//! Garage it decides the next request, until the pass ends.
use vstd::prelude::*;
use vstd::string::*;
use crate::error::{error_text, resource_quoting, resource_with_cause, AppError, AppErrorV};
use crate::garage::{Bucket, BucketV, GarageKey, GarageKeyV, KeyLookup, KeyLookupV};
use crate::json::{
    find_member, get, insert_member, insert_member_exec, lemma_object_view, member, members_view, Json, JsonV,
};
use crate::model::{
    decode_bucket, decode_grant, decode_key, encode_bucket, encode_grant, encode_key, now_rfc3339,
    opt_view, requested, rfc3339_error, BucketRecord, BucketRecordV, DesiredState, GrantRecord,
    GrantRecordV, KeyRecord, KeyRecordV, is_requested,
};
use crate::openbao::{all_path, namespaced, opt_json_view, strings_view};
use crate::text::{
    lemma_after_last_suffix, lemma_split_double_dash, after_last, after_last_char, owned, split_double_dash, split_once_double_dash, trim_end_char,
    trim_end_matches_char,
};

verus! {

/// The three kinds of entries a pass works through, in this order.
#[derive(Debug, Clone, Copy, PartialEq, Eq, Structural)]
pub enum Section {
    Buckets,
    Keys,
    Grants,
}

/// The name of a section's directory in the secret store.
pub open spec fn section_name(s: Section) -> Seq<char> {
    match s {
        Section::Buckets => "buckets"@,
        Section::Keys => "keys"@,
        Section::Grants => "grants"@,
    }
}

pub fn section_text(s: Section) -> (t: &'static str)
    ensures
        t@ == section_name(s),
{
    match s {
        Section::Buckets => "buckets",
        Section::Keys => "keys",
        Section::Grants => "grants",
    }
}

/// Settings of the controller that decide what a pass does.
#[derive(Debug)]
pub struct Reconciler {
    /// The directory in the secret store that holds the records.
    pub bao_prefix: String,
    /// The namespaces, outermost first, that paths are placed in.
    pub namespaces: Vec<String>,
    /// When set, nothing is created, granted or written.
    pub dry_run: bool,
}

pub struct ReconcilerV {
    pub prefix: Seq<char>,
    pub namespaces: Seq<Seq<char>>,
    pub dry_run: bool,
}

impl View for Reconciler {
    type V = ReconcilerV;

    open spec fn view(&self) -> ReconcilerV {
        ReconcilerV { prefix: self.bao_prefix@, namespaces: strings_view(self.namespaces@), dry_run: self.dry_run }
    }
}

/// The path whose entries a section lists.
pub open spec fn list_path(cfg: ReconcilerV, s: Section) -> Seq<char> {
    namespaced(cfg.namespaces, cfg.prefix + "/"@ + section_name(s))
}

/// The path of the record a listed entry names (the entry without trailing slashes).
pub open spec fn record_path(cfg: ReconcilerV, s: Section, entry: Seq<char>) -> Seq<char> {
    namespaced(cfg.namespaces, cfg.prefix + "/"@ + section_name(s) + "/"@ + trim_end_char(entry, '/'))
}

/// A request the pass needs answered next, or its end.
#[derive(Debug)]
pub enum Action {
    /// Ask Garage for its status.
    GetStatus,
    /// List the entries under a path of the secret store.
    List { path: String },
    /// Read the secret at a path.
    ReadSecret { path: String },
    /// Write a secret.
    WriteSecret { path: String, data: Json },
    /// Find a bucket by alias or name.
    LookupBucket { name: String },
    /// Create a bucket with a global alias.
    CreateBucket { name: String },
    /// Find the keys with a name.
    LookupKey { name: String },
    /// Create a key with a name.
    CreateKey { name: String },
    /// Grant a key permissions on a bucket.
    AllowBucketKey { bucket_id: String, access_key_id: String, read: bool, write: bool, owner: bool },
    /// The pass is over, with this outcome.
    Finish { result: Result<(), AppError> },
}

/// The answer to the last request.
#[derive(Debug)]
pub enum Event {
    Status(Result<(), AppError>),
    Listed(Result<Vec<String>, AppError>),
    SecretRead(Result<Option<Json>, AppError>),
    SecretWritten(Result<(), AppError>),
    BucketFound(Result<Option<Bucket>, AppError>),
    BucketCreated(Result<Bucket, AppError>),
    KeyFound(Result<KeyLookup, AppError>),
    KeyCreated(Result<GarageKey, AppError>),
    Allowed(Result<(), AppError>),
}

pub enum ActionV {
    GetStatus,
    List { path: Seq<char> },
    ReadSecret { path: Seq<char> },
    WriteSecret { path: Seq<char>, data: JsonV },
    LookupBucket { name: Seq<char> },
    CreateBucket { name: Seq<char> },
    LookupKey { name: Seq<char> },
    CreateKey { name: Seq<char> },
    AllowBucketKey { bucket_id: Seq<char>, access_key_id: Seq<char>, read: bool, write: bool, owner: bool },
    Finish { result: Result<(), AppErrorV> },
}

pub enum EventV {
    Status(Result<(), AppErrorV>),
    Listed(Result<Seq<Seq<char>>, AppErrorV>),
    SecretRead(Result<Option<JsonV>, AppErrorV>),
    SecretWritten(Result<(), AppErrorV>),
    BucketFound(Result<Option<BucketV>, AppErrorV>),
    BucketCreated(Result<BucketV, AppErrorV>),
    KeyFound(Result<KeyLookupV, AppErrorV>),
    KeyCreated(Result<GarageKeyV, AppErrorV>),
    Allowed(Result<(), AppErrorV>),
}

pub open spec fn unit_result_view(r: Result<(), AppError>) -> Result<(), AppErrorV> {
    match r {
        Ok(()) => Ok(()),
        Err(e) => Err(e@),
    }
}

impl View for Action {
    type V = ActionV;

    open spec fn view(&self) -> ActionV {
        match self {
            Action::GetStatus => ActionV::GetStatus,
            Action::List { path } => ActionV::List { path: path@ },
            Action::ReadSecret { path } => ActionV::ReadSecret { path: path@ },
            Action::WriteSecret { path, data } => ActionV::WriteSecret { path: path@, data: data@ },
            Action::LookupBucket { name } => ActionV::LookupBucket { name: name@ },
            Action::CreateBucket { name } => ActionV::CreateBucket { name: name@ },
            Action::LookupKey { name } => ActionV::LookupKey { name: name@ },
            Action::CreateKey { name } => ActionV::CreateKey { name: name@ },
            Action::AllowBucketKey { bucket_id, access_key_id, read, write, owner } => ActionV::AllowBucketKey {
                bucket_id: bucket_id@,
                access_key_id: access_key_id@,
                read: *read,
                write: *write,
                owner: *owner,
            },
            Action::Finish { result } => ActionV::Finish { result: unit_result_view(*result) },
        }
    }
}

impl View for Event {
    type V = EventV;

    open spec fn view(&self) -> EventV {
        match self {
            Event::Status(r) => EventV::Status(unit_result_view(*r)),
            Event::Listed(r) => EventV::Listed(
                match r {
                    Ok(v) => Ok(strings_view(v@)),
                    Err(e) => Err(e@),
                },
            ),
            Event::SecretRead(r) => EventV::SecretRead(
                match r {
                    Ok(Some(j)) => Ok(Some(j@)),
                    Ok(None) => Ok(None),
                    Err(e) => Err(e@),
                },
            ),
            Event::SecretWritten(r) => EventV::SecretWritten(unit_result_view(*r)),
            Event::BucketFound(r) => EventV::BucketFound(
                match r {
                    Ok(Some(b)) => Ok(Some(b@)),
                    Ok(None) => Ok(None),
                    Err(e) => Err(e@),
                },
            ),
            Event::BucketCreated(r) => EventV::BucketCreated(
                match r {
                    Ok(b) => Ok(b@),
                    Err(e) => Err(e@),
                },
            ),
            Event::KeyFound(r) => EventV::KeyFound(
                match r {
                    Ok(l) => Ok(l@),
                    Err(e) => Err(e@),
                },
            ),
            Event::KeyCreated(r) => EventV::KeyCreated(
                match r {
                    Ok(k) => Ok(k@),
                    Err(e) => Err(e@),
                },
            ),
            Event::Allowed(r) => EventV::Allowed(unit_result_view(*r)),
        }
    }
}

/// Where a pass stands: which answer it waits for, and what it holds until then.
#[allow(inconsistent_fields)]
pub enum Stage {
    AwaitStatus,
    AwaitList,
    AwaitRecord { path: String },
    AwaitBucket { path: String, rec: BucketRecord },
    AwaitBucketCreate { path: String, rec: BucketRecord },
    AwaitKey { path: String, rec: KeyRecord },
    AwaitKeyCreate { path: String, rec: KeyRecord },
    AwaitGrantBucket { path: String, rec: GrantRecord },
    AwaitGrantKey { path: String, rec: GrantRecord, bucket_id: String },
    AwaitAllow { path: String, rec: GrantRecord, bucket_id: String, access_key_id: String },
    AwaitWrite { path: String, data: Json },
    AwaitMarkRead { path: String, message: String, stamp: String },
    AwaitMarkWrite { path: String, data: Json },
    Done { result: Result<(), AppError> },
}

#[allow(inconsistent_fields)]
pub enum StageV {
    AwaitStatus,
    AwaitList,
    AwaitRecord { path: Seq<char> },
    AwaitBucket { path: Seq<char>, rec: BucketRecordV },
    AwaitBucketCreate { path: Seq<char>, rec: BucketRecordV },
    AwaitKey { path: Seq<char>, rec: KeyRecordV },
    AwaitKeyCreate { path: Seq<char>, rec: KeyRecordV },
    AwaitGrantBucket { path: Seq<char>, rec: GrantRecordV },
    AwaitGrantKey { path: Seq<char>, rec: GrantRecordV, bucket_id: Seq<char> },
    AwaitAllow { path: Seq<char>, rec: GrantRecordV, bucket_id: Seq<char>, access_key_id: Seq<char> },
    AwaitWrite { path: Seq<char>, data: JsonV },
    AwaitMarkRead { path: Seq<char>, message: Seq<char>, stamp: Seq<char> },
    AwaitMarkWrite { path: Seq<char>, data: JsonV },
    Done { result: Result<(), AppErrorV> },
}

impl View for Stage {
    type V = StageV;

    open spec fn view(&self) -> StageV {
        match self {
            Stage::AwaitStatus => StageV::AwaitStatus,
            Stage::AwaitList => StageV::AwaitList,
            Stage::AwaitRecord { path } => StageV::AwaitRecord { path: path@ },
            Stage::AwaitBucket { path, rec } => StageV::AwaitBucket { path: path@, rec: rec@ },
            Stage::AwaitBucketCreate { path, rec } => StageV::AwaitBucketCreate { path: path@, rec: rec@ },
            Stage::AwaitKey { path, rec } => StageV::AwaitKey { path: path@, rec: rec@ },
            Stage::AwaitKeyCreate { path, rec } => StageV::AwaitKeyCreate { path: path@, rec: rec@ },
            Stage::AwaitGrantBucket { path, rec } => StageV::AwaitGrantBucket { path: path@, rec: rec@ },
            Stage::AwaitGrantKey { path, rec, bucket_id } => StageV::AwaitGrantKey {
                path: path@,
                rec: rec@,
                bucket_id: bucket_id@,
            },
            Stage::AwaitAllow { path, rec, bucket_id, access_key_id } => StageV::AwaitAllow {
                path: path@,
                rec: rec@,
                bucket_id: bucket_id@,
                access_key_id: access_key_id@,
            },
            Stage::AwaitWrite { path, data } => StageV::AwaitWrite { path: path@, data: data@ },
            Stage::AwaitMarkRead { path, message, stamp } => StageV::AwaitMarkRead {
                path: path@,
                message: message@,
                stamp: stamp@,
            },
            Stage::AwaitMarkWrite { path, data } => StageV::AwaitMarkWrite { path: path@, data: data@ },
            Stage::Done { result } => StageV::Done { result: unit_result_view(*result) },
        }
    }
}

/// Whether a stage belongs to the handling of one listed entry.
pub open spec fn at_entry(st: StageV) -> bool {
    !(st is AwaitStatus || st is AwaitList || st is Done)
}

/// What holds of every state of a pass: the entry it is at is one of the listed entries while
/// it handles one, and it waits for the status only at the start and for a listing only at the
/// start of a section.
pub open spec fn pass_ok(p: PassV) -> bool {
    &&& 0 <= p.index <= p.entries.len()
    &&& at_entry(p.stage) ==> p.index < p.entries.len()
    &&& p.stage is AwaitStatus ==> p.section == Section::Buckets && p.index == 0
    &&& p.stage is AwaitList ==> p.index == 0
}

/// The state of a pass: the section it works through, that section's entries, the entry it
/// is at, and its stage.
pub struct Pass {
    section: Section,
    entries: Vec<String>,
    index: usize,
    stage: Stage,
}

pub struct PassV {
    pub section: Section,
    pub entries: Seq<Seq<char>>,
    pub index: int,
    pub stage: StageV,
}

impl View for Pass {
    type V = PassV;

    closed spec fn view(&self) -> PassV {
        PassV { section: self.section, entries: strings_view(self.entries@), index: self.index as int, stage: self.stage@ }
    }
}

impl Pass {
    #[verifier::type_invariant]
    closed spec fn well_formed(self) -> bool {
        pass_ok(self@)
    }

    /// Whether the pass is over.
    pub fn is_done(&self) -> (b: bool)
        ensures
            b == (self@.stage is Done),
            pass_ok(self@),
    {
        proof {
            use_type_invariant(self);
        }
        match self.stage {
            Stage::Done { .. } => true,
            _ => false,
        }
    }
}

/// The request a pass in state `p` waits to have answered.
pub open spec fn pending(cfg: ReconcilerV, p: PassV) -> ActionV {
    match p.stage {
        StageV::AwaitStatus => ActionV::GetStatus,
        StageV::AwaitList => ActionV::List { path: list_path(cfg, p.section) },
        StageV::AwaitRecord { path } => ActionV::ReadSecret { path },
        StageV::AwaitBucket { rec, .. } => ActionV::LookupBucket { name: rec.name },
        StageV::AwaitBucketCreate { rec, .. } => ActionV::CreateBucket { name: rec.name },
        StageV::AwaitKey { rec, .. } => ActionV::LookupKey { name: rec.name },
        StageV::AwaitKeyCreate { rec, .. } => ActionV::CreateKey { name: rec.name },
        StageV::AwaitGrantBucket { rec, .. } => ActionV::LookupBucket { name: rec.bucket },
        StageV::AwaitGrantKey { rec, .. } => ActionV::LookupKey { name: rec.key },
        StageV::AwaitAllow { rec, bucket_id, access_key_id, .. } => ActionV::AllowBucketKey {
            bucket_id,
            access_key_id,
            read: rec.read,
            write: rec.write,
            owner: rec.owner,
        },
        StageV::AwaitWrite { path, data } => ActionV::WriteSecret { path, data },
        StageV::AwaitMarkRead { path, .. } => ActionV::ReadSecret { path },
        StageV::AwaitMarkWrite { path, data } => ActionV::WriteSecret { path, data },
        StageV::Done { result } => ActionV::Finish { result },
    }
}

pub open spec fn with_stage(p: PassV, st: StageV) -> PassV {
    PassV { stage: st, ..p }
}

/// Starting at entry `i` of a section: read its record, or go on to the next section, or end.
pub open spec fn begin_entry(cfg: ReconcilerV, s: Section, entries: Seq<Seq<char>>, i: int) -> PassV {
    if 0 <= i < entries.len() {
        PassV { section: s, entries, index: i, stage: StageV::AwaitRecord { path: record_path(cfg, s, entries[i]) } }
    } else {
        match s {
            Section::Buckets => PassV { section: Section::Keys, entries: Seq::empty(), index: 0, stage: StageV::AwaitList },
            Section::Keys => PassV { section: Section::Grants, entries: Seq::empty(), index: 0, stage: StageV::AwaitList },
            Section::Grants => PassV { section: s, entries, index: i, stage: StageV::Done { result: Ok(()) } },
        }
    }
}

/// Done with the current entry.
pub open spec fn entry_done(cfg: ReconcilerV, p: PassV) -> PassV {
    begin_entry(cfg, p.section, p.entries, p.index + 1)
}

/// The current entry failed with `e`: its record is marked as failed, or in a dry run the
/// pass goes on.
pub open spec fn entry_failed(cfg: ReconcilerV, p: PassV, path: Seq<char>, e: AppErrorV, now: Seq<char>) -> PassV {
    if cfg.dry_run {
        entry_done(cfg, p)
    } else {
        with_stage(p, StageV::AwaitMarkRead { path, message: error_text(e), stamp: now })
    }
}

/// The last segment of a path, when it is not empty.
pub open spec fn inferred_segment(path: Seq<char>) -> Option<Seq<char>> {
    let s = after_last(path, '/');
    if s.len() == 0 {
        None
    } else {
        Some(s)
    }
}

/// A record without a `name` takes the last segment of its path as its name.
pub open spec fn with_inferred_name(raw: JsonV, path: Seq<char>, what: Seq<char>) -> Result<JsonV, AppErrorV> {
    if get(raw, "name"@) is None {
        match inferred_segment(path) {
            None => Err(
                AppErrorV::Resource(
                    "cannot infer "@ + what + " name from path '"@ + path + "': missing final segment"@,
                ),
            ),
            Some(n) => Ok(
                match raw {
                    JsonV::Object(e) => JsonV::Object(insert_member(e, "name"@, JsonV::Str(n))),
                    _ => raw,
                },
            ),
        }
    } else {
        Ok(raw)
    }
}

/// A grant without `key` or `bucket` takes them from the last segment of its path, written
/// `<key>--<bucket>`.
pub open spec fn with_inferred_grant(raw: JsonV, path: Seq<char>) -> Result<JsonV, AppErrorV> {
    if get(raw, "key"@) is None || get(raw, "bucket"@) is None {
        match inferred_segment(path) {
            None => Err(
                AppErrorV::Resource("cannot infer grant fields from path '"@ + path + "': missing final segment"@),
            ),
            Some(seg) => Ok(
                match split_double_dash(seg) {
                    Some((k, b)) => match raw {
                        JsonV::Object(e) => {
                            let e1 = if member(e, "key"@) is None {
                                insert_member(e, "key"@, JsonV::Str(k))
                            } else {
                                e
                            };
                            let e2 = if member(e1, "bucket"@) is None {
                                insert_member(e1, "bucket"@, JsonV::Str(b))
                            } else {
                                e1
                            };
                            JsonV::Object(e2)
                        },
                        _ => raw,
                    },
                    None => raw,
                },
            ),
        }
    } else {
        Ok(raw)
    }
}

/// A bucket or key record without `name` takes the last segment of its path as its name, and
/// nothing else changes; a record with a `name` is left as it is; a path ending in `/` has no
/// name to give, which is an error.
pub proof fn lemma_name_from_path(raw: JsonV, pre: Seq<char>, seg: Seq<char>, what: Seq<char>)
    requires
        raw is Object,
        !seg.contains('/'),
    ensures
        get(raw, "name"@) is Some ==> with_inferred_name(raw, pre + "/"@ + seg, what) == Ok::<JsonV, AppErrorV>(raw),
        get(raw, "name"@) is None && seg.len() > 0 ==> (with_inferred_name(raw, pre + "/"@ + seg, what) matches Ok(v) && {
            &&& get(v, "name"@) == Some(JsonV::Str(seg))
            &&& forall|m: Seq<char>| m != "name"@ ==> #[trigger] get(v, m) == get(raw, m)
        }),
        get(raw, "name"@) is None && seg.len() == 0 ==> with_inferred_name(raw, pre + "/"@ + seg, what) is Err,
{
    reveal_strlit("/");
    let path = pre + "/"@ + seg;
    assert(path =~= pre.push('/') + seg);
    lemma_after_last_suffix(pre, seg, '/');
    let e = raw->Object_0;
    crate::json::lemma_member_of_insert(e, "name"@, JsonV::Str(seg), "name"@);
    assert forall|m: Seq<char>| m != "name"@ implies #[trigger] get(
        JsonV::Object(insert_member(e, "name"@, JsonV::Str(seg))),
        m,
    ) == get(raw, m) by {
        crate::json::lemma_member_of_insert(e, "name"@, JsonV::Str(seg), m);
    }
}

/// A grant record missing `key`, `bucket` or both takes each missing one from the last path
/// segment `<k>--<b>`: `key` from `k`, `bucket` from `b`. What the record holds stays as it
/// is, and no other member changes. (`k` must not itself hold `"--"` or end in `-`, or the
/// first `"--"` falls elsewhere.)
pub proof fn lemma_grant_fields_from_path(raw: JsonV, pre: Seq<char>, k: Seq<char>, b: Seq<char>)
    requires
        raw is Object,
        !k.contains('/'),
        !b.contains('/'),
        forall|j: int| 0 <= j < k.len() - 1 ==> !(#[trigger] k[j] == '-' && k[j + 1] == '-'),
        k.len() > 0 ==> k.last() != '-',
    ensures
        with_inferred_grant(raw, pre + "/"@ + k + "--"@ + b) matches Ok(v) && {
            &&& get(v, "key"@) == if get(raw, "key"@) is Some {
                get(raw, "key"@)
            } else {
                Some(JsonV::Str(k))
            }
            &&& get(v, "bucket"@) == if get(raw, "bucket"@) is Some {
                get(raw, "bucket"@)
            } else {
                Some(JsonV::Str(b))
            }
            &&& forall|m: Seq<char>| m != "key"@ && m != "bucket"@ ==> #[trigger] get(v, m) == get(raw, m)
        },
{
    reveal_strlit("/");
    reveal_strlit("--");
    reveal_strlit("key");
    reveal_strlit("bucket");
    assert("key"@ != "bucket"@) by {
        assert("key"@[0] != "bucket"@[0]);
    }
    let seg = k + "--"@ + b;
    let path = pre + "/"@ + k + "--"@ + b;
    assert(path =~= pre.push('/') + seg);
    assert(!seg.contains('/')) by {
        if seg.contains('/') {
            let i = choose|i: int| 0 <= i < seg.len() && seg[i] == '/';
            if i < k.len() {
                assert(k[i] == '/');
            } else if i >= k.len() + 2 {
                assert(b[i - k.len() - 2] == '/');
            }
        }
    }
    lemma_after_last_suffix(pre, seg, '/');
    assert(inferred_segment(path) == Some(seg));
    assert(seg =~= k + seq!['-', '-'] + b);
    lemma_split_double_dash(k, b);
    let e = raw->Object_0;
    if get(raw, "key"@) is None || get(raw, "bucket"@) is None {
        let e1 = if member(e, "key"@) is None {
            insert_member(e, "key"@, JsonV::Str(k))
        } else {
            e
        };
        let e2 = if member(e1, "bucket"@) is None {
            insert_member(e1, "bucket"@, JsonV::Str(b))
        } else {
            e1
        };
        assert(with_inferred_grant(raw, path) == Ok::<JsonV, AppErrorV>(JsonV::Object(e2)));
        crate::json::lemma_member_of_insert(e, "key"@, JsonV::Str(k), "key"@);
        crate::json::lemma_member_of_insert(e, "key"@, JsonV::Str(k), "bucket"@);
        crate::json::lemma_member_of_insert(e1, "bucket"@, JsonV::Str(b), "bucket"@);
        crate::json::lemma_member_of_insert(e1, "bucket"@, JsonV::Str(b), "key"@);
        assert forall|m: Seq<char>| m != "key"@ && m != "bucket"@ implies #[trigger] get(JsonV::Object(e2), m) == get(
            raw,
            m,
        ) by {
            crate::json::lemma_member_of_insert(e, "key"@, JsonV::Str(k), m);
            crate::json::lemma_member_of_insert(e1, "bucket"@, JsonV::Str(b), m);
        }
    }
}

/// The error for a record that does not decode.
pub open spec fn decode_error(what: Seq<char>, path: Seq<char>, m: Seq<char>) -> AppErrorV {
    AppErrorV::Resource("decode "@ + what + " record '"@ + path + "': json error: "@ + m)
}

/// A bucket that exists now: its record becomes ready and is written, unless in a dry run.
pub open spec fn bucket_ready(cfg: ReconcilerV, p: PassV, path: Seq<char>, rec: BucketRecordV, id: Seq<char>, now: Seq<char>) -> PassV {
    let r = BucketRecordV {
        state: Some(DesiredState::Ready),
        garage_bucket_id: Some(id),
        error_message: None,
        updated_at: Some(now),
        ..rec
    };
    if cfg.dry_run {
        entry_done(cfg, p)
    } else {
        with_stage(p, StageV::AwaitWrite { path, data: encode_bucket(r) })
    }
}

/// A key that exists now: its record becomes ready and is written, unless in a dry run.
pub open spec fn key_ready(cfg: ReconcilerV, p: PassV, path: Seq<char>, rec: KeyRecordV, now: Seq<char>) -> PassV {
    let r = KeyRecordV { state: Some(DesiredState::Ready), error_message: None, updated_at: Some(now), ..rec };
    if cfg.dry_run {
        entry_done(cfg, p)
    } else {
        with_stage(p, StageV::AwaitWrite { path, data: encode_key(r) })
    }
}

/// A grant that was applied: its record becomes ready and is written, unless in a dry run.
pub open spec fn grant_ready(cfg: ReconcilerV, p: PassV, path: Seq<char>, rec: GrantRecordV, now: Seq<char>) -> PassV {
    let r = GrantRecordV { state: Some(DesiredState::Ready), error_message: None, updated_at: Some(now), ..rec };
    if cfg.dry_run {
        entry_done(cfg, p)
    } else {
        with_stage(p, StageV::AwaitWrite { path, data: encode_grant(r) })
    }
}

/// What follows reading the record at `path`.
pub open spec fn after_record_read(cfg: ReconcilerV, p: PassV, path: Seq<char>, r: Result<Option<JsonV>, AppErrorV>, now: Seq<char>) -> PassV {
    match p.section {
        Section::Buckets => match r {
            Err(e) => entry_failed(cfg, p, path, e, now),
            Ok(None) => entry_done(cfg, p),
            Ok(Some(raw)) => match with_inferred_name(raw, path, "bucket"@) {
                Err(e) => entry_failed(cfg, p, path, e, now),
                Ok(v) => match decode_bucket(v) {
                    Err(m) => entry_failed(cfg, p, path, decode_error("bucket"@, path, m), now),
                    Ok(rec) => if !requested(rec.state) {
                        entry_done(cfg, p)
                    } else {
                        with_stage(p, StageV::AwaitBucket { path, rec })
                    },
                },
            },
        },
        Section::Keys => match r {
            Err(e) => entry_failed(
                cfg,
                p,
                path,
                AppErrorV::Resource("read key record '"@ + path + "': "@ + error_text(e)),
                now,
            ),
            Ok(None) => entry_done(cfg, p),
            Ok(Some(raw)) => match with_inferred_name(raw, path, "key"@) {
                Err(e) => entry_failed(cfg, p, path, e, now),
                Ok(v) => match decode_key(v) {
                    Err(m) => entry_failed(cfg, p, path, decode_error("key"@, path, m), now),
                    Ok(rec) => if !requested(rec.state) {
                        entry_done(cfg, p)
                    } else {
                        with_stage(p, StageV::AwaitKey { path, rec })
                    },
                },
            },
        },
        Section::Grants => match r {
            Err(e) => entry_failed(cfg, p, path, e, now),
            Ok(None) => entry_done(cfg, p),
            Ok(Some(raw)) => match with_inferred_grant(raw, path) {
                Err(e) => entry_failed(cfg, p, path, e, now),
                Ok(v) => match decode_grant(v) {
                    Err(m) => entry_failed(cfg, p, path, decode_error("grant"@, path, m), now),
                    Ok(rec) => if !requested(rec.state) {
                        entry_done(cfg, p)
                    } else {
                        with_stage(p, StageV::AwaitGrantBucket { path, rec })
                    },
                },
            },
        },
    }
}

/// The members an error mark starts from: those of an existing object, else none.
pub open spec fn marked_base(existing: Option<JsonV>) -> Seq<(Seq<char>, JsonV)> {
    match existing {
        Some(JsonV::Object(e)) => e,
        _ => Seq::empty(),
    }
}

/// The record that marks a failed entry: the existing object, or an empty one, with
/// `error_message`, `state` and `updated_at` set.
pub open spec fn error_marked(existing: Option<JsonV>, message: Seq<char>, stamp: Seq<char>) -> JsonV {
    let base = marked_base(existing);
    JsonV::Object(
        insert_member(
            insert_member(insert_member(base, "error_message"@, JsonV::Str(message)), "state"@, JsonV::Str("error"@)),
            "updated_at"@,
            JsonV::Str(stamp),
        ),
    )
}

/// The next state of a pass in state `p` once `ev` answers its pending request; `now` is the
/// time stamped on records written at this step. An answer to a request other than the
/// pending one leaves the state as it is.
pub open spec fn next_pass(cfg: ReconcilerV, p: PassV, ev: EventV, now: Seq<char>) -> PassV {
    match (p.stage, ev) {
        (StageV::AwaitStatus, EventV::Status(r)) => match r {
            Ok(()) => PassV { section: Section::Buckets, entries: Seq::empty(), index: 0, stage: StageV::AwaitList },
            Err(e) => with_stage(p, StageV::Done { result: Err(e) }),
        },
        (StageV::AwaitList, EventV::Listed(r)) => match r {
            Ok(entries) => begin_entry(cfg, p.section, entries, 0),
            Err(e) => with_stage(p, StageV::Done { result: Err(e) }),
        },
        (StageV::AwaitRecord { path }, EventV::SecretRead(r)) => after_record_read(cfg, p, path, r, now),
        (StageV::AwaitBucket { path, rec }, EventV::BucketFound(r)) => match r {
            Err(e) => entry_failed(
                cfg,
                p,
                path,
                AppErrorV::Resource("lookup bucket '"@ + rec.name + "': "@ + error_text(e)),
                now,
            ),
            Ok(Some(b)) => bucket_ready(cfg, p, path, rec, b.id, now),
            Ok(None) => if cfg.dry_run {
                bucket_ready(cfg, p, path, rec, "dry-run-bucket-id"@, now)
            } else {
                with_stage(p, StageV::AwaitBucketCreate { path, rec })
            },
        },
        (StageV::AwaitBucketCreate { path, rec }, EventV::BucketCreated(r)) => match r {
            Err(e) => entry_failed(
                cfg,
                p,
                path,
                AppErrorV::Resource("create bucket '"@ + rec.name + "': "@ + error_text(e)),
                now,
            ),
            Ok(b) => bucket_ready(cfg, p, path, rec, b.id, now),
        },
        (StageV::AwaitKey { path, rec }, EventV::KeyFound(r)) => match r {
            Err(e) => entry_failed(
                cfg,
                p,
                path,
                AppErrorV::Resource("lookup key '"@ + rec.name + "': "@ + error_text(e)),
                now,
            ),
            Ok(KeyLookupV::Single(k)) => key_ready(
                cfg,
                p,
                path,
                KeyRecordV { access_key_id: Some(k.access_key_id), secret_access_key: k.secret_access_key, ..rec },
                now,
            ),
            Ok(KeyLookupV::Multiple) => entry_done(cfg, p),
            Ok(KeyLookupV::NotFound) => if cfg.dry_run {
                key_ready(
                    cfg,
                    p,
                    path,
                    KeyRecordV {
                        access_key_id: Some("dry-run-access-key-id"@),
                        secret_access_key: Some("dry-run-secret-access-key"@),
                        ..rec
                    },
                    now,
                )
            } else {
                with_stage(p, StageV::AwaitKeyCreate { path, rec })
            },
        },
        (StageV::AwaitKeyCreate { path, rec }, EventV::KeyCreated(r)) => match r {
            Err(e) => entry_failed(
                cfg,
                p,
                path,
                AppErrorV::Resource("create key '"@ + rec.name + "': "@ + error_text(e)),
                now,
            ),
            Ok(k) => key_ready(
                cfg,
                p,
                path,
                KeyRecordV { access_key_id: Some(k.access_key_id), secret_access_key: k.secret_access_key, ..rec },
                now,
            ),
        },
        (StageV::AwaitGrantBucket { path, rec }, EventV::BucketFound(r)) => match r {
            Err(e) => entry_failed(cfg, p, path, e, now),
            Ok(None) => entry_failed(cfg, p, path, AppErrorV::Resource("bucket '"@ + rec.bucket + "' not found"@), now),
            Ok(Some(b)) => with_stage(p, StageV::AwaitGrantKey { path, rec, bucket_id: b.id }),
        },
        (StageV::AwaitGrantKey { path, rec, bucket_id }, EventV::KeyFound(r)) => match r {
            Err(e) => entry_failed(
                cfg,
                p,
                path,
                AppErrorV::Resource("lookup key '"@ + rec.key + "': "@ + error_text(e)),
                now,
            ),
            Ok(KeyLookupV::NotFound) => entry_failed(
                cfg,
                p,
                path,
                AppErrorV::Resource("key '"@ + rec.key + "' not found"@),
                now,
            ),
            Ok(KeyLookupV::Multiple) => entry_failed(
                cfg,
                p,
                path,
                AppErrorV::Resource("multiple keys found for '"@ + rec.key + "'; cannot apply grant safely"@),
                now,
            ),
            Ok(KeyLookupV::Single(k)) => if cfg.dry_run {
                grant_ready(cfg, p, path, rec, now)
            } else {
                with_stage(p, StageV::AwaitAllow { path, rec, bucket_id, access_key_id: k.access_key_id })
            },
        },
        (StageV::AwaitAllow { path, rec, .. }, EventV::Allowed(r)) => match r {
            Err(e) => entry_failed(cfg, p, path, e, now),
            Ok(()) => grant_ready(cfg, p, path, rec, now),
        },
        (StageV::AwaitWrite { path, .. }, EventV::SecretWritten(r)) => match r {
            Ok(()) => entry_done(cfg, p),
            Err(e) => entry_failed(
                cfg,
                p,
                path,
                if p.section == Section::Keys {
                    AppErrorV::Resource("write key status '"@ + path + "': "@ + error_text(e))
                } else {
                    e
                },
                now,
            ),
        },
        (StageV::AwaitMarkRead { path, message, stamp }, EventV::SecretRead(r)) => match r {
            Err(e) => with_stage(p, StageV::Done { result: Err(e) }),
            Ok(existing) => with_stage(p, StageV::AwaitMarkWrite { path, data: error_marked(existing, message, stamp) }),
        },
        (StageV::AwaitMarkWrite { .. }, EventV::SecretWritten(r)) => match r {
            Err(e) => with_stage(p, StageV::Done { result: Err(e) }),
            Ok(()) => entry_done(cfg, p),
        },
        _ => p,
    }
}


fn cannot_infer_name(what: &str, path: &str) -> (e: AppError)
    ensures
        e@ == AppErrorV::Resource("cannot infer "@ + what@ + " name from path '"@ + path@ + "': missing final segment"@),
{
    let mut m = owned("cannot infer ");
    m.append(what);
    m.append(" name from path '");
    m.append(path);
    m.append("': missing final segment");
    assert(m@ =~= "cannot infer "@ + what@ + " name from path '"@ + path@ + "': missing final segment"@);
    AppError::Resource(m)
}

fn decode_error_exec(what: &str, path: &str, m: String) -> (e: AppError)
    ensures
        e@ == decode_error(what@, path@, m@),
{
    let mut t = owned("decode ");
    t.append(what);
    t.append(" record '");
    t.append(path);
    t.append("': json error: ");
    t.append(m.as_str());
    assert(t@ =~= "decode "@ + what@ + " record '"@ + path@ + "': json error: "@ + m@);
    AppError::Resource(t)
}

fn inferred_segment_exec(path: &str) -> (r: Option<String>)
    ensures
        opt_view(r) == inferred_segment(path@),
{
    let s = after_last_char(path, '/');
    if s.as_str().unicode_len() == 0 {
        None
    } else {
        Some(s)
    }
}

fn with_inferred_name_exec(raw: Json, path: &str, what: &str) -> (r: Result<Json, AppError>)
    ensures
        match r {
            Ok(v) => with_inferred_name(raw@, path@, what@) == Ok::<JsonV, AppErrorV>(v@),
            Err(e) => with_inferred_name(raw@, path@, what@) == Err::<JsonV, AppErrorV>(e@),
        },
{
    if raw.get_member("name").is_none() {
        match inferred_segment_exec(path) {
            None => Err(cannot_infer_name(what, path)),
            Some(n) => match raw {
                Json::Object(e) => {
                    let mut e = e;
                    proof {
                        lemma_object_view(e);
                    }
                    insert_member_exec(&mut e, owned("name"), Json::Str(n));
                    proof {
                        lemma_object_view(e);
                    }
                    Ok(Json::Object(e))
                },
                other => Ok(other),
            },
        }
    } else {
        Ok(raw)
    }
}

fn with_inferred_grant_exec(raw: Json, path: &str) -> (r: Result<Json, AppError>)
    ensures
        match r {
            Ok(v) => with_inferred_grant(raw@, path@) == Ok::<JsonV, AppErrorV>(v@),
            Err(e) => with_inferred_grant(raw@, path@) == Err::<JsonV, AppErrorV>(e@),
        },
{
    if raw.get_member("key").is_none() || raw.get_member("bucket").is_none() {
        let seg = match inferred_segment_exec(path) {
            None => {
                return Err(resource_quoting("cannot infer grant fields from path '", path, "': missing final segment"));
            },
            Some(seg) => seg,
        };
        match split_once_double_dash(seg.as_str()) {
            None => Ok(raw),
            Some((k, b)) => match raw {
                Json::Object(e) => {
                    let mut e = e;
                    proof {
                        lemma_object_view(e);
                    }
                    if find_member(&e, "key").is_none() {
                        insert_member_exec(&mut e, owned("key"), Json::Str(k));
                    }
                    if find_member(&e, "bucket").is_none() {
                        insert_member_exec(&mut e, owned("bucket"), Json::Str(b));
                    }
                    proof {
                        lemma_object_view(e);
                    }
                    Ok(Json::Object(e))
                },
                other => Ok(other),
            },
        }
    } else {
        Ok(raw)
    }
}


/// The record that marks a failed entry.
pub fn error_marked_exec(existing: Option<Json>, message: String, stamp: String) -> (j: Json)
    ensures
        j@ == error_marked(opt_json_view(existing), message@, stamp@),
{
    let ghost base = marked_base(opt_json_view(existing));
    let mut e: Vec<(String, Json)> = match existing {
        Some(Json::Object(e)) => {
            proof {
                lemma_object_view(e);
            }
            e
        },
        _ => {
            let e: Vec<(String, Json)> = Vec::new();
            assert(members_view(e@) =~= Seq::<(Seq<char>, JsonV)>::empty());
            e
        },
    };
    assert(members_view(e@) == base);
    insert_member_exec(&mut e, owned("error_message"), Json::Str(message));
    insert_member_exec(&mut e, owned("state"), Json::Str(owned("error")));
    insert_member_exec(&mut e, owned("updated_at"), Json::Str(stamp));
    proof {
        lemma_object_view(e);
    }
    Json::Object(e)
}

impl Reconciler {
    /// The path whose entries a section lists.
    pub fn list_path_of(&self, s: Section) -> (p: String)
        ensures
            p@ == list_path(self@, s),
    {
        let mut base = self.bao_prefix.clone();
        base.append("/");
        base.append(section_text(s));
        all_path(&self.namespaces, base.as_str())
    }

    /// The path of the record an entry of a section names.
    pub fn record_path_of(&self, s: Section, entry: &str) -> (p: String)
        ensures
            p@ == record_path(self@, s, entry@),
    {
        let mut base = self.bao_prefix.clone();
        base.append("/");
        base.append(section_text(s));
        base.append("/");
        let name = trim_end_matches_char(entry, '/');
        base.append(name.as_str());
        all_path(&self.namespaces, base.as_str())
    }

    fn begin_entry_exec(&self, s: Section, entries: Vec<String>, i: usize) -> (p: Pass)
        requires
            i <= entries@.len(),
        ensures
            p@ == begin_entry(self@, s, strings_view(entries@), i as int),
    {
        if i < entries.len() {
            let path = self.record_path_of(s, entries[i].as_str());
            Pass { section: s, entries, index: i, stage: Stage::AwaitRecord { path } }
        } else {
            match s {
                Section::Buckets => {
                    let empty: Vec<String> = Vec::new();
                    let p = Pass { section: Section::Keys, entries: empty, index: 0, stage: Stage::AwaitList };
                    assert(p@.entries =~= Seq::<Seq<char>>::empty());
                    p
                },
                Section::Keys => {
                    let empty: Vec<String> = Vec::new();
                    let p = Pass { section: Section::Grants, entries: empty, index: 0, stage: Stage::AwaitList };
                    assert(p@.entries =~= Seq::<Seq<char>>::empty());
                    p
                },
                Section::Grants => Pass { section: s, entries, index: i, stage: Stage::Done { result: Ok(()) } },
            }
        }
    }

    fn entry_done_exec(&self, s: Section, entries: Vec<String>, i: usize) -> (p: Pass)
        requires
            i < entries@.len(),
        ensures
            p@ == begin_entry(self@, s, strings_view(entries@), i + 1),
    {
        let n = entries.len();
        assert(i < n);
        self.begin_entry_exec(s, entries, i + 1)
    }

    fn entry_failed_exec(&self, s: Section, entries: Vec<String>, i: usize, path: String, e: AppError, now: &str) -> (p: Pass)
        requires
            i < entries@.len(),
        ensures
            p@ == if self@.dry_run {
                begin_entry(self@, s, strings_view(entries@), i + 1)
            } else {
                PassV {
                    section: s,
                    entries: strings_view(entries@),
                    index: i as int,
                    stage: StageV::AwaitMarkRead { path: path@, message: error_text(e@), stamp: now@ },
                }
            },
    {
        if self.dry_run {
            self.entry_done_exec(s, entries, i)
        } else {
            let message = e.to_string();
            Pass { section: s, entries, index: i, stage: Stage::AwaitMarkRead { path, message, stamp: owned(now) } }
        }
    }

    fn bucket_ready_exec(
        &self,
        s: Section,
        entries: Vec<String>,
        i: usize,
        path: String,
        rec: BucketRecord,
        id: String,
        now: &str,
    ) -> (p: Pass)
        requires
            i < entries@.len(),
        ensures
            p@ == bucket_ready(
                self@,
                PassV { section: s, entries: strings_view(entries@), index: i as int, stage: StageV::AwaitList },
                path@,
                rec@,
                id@,
                now@,
            ),
    {
        if self.dry_run {
            return self.entry_done_exec(s, entries, i);
        }
        let r = BucketRecord {
            name: rec.name,
            state: Some(DesiredState::Ready),
            garage_bucket_id: Some(id),
            error_message: None,
            updated_at: Some(owned(now)),
        };
        let data = r.encode();
        Pass { section: s, entries, index: i, stage: Stage::AwaitWrite { path, data } }
    }

    fn key_ready_exec(&self, s: Section, entries: Vec<String>, i: usize, path: String, rec: KeyRecord, now: &str) -> (p: Pass)
        requires
            i < entries@.len(),
        ensures
            p@ == key_ready(
                self@,
                PassV { section: s, entries: strings_view(entries@), index: i as int, stage: StageV::AwaitList },
                path@,
                rec@,
                now@,
            ),
    {
        if self.dry_run {
            return self.entry_done_exec(s, entries, i);
        }
        let r = KeyRecord {
            name: rec.name,
            access_key_id: rec.access_key_id,
            secret_access_key: rec.secret_access_key,
            state: Some(DesiredState::Ready),
            error_message: None,
            updated_at: Some(owned(now)),
        };
        let data = r.encode();
        Pass { section: s, entries, index: i, stage: Stage::AwaitWrite { path, data } }
    }

    fn grant_ready_exec(&self, s: Section, entries: Vec<String>, i: usize, path: String, rec: GrantRecord, now: &str) -> (p: Pass)
        requires
            i < entries@.len(),
        ensures
            p@ == grant_ready(
                self@,
                PassV { section: s, entries: strings_view(entries@), index: i as int, stage: StageV::AwaitList },
                path@,
                rec@,
                now@,
            ),
    {
        if self.dry_run {
            return self.entry_done_exec(s, entries, i);
        }
        let r = GrantRecord {
            key: rec.key,
            bucket: rec.bucket,
            read: rec.read,
            write: rec.write,
            owner: rec.owner,
            state: Some(DesiredState::Ready),
            error_message: None,
            updated_at: Some(owned(now)),
        };
        let data = r.encode();
        Pass { section: s, entries, index: i, stage: Stage::AwaitWrite { path, data } }
    }
}


pub open spec fn pass_at(s: Section, entries: Seq<String>, i: usize, st: StageV) -> PassV {
    PassV { section: s, entries: strings_view(entries), index: i as int, stage: st }
}

impl Reconciler {
    fn on_status(&self, s: Section, entries: Vec<String>, i: usize, ev: Event) -> (p: Pass)
        requires
            i <= entries@.len(),
            s == Section::Buckets,
            i == 0,
        ensures
            p@ == next_pass(self@, pass_at(s, entries@, i, StageV::AwaitStatus), ev@, Seq::empty()),
    {
        match ev {
            Event::Status(Ok(())) => {
                let empty: Vec<String> = Vec::new();
                let p = Pass { section: Section::Buckets, entries: empty, index: 0, stage: Stage::AwaitList };
                assert(p@.entries =~= Seq::<Seq<char>>::empty());
                p
            },
            Event::Status(Err(e)) => Pass { section: s, entries, index: i, stage: Stage::Done { result: Err(e) } },
            _ => Pass { section: s, entries, index: i, stage: Stage::AwaitStatus },
        }
    }

    fn on_list(&self, s: Section, entries: Vec<String>, i: usize, ev: Event) -> (p: Pass)
        requires
            i <= entries@.len(),
            i == 0,
        ensures
            p@ == next_pass(self@, pass_at(s, entries@, i, StageV::AwaitList), ev@, Seq::empty()),
    {
        match ev {
            Event::Listed(Ok(listed)) => self.begin_entry_exec(s, listed, 0),
            Event::Listed(Err(e)) => Pass { section: s, entries, index: i, stage: Stage::Done { result: Err(e) } },
            _ => Pass { section: s, entries, index: i, stage: Stage::AwaitList },
        }
    }

    fn on_bucket_record(&self, s: Section, entries: Vec<String>, i: usize, path: String, r: Result<Option<Json>, AppError>, now: &str) -> (p: Pass)
        requires
            i < entries@.len(),
            s == Section::Buckets,
        ensures
            p@ == after_record_read(
                self@,
                pass_at(s, entries@, i, StageV::AwaitRecord { path: path@ }),
                path@,
                match r {
                    Ok(Some(j)) => Ok(Some(j@)),
                    Ok(None) => Ok(None),
                    Err(e) => Err(e@),
                },
                now@,
            ),
    {
        match r {
            Err(e) => self.entry_failed_exec(s, entries, i, path, e, now),
            Ok(None) => self.entry_done_exec(s, entries, i),
            Ok(Some(raw)) => match with_inferred_name_exec(raw, path.as_str(), "bucket") {
                Err(e) => self.entry_failed_exec(s, entries, i, path, e, now),
                Ok(v) => match BucketRecord::decode(&v) {
                    Err(m) => {
                        let e = decode_error_exec("bucket", path.as_str(), m);
                        self.entry_failed_exec(s, entries, i, path, e, now)
                    },
                    Ok(rec) => {
                        if !is_requested(&rec.state) {
                            self.entry_done_exec(s, entries, i)
                        } else {
                            Pass { section: s, entries, index: i, stage: Stage::AwaitBucket { path, rec } }
                        }
                    },
                },
            },
        }
    }

    fn on_key_record(&self, s: Section, entries: Vec<String>, i: usize, path: String, r: Result<Option<Json>, AppError>, now: &str) -> (p: Pass)
        requires
            i < entries@.len(),
            s == Section::Keys,
        ensures
            p@ == after_record_read(
                self@,
                pass_at(s, entries@, i, StageV::AwaitRecord { path: path@ }),
                path@,
                match r {
                    Ok(Some(j)) => Ok(Some(j@)),
                    Ok(None) => Ok(None),
                    Err(e) => Err(e@),
                },
                now@,
            ),
    {
        match r {
            Err(e) => {
                let w = resource_with_cause("read key record '", path.as_str(), "': ", &e);
                self.entry_failed_exec(s, entries, i, path, w, now)
            },
            Ok(None) => self.entry_done_exec(s, entries, i),
            Ok(Some(raw)) => match with_inferred_name_exec(raw, path.as_str(), "key") {
                Err(e) => self.entry_failed_exec(s, entries, i, path, e, now),
                Ok(v) => match KeyRecord::decode(&v) {
                    Err(m) => {
                        let e = decode_error_exec("key", path.as_str(), m);
                        self.entry_failed_exec(s, entries, i, path, e, now)
                    },
                    Ok(rec) => {
                        if !is_requested(&rec.state) {
                            self.entry_done_exec(s, entries, i)
                        } else {
                            Pass { section: s, entries, index: i, stage: Stage::AwaitKey { path, rec } }
                        }
                    },
                },
            },
        }
    }

    fn on_grant_record(&self, s: Section, entries: Vec<String>, i: usize, path: String, r: Result<Option<Json>, AppError>, now: &str) -> (p: Pass)
        requires
            i < entries@.len(),
            s == Section::Grants,
        ensures
            p@ == after_record_read(
                self@,
                pass_at(s, entries@, i, StageV::AwaitRecord { path: path@ }),
                path@,
                match r {
                    Ok(Some(j)) => Ok(Some(j@)),
                    Ok(None) => Ok(None),
                    Err(e) => Err(e@),
                },
                now@,
            ),
    {
        match r {
            Err(e) => self.entry_failed_exec(s, entries, i, path, e, now),
            Ok(None) => self.entry_done_exec(s, entries, i),
            Ok(Some(raw)) => match with_inferred_grant_exec(raw, path.as_str()) {
                Err(e) => self.entry_failed_exec(s, entries, i, path, e, now),
                Ok(v) => match GrantRecord::decode(&v) {
                    Err(m) => {
                        let e = decode_error_exec("grant", path.as_str(), m);
                        self.entry_failed_exec(s, entries, i, path, e, now)
                    },
                    Ok(rec) => {
                        if !is_requested(&rec.state) {
                            self.entry_done_exec(s, entries, i)
                        } else {
                            Pass { section: s, entries, index: i, stage: Stage::AwaitGrantBucket { path, rec } }
                        }
                    },
                },
            },
        }
    }

    fn on_record(&self, s: Section, entries: Vec<String>, i: usize, path: String, ev: Event, now: &str) -> (p: Pass)
        requires
            i < entries@.len(),
        ensures
            p@ == next_pass(self@, pass_at(s, entries@, i, StageV::AwaitRecord { path: path@ }), ev@, now@),
    {
        match ev {
            Event::SecretRead(r) => match s {
                Section::Buckets => self.on_bucket_record(s, entries, i, path, r, now),
                Section::Keys => self.on_key_record(s, entries, i, path, r, now),
                Section::Grants => self.on_grant_record(s, entries, i, path, r, now),
            },
            _ => Pass { section: s, entries, index: i, stage: Stage::AwaitRecord { path } },
        }
    }
}


impl Reconciler {
    fn on_bucket(&self, s: Section, entries: Vec<String>, i: usize, path: String, rec: BucketRecord, ev: Event, now: &str) -> (p: Pass)
        requires
            i < entries@.len(),
        ensures
            p@ == next_pass(self@, pass_at(s, entries@, i, StageV::AwaitBucket { path: path@, rec: rec@ }), ev@, now@),
    {
        match ev {
            Event::BucketFound(Err(e)) => {
                let w = resource_with_cause("lookup bucket '", rec.name.as_str(), "': ", &e);
                self.entry_failed_exec(s, entries, i, path, w, now)
            },
            Event::BucketFound(Ok(Some(b))) => self.bucket_ready_exec(s, entries, i, path, rec, b.id, now),
            Event::BucketFound(Ok(None)) => {
                if self.dry_run {
                    self.bucket_ready_exec(s, entries, i, path, rec, owned("dry-run-bucket-id"), now)
                } else {
                    Pass { section: s, entries, index: i, stage: Stage::AwaitBucketCreate { path, rec } }
                }
            },
            _ => Pass { section: s, entries, index: i, stage: Stage::AwaitBucket { path, rec } },
        }
    }

    fn on_bucket_create(&self, s: Section, entries: Vec<String>, i: usize, path: String, rec: BucketRecord, ev: Event, now: &str) -> (p: Pass)
        requires
            i < entries@.len(),
        ensures
            p@ == next_pass(self@, pass_at(s, entries@, i, StageV::AwaitBucketCreate { path: path@, rec: rec@ }), ev@, now@),
    {
        match ev {
            Event::BucketCreated(Err(e)) => {
                let w = resource_with_cause("create bucket '", rec.name.as_str(), "': ", &e);
                self.entry_failed_exec(s, entries, i, path, w, now)
            },
            Event::BucketCreated(Ok(b)) => self.bucket_ready_exec(s, entries, i, path, rec, b.id, now),
            _ => Pass { section: s, entries, index: i, stage: Stage::AwaitBucketCreate { path, rec } },
        }
    }

    fn on_key(&self, s: Section, entries: Vec<String>, i: usize, path: String, rec: KeyRecord, ev: Event, now: &str) -> (p: Pass)
        requires
            i < entries@.len(),
        ensures
            p@ == next_pass(self@, pass_at(s, entries@, i, StageV::AwaitKey { path: path@, rec: rec@ }), ev@, now@),
    {
        match ev {
            Event::KeyFound(Err(e)) => {
                let w = resource_with_cause("lookup key '", rec.name.as_str(), "': ", &e);
                self.entry_failed_exec(s, entries, i, path, w, now)
            },
            Event::KeyFound(Ok(KeyLookup::Single(k))) => {
                let r = KeyRecord {
                    name: rec.name,
                    access_key_id: Some(k.access_key_id),
                    secret_access_key: k.secret_access_key,
                    state: rec.state,
                    error_message: rec.error_message,
                    updated_at: rec.updated_at,
                };
                self.key_ready_exec(s, entries, i, path, r, now)
            },
            Event::KeyFound(Ok(KeyLookup::Multiple)) => self.entry_done_exec(s, entries, i),
            Event::KeyFound(Ok(KeyLookup::NotFound)) => {
                if self.dry_run {
                    let r = KeyRecord {
                        name: rec.name,
                        access_key_id: Some(owned("dry-run-access-key-id")),
                        secret_access_key: Some(owned("dry-run-secret-access-key")),
                        state: rec.state,
                        error_message: rec.error_message,
                        updated_at: rec.updated_at,
                    };
                    self.key_ready_exec(s, entries, i, path, r, now)
                } else {
                    Pass { section: s, entries, index: i, stage: Stage::AwaitKeyCreate { path, rec } }
                }
            },
            _ => Pass { section: s, entries, index: i, stage: Stage::AwaitKey { path, rec } },
        }
    }

    fn on_key_create(&self, s: Section, entries: Vec<String>, i: usize, path: String, rec: KeyRecord, ev: Event, now: &str) -> (p: Pass)
        requires
            i < entries@.len(),
        ensures
            p@ == next_pass(self@, pass_at(s, entries@, i, StageV::AwaitKeyCreate { path: path@, rec: rec@ }), ev@, now@),
    {
        match ev {
            Event::KeyCreated(Err(e)) => {
                let w = resource_with_cause("create key '", rec.name.as_str(), "': ", &e);
                self.entry_failed_exec(s, entries, i, path, w, now)
            },
            Event::KeyCreated(Ok(k)) => {
                let r = KeyRecord {
                    name: rec.name,
                    access_key_id: Some(k.access_key_id),
                    secret_access_key: k.secret_access_key,
                    state: rec.state,
                    error_message: rec.error_message,
                    updated_at: rec.updated_at,
                };
                self.key_ready_exec(s, entries, i, path, r, now)
            },
            _ => Pass { section: s, entries, index: i, stage: Stage::AwaitKeyCreate { path, rec } },
        }
    }

    fn on_grant_bucket(&self, s: Section, entries: Vec<String>, i: usize, path: String, rec: GrantRecord, ev: Event, now: &str) -> (p: Pass)
        requires
            i < entries@.len(),
        ensures
            p@ == next_pass(self@, pass_at(s, entries@, i, StageV::AwaitGrantBucket { path: path@, rec: rec@ }), ev@, now@),
    {
        match ev {
            Event::BucketFound(Err(e)) => self.entry_failed_exec(s, entries, i, path, e, now),
            Event::BucketFound(Ok(None)) => {
                let w = resource_quoting("bucket '", rec.bucket.as_str(), "' not found");
                self.entry_failed_exec(s, entries, i, path, w, now)
            },
            Event::BucketFound(Ok(Some(b))) => Pass {
                section: s,
                entries,
                index: i,
                stage: Stage::AwaitGrantKey { path, rec, bucket_id: b.id },
            },
            _ => Pass { section: s, entries, index: i, stage: Stage::AwaitGrantBucket { path, rec } },
        }
    }

    fn on_grant_key(&self, s: Section, entries: Vec<String>, i: usize, path: String, rec: GrantRecord, bucket_id: String, ev: Event, now: &str) -> (p: Pass)
        requires
            i < entries@.len(),
        ensures
            p@ == next_pass(
                self@,
                pass_at(s, entries@, i, StageV::AwaitGrantKey { path: path@, rec: rec@, bucket_id: bucket_id@ }),
                ev@,
                now@,
            ),
    {
        match ev {
            Event::KeyFound(Err(e)) => {
                let w = resource_with_cause("lookup key '", rec.key.as_str(), "': ", &e);
                self.entry_failed_exec(s, entries, i, path, w, now)
            },
            Event::KeyFound(Ok(KeyLookup::NotFound)) => {
                let w = resource_quoting("key '", rec.key.as_str(), "' not found");
                self.entry_failed_exec(s, entries, i, path, w, now)
            },
            Event::KeyFound(Ok(KeyLookup::Multiple)) => {
                let w = resource_quoting("multiple keys found for '", rec.key.as_str(), "'; cannot apply grant safely");
                self.entry_failed_exec(s, entries, i, path, w, now)
            },
            Event::KeyFound(Ok(KeyLookup::Single(k))) => {
                if self.dry_run {
                    self.grant_ready_exec(s, entries, i, path, rec, now)
                } else {
                    Pass {
                        section: s,
                        entries,
                        index: i,
                        stage: Stage::AwaitAllow { path, rec, bucket_id, access_key_id: k.access_key_id },
                    }
                }
            },
            _ => Pass { section: s, entries, index: i, stage: Stage::AwaitGrantKey { path, rec, bucket_id } },
        }
    }

    fn on_allow(
        &self,
        s: Section,
        entries: Vec<String>,
        i: usize,
        path: String,
        rec: GrantRecord,
        bucket_id: String,
        access_key_id: String,
        ev: Event,
        now: &str,
    ) -> (p: Pass)
        requires
            i < entries@.len(),
        ensures
            p@ == next_pass(
                self@,
                pass_at(
                    s,
                    entries@,
                    i,
                    StageV::AwaitAllow { path: path@, rec: rec@, bucket_id: bucket_id@, access_key_id: access_key_id@ },
                ),
                ev@,
                now@,
            ),
    {
        match ev {
            Event::Allowed(Err(e)) => self.entry_failed_exec(s, entries, i, path, e, now),
            Event::Allowed(Ok(())) => self.grant_ready_exec(s, entries, i, path, rec, now),
            _ => Pass { section: s, entries, index: i, stage: Stage::AwaitAllow { path, rec, bucket_id, access_key_id } },
        }
    }

    fn on_write(&self, s: Section, entries: Vec<String>, i: usize, path: String, data: Json, ev: Event, now: &str) -> (p: Pass)
        requires
            i < entries@.len(),
        ensures
            p@ == next_pass(self@, pass_at(s, entries@, i, StageV::AwaitWrite { path: path@, data: data@ }), ev@, now@),
    {
        match ev {
            Event::SecretWritten(Ok(())) => self.entry_done_exec(s, entries, i),
            Event::SecretWritten(Err(e)) => {
                if s == Section::Keys {
                    let w = resource_with_cause("write key status '", path.as_str(), "': ", &e);
                    self.entry_failed_exec(s, entries, i, path, w, now)
                } else {
                    self.entry_failed_exec(s, entries, i, path, e, now)
                }
            },
            _ => Pass { section: s, entries, index: i, stage: Stage::AwaitWrite { path, data } },
        }
    }

    fn on_mark_read(&self, s: Section, entries: Vec<String>, i: usize, path: String, message: String, stamp: String, ev: Event) -> (p: Pass)
        requires
            i < entries@.len(),
        ensures
            p@ == next_pass(
                self@,
                pass_at(s, entries@, i, StageV::AwaitMarkRead { path: path@, message: message@, stamp: stamp@ }),
                ev@,
                Seq::empty(),
            ),
    {
        match ev {
            Event::SecretRead(Err(e)) => Pass { section: s, entries, index: i, stage: Stage::Done { result: Err(e) } },
            Event::SecretRead(Ok(existing)) => {
                let data = error_marked_exec(existing, message, stamp);
                Pass { section: s, entries, index: i, stage: Stage::AwaitMarkWrite { path, data } }
            },
            _ => Pass { section: s, entries, index: i, stage: Stage::AwaitMarkRead { path, message, stamp } },
        }
    }

    fn on_mark_write(&self, s: Section, entries: Vec<String>, i: usize, path: String, data: Json, ev: Event) -> (p: Pass)
        requires
            i < entries@.len(),
        ensures
            p@ == next_pass(self@, pass_at(s, entries@, i, StageV::AwaitMarkWrite { path: path@, data: data@ }), ev@, Seq::empty()),
    {
        match ev {
            Event::SecretWritten(Err(e)) => Pass { section: s, entries, index: i, stage: Stage::Done { result: Err(e) } },
            Event::SecretWritten(Ok(())) => self.entry_done_exec(s, entries, i),
            _ => Pass { section: s, entries, index: i, stage: Stage::AwaitMarkWrite { path, data } },
        }
    }
}


fn clone_result(r: &Result<(), AppError>) -> (c: Result<(), AppError>)
    ensures
        unit_result_view(c) == unit_result_view(*r),
{
    match r {
        Ok(()) => Ok(()),
        Err(e) => Err(e.duplicate()),
    }
}

impl Reconciler {
    /// The request a pass waits to have answered.
    pub fn pending_action(&self, p: &Pass) -> (a: Action)
        ensures
            a@ == pending(self@, p@),
    {
        match &p.stage {
            Stage::AwaitStatus => Action::GetStatus,
            Stage::AwaitList => Action::List { path: self.list_path_of(p.section) },
            Stage::AwaitRecord { path } => Action::ReadSecret { path: path.clone() },
            Stage::AwaitBucket { rec, .. } => Action::LookupBucket { name: rec.name.clone() },
            Stage::AwaitBucketCreate { rec, .. } => Action::CreateBucket { name: rec.name.clone() },
            Stage::AwaitKey { rec, .. } => Action::LookupKey { name: rec.name.clone() },
            Stage::AwaitKeyCreate { rec, .. } => Action::CreateKey { name: rec.name.clone() },
            Stage::AwaitGrantBucket { rec, .. } => Action::LookupBucket { name: rec.bucket.clone() },
            Stage::AwaitGrantKey { rec, .. } => Action::LookupKey { name: rec.key.clone() },
            Stage::AwaitAllow { rec, bucket_id, access_key_id, .. } => Action::AllowBucketKey {
                bucket_id: bucket_id.clone(),
                access_key_id: access_key_id.clone(),
                read: rec.read,
                write: rec.write,
                owner: rec.owner,
            },
            Stage::AwaitWrite { path, data } => Action::WriteSecret { path: path.clone(), data: data.duplicate() },
            Stage::AwaitMarkRead { path, .. } => Action::ReadSecret { path: path.clone() },
            Stage::AwaitMarkWrite { path, data } => Action::WriteSecret { path: path.clone(), data: data.duplicate() },
            Stage::Done { result } => Action::Finish { result: clone_result(result) },
        }
    }

    /// The next state of a pass once `event` answers its pending request, with `now` stamped
    /// on the records written.
    pub fn next(&self, pass: Pass, event: Event, now: &str) -> (p: Pass)
        ensures
            p@ == next_pass(self@, pass@, event@, now@),
    {
        proof {
            use_type_invariant(&pass);
        }
        let ghost old_view = pass@;
        let Pass { section, entries, index, stage } = pass;
        assert(old_view == pass_at(section, entries@, index, stage@));
        match stage {
            Stage::AwaitStatus => self.on_status(section, entries, index, event),
            Stage::AwaitList => self.on_list(section, entries, index, event),
            Stage::AwaitRecord { path } => self.on_record(section, entries, index, path, event, now),
            Stage::AwaitBucket { path, rec } => self.on_bucket(section, entries, index, path, rec, event, now),
            Stage::AwaitBucketCreate { path, rec } => self.on_bucket_create(section, entries, index, path, rec, event, now),
            Stage::AwaitKey { path, rec } => self.on_key(section, entries, index, path, rec, event, now),
            Stage::AwaitKeyCreate { path, rec } => self.on_key_create(section, entries, index, path, rec, event, now),
            Stage::AwaitGrantBucket { path, rec } => self.on_grant_bucket(section, entries, index, path, rec, event, now),
            Stage::AwaitGrantKey { path, rec, bucket_id } => self.on_grant_key(
                section,
                entries,
                index,
                path,
                rec,
                bucket_id,
                event,
                now,
            ),
            Stage::AwaitAllow { path, rec, bucket_id, access_key_id } => self.on_allow(
                section,
                entries,
                index,
                path,
                rec,
                bucket_id,
                access_key_id,
                event,
                now,
            ),
            Stage::AwaitWrite { path, data } => self.on_write(section, entries, index, path, data, event, now),
            Stage::AwaitMarkRead { path, message, stamp } => self.on_mark_read(section, entries, index, path, message, stamp, event),
            Stage::AwaitMarkWrite { path, data } => self.on_mark_write(section, entries, index, path, data, event),
            Stage::Done { result } => Pass { section, entries, index, stage: Stage::Done { result } },
        }
    }

    /// The first state of a pass, and its first request: Garage's status.
    pub fn start(&self) -> (r: (Pass, Action))
        ensures
            r.0@ == (PassV { section: Section::Buckets, entries: Seq::empty(), index: 0, stage: StageV::AwaitStatus }),
            r.1@ == pending(self@, r.0@),
    {
        let empty: Vec<String> = Vec::new();
        let p = Pass { section: Section::Buckets, entries: empty, index: 0, stage: Stage::AwaitStatus };
        assert(p@.entries =~= Seq::<Seq<char>>::empty());
        (p, Action::GetStatus)
    }

    /// Takes one step of a pass: the next state once `event` answers the pending request, and
    /// the request that state waits for.
    pub fn step(&self, pass: Pass, event: Event, now: &str) -> (r: (Pass, Action))
        ensures
            r.0@ == next_pass(self@, pass@, event@, now@),
            pass_ok(r.0@),
            r.1@ == pending(self@, r.0@),
    {
        let p = self.next(pass, event, now);
        proof {
            use_type_invariant(&p);
        }
        let a = self.pending_action(&p);
        (p, a)
    }

    /// Takes one step of a pass, stamping the records written with the current time. When the
    /// system clock cannot be read as a UTC time, no step is taken: the pass and the answer
    /// come back unchanged.
    pub fn step_now(&self, pass: Pass, event: Event) -> (r: Result<(Pass, Action), (Pass, Event)>)
        ensures
            match r {
                Ok(r) => {
                    &&& exists|t: Seq<char>| rfc3339_error(t) is None && r.0@ == next_pass(self@, pass@, event@, t)
                    &&& pass_ok(r.0@)
                    &&& r.1@ == pending(self@, r.0@)
                },
                Err((p, e)) => p@ == pass@ && e@ == event@,
            },
    {
        match now_rfc3339() {
            Some(now) => {
                let r = self.step(pass, event, now.as_str());
                assert(rfc3339_error(now@) is None && r.0@ == next_pass(self@, pass@, event@, now@));
                Ok(r)
            },
            None => Err((pass, event)),
        }
    }
}


/// Requests that change something: a write, a creation or a grant.
pub open spec fn mutating(a: ActionV) -> bool {
    ||| a is WriteSecret
    ||| a is CreateBucket
    ||| a is CreateKey
    ||| a is AllowBucketKey
}

/// Stages whose pending request changes nothing.
pub open spec fn quiet(st: StageV) -> bool {
    !(st is AwaitBucketCreate || st is AwaitKeyCreate || st is AwaitAllow || st is AwaitWrite || st is AwaitMarkRead
        || st is AwaitMarkWrite)
}

/// A pass starts in a quiet stage.
pub proof fn lemma_start_is_quiet(cfg: ReconcilerV)
    ensures
        quiet(StageV::AwaitStatus),
        !mutating(pending(cfg, PassV { section: Section::Buckets, entries: Seq::empty(), index: 0, stage: StageV::AwaitStatus })),
{
}

proof fn lemma_begin_entry_quiet(cfg: ReconcilerV, s: Section, entries: Seq<Seq<char>>, i: int)
    ensures
        quiet(begin_entry(cfg, s, entries, i).stage),
{
}

/// In a dry run a pass never leaves the quiet stages, so it never writes a secret, creates a
/// bucket or a key, or grants a permission.
pub proof fn lemma_dry_run_stays_quiet(cfg: ReconcilerV, p: PassV, ev: EventV, now: Seq<char>)
    requires
        cfg.dry_run,
        quiet(p.stage),
    ensures
        quiet(next_pass(cfg, p, ev, now).stage),
        !mutating(pending(cfg, next_pass(cfg, p, ev, now))),
{
    lemma_begin_entry_quiet(cfg, p.section, p.entries, p.index + 1);
    match ev {
        EventV::Listed(Ok(entries)) => {
            lemma_begin_entry_quiet(cfg, p.section, entries, 0);
        },
        _ => {},
    }
}

/// The record that marks a failure says `error`, holds the message and the time, and keeps
/// every other member of an existing object.
pub proof fn lemma_error_mark(existing: Option<JsonV>, message: Seq<char>, stamp: Seq<char>, other: Seq<char>)
    ensures
        get(error_marked(existing, message, stamp), "state"@) == Some(JsonV::Str("error"@)),
        get(error_marked(existing, message, stamp), "error_message"@) == Some(JsonV::Str(message)),
        get(error_marked(existing, message, stamp), "updated_at"@) == Some(JsonV::Str(stamp)),
        other != "state"@ && other != "error_message"@ && other != "updated_at"@ ==> get(
            error_marked(existing, message, stamp),
            other,
        ) == member(marked_base(existing), other),
{
    reveal_strlit("state");
    reveal_strlit("error_message");
    reveal_strlit("updated_at");
    assert("state"@ != "error_message"@) by {
        assert("state"@.len() != "error_message"@.len());
    }
    assert("updated_at"@ != "error_message"@) by {
        assert("updated_at"@[0] != "error_message"@[0]);
    }
    assert("updated_at"@ != "state"@) by {
        assert("updated_at"@[0] != "state"@[0]);
    }
    let b = marked_base(existing);
    let e1 = insert_member(b, "error_message"@, JsonV::Str(message));
    let e2 = insert_member(e1, "state"@, JsonV::Str("error"@));
    crate::json::lemma_member_of_insert(e2, "updated_at"@, JsonV::Str(stamp), "state"@);
    crate::json::lemma_member_of_insert(e2, "updated_at"@, JsonV::Str(stamp), "error_message"@);
    crate::json::lemma_member_of_insert(e2, "updated_at"@, JsonV::Str(stamp), "updated_at"@);
    crate::json::lemma_member_of_insert(e2, "updated_at"@, JsonV::Str(stamp), other);
    crate::json::lemma_member_of_insert(e1, "state"@, JsonV::Str("error"@), "state"@);
    crate::json::lemma_member_of_insert(e1, "state"@, JsonV::Str("error"@), "error_message"@);
    crate::json::lemma_member_of_insert(e1, "state"@, JsonV::Str("error"@), other);
    crate::json::lemma_member_of_insert(b, "error_message"@, JsonV::Str(message), "error_message"@);
    crate::json::lemma_member_of_insert(b, "error_message"@, JsonV::Str(message), other);
}


/// A bucket record marked ready for the bucket `id` at time `now`.
pub open spec fn ready_bucket(rec: BucketRecordV, id: Seq<char>, now: Seq<char>) -> BucketRecordV {
    BucketRecordV {
        state: Some(DesiredState::Ready),
        garage_bucket_id: Some(id),
        error_message: None,
        updated_at: Some(now),
        ..rec
    }
}

/// A key record marked ready with an access key at time `now`.
pub open spec fn ready_key(rec: KeyRecordV, access_key_id: Seq<char>, secret: Option<Seq<char>>, now: Seq<char>) -> KeyRecordV {
    KeyRecordV {
        access_key_id: Some(access_key_id),
        secret_access_key: secret,
        state: Some(DesiredState::Ready),
        error_message: None,
        updated_at: Some(now),
        ..rec
    }
}

/// A grant record marked ready at time `now`.
pub open spec fn ready_grant(rec: GrantRecordV, now: Seq<char>) -> GrantRecordV {
    GrantRecordV { state: Some(DesiredState::Ready), error_message: None, updated_at: Some(now), ..rec }
}

/// When handling a bucket leads to a write, it writes, at the record's own path, the record
/// marked ready with the bucket's id, no error and the step's time; it reads back as that.
pub proof fn lemma_bucket_write_is_ready(cfg: ReconcilerV, p: PassV, ev: EventV, now: Seq<char>)
    requires
        rfc3339_error(now) is None,
    ensures
        match (p.stage, next_pass(cfg, p, ev, now).stage) {
            (StageV::AwaitBucket { path, rec }, StageV::AwaitWrite { path: wp, data }) => wp == path && exists|id: Seq<char>|
                decode_bucket(data) == Ok::<BucketRecordV, Seq<char>>(ready_bucket(rec, id, now)),
            (StageV::AwaitBucketCreate { path, rec }, StageV::AwaitWrite { path: wp, data }) => wp == path && exists|id: Seq<char>|
                decode_bucket(data) == Ok::<BucketRecordV, Seq<char>>(ready_bucket(rec, id, now)),
            _ => true,
        },
{
    let q = next_pass(cfg, p, ev, now);
    match (p.stage, ev) {
        (StageV::AwaitBucket { path, rec }, EventV::BucketFound(Ok(Some(b)))) => {
            crate::model::lemma_bucket_roundtrip(ready_bucket(rec, b.id, now));
        },
        (StageV::AwaitBucket { path, rec }, EventV::BucketFound(Ok(None))) => {
            crate::model::lemma_bucket_roundtrip(ready_bucket(rec, "dry-run-bucket-id"@, now));
        },
        (StageV::AwaitBucketCreate { path, rec }, EventV::BucketCreated(Ok(b))) => {
            crate::model::lemma_bucket_roundtrip(ready_bucket(rec, b.id, now));
        },
        _ => {},
    }
}

/// When handling a key leads to a write, it writes, at the record's own path, the record
/// marked ready with an access key, no error and the step's time; it reads back as that.
pub proof fn lemma_key_write_is_ready(cfg: ReconcilerV, p: PassV, ev: EventV, now: Seq<char>)
    requires
        rfc3339_error(now) is None,
    ensures
        match (p.stage, next_pass(cfg, p, ev, now).stage) {
            (StageV::AwaitKey { path, rec }, StageV::AwaitWrite { path: wp, data }) => wp == path && exists|a: Seq<char>, s: Option<Seq<char>>|
                decode_key(data) == Ok::<KeyRecordV, Seq<char>>(ready_key(rec, a, s, now)),
            (StageV::AwaitKeyCreate { path, rec }, StageV::AwaitWrite { path: wp, data }) => wp == path && exists|a: Seq<char>, s: Option<Seq<char>>|
                decode_key(data) == Ok::<KeyRecordV, Seq<char>>(ready_key(rec, a, s, now)),
            _ => true,
        },
{
    match (p.stage, ev) {
        (StageV::AwaitKey { path, rec }, EventV::KeyFound(Ok(KeyLookupV::Single(k)))) => {
            crate::model::lemma_key_roundtrip(ready_key(rec, k.access_key_id, k.secret_access_key, now));
        },
        (StageV::AwaitKey { path, rec }, EventV::KeyFound(Ok(KeyLookupV::NotFound))) => {
            crate::model::lemma_key_roundtrip(
                ready_key(rec, "dry-run-access-key-id"@, Some("dry-run-secret-access-key"@), now),
            );
        },
        (StageV::AwaitKeyCreate { path, rec }, EventV::KeyCreated(Ok(k))) => {
            crate::model::lemma_key_roundtrip(ready_key(rec, k.access_key_id, k.secret_access_key, now));
        },
        _ => {},
    }
}

/// When applying a grant leads to a write, it writes, at the record's own path, the record
/// marked ready with no error and the step's time; it reads back as that.
pub proof fn lemma_grant_write_is_ready(cfg: ReconcilerV, p: PassV, ev: EventV, now: Seq<char>)
    requires
        rfc3339_error(now) is None,
    ensures
        match (p.stage, next_pass(cfg, p, ev, now).stage) {
            (StageV::AwaitGrantKey { path, rec, .. }, StageV::AwaitWrite { path: wp, data }) => wp == path
                && decode_grant(data) == Ok::<GrantRecordV, Seq<char>>(ready_grant(rec, now)),
            (StageV::AwaitAllow { path, rec, .. }, StageV::AwaitWrite { path: wp, data }) => wp == path
                && decode_grant(data) == Ok::<GrantRecordV, Seq<char>>(ready_grant(rec, now)),
            _ => true,
        },
{
    match p.stage {
        StageV::AwaitGrantKey { rec, .. } => {
            crate::model::lemma_grant_roundtrip(ready_grant(rec, now));
        },
        StageV::AwaitAllow { rec, .. } => {
            crate::model::lemma_grant_roundtrip(ready_grant(rec, now));
        },
        _ => {},
    }
}


/// A secret that is not there is skipped: the pass goes on to the next entry.
pub proof fn lemma_missing_record_skipped(cfg: ReconcilerV, p: PassV, path: Seq<char>, now: Seq<char>)
    requires
        p.stage == (StageV::AwaitRecord { path }),
    ensures
        next_pass(cfg, p, EventV::SecretRead(Ok(None)), now) == entry_done(cfg, p),
{
}

/// A record already `ready` is left alone: the pass goes on to the next entry without
/// looking anything up or writing.
pub proof fn lemma_ready_record_untouched(cfg: ReconcilerV, p: PassV, path: Seq<char>, raw: JsonV, now: Seq<char>)
    requires
        p.stage == (StageV::AwaitRecord { path }),
    ensures
        (p.section == Section::Buckets && (with_inferred_name(raw, path, "bucket"@) matches Ok(v) && (decode_bucket(v) matches Ok(
            rec,
        ) && rec.state == Some(DesiredState::Ready)))) ==> next_pass(cfg, p, EventV::SecretRead(Ok(Some(raw))), now)
            == entry_done(cfg, p),
        (p.section == Section::Keys && (with_inferred_name(raw, path, "key"@) matches Ok(v) && (decode_key(v) matches Ok(rec)
            && rec.state == Some(DesiredState::Ready)))) ==> next_pass(cfg, p, EventV::SecretRead(Ok(Some(raw))), now)
            == entry_done(cfg, p),
        (p.section == Section::Grants && (with_inferred_grant(raw, path) matches Ok(v) && (decode_grant(v) matches Ok(rec)
            && rec.state == Some(DesiredState::Ready)))) ==> next_pass(cfg, p, EventV::SecretRead(Ok(Some(raw))), now)
            == entry_done(cfg, p),
{
}

proof fn lemma_encoded_names(b: BucketRecordV, k: KeyRecordV, g: GrantRecordV)
    ensures
        get(encode_bucket(b), "name"@) is Some,
        get(encode_key(k), "name"@) is Some,
        get(encode_grant(g), "key"@) is Some,
        get(encode_grant(g), "bucket"@) is Some,
{
    reveal_strlit("key");
    reveal_strlit("bucket");
    let be = encode_bucket(b)->Object_0;
    assert(be[0].0 == "name"@);
    let ke = encode_key(k)->Object_0;
    assert(ke[0].0 == "name"@);
    let ge = encode_grant(g)->Object_0;
    assert("key"@ != "bucket"@) by {
        assert("key"@[0] != "bucket"@[0]);
    }
    assert(ge[0].0 == "key"@);
    assert(ge.drop_first()[0].0 == "bucket"@);
    assert(member(ge.drop_first(), "bucket"@) is Some);
    assert(member(ge, "bucket"@) == member(ge.drop_first(), "bucket"@));
}

/// A record written as ready by one pass is, read back by the next pass in the same section,
/// an answer that leaves it alone: its name (a grant's key and bucket) is stored, so nothing is
/// inferred, and it decodes as `ready`.
pub proof fn lemma_written_record_reads_ready(cfg: ReconcilerV, p: PassV, ev: EventV, now: Seq<char>, q: PassV)
    requires
        rfc3339_error(now) is None,
    ensures
        next_pass(cfg, p, ev, now).stage matches StageV::AwaitWrite { path, data } ==> {
            &&& (p.stage is AwaitBucket || p.stage is AwaitBucketCreate) && q.section == Section::Buckets
                ==> ready_answer(q, path, EventV::SecretRead(Ok(Some(data))))
            &&& (p.stage is AwaitKey || p.stage is AwaitKeyCreate) && q.section == Section::Keys ==> ready_answer(
                q,
                path,
                EventV::SecretRead(Ok(Some(data))),
            )
            &&& (p.stage is AwaitGrantKey || p.stage is AwaitAllow) && q.section == Section::Grants ==> ready_answer(
                q,
                path,
                EventV::SecretRead(Ok(Some(data))),
            )
        },
{
    lemma_bucket_write_is_ready(cfg, p, ev, now);
    lemma_key_write_is_ready(cfg, p, ev, now);
    lemma_grant_write_is_ready(cfg, p, ev, now);
    match p.stage {
        StageV::AwaitBucket { rec, .. } => {
            assert forall|id: Seq<char>| true implies get(encode_bucket(ready_bucket(rec, id, now)), "name"@) is Some by {
                lemma_encoded_names(ready_bucket(rec, id, now), arbitrary(), arbitrary());
            }
        },
        StageV::AwaitBucketCreate { rec, .. } => {
            assert forall|id: Seq<char>| true implies get(encode_bucket(ready_bucket(rec, id, now)), "name"@) is Some by {
                lemma_encoded_names(ready_bucket(rec, id, now), arbitrary(), arbitrary());
            }
        },
        StageV::AwaitKey { rec, .. } => {
            assert forall|a: Seq<char>, s: Option<Seq<char>>| true implies get(
                encode_key(ready_key(rec, a, s, now)),
                "name"@,
            ) is Some by {
                lemma_encoded_names(arbitrary(), ready_key(rec, a, s, now), arbitrary());
            }
        },
        StageV::AwaitKeyCreate { rec, .. } => {
            assert forall|a: Seq<char>, s: Option<Seq<char>>| true implies get(
                encode_key(ready_key(rec, a, s, now)),
                "name"@,
            ) is Some by {
                lemma_encoded_names(arbitrary(), ready_key(rec, a, s, now), arbitrary());
            }
        },
        StageV::AwaitGrantKey { rec, .. } => {
            lemma_encoded_names(arbitrary(), arbitrary(), ready_grant(rec, now));
        },
        StageV::AwaitAllow { rec, .. } => {
            lemma_encoded_names(arbitrary(), arbitrary(), ready_grant(rec, now));
        },
        _ => {},
    }
}

/// Resources that already exist are adopted, never created again: a bucket found by name is
/// recorded with its own id, a single key found by name is recorded with its own access key,
/// and when several keys share the name the record is left alone.
pub proof fn lemma_existing_resources_adopted(cfg: ReconcilerV, p: PassV, b: BucketV, k: GarageKeyV, now: Seq<char>)
    ensures
        p.stage matches StageV::AwaitBucket { path, rec } ==> next_pass(cfg, p, EventV::BucketFound(Ok(Some(b))), now)
            == bucket_ready(cfg, p, path, rec, b.id, now),
        p.stage matches StageV::AwaitKey { path, rec } ==> next_pass(cfg, p, EventV::KeyFound(Ok(KeyLookupV::Single(k))), now)
            == key_ready(
            cfg,
            p,
            path,
            KeyRecordV { access_key_id: Some(k.access_key_id), secret_access_key: k.secret_access_key, ..rec },
            now,
        ),
        p.stage is AwaitKey ==> next_pass(cfg, p, EventV::KeyFound(Ok(KeyLookupV::Multiple)), now) == entry_done(cfg, p),
{
}

/// When Garage's status cannot be read, the pass ends at once with that error.
pub proof fn lemma_status_failure_ends_pass(cfg: ReconcilerV, p: PassV, e: AppErrorV, now: Seq<char>)
    requires
        p.stage == StageV::AwaitStatus,
    ensures
        next_pass(cfg, p, EventV::Status(Err(e)), now).stage == (StageV::Done { result: Err::<(), AppErrorV>(e) }),
        pending(cfg, next_pass(cfg, p, EventV::Status(Err(e)), now)) == (ActionV::Finish { result: Err::<(), AppErrorV>(e) }),
{
}

pub open spec fn section_rank(s: Section) -> int {
    match s {
        Section::Buckets => 0,
        Section::Keys => 1,
        Section::Grants => 2,
    }
}

pub open spec fn stage_rank(st: StageV) -> int {
    match st {
        StageV::AwaitStatus => 0,
        StageV::AwaitList => 1,
        StageV::AwaitRecord { .. } => 2,
        StageV::AwaitBucket { .. } => 3,
        StageV::AwaitKey { .. } => 3,
        StageV::AwaitGrantBucket { .. } => 3,
        StageV::AwaitBucketCreate { .. } => 4,
        StageV::AwaitKeyCreate { .. } => 4,
        StageV::AwaitGrantKey { .. } => 4,
        StageV::AwaitAllow { .. } => 5,
        StageV::AwaitWrite { .. } => 6,
        StageV::AwaitMarkRead { .. } => 7,
        StageV::AwaitMarkWrite { .. } => 8,
        StageV::Done { .. } => 9,
    }
}

/// `q` is further along than `p`: a later section, a later entry of the same section, or a
/// later stage at the same entry.
pub open spec fn advanced(p: PassV, q: PassV) -> bool {
    ||| section_rank(q.section) > section_rank(p.section)
    ||| (q.section == p.section && q.index > p.index)
    ||| (q.section == p.section && q.index == p.index && stage_rank(q.stage) > stage_rank(p.stage))
}

proof fn lemma_entry_done_advances(cfg: ReconcilerV, p: PassV)
    requires
        at_entry(p.stage),
        0 <= p.index < p.entries.len(),
    ensures
        advanced(p, entry_done(cfg, p)),
        entry_done(cfg, p).section == p.section ==> entry_done(cfg, p).entries == p.entries,
{
}

/// Every answered step moves a pass forward: to a later section, a later entry, or a later
/// stage at the same entry, and within a section its entries stay as listed. So a pass whose
/// requests are answered ends. A step that does not answer the pending request, or any step
/// after the end, changes nothing.
#[verifier::rlimit(50)]
pub proof fn lemma_step_advances(cfg: ReconcilerV, p: PassV, ev: EventV, now: Seq<char>)
    requires
        pass_ok(p),
    ensures
        next_pass(cfg, p, ev, now) == p || advanced(p, next_pass(cfg, p, ev, now)),
        next_pass(cfg, p, ev, now).section == p.section && !(p.stage is AwaitList || p.stage is AwaitStatus) ==> next_pass(
            cfg,
            p,
            ev,
            now,
        ).entries == p.entries,
{
    if at_entry(p.stage) {
        lemma_entry_done_advances(cfg, p);
    }
    match p.stage {
        StageV::AwaitRecord { path } => {
            match ev {
                EventV::SecretRead(r) => {
                    assert(next_pass(cfg, p, ev, now) == after_record_read(cfg, p, path, r, now));
                },
                _ => {},
            }
        },
        _ => {},
    }
}

/// Every step keeps what holds of every state of a pass.
#[verifier::rlimit(50)]
pub proof fn lemma_step_keeps_ok(cfg: ReconcilerV, p: PassV, ev: EventV, now: Seq<char>)
    requires
        pass_ok(p),
    ensures
        pass_ok(next_pass(cfg, p, ev, now)),
{
    match p.stage {
        StageV::AwaitRecord { path } => {
            match ev {
                EventV::SecretRead(r) => {
                    assert(next_pass(cfg, p, ev, now) == after_record_read(cfg, p, path, r, now));
                },
                _ => {},
            }
        },
        _ => {},
    }
}

/// The states a pass goes through when its requests are answered by `evs` in turn: `p`
/// first, then the state after each answer.
pub open spec fn run(cfg: ReconcilerV, p: PassV, evs: Seq<EventV>, now: Seq<char>) -> Seq<PassV>
    decreases evs.len(),
{
    if evs.len() == 0 {
        seq![p]
    } else {
        seq![p] + run(cfg, next_pass(cfg, p, evs[0], now), evs.drop_first(), now)
    }
}

/// State `i + 1` of a run is the step from state `i` on answer `i`.
pub open spec fn run_step(cfg: ReconcilerV, p: PassV, evs: Seq<EventV>, now: Seq<char>, i: int) -> bool {
    run(cfg, p, evs, now)[i + 1] == next_pass(cfg, run(cfg, p, evs, now)[i], evs[i], now)
}

/// A run holds one state more than it has answers, starts at `p`, and each next state is
/// the step on the matching answer.
#[verifier::spinoff_prover]
#[verifier::rlimit(80)]
pub proof fn lemma_run_steps(cfg: ReconcilerV, p: PassV, evs: Seq<EventV>, now: Seq<char>)
    ensures
        run(cfg, p, evs, now).len() == evs.len() + 1,
        run(cfg, p, evs, now)[0] == p,
        forall|i: int| 0 <= i < evs.len() ==> #[trigger] run_step(cfg, p, evs, now, i),
    decreases evs.len(),
{
    if evs.len() > 0 {
        let q = next_pass(cfg, p, evs[0], now);
        let rest = evs.drop_first();
        lemma_run_steps(cfg, q, rest, now);
        assert forall|i: int| 0 <= i < evs.len() implies #[trigger] run_step(cfg, p, evs, now, i) by {
            if i > 0 {
                assert(run_step(cfg, q, rest, now, i - 1));
                assert(rest[i - 1] == evs[i]);
            }
        }
    }
}

/// Stages in which a pass only reads: waiting for Garage's status, a listing or a record, or
/// over.
pub open spec fn reading(st: StageV) -> bool {
    st is AwaitStatus || st is AwaitList || st is AwaitRecord || st is Done
}

/// An answer that leaves the record at `path` as it is: nothing stored there, or a record
/// already `ready` (any other kind of answer does not answer a record read).
pub open spec fn ready_answer(p: PassV, path: Seq<char>, ev: EventV) -> bool {
    match ev {
        EventV::SecretRead(Ok(None)) => true,
        EventV::SecretRead(Ok(Some(raw))) => match p.section {
            Section::Buckets => with_inferred_name(raw, path, "bucket"@) matches Ok(v) && (decode_bucket(v) matches Ok(rec)
                && rec.state == Some(DesiredState::Ready)),
            Section::Keys => with_inferred_name(raw, path, "key"@) matches Ok(v) && (decode_key(v) matches Ok(rec)
                && rec.state == Some(DesiredState::Ready)),
            Section::Grants => with_inferred_grant(raw, path) matches Ok(v) && (decode_grant(v) matches Ok(rec)
                && rec.state == Some(DesiredState::Ready)),
        },
        EventV::SecretRead(Err(_)) => false,
        _ => true,
    }
}

/// Answer `i` of a run finds, when it answers a record read, the record already `ready` or
/// nothing.
pub open spec fn answers_ready(cfg: ReconcilerV, p: PassV, evs: Seq<EventV>, now: Seq<char>, i: int) -> bool {
    run(cfg, p, evs, now)[i].stage matches StageV::AwaitRecord { path } ==> ready_answer(
        run(cfg, p, evs, now)[i],
        path,
        evs[i],
    )
}

proof fn lemma_begin_entry_reading(cfg: ReconcilerV, s: Section, entries: Seq<Seq<char>>, i: int)
    ensures
        reading(begin_entry(cfg, s, entries, i).stage),
{
}

proof fn lemma_reading_step(cfg: ReconcilerV, a: PassV, ev: EventV, now: Seq<char>)
    requires
        reading(a.stage),
        a.stage matches StageV::AwaitRecord { path } ==> ready_answer(a, path, ev),
    ensures
        reading(next_pass(cfg, a, ev, now).stage),
{
    lemma_begin_entry_reading(cfg, a.section, a.entries, a.index + 1);
    match (a.stage, ev) {
        (StageV::AwaitList, EventV::Listed(Ok(entries))) => {
            lemma_begin_entry_reading(cfg, a.section, entries, 0);
        },
        (StageV::AwaitRecord { path }, EventV::SecretRead(r)) => {
            assert(next_pass(cfg, a, ev, now) == after_record_read(cfg, a, path, r, now));
        },
        _ => {},
    }
}

proof fn lemma_reading_upto(cfg: ReconcilerV, p: PassV, evs: Seq<EventV>, now: Seq<char>, k: int)
    requires
        reading(p.stage),
        forall|i: int| 0 <= i < evs.len() ==> #[trigger] answers_ready(cfg, p, evs, now, i),
        0 <= k <= evs.len(),
    ensures
        reading(run(cfg, p, evs, now)[k].stage),
    decreases k,
{
    lemma_run_steps(cfg, p, evs, now);
    if k > 0 {
        lemma_reading_upto(cfg, p, evs, now, k - 1);
        assert(answers_ready(cfg, p, evs, now, k - 1));
        assert(run_step(cfg, p, evs, now, k - 1));
        lemma_reading_step(cfg, run(cfg, p, evs, now)[k - 1], evs[k - 1], now);
    }
}

/// A pass over records that are all `ready` (such as those a previous pass wrote) changes
/// nothing: from a reading stage, while every record read finds a `ready` record or nothing,
/// every state of the pass only reads, and none of its requests writes a secret, creates a
/// bucket or a key, or grants a permission.
pub proof fn lemma_ready_pass_changes_nothing(cfg: ReconcilerV, p: PassV, evs: Seq<EventV>, now: Seq<char>)
    requires
        reading(p.stage),
        forall|i: int| 0 <= i < evs.len() ==> #[trigger] answers_ready(cfg, p, evs, now, i),
    ensures
        run(cfg, p, evs, now).len() == evs.len() + 1,
        forall|i: int|
            0 <= i <= evs.len() ==> reading(#[trigger] run(cfg, p, evs, now)[i].stage) && !mutating(
                pending(cfg, run(cfg, p, evs, now)[i]),
            ),
{
    lemma_run_steps(cfg, p, evs, now);
    assert forall|i: int| 0 <= i <= evs.len() implies reading(#[trigger] run(cfg, p, evs, now)[i].stage) && !mutating(
        pending(cfg, run(cfg, p, evs, now)[i]),
    ) by {
        lemma_reading_upto(cfg, p, evs, now, i);
    }
}

/// Whether a pass has ended with an error.
pub open spec fn ended_in_error(st: StageV) -> bool {
    st is Done && st->result is Err
}

proof fn lemma_reading_step_ok(cfg: ReconcilerV, a: PassV, ev: EventV, now: Seq<char>)
    requires
        reading(a.stage),
        !ended_in_error(a.stage),
        !failed(ev),
        a.stage matches StageV::AwaitRecord { path } ==> ready_answer(a, path, ev),
    ensures
        !ended_in_error(next_pass(cfg, a, ev, now).stage),
{
    lemma_begin_entry_not_failed(cfg, a.section, a.entries, a.index + 1);
    match (a.stage, ev) {
        (StageV::AwaitList, EventV::Listed(Ok(entries))) => {
            lemma_begin_entry_not_failed(cfg, a.section, entries, 0);
        },
        (StageV::AwaitRecord { path }, EventV::SecretRead(r)) => {
            assert(next_pass(cfg, a, ev, now) == after_record_read(cfg, a, path, r, now));
        },
        _ => {},
    }
}

proof fn lemma_ready_ok_upto(cfg: ReconcilerV, p: PassV, evs: Seq<EventV>, now: Seq<char>, k: int)
    requires
        reading(p.stage),
        !ended_in_error(p.stage),
        forall|i: int| 0 <= i < evs.len() ==> #[trigger] answers_ready(cfg, p, evs, now, i),
        forall|i: int| 0 <= i < evs.len() ==> !failed(#[trigger] evs[i]),
        0 <= k <= evs.len(),
    ensures
        !ended_in_error(run(cfg, p, evs, now)[k].stage),
    decreases k,
{
    lemma_run_steps(cfg, p, evs, now);
    if k > 0 {
        lemma_ready_ok_upto(cfg, p, evs, now, k - 1);
        lemma_reading_upto(cfg, p, evs, now, k - 1);
        assert(answers_ready(cfg, p, evs, now, k - 1));
        assert(!failed(evs[k - 1]));
        assert(run_step(cfg, p, evs, now, k - 1));
        lemma_reading_step_ok(cfg, run(cfg, p, evs, now)[k - 1], evs[k - 1], now);
    }
}

/// When, besides, Garage's status and every listing are answered without failure, a pass
/// over `ready` records never ends in an error: once it ends, it ends with `Ok(())`.
pub proof fn lemma_ready_pass_ends_ok(cfg: ReconcilerV, p: PassV, evs: Seq<EventV>, now: Seq<char>)
    requires
        reading(p.stage),
        !ended_in_error(p.stage),
        forall|i: int| 0 <= i < evs.len() ==> #[trigger] answers_ready(cfg, p, evs, now, i),
        forall|i: int| 0 <= i < evs.len() ==> !failed(#[trigger] evs[i]),
    ensures
        forall|i: int|
            0 <= i <= evs.len() ==> (#[trigger] run(cfg, p, evs, now)[i].stage is Done ==> run(
                cfg,
                p,
                evs,
                now,
            )[i].stage->result is Ok),
{
    lemma_run_steps(cfg, p, evs, now);
    assert forall|i: int| 0 <= i <= evs.len() && #[trigger] run(cfg, p, evs, now)[i].stage is Done implies run(
        cfg,
        p,
        evs,
        now,
    )[i].stage->result is Ok by {
        lemma_ready_ok_upto(cfg, p, evs, now, i);
    }
}

/// Whether `ev` is the kind of answer the stage waits for.
pub open spec fn answers(st: StageV, ev: EventV) -> bool {
    match (st, ev) {
        (StageV::AwaitStatus, EventV::Status(_)) => true,
        (StageV::AwaitList, EventV::Listed(_)) => true,
        (StageV::AwaitRecord { .. }, EventV::SecretRead(_)) => true,
        (StageV::AwaitBucket { .. }, EventV::BucketFound(_)) => true,
        (StageV::AwaitBucketCreate { .. }, EventV::BucketCreated(_)) => true,
        (StageV::AwaitKey { .. }, EventV::KeyFound(_)) => true,
        (StageV::AwaitKeyCreate { .. }, EventV::KeyCreated(_)) => true,
        (StageV::AwaitGrantBucket { .. }, EventV::BucketFound(_)) => true,
        (StageV::AwaitGrantKey { .. }, EventV::KeyFound(_)) => true,
        (StageV::AwaitAllow { .. }, EventV::Allowed(_)) => true,
        (StageV::AwaitWrite { .. }, EventV::SecretWritten(_)) => true,
        (StageV::AwaitMarkRead { .. }, EventV::SecretRead(_)) => true,
        (StageV::AwaitMarkWrite { .. }, EventV::SecretWritten(_)) => true,
        _ => false,
    }
}

/// Whether an answer reports a failure.
pub open spec fn failed(ev: EventV) -> bool {
    match ev {
        EventV::Status(r) => r is Err,
        EventV::Listed(r) => r is Err,
        EventV::SecretRead(r) => r is Err,
        EventV::SecretWritten(r) => r is Err,
        EventV::BucketFound(r) => r is Err,
        EventV::BucketCreated(r) => r is Err,
        EventV::KeyFound(r) => r is Err,
        EventV::KeyCreated(r) => r is Err,
        EventV::Allowed(r) => r is Err,
    }
}

/// Whether a stage handles an entry's record before any error mark.
pub open spec fn handling(st: StageV) -> bool {
    at_entry(st) && !(st is AwaitMarkRead || st is AwaitMarkWrite)
}

/// What one step does to the order of a pass, from `a` on answer `ev` to `b`:
/// - at an entry, the pass stays at that entry or goes on to the next one (`entry_done`:
///   the next entry's record, else the next section's listing, else the end), unless an
///   error mark fails, which ends the pass with that error;
/// - a failure while handling an entry leads to marking that entry's record (in a dry run,
///   to the next entry);
/// - a mark that is written goes on to the next entry;
/// - the pass ends with an error only when the status, a listing or an error mark fails.
pub open spec fn in_order(cfg: ReconcilerV, a: PassV, ev: EventV, b: PassV) -> bool {
    &&& stays_or_goes_on(cfg, a, b)
    &&& failure_marked(cfg, a, ev, b)
    &&& (a.stage is AwaitMarkWrite && ev == EventV::SecretWritten(Ok(()))) ==> b == entry_done(cfg, a)
    &&& ends_early_only_on_failure(a, b)
}

/// At an entry, the pass stays at that entry or goes on to the next one, unless an error
/// mark fails, which ends the pass with that error.
pub open spec fn stays_or_goes_on(cfg: ReconcilerV, a: PassV, b: PassV) -> bool {
    at_entry(a.stage) ==> {
        ||| (b.section == a.section && b.entries == a.entries && b.index == a.index && at_entry(b.stage))
        ||| b == entry_done(cfg, a)
        ||| ((a.stage is AwaitMarkRead || a.stage is AwaitMarkWrite) && b.stage is Done && b.stage->result is Err)
    }
}

/// A failure while handling an entry leads to marking that entry's record (in a dry run, to
/// the next entry).
pub open spec fn failure_marked(cfg: ReconcilerV, a: PassV, ev: EventV, b: PassV) -> bool {
    (handling(a.stage) && answers(a.stage, ev) && failed(ev)) ==> if cfg.dry_run {
        b == entry_done(cfg, a)
    } else {
        b.section == a.section && b.entries == a.entries && b.index == a.index && b.stage is AwaitMarkRead
    }
}

/// The pass ends with an error only when the status, a listing or an error mark fails.
pub open spec fn ends_early_only_on_failure(a: PassV, b: PassV) -> bool {
    (!(a.stage is Done) && b.stage is Done && b.stage->result is Err) ==> (a.stage is AwaitStatus
        || a.stage is AwaitList || a.stage is AwaitMarkRead || a.stage is AwaitMarkWrite)
}

proof fn lemma_begin_entry_not_failed(cfg: ReconcilerV, s: Section, entries: Seq<Seq<char>>, i: int)
    ensures
        !(begin_entry(cfg, s, entries, i).stage is Done && begin_entry(cfg, s, entries, i).stage->result is Err),
{
}

#[verifier::rlimit(50)]
proof fn lemma_step_stays_or_goes_on(cfg: ReconcilerV, a: PassV, ev: EventV, now: Seq<char>)
    ensures
        stays_or_goes_on(cfg, a, next_pass(cfg, a, ev, now)),
{
    match (a.stage, ev) {
        (StageV::AwaitRecord { path }, EventV::SecretRead(r)) => {
            assert(next_pass(cfg, a, ev, now) == after_record_read(cfg, a, path, r, now));
        },
        _ => {},
    }
}

#[verifier::rlimit(50)]
proof fn lemma_step_failure_marked(cfg: ReconcilerV, a: PassV, ev: EventV, now: Seq<char>)
    ensures
        failure_marked(cfg, a, ev, next_pass(cfg, a, ev, now)),
{
    match (a.stage, ev) {
        (StageV::AwaitRecord { path }, EventV::SecretRead(r)) => {
            assert(next_pass(cfg, a, ev, now) == after_record_read(cfg, a, path, r, now));
        },
        _ => {},
    }
}

#[verifier::rlimit(50)]
proof fn lemma_step_ends_early(cfg: ReconcilerV, a: PassV, ev: EventV, now: Seq<char>)
    ensures
        ends_early_only_on_failure(a, next_pass(cfg, a, ev, now)),
{
    lemma_begin_entry_not_failed(cfg, a.section, a.entries, a.index + 1);
    match (a.stage, ev) {
        (StageV::AwaitRecord { path }, EventV::SecretRead(r)) => {
            assert(next_pass(cfg, a, ev, now) == after_record_read(cfg, a, path, r, now));
        },
        (StageV::AwaitList, EventV::Listed(Ok(entries))) => {
            lemma_begin_entry_not_failed(cfg, a.section, entries, 0);
        },
        _ => {},
    }
}

proof fn lemma_step_in_order(cfg: ReconcilerV, a: PassV, ev: EventV, now: Seq<char>)
    ensures
        in_order(cfg, a, ev, next_pass(cfg, a, ev, now)),
{
    lemma_step_stays_or_goes_on(cfg, a, ev, now);
    lemma_step_failure_marked(cfg, a, ev, now);
    lemma_step_ends_early(cfg, a, ev, now);
}

/// Over a whole pass the entries are handled in order, as listed: every step stays at the
/// current entry or goes on to the next, a failure while handling an entry is marked on its
/// record and the pass goes on, and the pass ends early only when the status, a listing or
/// an error mark fails.
pub proof fn lemma_pass_in_order(cfg: ReconcilerV, p: PassV, evs: Seq<EventV>, now: Seq<char>)
    ensures
        run(cfg, p, evs, now).len() == evs.len() + 1,
        forall|i: int|
            0 <= i < evs.len() ==> in_order(
                cfg,
                #[trigger] run(cfg, p, evs, now)[i],
                evs[i],
                run(cfg, p, evs, now)[i + 1],
            ),
{
    lemma_run_steps(cfg, p, evs, now);
    assert forall|i: int| 0 <= i < evs.len() implies in_order(
        cfg,
        #[trigger] run(cfg, p, evs, now)[i],
        evs[i],
        run(cfg, p, evs, now)[i + 1],
    ) by {
        assert(run_step(cfg, p, evs, now, i));
        lemma_step_in_order(cfg, run(cfg, p, evs, now)[i], evs[i], now);
    }
}

} // verus!

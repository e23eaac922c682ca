//! Garage's admin API: the requests the controller sends and how it reads the replies.
use vstd::prelude::*;
use vstd::string::*;
use crate::error::{error_text, resource_quoting, AppError, AppErrorV};
use crate::json::{
    get, get_str, insert_member, json_text, parse_json_value, parsed_view, lemma_array_view, lemma_object_view, members_view, Json, JsonV,
};
use crate::model::{elems_view, opt_view};
use crate::text::{is_blank, is_blank_str, owned, trim_start_char, trim_start_matches_char};

verus! {

/// A bucket known to Garage.
#[derive(Debug)]
pub struct Bucket {
    pub id: String,
}

pub struct BucketV {
    pub id: Seq<char>,
}

impl View for Bucket {
    type V = BucketV;

    open spec fn view(&self) -> BucketV {
        BucketV { id: self.id@ }
    }
}

/// An access key known to Garage.
#[derive(Debug)]
pub struct GarageKey {
    pub access_key_id: String,
    pub name: Option<String>,
    pub secret_access_key: Option<String>,
}

pub struct GarageKeyV {
    pub access_key_id: Seq<char>,
    pub name: Option<Seq<char>>,
    pub secret_access_key: Option<Seq<char>>,
}

impl View for GarageKey {
    type V = GarageKeyV;

    open spec fn view(&self) -> GarageKeyV {
        GarageKeyV {
            access_key_id: self.access_key_id@,
            name: opt_view(self.name),
            secret_access_key: opt_view(self.secret_access_key),
        }
    }
}

impl GarageKey {
    /// A copy of the key.
    pub fn duplicate(&self) -> (k: GarageKey)
        ensures
            k@ == self@,
    {
        GarageKey {
            access_key_id: self.access_key_id.clone(),
            name: match &self.name {
                Some(n) => Some(n.clone()),
                None => None,
            },
            secret_access_key: match &self.secret_access_key {
                Some(s) => Some(s.clone()),
                None => None,
            },
        }
    }
}

/// What a search for keys by name found.
#[derive(Debug)]
pub enum KeyLookup {
    /// No key has the name.
    NotFound,
    Single(GarageKey),
    Multiple,
}

pub enum KeyLookupV {
    NotFound,
    Single(GarageKeyV),
    Multiple,
}

impl View for KeyLookup {
    type V = KeyLookupV;

    open spec fn view(&self) -> KeyLookupV {
        match self {
            KeyLookup::NotFound => KeyLookupV::NotFound,
            KeyLookup::Single(k) => KeyLookupV::Single(k@),
            KeyLookup::Multiple => KeyLookupV::Multiple,
        }
    }
}

/// The object a reply describes: the value itself when it is an object, the first element
/// when it is an array.
pub open spec fn first_obj(v: JsonV) -> Option<JsonV> {
    match v {
        JsonV::Object(_) => Some(v),
        JsonV::Array(a) => if a.len() > 0 {
            Some(a[0])
        } else {
            None
        },
        _ => None,
    }
}

/// The first of two optional strings that is present.
pub open spec fn or_else(a: Option<Seq<char>>, b: Option<Seq<char>>) -> Option<Seq<char>> {
    if a is Some {
        a
    } else {
        b
    }
}

/// The bucket a reply describes, by its `id` or else its `bucket_id`.
pub open spec fn bucket_of_value(v: JsonV) -> Option<BucketV> {
    match first_obj(v) {
        Some(o) => match or_else(get_str(o, "id"@), get_str(o, "bucket_id"@)) {
            Some(id) => Some(BucketV { id }),
            None => None,
        },
        None => None,
    }
}

/// The key a reply describes. Its id is the first of `access_key_id`, `accessKeyId`, `id`;
/// its secret the first of `secret_access_key`, `secretAccessKey`, `secret_key`; its name
/// the first of `name`, `key_name`.
pub open spec fn key_of_value(v: JsonV) -> Option<GarageKeyV> {
    match first_obj(v) {
        Some(o) => match or_else(
            get_str(o, "access_key_id"@),
            or_else(get_str(o, "accessKeyId"@), get_str(o, "id"@)),
        ) {
            Some(id) => Some(
                GarageKeyV {
                    access_key_id: id,
                    name: or_else(get_str(o, "name"@), get_str(o, "key_name"@)),
                    secret_access_key: or_else(
                        get_str(o, "secret_access_key"@),
                        or_else(get_str(o, "secretAccessKey"@), get_str(o, "secret_key"@)),
                    ),
                },
            ),
            None => None,
        },
        None => None,
    }
}

/// `value`'s described object.
pub fn first_obj_exec(v: &Json) -> (r: Option<&Json>)
    ensures
        match r {
            Some(o) => first_obj(v@) == Some(o@),
            None => first_obj(v@) is None,
        },
{
    match v {
        Json::Object(_) => Some(v),
        Json::Array(a) => {
            proof {
                lemma_array_view(*a);
            }
            if a.len() > 0 {
                Some(&a[0])
            } else {
                None
            }
        },
        _ => None,
    }
}

fn str_member_or(o: &Json, first: &str, second: &str) -> (r: Option<String>)
    ensures
        opt_view(r) == or_else(get_str(o@, first@), get_str(o@, second@)),
{
    match o.get_str_member(first) {
        Some(s) => Some(s.clone()),
        None => match o.get_str_member(second) {
            Some(s) => Some(s.clone()),
            None => None,
        },
    }
}

fn str_member_or3(o: &Json, first: &str, second: &str, third: &str) -> (r: Option<String>)
    ensures
        opt_view(r) == or_else(get_str(o@, first@), or_else(get_str(o@, second@), get_str(o@, third@))),
{
    match o.get_str_member(first) {
        Some(s) => Some(s.clone()),
        None => str_member_or(o, second, third),
    }
}

/// The bucket a reply describes.
pub fn bucket_from_value(v: &Json) -> (r: Option<Bucket>)
    ensures
        match r {
            Some(b) => bucket_of_value(v@) == Some(b@),
            None => bucket_of_value(v@) is None,
        },
{
    let o = match first_obj_exec(v) {
        Some(o) => o,
        None => {
            return None;
        },
    };
    match str_member_or(o, "id", "bucket_id") {
        Some(id) => Some(Bucket { id }),
        None => None,
    }
}

/// The key a reply describes.
pub fn key_from_value(v: &Json) -> (r: Option<GarageKey>)
    ensures
        match r {
            Some(k) => key_of_value(v@) == Some(k@),
            None => key_of_value(v@) is None,
        },
{
    let o = match first_obj_exec(v) {
        Some(o) => o,
        None => {
            return None;
        },
    };
    let access_key_id = match str_member_or3(o, "access_key_id", "accessKeyId", "id") {
        Some(id) => id,
        None => {
            return None;
        },
    };
    let secret_access_key = str_member_or3(o, "secret_access_key", "secretAccessKey", "secret_key");
    let name = str_member_or(o, "name", "key_name");
    Some(GarageKey { access_key_id, name, secret_access_key })
}

/// Every entry read as a key, or the error `message` when one cannot be.
pub open spec fn keys_of_items(items: Seq<JsonV>, message: Seq<char>) -> Result<Seq<GarageKeyV>, AppErrorV> {
    if forall|i: int| 0 <= i < items.len() ==> (#[trigger] key_of_value(items[i])) is Some {
        Ok(items.map_values(|j: JsonV| key_of_value(j)->0))
    } else {
        Err(AppErrorV::Resource(message))
    }
}

/// The keys a key listing holds: an array of keys, an object with an `items` array, or a
/// single key; anything else lists none.
pub open spec fn key_listing(v: JsonV) -> Result<Seq<GarageKeyV>, AppErrorV> {
    match v {
        JsonV::Array(items) => keys_of_items(items, "unable to parse entry from /v1/key list"@),
        _ => match get(v, "items"@) {
            Some(JsonV::Array(items)) => keys_of_items(items, "unable to parse entry from /v1/key items"@),
            _ => match key_of_value(v) {
                Some(k) => Ok(seq![k]),
                None => Ok(Seq::empty()),
            },
        },
    }
}

pub open spec fn keys_view(keys: Seq<GarageKey>) -> Seq<GarageKeyV> {
    keys.map_values(|k: GarageKey| k@)
}

fn keys_from_items(items: &Vec<Json>, message: &str) -> (r: Result<Vec<GarageKey>, AppError>)
    ensures
        match r {
            Ok(keys) => keys_of_items(elems_view(items@), message@) == Ok::<Seq<GarageKeyV>, AppErrorV>(keys_view(keys@)),
            Err(e) => keys_of_items(elems_view(items@), message@) == Err::<Seq<GarageKeyV>, AppErrorV>(e@),
        },
{
    let ghost iv = elems_view(items@);
    let mut keys: Vec<GarageKey> = Vec::new();
    let mut i: usize = 0;
    while i < items.len()
        invariant
            i <= items@.len(),
            iv == elems_view(items@),
            forall|j: int| 0 <= j < i ==> (#[trigger] key_of_value(iv[j])) is Some,
            keys_view(keys@) =~= iv.subrange(0, i as int).map_values(|j: JsonV| key_of_value(j)->0),
        decreases items@.len() - i,
    {
        assert(iv[i as int] == items@[i as int]@);
        match key_from_value(&items[i]) {
            Some(k) => {
                let ghost before = keys_view(keys@);
                let ghost kv = k@;
                keys.push(k);
                assert(keys_view(keys@) =~= before.push(kv));
                i += 1;
                assert(iv.subrange(0, i as int).map_values(|j: JsonV| key_of_value(j)->0)
                    =~= before.push(kv));
            },
            None => {
                return Err(AppError::Resource(owned(message)));
            },
        }
    }
    assert(iv.subrange(0, i as int) =~= iv);
    Ok(keys)
}

/// The keys a key listing holds.
pub fn keys_from_listing(v: &Json) -> (r: Result<Vec<GarageKey>, AppError>)
    ensures
        match r {
            Ok(keys) => key_listing(v@) == Ok::<Seq<GarageKeyV>, AppErrorV>(keys_view(keys@)),
            Err(e) => key_listing(v@) == Err::<Seq<GarageKeyV>, AppErrorV>(e@),
        },
{
    if let Json::Array(items) = v {
        proof {
            lemma_array_view(*items);
        }
        return keys_from_items(items, "unable to parse entry from /v1/key list");
    }
    match v.get_member("items") {
        Some(Json::Array(items)) => {
            proof {
                lemma_array_view(*items);
            }
            return keys_from_items(items, "unable to parse entry from /v1/key items");
        },
        _ => {},
    }
    match key_from_value(v) {
        Some(k) => {
            let mut keys: Vec<GarageKey> = Vec::new();
            let ghost kv = k@;
            keys.push(k);
            assert(keys_view(keys@) =~= seq![kv]);
            Ok(keys)
        },
        None => {
            let keys: Vec<GarageKey> = Vec::new();
            assert(keys_view(keys@) =~= Seq::<GarageKeyV>::empty());
            Ok(keys)
        },
    }
}

/// Whether a key is named `name`.
pub open spec fn named(k: GarageKeyV, name: Seq<char>) -> bool {
    k.name == Some(name)
}

/// The keys named `name`, in order.
pub open spec fn keys_named(keys: Seq<GarageKeyV>, name: Seq<char>) -> Seq<GarageKeyV>
    decreases keys.len(),
{
    if keys.len() == 0 {
        Seq::empty()
    } else if named(keys.last(), name) {
        keys_named(keys.drop_last(), name).push(keys.last())
    } else {
        keys_named(keys.drop_last(), name)
    }
}

/// What a search by name finds among `keys`: none, exactly one, or several.
pub open spec fn lookup_by_name(keys: Seq<GarageKeyV>, name: Seq<char>) -> KeyLookupV {
    let m = keys_named(keys, name);
    if m.len() == 0 {
        KeyLookupV::NotFound
    } else if m.len() == 1 {
        KeyLookupV::Single(m[0])
    } else {
        KeyLookupV::Multiple
    }
}

proof fn lemma_none_named(keys: Seq<GarageKeyV>, name: Seq<char>)
    requires
        forall|x: int| 0 <= x < keys.len() ==> (#[trigger] keys[x]).name != Some(name),
    ensures
        keys_named(keys, name).len() == 0,
    decreases keys.len(),
{
    if keys.len() > 0 {
        assert(keys.last() == keys[keys.len() - 1]);
        lemma_none_named(keys.drop_last(), name);
    }
}

proof fn lemma_some_named(keys: Seq<GarageKeyV>, name: Seq<char>, i: int)
    requires
        0 <= i < keys.len(),
        keys[i].name == Some(name),
    ensures
        keys_named(keys, name).len() > 0,
    decreases keys.len(),
{
    if i < keys.len() - 1 {
        assert(keys.drop_last()[i] == keys[i]);
        lemma_some_named(keys.drop_last(), name, i);
    }
}

proof fn lemma_one_named(keys: Seq<GarageKeyV>, name: Seq<char>, i: int)
    requires
        0 <= i < keys.len(),
        keys[i].name == Some(name),
        forall|x: int| 0 <= x < keys.len() && (#[trigger] keys[x]).name == Some(name) ==> x == i,
    ensures
        keys_named(keys, name) == seq![keys[i]],
    decreases keys.len(),
{
    let init = keys.drop_last();
    if i == keys.len() - 1 {
        assert forall|x: int| 0 <= x < init.len() implies (#[trigger] init[x]).name != Some(name) by {
            assert(init[x] == keys[x]);
        }
        lemma_none_named(init, name);
        assert(keys_named(init, name) =~= Seq::<GarageKeyV>::empty());
        assert(keys_named(keys, name) =~= seq![keys[i]]);
    } else {
        assert(keys.last() == keys[keys.len() - 1]);
        assert forall|x: int| 0 <= x < init.len() && (#[trigger] init[x]).name == Some(name) implies x == i by {
            assert(init[x] == keys[x]);
        }
        assert(init[i] == keys[i]);
        lemma_one_named(init, name, i);
    }
}

proof fn lemma_two_named(keys: Seq<GarageKeyV>, name: Seq<char>, i: int, j: int)
    requires
        0 <= i < j < keys.len(),
        keys[i].name == Some(name),
        keys[j].name == Some(name),
    ensures
        keys_named(keys, name).len() >= 2,
    decreases keys.len(),
{
    let init = keys.drop_last();
    assert(init[i] == keys[i]);
    if j == keys.len() - 1 {
        lemma_some_named(init, name, i);
    } else {
        assert(init[j] == keys[j]);
        lemma_two_named(init, name, i, j);
    }
}

proof fn lemma_named_members(keys: Seq<GarageKeyV>, name: Seq<char>)
    ensures
        forall|y: int|
            0 <= y < keys_named(keys, name).len() ==> (#[trigger] keys_named(keys, name)[y]).name == Some(name)
                && keys.contains(keys_named(keys, name)[y]),
    decreases keys.len(),
{
    if keys.len() > 0 {
        let init = keys.drop_last();
        lemma_named_members(init, name);
        let m0 = keys_named(init, name);
        assert forall|y: int| 0 <= y < keys_named(keys, name).len() implies (#[trigger] keys_named(
            keys,
            name,
        )[y]).name == Some(name) && keys.contains(keys_named(keys, name)[y]) by {
            if y < m0.len() {
                assert(keys_named(keys, name)[y] == m0[y]);
                let x = choose|x: int| 0 <= x < init.len() && init[x] == m0[y];
                assert(keys[x] == init[x]);
            } else {
                assert(keys_named(keys, name)[y] == keys.last());
                assert(keys[keys.len() - 1] == keys.last());
            }
        }
    }
}

/// A search for keys by name finds exactly the keys whose name is `name`: nothing when no key
/// has it, that very key when exactly one has it, several when two or more have it; and a
/// single key it finds is one of the listed keys, named `name`.
pub proof fn lemma_lookup_by_name(keys: Seq<GarageKeyV>, name: Seq<char>, i: int, j: int)
    ensures
        lookup_by_name(keys, name) matches KeyLookupV::Single(k) ==> k.name == Some(name) && keys.contains(k),
        (forall|x: int| 0 <= x < keys.len() ==> (#[trigger] keys[x]).name != Some(name)) ==> lookup_by_name(keys, name)
            == KeyLookupV::NotFound,
        (0 <= i < keys.len() && keys[i].name == Some(name) && forall|x: int|
            0 <= x < keys.len() && (#[trigger] keys[x]).name == Some(name) ==> x == i) ==> lookup_by_name(keys, name)
            == KeyLookupV::Single(keys[i]),
        (0 <= i < j < keys.len() && keys[i].name == Some(name) && keys[j].name == Some(name)) ==> lookup_by_name(
            keys,
            name,
        ) == KeyLookupV::Multiple,
{
    lemma_named_members(keys, name);
    if keys_named(keys, name).len() == 1 {
        assert(keys_named(keys, name)[0].name == Some(name));
    }
    if forall|x: int| 0 <= x < keys.len() ==> (#[trigger] keys[x]).name != Some(name) {
        lemma_none_named(keys, name);
    }
    if 0 <= i < keys.len() && keys[i].name == Some(name) && forall|x: int|
        0 <= x < keys.len() && (#[trigger] keys[x]).name == Some(name) ==> x == i {
        lemma_one_named(keys, name, i);
    }
    if 0 <= i < j < keys.len() && keys[i].name == Some(name) && keys[j].name == Some(name) {
        lemma_two_named(keys, name, i, j);
    }
}

/// A key reply, read from an object: it describes a key exactly when it holds an access key
/// id under `access_key_id`, `accessKeyId` or `id`; the first of these present is the key's
/// id, the first present of `secret_access_key`, `secretAccessKey`, `secret_key` is its secret,
/// and the first present of `name`, `key_name` is its name.
pub proof fn lemma_key_reply_fields(o: JsonV)
    requires
        o is Object,
    ensures
        key_of_value(o) is Some <==> (get_str(o, "access_key_id"@) is Some || get_str(o, "accessKeyId"@) is Some
            || get_str(o, "id"@) is Some),
        key_of_value(o) matches Some(k) ==> {
            &&& get_str(o, "access_key_id"@) matches Some(a) ==> k.access_key_id == a
            &&& get_str(o, "access_key_id"@) is None ==> (get_str(o, "accessKeyId"@) matches Some(a)
                ==> k.access_key_id == a)
            &&& get_str(o, "access_key_id"@) is None && get_str(o, "accessKeyId"@) is None ==> Some(k.access_key_id)
                == get_str(o, "id"@)
            &&& get_str(o, "secret_access_key"@) matches Some(s) ==> k.secret_access_key == Some(s)
            &&& get_str(o, "secret_access_key"@) is None ==> (get_str(o, "secretAccessKey"@) matches Some(s)
                ==> k.secret_access_key == Some(s))
            &&& get_str(o, "secret_access_key"@) is None && get_str(o, "secretAccessKey"@) is None
                ==> k.secret_access_key == get_str(o, "secret_key"@)
            &&& get_str(o, "name"@) matches Some(n) ==> k.name == Some(n)
            &&& get_str(o, "name"@) is None ==> k.name == get_str(o, "key_name"@)
        },
{
}

/// A bucket reply, read from an object: its id is `id` when present, else `bucket_id`; it
/// describes no bucket when neither is present. An array reply is read from its first
/// element, and an empty array or any other value describes nothing.
pub proof fn lemma_bucket_and_key_replies(v: JsonV)
    ensures
        v is Object ==> (get_str(v, "id"@) matches Some(i) ==> bucket_of_value(v) == Some(BucketV { id: i })),
        v is Object ==> (get_str(v, "id"@) is None ==> bucket_of_value(v) == match get_str(v, "bucket_id"@) {
            Some(i) => Some(BucketV { id: i }),
            None => None::<BucketV>,
        }),
        v matches JsonV::Array(a) ==> if a.len() > 0 {
            a[0] is Object ==> bucket_of_value(v) == bucket_of_value(a[0]) && key_of_value(v) == key_of_value(a[0])
        } else {
            bucket_of_value(v) is None && key_of_value(v) is None
        },
        !(v is Object || v is Array) ==> bucket_of_value(v) is None && key_of_value(v) is None,
{
}

fn is_named(k: &GarageKey, name: &str) -> (b: bool)
    ensures
        b == named(k@, name@),
{
    match &k.name {
        Some(n) => crate::text::str_eq(n.as_str(), name),
        None => false,
    }
}

/// Finds the keys named `name` (the search behind `lookup_key_by_name`).
pub fn select_key_by_name(keys: Vec<GarageKey>, name: &str) -> (r: KeyLookup)
    ensures
        r@ == lookup_by_name(keys_view(keys@), name@),
{
    let ghost all = keys_view(keys@);
    let mut matches: Vec<GarageKey> = Vec::new();
    let mut keys = keys;
    let mut i: usize = 0;
    let n = keys.len();
    while i < n
        invariant
            i <= n,
            n == all.len(),
            keys_view(keys@) == all,
            keys_view(matches@) == keys_named(all.subrange(0, i as int), name@),
        decreases n - i,
    {
        let ghost pre = all.subrange(0, i as int + 1);
        assert(pre.drop_last() =~= all.subrange(0, i as int));
        assert(pre.last() == keys@[i as int]@);
        if is_named(&keys[i], name) {
            let k = keys[i].duplicate();
            let ghost before = keys_view(matches@);
            let ghost kv = k@;
            matches.push(k);
            assert(keys_view(matches@) =~= before.push(kv));
        }
        i += 1;
    }
    assert(all.subrange(0, n as int) =~= all);
    if matches.len() == 0 {
        KeyLookup::NotFound
    } else if matches.len() == 1 {
        let k = matches.pop();
        match k {
            Some(k) => KeyLookup::Single(k),
            None => KeyLookup::NotFound,
        }
    } else {
        KeyLookup::Multiple
    }
}

/// Whether a status code reports success (200 to 299).
pub open spec fn is_success(status: u16) -> bool {
    200 <= status && status <= 299
}

/// A non-success reply from Garage, as an error holding its status and body.
pub open spec fn garage_status_check(status: u16, body: Seq<char>) -> Result<(), AppErrorV> {
    if is_success(status) {
        Ok(())
    } else {
        Err(AppErrorV::GarageApi { status, message: body })
    }
}

/// Refuses a non-success reply from Garage.
pub fn ensure_success(status: u16, body: &str) -> (r: Result<(), AppError>)
    ensures
        match r {
            Ok(()) => garage_status_check(status, body@) is Ok,
            Err(e) => garage_status_check(status, body@) == Err::<(), AppErrorV>(e@),
        },
{
    if 200 <= status && status <= 299 {
        Ok(())
    } else {
        Err(AppError::GarageApi { status, message: owned(body) })
    }
}

/// A reply body's value; a body that is not JSON is a JSON error.
pub open spec fn body_value(parsed: Result<JsonV, Seq<char>>) -> Result<JsonV, AppErrorV> {
    match parsed {
        Ok(v) => Ok(v),
        Err(m) => Err(AppErrorV::Json(m)),
    }
}

fn body_value_exec(parsed: Result<Json, String>) -> (r: Result<Json, AppError>)
    ensures
        match r {
            Ok(v) => body_value(parsed_view(parsed)) == Ok::<JsonV, AppErrorV>(v@),
            Err(e) => body_value(parsed_view(parsed)) == Err::<JsonV, AppErrorV>(e@),
        },
{
    match parsed {
        Ok(v) => Ok(v),
        Err(m) => Err(AppError::Json(m)),
    }
}

/// The cluster status reply: its value when the request succeeded.
pub open spec fn status_reply(status: u16, body: Seq<char>, parsed: Result<JsonV, Seq<char>>) -> Result<JsonV, AppErrorV> {
    match garage_status_check(status, body) {
        Err(e) => Err(e),
        Ok(()) => body_value(parsed),
    }
}

/// Reads the cluster status reply (`get_status`).
pub fn status_response(status: u16, body: &str) -> (r: Result<Json, AppError>)
    ensures
        match r {
            Ok(v) => status_reply(status, body@, json_text(body@)) == Ok::<JsonV, AppErrorV>(v@),
            Err(e) => status_reply(status, body@, json_text(body@)) == Err::<JsonV, AppErrorV>(e@),
        },
{
    ensure_success(status, body)?;
    body_value_exec(parse_json_value(body))
}

/// The reply to a bucket search: not found on 404, else the bucket it describes, if any.
pub open spec fn bucket_search_reply(status: u16, body: Seq<char>, parsed: Result<JsonV, Seq<char>>) -> Result<
    Option<BucketV>,
    AppErrorV,
> {
    if status == 404 {
        Ok(None)
    } else {
        match garage_status_check(status, body) {
            Err(e) => Err(e),
            Ok(()) => match body_value(parsed) {
                Err(e) => Err(e),
                Ok(v) => Ok(bucket_of_value(v)),
            },
        }
    }
}

pub open spec fn opt_bucket_view(b: Option<Bucket>) -> Option<BucketV> {
    match b {
        Some(b) => Some(b@),
        None => None,
    }
}

/// Reads the reply to a bucket search (`get_bucket_by_alias_or_name`).
pub fn bucket_search_response(status: u16, body: &str) -> (r: Result<Option<Bucket>, AppError>)
    ensures
        match r {
            Ok(b) => bucket_search_reply(status, body@, json_text(body@)) == Ok::<Option<BucketV>, AppErrorV>(opt_bucket_view(b)),
            Err(e) => bucket_search_reply(status, body@, json_text(body@)) == Err::<Option<BucketV>, AppErrorV>(e@),
        },
{
    if status == 404 {
        return Ok(None);
    }
    ensure_success(status, body)?;
    let v = body_value_exec(parse_json_value(body))?;
    Ok(bucket_from_value(&v))
}

/// The reply to a bucket creation: the bucket it describes, or nothing when the body is blank
/// or describes none (the bucket is then looked up by name).
pub open spec fn bucket_create_reply(status: u16, body: Seq<char>, parsed: Result<JsonV, Seq<char>>) -> Result<
    Option<BucketV>,
    AppErrorV,
> {
    match garage_status_check(status, body) {
        Err(e) => Err(e),
        Ok(()) => if is_blank(body) {
            Ok(None)
        } else {
            match body_value(parsed) {
                Err(e) => Err(e),
                Ok(v) => Ok(bucket_of_value(v)),
            }
        },
    }
}

/// Reads the reply to a bucket creation (`create_bucket`).
pub fn bucket_create_response(status: u16, body: &str) -> (r: Result<Option<Bucket>, AppError>)
    ensures
        match r {
            Ok(b) => bucket_create_reply(status, body@, json_text(body@)) == Ok::<Option<BucketV>, AppErrorV>(opt_bucket_view(b)),
            Err(e) => bucket_create_reply(status, body@, json_text(body@)) == Err::<Option<BucketV>, AppErrorV>(e@),
        },
{
    ensure_success(status, body)?;
    if is_blank_str(body) {
        return Ok(None);
    }
    let v = body_value_exec(parse_json_value(body))?;
    Ok(bucket_from_value(&v))
}

/// After a creation whose reply described no bucket: the bucket found by name, else an error.
pub open spec fn bucket_after_create(name: Seq<char>, found: Result<Option<BucketV>, AppErrorV>) -> Result<BucketV, AppErrorV> {
    match found {
        Err(e) => Err(e),
        Ok(Some(b)) => Ok(b),
        Ok(None) => Err(AppErrorV::Resource("bucket '"@ + name + "' was created but lookup by alias failed"@)),
    }
}

pub open spec fn found_bucket_view(f: Result<Option<Bucket>, AppError>) -> Result<Option<BucketV>, AppErrorV> {
    match f {
        Ok(o) => Ok(opt_bucket_view(o)),
        Err(x) => Err(x@),
    }
}

pub open spec fn lookup_view(f: Result<KeyLookup, AppError>) -> Result<KeyLookupV, AppErrorV> {
    match f {
        Ok(l) => Ok(l@),
        Err(x) => Err(x@),
    }
}

pub open spec fn listed_view(f: Result<Vec<GarageKey>, AppError>) -> Result<Seq<GarageKeyV>, AppErrorV> {
    match f {
        Ok(k) => Ok(keys_view(k@)),
        Err(x) => Err(x@),
    }
}

/// The bucket found by name after a creation whose reply described none.
pub fn bucket_after_create_lookup(name: &str, found: Result<Option<Bucket>, AppError>) -> (r: Result<Bucket, AppError>)
    ensures
        match r {
            Ok(b) => bucket_after_create(name@, found_bucket_view(found)) == Ok::<BucketV, AppErrorV>(b@),
            Err(e) => bucket_after_create(name@, found_bucket_view(found)) == Err::<BucketV, AppErrorV>(e@),
        },
{
    match found {
        Err(e) => Err(e),
        Ok(Some(b)) => Ok(b),
        Ok(None) => Err(resource_quoting("bucket '", name, "' was created but lookup by alias failed")),
    }
}

/// The reply to a key listing: no keys on 404, else the keys the listing holds.
pub open spec fn key_list_reply(status: u16, body: Seq<char>, parsed: Result<JsonV, Seq<char>>) -> Result<
    Seq<GarageKeyV>,
    AppErrorV,
> {
    if status == 404 {
        Ok(Seq::empty())
    } else {
        match garage_status_check(status, body) {
            Err(e) => Err(e),
            Ok(()) => match body_value(parsed) {
                Err(e) => Err(e),
                Ok(v) => key_listing(v),
            },
        }
    }
}

/// Reads the reply to a key listing (`list_keys`).
pub fn key_list_response(status: u16, body: &str) -> (r: Result<Vec<GarageKey>, AppError>)
    ensures
        match r {
            Ok(keys) => key_list_reply(status, body@, json_text(body@)) == Ok::<Seq<GarageKeyV>, AppErrorV>(keys_view(keys@)),
            Err(e) => key_list_reply(status, body@, json_text(body@)) == Err::<Seq<GarageKeyV>, AppErrorV>(e@),
        },
{
    if status == 404 {
        let keys: Vec<GarageKey> = Vec::new();
        assert(keys_view(keys@) =~= Seq::<GarageKeyV>::empty());
        return Ok(keys);
    }
    ensure_success(status, body)?;
    let v = body_value_exec(parse_json_value(body))?;
    keys_from_listing(&v)
}

/// The outcome of a search for keys by name, given the listing of all keys.
pub open spec fn key_search(listed: Result<Seq<GarageKeyV>, AppErrorV>, name: Seq<char>) -> Result<KeyLookupV, AppErrorV> {
    match listed {
        Err(e) => Err(e),
        Ok(keys) => Ok(lookup_by_name(keys, name)),
    }
}

/// Searches the listing of all keys for the keys named `name` (`lookup_key_by_name`).
pub fn lookup_key_by_name(listed: Result<Vec<GarageKey>, AppError>, name: &str) -> (r: Result<KeyLookup, AppError>)
    ensures
        match r {
            Ok(l) => key_search(listed_view(listed), name@) == Ok::<KeyLookupV, AppErrorV>(l@),
            Err(e) => key_search(listed_view(listed), name@) == Err::<KeyLookupV, AppErrorV>(e@),
        },
{
    match listed {
        Err(e) => Err(e),
        Ok(keys) => Ok(select_key_by_name(keys, name)),
    }
}

pub open spec fn opt_key_view(k: Option<GarageKey>) -> Option<GarageKeyV> {
    match k {
        Some(k) => Some(k@),
        None => None,
    }
}

/// The reply to a key creation: the key it describes, or nothing when the body is blank or
/// describes none (the key is then looked up by name).
pub open spec fn key_create_reply(status: u16, body: Seq<char>, parsed: Result<JsonV, Seq<char>>) -> Result<
    Option<GarageKeyV>,
    AppErrorV,
> {
    match garage_status_check(status, body) {
        Err(e) => Err(e),
        Ok(()) => if is_blank(body) {
            Ok(None)
        } else {
            match body_value(parsed) {
                Err(e) => Err(e),
                Ok(v) => Ok(key_of_value(v)),
            }
        },
    }
}

/// Reads the reply to a key creation (`create_key`).
pub fn key_create_response(status: u16, body: &str) -> (r: Result<Option<GarageKey>, AppError>)
    ensures
        match r {
            Ok(k) => key_create_reply(status, body@, json_text(body@)) == Ok::<Option<GarageKeyV>, AppErrorV>(opt_key_view(k)),
            Err(e) => key_create_reply(status, body@, json_text(body@)) == Err::<Option<GarageKeyV>, AppErrorV>(e@),
        },
{
    ensure_success(status, body)?;
    if is_blank_str(body) {
        return Ok(None);
    }
    let v = body_value_exec(parse_json_value(body))?;
    Ok(key_from_value(&v))
}

/// After a creation whose reply described no key: the single key found by name, else an error.
pub open spec fn key_after_create(name: Seq<char>, found: Result<KeyLookupV, AppErrorV>) -> Result<GarageKeyV, AppErrorV> {
    match found {
        Err(e) => Err(e),
        Ok(KeyLookupV::Single(k)) => Ok(k),
        Ok(KeyLookupV::NotFound) => Err(AppErrorV::Resource("key '"@ + name + "' was created but lookup failed"@)),
        Ok(KeyLookupV::Multiple) => Err(
            AppErrorV::Resource("key '"@ + name + "' was created but multiple matches were found"@),
        ),
    }
}

/// The key found by name after a creation whose reply described none.
pub fn key_after_create_lookup(name: &str, found: Result<KeyLookup, AppError>) -> (r: Result<GarageKey, AppError>)
    ensures
        match r {
            Ok(k) => key_after_create(name@, lookup_view(found)) == Ok::<GarageKeyV, AppErrorV>(k@),
            Err(e) => key_after_create(name@, lookup_view(found)) == Err::<GarageKeyV, AppErrorV>(e@),
        },
{
    match found {
        Err(e) => Err(e),
        Ok(KeyLookup::Single(k)) => Ok(k),
        Ok(KeyLookup::NotFound) => Err(resource_quoting("key '", name, "' was created but lookup failed")),
        Ok(KeyLookup::Multiple) => Err(resource_quoting("key '", name, "' was created but multiple matches were found")),
    }
}

/// Reads the reply to a permission grant (`allow_bucket_key`).
pub fn allow_response(status: u16, body: &str) -> (r: Result<(), AppError>)
    ensures
        match r {
            Ok(()) => garage_status_check(status, body@) is Ok,
            Err(e) => garage_status_check(status, body@) == Err::<(), AppErrorV>(e@),
        },
{
    ensure_success(status, body)
}

/// The address of an admin endpoint: the base, a slash, and the path without its leading slashes.
pub open spec fn garage_url(base: Seq<char>, path: Seq<char>) -> Seq<char> {
    base + "/"@ + trim_start_char(path, '/')
}

/// The address of an admin endpoint.
pub fn endpoint_url(base: &str, path: &str) -> (u: String)
    ensures
        u@ == garage_url(base@, path@),
{
    let mut u = owned(base);
    u.append("/");
    let p = trim_start_matches_char(path, '/');
    u.append(p.as_str());
    assert(u@ =~= garage_url(base@, path@));
    u
}

/// The endpoint that reports the cluster status.
pub fn status_path() -> (p: &'static str)
    ensures
        p@ == "/v1/status"@,
{
    "/v1/status"
}

/// The endpoint that creates and searches buckets.
pub fn bucket_path() -> (p: &'static str)
    ensures
        p@ == "/v1/bucket"@,
{
    "/v1/bucket"
}

/// The endpoint that creates and lists keys.
pub fn key_path() -> (p: &'static str)
    ensures
        p@ == "/v1/key"@,
{
    "/v1/key"
}

/// The endpoint that grants a key permissions on a bucket.
pub fn allow_path() -> (p: &'static str)
    ensures
        p@ == "/v2/AllowBucketKey"@,
{
    "/v2/AllowBucketKey"
}

fn object_of_one(key: &str, value: Json) -> (j: Json)
    ensures
        j@ == JsonV::Object(seq![(key@, value@)]),
{
    let mut m: Vec<(String, Json)> = Vec::new();
    let ghost vv = value@;
    m.push((owned(key), value));
    proof {
        lemma_object_view(m);
        assert(members_view(m@) =~= seq![(key@, vv)]);
    }
    Json::Object(m)
}

/// The body that asks for a bucket with a global alias.
pub fn create_bucket_body(name: &str) -> (j: Json)
    ensures
        j@ == JsonV::Object(seq![("global_alias"@, JsonV::Str(name@))]),
{
    object_of_one("global_alias", Json::Str(owned(name)))
}

/// The body that asks for a key with a name.
pub fn create_key_body(name: &str) -> (j: Json)
    ensures
        j@ == JsonV::Object(seq![("name"@, JsonV::Str(name@))]),
{
    object_of_one("name", Json::Str(owned(name)))
}

/// The body that grants a key permissions on a bucket.
pub open spec fn allow_body(bucket_id: Seq<char>, access_key_id: Seq<char>, read: bool, write: bool, owner: bool) -> JsonV {
    JsonV::Object(
        seq![
            ("bucketId"@, JsonV::Str(bucket_id)),
            ("accessKeyId"@, JsonV::Str(access_key_id)),
            (
                "permissions"@,
                JsonV::Object(
                    seq![("read"@, JsonV::Bool(read)), ("write"@, JsonV::Bool(write)), ("owner"@, JsonV::Bool(owner))],
                ),
            ),
        ],
    )
}

/// The body that grants a key permissions on a bucket.
pub fn allow_request_body(bucket_id: &str, access_key_id: &str, read: bool, write: bool, owner: bool) -> (j: Json)
    ensures
        j@ == allow_body(bucket_id@, access_key_id@, read, write, owner),
{
    let mut perms: Vec<(String, Json)> = Vec::new();
    perms.push((owned("read"), Json::Bool(read)));
    perms.push((owned("write"), Json::Bool(write)));
    perms.push((owned("owner"), Json::Bool(owner)));
    proof {
        lemma_object_view(perms);
        assert(members_view(perms@) =~= seq![("read"@, JsonV::Bool(read)), ("write"@, JsonV::Bool(write)), ("owner"@, JsonV::Bool(owner))]);
    }
    let p = Json::Object(perms);
    let ghost pv = p@;
    let mut m: Vec<(String, Json)> = Vec::new();
    m.push((owned("bucketId"), Json::Str(owned(bucket_id))));
    m.push((owned("accessKeyId"), Json::Str(owned(access_key_id))));
    m.push((owned("permissions"), p));
    proof {
        lemma_object_view(m);
        assert(members_view(m@) =~= seq![
            ("bucketId"@, JsonV::Str(bucket_id@)),
            ("accessKeyId"@, JsonV::Str(access_key_id@)),
            ("permissions"@, pv),
        ]);
    }
    Json::Object(m)
}

} // verus!

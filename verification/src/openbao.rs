//! OpenBao's KV version 2 API: the requests the controller sends and how it reads the replies.
use vstd::prelude::*;
use vstd::string::*;
use crate::error::{AppError, AppErrorV};
use crate::garage::is_success;
use crate::json::{lemma_object_view, members_view, Json, JsonV};
use crate::text::{owned, str_eq};

verus! {

pub open spec fn strings_view(v: Seq<String>) -> Seq<Seq<char>> {
    v.map_values(|s: String| s@)
}

/// The address of a secret's metadata (used to list the entries under it).
pub open spec fn metadata_url(base: Seq<char>, mount: Seq<char>, path: Seq<char>) -> Seq<char> {
    base + "/v1/"@ + mount + "/metadata/"@ + path
}

/// The address of a secret's data.
pub open spec fn data_url(base: Seq<char>, mount: Seq<char>, path: Seq<char>) -> Seq<char> {
    base + "/v1/"@ + mount + "/data/"@ + path
}

/// The address of a secret's metadata.
pub fn metadata_address(base: &str, mount: &str, path: &str) -> (u: String)
    ensures
        u@ == metadata_url(base@, mount@, path@),
{
    let mut u = owned(base);
    u.append("/v1/");
    u.append(mount);
    u.append("/metadata/");
    u.append(path);
    assert(u@ =~= metadata_url(base@, mount@, path@));
    u
}

/// The address of a secret's data.
pub fn data_address(base: &str, mount: &str, path: &str) -> (u: String)
    ensures
        u@ == data_url(base@, mount@, path@),
{
    let mut u = owned(base);
    u.append("/v1/");
    u.append(mount);
    u.append("/data/");
    u.append(path);
    assert(u@ =~= data_url(base@, mount@, path@));
    u
}

/// The headers of every request: the token, no compression, and the namespace when one is set.
pub open spec fn vault_headers(token: Seq<char>, namespace: Seq<char>) -> Seq<(Seq<char>, Seq<char>)> {
    let base = seq![("X-Vault-Token"@, token), ("Accept-Encoding"@, "identity"@)];
    if namespace.len() == 0 {
        base
    } else {
        base.push(("X-Vault-Namespace"@, namespace))
    }
}

pub open spec fn pairs_view(v: Seq<(String, String)>) -> Seq<(Seq<char>, Seq<char>)> {
    v.map_values(|p: (String, String)| (p.0@, p.1@))
}

/// The headers of every request.
pub fn request_headers(token: &str, namespace: &str) -> (h: Vec<(String, String)>)
    ensures
        pairs_view(h@) == vault_headers(token@, namespace@),
{
    let mut h: Vec<(String, String)> = Vec::new();
    h.push((owned("X-Vault-Token"), owned(token)));
    h.push((owned("Accept-Encoding"), owned("identity")));
    if namespace.unicode_len() != 0 {
        h.push((owned("X-Vault-Namespace"), owned(namespace)));
    }
    assert(pairs_view(h@) =~= vault_headers(token@, namespace@));
    h
}

/// A non-success reply from OpenBao, as an error holding its status and body.
pub open spec fn bao_status_check(status: u16, body: Seq<char>) -> Result<(), AppErrorV> {
    if is_success(status) {
        Ok(())
    } else {
        Err(AppErrorV::OpenBaoApi { status, message: body })
    }
}

/// Refuses a non-success reply from OpenBao.
pub fn ensure_success(status: u16, body: &str) -> (r: Result<(), AppError>)
    ensures
        match r {
            Ok(()) => bao_status_check(status, body@) is Ok,
            Err(e) => bao_status_check(status, body@) == Err::<(), AppErrorV>(e@),
        },
{
    if 200 <= status && status <= 299 {
        Ok(())
    } else {
        Err(AppError::OpenBaoApi { status, message: owned(body) })
    }
}

/// The reply to a listing: nothing on 404, else the keys the body lists.
/// `parsed` is the body read as `{"data": {"keys": [...]}}`, or the reader's message.
pub open spec fn list_reply(status: u16, body: Seq<char>, parsed: Result<Seq<Seq<char>>, Seq<char>>) -> Result<
    Seq<Seq<char>>,
    AppErrorV,
> {
    if status == 404 {
        Ok(Seq::empty())
    } else {
        match bao_status_check(status, body) {
            Err(e) => Err(e),
            Ok(()) => match parsed {
                Ok(keys) => Ok(keys),
                Err(m) => Err(AppErrorV::Json(m)),
            },
        }
    }
}

pub open spec fn parsed_keys_view(p: Result<Vec<String>, String>) -> Result<Seq<Seq<char>>, Seq<char>> {
    match p {
        Ok(k) => Ok(strings_view(k@)),
        Err(m) => Err(m@),
    }
}

/// Reads the reply to a listing (`list`).
pub fn list_response(status: u16, body: &str, parsed: Result<Vec<String>, String>) -> (r: Result<Vec<String>, AppError>)
    ensures
        match r {
            Ok(k) => list_reply(status, body@, parsed_keys_view(parsed)) == Ok::<Seq<Seq<char>>, AppErrorV>(strings_view(k@)),
            Err(e) => list_reply(status, body@, parsed_keys_view(parsed)) == Err::<Seq<Seq<char>>, AppErrorV>(e@),
        },
{
    if status == 404 {
        let k: Vec<String> = Vec::new();
        assert(strings_view(k@) =~= Seq::<Seq<char>>::empty());
        return Ok(k);
    }
    ensure_success(status, body)?;
    match parsed {
        Ok(k) => Ok(k),
        Err(m) => Err(AppError::Json(m)),
    }
}

/// The reply to a read: nothing on 404, else the secret's data.
/// `parsed` is the `data.data` member of the body, or the reader's message.
pub open spec fn read_reply(status: u16, body: Seq<char>, parsed: Result<JsonV, Seq<char>>) -> Result<Option<JsonV>, AppErrorV> {
    if status == 404 {
        Ok(None)
    } else {
        match bao_status_check(status, body) {
            Err(e) => Err(e),
            Ok(()) => match parsed {
                Ok(v) => Ok(Some(v)),
                Err(m) => Err(AppErrorV::Json(m)),
            },
        }
    }
}

pub open spec fn parsed_json_view(p: Result<Json, String>) -> Result<JsonV, Seq<char>> {
    match p {
        Ok(j) => Ok(j@),
        Err(m) => Err(m@),
    }
}

pub open spec fn opt_json_view(o: Option<Json>) -> Option<JsonV> {
    match o {
        Some(j) => Some(j@),
        None => None,
    }
}

/// Reads the reply to a read (`read_secret`).
pub fn read_response(status: u16, body: &str, parsed: Result<Json, String>) -> (r: Result<Option<Json>, AppError>)
    ensures
        match r {
            Ok(o) => read_reply(status, body@, parsed_json_view(parsed)) == Ok::<Option<JsonV>, AppErrorV>(opt_json_view(o)),
            Err(e) => read_reply(status, body@, parsed_json_view(parsed)) == Err::<Option<JsonV>, AppErrorV>(e@),
        },
{
    if status == 404 {
        return Ok(None);
    }
    ensure_success(status, body)?;
    match parsed {
        Ok(v) => Ok(Some(v)),
        Err(m) => Err(AppError::Json(m)),
    }
}

/// Reads the reply to a write (`write_secret`).
pub fn write_response(status: u16, body: &str) -> (r: Result<(), AppError>)
    ensures
        match r {
            Ok(()) => bao_status_check(status, body@) is Ok,
            Err(e) => bao_status_check(status, body@) == Err::<(), AppErrorV>(e@),
        },
{
    ensure_success(status, body)
}

/// The body of a write: the data under `data`.
pub fn write_request_body(data: Json) -> (j: Json)
    ensures
        j@ == JsonV::Object(seq![("data"@, data@)]),
{
    let mut m: Vec<(String, Json)> = Vec::new();
    let ghost dv = data@;
    m.push((owned("data"), data));
    proof {
        lemma_object_view(m);
        assert(members_view(m@) =~= seq![("data"@, dv)]);
    }
    Json::Object(m)
}

/// All listings one after another.
pub open spec fn concat_all(ls: Seq<Seq<Seq<char>>>) -> Seq<Seq<char>>
    decreases ls.len(),
{
    if ls.len() == 0 {
        Seq::empty()
    } else {
        concat_all(ls.drop_last()) + ls.last()
    }
}

/// The entries of `s`, each once, where it first occurs.
pub open spec fn dedup(s: Seq<Seq<char>>) -> Seq<Seq<char>>
    decreases s.len(),
{
    if s.len() == 0 {
        Seq::empty()
    } else if dedup(s.drop_last()).contains(s.last()) {
        dedup(s.drop_last())
    } else {
        dedup(s.drop_last()).push(s.last())
    }
}

pub open spec fn listings_view(ls: Seq<Vec<String>>) -> Seq<Seq<Seq<char>>> {
    ls.map_values(|v: Vec<String>| strings_view(v@))
}

fn contains_string(v: &Vec<String>, s: &str) -> (b: bool)
    ensures
        b == strings_view(v@).contains(s@),
{
    let mut i: usize = 0;
    while i < v.len()
        invariant
            i <= v@.len(),
            forall|j: int| 0 <= j < i ==> strings_view(v@)[j] != s@,
        decreases v@.len() - i,
    {
        if str_eq(v[i].as_str(), s) {
            assert(strings_view(v@)[i as int] == s@);
            return true;
        }
        i += 1;
    }
    false
}

/// Merges the listings of several namespaces, keeping each entry once
/// (the merge behind `list_multi`).
pub fn merge_listings(listings: &Vec<Vec<String>>) -> (r: Vec<String>)
    ensures
        strings_view(r@) == dedup(concat_all(listings_view(listings@))),
{
    let ghost ls = listings_view(listings@);
    let mut out: Vec<String> = Vec::new();
    let mut i: usize = 0;
    assert(ls.subrange(0, 0) =~= Seq::<Seq<Seq<char>>>::empty());
    while i < listings.len()
        invariant
            i <= listings@.len(),
            ls == listings_view(listings@),
            strings_view(out@) == dedup(concat_all(ls.subrange(0, i as int))),
        decreases listings@.len() - i,
    {
        let ghost done = concat_all(ls.subrange(0, i as int));
        let cur = &listings[i];
        assert(ls[i as int] == strings_view(cur@));
        let mut j: usize = 0;
        assert(done + strings_view(cur@).subrange(0, 0) =~= done);
        while j < cur.len()
            invariant
                j <= cur@.len(),
                strings_view(out@) == dedup(done + strings_view(cur@).subrange(0, j as int)),
            decreases cur@.len() - j,
        {
            let ghost seen = done + strings_view(cur@).subrange(0, j as int);
            let ghost next = done + strings_view(cur@).subrange(0, j + 1);
            assert(next.drop_last() =~= seen);
            assert(next.last() == cur@[j as int]@);
            if !contains_string(&out, cur[j].as_str()) {
                let ghost before = strings_view(out@);
                let s = cur[j].clone();
                out.push(s);
                assert(strings_view(out@) =~= before.push(cur@[j as int]@));
            }
            j += 1;
        }
        assert(ls.subrange(0, i + 1).drop_last() =~= ls.subrange(0, i as int));
        assert(strings_view(cur@).subrange(0, cur@.len() as int) =~= strings_view(cur@));
        i += 1;
    }
    assert(ls.subrange(0, listings@.len() as int) =~= ls);
    out
}

/// The namespaces joined into a path prefix, each followed by a slash.
pub open spec fn namespace_prefix(ns: Seq<Seq<char>>) -> Seq<char>
    decreases ns.len(),
{
    if ns.len() == 0 {
        Seq::empty()
    } else {
        namespace_prefix(ns.drop_last()) + ns.last() + "/"@
    }
}

/// A path inside the namespaces: the path itself when there are none.
pub open spec fn namespaced(ns: Seq<Seq<char>>, path: Seq<char>) -> Seq<char> {
    namespace_prefix(ns) + path
}

/// `path` inside the namespaces `ns`, outermost first.
pub fn all_path(ns: &Vec<String>, path: &str) -> (p: String)
    ensures
        p@ == namespaced(strings_view(ns@), path@),
{
    let ghost nv = strings_view(ns@);
    let mut p = String::new();
    let mut i: usize = 0;
    assert(nv.subrange(0, 0) =~= Seq::<Seq<char>>::empty());
    while i < ns.len()
        invariant
            i <= ns@.len(),
            nv == strings_view(ns@),
            p@ == namespace_prefix(nv.subrange(0, i as int)),
        decreases ns@.len() - i,
    {
        p.append(ns[i].as_str());
        p.append("/");
        assert(nv.subrange(0, i + 1).drop_last() =~= nv.subrange(0, i as int));
        i += 1;
        assert(p@ =~= namespace_prefix(nv.subrange(0, i as int)));
    }
    p.append(path);
    assert(nv.subrange(0, ns@.len() as int) =~= nv);
    assert(p@ =~= namespaced(nv, path@));
    p
}


proof fn lemma_dedup(s: Seq<Seq<char>>)
    ensures
        dedup(s).no_duplicates(),
        forall|x: Seq<char>| dedup(s).contains(x) <==> s.contains(x),
    decreases s.len(),
{
    if s.len() > 0 {
        let d = dedup(s.drop_last());
        lemma_dedup(s.drop_last());
        assert forall|x: Seq<char>| s.contains(x) <==> (s.drop_last().contains(x) || x == s.last()) by {
            if s.contains(x) {
                let k = choose|k: int| 0 <= k < s.len() && s[k] == x;
                if k < s.len() - 1 {
                    assert(s.drop_last()[k] == x);
                }
            }
            if s.drop_last().contains(x) {
                let k = choose|k: int| 0 <= k < s.drop_last().len() && s.drop_last()[k] == x;
                assert(s[k] == x);
            }
            if x == s.last() {
                assert(s[s.len() - 1] == x);
            }
        }
        if !d.contains(s.last()) {
            let e = d.push(s.last());
            assert forall|x: Seq<char>| e.contains(x) <==> (d.contains(x) || x == s.last()) by {
                if e.contains(x) {
                    let k = choose|k: int| 0 <= k < e.len() && e[k] == x;
                    if k < d.len() {
                        assert(d[k] == x);
                    }
                }
                if d.contains(x) {
                    let k = choose|k: int| 0 <= k < d.len() && d[k] == x;
                    assert(e[k] == x);
                }
                if x == s.last() {
                    assert(e[d.len() as int] == x);
                }
            }
            assert forall|i: int, j: int| 0 <= i < e.len() && 0 <= j < e.len() && i != j implies e[i] != e[j] by {
                if i == d.len() {
                    assert(d.contains(e[j]));
                } else if j == d.len() {
                    assert(d.contains(e[i]));
                }
            }
        }
    }
}

proof fn lemma_concat_all_contains(ls: Seq<Seq<Seq<char>>>, x: Seq<char>)
    ensures
        concat_all(ls).contains(x) <==> exists|i: int| 0 <= i < ls.len() && (#[trigger] ls[i]).contains(x),
    decreases ls.len(),
{
    if ls.len() > 0 {
        let pre = ls.drop_last();
        let c = concat_all(pre);
        let l = ls.last();
        lemma_concat_all_contains(pre, x);
        if concat_all(ls).contains(x) {
            let k = choose|k: int| 0 <= k < (c + l).len() && (c + l)[k] == x;
            if k < c.len() {
                assert(c[k] == x);
                let i = choose|i: int| 0 <= i < pre.len() && (#[trigger] pre[i]).contains(x);
                assert(ls[i] == pre[i]);
            } else {
                assert(l[k - c.len()] == x);
                assert(ls[ls.len() - 1].contains(x));
            }
        }
        if exists|i: int| 0 <= i < ls.len() && (#[trigger] ls[i]).contains(x) {
            let i = choose|i: int| 0 <= i < ls.len() && (#[trigger] ls[i]).contains(x);
            if i < ls.len() - 1 {
                assert(pre[i] == ls[i]);
                let k = choose|k: int| 0 <= k < c.len() && c[k] == x;
                assert((c + l)[k] == x);
            } else {
                let k = choose|k: int| 0 <= k < l.len() && l[k] == x;
                assert((c + l)[c.len() + k] == x);
            }
        }
    }
}

/// Merging listings keeps each entry once, and keeps exactly the entries that some
/// listing holds.
pub proof fn lemma_merged_listing(ls: Seq<Seq<Seq<char>>>)
    ensures
        dedup(concat_all(ls)).no_duplicates(),
        forall|x: Seq<char>|
            #![trigger dedup(concat_all(ls)).contains(x)]
            dedup(concat_all(ls)).contains(x) <==> exists|i: int| 0 <= i < ls.len() && (#[trigger] ls[i]).contains(x),
{
    lemma_dedup(concat_all(ls));
    assert forall|x: Seq<char>|
        dedup(concat_all(ls)).contains(x) <==> exists|i: int| 0 <= i < ls.len() && (#[trigger] ls[i]).contains(x) by {
        lemma_concat_all_contains(ls, x);
    }
}

/// Without namespaces a path is left as it is.
pub proof fn lemma_no_namespace_path(path: Seq<char>)
    ensures
        namespaced(Seq::empty(), path) == path,
{
    assert(Seq::<char>::empty() + path =~= path);
}

} // verus!

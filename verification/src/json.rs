//! JSON values as the controller stores and exchanges them, with the object operations it
//! performs and the wording of value-shape errors.
use vstd::prelude::*;
use vstd::string::*;
use crate::text::{chars_of, decimal, hex, push_char, push_decimal, push_hex, push_signed_decimal, signed_decimal, str_eq};

verus! {

/// A JSON number, split the way the decoder reports it.
#[derive(Debug, PartialEq)]
pub enum JsonNumber {
    /// A non-negative integer.
    PosInt(u64),
    /// A negative integer.
    NegInt(i64),
    /// Any other number, held as the text it is reported with.
    Float(String),
}

/// A JSON value. Object members keep their order.
#[derive(Debug, PartialEq)]
pub enum Json {
    Null,
    Bool(bool),
    Number(JsonNumber),
    Str(String),
    Array(Vec<Json>),
    Object(Vec<(String, Json)>),
}

/// The mathematical view of a JSON number.
pub enum NumberV {
    PosInt(u64),
    NegInt(i64),
    Float(Seq<char>),
}

/// The mathematical view of a JSON value.
pub enum JsonV {
    Null,
    Bool(bool),
    Number(NumberV),
    Str(Seq<char>),
    Array(Seq<JsonV>),
    Object(Seq<(Seq<char>, JsonV)>),
}

impl View for JsonNumber {
    type V = NumberV;

    open spec fn view(&self) -> NumberV {
        match self {
            JsonNumber::PosInt(n) => NumberV::PosInt(*n),
            JsonNumber::NegInt(n) => NumberV::NegInt(*n),
            JsonNumber::Float(s) => NumberV::Float(s@),
        }
    }
}

pub open spec fn json_view(j: Json) -> JsonV
    decreases j,
{
    proof {
        broadcast use vstd::std_specs::vec::axiom_vec_decreases_to_view, vstd::seq::axiom_seq_index_decreases;
    }
    match j {
        Json::Null => JsonV::Null,
        Json::Bool(b) => JsonV::Bool(b),
        Json::Number(n) => JsonV::Number(n@),
        Json::Str(s) => JsonV::Str(s@),
        Json::Array(a) => JsonV::Array(
            Seq::new(a@.len(), |i: int| if 0 <= i < a@.len() { json_view(a@[i]) } else { JsonV::Null }),
        ),
        Json::Object(o) => JsonV::Object(
            Seq::new(
                o@.len(),
                |i: int|
                    if 0 <= i < o@.len() {
                        (o@[i].0@, json_view(o@[i].1))
                    } else {
                        (Seq::empty(), JsonV::Null)
                    },
            ),
        ),
    }
}

impl View for Json {
    type V = JsonV;

    open spec fn view(&self) -> JsonV {
        json_view(*self)
    }
}

/// The view of a sequence of object members.
pub open spec fn members_view(o: Seq<(String, Json)>) -> Seq<(Seq<char>, JsonV)> {
    o.map_values(|p: (String, Json)| (p.0@, json_view(p.1)))
}

pub proof fn lemma_object_view(o: Vec<(String, Json)>)
    ensures
        json_view(Json::Object(o)) == JsonV::Object(members_view(o@)),
{
    assert(JsonV::Object(members_view(o@)) == json_view(Json::Object(o))) by {
        if let JsonV::Object(m) = json_view(Json::Object(o)) {
            assert(m =~= members_view(o@));
        }
    }
}

pub proof fn lemma_array_view(a: Vec<Json>)
    ensures
        json_view(Json::Array(a)) == JsonV::Array(a@.map_values(|j: Json| json_view(j))),
{
    if let JsonV::Array(m) = json_view(Json::Array(a)) {
        assert(m =~= a@.map_values(|j: Json| json_view(j)));
    }
}

/// The value of the first member named `key`.
pub open spec fn member(entries: Seq<(Seq<char>, JsonV)>, key: Seq<char>) -> Option<JsonV>
    decreases entries.len(),
{
    if entries.len() == 0 {
        None
    } else if entries[0].0 == key {
        Some(entries[0].1)
    } else {
        member(entries.drop_first(), key)
    }
}

/// `value.get(key)`: the member `key` of an object; nothing for any other value.
pub open spec fn get(v: JsonV, key: Seq<char>) -> Option<JsonV> {
    match v {
        JsonV::Object(entries) => member(entries, key),
        _ => None,
    }
}

/// `value.get(key).and_then(Value::as_str)`.
pub open spec fn get_str(v: JsonV, key: Seq<char>) -> Option<Seq<char>> {
    match get(v, key) {
        Some(JsonV::Str(s)) => Some(s),
        _ => None,
    }
}

/// Sets member `key` to `value`: replaces the first member of that name, or appends one.
pub open spec fn insert_member(entries: Seq<(Seq<char>, JsonV)>, key: Seq<char>, value: JsonV) -> Seq<
    (Seq<char>, JsonV),
>
    decreases entries.len(),
{
    if entries.len() == 0 {
        seq![(key, value)]
    } else if entries[0].0 == key {
        entries.update(0, (key, value))
    } else {
        seq![entries[0]] + insert_member(entries.drop_first(), key, value)
    }
}

pub proof fn lemma_member_of_insert(entries: Seq<(Seq<char>, JsonV)>, key: Seq<char>, value: JsonV, other: Seq<char>)
    ensures
        member(insert_member(entries, key, value), other) == if other == key {
            Some(value)
        } else {
            member(entries, other)
        },
    decreases entries.len(),
{
    let r = insert_member(entries, key, value);
    if entries.len() == 0 {
        assert(r.drop_first() =~= Seq::<(Seq<char>, JsonV)>::empty());
        assert(r[0] == (key, value));
        assert(member(r.drop_first(), other) is None);
    } else if entries[0].0 == key {
        assert(r.drop_first() =~= entries.drop_first());
        assert(r[0] == (key, value));
        if other != key {
            assert(member(r, other) == member(r.drop_first(), other));
            assert(member(entries, other) == member(entries.drop_first(), other));
        }
    } else {
        assert(r[0] == entries[0]);
        lemma_member_of_insert(entries.drop_first(), key, value, other);
        assert(r.drop_first() =~= insert_member(entries.drop_first(), key, value));
    }
}

impl Json {
    /// `self.get(key)`.
    pub fn get_member(&self, key: &str) -> (r: Option<&Json>)
        ensures
            match r {
                Some(x) => get(self@, key@) == Some(x@),
                None => get(self@, key@) is None,
            },
    {
        match self {
            Json::Object(o) => {
                proof {
                    lemma_object_view(*o);
                }
                find_member(o, key)
            },
            _ => None,
        }
    }

    /// `self.get(key).and_then(Value::as_str)`.
    pub fn get_str_member(&self, key: &str) -> (r: Option<&String>)
        ensures
            match r {
                Some(s) => get_str(self@, key@) == Some(s@),
                None => get_str(self@, key@) is None,
            },
    {
        match self.get_member(key) {
            Some(Json::Str(s)) => Some(s),
            _ => None,
        }
    }

    /// `self.is_object()`.
    pub fn is_object(&self) -> (b: bool)
        ensures
            b == (self@ is Object),
    {
        match self {
            Json::Object(_) => true,
            _ => false,
        }
    }
}

/// The first member named `key`.
pub fn find_member<'a>(o: &'a Vec<(String, Json)>, key: &str) -> (r: Option<&'a Json>)
    ensures
        match r {
            Some(x) => member(members_view(o@), key@) == Some(x@),
            None => member(members_view(o@), key@) is None,
        },
{
    let ghost all = members_view(o@);
    let mut i: usize = 0;
    assert(all.subrange(0, all.len() as int) =~= all);
    while i < o.len()
        invariant
            i <= o@.len(),
            all == members_view(o@),
            member(all, key@) == member(all.subrange(i as int, all.len() as int), key@),
        decreases o@.len() - i,
    {
        let ghost rest = all.subrange(i as int, all.len() as int);
        if str_eq(o[i].0.as_str(), key) {
            assert(rest[0] == all[i as int]);
            assert(all[i as int] == (o@[i as int].0@, json_view(o@[i as int].1)));
            assert(member(rest, key@) == Some(rest[0].1));
            return Some(&o[i].1);
        }
        assert(rest.drop_first() =~= all.subrange(i + 1, all.len() as int));
        i += 1;
    }
    None
}

/// Sets member `key` of `entries` to `value` (`Map::insert`).
pub fn insert_member_exec(entries: &mut Vec<(String, Json)>, key: String, value: Json)
    ensures
        members_view(final(entries)@) == insert_member(members_view(old(entries)@), key@, value@),
{
    let ghost old_all = members_view(entries@);
    let mut i: usize = 0;
    while i < entries.len()
        invariant
            i <= entries@.len(),
            entries@ == old(entries)@,
            old_all == members_view(entries@),
            forall|j: int| 0 <= j < i ==> (#[trigger] old_all[j]).0 != key@,
        decreases entries@.len() - i,
    {
        if str_eq(entries[i].0.as_str(), key.as_str()) {
            let ghost before = entries@;
            entries.set(i, (key, value));
            proof {
                lemma_insert_at(old_all, key@, value@, i as int);
                assert(members_view(entries@) =~= old_all.update(i as int, (key@, value@)));
            }
            return;
        }
        i += 1;
    }
    let ghost before = entries@;
    entries.push((key, value));
    proof {
        lemma_insert_absent(old_all, key@, value@);
        assert(members_view(entries@) =~= old_all.push((key@, value@)));
    }
}

proof fn lemma_insert_at(entries: Seq<(Seq<char>, JsonV)>, key: Seq<char>, value: JsonV, i: int)
    requires
        0 <= i < entries.len(),
        entries[i].0 == key,
        forall|j: int| 0 <= j < i ==> (#[trigger] entries[j]).0 != key,
    ensures
        insert_member(entries, key, value) == entries.update(i, (key, value)),
    decreases entries.len(),
{
    if i > 0 {
        lemma_insert_at(entries.drop_first(), key, value, i - 1);
        assert(seq![entries[0]] + entries.drop_first().update(i - 1, (key, value)) =~= entries.update(i, (key, value)));
    }
}

proof fn lemma_insert_absent(entries: Seq<(Seq<char>, JsonV)>, key: Seq<char>, value: JsonV)
    requires
        forall|j: int| 0 <= j < entries.len() ==> (#[trigger] entries[j]).0 != key,
    ensures
        insert_member(entries, key, value) == entries.push((key, value)),
    decreases entries.len(),
{
    if entries.len() > 0 {
        assert(entries[0].0 != key);
        lemma_insert_absent(entries.drop_first(), key, value);
        assert(seq![entries[0]] + entries.drop_first().push((key, value)) =~= entries.push((key, value)));
    }
}

/// The text escaping one character of a string in Rust's debug quoting.
/// Characters outside ASCII are written as they are.
pub open spec fn escape_char(c: char) -> Seq<char> {
    if c == '\0' {
        seq!['\\', '0']
    } else if c == '\t' {
        seq!['\\', 't']
    } else if c == '\r' {
        seq!['\\', 'r']
    } else if c == '\n' {
        seq!['\\', 'n']
    } else if c == '\\' {
        seq!['\\', '\\']
    } else if c == '"' {
        seq!['\\', '"']
    } else if c < ' ' || c == '\u{7f}' {
        seq!['\\', 'u', '{'] + hex(c as nat) + seq!['}']
    } else {
        seq![c]
    }
}

/// The escaped text of a string in Rust's debug quoting, without the quotes.
pub open spec fn escape_text(s: Seq<char>) -> Seq<char>
    decreases s.len(),
{
    if s.len() == 0 {
        Seq::empty()
    } else {
        escape_text(s.drop_last()) + escape_char(s.last())
    }
}

/// A string in double quotes, escaped as Rust's debug formatting escapes it.
pub open spec fn quoted(s: Seq<char>) -> Seq<char> {
    seq!['"'] + escape_text(s) + seq!['"']
}

fn push_escaped_char(out: &mut String, c: char)
    ensures
        final(out)@ == old(out)@ + escape_char(c),
{
    if c == '\0' {
        push_char(out, '\\');
        push_char(out, '0');
    } else if c == '\t' {
        push_char(out, '\\');
        push_char(out, 't');
    } else if c == '\r' {
        push_char(out, '\\');
        push_char(out, 'r');
    } else if c == '\n' {
        push_char(out, '\\');
        push_char(out, 'n');
    } else if c == '\\' {
        push_char(out, '\\');
        push_char(out, '\\');
    } else if c == '"' {
        push_char(out, '\\');
        push_char(out, '"');
    } else if c < ' ' || c == '\u{7f}' {
        push_char(out, '\\');
        push_char(out, 'u');
        push_char(out, '{');
        push_hex(out, c as u32);
        push_char(out, '}');
    } else {
        push_char(out, c);
    }
    assert(out@ =~= old(out)@ + escape_char(c));
}

/// Appends `s` in double quotes, escaped as Rust's debug formatting escapes it.
pub fn push_quoted(out: &mut String, s: &str)
    ensures
        final(out)@ == old(out)@ + quoted(s@),
{
    let v = chars_of(s);
    push_char(out, '"');
    let ghost start = out@;
    let mut i: usize = 0;
    while i < v.len()
        invariant
            i <= v@.len(),
            v@ == s@,
            out@ == start + escape_text(s@.subrange(0, i as int)),
        decreases v@.len() - i,
    {
        push_escaped_char(out, v[i]);
        proof {
            assert(s@.subrange(0, i + 1).drop_last() =~= s@.subrange(0, i as int));
        }
        i += 1;
        assert(out@ =~= start + escape_text(s@.subrange(0, i as int)));
    }
    push_char(out, '"');
    assert(s@.subrange(0, v@.len() as int) =~= s@);
    assert(out@ =~= old(out)@ + quoted(s@));
}

/// How a value is described when it has the wrong shape.
pub open spec fn unexpected(v: JsonV) -> Seq<char> {
    match v {
        JsonV::Null => "null"@,
        JsonV::Bool(b) => "boolean `"@ + (if b { "true"@ } else { "false"@ }) + "`"@,
        JsonV::Number(NumberV::PosInt(n)) => "integer `"@ + decimal(n as nat) + "`"@,
        JsonV::Number(NumberV::NegInt(n)) => "integer `"@ + signed_decimal(n as int) + "`"@,
        JsonV::Number(NumberV::Float(t)) => "floating point `"@ + t + "`"@,
        JsonV::Str(s) => "string "@ + quoted(s),
        JsonV::Array(_) => "sequence"@,
        JsonV::Object(_) => "map"@,
    }
}

/// Appends the description of a wrongly shaped value.
pub fn push_unexpected(out: &mut String, v: &Json)
    ensures
        final(out)@ == old(out)@ + unexpected(v@),
{
    match v {
        Json::Null => {
            out.append("null");
        },
        Json::Bool(b) => {
            out.append("boolean `");
            if *b {
                out.append("true");
            } else {
                out.append("false");
            }
            out.append("`");
        },
        Json::Number(JsonNumber::PosInt(n)) => {
            out.append("integer `");
            push_decimal(out, *n);
            out.append("`");
        },
        Json::Number(JsonNumber::NegInt(n)) => {
            out.append("integer `");
            push_signed_decimal(out, *n);
            out.append("`");
        },
        Json::Number(JsonNumber::Float(t)) => {
            out.append("floating point `");
            out.append(t.as_str());
            out.append("`");
        },
        Json::Str(s) => {
            out.append("string ");
            push_quoted(out, s.as_str());
        },
        Json::Array(_) => {
            out.append("sequence");
        },
        Json::Object(_) => {
            out.append("map");
        },
    }
    assert(out@ =~= old(out)@ + unexpected(v@));
}

/// `invalid type: <value>, expected <what>`.
pub open spec fn invalid_type(v: JsonV, expected: Seq<char>) -> Seq<char> {
    "invalid type: "@ + unexpected(v) + ", expected "@ + expected
}

pub fn invalid_type_message(v: &Json, expected: &str) -> (m: String)
    ensures
        m@ == invalid_type(v@, expected@),
{
    let mut m = String::new();
    m.append("invalid type: ");
    push_unexpected(&mut m, v);
    m.append(", expected ");
    m.append(expected);
    assert(m@ =~= invalid_type(v@, expected@));
    m
}


impl JsonNumber {
    /// A copy of the number.
    pub fn duplicate(&self) -> (n: JsonNumber)
        ensures
            n@ == self@,
    {
        match self {
            JsonNumber::PosInt(n) => JsonNumber::PosInt(*n),
            JsonNumber::NegInt(n) => JsonNumber::NegInt(*n),
            JsonNumber::Float(t) => JsonNumber::Float(t.clone()),
        }
    }
}

impl Json {
    /// A copy of the value.
    pub fn duplicate(&self) -> (j: Json)
        ensures
            j@ == self@,
        decreases self,
    {
        match self {
            Json::Null => Json::Null,
            Json::Bool(b) => Json::Bool(*b),
            Json::Number(n) => Json::Number(n.duplicate()),
            Json::Str(s) => Json::Str(s.clone()),
            Json::Array(a) => {
                proof {
                    lemma_array_view(*a);
                }
                let mut out: Vec<Json> = Vec::new();
                let mut i: usize = 0;
                while i < a.len()
                    invariant
                        i <= a@.len(),
                        *self == Json::Array(*a),
                        out@.map_values(|j: Json| json_view(j)) =~= a@.subrange(0, i as int).map_values(|j: Json| json_view(j)),
                    decreases a@.len() - i,
                {
                    proof {
                        broadcast use vstd::std_specs::vec::axiom_vec_decreases_to_view, vstd::seq::axiom_seq_index_decreases;
                        assert(decreases_to!(*self => (*self)->Array_0));
                        assert(decreases_to!(*a => a@));
                        assert(decreases_to!(a@ => a@[i as int]));
                        assert(decreases_to!(*self => a@[i as int]));
                    }
                    let x = a[i].duplicate();
                    let ghost before = out@.map_values(|j: Json| json_view(j));
                    let ghost xv = x@;
                    out.push(x);
                    assert(out@.map_values(|j: Json| json_view(j)) =~= before.push(xv));
                    i += 1;
                    assert(a@.subrange(0, i as int).map_values(|j: Json| json_view(j))
                        =~= before.push(xv));
                }
                assert(a@.subrange(0, a@.len() as int) =~= a@);
                proof {
                    lemma_array_view(out);
                }
                Json::Array(out)
            },
            Json::Object(o) => {
                proof {
                    lemma_object_view(*o);
                }
                let mut out: Vec<(String, Json)> = Vec::new();
                let mut i: usize = 0;
                while i < o.len()
                    invariant
                        i <= o@.len(),
                        *self == Json::Object(*o),
                        members_view(out@) =~= members_view(o@.subrange(0, i as int)),
                    decreases o@.len() - i,
                {
                    proof {
                        broadcast use vstd::std_specs::vec::axiom_vec_decreases_to_view, vstd::seq::axiom_seq_index_decreases;
                        assert(decreases_to!(*self => (*self)->Object_0));
                        assert(decreases_to!(*o => o@));
                        assert(decreases_to!(o@ => o@[i as int]));
                        assert(decreases_to!(o@[i as int] => o@[i as int].1));
                        assert(decreases_to!(*self => o@[i as int].1));
                    }
                    let k = o[i].0.clone();
                    let v = o[i].1.duplicate();
                    let ghost before = members_view(out@);
                    let ghost e = (k@, v@);
                    out.push((k, v));
                    assert(members_view(out@) =~= before.push(e));
                    i += 1;
                    assert(members_view(o@.subrange(0, i as int)) =~= before.push(e));
                }
                assert(o@.subrange(0, o@.len() as int) =~= o@);
                proof {
                    lemma_object_view(out);
                }
                Json::Object(out)
            },
        }
    }
}

/// serde_json's dynamic JSON value, carried opaquely.
#[verifier::external_type_specification]
#[verifier::external_body]
pub struct ExSerdeJsonValue(serde_json::Value);

/// A parse result, by views.
pub open spec fn parsed_view(p: Result<Json, String>) -> Result<JsonV, Seq<char>> {
    match p {
        Ok(j) => Ok(j@),
        Err(e) => Err(e@),
    }
}

/// Names what serde_json reads from a text: the value, or the `Display` of its error.
pub uninterp spec fn json_text(body: Seq<char>) -> Result<JsonV, Seq<char>>;

/// A `serde_json::Value` as a library value, variant for variant; a number is split as
/// `as_u64`, else `as_i64`, else its text.
///
/// Trusted: a one-for-one conversion; nothing is claimed of it on its own, its result is
/// claimed only through `parse_json_value`.
#[verifier::external_body]
fn json_of_value(v: serde_json::Value) -> Json {
    match v {
        serde_json::Value::Null => Json::Null,
        serde_json::Value::Bool(b) => Json::Bool(b),
        serde_json::Value::Number(n) => Json::Number(match (n.as_u64(), n.as_i64()) {
            (Some(u), _) => JsonNumber::PosInt(u),
            (None, Some(i)) => JsonNumber::NegInt(i),
            (None, None) => JsonNumber::Float(n.to_string()),
        }),
        serde_json::Value::String(s) => Json::Str(s),
        serde_json::Value::Array(a) => Json::Array(a.into_iter().map(json_of_value).collect()),
        serde_json::Value::Object(o) => Json::Object(o.into_iter().map(|(k, v)| (k, json_of_value(v))).collect()),
    }
}

/// Reads a text as JSON with `serde_json::from_str::<serde_json::Value>`.
///
/// Trusted: the outcome is named `json_text`, a function of the text alone: the value read,
/// or the `Display` of serde_json's error.
#[verifier::external_body]
pub fn parse_json_value(body: &str) -> (r: Result<Json, String>)
    ensures
        parsed_view(r) == json_text(body@),
{
    match serde_json::from_str::<serde_json::Value>(body) {
        Ok(v) => Ok(json_of_value(v)),
        Err(e) => Err(e.to_string()),
    }
}

} // verus!

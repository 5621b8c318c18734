use vstd::prelude::*;

verus! {

/// A JSON document as plain values: the part of JSON that the OAuth endpoints
/// read and write. Numbers are non-negative integers; any other number reads as
/// `Number(None)`.
pub enum Json {
    Null,
    Bool(bool),
    Number(Option<u64>),
    Str(String),
    Array(Vec<Json>),
    Object(Vec<(String, Json)>),
}

/// The mathematical form of a JSON document: strings as character sequences.
pub enum JsonV {
    Null,
    Bool(bool),
    Number(Option<u64>),
    Str(Seq<char>),
    Array(Seq<JsonV>),
    Object(Seq<(Seq<char>, JsonV)>),
}

pub open spec fn json_view(j: Json) -> JsonV
    decreases j,
{
    match j {
        Json::Null => JsonV::Null,
        Json::Bool(b) => JsonV::Bool(b),
        Json::Number(n) => JsonV::Number(n),
        Json::Str(s) => JsonV::Str(s@),
        Json::Array(a) => JsonV::Array(
            Seq::new(
                a@.len(),
                |i: int|
                    if 0 <= i < a@.len() {
                        json_view(a@[i])
                    } else {
                        JsonV::Null
                    },
            ),
        ),
        Json::Object(m) => JsonV::Object(
            Seq::new(
                m@.len(),
                |i: int|
                    if 0 <= i < m@.len() {
                        (m@[i].0@, json_view(m@[i].1))
                    } else {
                        (Seq::empty(), JsonV::Null)
                    },
            ),
        ),
    }
}

impl View for Json {
    type V = JsonV;

    open spec fn view(&self) -> JsonV {
        json_view(*self)
    }
}

#[verifier::external_type_specification]
#[verifier::external_body]
pub struct ExJsonValue(serde_json::Value);

/// What `serde_json::from_slice::<serde_json::Value>` gives for these bytes
/// (`None` when they are not JSON), taken through `from_value`: a number is
/// kept as its `Number::as_u64`, so a negative or fractional one becomes
/// `Number(None)`.
pub uninterp spec fn json_parse_of(bytes: Seq<u8>) -> Option<JsonV>;

/// Converts a parsed serde_json value, one variant for one variant.
#[verifier::external_body]
fn from_value(v: serde_json::Value) -> Json {
    match v {
        serde_json::Value::Null => Json::Null,
        serde_json::Value::Bool(b) => Json::Bool(b),
        serde_json::Value::Number(n) => Json::Number(n.as_u64()),
        serde_json::Value::String(s) => Json::Str(s),
        serde_json::Value::Array(a) => Json::Array(a.into_iter().map(from_value).collect()),
        serde_json::Value::Object(m) => Json::Object(m.into_iter().map(|(k, x)| (k, from_value(x))).collect()),
    }
}

/// Calls `serde_json::from_slice`; the parse result is named.
#[verifier::external_body]
pub(crate) fn json_parse(bytes: &[u8]) -> (r: Option<Json>)
    ensures
        match r {
            Some(j) => json_parse_of(bytes@) == Some(j@),
            None => json_parse_of(bytes@) is None,
        },
{
    serde_json::from_slice::<serde_json::Value>(bytes).ok().map(from_value)
}

/// Converts to a serde_json value, one variant for one variant.
#[verifier::external_body]
fn to_value(v: &Json) -> serde_json::Value {
    match v {
        Json::Null => serde_json::Value::Null,
        Json::Bool(b) => serde_json::Value::Bool(*b),
        Json::Number(Some(n)) => serde_json::Value::from(*n),
        Json::Number(None) => serde_json::Value::Null,
        Json::Str(s) => serde_json::Value::String(s.clone()),
        Json::Array(a) => serde_json::Value::Array(a.iter().map(to_value).collect()),
        Json::Object(m) => serde_json::Value::Object(m.iter().map(|(k, x)| (k.clone(), to_value(x))).collect()),
    }
}

/// The compact text that serde_json writes for this document.
pub uninterp spec fn json_text_of(v: JsonV) -> Seq<char>;

/// Calls `serde_json::Value::to_string` on the converted document; the text is named.
#[verifier::external_body]
pub(crate) fn json_text(v: &Json) -> (r: String)
    ensures
        r@ == json_text_of(v@),
{
    to_value(v).to_string()
}

/// The value stored under `key` in a JSON object (the first one, as keys of a
/// parsed object are unique).
pub open spec fn json_get(v: JsonV, key: Seq<char>) -> Option<JsonV> {
    match v {
        JsonV::Object(m) => {
            if exists|i: int| 0 <= i < m.len() && (#[trigger] m[i]).0 == key {
                Some(m[choose|i: int| 0 <= i < m.len() && m[i].0 == key && forall|j: int| 0 <= j < i ==> m[j].0 != key].1)
            } else {
                None
            }
        },
        _ => None,
    }
}

/// `value.get(key).and_then(as_str)`.
pub open spec fn json_get_str(v: JsonV, key: Seq<char>) -> Option<Seq<char>> {
    match json_get(v, key) {
        Some(JsonV::Str(s)) => Some(s),
        _ => None,
    }
}

/// `value.get(key).and_then(as_array)`.
pub open spec fn json_get_array(v: JsonV, key: Seq<char>) -> Option<Seq<JsonV>> {
    match json_get(v, key) {
        Some(JsonV::Array(a)) => Some(a),
        _ => None,
    }
}

/// The string elements of an array, in order (`filter_map(as_str)`).
pub open spec fn json_strings_of(items: Seq<JsonV>) -> Seq<Seq<char>>
    decreases items.len(),
{
    if items.len() == 0 {
        seq![]
    } else {
        let rest = json_strings_of(items.drop_last());
        match items.last() {
            JsonV::Str(s) => rest.push(s),
            _ => rest,
        }
    }
}

pub open spec fn string_views(v: Seq<String>) -> Seq<Seq<char>> {
    v.map_values(|s: String| s@)
}

/// Looks up `key` in an object.
pub fn get<'a>(v: &'a Json, key: &str) -> (r: Option<&'a Json>)
    ensures
        match r {
            Some(x) => json_get(v@, key@) == Some(x@),
            None => json_get(v@, key@) is None,
        },
{
    match v {
        Json::Object(m) => {
            let ghost mv = v@->Object_0;
            assert(mv.len() == m@.len());
            let k = key.to_owned();
            let mut i: usize = 0;
            while i < m.len()
                invariant
                    i <= m@.len(),
                    k@ == key@,
                    *v == Json::Object(*m),
                    mv == v@->Object_0,
                    mv.len() == m@.len(),
                    forall|j: int| 0 <= j < i ==> mv[j].0 != key@,
                decreases m@.len() - i,
            {
                assert(mv[i as int] == (m@[i as int].0@, json_view(m@[i as int].1)));
                if m[i].0 == k {
                    assert(0 <= i < mv.len() && mv[i as int].0 == key@);
                    let ghost c = choose|c: int| 0 <= c < mv.len() && mv[c].0 == key@ && forall|j: int| 0 <= j < c ==> mv[j].0 != key@;
                    assert(0 <= c < mv.len() && mv[c].0 == key@ && forall|j: int| 0 <= j < c ==> mv[j].0 != key@);
                    assert(c == i) by {
                        if i < c {
                            assert(mv[i as int].0 != key@);
                        }
                    }
                    assert(exists|j: int| 0 <= j < mv.len() && (#[trigger] mv[j]).0 == key@);
                    assert(json_get(v@, key@) == Some(mv[c].1));
                    return Some(&m[i].1);
                }
                i = i + 1;
            }
            assert forall|j: int| 0 <= j < mv.len() implies (#[trigger] mv[j]).0 != key@ by {}
            None
        },
        _ => None,
    }
}

/// `value.get(key).and_then(|x| x.as_str())`.
pub fn get_str<'a>(v: &'a Json, key: &str) -> (r: Option<&'a String>)
    ensures
        match r {
            Some(s) => json_get_str(v@, key@) == Some(s@),
            None => json_get_str(v@, key@) is None,
        },
{
    match get(v, key) {
        Some(Json::Str(s)) => Some(s),
        _ => None,
    }
}

/// `value.get(key).and_then(as_array)`.
pub fn get_array<'a>(v: &'a Json, key: &str) -> (r: Option<&'a Vec<Json>>)
    ensures
        match r {
            Some(a) => json_get_array(v@, key@) == Some(a@.map_values(|x: Json| x@)),
            None => json_get_array(v@, key@) is None,
        },
{
    match get(v, key) {
        Some(Json::Array(a)) => {
            assert(a@.map_values(|x: Json| x@) =~= Json::Array(*a)@->Array_0);
            Some(a)
        },
        _ => None,
    }
}

/// The string elements of an array, in order (`filter_map(as_str)`).
pub fn strings_of(items: &Vec<Json>) -> (r: Vec<String>)
    ensures
        string_views(r@) == json_strings_of(items@.map_values(|x: Json| x@)),
{
    let ghost iv = items@.map_values(|x: Json| x@);
    let mut out: Vec<String> = Vec::new();
    let mut i: usize = 0;
    while i < items.len()
        invariant
            i <= items@.len(),
            iv == items@.map_values(|x: Json| x@),
            string_views(out@) == json_strings_of(iv.take(i as int)),
        decreases items@.len() - i,
    {
        assert(iv.take(i + 1).drop_last() =~= iv.take(i as int));
        assert(iv.take(i + 1).last() == items@[i as int]@);
        match &items[i] {
            Json::Str(s) => {
                out.push(s.clone());
                assert(string_views(out@) =~= json_strings_of(iv.take(i + 1)));
            },
            _ => {
                assert(string_views(out@) =~= json_strings_of(iv.take(i + 1)));
            },
        }
        i = i + 1;
    }
    assert(iv.take(items@.len() as int) =~= iv);
    out
}

/// A JSON string.
pub fn jstr(s: &str) -> (r: Json)
    ensures
        r@ == JsonV::Str(s@),
{
    Json::Str(s.to_owned())
}


/// `value.get(key).and_then(as_bool)`.
pub open spec fn json_get_bool(v: JsonV, key: Seq<char>) -> Option<bool> {
    match json_get(v, key) {
        Some(JsonV::Bool(b)) => Some(b),
        _ => None,
    }
}

pub fn get_bool(v: &Json, key: &str) -> (r: Option<bool>)
    ensures
        r == json_get_bool(v@, key@),
{
    match get(v, key) {
        Some(Json::Bool(b)) => Some(*b),
        _ => None,
    }
}
} // verus!

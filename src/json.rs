use vstd::prelude::*;

verus! {

/// A JSON value as the admission logic sees it. Numbers keep their text;
/// an object keeps its members in the order the parser hands them out.
///
/// The parser keeps one member per key: where a key is repeated in the
/// text, the last occurrence is the one kept. An object built by hand may
/// repeat a key; lookups then see the first member with it.
#[derive(Debug, PartialEq)]
pub enum Json {
    Null,
    Bool(bool),
    Number(String),
    Text(String),
    Array(Vec<Json>),
    Object(Vec<(String, Json)>),
}

/// The parser's own value type, which the conversion into `Json` takes.
#[verifier::external_type_specification]
#[verifier::external_body]
pub struct ExValue(serde_json::Value);

/// The value that the JSON parser reads from `b`, or `None` where it refuses
/// `b`: bytes that are not one well-formed JSON value, and also well-formed
/// text beyond its limits (a number outside the range of `f64`, nesting
/// deeper than 128 levels, an escaped lone surrogate). In an object a
/// repeated key keeps its last value.
pub uninterp spec fn json_parse(b: Seq<u8>) -> Option<Json>;

/// Relies on serde_json::from_slice into serde_json::Value, on the bytes from
/// `start` to `end`: the outcome, a refusal or the value, depends on those
/// bytes alone.
#[verifier::external_body]
pub(crate) fn parse_json(b: &[u8], start: usize, end: usize) -> (r: Option<Json>)
    requires
        start <= end <= b@.len(),
    ensures
        r == json_parse(b@.subrange(start as int, end as int)),
{
    serde_json::from_slice::<serde_json::Value>(&b[start..end]).ok().map(json_from_value)
}

/// Relies on the variants of serde_json::Value: turns a parsed value into the
/// same tree of `Json`, member for member.
#[verifier::external_body]
fn json_from_value(v: serde_json::Value) -> Json {
    match v {
        serde_json::Value::Null => Json::Null,
        serde_json::Value::Bool(b) => Json::Bool(b),
        serde_json::Value::Number(n) => Json::Number(n.to_string()),
        serde_json::Value::String(t) => Json::Text(t),
        serde_json::Value::Array(a) => Json::Array(a.into_iter().map(json_from_value).collect()),
        serde_json::Value::Object(m) => Json::Object(
            m.into_iter().map(|(k, x)| (k, json_from_value(x))).collect(),
        ),
    }
}

/// The value of the first member from index `i` on whose key is `k`.
pub open spec fn entry_from(es: Seq<(String, Json)>, k: Seq<char>, i: int) -> Option<Json>
    decreases es.len() - i,
{
    if i < 0 || i >= es.len() {
        None
    } else if es[i].0@ == k {
        Some(es[i].1)
    } else {
        entry_from(es, k, i + 1)
    }
}

/// The member of `v` under key `k`: `None` where `v` is no object or has no
/// such member.
pub open spec fn lookup(v: Json, k: Seq<char>) -> Option<Json> {
    match v {
        Json::Object(es) => entry_from(es@, k, 0),
        _ => None,
    }
}

/// Index of the first member whose key is `key`.
pub fn find_entry(es: &Vec<(String, Json)>, key: &str) -> (r: Option<usize>)
    ensures
        match r {
            Some(i) => i < es@.len() && es@[i as int].0@ == key@
                && entry_from(es@, key@, 0) == Some(es@[i as int].1),
            None => entry_from(es@, key@, 0) is None,
        },
{
    broadcast use vstd::string::to_string_from_display_ensures_for_str;
    let k = key.to_string();
    let mut i: usize = 0;
    while i < es.len()
        invariant
            i <= es@.len(),
            k@ == key@,
            entry_from(es@, key@, 0) == entry_from(es@, key@, i as int),
        decreases es@.len() - i,
    {
        if es[i].0 == k {
            return Some(i);
        }
        i = i + 1;
    }
    None
}

impl Json {
    /// The member under `key`, where `self` is an object that has one.
    pub fn get(&self, key: &str) -> (r: Option<&Json>)
        ensures
            match r {
                Some(x) => lookup(*self, key@) == Some(*x),
                None => lookup(*self, key@) is None,
            },
    {
        match self {
            Json::Object(es) => match find_entry(es, key) {
                Some(i) => Some(&es[i].1),
                None => None,
            },
            _ => None,
        }
    }

    /// Whether `self` is a JSON object.
    pub fn is_object(&self) -> (r: bool)
        ensures
            r == (*self is Object),
    {
        match self {
            Json::Object(_) => true,
            _ => false,
        }
    }

    /// Whether `self` is a JSON string with exactly the characters of `t`.
    pub fn is_text(&self, t: &str) -> (r: bool)
        ensures
            r == (*self matches Json::Text(s) && s@ == t@),
    {
        broadcast use vstd::string::to_string_from_display_ensures_for_str;
        match self {
            Json::Text(s) => *s == t.to_string(),
            _ => false,
        }
    }
}

} // verus!

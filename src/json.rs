//! A JSON document model and a navigator over it that reports, on failure, which
//! step of a path failed and which shape was expected there.
use crate::text::{decimal, push_decimal, str_eq};
use vstd::string::StringExecFns;
use vstd::prelude::*;

verus! {

/// A JSON value. Object members keep the order in which the parser produced them.
#[derive(Debug, PartialEq, Eq)]
pub enum Json {
    Null,
    Bool(bool),
    /// A number, as its decimal text.
    Number(String),
    Str(String),
    Array(Vec<Json>),
    Object(Vec<(String, Json)>),
}

/// The shape a navigation step expected to find.
#[derive(Clone, Copy, Debug, PartialEq, Eq)]
pub enum Shape {
    Object,
    Array,
    Str,
    Bool,
    Number,
    Url,
}

/// One step of a path: a member name or an array index.
#[derive(Clone, Debug, PartialEq, Eq)]
pub enum Segment {
    Key(String),
    Index(usize),
}

/// Why a navigation failed.
#[derive(Clone, Debug, PartialEq, Eq)]
pub enum JsonNavError {
    /// The container had the right shape but no member or element for this step.
    NotFound { segment: Segment },
    /// The value was not of the expected shape.
    TypeMismatch { expected: Shape },
}

/// The name of a shape, as error messages give it.
pub open spec fn shape_name(s: Shape) -> Seq<char> {
    match s {
        Shape::Object => "object"@,
        Shape::Array => "array"@,
        Shape::Str => "string"@,
        Shape::Bool => "bool"@,
        Shape::Number => "number"@,
        Shape::Url => "url"@,
    }
}

/// What a navigation error says: the step that found nothing, or the expected shape.
pub open spec fn nav_error_text(e: JsonNavError) -> Seq<char> {
    match e {
        JsonNavError::NotFound { segment: Segment::Key(k) } => "missing member \""@ + k@ + "\""@,
        JsonNavError::NotFound { segment: Segment::Index(i) } => "missing element "@ + decimal(i as nat),
        JsonNavError::TypeMismatch { expected } => "expected "@ + shape_name(expected),
    }
}

impl Shape {
    /// The name of the shape.
    pub fn name(&self) -> (r: &'static str)
        ensures
            r@ == shape_name(*self),
    {
        match self {
            Shape::Object => "object",
            Shape::Array => "array",
            Shape::Str => "string",
            Shape::Bool => "bool",
            Shape::Number => "number",
            Shape::Url => "url",
        }
    }
}

impl JsonNavError {
    /// A message naming the step that found nothing, or the shape that was expected.
    pub fn describe(&self) -> (r: String)
        ensures
            r@ == nav_error_text(*self),
    {
        match self {
            JsonNavError::NotFound { segment: Segment::Key(k) } => {
                let mut r = String::from_str("missing member \"");
                r.append(k.as_str());
                r.append("\"");
                r
            },
            JsonNavError::NotFound { segment: Segment::Index(i) } => {
                let mut r = String::from_str("missing element ");
                push_decimal(&mut r, *i);
                r
            },
            JsonNavError::TypeMismatch { expected } => {
                let mut r = String::from_str("expected ");
                r.append(expected.name());
                r
            },
        }
    }
}

/// The value of the first member named `key`, if any.
pub open spec fn member(entries: Seq<(String, Json)>, key: Seq<char>) -> Option<Json>
    decreases entries.len(),
{
    if entries.len() == 0 {
        None
    } else {
        match member(entries.drop_last(), key) {
            Some(v) => Some(v),
            None => if entries.last().0@ == key {
                Some(entries.last().1)
            } else {
                None
            },
        }
    }
}

/// What looking up `key` in `v` gives.
pub open spec fn key_result(v: Json, key: Seq<char>) -> Result<Json, JsonNavError> {
    match v {
        Json::Object(entries) => match member(entries@, key) {
            Some(x) => Ok(x),
            None => Err(JsonNavError::NotFound { segment: Segment::Key(key_string(key)) }),
        },
        _ => Err(JsonNavError::TypeMismatch { expected: Shape::Object }),
    }
}

/// Any string whose characters are `s`.
pub open spec fn key_string(s: Seq<char>) -> String {
    choose|k: String| k@ == s
}

/// What taking element `i` of `v` gives.
pub open spec fn index_result(v: Json, i: int) -> Result<Json, JsonNavError> {
    match v {
        Json::Array(items) => if 0 <= i < items@.len() {
            Ok(items@[i])
        } else {
            Err(JsonNavError::NotFound { segment: Segment::Index(i as usize) })
        },
        _ => Err(JsonNavError::TypeMismatch { expected: Shape::Array }),
    }
}

/// Two navigation errors that say the same thing.
pub open spec fn same_error(a: JsonNavError, b: JsonNavError) -> bool {
    match (a, b) {
        (JsonNavError::NotFound { segment: Segment::Key(x) }, JsonNavError::NotFound { segment: Segment::Key(y) }) => x@ == y@,
        _ => a == b,
    }
}

/// Two navigation results that agree: the same value, or errors that say the same.
pub open spec fn same_result(a: Result<Json, JsonNavError>, b: Result<Json, JsonNavError>) -> bool {
    match (a, b) {
        (Ok(x), Ok(y)) => x == y,
        (Err(x), Err(y)) => same_error(x, y),
        _ => false,
    }
}

/// A navigation result with the found value copied out.
pub open spec fn owned(r: Result<&Json, JsonNavError>) -> Result<Json, JsonNavError> {
    match r {
        Ok(x) => Ok(*x),
        Err(e) => Err(e),
    }
}

/// The value found by a navigation step, if it succeeded.
pub open spec fn found(r: Result<&Json, JsonNavError>) -> Option<Json> {
    match r {
        Ok(x) => Some(*x),
        Err(_) => None,
    }
}

/// The member `key` of `v`, where `v` is an object that has one.
pub open spec fn get(v: Json, key: Seq<char>) -> Option<Json> {
    match key_result(v, key) {
        Ok(x) => Some(x),
        Err(_) => None,
    }
}

/// The member `key` of the value in `o`, if any.
pub open spec fn get_in(o: Option<Json>, key: Seq<char>) -> Option<Json> {
    match o {
        Some(v) => get(v, key),
        None => None,
    }
}

/// Element `i` of the array in `o`, if any.
pub open spec fn at_in(o: Option<Json>, i: int) -> Option<Json> {
    match o {
        Some(v) => match index_result(v, i) {
            Ok(x) => Some(x),
            Err(_) => None,
        },
        None => None,
    }
}

/// The characters of the string in `o`, if it holds one.
pub open spec fn str_in(o: Option<Json>) -> Option<Seq<char>> {
    match o {
        Some(Json::Str(s)) => Some(s@),
        _ => None,
    }
}

/// The boolean in `o`, if it holds one.
pub open spec fn bool_in(o: Option<Json>) -> Option<bool> {
    match o {
        Some(Json::Bool(b)) => Some(b),
        _ => None,
    }
}

/// The value in `o`, if it is an object.
pub open spec fn object_in(o: Option<Json>) -> Option<Json> {
    match o {
        Some(Json::Object(e)) => Some(Json::Object(e)),
        _ => None,
    }
}

/// Looks up the member `key` of an object.
pub fn json_key<'a>(v: &'a Json, key: &str) -> (r: Result<&'a Json, JsonNavError>)
    ensures
        same_result(owned(r), key_result(*v, key@)),
        found(r) == get(*v, key@),
{
    match v {
        Json::Object(entries) => {
            let mut i: usize = 0;
            while i < entries.len()
                invariant
                    0 <= i <= entries.len(),
                    *v == Json::Object(*entries),
                    member(entries@.take(i as int), key@) is None,
                decreases entries.len() - i,
            {
                assert(entries@.take(i + 1).drop_last() =~= entries@.take(i as int));
                if str_eq(entries[i].0.as_str(), key) {
                    proof {
                        assert(entries@.take(i + 1).last() == entries@[i as int]);
                        assert(member(entries@.take(i + 1), key@) == Some(entries@[i as int].1));
                        lemma_member_prefix(entries@, i + 1, key@);
                        assert(member(entries@, key@) == Some(entries@[i as int].1));
                    }
                    return Ok(&entries[i].1);
                }
                i += 1;
            }
            assert(entries@.take(i as int) =~= entries@);
            Err(JsonNavError::NotFound { segment: Segment::Key(key.to_string()) })
        },
        _ => Err(JsonNavError::TypeMismatch { expected: Shape::Object }),
    }
}

proof fn lemma_member_prefix(entries: Seq<(String, Json)>, n: int, key: Seq<char>)
    requires
        0 <= n <= entries.len(),
        member(entries.take(n), key) is Some,
    ensures
        member(entries, key) == member(entries.take(n), key),
    decreases entries.len(),
{
    if n < entries.len() {
        assert(entries.drop_last().take(n) =~= entries.take(n));
        lemma_member_prefix(entries.drop_last(), n, key);
    } else {
        assert(entries.take(n) =~= entries);
    }
}

/// Takes element `i` of an array.
pub fn json_index(v: &Json, i: usize) -> (r: Result<&Json, JsonNavError>)
    ensures
        same_result(owned(r), index_result(*v, i as int)),
        found(r) == at_in(Some(*v), i as int),
{
    match v {
        Json::Array(items) => if i < items.len() {
            Ok(&items[i])
        } else {
            Err(JsonNavError::NotFound { segment: Segment::Index(i) })
        },
        _ => Err(JsonNavError::TypeMismatch { expected: Shape::Array }),
    }
}

/// The string held by `v`.
pub fn json_str(v: &Json) -> (r: Result<&String, JsonNavError>)
    ensures
        match *v {
            Json::Str(s) => r == Ok::<&String, JsonNavError>(&s),
            _ => r == Err::<&String, JsonNavError>(JsonNavError::TypeMismatch { expected: Shape::Str }),
        },
{
    match v {
        Json::Str(s) => Ok(s),
        _ => Err(JsonNavError::TypeMismatch { expected: Shape::Str }),
    }
}

/// `v` itself, where it is an object.
pub fn json_object(v: &Json) -> (r: Result<&Json, JsonNavError>)
    ensures
        found(r) == object_in(Some(*v)),
        r is Err ==> r == Err::<&Json, JsonNavError>(JsonNavError::TypeMismatch { expected: Shape::Object }),
{
    match v {
        Json::Object(_) => Ok(v),
        _ => Err(JsonNavError::TypeMismatch { expected: Shape::Object }),
    }
}

/// The boolean held by `v`.
pub fn json_bool(v: &Json) -> (r: Result<bool, JsonNavError>)
    ensures
        match *v {
            Json::Bool(b) => r == Ok::<bool, JsonNavError>(b),
            _ => r == Err::<bool, JsonNavError>(JsonNavError::TypeMismatch { expected: Shape::Bool }),
        },
{
    match v {
        Json::Bool(b) => Ok(*b),
        _ => Err(JsonNavError::TypeMismatch { expected: Shape::Bool }),
    }
}

/// What one step of a path gives from `v`.
pub open spec fn step_result(v: Json, seg: Segment) -> Result<Json, JsonNavError> {
    match seg {
        Segment::Key(k) => key_result(v, k@),
        Segment::Index(i) => index_result(v, i as int),
    }
}

/// What following `path` from `v` gives: the value reached, or the failure of the
/// first step that failed.
pub open spec fn path_result(v: Json, path: Seq<Segment>) -> Result<Json, JsonNavError>
    decreases path.len(),
{
    if path.len() == 0 {
        Ok(v)
    } else {
        match path_result(v, path.drop_last()) {
            Ok(x) => step_result(x, path.last()),
            Err(e) => Err(e),
        }
    }
}

/// Follows `path` from `v`, one member name or array index at a time.
pub fn json_path<'a>(v: &'a Json, path: &Vec<Segment>) -> (r: Result<&'a Json, JsonNavError>)
    ensures
        same_result(owned(r), path_result(*v, path@)),
{
    let mut cur: &Json = v;
    let mut i: usize = 0;
    while i < path.len()
        invariant
            0 <= i <= path.len(),
            path_result(*v, path@.take(i as int)) == Ok::<Json, JsonNavError>(*cur),
        decreases path.len() - i,
    {
        assert(path@.take(i + 1).drop_last() =~= path@.take(i as int));
        let next = match &path[i] {
            Segment::Key(k) => json_key(cur, k.as_str()),
            Segment::Index(j) => json_index(cur, *j),
        };
        match next {
            Ok(x) => {
                cur = x;
            },
            Err(e) => {
                proof {
                    lemma_path_error(*v, path@, i + 1);
                }
                return Err(e);
            },
        }
        i += 1;
    }
    assert(path@.take(i as int) =~= path@);
    Ok(cur)
}

proof fn lemma_path_error(v: Json, path: Seq<Segment>, n: int)
    requires
        0 <= n <= path.len(),
        path_result(v, path.take(n)) is Err,
    ensures
        path_result(v, path) == path_result(v, path.take(n)),
    decreases path.len(),
{
    if n < path.len() {
        assert(path.drop_last().take(n) =~= path.take(n));
        lemma_path_error(v, path.drop_last(), n);
    } else {
        assert(path.take(n) =~= path);
    }
}

/// The document that serde_json reads from `text`, if `text` is JSON.
pub uninterp spec fn json_parsed(text: Seq<char>) -> Option<Json>;

/// Relies on serde_json::from_str into serde_json::Value: the document is a function
/// of the text alone; it is carried over variant by variant.
#[verifier::external_body]
fn parse_json_text(text: &str) -> (r: Option<Json>)
    ensures
        r == json_parsed(text@),
{
    serde_json::from_str::<serde_json::Value>(text).ok().map(|v| json_of_value(&v))
}

/// The document that serde_json reads from the bytes `bytes`, if they are JSON.
pub uninterp spec fn json_parsed_bytes(bytes: Seq<u8>) -> Option<Json>;

/// Relies on serde_json::from_slice into serde_json::Value: the document is a function
/// of the bytes alone; it is carried over variant by variant.
#[verifier::external_body]
fn parse_json_bytes(bytes: &[u8]) -> (r: Option<Json>)
    ensures
        r == json_parsed_bytes(bytes@),
{
    serde_json::from_slice::<serde_json::Value>(bytes).ok().map(|v| json_of_value(&v))
}

#[verifier::external_type_specification]
#[verifier::external_body]
pub struct ExJsonValue(serde_json::Value);

/// Relies on serde_json::Value's variants and on serde_json::Map::iter, which walks
/// members in the map's own order: each variant becomes the matching `Json` variant.
#[verifier::external_body]
fn json_of_value(v: &serde_json::Value) -> Json {
    match v {
        serde_json::Value::Null => Json::Null,
        serde_json::Value::Bool(b) => Json::Bool(*b),
        serde_json::Value::Number(n) => Json::Number(n.to_string()),
        serde_json::Value::String(s) => Json::Str(s.clone()),
        serde_json::Value::Array(a) => Json::Array(a.iter().map(json_of_value).collect()),
        serde_json::Value::Object(o) => Json::Object(
            o.iter().map(|(k, x)| (k.clone(), json_of_value(x))).collect(),
        ),
    }
}

impl Json {
    /// Reads a JSON document; `None` where `text` is not JSON.
    pub fn parse(text: &str) -> (r: Option<Json>)
        ensures
            r == json_parsed(text@),
    {
        parse_json_text(text)
    }

    /// Reads a JSON document from bytes; `None` where they are not JSON.
    pub fn parse_slice(bytes: &[u8]) -> (r: Option<Json>)
        ensures
            r == json_parsed_bytes(bytes@),
    {
        parse_json_bytes(bytes)
    }
}

} // verus!

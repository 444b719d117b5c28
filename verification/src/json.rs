//! JSON values, as `serde_json` holds, reads and writes them.

use serde_json::Value;
use vstd::prelude::*;

verus! {

/// `serde_json::Value`, a JSON value of any kind.
#[verifier::external_type_specification]
#[verifier::external_body]
pub struct ExValue(Value);

/// A JSON number: a whole number in one of two ranges, or a float by its bits.
pub enum JsonNumber {
    Unsigned(u64),
    Negative(i64),
    Float(u64),
}

/// A JSON value as a tree.
pub enum JsonView {
    Null,
    Bool(bool),
    Number(JsonNumber),
    Str(Seq<char>),
    Array(Seq<JsonView>),
    Object(Map<Seq<char>, JsonView>),
}

impl JsonView {
    /// An object without members.
    pub open spec fn empty_object() -> JsonView {
        JsonView::Object(Map::empty())
    }

    /// The object with one more member, or another value for it.
    pub open spec fn with(self, key: Seq<char>, value: JsonView) -> JsonView {
        match self {
            JsonView::Object(m) => JsonView::Object(m.insert(key, value)),
            _ => self,
        }
    }

    /// The member of an object.
    pub open spec fn member(self, key: Seq<char>) -> Option<JsonView> {
        match self {
            JsonView::Object(m) => if m.contains_key(key) {
                Some(m[key])
            } else {
                None
            },
            _ => None,
        }
    }

    /// The text, if it is one.
    pub open spec fn text(self) -> Option<Seq<char>> {
        match self {
            JsonView::Str(s) => Some(s),
            _ => None,
        }
    }

    /// The number, if it is a whole one that is not negative.
    pub open spec fn unsigned(self) -> Option<u64> {
        match self {
            JsonView::Number(JsonNumber::Unsigned(n)) => Some(n),
            _ => None,
        }
    }

    /// The truth value, if it is one.
    pub open spec fn truth(self) -> Option<bool> {
        match self {
            JsonView::Bool(b) => Some(b),
            _ => None,
        }
    }

    /// A whole number that is not negative.
    pub open spec fn of_u64(n: u64) -> JsonView {
        JsonView::Number(JsonNumber::Unsigned(n))
    }

    /// The text of a member.
    pub open spec fn member_text(self, key: Seq<char>) -> Option<Seq<char>> {
        match self.member(key) {
            Some(v) => v.text(),
            None => None,
        }
    }

    /// The whole number of a member.
    pub open spec fn member_unsigned(self, key: Seq<char>) -> Option<u64> {
        match self.member(key) {
            Some(v) => v.unsigned(),
            None => None,
        }
    }

    /// The truth value of a member.
    pub open spec fn member_truth(self, key: Seq<char>) -> Option<bool> {
        match self.member(key) {
            Some(v) => v.truth(),
            None => None,
        }
    }

    /// Whether the tree holds no float and no more than `depth` containers one
    /// in the other.
    pub open spec fn exact(self, depth: nat) -> bool
        decreases depth,
    {
        match self {
            JsonView::Number(JsonNumber::Float(_)) => false,
            JsonView::Number(JsonNumber::Negative(n)) => n < 0,
            JsonView::Array(items) => depth > 0 && forall|i: int|
                0 <= i < items.len() ==> (#[trigger] items[i]).exact((depth - 1) as nat),
            JsonView::Object(m) => depth > 0 && forall|k: Seq<char>| #[trigger]
                m.contains_key(k) ==> m[k].exact((depth - 1) as nat),
            _ => true,
        }
    }
}

/// How many containers one in the other the parser takes.
pub open spec fn max_depth() -> nat {
    127
}

/// The tree that a `Value` holds.
pub uninterp spec fn json_of(v: Value) -> JsonView;

/// What `serde_json::to_vec` writes for a tree.
pub uninterp spec fn json_text(v: JsonView) -> Seq<u8>;

/// What `serde_json::from_slice` reads: the tree, or the text of its error.
pub uninterp spec fn json_parsed(data: Seq<u8>) -> Result<JsonView, Seq<char>>;

/// What `serde_json::to_string` writes for a text: the text in quotes, with
/// escapes.
pub uninterp spec fn json_quoted(text: Seq<char>) -> Seq<char>;

/// The outcome of a text that is JSON.
pub open spec fn parses_to(v: JsonView) -> Result<JsonView, Seq<char>> {
    Ok(v)
}

/// The outcome of a text that is no JSON, for the given reason.
pub open spec fn parse_error(reason: Seq<char>) -> Result<JsonView, Seq<char>> {
    Err(reason)
}

/// `serde_json::to_vec` of a `Value`, which cannot fail: the keys of its
/// objects are texts and a vector takes every byte. There is no value without a
/// text, and where the tree holds no float and is not too deep, reading the bytes
/// gives it back.
#[verifier::external_body]
pub(crate) fn json_to_vec(v: &Value) -> (out: Vec<u8>)
    ensures
        out@ == json_text(json_of(*v)),
        out@.len() > 0,
        json_of(*v).exact(max_depth()) ==> json_parsed(out@) == parses_to(json_of(*v)),
{
    serde_json::to_vec(v).expect("a value is always written")
}

/// `serde_json::from_slice` into a `Value`, with its error as text.
#[verifier::external_body]
pub(crate) fn json_from_slice(data: &[u8]) -> (out: Result<Value, String>)
    ensures
        match out {
            Ok(v) => json_parsed(data@) == parses_to(json_of(v)),
            Err(e) => json_parsed(data@) == parse_error(e@),
        },
{
    serde_json::from_slice(data).map_err(|e| e.to_string())
}

/// `serde_json::to_string` of a text, which cannot fail.
#[verifier::external_body]
pub(crate) fn json_quote(text: &str) -> (out: String)
    ensures
        out@ == json_quoted(text@),
{
    serde_json::to_string(text).expect("a text is always written")
}

/// `Value::clone`.
#[verifier::external_body]
pub(crate) fn json_clone(v: &Value) -> (out: Value)
    ensures
        json_of(out) == json_of(*v),
{
    v.clone()
}

/// `Value::Null`.
#[verifier::external_body]
pub(crate) fn json_null() -> (out: Value)
    ensures
        json_of(out) == JsonView::Null,
{
    Value::Null
}

/// `Value::Bool`.
#[verifier::external_body]
pub(crate) fn json_bool(b: bool) -> (out: Value)
    ensures
        json_of(out) == JsonView::Bool(b),
{
    Value::Bool(b)
}

/// `Value::from` of a `u64`.
#[verifier::external_body]
pub(crate) fn json_u64(n: u64) -> (out: Value)
    ensures
        json_of(out) == JsonView::of_u64(n),
{
    Value::from(n)
}

/// `Value::from` of a negative `i64`.
#[verifier::external_body]
pub(crate) fn json_negative(n: i64) -> (out: Value)
    requires
        n < 0,
    ensures
        json_of(out) == JsonView::Number(JsonNumber::Negative(n)),
{
    Value::from(n)
}

/// `Value::from` of a text.
#[verifier::external_body]
pub(crate) fn json_str(s: &str) -> (out: Value)
    ensures
        json_of(out) == JsonView::Str(s@),
{
    Value::from(s)
}

/// `Value::Object` of an empty `Map`.
#[verifier::external_body]
pub(crate) fn json_object() -> (out: Value)
    ensures
        json_of(out) == JsonView::empty_object(),
{
    Value::Object(serde_json::Map::new())
}

/// Indexing an object `Value` with a text and writing there: the member has the
/// value afterwards, whether it was there before or not. On anything but an
/// object or null it panics.
#[verifier::external_body]
pub(crate) fn json_set(v: &mut Value, key: &str, value: Value)
    requires
        json_of(*old(v)) is Object,
    ensures
        json_of(*final(v)) == json_of(*old(v)).with(key@, json_of(value)),
{
    v[key] = value;
}

/// `Value::get` with a text.
#[verifier::external_body]
pub(crate) fn json_get<'a>(v: &'a Value, key: &str) -> (out: Option<&'a Value>)
    ensures
        match out {
            Some(m) => json_of(*v).member(key@) == Some(json_of(*m)),
            None => json_of(*v).member(key@) is None,
        },
{
    v.get(key)
}

/// `Value::as_str`.
#[verifier::external_body]
pub(crate) fn json_as_str(v: &Value) -> (out: Option<&str>)
    ensures
        match out {
            Some(s) => json_of(*v).text() == Some(s@),
            None => json_of(*v).text() is None,
        },
{
    v.as_str()
}

/// `Value::as_u64`.
#[verifier::external_body]
pub(crate) fn json_as_u64(v: &Value) -> (out: Option<u64>)
    ensures
        out == json_of(*v).unsigned(),
{
    v.as_u64()
}

/// `Value::as_bool`.
#[verifier::external_body]
pub(crate) fn json_as_bool(v: &Value) -> (out: Option<bool>)
    ensures
        out == json_of(*v).truth(),
{
    v.as_bool()
}

/// `Value::is_null`.
#[verifier::external_body]
pub(crate) fn json_is_null(v: &Value) -> (out: bool)
    ensures
        out == (json_of(*v) is Null),
{
    v.is_null()
}

/// The text of a member.
pub(crate) fn member_str<'a>(v: &'a Value, key: &str) -> (out: Option<&'a str>)
    ensures
        match out {
            Some(s) => json_of(*v).member_text(key@) == Some(s@),
            None => json_of(*v).member_text(key@) is None,
        },
{
    match json_get(v, key) {
        Some(m) => json_as_str(m),
        None => None,
    }
}

/// The whole number of a member.
pub(crate) fn member_u64(v: &Value, key: &str) -> (out: Option<u64>)
    ensures
        out == json_of(*v).member_unsigned(key@),
{
    match json_get(v, key) {
        Some(m) => json_as_u64(m),
        None => None,
    }
}

/// The truth value of a member.
pub(crate) fn member_bool(v: &Value, key: &str) -> (out: Option<bool>)
    ensures
        out == json_of(*v).member_truth(key@),
{
    match json_get(v, key) {
        Some(m) => json_as_bool(m),
        None => None,
    }
}

/// A member that was set is there, and no other is changed.
pub proof fn set_members_are_there(v: JsonView, key: Seq<char>, value: JsonView, other: Seq<char>)
    requires
        v is Object,
    ensures
        v.with(key, value) is Object,
        v.with(key, value).member(key) == Some(value),
        other != key ==> v.with(key, value).member(other) == v.member(other),
        JsonView::empty_object().member(other) is None,
{
}

/// A member is read as a text, a whole number or a truth value exactly where it is one,
/// and as it is.
pub proof fn members_are_read_as_what_they_are(
    v: JsonView,
    key: Seq<char>,
    s: Seq<char>,
    n: u64,
    b: bool,
)
    ensures
        v.member_text(key) == Some(s) <==> v.member(key) == Some(JsonView::Str(s)),
        v.member_unsigned(key) == Some(n) <==> v.member(key) == Some(
            JsonView::Number(JsonNumber::Unsigned(n)),
        ),
        v.member_truth(key) == Some(b) <==> v.member(key) == Some(JsonView::Bool(b)),
        !(v is Object) ==> v.member(key) is None,
{
}

} // verus!

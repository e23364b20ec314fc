//! JSON by way of `serde_json`: the request bodies the library sends and the
//! answers it reads.
//!
//! Verus sees nothing inside a `serde_json` value. What the library needs to
//! know of one has a name here, and the contracts below say over those names
//! what `serde_json` does. They are believed, not proved.

use vstd::prelude::*;

verus! {

/// `serde_json::Value`, a JSON value; opaque here.
#[verifier::external_type_specification]
#[verifier::external_body]
pub struct ExJsonValue(serde_json::Value);

/// `serde_json::Error`, why a text is not JSON; opaque here.
#[verifier::external_type_specification]
#[verifier::external_body]
pub struct ExJsonError(serde_json::Error);

/// `serde_json::Map`, the members of a JSON object; opaque here.
#[verifier::external_type_specification]
#[verifier::external_body]
#[verifier::reject_recursive_types(K)]
#[verifier::reject_recursive_types(V)]
pub struct ExJsonMap<K, V>(serde_json::Map<K, V>);

/// A member of a request body: a string or a boolean.
pub ghost enum Member {
    Text(Seq<char>),
    Flag(bool),
}

/// The members of a JSON object that are strings or booleans, by key.
pub uninterp spec fn members(m: serde_json::Map<String, serde_json::Value>) -> Map<
    Seq<char>,
    Member,
>;

/// Whether every member of a JSON object is a string or a boolean.
pub uninterp spec fn plain(m: serde_json::Map<String, serde_json::Value>) -> bool;

/// The compact JSON text of an object whose members are strings and
/// booleans.
pub uninterp spec fn rendering(members: Map<Seq<char>, Member>) -> Seq<char>;

/// The members of a JSON value that are strings, by key. A value that is no
/// object has none.
pub uninterp spec fn text_members(v: serde_json::Value) -> Map<Seq<char>, Seq<char>>;

/// The string members of the value that a text parses to, or `None` where
/// the text is not JSON.
pub uninterp spec fn parsed(text: Seq<char>) -> Option<Map<Seq<char>, Seq<char>>>;

/// `serde_json::Map::new`: an object without members.
#[verifier::external_body]
pub(crate) fn object_new() -> (m: serde_json::Map<String, serde_json::Value>)
    ensures
        members(m) == (Map::<Seq<char>, Member>::empty()),
        plain(m),
{
    serde_json::Map::new()
}

/// `serde_json::Map::insert` with a string value: the key then holds the
/// string, whatever it held before; the other members stay.
#[verifier::external_body]
pub(crate) fn object_put_text(
    m: &mut serde_json::Map<String, serde_json::Value>,
    key: &str,
    value: &str,
)
    ensures
        members(*final(m)) == members(*old(m)).insert(key@, Member::Text(value@)),
        plain(*old(m)) ==> plain(*final(m)),
{
    m.insert(key.to_owned(), serde_json::Value::String(value.to_owned()));
}

/// `serde_json::Map::insert` with a boolean value: the key then holds the
/// boolean, whatever it held before; the other members stay.
#[verifier::external_body]
pub(crate) fn object_put_flag(
    m: &mut serde_json::Map<String, serde_json::Value>,
    key: &str,
    value: bool,
)
    ensures
        members(*final(m)) == members(*old(m)).insert(key@, Member::Flag(value)),
        plain(*old(m)) ==> plain(*final(m)),
{
    m.insert(key.to_owned(), serde_json::Value::Bool(value));
}

/// `to_string` of `serde_json::Value::Object`: the compact JSON text. With
/// the map that `serde_json` is built with here, which keeps its members
/// sorted by key, the text depends on the members alone.
#[verifier::external_body]
pub(crate) fn object_text(m: serde_json::Map<String, serde_json::Value>) -> (r: String)
    requires
        plain(m),
    ensures
        r@ == rendering(members(m)),
{
    serde_json::Value::Object(m).to_string()
}

/// `serde_json::from_str` to a `serde_json::Value`: whether the text is
/// JSON, and the string members of the value it stands for.
#[verifier::external_body]
pub(crate) fn parse(text: &str) -> (r: Result<serde_json::Value, serde_json::Error>)
    ensures
        match r {
            Ok(v) => parsed(text@) == Some(text_members(v)),
            Err(_) => parsed(text@) is None,
        },
{
    serde_json::from_str(text)
}

/// Indexing a `serde_json::Value` by a key, then `as_str`: the string that
/// the object holds under the key, or `None` where the value is no object,
/// has no such key, or holds something else there.
#[verifier::external_body]
pub(crate) fn text_member(v: &serde_json::Value, key: &str) -> (r: Option<String>)
    ensures
        match r {
            Some(s) => text_members(*v).contains_key(key@) && text_members(*v)[key@] == s@,
            None => !text_members(*v).contains_key(key@),
        },
{
    v[key].as_str().map(str::to_owned)
}

} // verus!

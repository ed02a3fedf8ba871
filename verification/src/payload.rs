//! The record that subscribers receive for a frame.

use vstd::prelude::*;
use crate::frame::{FrameView, ProgressFrame};

verus! {

/// The topic under which frames are published.
pub const TOPIC: &'static str = "ffmpeg_stats";

#[verifier::external_type_specification]
#[verifier::external_body]
#[verifier::reject_recursive_types(K)]
#[verifier::reject_recursive_types(V)]
pub struct ExJsonMap<K, V>(serde_json::Map<K, V>);

#[verifier::external_type_specification]
#[verifier::external_body]
pub struct ExJsonValue(serde_json::Value);

/// What a field of a JSON object holds, as far as this library looks.
pub enum Field {
    /// A JSON string.
    Text(Seq<char>),
    /// A JSON boolean.
    Flag(bool),
    /// Any other JSON value.
    Other,
}

/// The fields of a JSON object, by key.
pub uninterp spec fn object_fields(object: serde_json::Map<String, serde_json::Value>) -> Map<
    Seq<char>,
    Field,
>;

/// A JSON object without fields.
///
/// Trusted: `serde_json::Map::new`, which makes an empty map.
#[verifier::external_body]
fn object_new() -> (fresh: serde_json::Map<String, serde_json::Value>)
    ensures
        object_fields(fresh) =~= Map::empty(),
{
    serde_json::Map::new()
}

/// Sets the field `key` of `object` to the JSON string `text`.
///
/// Trusted: `serde_json::Map::insert` with a value made by
/// `serde_json::Value::from` of a string slice. The field is added, or
/// replaced where the key was present; the other fields stay.
#[verifier::external_body]
fn object_insert_text(
    object: &mut serde_json::Map<String, serde_json::Value>,
    key: &str,
    text: &str,
)
    ensures
        object_fields(*final(object)) == object_fields(*old(object)).insert(
            key@,
            Field::Text(text@),
        ),
{
    object.insert(key.to_owned(), serde_json::Value::from(text));
}

/// Sets the field `key` of `object` to the JSON boolean `flag`.
///
/// Trusted: `serde_json::Map::insert` with a value made by
/// `serde_json::Value::from` of a `bool`. The field is added, or replaced
/// where the key was present; the other fields stay.
#[verifier::external_body]
fn object_insert_flag(
    object: &mut serde_json::Map<String, serde_json::Value>,
    key: &str,
    flag: bool,
)
    ensures
        object_fields(*final(object)) == object_fields(*old(object)).insert(
            key@,
            Field::Flag(flag),
        ),
{
    object.insert(key.to_owned(), serde_json::Value::from(flag));
}

/// The fields of the record published for `frame`: `data` with the
/// filtered text and `end` with the end flag.
pub open spec fn payload_fields(frame: FrameView) -> Map<Seq<char>, Field> {
    Map::<Seq<char>, Field>::empty().insert("data"@, Field::Text(frame.data)).insert(
        "end"@,
        Field::Flag(frame.end),
    )
}

/// Builds the record published for `frame`.
pub fn payload(frame: &ProgressFrame) -> (object: serde_json::Map<String, serde_json::Value>)
    ensures
        object_fields(object) == payload_fields(frame@),
{
    let mut object = object_new();
    object_insert_text(&mut object, "data", frame.data.as_str());
    object_insert_flag(&mut object, "end", frame.end);
    object
}

} // verus!

//! Event payloads: JSON objects that carry a `message_type` discriminator.
use vstd::prelude::*;

verus! {

/// The JSON text of an object with one string member `key` set to `value`,
/// as serde_json writes it.
pub uninterp spec fn json_object_text(key: Seq<char>, value: Seq<char>) -> Seq<char>;

/// Relies on `serde_json::to_string`: a map with one string key and one
/// string value is written as a JSON object; with string keys and values it
/// does not fail, and the text depends on the key and the value alone.
#[verifier::external_body]
fn json_object(key: &str, value: &str) -> (r: String)
    ensures
        r@ == json_object_text(key@, value@),
{
    match serde_json::to_string(&std::collections::BTreeMap::from([(key, value)])) {
        Ok(text) => text,
        Err(_) => String::new(),
    }
}

/// The payload of an event of kind `message_type`.
pub open spec fn event_text(message_type: Seq<char>) -> Seq<char> {
    json_object_text("message_type"@, message_type)
}

/// Builds `{"message_type": <message_type>}`.
pub fn event_payload(message_type: &str) -> (r: String)
    ensures
        r@ == event_text(message_type@),
{
    json_object("message_type", message_type)
}

/// The payload that tells clients that the set of connected users changed.
pub open spec fn presence_changed_text() -> Seq<char> {
    event_text("UPDATE_USERS"@)
}

/// The payload that tells clients to re-fetch permissions, roles, channels or
/// profiles.
pub open spec fn status_changed_text() -> Seq<char> {
    event_text("UPDATE_STATUS"@)
}

/// Builds the presence-changed payload.
pub fn presence_changed_payload() -> (r: String)
    ensures
        r@ == presence_changed_text(),
{
    event_payload("UPDATE_USERS")
}

/// Builds the status-changed payload.
pub fn status_changed_payload() -> (r: String)
    ensures
        r@ == status_changed_text(),
{
    event_payload("UPDATE_STATUS")
}

} // verus!

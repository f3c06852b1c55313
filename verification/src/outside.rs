//! The types of other crates that values of this crate carry.

use vstd::prelude::*;

verus! {

/// A failure reported by the WebSocket library. Nothing in this crate looks
/// inside one.
#[verifier::external_type_specification]
#[verifier::external_body]
pub struct ExWebSocketError(async_tungstenite::tungstenite::Error);

/// A failure reported by the JSON library. Nothing in this crate looks inside
/// one.
#[verifier::external_type_specification]
#[verifier::external_body]
pub struct ExJsonError(serde_json::Error);

/// A JSON document. Nothing in this crate looks inside one.
#[verifier::external_type_specification]
#[verifier::external_body]
pub struct ExJsonValue(serde_json::Value);

} // verus!

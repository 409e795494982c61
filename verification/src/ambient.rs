//! What the engine takes from its surroundings: fresh identifiers and the
//! time of day. Neither can be computed from the engine's own state, so the
//! two functions here are believed, not proved, and promise nothing of what
//! they return.

use vstd::prelude::*;

verus! {

/// A new identifier for a session or a participant: the text of
/// `uuid::Uuid::new_v4()`, a random version-4 UUID, as its `Display` renders
/// it. Nothing is claimed of the text; callers are verified for every string
/// that may come back, and two calls may give any two strings.
#[verifier::external_body]
pub(crate) fn fresh_identifier() -> (id: String) {
    uuid::Uuid::new_v4().to_string()
}

/// The current moment as `chrono::Utc::now()` reads it, in milliseconds
/// since the Unix epoch (`DateTime::timestamp_millis`). Nothing is claimed of
/// the number. `Utc::now` gives up where the system clock stands before the
/// epoch.
#[verifier::external_body]
pub(crate) fn now_millis() -> (millis: i64) {
    chrono::Utc::now().timestamp_millis()
}

} // verus!

//! The library's two ties to the outside world: fresh identifiers and the
//! clock. Each is one call into an outside crate, wrapped so that the rest
//! of the library stays verified; nothing is promised of either value,
//! since both depend on more than their arguments.
use vstd::prelude::*;

verus! {

/// Relies on `uuid::Uuid::new_v4` and `Uuid::as_u128`: a freshly drawn
/// random version-4 identifier, read out as its 128-bit value. The value is
/// random; nothing is promised of it.
#[verifier::external_body]
pub(crate) fn fresh_id() -> u128 {
    uuid::Uuid::new_v4().as_u128()
}

/// Relies on `chrono::Utc::now` and `DateTime::timestamp_micros`: the
/// current time, as microseconds since the Unix epoch. The value depends on
/// the clock; nothing is promised of it.
#[verifier::external_body]
pub(crate) fn now_micros() -> i64 {
    chrono::Utc::now().timestamp_micros()
}

} // verus!

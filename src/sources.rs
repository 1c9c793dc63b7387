//! The two values a record takes from outside: the time and a fresh identifier.

use vstd::prelude::*;

verus! {

/// Relies on `chrono::Utc::now` and `DateTime::timestamp_millis`: the wall
/// clock in milliseconds since the Unix epoch. Nothing is known of the
/// reading, which may even go backwards.
#[verifier::external_body]
pub(crate) fn now_millis() -> i64 {
    chrono::Utc::now().timestamp_millis()
}

/// Relies on `uuid::Uuid::new_v4` and `Uuid::as_u128`: a random identifier
/// whose version nibble is 4 and whose variant bits are `10`.
#[verifier::external_body]
pub(crate) fn fresh_id() -> (r: u128)
    ensures
        (r >> 76u128) & 0xfu128 == 4,
        (r >> 62u128) & 0x3u128 == 2,
{
    uuid::Uuid::new_v4().as_u128()
}

} // verus!

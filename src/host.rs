//! The few facts this library takes from the host: core count, clock,
//! randomness and fresh identifiers.
use vstd::prelude::*;

verus! {

/// Relies on `num_cpus::get`: the number of logical cores available, which
/// its documentation promises is at least one.
#[verifier::external_body]
pub(crate) fn core_count() -> (r: usize)
    ensures
        r >= 1,
{
    num_cpus::get()
}

/// Relies on `chrono::Utc::now` and `DateTime::timestamp`: whole seconds
/// since the Unix epoch, read from the system clock.
#[verifier::external_body]
pub(crate) fn unix_seconds() -> (r: i64) {
    chrono::Utc::now().timestamp()
}

/// Relies on `rand::random::<u64>`: a uniformly drawn word.
#[verifier::external_body]
pub(crate) fn random_word() -> (r: u64) {
    rand::random::<u64>()
}

/// Relies on `uuid::Uuid::new_v4` and its `Display`: a random version-4 UUID
/// in hyphenated text form.
#[verifier::external_body]
pub(crate) fn fresh_id() -> (r: String) {
    uuid::Uuid::new_v4().to_string()
}

} // verus!

//! The two process-level value sources the core needs: the clock and the id
//! generator. Both depend on the environment, so nothing is promised of
//! their results; every function that uses one states what holds of any
//! outcome.

use vstd::prelude::*;

verus! {

/// Relies on `chrono::Utc::now` and `DateTime::timestamp`: the current unix
/// time in seconds. The result depends on the system clock, so nothing is
/// promised of it. `Utc::now` aborts the process if the system clock is set
/// before the Unix epoch — an environmental failure, like running out of
/// memory, that no caller can exclude.
#[verifier::external_body]
pub(crate) fn now_unix() -> u64 {
    chrono::Utc::now().timestamp() as u64
}

/// Relies on `uuid::Uuid::new_v4` and `Uuid::as_u128`: a freshly drawn
/// random 128-bit id. The result is random, so nothing is promised of it.
/// `new_v4` aborts the process if the operating system's entropy source
/// fails — environmental, like running out of memory.
#[verifier::external_body]
pub(crate) fn fresh_id() -> u128 {
    uuid::Uuid::new_v4().as_u128()
}

} // verus!

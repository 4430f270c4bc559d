//! Readings of the system clock.

use vstd::prelude::*;

verus! {

/// A point in time (`std::time::Instant`), carried through opaquely.
#[verifier::external_type_specification]
#[verifier::external_body]
pub struct ExInstant(std::time::Instant);

/// The current time (`Instant::now`). Nothing is stated of the value.
#[verifier::external_body]
pub(crate) fn instant_now() -> std::time::Instant {
    std::time::Instant::now()
}

/// Nanoseconds elapsed since `since` (`Instant::elapsed`, as nanoseconds).
///
/// The value depends on the clock; nothing is stated of it.
#[verifier::external_body]
pub(crate) fn elapsed_nanos(since: &std::time::Instant) -> u128 {
    since.elapsed().as_nanos()
}

} // verus!

verus! {

/// `Instant` is `Copy`; its clone is the same instant.
pub assume_specification[ <std::time::Instant as core::clone::Clone>::clone ](
    i: &std::time::Instant,
) -> (r: std::time::Instant)
    ensures
        r == *i,
;

} // verus!

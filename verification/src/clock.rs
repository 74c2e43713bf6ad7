//! Monotonic time, as the key gates read it.
//!
//! Every gate measures its deadlines in whole milliseconds since an
//! origin captured when it was built. What the clock reads is the
//! machine's business, so nothing here promises a value: the decisions
//! that depend on it take the reading as an argument and are verified
//! for every value of it.

use std::time::{Duration, Instant};
use vstd::prelude::*;

verus! {

/// `std::time::Instant`, carried through opaquely.
#[verifier::external_type_specification]
#[verifier::external_body]
pub struct ExInstant(Instant);

/// Calls `std::time::Instant::now`. The reading depends on the machine
/// and the moment, so the contract states nothing of it.
#[verifier::external_body]
pub(crate) fn instant_now() -> Instant {
    Instant::now()
}

/// Calls `std::time::Instant::elapsed` on `origin`. The value depends on
/// when it is asked, so the contract states nothing of it.
#[verifier::external_body]
fn instant_elapsed(origin: &Instant) -> Duration {
    origin.elapsed()
}

/// The whole milliseconds in a `Duration`, as `Duration::as_millis`
/// counts them.
pub uninterp spec fn whole_millis(d: Duration) -> u128;

/// Calls `std::time::Duration::as_millis`: the whole milliseconds in `d`,
/// a function of `d` alone.
#[verifier::external_body]
fn duration_as_millis(d: &Duration) -> (r: u128)
    ensures
        r == whole_millis(*d),
{
    d.as_millis()
}

/// Whole milliseconds since `origin`, truncated to `u64`. What the clock
/// reads is the machine's business, so nothing is promised of the value.
pub(crate) fn elapsed_ms(origin: &Instant) -> u64 {
    let d = instant_elapsed(origin);
    let ms = duration_as_millis(&d);
    ms as u64
}

} // verus!

//! The monotonic clock of the standard library, as far as the limiter
//! needs it. Nothing here is proved: these items say what is taken on
//! trust from `std::time`.

use vstd::prelude::*;
use std::time::{Duration, Instant};

verus! {

/// `std::time::Instant`, a reading of the monotonic clock. A value of it is
/// carried along and handed back to the clock; nothing is known of what it
/// holds.
#[verifier::external_type_specification]
#[verifier::external_body]
pub struct ExInstant(std::time::Instant);

/// `Instant::now` reads the monotonic clock. What it returns depends on
/// when it is called, so nothing is claimed of it.
pub assume_specification[ Instant::now ]() -> (reading: Instant);

/// `Instant::elapsed` is the time that the clock has advanced since the
/// reading was taken. It depends on when it is called, so nothing is
/// claimed of it.
pub assume_specification[ Instant::elapsed ](this: &Instant) -> (span: Duration);

/// `Duration::as_nanos` is the length of the duration in whole nanoseconds.
/// A duration is opaque here, so nothing is claimed of the number.
pub assume_specification[ Duration::as_nanos ](this: &Duration) -> (nanos: u128);

} // verus!

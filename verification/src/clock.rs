//! The monotonic clock that session activity is measured against.

use std::time::Duration;
use std::time::Instant;
use vstd::prelude::*;

verus! {

/// `std::time::Instant`: a point on the monotonic clock, opaque to the verifier.
#[verifier::external_type_specification]
#[verifier::external_body]
pub struct ExInstant(Instant);

/// The span of time from `earlier` to `later`, as
/// `Instant::saturating_duration_since` measures it.
pub uninterp spec fn span_between(later: Instant, earlier: Instant) -> Duration;

/// The whole seconds that a span of time holds, as `Duration::as_secs` counts them.
pub uninterp spec fn whole_seconds(span: Duration) -> u64;

/// `Instant::now`: the current reading of the monotonic clock. Nothing is
/// claimed of the reading.
pub assume_specification[ Instant::now ]() -> Instant;

/// `Instant::saturating_duration_since`: the time elapsed from `earlier` to
/// `later`. The result depends on the two instants alone.
pub assume_specification[ Instant::saturating_duration_since ](
    later: &Instant,
    earlier: Instant,
) -> (span: Duration)
    ensures
        span == span_between(*later, earlier),
;

/// `Duration::as_secs`: the number of whole seconds in `span`. The result
/// depends on the span alone.
pub assume_specification[ Duration::as_secs ](span: &Duration) -> (secs: u64)
    ensures
        secs == whole_seconds(*span),
;

/// Whole seconds elapsed from `since` to `now`.
pub open spec fn idle_seconds(now: Instant, since: Instant) -> u64 {
    whole_seconds(span_between(now, since))
}

/// Whole seconds elapsed from `since` to `now`; zero where `since` is the later one.
pub fn seconds_between(now: Instant, since: Instant) -> (secs: u64)
    ensures
        secs == idle_seconds(now, since),
{
    now.saturating_duration_since(since).as_secs()
}

} // verus!

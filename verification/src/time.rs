//! Spans of time and a clock that measures them.

use std::time::{Duration, Instant};
use vstd::prelude::*;

verus! {

/// The number of nanoseconds in a span, which is what `Duration::as_nanos` returns of it.
pub uninterp spec fn nanos(span: Duration) -> nat;

/// The number of whole milliseconds in a span, of which the low 64 bits are kept.
pub open spec fn millis(span: Duration) -> nat {
    ((nanos(span) / 1_000_000) % 0x1_0000_0000_0000_0000) as nat
}

/// `Duration::as_nanos` returns the total number of nanoseconds in the span.
pub assume_specification[ Duration::as_nanos ](span: &Duration) -> (n: u128)
    ensures
        n == nanos(*span),
;

/// `Duration::as_millis` returns the number of whole milliseconds in the span.
pub assume_specification[ Duration::as_millis ](span: &Duration) -> (n: u128)
    ensures
        n == nanos(*span) / 1_000_000,
;

/// `Duration::as_secs` returns the number of whole seconds in the span.
pub assume_specification[ Duration::as_secs ](span: &Duration) -> (n: u64)
    ensures
        n == nanos(*span) / 1_000_000_000,
;

/// `Duration::from_millis` makes a span of the given number of milliseconds.
pub assume_specification[ Duration::from_millis ](n: u64) -> (span: Duration)
    ensures
        nanos(span) == n * 1_000_000,
;

/// `Duration::from_secs` makes a span of the given number of seconds.
pub assume_specification[ Duration::from_secs ](n: u64) -> (span: Duration)
    ensures
        nanos(span) == n * 1_000_000_000,
;

/// `Duration::saturating_sub` returns the difference of two spans, and none where the second is
/// longer.
pub assume_specification[ Duration::saturating_sub ](left: Duration, right: Duration) -> (span:
    Duration)
    ensures
        nanos(span) == age(nanos(left), nanos(right)),
;

/// A reading of the system's monotonic clock.
#[verifier::external_type_specification]
#[verifier::external_body]
pub struct ExInstant(Instant);

/// `Instant::now` reads the clock. Nothing is promised of the reading.
pub assume_specification[ Instant::now ]() -> (reading: Instant);

/// `Instant::elapsed` returns the time that has passed since a reading.
/// Nothing is promised of how much that is.
pub assume_specification[ Instant::elapsed ](reading: &Instant) -> (span: Duration);

/// The low 64 bits of the number of milliseconds in a span.
pub fn whole_millis(span: &Duration) -> (n: u64)
    ensures
        n == millis(*span),
{
    let full: u128 = span.as_millis();
    assert(full as u64 == full % 0x1_0000_0000_0000_0000) by (bit_vector);
    full as u64
}

/// The time from one moment to a later one; none where the second is not later.
pub open spec fn age(now: nat, then: nat) -> nat {
    if now >= then {
        (now - then) as nat
    } else {
        0
    }
}

/// The shorter of two lengths of time.
pub open spec fn shorter(left: nat, right: nat) -> nat {
    if left <= right {
        left
    } else {
        right
    }
}

/// The age of a moment makes up for the time since; a moment that is still to come has none.
pub proof fn law_age_makes_up_the_time(now: nat, then: nat)
    ensures
        then <= now ==> then + age(now, then) == now,
        now <= then ==> age(now, then) == 0,
{
}

/// The shorter of two lengths is one of them and no longer than either.
pub proof fn law_shorter_is_shorter(left: nat, right: nat)
    ensures
        shorter(left, right) == left || shorter(left, right) == right,
        shorter(left, right) <= left,
        shorter(left, right) <= right,
{
}

/// A span has as many whole milliseconds as fit in it, as far as 64 bits can tell.
pub proof fn law_whole_millis_fit(span: Duration)
    requires
        nanos(span) < 0x1_0000_0000_0000_0000 * 1_000_000,
    ensures
        millis(span) * 1_000_000 <= nanos(span) < (millis(span) + 1) * 1_000_000,
{
}

/// The shorter of two spans.
pub fn shorter_span(left: Duration, right: Duration) -> (span: Duration)
    ensures
        nanos(span) == shorter(nanos(left), nanos(right)),
{
    if left.as_nanos() <= right.as_nanos() {
        left
    } else {
        right
    }
}

/// Whether `Instant::now` can return the moment.
pub open spec fn is_reading(moment: Instant) -> bool {
    call_ensures(Instant::now, (), moment)
}

/// Whether `Instant::elapsed` can return the span of the moment.
pub open spec fn can_elapse(moment: Instant, span: Duration) -> bool {
    call_ensures(Instant::elapsed, (&moment,), span)
}

/// A clock that counts from the moment it was started.
pub(crate) struct Clock {
    origin: Instant,
}

impl View for Clock {
    type V = Instant;

    closed spec fn view(&self) -> Instant {
        self.origin
    }
}

impl Clock {
    /// Starts a clock: it counts from a moment that `Instant::now` returned.
    pub(crate) fn start() -> (clock: Self)
        ensures
            is_reading(clock@),
    {
        Clock { origin: Instant::now() }
    }

    /// The time that has passed since the clock was started, which is what `Instant::elapsed`
    /// returned of the moment from which it counts.
    pub(crate) fn now(&self) -> (span: Duration)
        ensures
            can_elapse(self@, span),
    {
        self.origin.elapsed()
    }
}

} // verus!

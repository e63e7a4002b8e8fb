//! When to ask for a repaint.

use std::time::{Duration, Instant};
use vstd::prelude::*;

verus! {

/// A reading of the monotonic clock.
#[verifier::external_type_specification]
#[verifier::external_body]
pub struct ExInstant(Instant);

/// The least time between two requests for a repaint, in milliseconds.
pub const REPAINT_THROTTLE_MS: u64 = 1000;

/// The whole milliseconds in a span of time.
pub uninterp spec fn millis_in(span: Duration) -> u128;

/// `Instant::elapsed`. What time it is, nothing says.
pub assume_specification[ Instant::elapsed ](since: &Instant) -> Duration;

/// `Duration::as_millis`: the whole milliseconds in the span.
pub assume_specification[ Duration::as_millis ](span: &Duration) -> (millis: u128)
    ensures
        millis == millis_in(*span),
;

/// A count of milliseconds as a time stamp: its low 64 bits.
pub open spec fn stamp_of(millis: u128) -> u64 {
    (millis % 0x1_0000_0000_0000_0000) as u64
}

/// Builds [`stamp_of`].
pub fn stamp(millis: u128) -> (stamp: u64)
    ensures
        stamp == stamp_of(millis),
{
    (millis % 0x1_0000_0000_0000_0000) as u64
}

/// The milliseconds since `epoch`.
pub fn now_ms(epoch: &Instant) -> (ms: u64)
    ensures
        exists|elapsed: Duration| ms == stamp_of(#[trigger] millis_in(elapsed)),
{
    let elapsed = epoch.elapsed();
    stamp(elapsed.as_millis())
}

/// Decides whether a repaint may be asked for at `now`, and if so notes that it
/// was. All terminals share one `last`, so that many of them do not ask many
/// times as often. A clock that reads less than `last` counts as no time gone.
pub fn throttled_repaint(now: u64, last: &mut u64) -> (repaint: bool)
    ensures
        repaint == (now - *old(last) >= REPAINT_THROTTLE_MS),
        *final(last) == (if repaint {
            now
        } else {
            *old(last)
        }),
{
    let gone: u64 = if now > *last {
        now - *last
    } else {
        0
    };
    if gone >= REPAINT_THROTTLE_MS {
        *last = now;
        true
    } else {
        false
    }
}

} // verus!

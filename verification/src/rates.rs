//! Event rates: wrapping count windows, and counts per second.

use vstd::prelude::*;

use crate::bits::low32;

verus! {

/// A window on a wrapping counter.
#[derive(Debug, Clone, Copy, PartialEq, Eq, Structural)]
pub struct RateWindow {
    /// The count at the last latch.
    pub start: u32,
}

impl RateWindow {
    /// A window that starts at this count.
    pub fn new(start: u32) -> (r: Self)
        ensures
            r.start == start,
    {
        Self { start }
    }

    /// The count since the last latch.
    pub open spec fn counted(self, now_count: u32) -> u32 {
        now_count.wrapping_sub(self.start)
    }

    /// The count since the last latch; the window starts over.
    pub fn latch(&mut self, now_count: u32) -> (r: u32)
        ensures
            r == old(self).counted(now_count),
            final(self).start == now_count,
    {
        let d: u32 = now_count.wrapping_sub(self.start);
        self.start = now_count;
        d
    }
}

/// Events per second from a count over 10 µs ticks.
pub open spec fn rate_of(count: u32, ticks: u32) -> Option<u32> {
    if ticks == 0 {
        None
    } else {
        Some((count * 100_000 / ticks as int % 0x1_0000_0000) as u32)
    }
}

/// Events per second from a count over 10 µs ticks, in 32 bits; `None` when
/// no time passed.
pub fn rate_per_s(delta_count: u32, delta_ticks_10us: u32) -> (r: Option<u32>)
    ensures
        r == rate_of(delta_count, delta_ticks_10us),
{
    if delta_ticks_10us == 0 {
        None
    } else {
        Some(low32(delta_count as u64 * 100_000 / delta_ticks_10us as u64))
    }
}

/// Consecutive latches account for every event, across the counter's wrap:
/// the counts of two windows add up to the count of both.
pub proof fn law_latches_add_up(start: u32, mid: u32, end: u32)
    ensures
        mid.wrapping_sub(start).wrapping_add(end.wrapping_sub(mid)) == end.wrapping_sub(start),
{
}

/// A window counts what the counter moved, across its wrap, and two windows
/// in a row count what one over both would.
pub proof fn law_window_counts_its_events(w: RateWindow, events: u32, mid: u32, end: u32)
    ensures
        w.counted(w.start.wrapping_add(events)) == events,
        w.counted(mid).wrapping_add((RateWindow { start: mid }).counted(end)) == w.counted(end),
{
}

/// A rate over a second, which is 100 000 ticks, is the count; over any time
/// it and the time make up the count, up to rounding down, as long as it
/// fits; over no time there is none.
pub proof fn law_rate_is_per_second(count: u32, ticks: u32)
    requires
        ticks > 0,
    ensures
        rate_of(count, 0) is None,
        rate_of(count, 100_000) == Some(count),
        rate_of(count, ticks) is Some,
        count * 100_000 / ticks as int <= u32::MAX ==> {
            let rate = rate_of(count, ticks)->0;
            rate * ticks <= count * 100_000 < rate * ticks + ticks
        },
{
    let n = count * 100_000;
    let t = ticks as int;
    vstd::arithmetic::div_mod::lemma_fundamental_div_mod(n, t);
    assert(t * (n / t) == n / t * t) by (nonlinear_arith);
    assert(n >= 0);
    assert(n / t >= 0) by (nonlinear_arith)
        requires
            n >= 0,
            t > 0,
    ;
}

} // verus!

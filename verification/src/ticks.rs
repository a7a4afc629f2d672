//! A 1 µs clock from a 10 µs tick and the down-counting remainder of its
//! timer.

use vstd::prelude::*;

verus! {

/// Reload of the 10 µs timer at 80 MHz.
pub const RELOAD: u32 = 799;

/// Core cycles per µs.
pub const CYC_PER_US: u32 = 80;

/// The time of a consistent snapshot, µs, wrapping.
pub open spec fn composed(coarse: u32, cvr: u32) -> u32 {
    coarse.wrapping_mul(10).wrapping_add((RELOAD.wrapping_sub(cvr) / CYC_PER_US) as u32)
}

/// The time of a snapshot of tick, remainder and tick.
pub open spec fn snapshot_time(coarse_pre: u32, cvr: u32, coarse_post: u32) -> Option<u32> {
    if coarse_pre == coarse_post {
        Some(composed(coarse_pre, cvr))
    } else {
        None
    }
}

/// The time of a snapshot read in the order tick, remainder, tick; `None`
/// when the tick moved between the reads, so that the pair is torn.
pub fn compose_1us(coarse_pre: u32, cvr: u32, coarse_post: u32) -> (r: Option<u32>)
    ensures
        r == snapshot_time(coarse_pre, cvr, coarse_post),
{
    if coarse_pre != coarse_post {
        return None;
    }
    Some(coarse_pre.wrapping_mul(10).wrapping_add(RELOAD.wrapping_sub(cvr) / CYC_PER_US))
}

/// The remainder adds 0 to 9 µs to its tick, never falling as it counts
/// down.
pub proof fn law_remainder_stays_in_its_tick(coarse: u32, cvr: u32, later: u32)
    requires
        later <= cvr <= RELOAD,
        10 * coarse + 9 <= u32::MAX,
    ensures
        10 * coarse <= composed(coarse, cvr) <= composed(coarse, later) <= 10 * coarse + 9,
{
}

/// Time never runs backwards: a later snapshot composes to a later time, or
/// the same one, as long as the clock does not wrap.
pub proof fn law_time_is_monotone(coarse1: u32, cvr1: u32, coarse2: u32, cvr2: u32)
    requires
        cvr1 <= RELOAD,
        cvr2 <= RELOAD,
        10 * coarse2 + 9 <= u32::MAX,
        coarse1 < coarse2 || (coarse1 == coarse2 && cvr2 <= cvr1),
    ensures
        composed(coarse1, cvr1) <= composed(coarse2, cvr2),
{
}

/// A whole tick is 10 µs, across the wrap of the clock too.
pub proof fn law_a_tick_is_ten_us(coarse: u32, cvr: u32)
    ensures
        composed(coarse.wrapping_add(1), cvr).wrapping_sub(composed(coarse, cvr)) == 10,
{
    let a = coarse as int;
    assert(coarse.wrapping_mul(10) == (a * 10) % 0x1_0000_0000);
    assert(coarse.wrapping_add(1).wrapping_mul(10) == ((a + 1) % 0x1_0000_0000 * 10)
        % 0x1_0000_0000);
}

/// A torn snapshot has no time. An untorn one is its tick's 10 µs and the
/// microseconds that the remainder has counted down of 799, 80 counts each,
/// up to rounding down.
pub proof fn law_snapshot_adds_the_remainder(coarse: u32, cvr: u32, other: u32)
    requires
        cvr <= 799,
        10 * coarse + 9 <= u32::MAX,
        other != coarse,
    ensures
        snapshot_time(coarse, cvr, other) is None,
        snapshot_time(coarse, cvr, coarse) is Some,
        ({
            let past = snapshot_time(coarse, cvr, coarse)->0 - 10 * coarse;
            799 - cvr - 79 <= 80 * past <= 799 - cvr
        }),
{
}

} // verus!

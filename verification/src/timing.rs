//! Commutation timing arithmetic: the schedule delay, the advance ramps,
//! the zero-cross gate, comparator blanking, persistence depth, the duty
//! slew limit and the carrier map. All times are µs unless noted.

use vstd::prelude::*;

use crate::bits::{clamp_of, div_trunc, max_of, min_of, signed32};
use crate::bits::to_signed32;
use crate::window::TOPEND_US;

verus! {

/// Shortest delay the schedule asks of the commutation timer.
pub const LPTIM2_MIN_DELAY_US: i32 = 2;

/// Fixed cost of the full schedule path, from computing the delay to the
/// count starting. A zero-cross refine adds it to the elapsed time; a
/// free-run re-arm does not pay it.
pub const LPTIM2_FULL_SCHEDULE_OVERHEAD_US: i32 = 3;

/// Below this interval the parity trim is off.
pub const PARITY_TRIM_MIN_IV_US: u32 = 200;

/// Bound of the parity trim either way.
pub const PARITY_TRIM_CLAMP_US: i32 = 80;

/// Duty slew while starting: 2 % per ms.
pub const SLEW_STARTUP_PERMILLE_PER_MS: u32 = 20;

/// Duty slew at low speed (interval above 500 µs): 6 % per ms.
pub const SLEW_LOW_PERMILLE_PER_MS: u32 = 60;

/// Duty slew at speed: 16 % per ms.
pub const SLEW_HIGH_PERMILLE_PER_MS: u32 = 160;

/// A duty write older than this means the motor was stopped: the ramp
/// restarts from zero.
pub const SLEW_STALE_US: u32 = 100_000;

/// The speed-following advance in degrees: a base ramp of one degree per
/// 45 µs below 600 µs, at most 12, and a boost of six degrees per 70 µs
/// below 200 µs, at most 6; together at most 20.
pub open spec fn advance_ramp(iv: int) -> int {
    let base = min_of(max_of(600 - iv, 0) / 45, 12);
    let boost = min_of(max_of(200 - iv, 0) * 6 / 70, 6);
    min_of(base + boost, 20)
}

/// The advance in degrees: the manual setting, or the ramp when that is 0.
pub open spec fn speed_advance(interval_us: u32, manual_deg: i32) -> int {
    if manual_deg != 0 {
        manual_deg as int
    } else {
        advance_ramp(signed32(interval_us))
    }
}

/// Auto-advance: with the manual setting at 0 the advance follows the
/// measured speed; a nonzero manual setting overrides it.
pub fn auto_advance_deg(interval_us: u32, manual_deg: i32) -> (r: i32)
    requires
        manual_deg != 0 || (200 - signed32(interval_us)) * 6 <= i32::MAX,
    ensures
        r == speed_advance(interval_us, manual_deg),
{
    if manual_deg != 0 {
        return manual_deg;
    }
    let iv: i32 = to_signed32(interval_us);
    let below: i32 = 600 - iv;
    let base: i32 = if below > 0 {
        (below / 45).min(12)
    } else {
        0
    };
    let fast: i32 = 200 - iv;
    let boost: i32 = if fast > 0 {
        (fast * 6 / 70).min(6)
    } else {
        0
    };
    (base + boost).min(20)
}

/// The advance in degrees: the manual setting, or by the duty when that is 0.
pub open spec fn duty_advance(duty_pct: u32, manual_deg: i32) -> int {
    if manual_deg != 0 {
        manual_deg as int
    } else {
        13 + (clamp_of(duty_pct as int, 5, 100) - 5) * 10 / 95
    }
}

/// Duty-keyed advance: 13 degrees at 5 % duty and below, 23 at 100 %,
/// linear between. Speed does not enter, so an excursion of the speed
/// estimate cannot move it. A nonzero manual setting overrides it.
pub fn auto_advance_deg_am32(duty_pct: u32, manual_deg: i32) -> (r: i32)
    ensures
        r == duty_advance(duty_pct, manual_deg),
{
    if manual_deg != 0 {
        return manual_deg;
    }
    let d: i32 = duty_pct.max(5).min(100) as i32;
    13 + (d - 5) * 10 / 95
}

/// The delay before it is held to the timer's floor: the part of the
/// interval left to the commutation, less the time already gone.
pub open spec fn raw_delay(iv: int, adv_deg: int, elapsed_us: int) -> int {
    div_trunc(iv * (30 - adv_deg), 60) - elapsed_us
}

/// The delay, held to the timer's floor.
pub open spec fn held_delay(iv: int, adv_deg: int, elapsed_us: int) -> int {
    max_of(raw_delay(iv, adv_deg, elapsed_us), LPTIM2_MIN_DELAY_US as int)
}

/// Delay from an accepted zero-cross to the commutation:
/// `interval * (30 - adv) / 60 - elapsed`, at least
/// [`LPTIM2_MIN_DELAY_US`].
pub fn commutation_delay_us(interval_us: u32, adv_deg: i32, elapsed_us: i32) -> (r: u32)
    requires
        30 - adv_deg <= i32::MAX,
        i32::MIN <= signed32(interval_us) * (30 - adv_deg) <= i32::MAX,
        i32::MIN <= raw_delay(signed32(interval_us), adv_deg as int, elapsed_us as int)
            <= i32::MAX,
    ensures
        r == held_delay(signed32(interval_us), adv_deg as int, elapsed_us as int),
{
    let iv: i32 = to_signed32(interval_us);
    let share: i32 = iv * (30 - adv_deg);
    let d: i32 = share / 60 - elapsed_us;
    if d > LPTIM2_MIN_DELAY_US {
        d as u32
    } else {
        LPTIM2_MIN_DELAY_US as u32
    }
}

/// How early in a window of this interval a zero-cross may come.
pub open spec fn gate_of(interval_us: u32, reacq: bool) -> int {
    if reacq {
        max_of(interval_us * 2 / 25, 10)
    } else {
        max_of(interval_us * 3 / 10, 20)
    }
}

/// How early a zero-cross may come by the stiff average, or by the interval
/// for want of one.
pub open spec fn stiff_gate_of(avg_interval_us: u32, interval_us: u32, reacq: bool) -> int {
    if reacq {
        gate_of(interval_us, true)
    } else if avg_interval_us != 0 {
        max_of(avg_interval_us as int / 2, 20)
    } else {
        max_of(interval_us as int / 2, 20)
    }
}

/// Earliest acceptable zero-cross, from the window start: 30 % of the
/// interval, or 8 % in re-acquisition, where crossings that drifted early
/// must count again.
pub fn gate_us(interval_us: u32, reacq: bool) -> (r: u32)
    requires
        reacq ==> interval_us * 2 <= u32::MAX,
        !reacq ==> interval_us * 3 <= u32::MAX,
    ensures
        r == gate_of(interval_us, reacq),
{
    if reacq {
        (interval_us * 2 / 25).max(10)
    } else {
        (interval_us * 3 / 10).max(20)
    }
}

/// Earliest acceptable zero-cross in geometry mode: half the stiff average,
/// or half the fast interval before the average is seeded. Re-acquisition
/// keeps the share of [`gate_us`].
pub fn gate_us_am32(avg_interval_us: u32, interval_us: u32, reacq: bool) -> (r: u32)
    requires
        reacq ==> interval_us * 2 <= u32::MAX,
    ensures
        r == stiff_gate_of(avg_interval_us, interval_us, reacq),
{
    if reacq {
        return gate_us(interval_us, true);
    }
    let base: u32 = if avg_interval_us != 0 {
        avg_interval_us
    } else {
        interval_us
    };
    (base / 2).max(20)
}

/// The parity average after a window: an eighth of the way to the new
/// length, seeded by the first one.
pub open spec fn parity_ema(ema_us: int, wl_us: int) -> int {
    if ema_us == 0 {
        wl_us
    } else {
        ema_us - ema_us / 8 + wl_us / 8
    }
}

/// One window of length `wl_us` closed: the average of its parity moves.
pub fn parity_ema_step(ema_us: u32, wl_us: u32) -> (r: u32)
    requires
        parity_ema(ema_us as int, wl_us as int) <= u32::MAX,
    ensures
        r == parity_ema(ema_us as int, wl_us as int),
{
    if ema_us == 0 {
        wl_us
    } else {
        ema_us - ema_us / 8 + wl_us / 8
    }
}

/// The trim is off: at high speed, or before both parities are seeded.
pub open spec fn parity_trim_off(ema_this: u32, ema_other: u32, interval_us: u32) -> bool {
    interval_us < PARITY_TRIM_MIN_IV_US || ema_this == 0 || ema_other == 0
}

/// The trim of a parity: half the alternation of the window lengths, within
/// its clamp; 0 while off.
pub open spec fn parity_trim(ema_this: u32, ema_other: u32, interval_us: u32) -> int {
    if parity_trim_off(ema_this, ema_other, interval_us) {
        0
    } else {
        clamp_of(
            (ema_this + ema_other) / 2 - signed32(ema_this),
            -(PARITY_TRIM_CLAMP_US as int),
            PARITY_TRIM_CLAMP_US as int,
        )
    }
}

/// Signed delay trim of a commutation that closes a window of this parity:
/// it cancels the alternation of the window lengths. Positive is later.
pub fn parity_trim_us(ema_this: u32, ema_other: u32, interval_us: u32) -> (r: i32)
    requires
        parity_trim_off(ema_this, ema_other, interval_us) || {
            &&& ema_this + ema_other <= u32::MAX
            &&& signed32(ema_this) - (ema_this + ema_other) / 2 > i32::MIN
        },
    ensures
        r == parity_trim(ema_this, ema_other, interval_us),
{
    if interval_us < PARITY_TRIM_MIN_IV_US || ema_this == 0 || ema_other == 0 {
        return 0;
    }
    let mid: i32 = ((ema_this + ema_other) / 2) as i32;
    let over: i32 = to_signed32(ema_this) - mid;
    (-over).max(-PARITY_TRIM_CLAMP_US).min(PARITY_TRIM_CLAMP_US)
}

/// The comparator blank at an interval.
pub open spec fn blank_of(user_blank_us: u32, interval_us: u32) -> int {
    if interval_us == 0 {
        user_blank_us as int
    } else {
        min_of(user_blank_us as int, interval_us as int / 75)
    }
}

/// The persistence depth under a blank.
pub open spec fn depth_of(blank_us: u32, cl_locked: bool) -> u32 {
    if blank_us >= 5 || cl_locked {
        5
    } else {
        12
    }
}

/// The persistence depth at an average interval.
pub open spec fn mapped_depth_of(avg_interval_us: u32) -> int {
    if avg_interval_us == 0 {
        12
    } else {
        3 + clamp_of(avg_interval_us as int - 100, 0, 400) * 9 / 400
    }
}

/// Speed-adaptive comparator blank: the user setting, shrinking with the
/// interval.
pub fn blank_us(user_blank_us: u32, interval_us: u32) -> (r: u32)
    ensures
        r == blank_of(user_blank_us, interval_us),
{
    if interval_us != 0 {
        user_blank_us.min(interval_us / 75)
    } else {
        user_blank_us
    }
}

/// Persistence depth of the qualification reads: 5 while the blank filters
/// or under an established lock, 12 once the blank has faded.
pub fn persistence_reads(blank_us: u32, cl_locked: bool) -> (r: u32)
    ensures
        r == depth_of(blank_us, cl_locked),
{
    if blank_us >= 5 || cl_locked {
        5
    } else {
        12
    }
}

/// Speed-mapped persistence depth: 3 reads at an average of 100 µs, 12 at
/// 500, linear between; 12 when unseeded. A miss never deepens it.
pub fn persistence_reads_r2(avg_interval_us: u32, cl_locked: bool, _reseeding: bool) -> (r: u32)
    ensures
        r == mapped_depth_of(avg_interval_us),
{
    if avg_interval_us == 0 || (!cl_locked && avg_interval_us > 500) {
        return 12;
    }
    if avg_interval_us >= 500 {
        12
    } else if avg_interval_us <= 100 {
        3
    } else {
        3 + (avg_interval_us - 100) * 9 / 400
    }
}

/// The confirm depth of a zero-cross in PWM wraps: 1 under an established
/// lock, and in top-end re-acquisition, where two wraps do not fit the
/// window; 2 otherwise.
pub open spec fn confirm_depth(cl_active: bool, reacq: bool, interval_us: u32) -> u32 {
    if cl_active && (!reacq || 0 < interval_us < TOPEND_US) {
        1
    } else {
        2
    }
}

/// The confirm depth of a zero-cross in PWM wraps.
pub fn confirm_need(cl_active: bool, reacq: bool, interval_us: u32) -> (r: u32)
    ensures
        r == confirm_depth(cl_active, reacq, interval_us),
{
    if cl_active && !reacq {
        1
    } else if cl_active && reacq && interval_us > 0 && interval_us < TOPEND_US {
        1
    } else {
        2
    }
}

/// One shaped duty write.
#[derive(Debug, Clone, Copy, PartialEq, Eq, Structural)]
pub struct SlewOut {
    /// The duty to apply.
    pub duty: u16,
    /// The target was not reached.
    pub clamped: bool,
}

/// The duty that a slew starts from: zero after a stale gap.
pub open spec fn slew_from(last: u16, elapsed_us: u32) -> u16 {
    if elapsed_us > SLEW_STALE_US {
        0
    } else {
        last
    }
}

/// The slew rate of the regime, per mille per ms.
pub open spec fn slew_rate(from: u16, max_duty: u16, cl_active: bool, interval_us: u32) -> u32 {
    if !cl_active || from < max_duty / 13 {
        SLEW_STARTUP_PERMILLE_PER_MS
    } else if interval_us == 0 || interval_us > 500 {
        SLEW_LOW_PERMILLE_PER_MS
    } else {
        SLEW_HIGH_PERMILLE_PER_MS
    }
}

/// The largest duty change of one write: the regime's rate over the
/// elapsed time (1 ms after a stale gap), at least one count, and at most
/// the whole range of a duty.
pub open spec fn slew_allowed(
    last: u16,
    elapsed_us: u32,
    max_duty: u16,
    cl_active: bool,
    interval_us: u32,
) -> int {
    let span: int = if elapsed_us > SLEW_STALE_US {
        1_000
    } else {
        elapsed_us as int
    };
    let rate = slew_rate(slew_from(last, elapsed_us), max_duty, cl_active, interval_us);
    min_of(max_of(max_duty as int * rate as int * span / 1_000_000, 1), 0xFFFF)
}

/// `target`, or as near to it as `allowed` lets a write from `from` come.
pub open spec fn slewed(from: int, target: int, allowed: int) -> int {
    clamp_of(target, from - allowed, from + allowed)
}

/// The duty of a shaped write.
pub open spec fn slew_duty(
    last: u16,
    target: u16,
    elapsed_us: u32,
    max_duty: u16,
    cl_active: bool,
    interval_us: u32,
) -> int {
    slewed(
        slew_from(last, elapsed_us) as int,
        target as int,
        slew_allowed(last, elapsed_us, max_duty, cl_active, interval_us),
    )
}

/// One shaped duty write toward `target`, `elapsed_us` after the last one.
/// The regime sets the rate: starting (not locked, or under about 7.5 % of
/// `max_duty`), low speed, or high speed.
pub fn duty_slew(
    last: u16,
    target: u16,
    elapsed_us: u32,
    max_duty: u16,
    cl_active: bool,
    interval_us: u32,
) -> (r: SlewOut)
    ensures
        r.duty == slew_duty(last, target, elapsed_us, max_duty, cl_active, interval_us),
        r.clamped == (r.duty != target),
{
    let stale: bool = elapsed_us > SLEW_STALE_US;
    let from: u16 = if stale {
        0
    } else {
        last
    };
    let span: u32 = if stale {
        1_000
    } else {
        elapsed_us
    };
    let rate: u32 = if !cl_active || from < max_duty / 13 {
        SLEW_STARTUP_PERMILLE_PER_MS
    } else if interval_us == 0 || interval_us > 500 {
        SLEW_LOW_PERMILLE_PER_MS
    } else {
        SLEW_HIGH_PERMILLE_PER_MS
    };
    assert(0 <= max_duty as u64 * rate as u64 <= 0xFFFF * 160) by (nonlinear_arith)
        requires
            max_duty <= 0xFFFF,
            rate <= 160,
    ;
    assert(0 <= max_duty as u64 * rate as u64 * span as u64 <= 0xFFFF * 160 * 100_000)
        by (nonlinear_arith)
        requires
            0 <= max_duty as u64 * rate as u64 <= 0xFFFF * 160,
            span <= 100_000,
    ;
    let scaled: u64 = max_duty as u64 * rate as u64 * span as u64 / 1_000_000;
    let allowed: u16 = scaled.max(1).min(0xFFFF) as u16;
    if target > from {
        let step: u16 = target - from;
        if step > allowed {
            SlewOut { duty: from + allowed, clamped: true }
        } else {
            SlewOut { duty: target, clamped: false }
        }
    } else {
        let step: u16 = from - target;
        if step > allowed {
            SlewOut { duty: from - allowed, clamped: true }
        } else {
            SlewOut { duty: target, clamped: false }
        }
    }
}

/// The carrier reload: `base_arr` from 100 µs up and when unseeded, half
/// of it at 48 µs and below, linear between.
pub open spec fn carrier(interval_us: int, base_arr: int) -> int {
    let half = base_arr / 2;
    if interval_us == 0 || interval_us >= 100 {
        base_arr
    } else if interval_us <= 48 {
        half
    } else {
        half + (base_arr - half) * (interval_us - 48) / 52
    }
}

/// The carrier reload of an interval: ripple shrinks as windows tighten.
pub fn carrier_arr(interval_us: u32, base_arr: u16) -> (r: u16)
    ensures
        r == carrier(interval_us as int, base_arr as int),
{
    let half: u16 = base_arr / 2;
    let span: u32 = (base_arr - half) as u32;
    if interval_us == 0 || interval_us >= 100 {
        base_arr
    } else if interval_us <= 48 {
        half
    } else {
        let over: u32 = interval_us - 48;
        assert(0 <= span * over <= span * 52) by (nonlinear_arith)
            requires
                over <= 52,
        ;
        (half as u32 + span * over / 52) as u16
    }
}

/// The sag debounce of a carrier, in samples.
pub open spec fn debounce_of(arr: u16) -> int {
    clamp_of(267_000int / ((arr + 1) * 100 / 80), 16, 0xFFFF)
}

/// The sag debounce in samples of a carrier: about 2.67 ms of wraps of an
/// 80 MHz timer, at least 16, and at most what 16 bits hold.
pub fn sag_debounce_samples(arr: u16) -> (r: u16)
    ensures
        r == debounce_of(arr),
{
    let wrap_us_x100: u32 = (arr as u32 + 1) * 100 / 80;
    (267_000 / wrap_us_x100.max(1)).max(16).min(0xFFFF) as u16
}

/// The interval that a climb schedules from.
pub open spec fn lead_of(interval_us: u32, climbing: bool) -> int {
    if climbing {
        interval_us - interval_us / 16
    } else {
        interval_us as int
    }
}

/// The interval to schedule from: shaved by a sixteenth while climbing,
/// where the smoothed interval lags the rotor.
pub fn climb_lead_iv(interval_us: u32, climbing: bool) -> (r: u32)
    ensures
        r == lead_of(interval_us, climbing),
{
    if climbing {
        interval_us - interval_us / 16
    } else {
        interval_us
    }
}

/// The speed-following advance is between 0 and 18 degrees, is 0 from
/// 600 µs up, and never falls as the motor gets faster.
pub proof fn law_advance_ramps_with_speed(slow: int, fast: int)
    requires
        fast <= slow,
    ensures
        0 <= advance_ramp(slow) <= advance_ramp(fast) <= 18,
        slow >= 600 ==> advance_ramp(slow) == 0,
{
}

/// A longer interval, less advance or less elapsed time never schedules
/// the commutation earlier.
pub proof fn law_delay_is_monotone(iv: int, adv: int, elapsed: int, iv2: int, adv2: int, elapsed2: int)
    requires
        0 <= iv <= iv2,
        adv2 <= adv <= 30,
        elapsed2 <= elapsed,
    ensures
        raw_delay(iv, adv, elapsed) <= raw_delay(iv2, adv2, elapsed2),
        max_of(raw_delay(iv, adv, elapsed), LPTIM2_MIN_DELAY_US as int) <= max_of(
            raw_delay(iv2, adv2, elapsed2),
            LPTIM2_MIN_DELAY_US as int,
        ),
{
    assert(0 <= iv * (30 - adv) <= iv2 * (30 - adv2)) by (nonlinear_arith)
        requires
            0 <= iv <= iv2,
            0 <= 30 - adv <= 30 - adv2,
    ;
}

/// A slewed duty lies between where it starts and the target and within
/// the allowed step, and any allowance brings it nearer to the target.
pub proof fn law_slew_never_overshoots(from: int, target: int, allowed: int)
    requires
        allowed >= 0,
    ensures
        from <= target ==> from <= slewed(from, target, allowed) <= target,
        target <= from ==> target <= slewed(from, target, allowed) <= from,
        -allowed <= slewed(from, target, allowed) - from <= allowed,
        allowed > 0 && from < target ==> from < slewed(from, target, allowed),
        allowed > 0 && target < from ==> slewed(from, target, allowed) < from,
{
}

/// Every write may move the duty by a count at least, so it always comes
/// nearer to a target that it has not reached.
pub proof fn law_every_write_makes_progress(
    last: u16,
    target: u16,
    elapsed_us: u32,
    max_duty: u16,
    cl_active: bool,
    interval_us: u32,
)
    ensures
        ({
            let from = slew_from(last, elapsed_us) as int;
            let allowed = slew_allowed(last, elapsed_us, max_duty, cl_active, interval_us);
            &&& 1 <= allowed <= 0xFFFF
            &&& from < target ==> from < slewed(from, target as int, allowed) <= target
            &&& target < from ==> target <= slewed(from, target as int, allowed) < from
        }),
{
}

/// The duty after `n` equal slew steps.
pub open spec fn slewed_n(from: int, target: int, allowed: int, n: nat) -> int
    decreases n,
{
    if n == 0 {
        from
    } else {
        slewed(slewed_n(from, target, allowed, (n - 1) as nat), target, allowed)
    }
}

/// Equal steps reach the target: a distance of `d` takes at most
/// `d / allowed` of them, rounded up.
pub proof fn law_slew_converges(from: int, target: int, allowed: int, n: nat)
    requires
        allowed > 0,
        n * allowed >= from - target,
        n * allowed >= target - from,
    ensures
        slewed_n(from, target, allowed, n) == target,
{
    lemma_slew_steps(from, target, allowed, n);
}

/// After `n` steps the remaining distance is the first one less `n`
/// allowances, or none.
proof fn lemma_slew_steps(from: int, target: int, allowed: int, n: nat)
    requires
        allowed > 0,
    ensures
        from <= target ==> slewed_n(from, target, allowed, n) == min_of(from + n * allowed, target),
        target <= from ==> slewed_n(from, target, allowed, n) == max_of(from - n * allowed, target),
    decreases n,
{
    if n > 0 {
        lemma_slew_steps(from, target, allowed, (n - 1) as nat);
        assert((n - 1) * allowed + allowed == n * allowed) by (nonlinear_arith);
    } else {
        assert(0 * allowed == 0);
    }
}

/// The carrier stays between half the base and the base, and never speeds
/// up as the interval grows.
pub proof fn law_carrier_is_bounded_and_monotone(fast: int, slow: int, base_arr: int)
    requires
        0 < fast <= slow,
        0 <= base_arr,
    ensures
        base_arr / 2 <= carrier(fast, base_arr) <= carrier(slow, base_arr) <= base_arr,
{
    let span = base_arr - base_arr / 2;
    let a = clamp_of(fast - 48, 0, 52);
    let b = clamp_of(slow - 48, 0, 52);
    assert(0 <= span * a <= span * b <= span * 52) by (nonlinear_arith)
        requires
            0 <= span,
            0 <= a <= b <= 52,
    ;
}

/// The trims of the two parities of an alternation cancel, up to the
/// rounding of the midpoint. (A length over `i32::MAX` reads as negative.)
pub proof fn law_parity_trims_cancel(even: u32, odd: u32, interval_us: u32)
    requires
        even <= i32::MAX,
        odd <= i32::MAX,
    ensures
        -1 <= parity_trim(even, odd, interval_us) + parity_trim(odd, even, interval_us) <= 0,
        even == odd ==> parity_trim(even, odd, interval_us) == 0,
{
}

/// A manual setting is the advance. Without one the advance has a degree for
/// every full 45 µs below 600 (`base` of them), and below 200 µs six more for
/// 70 µs; from 130 µs down all six, and from 60 µs down 18 in all.
pub proof fn law_advance_counts_its_steps(interval_us: u32, manual_deg: i32, base: int)
    requires
        interval_us <= i32::MAX,
        45 * base <= 600 - interval_us < 45 * base + 45,
    ensures
        manual_deg != 0 ==> speed_advance(interval_us, manual_deg) == manual_deg,
        ({
            let adv = speed_advance(interval_us, 0);
            &&& interval_us >= 600 ==> adv == 0
            &&& 200 <= interval_us <= 600 ==> adv == base
            &&& 130 <= interval_us <= 200 ==> 70 * (adv - base) <= 6 * (200 - interval_us) < 70 * (
            adv - base) + 70
            &&& 60 <= interval_us <= 130 ==> adv == base + 6
            &&& interval_us <= 60 ==> adv == 18
        }),
{
}

/// A manual setting is the advance. Without one it goes from 13 degrees at a
/// duty of 5 % and below to 23 at 100 %, ten degrees over 95 %, and never
/// falls as the duty grows.
pub proof fn law_advance_follows_the_duty(duty_pct: u32, more: u32, manual_deg: i32)
    requires
        duty_pct <= more,
    ensures
        manual_deg != 0 ==> duty_advance(duty_pct, manual_deg) == manual_deg,
        duty_pct <= 5 ==> duty_advance(duty_pct, 0) == 13,
        duty_pct >= 100 ==> duty_advance(duty_pct, 0) == 23,
        5 <= duty_pct <= 100 ==> 10 * (duty_pct - 5) - 94 <= 95 * (duty_advance(duty_pct, 0) - 13)
            <= 10 * (duty_pct - 5),
        duty_advance(duty_pct, 0) <= duty_advance(more, 0),
{
}

/// The delay and the time gone make up the interval's share of 30 degrees
/// less the advance out of 60, up to rounding down; it is never under 2 µs.
/// Without advance that is half the interval, and at 30 degrees nothing.
pub proof fn law_delay_is_a_share(iv: int, adv_deg: int, elapsed_us: int)
    requires
        0 <= iv,
        adv_deg <= 30,
    ensures
        held_delay(iv, adv_deg, elapsed_us) >= 2,
        held_delay(iv, adv_deg, elapsed_us) > 2 ==> iv * (30 - adv_deg) - 59 <= 60 * (held_delay(
            iv,
            adv_deg,
            elapsed_us,
        ) + elapsed_us) <= iv * (30 - adv_deg),
        held_delay(iv, adv_deg, elapsed_us) == 2 ==> iv * (30 - adv_deg) < 60 * (3 + elapsed_us),
        iv >= 6 ==> held_delay(iv, 0, 0) == iv / 2,
        elapsed_us >= 0 ==> held_delay(iv, 30, elapsed_us) == 2,
{
    assert(iv * (30 - adv_deg) >= 0) by (nonlinear_arith)
        requires
            0 <= iv,
            adv_deg <= 30,
    ;
    assert(iv * (30 - 0) == 30 * iv) by (nonlinear_arith);
    assert(iv * (30 - 30) == 0) by (nonlinear_arith);
}

/// A zero-cross may come from three tenths of the interval on, but 20 µs at
/// least, and from two twenty-fifths in re-acquisition, but 10 µs at least, up
/// to rounding down: re-acquisition never makes it later. In geometry mode it
/// may come from half the average on, or half the interval for want of one.
pub proof fn law_gates_are_shares(avg_us: u32, interval_us: u32)
    ensures
        gate_of(interval_us, false) >= 20 && gate_of(interval_us, true) >= 10,
        gate_of(interval_us, false) > 20 ==> 3 * interval_us - 9 <= 10 * gate_of(interval_us, false)
            <= 3 * interval_us,
        gate_of(interval_us, false) == 20 ==> 3 * interval_us < 210,
        gate_of(interval_us, true) > 10 ==> 2 * interval_us - 24 <= 25 * gate_of(interval_us, true)
            <= 2 * interval_us,
        gate_of(interval_us, true) == 10 ==> 2 * interval_us < 275,
        gate_of(interval_us, true) <= gate_of(interval_us, false),
        stiff_gate_of(avg_us, interval_us, true) == gate_of(interval_us, true),
        ({
            let base = if avg_us != 0 {
                avg_us
            } else {
                interval_us
            };
            let gate = stiff_gate_of(avg_us, interval_us, false);
            &&& gate >= 20
            &&& gate > 20 ==> base - 1 <= 2 * gate <= base
            &&& gate == 20 ==> base <= 41
        }),
{
}

/// The parity average takes seven parts of itself and one of the window, up
/// to rounding; the first window seeds it, and equal windows keep it.
pub proof fn law_parity_average_moves_an_eighth(ema_us: int, wl_us: int)
    requires
        0 <= ema_us,
        0 <= wl_us,
    ensures
        parity_ema(0, wl_us) == wl_us,
        ema_us != 0 ==> 7 * ema_us + wl_us - 7 <= 8 * parity_ema(ema_us, wl_us) <= 7 * ema_us
            + wl_us + 7,
        parity_ema(wl_us, wl_us) == wl_us,
{
}

/// The trim moves a parity half of the way to the other one: later when its
/// windows are short, earlier when they are long, by at most 80 µs; not at
/// all below 200 µs or before both are seeded.
pub proof fn law_parity_trim_evens_out(this: u32, other: u32, interval_us: u32)
    requires
        this <= i32::MAX,
        other <= i32::MAX,
    ensures
        ({
            let trim = parity_trim(this, other, interval_us);
            &&& interval_us <= 199 || this == 0 || other == 0 ==> trim == 0
            &&& interval_us >= 200 && this != 0 && other != 0 ==> {
                &&& -80 <= trim <= 80
                &&& -80 < trim < 80 ==> other - this - 1 <= 2 * trim <= other - this
                &&& trim == 80 ==> other - this >= 160
                &&& trim == -80 ==> other - this <= -159
            }
        }),
{
}

/// The blank is the user's, cut to a 75th of the interval when there is one.
pub proof fn law_blank_shrinks_with_the_interval(user_us: u32, interval_us: u32)
    ensures
        blank_of(user_us, 0) == user_us,
        blank_of(user_us, interval_us) <= user_us,
        interval_us != 0 ==> 75 * blank_of(user_us, interval_us) <= interval_us,
        interval_us != 0 && blank_of(user_us, interval_us) < user_us ==> 75 * blank_of(
            user_us,
            interval_us,
        ) + 75 > interval_us,
{
}

/// The read depths: 5 under a lock or a blank from 5 µs up, else 12. By the
/// average: 3 up to 100 µs, 12 from 500 on and when unseeded, nine more over
/// 400 µs between, up to rounding down.
pub proof fn law_read_depths(blank_us: u32, locked: bool, avg_us: u32)
    ensures
        depth_of(blank_us, true) == 5,
        blank_us >= 5 ==> depth_of(blank_us, locked) == 5,
        blank_us <= 4 ==> depth_of(blank_us, false) == 12,
        mapped_depth_of(0) == 12,
        1 <= avg_us <= 100 ==> mapped_depth_of(avg_us) == 3,
        avg_us >= 500 ==> mapped_depth_of(avg_us) == 12,
        100 <= avg_us <= 500 ==> 9 * (avg_us - 100) - 399 <= 400 * (mapped_depth_of(avg_us) - 3)
            <= 9 * (avg_us - 100),
{
}

/// One confirm is enough under a lock, but in re-acquisition only below
/// 125 µs; without a lock it takes two.
pub proof fn law_confirm_depth_by_lock(reacq: bool, interval_us: u32)
    ensures
        confirm_depth(false, reacq, interval_us) == 2,
        confirm_depth(true, false, interval_us) == 1,
        confirm_depth(true, true, interval_us) == 1 <==> 1 <= interval_us <= 124,
        confirm_depth(true, true, interval_us) == 2 <==> interval_us == 0 || interval_us >= 125,
{
}

/// A duty write starts from the last duty, or from zero more than 100 ms
/// after it, and moves by its rate at most: of the full range, 2 % a
/// millisecond while starting, 6 % at low speed, 16 % at speed, up to
/// rounding down, but a count at least. It reaches a target within that.
#[verifier::spinoff_prover]
#[verifier::rlimit(40)]
pub proof fn law_slew_has_its_rate(
    last: u16,
    target: u16,
    elapsed_us: u32,
    max_duty: u16,
    cl_active: bool,
    interval_us: u32,
)
    ensures
        ({
            let stale = elapsed_us > 100_000;
            let from = if stale {
                0
            } else {
                last as int
            };
            let span: int = if stale {
                1000
            } else {
                elapsed_us as int
            };
            let percent: int = if !cl_active || 13 * from + 13 <= max_duty {
                2
            } else if interval_us == 0 || interval_us >= 501 {
                6
            } else {
                16
            };
            let duty = slew_duty(last, target, elapsed_us, max_duty, cl_active, interval_us);
            let moved = if duty >= from {
                duty - from
            } else {
                from - duty
            };
            &&& moved <= 1 || 100_000 * moved <= max_duty * percent * span
            &&& duty == target || 100_000 * (moved + 1) > max_duty * percent * span || moved
                == 0xFFFF
            &&& duty != target ==> moved >= 1
            &&& from <= target ==> from <= duty <= target
            &&& target <= from ==> target <= duty <= from
        }),
{
    let from = slew_from(last, elapsed_us);
    let rate = slew_rate(from, max_duty, cl_active, interval_us) as int;
    let percent = rate / 10;
    let span: int = if elapsed_us > 100_000 {
        1000
    } else {
        elapsed_us as int
    };
    assert(max_duty * rate * span == 10 * (max_duty * percent * span)) by (nonlinear_arith)
        requires
            rate == 10 * percent,
    ;
    assert(max_duty * rate * span >= 0) by (nonlinear_arith)
        requires
            max_duty >= 0,
            rate >= 0,
            span >= 0,
    ;
}

/// The carrier reload is the base from 100 µs up and when unseeded, half of it
/// up to 48 µs, and between them shares the other half over 52 µs, up to
/// rounding down.
pub proof fn law_carrier_shares_the_half(interval_us: int, base_arr: int)
    requires
        0 <= base_arr,
        0 <= interval_us,
    ensures
        ({
            let half = base_arr / 2;
            let c = carrier(interval_us, base_arr);
            &&& interval_us == 0 || interval_us >= 100 ==> c == base_arr
            &&& 1 <= interval_us <= 48 ==> c == half
            &&& 48 <= interval_us <= 100 ==> (base_arr - half) * (interval_us - 48) - 51 <= 52 * (c
                - half) <= (base_arr - half) * (interval_us - 48)
        }),
{
    let half = base_arr / 2;
    assert((base_arr - half) * (100 - 48) == 52 * (base_arr - half)) by (nonlinear_arith);
    assert((base_arr - half) * (48 - 48) == 0) by (nonlinear_arith);
}

/// The debounce is the number of wraps of the carrier that fit in 2.67 ms, a
/// wrap being 1.25 counts of a hundredth of a microsecond each; at least 16,
/// and never more for a longer wrap.
pub proof fn law_debounce_covers_its_time(arr: u16, longer: u16)
    requires
        arr <= longer,
    ensures
        ({
            let wrap = (arr + 1) * 5 / 4;
            let n = debounce_of(arr);
            &&& n >= 16
            &&& 16 < n < 0xFFFF ==> n * wrap <= 267_000 < (n + 1) * wrap
            &&& n == 16 ==> 17 * wrap > 267_000
            &&& debounce_of(longer) <= n
        }),
{
    let w = (arr + 1) * 100 / 80;
    let w2 = (longer + 1) * 100 / 80;
    assert(w == (arr + 1) * 5 / 4);
    let q = 267_000int / w;
    vstd::arithmetic::div_mod::lemma_fundamental_div_mod(267_000, w);
    vstd::arithmetic::div_mod::lemma_div_is_ordered_by_denominator(267_000, w, w2);
    assert(w * q == q * w && (q + 1) * w == q * w + w) by (nonlinear_arith);
    if q <= 16 {
        assert((q + 1) * w <= 17 * w) by (nonlinear_arith)
            requires
                q <= 16,
                w >= 0,
        ;
    }
}

/// A climb shaves a sixteenth of the interval, up to rounding down.
pub proof fn law_climb_shaves_a_sixteenth(interval_us: u32)
    ensures
        lead_of(interval_us, false) == interval_us,
        interval_us - 15 <= 16 * (interval_us - lead_of(interval_us, true)) <= interval_us,
{
}

} // verus!

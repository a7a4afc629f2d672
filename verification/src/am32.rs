//! Control arithmetic and small state machines of the six-step drive, in
//! 0.5 µs interval-timer ticks: the interpolation map, the schedule blends,
//! the duty pipeline, the trace record, the interval history, the command
//! parser and the two byte rings.

use vstd::prelude::*;

use crate::bits::{byte0, byte1, clamp_of, join16, max_of, min_of, signed32};
use crate::bits::{hi_byte, lo_byte, low8, to_signed32};

verus! {

/// The throttle and duty domain is 0 to this.
pub const DUTY_FULL: i32 = 2000;

/// Duty ramp per tick while young or at low duty.
pub const MAX_RAMP_STARTUP: i32 = 2;

/// Duty ramp per tick at low speed.
pub const MAX_RAMP_LOW_RPM: i32 = 6;

/// Duty ramp per tick at speed.
pub const MAX_RAMP_HIGH_RPM: i32 = 16;

/// Speed in thousand electrical rpm below which the duty ceiling is lowest.
pub const LOW_RPM_LEVEL: i32 = 20;

/// Speed from which there is no ceiling.
pub const HIGH_RPM_LEVEL: i32 = 70;

/// Duty ceiling at [`LOW_RPM_LEVEL`].
pub const THROTTLE_MAX_AT_LOW_RPM: i32 = 400;

/// Duty ceiling at [`HIGH_RPM_LEVEL`].
pub const THROTTLE_MAX_AT_HIGH_RPM: i32 = 2000;

/// Commutations per half of a trace batch.
pub const ZCT_BATCH_LEN: u32 = 50;

/// Below this interval in ticks the trace is batched.
pub const ZCT_BATCH_CI_TICKS: u32 = 200;

/// Bytes of a trace record.
pub const ZCT_REC: usize = 15;

/// Half of `x`, rounded down.
fn half_down(x: i32) -> (r: i32)
    ensures
        r == x as int / 2,
{
    if x >= 0 {
        x / 2
    } else {
        -((-(x + 1)) / 2) - 1
    }
}

/// Piecewise interpolation by halving: the ends clamp, and a value strictly
/// inside goes to the half of the input range that holds it, with the half
/// of the output range that goes with it. Halves round down.
pub open spec fn mapped(x: int, in_min: int, in_max: int, out_min: int, out_max: int) -> int
    decreases in_max - in_min,
{
    if x >= in_max {
        out_max
    } else if x <= in_min {
        out_min
    } else if out_min == out_max {
        out_min
    } else if x <= (in_min + in_max) / 2 {
        mapped(x, in_min, (in_min + in_max) / 2, out_min, (out_min + out_max) / 2)
    } else {
        mapped(x, (in_min + in_max) / 2 + 1, in_max, (out_min + out_max) / 2, out_max)
    }
}

/// The sums that the halving takes on its way fit in 32 bits.
pub open spec fn map_fits(x: int, in_min: int, in_max: int, out_min: int, out_max: int) -> bool
    decreases in_max - in_min,
{
    if x >= in_max || x <= in_min || out_min == out_max {
        true
    } else {
        &&& i32::MIN <= in_min + in_max <= i32::MAX
        &&& i32::MIN <= out_min + out_max <= i32::MAX
        &&& if x <= (in_min + in_max) / 2 {
            map_fits(x, in_min, (in_min + in_max) / 2, out_min, (out_min + out_max) / 2)
        } else {
            map_fits(x, (in_min + in_max) / 2 + 1, in_max, (out_min + out_max) / 2, out_max)
        }
    }
}

/// Piecewise interpolation of `x` from the input to the output range.
pub fn map(x: i32, in_min: i32, in_max: i32, out_min: i32, out_max: i32) -> (r: i32)
    requires
        map_fits(x as int, in_min as int, in_max as int, out_min as int, out_max as int),
    ensures
        r == mapped(x as int, in_min as int, in_max as int, out_min as int, out_max as int),
    decreases in_max - in_min,
{
    if x >= in_max {
        return out_max;
    }
    if x <= in_min {
        return out_min;
    }
    if out_min == out_max {
        return out_min;
    }
    let in_mid: i32 = half_down(in_min + in_max);
    let out_mid: i32 = half_down(out_min + out_max);
    if x <= in_mid {
        map(x, in_min, in_mid, out_min, out_mid)
    } else {
        map(x, in_mid + 1, in_max, out_mid, out_max)
    }
}

/// Ranges within 30 bits always fit.
pub proof fn lemma_map_fits(x: int, in_min: int, in_max: int, out_min: int, out_max: int)
    requires
        -0x4000_0000 <= in_min,
        in_max <= 0x3FFF_FFFF,
        -0x4000_0000 <= out_min <= 0x3FFF_FFFF,
        -0x4000_0000 <= out_max <= 0x3FFF_FFFF,
    ensures
        map_fits(x, in_min, in_max, out_min, out_max),
    decreases in_max - in_min,
{
    if !(x >= in_max || x <= in_min || out_min == out_max) {
        let in_mid = (in_min + in_max) / 2;
        let out_mid = (out_min + out_max) / 2;
        if x <= in_mid {
            lemma_map_fits(x, in_min, in_mid, out_min, out_mid);
        } else {
            lemma_map_fits(x, in_mid + 1, in_max, out_mid, out_max);
        }
    }
}

/// The map stays inside the output range.
pub proof fn law_map_stays_in_range(x: int, in_min: int, in_max: int, out_min: int, out_max: int)
    ensures
        min_of(out_min, out_max) <= mapped(x, in_min, in_max, out_min, out_max) <= max_of(
            out_min,
            out_max,
        ),
    decreases in_max - in_min,
{
    if !(x >= in_max || x <= in_min || out_min == out_max) {
        let in_mid = (in_min + in_max) / 2;
        let out_mid = (out_min + out_max) / 2;
        if x <= in_mid {
            law_map_stays_in_range(x, in_min, in_mid, out_min, out_mid);
        } else {
            law_map_stays_in_range(x, in_mid + 1, in_max, out_mid, out_max);
        }
    }
}

/// The map never turns back: a larger input never gives a smaller output
/// of a rising range, nor a larger one of a falling range.
pub proof fn law_map_is_monotone(
    x: int,
    y: int,
    in_min: int,
    in_max: int,
    out_min: int,
    out_max: int,
)
    requires
        x <= y,
        in_min < in_max,
    ensures
        out_min <= out_max ==> mapped(x, in_min, in_max, out_min, out_max) <= mapped(
            y,
            in_min,
            in_max,
            out_min,
            out_max,
        ),
        out_max <= out_min ==> mapped(y, in_min, in_max, out_min, out_max) <= mapped(
            x,
            in_min,
            in_max,
            out_min,
            out_max,
        ),
    decreases in_max - in_min,
{
    law_map_stays_in_range(x, in_min, in_max, out_min, out_max);
    law_map_stays_in_range(y, in_min, in_max, out_min, out_max);
    if in_min < x && y < in_max && out_min != out_max {
        let in_mid = (in_min + in_max) / 2;
        let out_mid = (out_min + out_max) / 2;
        law_map_stays_in_range(x, in_min, in_mid, out_min, out_mid);
        law_map_stays_in_range(y, in_mid + 1, in_max, out_mid, out_max);
        if y <= in_mid {
            law_map_is_monotone(x, y, in_min, in_mid, out_min, out_mid);
        } else if x > in_mid && in_mid + 1 < in_max {
            law_map_is_monotone(x, y, in_mid + 1, in_max, out_mid, out_max);
        }
    }
}

/// The distance between two numbers.
pub open spec fn distance(a: int, b: int) -> int {
    if a >= b {
        a - b
    } else {
        b - a
    }
}

/// The distance between two numbers.
pub fn get_abs_dif(a: i32, b: i32) -> (r: u32)
    requires
        i32::MIN <= a - b <= i32::MAX,
    ensures
        r == distance(a as int, b as int),
{
    let d: i32 = a - b;
    if d >= 0 {
        d as u32
    } else {
        (-(d as i64)) as u32
    }
}

/// Halfway between the interval and the mean of two zero-cross times.
pub open spec fn halfway_blend(ci: int, lastzc: int, thiszc: int) -> int {
    (ci + (lastzc + thiszc) / 2) / 2
}

/// A quarter of the way from the interval to a zero-cross time.
pub open spec fn quarter_blend(thiszc: int, ci: int) -> int {
    (thiszc + 3 * ci) / 4
}

/// So many 64ths of an interval.
pub open spec fn sixty_fourths(ci: int, steps: int) -> int {
    ci * steps / 64
}

/// Half the interval less the advance, never below zero.
pub open spec fn half_less(ci: int, advance: int) -> int {
    max_of(ci / 2 - advance, 0)
}

/// Interrupt-mode interval blend: halfway between the interval and the mean
/// of the last two zero-cross times.
pub fn blend_interval(ci: u32, lastzc: u32, thiszc: u32) -> (r: u32)
    requires
        lastzc + thiszc <= u32::MAX,
        ci + (lastzc + thiszc) / 2 <= u32::MAX,
    ensures
        r == halfway_blend(ci as int, lastzc as int, thiszc as int),
        2 * ci + lastzc + thiszc - 3 <= 4 * r <= 2 * ci + lastzc + thiszc,
{
    (ci + (lastzc + thiszc) / 2) / 2
}

/// Polling-mode interval blend: a quarter of the way to the new zero-cross
/// time.
pub fn polling_blend(thiszc: u32, ci: u32) -> (r: u32)
    requires
        thiszc + 3 * ci <= u32::MAX,
    ensures
        r == quarter_blend(thiszc as int, ci as int),
        3 * ci + thiszc - 3 <= 4 * r <= 3 * ci + thiszc,
{
    (thiszc + 3 * ci) / 4
}

/// Advance in ticks: a 64th of the interval per advance step.
pub fn advance_of(ci: u32, temp_advance: u32) -> (r: u32)
    requires
        ci * temp_advance <= u32::MAX,
    ensures
        r == sixty_fourths(ci as int, temp_advance as int),
{
    (ci * temp_advance) / 64
}

/// Ticks from the zero-cross to the commutation: half the interval less the
/// advance, never below zero.
pub fn wait_time(ci: u32, advance: u32) -> (r: u32)
    ensures
        r == half_less(ci as int, advance as int),
        2 * advance <= ci ==> ci - 1 <= 2 * (r + advance) <= ci,
        2 * advance > ci ==> r == 0,
{
    (ci / 2).saturating_sub(advance)
}

/// Throttle input from which the drive is armed.
pub const INPUT_MIN: u16 = 47;

/// Largest throttle input.
pub const INPUT_MAX: u16 = 2047;

/// The duty that a throttle input asks for.
pub open spec fn setpoint(input: u16, min_duty: u16, full: u16) -> int {
    if input >= INPUT_MIN {
        mapped(input as int, INPUT_MIN as int, INPUT_MAX as int, min_duty as int, full as int)
    } else {
        0
    }
}

/// The duty that a throttle input asks for: mapped to the duty range from
/// the armed threshold up, else 0.
pub fn duty_setpoint(input: u16, min_duty: u16, full: u16) -> (r: u16)
    ensures
        r == setpoint(input, min_duty, full),
{
    if input >= INPUT_MIN {
        proof {
            lemma_map_fits(input as int, 47, 2047, min_duty as int, full as int);
            law_map_stays_in_range(input as int, 47, 2047, min_duty as int, full as int);
        }
        map(input as i32, 47, 2047, min_duty as i32, full as i32) as u16
    } else {
        0
    }
}

/// The ramp of a regime.
pub open spec fn rate_of(zero_crosses: u32, last_duty: i32, average_interval: u32) -> i32 {
    if zero_crosses < 150 || last_duty < 150 {
        MAX_RAMP_STARTUP
    } else if average_interval > 500 {
        MAX_RAMP_LOW_RPM
    } else {
        MAX_RAMP_HIGH_RPM
    }
}

/// The duty ramp: startup while young or at low duty, then by speed.
pub fn ramp_rate(zero_crosses: u32, last_duty: i32, average_interval: u32) -> (r: i32)
    ensures
        r == rate_of(zero_crosses, last_duty, average_interval),
{
    if zero_crosses < 150 || last_duty < 150 {
        MAX_RAMP_STARTUP
    } else if average_interval > 500 {
        MAX_RAMP_LOW_RPM
    } else {
        MAX_RAMP_HIGH_RPM
    }
}

/// `target` held to at most `rate` above `last`.
pub open spec fn held_above(last: int, target: int, rate: int) -> int {
    if target - last > rate {
        last + rate
    } else {
        target
    }
}

/// `target` held to at most `rate` below `last`.
pub open spec fn held_below(last: int, target: int, rate: int) -> int {
    if last - target > rate {
        last - rate
    } else {
        target
    }
}

/// The duty after one ramp step: held above, then held below, in the duty
/// domain.
pub open spec fn ramped(last: int, target: int, rate: int) -> int {
    clamp_of(held_below(last, held_above(last, target, rate), rate), 0, DUTY_FULL as int)
}

/// The differences and sums of a ramp step fit in 32 bits.
pub open spec fn ramp_fits(last: int, target: int, rate: int) -> bool {
    let up = held_above(last, target, rate);
    &&& i32::MIN <= target - last <= i32::MAX
    &&& i32::MIN <= up <= i32::MAX
    &&& i32::MIN <= last - up <= i32::MAX
    &&& i32::MIN <= held_below(last, up, rate) <= i32::MAX
}

/// Ramps `last` toward `target` by at most `rate`, in the duty domain.
pub fn ramp_toward(last: i32, target: i32, rate: i32) -> (r: u16)
    requires
        ramp_fits(last as int, target as int, rate as int),
    ensures
        r == ramped(last as int, target as int, rate as int),
{
    let mut duty: i32 = target;
    if duty - last > rate {
        duty = last + rate;
    }
    if last - duty > rate {
        duty = last - rate;
    }
    duty.max(0).min(DUTY_FULL) as u16
}

/// A ramp step stays within its rate, never overshoots a target of the duty
/// domain, and reaches one that is near enough.
pub proof fn law_ramp_is_bounded(last: int, target: int, rate: int)
    requires
        0 <= rate,
        0 <= last <= DUTY_FULL,
        0 <= target <= DUTY_FULL,
    ensures
        ramped(last, target, rate) == clamp_of(target, last - rate, last + rate),
        distance(last, target) <= rate ==> ramped(last, target, rate) == target,
        distance(last, ramped(last, target, rate)) <= rate,
{
}

/// Speed in thousand electrical rpm of an electrical revolution of
/// `e_com_time` ticks, 0 when stopped.
pub open spec fn kilo_erpm(e_com_time: int, running: bool) -> int {
    if running && e_com_time > 0 {
        600_000int / e_com_time / 10
    } else {
        0
    }
}

/// The duty ceiling of a motor of this speed: full when the limit is off.
pub open spec fn duty_ceiling(e_com_time: int, running: bool, low_rpm_limit: bool) -> int {
    if low_rpm_limit {
        mapped(
            kilo_erpm(e_com_time, running),
            LOW_RPM_LEVEL as int,
            HIGH_RPM_LEVEL as int,
            THROTTLE_MAX_AT_LOW_RPM as int,
            THROTTLE_MAX_AT_HIGH_RPM as int,
        )
    } else {
        DUTY_FULL as int
    }
}

/// The duty ceiling of a slow motor, when the limit is on.
pub fn low_rpm_duty_ceiling(e_com_time_ticks: i32, running: bool, low_rpm_limit: bool) -> (r: u16)
    ensures
        r == duty_ceiling(e_com_time_ticks as int, running, low_rpm_limit),
{
    if !low_rpm_limit {
        return DUTY_FULL as u16;
    }
    let e_rpm: i32 = if running && e_com_time_ticks > 0 {
        600_000 / e_com_time_ticks
    } else {
        0
    };
    let k_erpm: i32 = e_rpm / 10;
    proof {
        lemma_map_fits(k_erpm as int, 20, 70, 400, 2000);
        law_map_stays_in_range(k_erpm as int, 20, 70, 400, 2000);
    }
    map(
        k_erpm,
        LOW_RPM_LEVEL,
        HIGH_RPM_LEVEL,
        THROTTLE_MAX_AT_LOW_RPM,
        THROTTLE_MAX_AT_HIGH_RPM,
    ) as u16
}

/// The average interval jumped by more than half of itself, above the speed
/// floor of 2000 ticks.
pub open spec fn average_jumped(last_average_interval: u32, average_interval: u32) -> bool {
    distance(signed32(last_average_interval), signed32(average_interval)) > average_interval / 2
        && average_interval < 2000
}

/// The average interval jumped by more than half of itself, above the speed
/// floor of 2000 ticks.
pub fn desync_due(last_average_interval: u32, average_interval: u32) -> (r: bool)
    requires
        i32::MIN <= signed32(last_average_interval) - signed32(average_interval) <= i32::MAX,
    ensures
        r == average_jumped(last_average_interval, average_interval),
{
    get_abs_dif(to_signed32(last_average_interval), to_signed32(average_interval))
        > average_interval / 2 && average_interval < 2000
}

/// The polling counter and the bad reads after one read.
pub open spec fn bemf_counted(
    bemf_counter: u16,
    bad_count: u16,
    level_matches: bool,
    bad_threshold: u16,
) -> (u16, u16) {
    if level_matches {
        (bemf_counter.saturating_add(1), bad_count)
    } else if bad_count + 1 > bad_threshold {
        (0, (bad_count + 1) as u16)
    } else {
        (bemf_counter, (bad_count + 1) as u16)
    }
}

/// One read of the polling counter: a matching level counts up, and a run
/// of bad reads over the threshold starts it over. Returns the counter and
/// the bad reads.
pub fn bemf_count_step(
    bemf_counter: u16,
    bad_count: u16,
    level_matches: bool,
    bad_threshold: u16,
) -> (r: (u16, u16))
    requires
        level_matches || bad_count < u16::MAX,
    ensures
        r == bemf_counted(bemf_counter, bad_count, level_matches, bad_threshold),
{
    if level_matches {
        (bemf_counter.saturating_add(1), bad_count)
    } else {
        let bc: u16 = bad_count + 1;
        let bemf: u16 = if bc > bad_threshold {
            0
        } else {
            bemf_counter
        };
        (bemf, bc)
    }
}

/// The sum and the count of a current window after one sample, and whether
/// the window completed with an average over the threshold.
pub open spec fn oc_stepped(sum: int, n: int, raw: int, window: int, thresh: int) -> (
    int,
    int,
    bool,
) {
    if n + 1 < window {
        (sum + raw, n + 1, false)
    } else {
        (0, 0, (sum + raw) / window > thresh)
    }
}

/// One sample of the windowed current average: the sum, the count, and
/// whether a completed window averaged over the threshold.
pub fn oc_step(sum: u32, n: u32, raw: u16, window: u32, thresh: u32) -> (r: (u32, u32, bool))
    requires
        sum + raw <= u32::MAX,
        n < u32::MAX,
        window > 0,
    ensures
        (r.0 as int, r.1 as int, r.2) == oc_stepped(
            sum as int,
            n as int,
            raw as int,
            window as int,
            thresh as int,
        ),
{
    let acc: u32 = sum + raw as u32;
    let cnt: u32 = n + 1;
    if cnt >= window {
        (0, 0, acc / window > thresh)
    } else {
        (acc, cnt, false)
    }
}

/// The trace is batched: re-chosen at each batch boundary, held between.
pub open spec fn batches(n: u32, ci_ticks: u32, prev_batching: bool) -> bool {
    if n % ZCT_BATCH_LEN == 0 {
        ci_ticks < ZCT_BATCH_CI_TICKS
    } else {
        prev_batching
    }
}

/// A commutation is recorded: all are, or the even batches of a batched
/// trace.
pub open spec fn batch_records(n: u32, batching: bool) -> bool {
    !(batching && n / ZCT_BATCH_LEN % 2 == 1)
}

/// The batch gate of commutation `n`: whether to record it, and whether the
/// trace is batched. Batching skips every other batch, so what is recorded
/// is consecutive.
pub fn zct_batch_gate(n: u32, ci_ticks: u32, prev_batching: bool) -> (r: (bool, bool))
    ensures
        r.1 == batches(n, ci_ticks, prev_batching),
        r.0 == batch_records(n, r.1),
{
    let batching: bool = if n % ZCT_BATCH_LEN == 0 {
        ci_ticks < ZCT_BATCH_CI_TICKS
    } else {
        prev_batching
    };
    let record: bool = !(batching && (n / ZCT_BATCH_LEN) % 2 == 1);
    (record, batching)
}

/// The flags byte of a trace record: the step in the low three bits, bit 7
/// for the polling mode, bit 6 for a batched trace.
pub open spec fn zct_flags(step: u8, old_routine: bool, batching: bool) -> u8 {
    (step % 8 + (if old_routine {
        0x80int
    } else {
        0int
    }) + (if batching {
        0x40int
    } else {
        0int
    })) as u8
}

/// The 15 bytes of a trace record: sync pair, flags, and six little-endian
/// words.
pub open spec fn zct_row(
    flags: u8,
    thiszc: u16,
    ci: u16,
    wait: u16,
    duty: u16,
    tenkhz: u16,
    avg: u16,
) -> Seq<u8> {
    seq![
        0x5Bu8,
        0xA9u8,
        flags,
        byte0(thiszc as int),
        byte1(thiszc as int),
        byte0(ci as int),
        byte1(ci as int),
        byte0(wait as int),
        byte1(wait as int),
        byte0(duty as int),
        byte1(duty as int),
        byte0(tenkhz as int),
        byte1(tenkhz as int),
        byte0(avg as int),
        byte1(avg as int),
    ]
}

/// Packs one trace record.
pub fn zct_pack(
    step: u8,
    old_routine: bool,
    batching: bool,
    thiszc: u16,
    ci: u16,
    wait: u16,
    duty: u16,
    tenkhz: u16,
    avg: u16,
) -> (r: [u8; ZCT_REC])
    ensures
        r@ == zct_row(zct_flags(step, old_routine, batching), thiszc, ci, wait, duty, tenkhz, avg),
{
    let mode: u8 = if old_routine {
        0x80
    } else {
        0
    };
    let batch: u8 = if batching {
        0x40
    } else {
        0
    };
    let row: [u8; ZCT_REC] = [
        0x5B,
        0xA9,
        step % 8 + mode + batch,
        lo_byte(thiszc),
        hi_byte(thiszc),
        lo_byte(ci),
        hi_byte(ci),
        lo_byte(wait),
        hi_byte(wait),
        lo_byte(duty),
        hi_byte(duty),
        lo_byte(tenkhz),
        hi_byte(tenkhz),
        lo_byte(avg),
        hi_byte(avg),
    ];
    assert(row@ =~= zct_row(
        zct_flags(step, old_routine, batching),
        thiszc,
        ci,
        wait,
        duty,
        tenkhz,
        avg,
    ));
    row
}

/// Every field of a trace record can be read back, the step modulo 8.
pub proof fn law_trace_record_reads_back(
    step: u8,
    old_routine: bool,
    batching: bool,
    thiszc: u16,
    ci: u16,
    wait: u16,
    duty: u16,
    tenkhz: u16,
    avg: u16,
)
    ensures
        ({
            let flags = zct_flags(step, old_routine, batching);
            let row = zct_row(flags, thiszc, ci, wait, duty, tenkhz, avg);
            &&& row.len() == ZCT_REC
            &&& row[2] % 8 == step % 8
            &&& (row[2] >= 0x80) == old_routine
            &&& (row[2] % 0x80 >= 0x40) == batching
            &&& join16(row[3], row[4]) == thiszc
            &&& join16(row[5], row[6]) == ci
            &&& join16(row[7], row[8]) == wait
            &&& join16(row[9], row[10]) == duty
            &&& join16(row[11], row[12]) == tenkhz
            &&& join16(row[13], row[14]) == avg
        }),
{
}

/// The interval of each electrical sector, in ticks.
#[derive(Debug, Clone, Copy)]
pub struct Am32Intervals {
    /// One slot per sector.
    pub slots: [u32; 6],
}

impl Am32Intervals {
    /// The sum of the six slots.
    pub open spec fn total(self) -> int {
        self.slots[0] + self.slots[1] + self.slots[2] + self.slots[3] + self.slots[4]
            + self.slots[5]
    }

    /// A history with these slots.
    pub fn new(slots: [u32; 6]) -> (r: Self)
        ensures
            r.slots == slots,
    {
        Self { slots }
    }

    /// Stores the interval of a sector.
    pub fn push(&mut self, idx: usize, ticks: u32)
        requires
            idx < 6,
        ensures
            final(self).slots@ == old(self).slots@.update(idx as int, ticks),
    {
        self.slots[idx] = ticks;
    }

    /// The sum of the six slots.
    pub fn sum(&self) -> (r: u32)
        requires
            self.total() <= u32::MAX,
        ensures
            r == self.total(),
    {
        self.slots[0] + self.slots[1] + self.slots[2] + self.slots[3] + self.slots[4]
            + self.slots[5]
    }

    /// Time of an electrical revolution in µs.
    pub open spec fn revolution_us(self) -> int {
        (signed32(self.total() as u32) + 4) / 2
    }

    /// Time of an electrical revolution in µs: half the sum, rounded.
    pub fn e_com_time(&self) -> (r: i32)
        requires
            self.total() <= u32::MAX,
            signed32(self.total() as u32) + 4 <= i32::MAX,
        ensures
            r == self.revolution_us(),
    {
        half_down(to_signed32(self.sum()) + 4)
    }
}

/// A command of the serial duty mode.
#[derive(Debug, Clone, Copy, PartialEq, Eq, Structural)]
pub enum UartCmd {
    /// Commit a throttle input, 48 to 2047.
    SetThrottle(u16),
    /// Stop and zero the throttle.
    Stop,
    /// Toggle the trace stream.
    TraceToggle,
    /// Ask for an info line.
    Info,
    /// Ask for the black-box dump.
    BbDump,
    /// Ask for a capture of the current ring.
    GeckoDump,
    /// Ask for the phase-voltage dump.
    WaxDump,
    /// Ask for the histogram dump.
    HistDump,
    /// Toggle the free-running oversampling.
    FreeRunToggle,
    /// Lengthen the delay injected inside a critical section.
    DelayInFreeUp,
    /// Shorten the delay injected inside a critical section.
    DelayInFreeDown,
    /// Lengthen the delay injected outside any critical section.
    DelayOutFreeUp,
    /// Shorten the delay injected outside any critical section.
    DelayOutFreeDown,
}

/// ASCII `0`.
pub const KEY_0: u8 = 0x30;

/// ASCII `9`.
pub const KEY_9: u8 = 0x39;

/// ASCII `s`: stop.
pub const KEY_STOP: u8 = 0x73;

/// ASCII `w`: stop.
pub const KEY_KILL: u8 = 0x77;

/// ASCII `Z`: trace toggle.
pub const KEY_TRACE: u8 = 0x5A;

/// ASCII `i`: info line.
pub const KEY_INFO: u8 = 0x69;

/// ASCII `b`: black-box dump.
pub const KEY_BLACKBOX: u8 = 0x62;

/// ASCII `G`: current-ring capture.
pub const KEY_GECKO: u8 = 0x47;

/// The parser of the serial duty mode: a number accumulates up to four
/// digits and is committed by a terminator.
#[derive(Debug, Clone, Copy, PartialEq, Eq, Structural)]
pub struct UartDuty {
    /// The number so far.
    pub acc: u32,
    /// Its digits so far.
    pub n: u8,
}

/// The throttle input of a committed number: percent up to 100, per mille
/// up to 1000, the lowest input beyond.
pub open spec fn throttle_of(v: int) -> int {
    if v <= 100 {
        clamp_of(v * 20 + 47, 48, 2047)
    } else if v <= 1000 {
        clamp_of(v * 2 + 47, 48, 2047)
    } else {
        48
    }
}

/// The command of a committed number.
pub open spec fn commit_of(v: int) -> UartCmd {
    if v == 0 {
        UartCmd::Stop
    } else {
        UartCmd::SetThrottle(throttle_of(v) as u16)
    }
}

/// An ASCII digit.
pub open spec fn is_digit(byte: u8) -> bool {
    KEY_0 <= byte <= KEY_9
}

/// The command of a key that leaves the number alone.
pub open spec fn key_cmd(byte: u8) -> Option<UartCmd> {
    if byte == KEY_TRACE {
        Some(UartCmd::TraceToggle)
    } else if byte == KEY_INFO {
        Some(UartCmd::Info)
    } else if byte == KEY_BLACKBOX {
        Some(UartCmd::BbDump)
    } else if byte == KEY_GECKO {
        Some(UartCmd::GeckoDump)
    } else {
        None
    }
}

/// A byte that ends a number.
pub open spec fn is_terminator(byte: u8) -> bool {
    !is_digit(byte) && byte != KEY_STOP && byte != KEY_KILL && key_cmd(byte) is None
}

impl UartDuty {
    /// At most four digits, and a number of so many.
    pub open spec fn wf(self) -> bool {
        ||| self.n == 0 && self.acc == 0
        ||| self.n == 1 && self.acc <= 9
        ||| self.n == 2 && self.acc <= 99
        ||| self.n == 3 && self.acc <= 999
        ||| self.n == 4 && self.acc <= 9999
    }

    /// The parser without a number.
    pub open spec fn empty() -> UartDuty {
        UartDuty { acc: 0, n: 0 }
    }

    /// The parser after a byte.
    pub open spec fn fed(self, byte: u8) -> UartDuty {
        if is_digit(byte) {
            if self.n < 4 {
                UartDuty { acc: (self.acc * 10 + (byte - KEY_0)) as u32, n: (self.n + 1) as u8 }
            } else {
                self
            }
        } else if key_cmd(byte) is Some {
            self
        } else {
            UartDuty::empty()
        }
    }

    /// The command that a byte completes.
    pub open spec fn command(self, byte: u8) -> Option<UartCmd> {
        if is_digit(byte) {
            None
        } else if byte == KEY_STOP || byte == KEY_KILL {
            Some(UartCmd::Stop)
        } else if key_cmd(byte) is Some {
            key_cmd(byte)
        } else if self.n != 0 {
            Some(commit_of(self.acc as int))
        } else {
            None
        }
    }

    /// The parser after a run of bytes.
    pub open spec fn fed_all(self, bytes: Seq<u8>) -> UartDuty
        decreases bytes.len(),
    {
        if bytes.len() == 0 {
            self
        } else {
            self.fed_all(bytes.drop_last()).fed(bytes.last())
        }
    }

    /// A parser without a number.
    pub fn new() -> (r: Self)
        ensures
            r == UartDuty::empty(),
            r.wf(),
    {
        Self { acc: 0, n: 0 }
    }

    /// Takes one byte; returns the command it completes.
    pub fn step(&mut self, byte: u8) -> (r: Option<UartCmd>)
        requires
            old(self).wf(),
        ensures
            *final(self) == old(self).fed(byte),
            r == old(self).command(byte),
            final(self).wf(),
            0x30 <= byte <= 0x39 && old(self).n < 4 ==> final(self).acc == 10 * old(self).acc + (
            byte - 0x30),
            (byte == 0x0D || byte == 0x0A) && old(self).n != 0 && 1 <= old(self).acc <= 100 ==> r
                == Some(UartCmd::SetThrottle((47 + 20 * old(self).acc) as u16)),
            (byte == 0x0D || byte == 0x0A) && old(self).n != 0 && 101 <= old(self).acc <= 1000
                ==> r == Some(UartCmd::SetThrottle((47 + 2 * old(self).acc) as u16)),
    {
        if byte >= KEY_0 && byte <= KEY_9 {
            if self.n < 4 {
                self.acc = self.acc * 10 + (byte - KEY_0) as u32;
                self.n = self.n + 1;
            }
            None
        } else if byte == KEY_STOP || byte == KEY_KILL {
            self.acc = 0;
            self.n = 0;
            Some(UartCmd::Stop)
        } else if byte == KEY_TRACE {
            Some(UartCmd::TraceToggle)
        } else if byte == KEY_INFO {
            Some(UartCmd::Info)
        } else if byte == KEY_BLACKBOX {
            Some(UartCmd::BbDump)
        } else if byte == KEY_GECKO {
            Some(UartCmd::GeckoDump)
        } else {
            let mut cmd: Option<UartCmd> = None;
            if self.n != 0 {
                let v: u32 = self.acc;
                if v == 0 {
                    cmd = Some(UartCmd::Stop);
                } else {
                    let input: u32 = if v <= 100 {
                        v * 20 + 47
                    } else if v <= 1000 {
                        v * 2 + 47
                    } else {
                        47
                    };
                    cmd = Some(UartCmd::SetThrottle(input.max(48).min(2047) as u16));
                }
            }
            self.acc = 0;
            self.n = 0;
            cmd
        }
    }
}

impl Default for UartDuty {
    fn default() -> (r: Self)
        ensures
            r == UartDuty::empty(),
    {
        Self::new()
    }
}

/// The number that a run of ASCII digits writes.
pub open spec fn decimal_value(digits: Seq<u8>) -> int
    decreases digits.len(),
{
    if digits.len() == 0 {
        0
    } else {
        decimal_value(digits.drop_last()) * 10 + (digits.last() - KEY_0)
    }
}

/// A number of one to four digits and a terminator commit what the digits
/// write, and leave the parser empty.
pub proof fn law_digits_commit_their_value(digits: Seq<u8>, end: u8)
    requires
        1 <= digits.len() <= 4,
        forall|k: int| 0 <= k < digits.len() ==> is_digit(digits[k]),
        is_terminator(end),
    ensures
        ({
            let p = UartDuty::empty().fed_all(digits);
            &&& p.command(end) == Some(commit_of(decimal_value(digits)))
            &&& p.fed(end) == UartDuty::empty()
        }),
{
    lemma_digits_accumulate(digits);
}

/// Up to four digits accumulate to their value.
proof fn lemma_digits_accumulate(digits: Seq<u8>)
    requires
        digits.len() <= 4,
        forall|k: int| 0 <= k < digits.len() ==> is_digit(digits[k]),
    ensures
        UartDuty::empty().fed_all(digits).acc == decimal_value(digits),
        UartDuty::empty().fed_all(digits).n == digits.len(),
        UartDuty::empty().fed_all(digits).wf(),
    decreases digits.len(),
{
    if digits.len() > 0 {
        lemma_digits_accumulate(digits.drop_last());
        assert(is_digit(digits.last()));
    }
}

/// Digits beyond the fourth, and the command keys, do not touch the number.
pub proof fn law_number_is_undisturbed(p: UartDuty, byte: u8)
    requires
        p.wf(),
        key_cmd(byte) is Some || (is_digit(byte) && p.n == 4),
    ensures
        p.fed(byte) == p,
{
}

/// Every committed throttle is a valid running input, and zero always
/// stops.
pub proof fn law_commits_are_in_range(v: int)
    requires
        0 <= v,
    ensures
        commit_of(v) matches UartCmd::SetThrottle(input) ==> 48 <= input <= 2047,
        commit_of(v) is Stop <==> v == 0,
{
}

/// How many entries lie from `tail` up to `head` in a ring of `n` slots.
pub open spec fn ring_len(head: int, tail: int, n: int) -> int {
    if head >= tail {
        head - tail
    } else {
        head + n - tail
    }
}

/// The slot `i` places after `tail` in a ring of `n` slots.
pub open spec fn ring_slot(tail: int, i: int, n: int) -> int {
    if tail + i < n {
        tail + i
    } else {
        tail + i - n
    }
}

fn next_slot(i: usize, n: usize) -> (r: usize)
    requires
        i < n,
    ensures
        r == ring_slot(i as int, 1, n as int),
{
    if i + 1 == n {
        0
    } else {
        i + 1
    }
}

/// The entries waiting in a byte ring of capacity `cap` after one more: a
/// full ring drops it.
pub open spec fn rx_pushed(waiting: Seq<u16>, c: u16, cap: int) -> Seq<u16> {
    if waiting.len() < cap {
        waiting.push(c)
    } else {
        waiting
    }
}

/// The byte that the oldest entry hands out.
pub open spec fn rx_first(waiting: Seq<u16>) -> Option<u8> {
    if waiting.len() == 0 {
        None
    } else {
        Some((waiting[0] % 0x100) as u8)
    }
}

/// The entries after the oldest was handed out.
pub open spec fn rx_rest(waiting: Seq<u16>) -> Seq<u16> {
    if waiting.len() == 0 {
        waiting
    } else {
        waiting.skip(1)
    }
}

/// A byte ring with one producer and one consumer; it holds one byte less
/// than its slots, and a full ring drops the newest.
pub struct RxRing<const N: usize> {
    /// The slots.
    pub ring: [u16; N],
    /// The slot written next.
    pub head: usize,
    /// The slot read next.
    pub tail: usize,
}

impl<const N: usize> RxRing<N> {
    /// Both indices are slots.
    pub open spec fn wf(self) -> bool {
        self.head < N && self.tail < N
    }

    /// The waiting entries, oldest first.
    pub open spec fn view(self) -> Seq<u16> {
        Seq::new(
            ring_len(self.head as int, self.tail as int, N as int) as nat,
            |i: int| self.ring[ring_slot(self.tail as int, i, N as int)],
        )
    }

    /// Producer: takes one byte, or drops it when the ring is full.
    pub fn push(&mut self, c: u16)
        requires
            old(self).wf(),
        ensures
            final(self).wf(),
            final(self)@ == rx_pushed(old(self)@, c, N - 1),
            final(self).tail == old(self).tail,
            old(self)@.len() + 1 >= N ==> *final(self) == *old(self),
            old(self)@.len() + 1 < N ==> {
                &&& final(self).ring@ == old(self).ring@.update(old(self).head as int, c)
                &&& final(self).head == ring_slot(old(self).head as int, 1, N as int)
            },
    {
        let h: usize = self.head;
        let nx: usize = next_slot(h, N);
        if nx != self.tail {
            self.ring[h] = c;
            self.head = nx;
            assert(self@ =~= old(self)@.push(c));
        }
    }

    /// Consumer: hands out the oldest byte.
    pub fn pop(&mut self) -> (r: Option<u8>)
        requires
            old(self).wf(),
        ensures
            final(self).wf(),
            r == rx_first(old(self)@),
            final(self)@ == rx_rest(old(self)@),
            old(self)@.len() == 0 ==> *final(self) == *old(self),
            old(self)@.len() > 0 ==> final(self).tail == ring_slot(
                old(self).tail as int,
                1,
                N as int,
            ),
            final(self).head == old(self).head,
            final(self).ring == old(self).ring,
    {
        let t: usize = self.tail;
        if t == self.head {
            return None;
        }
        let c: u8 = low8(self.ring[t]);
        self.tail = next_slot(t, N);
        assert(self@ =~= old(self)@.skip(1));
        Some(c)
    }
}

/// The records of a trace ring of capacity `cap` after one more: the oldest
/// makes room.
pub open spec fn ring_pushed(records: Seq<[u8; ZCT_REC]>, rec: [u8; ZCT_REC], cap: int) -> Seq<
    [u8; ZCT_REC],
> {
    let s = records.push(rec);
    if s.len() > cap {
        s.skip(1)
    } else {
        s
    }
}

/// The bytes of a run of records.
pub open spec fn record_bytes(records: Seq<[u8; ZCT_REC]>) -> Seq<u8>
    decreases records.len(),
{
    if records.len() == 0 {
        Seq::empty()
    } else {
        record_bytes(records.drop_last()) + records.last()@
    }
}

/// The trace ring: packed records, one less than its slots; a full ring
/// drops the oldest and counts it.
pub struct ZctRing<const N: usize> {
    /// The slots.
    pub ring: [[u8; ZCT_REC]; N],
    /// The slot written next.
    pub head: usize,
    /// The slot read next.
    pub tail: usize,
    /// Records dropped so far.
    pub drop: u32,
}

impl<const N: usize> ZctRing<N> {
    /// Both indices are slots.
    pub open spec fn wf(self) -> bool {
        self.head < N && self.tail < N
    }

    /// The waiting records, oldest first.
    pub open spec fn view(self) -> Seq<[u8; ZCT_REC]> {
        Seq::new(
            ring_len(self.head as int, self.tail as int, N as int) as nat,
            |i: int| self.ring[ring_slot(self.tail as int, i, N as int)],
        )
    }

    /// Takes one packed record; a full ring drops its oldest.
    pub fn push_rec(&mut self, rec: &[u8; ZCT_REC])
        requires
            old(self).wf(),
        ensures
            final(self).wf(),
            final(self)@ == ring_pushed(old(self)@, *rec, N - 1),
            final(self).ring@ == old(self).ring@.update(old(self).head as int, *rec),
            final(self).head == ring_slot(old(self).head as int, 1, N as int),
            old(self)@.len() + 1 < N ==> final(self).tail == old(self).tail,
            final(self).drop == if old(self)@.len() + 1 >= N {
                old(self).drop.wrapping_add(1)
            } else {
                old(self).drop
            },
    {
        let h: usize = self.head;
        let nx: usize = next_slot(h, N);
        if nx == self.tail {
            self.drop = self.drop.wrapping_add(1);
            self.tail = next_slot(self.tail, N);
        }
        self.ring[h] = *rec;
        self.head = nx;
        assert(self@ =~= ring_pushed(old(self)@, *rec, N - 1));
    }

    /// Moves up to `max_rec` records, oldest first, to the end of `out`.
    pub fn drain(&mut self, max_rec: usize, out: &mut Vec<u8>)
        requires
            old(self).wf(),
        ensures
            ({
                let k = min_of(old(self)@.len() as int, max_rec as int);
                &&& final(out)@ == old(out)@ + record_bytes(old(self)@.take(k))
                &&& final(self)@ == old(self)@.skip(k)
            }),
            final(self).wf(),
            final(self).head == old(self).head,
            final(self).ring == old(self).ring,
            final(self).drop == old(self).drop,
    {
        let ghost was = self@;
        let mut nrec: usize = 0;
        proof {
            assert(was.skip(0) =~= was);
            assert(was.take(0) =~= Seq::empty());
            assert(out@ =~= old(out)@ + record_bytes(was.take(0)));
        }
        while self.tail != self.head && nrec < max_rec
            invariant
                self.wf(),
                was == old(self)@,
                nrec <= max_rec,
                nrec <= was.len(),
                self@ == was.skip(nrec as int),
                self.drop == old(self).drop,
                self.head == old(self).head,
                self.ring == old(self).ring,
                out@ == old(out)@ + record_bytes(was.take(nrec as int)),
            decreases was.len() - nrec,
        {
            let ghost now = self@;
            let t: usize = self.tail;
            let rec: [u8; ZCT_REC] = self.ring[t];
            out.extend_from_slice(rec.as_slice());
            self.tail = next_slot(t, N);
            proof {
                assert(now.len() > 0);
                assert(rec == was[nrec as int]) by {
                    assert(now[0] == was[nrec as int]);
                }
                assert(self@ =~= now.skip(1));
                assert(self@ =~= was.skip(nrec + 1));
                assert(was.take(nrec + 1).drop_last() =~= was.take(nrec as int));
                assert(out@ =~= old(out)@ + record_bytes(was.take(nrec + 1)));
            }
            nrec = nrec + 1;
        }
    }
}

/// The entries waiting in a byte ring of capacity `cap` after a run of
/// pushes.
pub open spec fn rx_pushed_all(waiting: Seq<u16>, more: Seq<u16>, cap: int) -> Seq<u16>
    decreases more.len(),
{
    if more.len() == 0 {
        waiting
    } else {
        rx_pushed(rx_pushed_all(waiting, more.drop_last(), cap), more.last(), cap)
    }
}

/// A byte ring always holds the oldest entries that fit, in order, whatever
/// is pushed after them.
pub proof fn law_rx_ring_keeps_the_oldest(waiting: Seq<u16>, more: Seq<u16>, cap: int)
    requires
        waiting.len() <= cap,
    ensures
        rx_pushed_all(waiting, more, cap) == (waiting + more).take(
            min_of((waiting + more).len() as int, cap),
        ),
    decreases more.len(),
{
    let all = waiting + more;
    if more.len() == 0 {
        assert(all.take(min_of(all.len() as int, cap)) =~= waiting);
    } else {
        law_rx_ring_keeps_the_oldest(waiting, more.drop_last(), cap);
        let before = rx_pushed_all(waiting, more.drop_last(), cap);
        assert(rx_pushed(before, more.last(), cap) =~= all.take(min_of(all.len() as int, cap)));
    }
}

/// The records of a ring after a run of pushes.
pub open spec fn ring_pushed_all(
    records: Seq<[u8; ZCT_REC]>,
    more: Seq<[u8; ZCT_REC]>,
    cap: int,
) -> Seq<[u8; ZCT_REC]>
    decreases more.len(),
{
    if more.len() == 0 {
        records
    } else {
        ring_pushed(ring_pushed_all(records, more.drop_last(), cap), more.last(), cap)
    }
}

/// A trace ring always holds the newest records that fit, in order.
pub proof fn law_ring_keeps_the_newest(
    records: Seq<[u8; ZCT_REC]>,
    more: Seq<[u8; ZCT_REC]>,
    cap: int,
)
    requires
        0 <= cap,
        records.len() <= cap,
    ensures
        ring_pushed_all(records, more, cap) == (records + more).skip(
            max_of(records.len() + more.len() - cap, 0),
        ),
    decreases more.len(),
{
    let k = max_of(records.len() + more.len() - cap, 0);
    if more.len() == 0 {
        assert((records + more).skip(k) =~= records);
    } else {
        law_ring_keeps_the_newest(records, more.drop_last(), cap);
        let before = ring_pushed_all(records, more.drop_last(), cap);
        assert(ring_pushed(before, more.last(), cap) =~= (records + more).skip(k));
    }
}

/// The map takes the ends of the input range to the ends of the output
/// range, its middle to the middle, and the middles of its halves to the
/// middles of theirs.
pub proof fn law_map_meets_ends_and_middles(
    in_min: int,
    in_max: int,
    out_min: int,
    out_max: int,
    beyond: int,
)
    requires
        in_max - in_min >= 8,
        0 <= beyond,
    ensures
        mapped(in_min - beyond, in_min, in_max, out_min, out_max) == out_min,
        mapped(in_max + beyond, in_min, in_max, out_min, out_max) == out_max,
        ({
            let in_mid = (in_min + in_max) / 2;
            let out_mid = (out_min + out_max) / 2;
            &&& mapped(in_mid, in_min, in_max, out_min, out_max) == out_mid
            &&& mapped((in_min + in_mid) / 2, in_min, in_max, out_min, out_max) == (out_min
                + out_mid) / 2
            &&& mapped((in_mid + 1 + in_max) / 2, in_min, in_max, out_min, out_max) == (out_mid
                + out_max) / 2
        }),
{
    let in_mid = (in_min + in_max) / 2;
    let out_mid = (out_min + out_max) / 2;
    lemma_map_meets_the_middle(in_min, in_max, out_min, out_max);
    lemma_map_meets_the_middle(in_min, in_mid, out_min, out_mid);
    lemma_map_meets_the_middle(in_mid + 1, in_max, out_mid, out_max);
}

/// The middle of the input range goes to the middle of the output range.
proof fn lemma_map_meets_the_middle(in_min: int, in_max: int, out_min: int, out_max: int)
    requires
        in_max - in_min >= 2,
    ensures
        mapped((in_min + in_max) / 2, in_min, in_max, out_min, out_max) == (out_min + out_max) / 2,
{
    let in_mid = (in_min + in_max) / 2;
    let out_mid = (out_min + out_max) / 2;
    assert(mapped(in_mid, in_min, in_mid, out_min, out_mid) == out_mid);
}

/// The map of a rising range has no jumps: where the output range is at most
/// `s` times as wide as the input range, and a little, one input step moves
/// the output by at most `3 * s + 1`.
pub proof fn law_map_moves_in_small_steps(
    x: int,
    in_min: int,
    in_max: int,
    out_min: int,
    out_max: int,
    s: int,
)
    requires
        in_min <= x < in_max,
        out_min <= out_max <= out_min + s * (in_max - in_min + 2) + 1,
        0 <= s,
    ensures
        mapped(x + 1, in_min, in_max, out_min, out_max) - mapped(
            x,
            in_min,
            in_max,
            out_min,
            out_max,
        ) <= 3 * s + 1,
    decreases in_max - in_min,
{
    let w = in_max - in_min;
    let d = out_max - out_min;
    let in_mid = (in_min + in_max) / 2;
    let out_mid = (out_min + out_max) / 2;
    if w == 1 {
        assert(s * (w + 2) == 3 * s) by (nonlinear_arith)
            requires
                w == 1,
        ;
    } else if d > 0 {
        let lw = in_mid - in_min;
        let rw = in_max - in_mid - 1;
        assert(s * (w + 2) <= s * (2 * (lw + 2)) && s * (w + 2) <= s * (2 * (rw + 2)))
            by (nonlinear_arith)
            requires
                0 <= s,
                w + 2 <= 2 * (lw + 2),
                w + 2 <= 2 * (rw + 2),
        ;
        assert(s * (2 * (lw + 2)) == 2 * (s * (lw + 2))) by (nonlinear_arith);
        assert(s * (2 * (rw + 2)) == 2 * (s * (rw + 2))) by (nonlinear_arith);
        if x + 1 <= in_mid {
            law_map_moves_in_small_steps(x, in_min, in_mid, out_min, out_mid, s);
            assert(mapped(x, in_min, in_max, out_min, out_max) == mapped(
                x,
                in_min,
                in_mid,
                out_min,
                out_mid,
            ));
            assert(mapped(x + 1, in_min, in_max, out_min, out_max) == mapped(
                x + 1,
                in_min,
                in_mid,
                out_min,
                out_mid,
            ));
        } else if x == in_mid {
            lemma_map_meets_the_middle(in_min, in_max, out_min, out_max);
            assert(in_mid + 1 < in_max ==> mapped(x + 1, in_min, in_max, out_min, out_max)
                == mapped(x + 1, in_mid + 1, in_max, out_mid, out_max));
            if in_mid + 1 == in_max {
                assert(s * (w + 2) <= 4 * s) by (nonlinear_arith)
                    requires
                        0 <= s,
                        w <= 2,
                ;
            }
        } else {
            law_map_moves_in_small_steps(x, in_mid + 1, in_max, out_mid, out_max, s);
            assert(mapped(x, in_min, in_max, out_min, out_max) == mapped(
                x,
                in_mid + 1,
                in_max,
                out_mid,
                out_max,
            ));
            assert(mapped(x + 1, in_min, in_max, out_min, out_max) == mapped(
                x + 1,
                in_mid + 1,
                in_max,
                out_mid,
                out_max,
            ));
        }
    }
}

/// The distance of two numbers is the one non-negative number that leads from
/// the smaller to the larger, either way around.
pub proof fn law_distance_is_symmetric(a: int, b: int)
    ensures
        distance(a, b) == distance(b, a),
        0 <= distance(a, b),
        a + distance(a, b) == b || b + distance(a, b) == a,
{
}

/// The interrupt-mode blend is the midpoint of the interval and the mean of
/// the two zero-cross times: twice the interval and the two times share out
/// to four of it, up to rounding down. A steady motor keeps its interval, and
/// the two times weigh the same.
pub proof fn law_halfway_blend_is_the_midpoint(ci: int, lastzc: int, thiszc: int)
    requires
        0 <= ci && 0 <= lastzc && 0 <= thiszc,
    ensures
        2 * ci + lastzc + thiszc - 3 <= 4 * halfway_blend(ci, lastzc, thiszc) <= 2 * ci + lastzc
            + thiszc,
        halfway_blend(ci, ci, ci) == ci,
        halfway_blend(ci, lastzc, thiszc) == halfway_blend(ci, thiszc, lastzc),
{
}

/// The polling blend takes three parts of the interval and one of the
/// zero-cross time, up to rounding down, and keeps a steady interval.
pub proof fn law_quarter_blend_weighs_three_to_one(thiszc: int, ci: int)
    ensures
        3 * ci + thiszc - 3 <= 4 * quarter_blend(thiszc, ci) <= 3 * ci + thiszc,
        quarter_blend(ci, ci) == ci,
{
}

/// The advance shares an interval into 64 parts and takes so many of them:
/// 64 steps are the whole interval, and more steps never advance less.
pub proof fn law_advance_is_a_share(ci: int, steps: int, more: int)
    requires
        0 <= ci,
        0 <= steps <= more,
    ensures
        64 * sixty_fourths(ci, steps) <= ci * steps < 64 * sixty_fourths(ci, steps) + 64,
        sixty_fourths(ci, 64) == ci,
        sixty_fourths(ci, 0) == 0,
        sixty_fourths(ci, steps) <= sixty_fourths(ci, more),
{
    assert(ci * steps <= ci * more) by (nonlinear_arith)
        requires
            0 <= ci,
            0 <= steps <= more,
    ;
    assert(ci * 64 / 64 == ci) by (nonlinear_arith);
    assert(ci * 0 == 0);
}

/// Wait and advance make up half an interval; an advance beyond it leaves no
/// wait.
pub proof fn law_wait_and_advance_make_half(ci: int, advance: int)
    requires
        0 <= ci,
        0 <= advance,
    ensures
        2 * advance <= ci ==> ci - 1 <= 2 * (half_less(ci, advance) + advance) <= ci,
        2 * advance > ci ==> half_less(ci, advance) == 0,
{
}

/// The duty follows the throttle: nothing below input 47, the lowest duty at
/// it, the full duty from 2047 on, half way at the middle; a larger input
/// never asks for less, and one count more for at most four.
pub proof fn law_setpoint_follows_the_throttle(i: u16, j: u16, min_duty: u16, full: u16)
    requires
        min_duty <= full <= min_duty + 2000,
        i <= j,
    ensures
        i < 47 ==> setpoint(i, min_duty, full) == 0,
        setpoint(47, min_duty, full) == min_duty,
        i >= 2047 ==> setpoint(i, min_duty, full) == full,
        setpoint(1047, min_duty, full) == (min_duty + full) / 2,
        setpoint(547, min_duty, full) == (min_duty + (min_duty + full) / 2) / 2,
        setpoint(1547, min_duty, full) == ((min_duty + full) / 2 + full) / 2,
        setpoint(i, min_duty, full) <= setpoint(j, min_duty, full),
        47 <= i && j == i + 1 ==> setpoint(j, min_duty, full) - setpoint(i, min_duty, full) <= 4,
{
    let lo = min_duty as int;
    let hi = full as int;
    law_map_meets_ends_and_middles(47, 2047, lo, hi, 0);
    law_map_is_monotone(i as int, j as int, 47, 2047, lo, hi);
    law_map_stays_in_range(j as int, 47, 2047, lo, hi);
    if 47 <= i < 2047 {
        law_map_moves_in_small_steps(i as int, 47, 2047, lo, hi, 1);
    }
}

/// A young motor and a low duty ramp by 2 a tick. Past 150 zero-crosses and
/// a duty of 150 a motor slower than 500 ticks ramps by 6, a faster one by 16.
pub proof fn law_ramp_grows_with_the_run(zero_crosses: u32, last_duty: i32, average_interval: u32)
    ensures
        rate_of(zero_crosses, last_duty, average_interval) == 2 <==> zero_crosses <= 149
            || last_duty <= 149,
        zero_crosses >= 150 && last_duty >= 150 ==> rate_of(
            zero_crosses,
            last_duty,
            average_interval,
        ) == if average_interval <= 500 {
            16i32
        } else {
            6i32
        },
{
}

/// The speed of a running motor is the tens of revolutions that fit in
/// 600 000 ticks, and a stopped motor has none.
pub proof fn law_speed_is_the_inverse_of_time(e_com_time: int)
    requires
        e_com_time > 0,
    ensures
        10 * kilo_erpm(e_com_time, true) * e_com_time <= 600_000,
        600_000 < 10 * (kilo_erpm(e_com_time, true) + 1) * e_com_time,
        kilo_erpm(e_com_time, false) == 0,
        kilo_erpm(-e_com_time, true) == 0,
{
    let q = 600_000int / e_com_time;
    let k = q / 10;
    vstd::arithmetic::div_mod::lemma_fundamental_div_mod(600_000, e_com_time);
    assert(e_com_time * q == q * e_com_time) by (nonlinear_arith);
    assert(10 * k * e_com_time <= q * e_com_time) by (nonlinear_arith)
        requires
            10 * k <= q,
            e_com_time > 0,
    ;
    assert((q + 1) * e_com_time <= 10 * (k + 1) * e_com_time) by (nonlinear_arith)
        requires
            q + 1 <= 10 * (k + 1),
            e_com_time > 0,
    ;
    assert((q + 1) * e_com_time == q * e_com_time + e_com_time) by (nonlinear_arith);
}

/// The duty ceiling: none without the limit; under it 400 up to 20 thousand
/// rpm and for a stopped motor, 2000 from 70 thousand on, 1200 half way, and
/// a faster motor never has a lower one.
pub proof fn law_ceiling_rises_with_speed(slow: int, fast: int, running: bool)
    requires
        0 < fast <= slow,
    ensures
        duty_ceiling(slow, running, false) == 2000,
        duty_ceiling(slow, false, true) == 400,
        kilo_erpm(slow, true) <= 20 ==> duty_ceiling(slow, true, true) == 400,
        kilo_erpm(slow, true) == 45 ==> duty_ceiling(slow, true, true) == 1200,
        kilo_erpm(slow, true) >= 70 ==> duty_ceiling(slow, true, true) == 2000,
        400 <= duty_ceiling(slow, true, true) <= duty_ceiling(fast, true, true) <= 2000,
{
    let s = kilo_erpm(slow, true);
    let f = kilo_erpm(fast, true);
    let a = 600_000int / slow;
    let b = 600_000int / fast;
    assert(a <= b) by {
        vstd::arithmetic::div_mod::lemma_div_is_ordered_by_denominator(600_000, fast, slow);
    }
    assert(s <= f);
    law_map_meets_ends_and_middles(20, 70, 400, 2000, 0);
    law_map_is_monotone(s, f, 20, 70, 400, 2000);
    law_map_stays_in_range(s, 20, 70, 400, 2000);
    law_map_stays_in_range(f, 20, 70, 400, 2000);
}

/// A desync is a fast motor whose last average is over three halves or under
/// half of the new one.
pub proof fn law_jump_is_half_of_the_average(last: u32, avg: u32)
    requires
        last <= i32::MAX,
        avg <= i32::MAX,
    ensures
        average_jumped(last, avg) <==> avg < 2000 && (2 * last > 3 * avg || 2 * last < avg),
{
}

/// Matching reads count up one by one and leave the bad reads alone. Bad
/// reads never count up, and the first one over the threshold starts the
/// count over.
pub proof fn law_bad_reads_start_over(counter: u16, bad: u16, threshold: u16)
    requires
        counter < u16::MAX,
        bad < u16::MAX,
    ensures
        bemf_counted(counter, bad, true, threshold) == ((counter + 1) as u16, bad),
        bemf_counted(counter, bad, false, threshold).1 == bad + 1,
        bad < threshold ==> bemf_counted(counter, bad, false, threshold).0 == counter,
        bad >= threshold ==> bemf_counted(counter, bad, false, threshold).0 == 0,
{
}

/// A current window after `n` equal samples from its start, before it
/// completes.
pub open spec fn oc_window(raw: int, n: nat, window: int, thresh: int) -> (int, int, bool)
    decreases n,
{
    if n == 0 {
        (0, 0, false)
    } else {
        let before = oc_window(raw, (n - 1) as nat, window, thresh);
        oc_stepped(before.0, before.1, raw, window, thresh)
    }
}

/// A window of equal samples trips exactly when the sample is over the
/// threshold, and not before its last sample; then it starts over.
pub proof fn law_current_window_averages(raw: int, n: nat, window: int, thresh: int)
    requires
        0 <= raw,
        0 < n <= window,
    ensures
        n < window ==> oc_window(raw, n, window, thresh) == (n * raw, n as int, false),
        n == window ==> oc_window(raw, n, window, thresh) == (0int, 0int, raw > thresh),
    decreases n,
{
    reveal_with_fuel(oc_window, 2);
    if n > 1 {
        law_current_window_averages(raw, (n - 1) as nat, window, thresh);
    }
    assert((n - 1) * raw + raw == n * raw) by (nonlinear_arith);
    assert(0 * raw == 0);
    if n == window {
        assert(n * raw / window == raw) by (nonlinear_arith)
            requires
                n == window,
                window > 0,
        ;
    }
}

/// Whatever the samples were, a completed window trips exactly when they add
/// up to a window of samples over the threshold.
pub proof fn law_current_window_trips_on_its_sum(
    sum: int,
    n: int,
    raw: int,
    window: int,
    thresh: int,
)
    requires
        0 < window <= n + 1,
        0 <= sum + raw,
    ensures
        oc_stepped(sum, n, raw, window, thresh).2 <==> sum + raw >= window * (thresh + 1),
{
    let q = (sum + raw) / window;
    vstd::arithmetic::div_mod::lemma_fundamental_div_mod(sum + raw, window);
    if q > thresh {
        assert(window * q >= window * (thresh + 1)) by (nonlinear_arith)
            requires
                q >= thresh + 1,
                window > 0,
        ;
    } else {
        assert(window * (q + 1) <= window * (thresh + 1)) by (nonlinear_arith)
            requires
                q <= thresh,
                window > 0,
        ;
        assert(window * (q + 1) == window * q + window) by (nonlinear_arith);
    }
}

/// Every batch of 50 commutations is of one kind: it is chosen by the speed
/// at the first of them, batched below 200 ticks, and a batched trace skips
/// every second batch.
pub proof fn law_batches_are_of_fifty(n: u32, ci_ticks: u32, prev: bool)
    ensures
        n % 50 == 0 ==> batches(n, ci_ticks, prev) == (ci_ticks < 200),
        n % 50 != 0 ==> batches(n, ci_ticks, prev) == prev,
        batch_records(n, false),
        n % 100 < 50 ==> batch_records(n, true),
        n % 100 >= 50 ==> !batch_records(n, true),
{
}

/// A revolution time is half the sum of the six intervals, and two: the
/// sectors weigh the same.
pub proof fn law_revolution_is_half_the_sum(h: Am32Intervals)
    requires
        h.total() + 4 <= i32::MAX,
    ensures
        ({
            let sum = h.slots[0] + h.slots[1] + h.slots[2] + h.slots[3] + h.slots[4] + h.slots[5];
            sum + 3 <= 2 * h.revolution_us() <= sum + 4
        }),
{
}

/// A committed number from 1 to 100 is percent, 20 counts each above 47; one
/// from 101 to 1000 is per mille, 2 counts each; beyond, the lowest input.
pub proof fn law_throttle_counts(p: UartDuty, end: u8)
    requires
        p.n != 0,
        is_terminator(end),
    ensures
        p.acc == 0 ==> p.command(end) == Some(UartCmd::Stop),
        1 <= p.acc <= 100 ==> p.command(end) == Some(
            UartCmd::SetThrottle((47 + 20 * p.acc) as u16),
        ),
        101 <= p.acc <= 1000 ==> p.command(end) == Some(
            UartCmd::SetThrottle((47 + 2 * p.acc) as u16),
        ),
        p.acc > 1000 ==> p.command(end) == Some(UartCmd::SetThrottle(48)),
{
}

/// More percent is more throttle, and so is more per mille; the same share
/// in percent and in per mille is the same throttle.
pub proof fn law_throttle_rises(p: UartDuty, q: UartDuty, end: u8)
    requires
        p.n != 0 && q.n != 0,
        is_terminator(end),
        1 <= p.acc < q.acc,
    ensures
        q.acc <= 100 || 101 <= p.acc && q.acc <= 1000 ==> ((p.command(
            end,
        )->0)->SetThrottle_0) < ((q.command(end)->0)->SetThrottle_0),
        11 <= p.acc <= 100 && q.acc == 10 * p.acc ==> p.command(end) == q.command(end),
{
}

/// What each byte commands: the digits nothing, `s` and `w` a stop, `Z` the
/// trace, `i` the info line, `b` the black box, `G` the current capture; any
/// other byte ends the number.
pub proof fn law_keys_command(p: UartDuty, byte: u8)
    ensures
        byte == 0x73 || byte == 0x77 ==> p.command(byte) == Some(UartCmd::Stop) && p.fed(byte)
            == UartDuty::empty(),
        byte == 0x5A ==> p.command(byte) == Some(UartCmd::TraceToggle),
        byte == 0x69 ==> p.command(byte) == Some(UartCmd::Info),
        byte == 0x62 ==> p.command(byte) == Some(UartCmd::BbDump),
        byte == 0x47 ==> p.command(byte) == Some(UartCmd::GeckoDump),
        0x30 <= byte <= 0x39 ==> p.command(byte) is None,
        is_terminator(byte) <==> !(0x30 <= byte <= 0x39) && byte != 0x73 && byte != 0x77 && byte
            != 0x5A && byte != 0x69 && byte != 0x62 && byte != 0x47,
        p.n == 0 && is_terminator(byte) ==> p.command(byte) is None,
        is_terminator(byte) ==> p.fed(byte) == UartDuty::empty(),
{
}

/// A digit appends to the number: ten times what it was, and the digit; after
/// four digits it is dropped.
pub proof fn law_digit_appends(p: UartDuty, digit: u8)
    requires
        p.wf(),
        digit <= 9,
    ensures
        p.n < 4 ==> p.fed((0x30 + digit) as u8) == (UartDuty {
            acc: (10 * p.acc + digit) as u32,
            n: (p.n + 1) as u8,
        }),
        p.n == 4 ==> p.fed((0x30 + digit) as u8) == p,
{
}

/// A byte ring hands out first what came in first: a waiting entry goes
/// before any that is pushed after it, and an entry pushed to an empty ring is
/// the next one out, by its low byte.
pub proof fn law_rx_ring_is_first_in_first_out(waiting: Seq<u16>, c: u16, cap: int)
    requires
        waiting.len() < cap,
    ensures
        rx_first(Seq::empty()) is None,
        rx_first(rx_pushed(Seq::empty(), c, cap)) == Some((c % 256) as u8),
        rx_rest(rx_pushed(Seq::empty(), c, cap)) == Seq::<u16>::empty(),
        waiting.len() > 0 ==> {
            &&& rx_first(rx_pushed(waiting, c, cap)) == rx_first(waiting)
            &&& rx_rest(rx_pushed(waiting, c, cap)) == rx_pushed(rx_rest(waiting), c, cap)
            &&& rx_rest(waiting).len() == waiting.len() - 1
            &&& forall|i: int|
                0 <= i < waiting.len() - 1 ==> #[trigger] rx_rest(waiting)[i] == waiting[i + 1]
        },
{
    assert(rx_rest(rx_pushed(Seq::empty(), c, cap)) =~= Seq::<u16>::empty());
    if waiting.len() > 0 {
        assert(rx_rest(rx_pushed(waiting, c, cap)) =~= rx_pushed(rx_rest(waiting), c, cap));
    }
}

/// The bytes of a run of records are the records' own, 15 each, in order.
pub proof fn law_record_bytes_in_order(records: Seq<[u8; ZCT_REC]>, i: int, j: int)
    requires
        0 <= i < records.len(),
        0 <= j < 15,
    ensures
        record_bytes(records).len() == 15 * records.len(),
        record_bytes(records)[15 * i + j] == records[i]@[j],
    decreases records.len(),
{
    let front = records.drop_last();
    assert(records.last()@.len() == 15);
    if i < front.len() {
        law_record_bytes_in_order(front, i, j);
    } else if front.len() > 0 {
        law_record_bytes_in_order(front, 0, 0);
    } else {
        assert(record_bytes(front) =~= Seq::<u8>::empty());
    }
}

} // verus!

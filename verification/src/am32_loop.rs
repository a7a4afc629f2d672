//! The pure bands of the six-step main loop and its 20 kHz tick, over the
//! state clusters they share. Times are 0.5 µs ticks, duties are 0 to 2000.

use vstd::prelude::*;

use crate::am32::{duty_setpoint, low_rpm_duty_ceiling, ramp_rate, ramp_toward};
use crate::am32::{duty_ceiling, lemma_map_fits, mapped, ramp_fits, ramped, setpoint};
use crate::am32::{law_map_is_monotone, law_map_meets_ends_and_middles, law_map_stays_in_range};
use crate::am32::law_setpoint_follows_the_throttle;
use crate::am32::{Am32Intervals, UartCmd};
use crate::am32::{MAX_RAMP_HIGH_RPM, MAX_RAMP_LOW_RPM, MAX_RAMP_STARTUP};
use crate::bits::{clamp_of, min_of, signed32};
use crate::bits::to_signed32;

verus! {

/// The throttle and duty domain is 0 to this.
pub const DUTY_FULL: u16 = 2000;

/// Ticks of the control loop per second.
pub const LOOP_FREQUENCY_HZ: u32 = 20_000;

/// Level reads that make a zero-cross while polling.
pub const TARGET_MIN_BEMF_COUNTS: u16 = 3;

/// Bad reads over this start the count over.
pub const BAD_COUNT_THRESHOLD: u16 = 3;

/// Below this interval the interrupt mode takes over from polling.
pub const POLLING_MODE_CHANGEOVER: u32 = 2000;

/// Advance steps of a 64th of the interval: a constant 15 degrees.
pub const TEMP_ADVANCE: u32 = 16;

/// Interval that a start is seeded with.
pub const STARTUP_INTERVAL_TICKS: u32 = 10_000;

/// Interval before the first start.
pub const INIT_INTERVAL_TICKS: u32 = 12_500;

/// Lowest running duty, the dead time.
pub const MINIMUM_DUTY_CYCLE: u16 = 45;

/// Lowest duty of a start.
pub const MIN_STARTUP_DUTY: u16 = 145;

/// Highest duty of a start.
pub const STARTUP_MAX_DUTY_CYCLE: u16 = 445;

/// The duty ceiling of a slow motor is on.
pub const LOW_RPM_THROTTLE_LIMIT: bool = true;

/// The carrier rides the commutation interval when this is 1.
pub const VARIABLE_PWM: u8 = 1;

/// An interval count over this is a lost zero-cross.
pub const BEMF_TIMEOUT_TICKS: u32 = 45_000;

/// Ticks without a command after which the throttle is zeroed: 3 s.
pub const UART_DEADMAN_LIMIT: u32 = 60_000;

/// One bump of an injected delay, CPU cycles.
pub const DELAY_BUMP_CYC: u32 = 280;

/// Longest injected delay, CPU cycles.
pub const DELAY_CAP_CYC: u32 = 4000;

/// Schedule and zero-cross estimate.
#[derive(Debug, Clone, Copy, PartialEq, Eq, Default)]
pub struct Sched {
    /// Smoothed commutation interval.
    pub commutation_interval: u32,
    /// Interval of each sector's last commutation.
    pub interval_hist: [u32; 6],
    /// Average of the history.
    pub average_interval: u32,
    /// The average at the last desync check.
    pub last_average_interval: u32,
    /// Zero-cross time before the last.
    pub last_zc: u16,
    /// Last zero-cross time.
    pub this_zc: u16,
    /// Ticks from a zero-cross to its commutation.
    pub wait_time: u16,
}

/// Commutation and run state, with its event counters.
#[derive(Debug, Clone, Copy, PartialEq, Eq, Structural, Default)]
pub struct Drive {
    /// Step, 1 to 6.
    pub current_step: u16,
    /// The step senses a rising edge.
    pub rising: bool,
    /// Polling mode.
    pub old_routine: bool,
    /// The motor runs.
    pub running: bool,
    /// The zero-cross of this step was found.
    pub zcfound: bool,
    /// Matching level reads.
    pub bemf_counter: u16,
    /// Reads that make a rising zero-cross.
    pub min_bemf_up: u16,
    /// Reads that make a falling zero-cross.
    pub min_bemf_down: u16,
    /// Zero-crosses since the start.
    pub zero_crosses: u32,
    /// Persistence reads of the interrupt mode.
    pub filter_level: u16,
    /// Bad level reads.
    pub bad_count: u16,
    /// A revolution completed: check for a desync.
    pub desync_check: bool,
    /// Desyncs so far.
    pub desync_happened: u32,
    /// Zero-cross timeouts so far.
    pub bemf_timeout_happened: u32,
    /// Loop ticks.
    pub tenkhz_counter: u16,
    /// Spin waits that ran out.
    pub zcfr_guard_hits: u32,
}

/// The duty pipeline and the latched kill.
#[derive(Debug, Clone, Copy, PartialEq, Eq, Structural, Default)]
pub struct Duty {
    /// Throttle input in force.
    pub input: u16,
    /// Throttle input with the lowest value read as 0.
    pub adjusted_input: u16,
    /// Throttle input last commanded.
    pub uart_duty_input: u16,
    /// Duty asked for.
    pub duty_cycle_setpoint: u16,
    /// Duty after the ramp.
    pub duty_cycle: u16,
    /// Duty last applied.
    pub last_duty_cycle: u16,
    /// Duty ceiling.
    pub duty_cycle_maximum: u16,
    /// Ramp ticks.
    pub ramp_count: u16,
    /// A safety kill is latched.
    pub killed: bool,
    /// Its reason.
    pub kill_reason: u16,
    /// Carrier reload in force; duties are scaled to it.
    pub tim1_arr: u16,
}

/// Bench observers and requests.
#[derive(Debug, Clone, Copy, PartialEq, Eq, Structural, Default)]
pub struct Bench {
    /// Ticks since the last command.
    pub uart_deadman_ticks: u32,
    /// Latest current sample.
    pub i_raw: u16,
    /// Latest battery sample.
    pub vbat_raw: u16,
    /// Sum of the overcurrent window.
    pub oc_acc: u32,
    /// Samples in the overcurrent window.
    pub oc_cnt: u32,
    /// Consecutive ticks with a low battery.
    pub vbat_low_ticks: u32,
    /// Battery floor latched at boot, 0 before.
    pub vbat_floor_raw: u16,
    /// Stop requested.
    pub stop_req: bool,
    /// Black-box dump requested.
    pub dump_req: bool,
    /// Info line requested.
    pub info_req: bool,
    /// Current-ring dump requested.
    pub gecko_req: bool,
    /// Phase-ring dump requested.
    pub wax_req: bool,
    /// Histogram dump requested.
    pub hist_req: bool,
    /// Free-run toggle requested.
    pub freerun_req: bool,
    /// The trace is streamed.
    pub zct_stream_on: bool,
    /// Injected delay inside a critical section, CPU cycles.
    pub delay_in_free: u32,
    /// Injected delay outside one, CPU cycles.
    pub delay_out_free: u32,
}

impl Sched {
    /// The interval history.
    pub fn intervals(&self) -> (r: Am32Intervals)
        ensures
            r.slots == self.interval_hist,
    {
        Am32Intervals::new(self.interval_hist)
    }
}

/// How many reads make a zero-cross after so many.
pub open spec fn reads_needed(zero_crosses: u32) -> u16 {
    if zero_crosses < 5 {
        6
    } else {
        TARGET_MIN_BEMF_COUNTS
    }
}

/// Sets how many reads make a zero-cross: twice as many for the first five.
pub fn min_bemf_schedule(drive: &mut Drive)
    ensures
        ({
            let reads: u16 = reads_needed(old(drive).zero_crosses);
            *final(drive) == (Drive { min_bemf_up: reads, min_bemf_down: reads, ..*old(drive) })
        }),
{
    if drive.zero_crosses < 5 {
        drive.min_bemf_up = TARGET_MIN_BEMF_COUNTS * 2;
        drive.min_bemf_down = TARGET_MIN_BEMF_COUNTS * 2;
    } else {
        drive.min_bemf_up = TARGET_MIN_BEMF_COUNTS;
        drive.min_bemf_down = TARGET_MIN_BEMF_COUNTS;
    }
}

/// The average interval of a revolution time: a third, 0 when there is
/// none.
pub open spec fn average_of(e_com_time: int) -> int {
    if e_com_time > 0 {
        e_com_time / 3
    } else {
        0
    }
}

/// Stores and returns the average interval of a revolution time.
pub fn store_average_interval(sched: &mut Sched, e_com_time: i32) -> (r: u32)
    ensures
        r == average_of(e_com_time as int),
        *final(sched) == (Sched { average_interval: r, ..*old(sched) }),
{
    let average_interval: u32 = if e_com_time > 0 {
        (e_com_time / 3) as u32
    } else {
        0
    };
    sched.average_interval = average_interval;
    average_interval
}

/// The persistence reads: 2 at the very top, 12 for a young slow motor,
/// else mapped from the average interval.
pub open spec fn filter_reads(zero_crosses: u32, ci: u32, average_interval: u32) -> int {
    if ci < 50 {
        2
    } else if zero_crosses < 100 && ci > 500 {
        12
    } else {
        mapped(signed32(average_interval), 100, 500, 3, 12)
    }
}

/// Sets the duty ceiling and the persistence reads; returns whether the
/// motor runs and its zero-crosses.
pub fn filter_and_duty_max(
    sched: &Sched,
    drive: &mut Drive,
    duty: &mut Duty,
    e_com_time: i32,
    average_interval: u32,
) -> (r: (bool, u32))
    ensures
        r == (old(drive).running, old(drive).zero_crosses),
        *final(drive) == (Drive {
            filter_level: filter_reads(
                old(drive).zero_crosses,
                sched.commutation_interval,
                average_interval,
            ) as u16,
            ..*old(drive)
        }),
        *final(duty) == (Duty {
            duty_cycle_maximum: duty_ceiling(e_com_time as int, old(drive).running, true) as u16,
            ..*old(duty)
        }),
{
    let running: bool = drive.running;
    duty.duty_cycle_maximum = low_rpm_duty_ceiling(e_com_time, running, LOW_RPM_THROTTLE_LIMIT);

    let zc: u32 = drive.zero_crosses;
    let ci: u32 = sched.commutation_interval;
    let avg: i32 = to_signed32(average_interval);
    proof {
        lemma_map_fits(avg as int, 100, 500, 3, 12);
        law_map_stays_in_range(avg as int, 100, 500, 3, 12);
    }
    let mut filter: i32 = if zc < 100 && ci > 500 {
        12
    } else {
        crate::am32::map(avg, 100, 500, 3, 12)
    };
    if ci < 50 {
        filter = 2;
    }
    drive.filter_level = filter as u16;
    (running, zc)
}

/// The timeout count is forgiven: a long run, or a low throttle.
pub open spec fn timeouts_forgiven(zc: u32, adjusted_input: u16) -> bool {
    zc > 1000 || adjusted_input == 0 || (zc > 100 && adjusted_input < 200)
}

/// Forgives the zero-cross timeouts of a run that settled.
pub fn bemf_timeout_resets(drive: &mut Drive, duty: &Duty, zc: u32)
    ensures
        *final(drive) == (Drive {
            bemf_timeout_happened: if timeouts_forgiven(zc, duty.adjusted_input) {
                0
            } else {
                old(drive).bemf_timeout_happened
            },
            ..*old(drive)
        }),
{
    let adj: u16 = duty.adjusted_input;
    if zc > 1000 || adj == 0 {
        drive.bemf_timeout_happened = 0;
    }
    if zc > 100 && adj < 200 {
        drive.bemf_timeout_happened = 0;
    }
}

/// The duty that an input asks for, held to the startup range while the
/// motor is young, and to the ceiling.
pub open spec fn clamped_setpoint(input: u16, zero_crosses: u32, ceiling: u16) -> int {
    let asked = setpoint(input, MINIMUM_DUTY_CYCLE, DUTY_FULL);
    let held = if input >= 47 && zero_crosses < 30 {
        clamp_of(asked, MIN_STARTUP_DUTY as int, STARTUP_MAX_DUTY_CYCLE as int)
    } else {
        asked
    };
    min_of(held, ceiling as int)
}

/// Sets the duty that an input asks for.
pub fn set_input_clamp(drive: &Drive, duty: &mut Duty, input: u16)
    ensures
        *final(duty) == (Duty {
            duty_cycle_setpoint: clamped_setpoint(
                input,
                drive.zero_crosses,
                old(duty).duty_cycle_maximum,
            ) as u16,
            ..*old(duty)
        }),
{
    let mut sp: u16 = duty_setpoint(input, MINIMUM_DUTY_CYCLE, DUTY_FULL);
    if input >= 47 && drive.zero_crosses < 30 {
        if sp < MIN_STARTUP_DUTY {
            sp = MIN_STARTUP_DUTY;
        }
        if sp > STARTUP_MAX_DUTY_CYCLE {
            sp = STARTUP_MAX_DUTY_CYCLE;
        }
    }
    let dmax: u16 = duty.duty_cycle_maximum;
    if sp > dmax {
        sp = dmax;
    }
    duty.duty_cycle_setpoint = sp;
}

/// An injected delay after a bump, held to its range.
pub open spec fn bumped(delay: u32, delta: int) -> u32 {
    clamp_of(signed32(delay) + delta, 0, DELAY_CAP_CYC as int) as u32
}

/// The duty pipeline after a command.
pub open spec fn duty_after(duty: Duty, cmd: UartCmd) -> Duty {
    match cmd {
        UartCmd::Stop => Duty { uart_duty_input: 0, adjusted_input: 0, ..duty },
        UartCmd::SetThrottle(input) => Duty {
            uart_duty_input: input,
            adjusted_input: if input <= 48 {
                0
            } else {
                input
            },
            ..duty
        },
        _ => duty,
    }
}

/// The bench state after a command.
pub open spec fn bench_after(bench: Bench, cmd: UartCmd) -> Bench {
    match cmd {
        UartCmd::Stop => Bench { uart_deadman_ticks: 0, stop_req: true, ..bench },
        UartCmd::SetThrottle(_) => Bench { uart_deadman_ticks: 0, ..bench },
        UartCmd::TraceToggle => Bench { zct_stream_on: !bench.zct_stream_on, ..bench },
        UartCmd::Info => Bench { info_req: true, ..bench },
        UartCmd::BbDump => Bench { dump_req: true, ..bench },
        UartCmd::GeckoDump => Bench { gecko_req: true, ..bench },
        UartCmd::WaxDump => Bench { wax_req: true, ..bench },
        UartCmd::HistDump => Bench { hist_req: true, ..bench },
        UartCmd::FreeRunToggle => Bench { freerun_req: true, ..bench },
        UartCmd::DelayInFreeUp => Bench {
            delay_in_free: bumped(bench.delay_in_free, DELAY_BUMP_CYC as int),
            ..bench
        },
        UartCmd::DelayInFreeDown => Bench {
            delay_in_free: bumped(bench.delay_in_free, -(DELAY_BUMP_CYC as int)),
            ..bench
        },
        UartCmd::DelayOutFreeUp => Bench {
            delay_out_free: bumped(bench.delay_out_free, DELAY_BUMP_CYC as int),
            ..bench
        },
        UartCmd::DelayOutFreeDown => Bench {
            delay_out_free: bumped(bench.delay_out_free, -(DELAY_BUMP_CYC as int)),
            ..bench
        },
    }
}

/// The bump that a command makes fits in 32 bits.
pub open spec fn bump_fits(bench: Bench, cmd: UartCmd) -> bool {
    let up = DELAY_BUMP_CYC as int;
    match cmd {
        UartCmd::DelayInFreeUp => signed32(bench.delay_in_free) + up <= i32::MAX,
        UartCmd::DelayInFreeDown => signed32(bench.delay_in_free) - up >= i32::MIN,
        UartCmd::DelayOutFreeUp => signed32(bench.delay_out_free) + up <= i32::MAX,
        UartCmd::DelayOutFreeDown => signed32(bench.delay_out_free) - up >= i32::MIN,
        _ => true,
    }
}

/// Performs a decoded command.
pub fn apply_uart_cmd(duty: &mut Duty, bench: &mut Bench, cmd: Option<UartCmd>)
    requires
        cmd is Some ==> bump_fits(*old(bench), cmd->0),
    ensures
        cmd is None ==> *final(duty) == *old(duty) && *final(bench) == *old(bench),
        cmd is Some ==> *final(duty) == duty_after(*old(duty), cmd->0) && *final(bench)
            == bench_after(*old(bench), cmd->0),
{
    match cmd {
        Some(UartCmd::Stop) => {
            duty.uart_duty_input = 0;
            duty.adjusted_input = 0;
            bench.uart_deadman_ticks = 0;
            bench.stop_req = true;
        },
        Some(UartCmd::SetThrottle(input)) => {
            duty.uart_duty_input = input;
            duty.adjusted_input = if input <= 48 {
                0
            } else {
                input
            };
            bench.uart_deadman_ticks = 0;
        },
        Some(UartCmd::TraceToggle) => {
            bench.zct_stream_on = !bench.zct_stream_on;
        },
        Some(UartCmd::Info) => {
            bench.info_req = true;
        },
        Some(UartCmd::BbDump) => {
            bench.dump_req = true;
        },
        Some(UartCmd::GeckoDump) => {
            bench.gecko_req = true;
        },
        Some(UartCmd::WaxDump) => {
            bench.wax_req = true;
        },
        Some(UartCmd::HistDump) => {
            bench.hist_req = true;
        },
        Some(UartCmd::FreeRunToggle) => {
            bench.freerun_req = true;
        },
        Some(UartCmd::DelayInFreeUp) => {
            bench.delay_in_free = bump_delay(bench.delay_in_free, DELAY_BUMP_CYC as i32);
        },
        Some(UartCmd::DelayInFreeDown) => {
            bench.delay_in_free = bump_delay(bench.delay_in_free, -(DELAY_BUMP_CYC as i32));
        },
        Some(UartCmd::DelayOutFreeUp) => {
            bench.delay_out_free = bump_delay(bench.delay_out_free, DELAY_BUMP_CYC as i32);
        },
        Some(UartCmd::DelayOutFreeDown) => {
            bench.delay_out_free = bump_delay(bench.delay_out_free, -(DELAY_BUMP_CYC as i32));
        },
        None => {},
    }
}

fn bump_delay(delay: u32, delta: i32) -> (r: u32)
    requires
        i32::MIN <= signed32(delay) + delta <= i32::MAX,
    ensures
        r == bumped(delay, delta as int),
{
    let next: i32 = to_signed32(delay) + delta;
    next.max(0).min(DELAY_CAP_CYC as i32) as u32
}

/// The ramp per tick of the drive's regime.
pub open spec fn ramp_of(sched: Sched, drive: Drive, last_duty: u16) -> int {
    if drive.zero_crosses < 150 || last_duty < 150 {
        MAX_RAMP_STARTUP as int
    } else if sched.average_interval > 500 {
        MAX_RAMP_LOW_RPM as int
    } else {
        MAX_RAMP_HIGH_RPM as int
    }
}

/// One ramp tick of the duty toward `setpoint`.
pub fn duty_ramp(sched: &Sched, drive: &Drive, duty: &mut Duty, setpoint: i32) -> (r: u16)
    requires
        ramp_fits(
            old(duty).last_duty_cycle as int,
            setpoint as int,
            ramp_of(*sched, *drive, old(duty).last_duty_cycle),
        ),
    ensures
        r == ramped(
            old(duty).last_duty_cycle as int,
            setpoint as int,
            ramp_of(*sched, *drive, old(duty).last_duty_cycle),
        ),
        *final(duty) == (Duty {
            duty_cycle: r,
            ramp_count: old(duty).ramp_count.wrapping_add(1),
            ..*old(duty)
        }),
{
    duty.ramp_count = duty.ramp_count.wrapping_add(1);
    let last: i32 = duty.last_duty_cycle as i32;
    let rate: i32 = ramp_rate(drive.zero_crosses, last, sched.average_interval);
    let duty_val: u16 = ramp_toward(last, setpoint, rate);
    duty.duty_cycle = duty_val;
    duty_val
}

/// The command link has been silent for too long after one more tick.
pub open spec fn link_lost(bench: Bench) -> bool {
    bench.uart_deadman_ticks + 1 > UART_DEADMAN_LIMIT
}

/// The bench state after a tick without a command.
pub open spec fn silent_bench(bench: Bench) -> Bench {
    Bench {
        uart_deadman_ticks: min_of(bench.uart_deadman_ticks + 1, UART_DEADMAN_LIMIT + 1) as u32,
        ..bench
    }
}

/// The duty pipeline after a tick without a command.
pub open spec fn silent_duty(duty: Duty, bench: Bench) -> Duty {
    if link_lost(bench) {
        Duty { uart_duty_input: 0, adjusted_input: 0, ..duty }
    } else {
        duty
    }
}

/// One tick of the command deadman: three seconds of silence zero the
/// throttle.
pub fn uart_deadman_tick(duty: &mut Duty, bench: &mut Bench)
    requires
        old(bench).uart_deadman_ticks < u32::MAX,
    ensures
        *final(bench) == silent_bench(*old(bench)),
        *final(duty) == silent_duty(*old(duty), *old(bench)),
{
    let dm: u32 = bench.uart_deadman_ticks + 1;
    if dm > UART_DEADMAN_LIMIT {
        duty.uart_duty_input = 0;
        duty.adjusted_input = 0;
        bench.uart_deadman_ticks = UART_DEADMAN_LIMIT + 1;
    } else {
        bench.uart_deadman_ticks = dm;
    }
}

/// The persistence reads are between 2 and 12.
pub proof fn law_filter_reads_are_bounded(zero_crosses: u32, ci: u32, average_interval: u32)
    ensures
        2 <= filter_reads(zero_crosses, ci, average_interval) <= 12,
{
    law_map_stays_in_range(signed32(average_interval), 100, 500, 3, 12);
}

/// No input asks for more than the ceiling or the duty domain; no armed
/// input of a young motor asks for less than the startup duty, where the
/// ceiling allows it, nor for more than its limit; and an input below the
/// armed threshold asks for nothing.
pub proof fn law_setpoint_is_held(input: u16, zero_crosses: u32, ceiling: u16)
    ensures
        0 <= clamped_setpoint(input, zero_crosses, ceiling) <= ceiling,
        clamped_setpoint(input, zero_crosses, ceiling) <= DUTY_FULL,
        input < 47 ==> clamped_setpoint(input, zero_crosses, ceiling) == 0,
        input >= 47 && zero_crosses < 30 ==> min_of(MIN_STARTUP_DUTY as int, ceiling as int)
            <= clamped_setpoint(input, zero_crosses, ceiling) <= STARTUP_MAX_DUTY_CYCLE,
{
    law_map_stays_in_range(input as int, 47, 2047, 45, 2000);
}

/// Bumps keep an injected delay within its cap, whatever it was.
pub proof fn law_delays_stay_capped(delay: u32, delta: int)
    ensures
        0 <= bumped(delay, delta) <= DELAY_CAP_CYC,
{
}

/// The bench state after `n` silent ticks.
pub open spec fn silent_ticks(bench: Bench, n: nat) -> Bench
    decreases n,
{
    if n == 0 {
        bench
    } else {
        silent_bench(silent_ticks(bench, (n - 1) as nat))
    }
}

/// A command buys exactly three seconds of a 20 kHz tick: 60 000 silent ticks
/// after it leave the throttle alone, and every one from then on zeroes it.
/// Nothing else of the bench moves.
pub proof fn law_deadman_takes_three_seconds(bench: Bench, duty: Duty, cmd: UartCmd, n: nat)
    requires
        cmd is Stop || cmd is SetThrottle,
    ensures
        ({
            let fed = bench_after(bench, cmd);
            let now = silent_ticks(fed, n);
            &&& now == (Bench { uart_deadman_ticks: now.uart_deadman_ticks, ..fed })
            &&& n < 60_000 ==> silent_duty(duty, now) == duty
            &&& n >= 60_000 ==> silent_duty(duty, now) == (Duty {
                uart_duty_input: 0,
                adjusted_input: 0,
                ..duty
            })
            &&& n <= 60_000 ==> now.uart_deadman_ticks == n
            &&& n > 60_000 ==> now.uart_deadman_ticks == 60_001
        }),
        3 * LOOP_FREQUENCY_HZ == 60_000,
    decreases n,
{
    if n > 0 {
        law_deadman_takes_three_seconds(bench, duty, cmd, (n - 1) as nat);
    }
}

/// The first five crossings take six agreeing reads, the later ones three.
pub proof fn law_early_crossings_take_more_reads(zero_crosses: u32)
    ensures
        reads_needed(zero_crosses) == 6 <==> zero_crosses <= 4,
        reads_needed(zero_crosses) == 3 <==> zero_crosses >= 5,
{
}

/// The average interval is a third of the revolution time, so a motor whose
/// six intervals are equal has that interval as its average; no revolution
/// has none.
pub proof fn law_average_of_a_steady_motor(e_com_time: int, h: Am32Intervals, ci: u32)
    requires
        6 * ci + 4 <= i32::MAX,
        forall|i: int| 0 <= i < 6 ==> #[trigger] h.slots[i] == ci,
    ensures
        e_com_time > 0 ==> e_com_time - 2 <= 3 * average_of(e_com_time) <= e_com_time,
        e_com_time <= 0 ==> average_of(e_com_time) == 0,
        average_of(h.revolution_us()) == ci,
{
    assert(h.slots[0] == ci && h.slots[1] == ci && h.slots[2] == ci);
    assert(h.slots[3] == ci && h.slots[4] == ci && h.slots[5] == ci);
}

/// The persistence reads follow the speed: 2 below 50 ticks; 12 for a young
/// slow motor; else 3 up to an average of 100, 12 from 500 on, 7 half way, and
/// never fewer for a slower motor.
pub proof fn law_filter_follows_the_speed(zero_crosses: u32, ci: u32, fast: u32, slow: u32)
    requires
        fast <= slow <= i32::MAX,
    ensures
        ci <= 49 ==> filter_reads(zero_crosses, ci, fast) == 2,
        zero_crosses <= 99 && ci >= 501 ==> filter_reads(zero_crosses, ci, fast) == 12,
        ci >= 50 && (zero_crosses >= 100 || ci <= 500) ==> {
            &&& fast <= 100 ==> filter_reads(zero_crosses, ci, fast) == 3
            &&& fast == 300 ==> filter_reads(zero_crosses, ci, fast) == 7
            &&& fast >= 500 ==> filter_reads(zero_crosses, ci, fast) == 12
            &&& filter_reads(zero_crosses, ci, fast) <= filter_reads(zero_crosses, ci, slow)
        },
{
    law_map_meets_ends_and_middles(100, 500, 3, 12, 0);
    law_map_is_monotone(fast as int, slow as int, 100, 500, 3, 12);
}

/// Timeouts are forgiven without a throttle and past a thousand crossings, up
/// to a hundred crossings never under a throttle, and between them exactly
/// below an input of 200.
pub proof fn law_timeouts_are_forgiven_to_a_settled_run(zc: u32, input: u16)
    ensures
        timeouts_forgiven(zc, 0),
        zc >= 1001 ==> timeouts_forgiven(zc, input),
        input >= 1 && zc <= 100 ==> !timeouts_forgiven(zc, input),
        input >= 1 && 101 <= zc <= 1000 ==> (timeouts_forgiven(zc, input) <==> input <= 199),
{
}

/// What an input asks of a settled and of a young motor: never more than the
/// ceiling; more input never asks for less. Settled, from 45 at the armed
/// threshold to 2000 at full throttle; young, from 145 to 445.
pub proof fn law_setpoint_follows_the_input(i: u16, j: u16, zero_crosses: u32, ceiling: u16)
    requires
        i <= j,
    ensures
        clamped_setpoint(i, zero_crosses, ceiling) <= clamped_setpoint(j, zero_crosses, ceiling),
        clamped_setpoint(i, zero_crosses, ceiling) <= ceiling,
        i <= 46 ==> clamped_setpoint(i, zero_crosses, ceiling) == 0,
        zero_crosses >= 30 && ceiling >= 2000 ==> {
            &&& clamped_setpoint(47, zero_crosses, ceiling) == 45
            &&& clamped_setpoint(1047, zero_crosses, ceiling) == 1022
            &&& i >= 2047 ==> clamped_setpoint(i, zero_crosses, ceiling) == 2000
            &&& 47 <= i && j == i + 1 ==> clamped_setpoint(j, zero_crosses, ceiling)
                - clamped_setpoint(i, zero_crosses, ceiling) <= 4
        },
        zero_crosses <= 29 && ceiling >= 445 ==> {
            &&& clamped_setpoint(47, zero_crosses, ceiling) == 145
            &&& i >= 547 ==> clamped_setpoint(i, zero_crosses, ceiling) == 445
        },
        ceiling < 45 && i >= 47 ==> clamped_setpoint(i, zero_crosses, ceiling) == ceiling,
{
    law_setpoint_follows_the_throttle(i, j, 45, 2000);
    law_map_stays_in_range(i as int, 47, 2047, 45, 2000);
    if i >= 547 {
        law_setpoint_follows_the_throttle(547, i, 45, 2000);
    }
    if i >= 47 {
        law_setpoint_follows_the_throttle(47, i, 45, 2000);
    }
}

/// A bump moves an injected delay by 280 cycles, within 0 and 4000: up and
/// down again is where it was.
pub proof fn law_bumps_move_by_a_step(delay: u32)
    ensures
        delay <= 3720 ==> bumped(delay, 280) == delay + 280,
        3720 <= delay <= 4000 ==> bumped(delay, 280) == 4000,
        280 <= delay <= 4000 ==> bumped(delay, -280) == delay - 280,
        delay <= 280 ==> bumped(delay, -280) == 0,
        delay <= 3720 ==> bumped(bumped(delay, 280), -280) == delay,
{
}

/// The bench state without what `cmd` is about.
pub open spec fn bench_apart(bench: Bench, cmd: UartCmd, from: Bench) -> Bench {
    match cmd {
        UartCmd::Stop => Bench {
            uart_deadman_ticks: from.uart_deadman_ticks,
            stop_req: from.stop_req,
            ..bench
        },
        UartCmd::SetThrottle(_) => Bench { uart_deadman_ticks: from.uart_deadman_ticks, ..bench },
        UartCmd::TraceToggle => Bench { zct_stream_on: from.zct_stream_on, ..bench },
        UartCmd::Info => Bench { info_req: from.info_req, ..bench },
        UartCmd::BbDump => Bench { dump_req: from.dump_req, ..bench },
        UartCmd::GeckoDump => Bench { gecko_req: from.gecko_req, ..bench },
        UartCmd::WaxDump => Bench { wax_req: from.wax_req, ..bench },
        UartCmd::HistDump => Bench { hist_req: from.hist_req, ..bench },
        UartCmd::FreeRunToggle => Bench { freerun_req: from.freerun_req, ..bench },
        UartCmd::DelayInFreeUp | UartCmd::DelayInFreeDown => Bench {
            delay_in_free: from.delay_in_free,
            ..bench
        },
        UartCmd::DelayOutFreeUp | UartCmd::DelayOutFreeDown => Bench {
            delay_out_free: from.delay_out_free,
            ..bench
        },
    }
}

/// A command changes its own part of the bench and nothing else: a stop is
/// requested, a throttle taken, each dump asked for under its own flag, and
/// the trace toggled, twice for nothing. Only a stop and a throttle touch the
/// duty pipeline, and feed the deadman.
pub proof fn law_commands_touch_their_own(duty: Duty, bench: Bench, cmd: UartCmd, input: u16)
    ensures
        bench_apart(bench_after(bench, cmd), cmd, bench) == bench,
        !(cmd is Stop) && !(cmd is SetThrottle) ==> duty_after(duty, cmd) == duty,
        bench_after(bench, UartCmd::Stop).stop_req,
        duty_after(duty, UartCmd::Stop) == duty_after(duty, UartCmd::SetThrottle(0)),
        duty_after(duty, UartCmd::SetThrottle(input)).uart_duty_input == input,
        input >= 49 ==> duty_after(duty, UartCmd::SetThrottle(input)).adjusted_input == input,
        input <= 48 ==> duty_after(duty, UartCmd::SetThrottle(input)).adjusted_input == 0,
        duty_after(duty, UartCmd::SetThrottle(input)) == (Duty {
            uart_duty_input: input,
            adjusted_input: duty_after(duty, UartCmd::SetThrottle(input)).adjusted_input,
            ..duty
        }),
        bench_after(bench, UartCmd::Stop).uart_deadman_ticks == 0,
        bench_after(bench, UartCmd::SetThrottle(input)).uart_deadman_ticks == 0,
        bench_after(bench_after(bench, UartCmd::TraceToggle), UartCmd::TraceToggle) == bench,
        bench_after(bench, UartCmd::TraceToggle).zct_stream_on != bench.zct_stream_on,
        bench_after(bench, UartCmd::Info).info_req,
        bench_after(bench, UartCmd::BbDump).dump_req,
        bench_after(bench, UartCmd::GeckoDump).gecko_req,
        bench_after(bench, UartCmd::WaxDump).wax_req,
        bench_after(bench, UartCmd::HistDump).hist_req,
        bench_after(bench, UartCmd::FreeRunToggle).freerun_req,
        bench.delay_in_free <= 3720 ==> bench_after(bench, UartCmd::DelayInFreeUp).delay_in_free
            == bench.delay_in_free + 280,
        280 <= bench.delay_in_free <= 4000 ==> bench_after(
            bench,
            UartCmd::DelayInFreeDown,
        ).delay_in_free == bench.delay_in_free - 280,
        bench.delay_out_free <= 3720 ==> bench_after(bench, UartCmd::DelayOutFreeUp).delay_out_free
            == bench.delay_out_free + 280,
        280 <= bench.delay_out_free <= 4000 ==> bench_after(
            bench,
            UartCmd::DelayOutFreeDown,
        ).delay_out_free == bench.delay_out_free - 280,
{
}

/// One tick moves the duty toward what is asked by at most its ramp, and all
/// the way when that is near enough: by 2 for a young motor or a low duty,
/// else by 6 for a slow motor and by 16 for a fast one.
pub proof fn law_tick_ramps_the_duty(sched: Sched, drive: Drive, last: u16, target: int)
    requires
        last <= 2000,
        0 <= target <= 2000,
    ensures
        ({
            let v = ramped(last as int, target, ramp_of(sched, drive, last));
            let step: int = if drive.zero_crosses <= 149 || last <= 149 {
                2
            } else if sched.average_interval >= 501 {
                6
            } else {
                16
            };
            &&& last + step <= target ==> v == last + step
            &&& target + step <= last ==> v == last - step
            &&& last - step <= target <= last + step ==> v == target
        }),
{
}

} // verus!

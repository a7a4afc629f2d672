//! Commutation, the polling zero-cross, start and stop, and the throttle
//! input of the six-step drive. Hardware is reached only through the traits
//! of [`crate::am32_hal`]; what a function does to it is stated as what it
//! adds to each component's trace and to the bundle's log.

use vstd::prelude::*;

use crate::am32::{advance_of, bemf_count_step, desync_due, polling_blend, wait_time};
use crate::am32::{distance, law_map_stays_in_range, lemma_map_fits, mapped};
use crate::am32::{law_map_is_monotone, law_map_meets_ends_and_middles};
use crate::am32_loop::law_setpoint_follows_the_input;
use crate::am32_hal::{motor_trace, obs_trace, HalEvent, MotorTrace, ObsTrace};
use crate::am32_hal::{
    ComTimer, ComTimerExt, Comparator, Cs, InjAdc, IntervalTimer, LoopTimer, MotorHal, Observer,
    PhaseOutput, PwmOutput, Recorder,
};
use crate::am32_loop::clamped_setpoint;
use crate::am32_loop::{
    set_input_clamp, Bench, Drive, Duty, Sched, BAD_COUNT_THRESHOLD, BEMF_TIMEOUT_TICKS,
    MIN_STARTUP_DUTY, POLLING_MODE_CHANGEOVER, STARTUP_INTERVAL_TICKS, TEMP_ADVANCE, VARIABLE_PWM,
};
use crate::bits::{low16, low8, to_signed32};
use crate::bits::{max_of, signed32};
use crate::blackbox::{EV_DSY, EV_REF};
use crate::zct_trace::ZctTrace;

verus! {

broadcast use crate::am32_hal::lemma_extended_by_a_call;

/// Reads after which a spin wait gives up.
pub const SPIN_READS_MAX: u32 = 65_536;

/// Interval count that a start is seeded with.
pub const STARTUP_COUNT: u32 = 5_000;

/// Interval of a timed-out motor whose throttle is off.
pub const IDLE_INTERVAL_TICKS: u32 = 5_000;

/// The step after `step`, 1 to 6.
pub open spec fn next_step(step: u16) -> u16 {
    if step + 1 > 6 {
        1
    } else {
        (step + 1) as u16
    }
}

/// The run state after a commutation: the next step, its edge, a desync
/// check at the wrap, and polling when the motor is slow.
pub open spec fn commutated_drive(sched: Sched, drive: Drive) -> Drive {
    let step = next_step(drive.current_step);
    Drive {
        current_step: step,
        rising: step % 2 == 1,
        desync_check: drive.desync_check || drive.current_step >= 6,
        old_routine: drive.old_routine || sched.average_interval > POLLING_MODE_CHANGEOVER + 500,
        bemf_counter: 0,
        zcfound: false,
        ..drive
    }
}

/// `after` is the schedule after a commutation: the interval is filed under
/// the new step's sector.
pub open spec fn commutated_sched(sched: Sched, drive: Drive, after: Sched) -> bool {
    &&& after == (Sched { interval_hist: after.interval_hist, ..sched })
    &&& after.interval_hist@ == sched.interval_hist@.update(
        next_step(drive.current_step) - 1,
        sched.commutation_interval,
    )
}

/// The motor traces after a commutation: bridge roles, then the
/// comparator's step and input.
pub open spec fn commutated_motor(m: MotorTrace, drive: Drive) -> MotorTrace {
    let step = next_step(drive.current_step) as u8;
    MotorTrace {
        phase: m.phase.push(HalEvent::ComStep(step)),
        comp: m.comp.push(HalEvent::Step(step, step % 2 == 1)).push(HalEvent::ChangeInput),
        log: m.log.push(HalEvent::ComStep(step)).push(HalEvent::Step(step, step % 2 == 1)).push(
            HalEvent::ChangeInput,
        ),
        ..m
    }
}

/// The observer traces after a commutation.
pub open spec fn commutated_obs(o: ObsTrace, sched: Sched, drive: Drive) -> ObsTrace {
    ObsTrace {
        bb: o.bb.push(
            HalEvent::Record(
                EV_REF,
                (next_step(drive.current_step) - 1) as u8,
                (sched.commutation_interval % 0x1_0000) as u16,
            ),
        ),
        ..o
    }
}

/// Moves on to the next step.
pub fn commutate<M: MotorHal, B: Recorder, S: Cs, A: InjAdc, L: LoopTimer>(
    sched: &mut Sched,
    drive: &mut Drive,
    hal: &mut M,
    obs: &mut Observer<B, S, A, L>,
)
    requires
        old(drive).current_step < u16::MAX,
    ensures
        *final(drive) == commutated_drive(*old(sched), *old(drive)),
        commutated_sched(*old(sched), *old(drive), *final(sched)),
        motor_trace(*final(hal)) == commutated_motor(motor_trace(*old(hal)), *old(drive)),
        obs_trace(*final(obs)) == commutated_obs(obs_trace(*old(obs)), *old(sched), *old(drive)),
{
    let mut step: u16 = drive.current_step;
    step = step + 1;
    if step > 6 {
        step = 1;
        drive.desync_check = true;
    }
    let rising: bool = step % 2 == 1;
    drive.rising = rising;
    drive.current_step = step;
    let sector: usize = (step - 1) as usize;

    hal.phase().com_step(step as u8);
    hal.comp().set_step(step as u8, rising);
    hal.comp().change_input();

    if sched.average_interval > POLLING_MODE_CHANGEOVER + 500 {
        drive.old_routine = true;
    }
    drive.bemf_counter = 0;
    drive.zcfound = false;
    sched.interval_hist[sector] = sched.commutation_interval;

    obs.bb.record(EV_REF, sector as u8, low16(sched.commutation_interval));
}

/// The value of the count read at place `i` of a trace.
pub open spec fn count_at(t: Seq<HalEvent>, i: int) -> u32 {
    t[i]->Count_0
}

/// The interval that a polled zero-cross blends to.
pub open spec fn polled_interval(ci: u32, thiszc: u16) -> int {
    (thiszc + 3 * ci) / 4
}

/// The wait of an interval: half of it less the advance.
pub open spec fn wait_of(ci: int) -> int {
    max_of(ci / 2 - ci * (TEMP_ADVANCE as int) / 64, 0)
}

/// The schedule after a polled zero-cross of this time.
pub open spec fn blended_sched(sched: Sched, thiszc: u16) -> Sched {
    let ci = polled_interval(sched.commutation_interval, thiszc);
    Sched {
        this_zc: thiszc,
        commutation_interval: ci as u32,
        wait_time: (wait_of(ci) % 0x1_0000) as u16,
        ..sched
    }
}

/// Blending any zero-cross time into the interval fits in 32 bits.
pub open spec fn blend_fits(ci: u32) -> bool {
    (0xFFFF + 3 * ci) / 4 * TEMP_ADVANCE <= u32::MAX
}

/// The motor traces after the interval count was read and restarted.
pub open spec fn timed_motor(m: MotorTrace, count: u32) -> MotorTrace {
    MotorTrace {
        interval: m.interval.push(HalEvent::Count(count)).push(HalEvent::SetCount(0)),
        log: m.log.push(HalEvent::Count(count)).push(HalEvent::SetCount(0)),
        ..m
    }
}

/// Takes the zero-cross time, restarts the interval timer, and blends the
/// interval; returns it and the wait.
pub fn zcfr_blend<M: MotorHal>(sched: &mut Sched, hal: &mut M) -> (r: (u32, u32))
    requires
        blend_fits(old(sched).commutation_interval),
    ensures
        ({
            let before = motor_trace(*old(hal));
            let after = motor_trace(*final(hal));
            let count = count_at(after.interval, before.interval.len() as int);
            let thiszc = (count % 0x1_0000) as u16;
            &&& after == timed_motor(before, count)
            &&& *final(sched) == blended_sched(*old(sched), thiszc)
            &&& r.0 == polled_interval(old(sched).commutation_interval, thiszc)
            &&& r.1 == wait_of(r.0 as int)
        }),
{
    let count: u32 = hal.interval().count();
    let thiszc: u16 = low16(count);
    hal.interval().set_count(0);
    sched.this_zc = thiszc;
    let ci: u32 = polling_blend(thiszc as u32, sched.commutation_interval);
    sched.commutation_interval = ci;
    let advance: u32 = advance_of(ci, TEMP_ADVANCE);
    let wait: u32 = wait_time(ci, advance);
    sched.wait_time = low16(wait);
    (ci, wait)
}

/// The reads of a spin wait: it ends at the first count that reaches the
/// wait, after one read while the motor is young, or when it runs out.
pub open spec fn spin_reads(reads: Seq<HalEvent>, zc: u32, wait: u32) -> bool {
    let n = reads.len() as int;
    &&& 1 <= n <= SPIN_READS_MAX
    &&& forall|i: int| 0 <= i < n ==> (#[trigger] reads[i]) is Count
    &&& forall|i: int| 0 <= i < n - 1 ==> (#[trigger] reads[i])->Count_0 < wait
    &&& zc < 5 ==> n == 1
    &&& zc >= 5 && n < SPIN_READS_MAX ==> count_at(reads, n - 1) >= wait
}

/// The spin wait gave up.
pub open spec fn spin_ran_out(reads: Seq<HalEvent>, zc: u32, wait: u32) -> bool {
    zc >= 5 && reads.len() == SPIN_READS_MAX && count_at(reads, reads.len() - 1) < wait
}

/// The run state after a spin wait: one that gave up is counted.
pub open spec fn spun_drive(drive: Drive, reads: Seq<HalEvent>, zc: u32, wait: u32) -> Drive {
    Drive {
        zcfr_guard_hits: if spin_ran_out(reads, zc, wait) {
            drive.zcfr_guard_hits.wrapping_add(1)
        } else {
            drive.zcfr_guard_hits
        },
        ..drive
    }
}

/// The motor traces after these reads of the interval timer.
pub open spec fn spun_motor(m: MotorTrace, reads: Seq<HalEvent>) -> MotorTrace {
    MotorTrace { interval: m.interval + reads, log: m.log + reads, ..m }
}

/// Waits for the interval timer to reach `wait`. The wait is bounded, so a
/// wedged timer cannot capture the tick.
pub fn zcfr_spin_wait<M: MotorHal>(drive: &mut Drive, zc: u32, wait: u32, hal: &mut M)
    ensures
        ({
            let before = motor_trace(*old(hal));
            let after = motor_trace(*final(hal));
            let reads = after.interval.skip(before.interval.len() as int);
            &&& after == spun_motor(before, reads)
            &&& spin_reads(reads, zc, wait)
            &&& *final(drive) == spun_drive(*old(drive), reads, zc, wait)
        }),
{
    let ghost before = motor_trace(*hal);
    let ghost mut reads: Seq<HalEvent> = Seq::empty();
    let mut guard: u32 = 0;
    proof {
        assert(motor_trace(*hal) =~= spun_motor(before, reads));
    }
    loop
        invariant_except_break
            reads.len() == guard,
            guard < SPIN_READS_MAX,
            guard > 0 ==> zc >= 5,
            forall|i: int| 0 <= i < guard ==> (#[trigger] reads[i])->Count_0 < wait,
            *drive == *old(drive),
        invariant
            before == motor_trace(*old(hal)),
            motor_trace(*hal) == spun_motor(before, reads),
            forall|i: int| 0 <= i < reads.len() ==> (#[trigger] reads[i]) is Count,
        ensures
            spin_reads(reads, zc, wait),
            *drive == spun_drive(*old(drive), reads, zc, wait),
        decreases SPIN_READS_MAX - guard,
    {
        let ghost so_far = reads;
        let count: u32 = hal.interval().count();
        proof {
            reads = so_far.push(HalEvent::Count(count));
            assert(motor_trace(*hal) =~= spun_motor(before, reads));
            assert forall|i: int| 0 <= i < so_far.len() implies (#[trigger] reads[i])->Count_0
                < wait by {
                assert(reads[i] == so_far[i]);
            }
        }
        if count >= wait {
            break ;
        }
        if zc < 5 {
            break ;
        }
        guard = guard + 1;
        if guard > 65_535 {
            drive.zcfr_guard_hits = drive.zcfr_guard_hits.wrapping_add(1);
            break ;
        }
    }
    proof {
        assert((before.interval + reads).skip(before.interval.len() as int) =~= reads);
    }
}

/// The motor traces after the commutation reload was written.
pub open spec fn reloaded_motor(m: MotorTrace, arr: u16) -> MotorTrace {
    MotorTrace {
        com: m.com.push(HalEvent::ComReload(arr)),
        log: m.log.push(HalEvent::ComReload(arr)),
        ..m
    }
}

/// The motor traces after the comparator interrupt was enabled.
pub open spec fn listening_motor(m: MotorTrace) -> MotorTrace {
    MotorTrace {
        comp: m.comp.push(HalEvent::EnableComp),
        log: m.log.push(HalEvent::EnableComp),
        ..m
    }
}

/// The motor traces after a polled zero-cross: the count is read and
/// restarted, the wait read out, the reload written, the step commutated,
/// and the comparator interrupt enabled when the motor is fast enough.
pub open spec fn found_motor(
    m: MotorTrace,
    drive: Drive,
    ci: int,
    count: u32,
    reads: Seq<HalEvent>,
) -> MotorTrace {
    let waited = spun_motor(timed_motor(m, count), reads);
    let c = commutated_motor(
        reloaded_motor(waited, (wait_of(ci) % 0x1_0000) as u16),
        drive,
    );
    if ci < POLLING_MODE_CHANGEOVER {
        listening_motor(c)
    } else {
        c
    }
}

/// The run state after a polled zero-cross that waited and commutated.
pub open spec fn found_drive(commutated: Drive, zc: u32, ci: int) -> Drive {
    Drive {
        bemf_counter: 0,
        bad_count: 0,
        zero_crosses: zc.saturating_add(1),
        old_routine: commutated.old_routine && ci >= POLLING_MODE_CHANGEOVER,
        ..commutated
    }
}

/// A state of the drive with the traces of its hardware.
pub ghost struct World<const N: usize> {
    /// Schedule.
    pub sched: Sched,
    /// Run state.
    pub drive: Drive,
    /// Trace ring.
    pub zct: ZctTrace<N>,
    /// Motor traces.
    pub motor: MotorTrace,
    /// Observer traces.
    pub obs: ObsTrace,
}

/// `after` follows from `before` by a polled zero-cross: the time is read
/// and blended, the wait spun out, the step commutated and traced, and a
/// fast motor handed to the interrupt mode.
pub open spec fn zc_found<const N: usize>(
    before: World<N>,
    duty: Duty,
    after: World<N>,
) -> bool {
    let n = before.motor.interval.len() as int;
    let count = count_at(after.motor.interval, n);
    let reads = after.motor.interval.skip(n + 2);
    let zc = before.drive.zero_crosses;
    let blended = blended_sched(before.sched, (count % 0x1_0000) as u16);
    let ci = blended.commutation_interval as int;
    let spun = spun_drive(before.drive, reads, zc, wait_of(ci) as u32);
    let commutated = commutated_drive(blended, spun);
    &&& after.motor == found_motor(before.motor, before.drive, ci, count, reads)
    &&& spin_reads(reads, zc, wait_of(ci) as u32)
    &&& commutated_sched(blended, spun, after.sched)
    &&& before.zct.written(after.sched, commutated, duty, after.zct)
    &&& after.drive == found_drive(commutated, zc, ci)
    &&& after.obs == (ObsTrace {
        cs: before.obs.cs + before.zct.write_sections(after.sched, after.zct),
        ..commutated_obs(before.obs, blended, spun)
    })
}

/// The polled zero-cross was found: blend, wait, commutate, trace, and
/// change over to the interrupt mode when the motor is fast enough.
pub fn zcfoundroutine<
    const N: usize,
    M: MotorHal<Com: ComTimerExt>,
    B: Recorder,
    S: Cs,
    A: InjAdc,
    L: LoopTimer,
>(
    sched: &mut Sched,
    drive: &mut Drive,
    zct: &mut ZctTrace<N>,
    duty: &Duty,
    hal: &mut M,
    obs: &mut Observer<B, S, A, L>,
)
    requires
        blend_fits(old(sched).commutation_interval),
        old(drive).current_step < u16::MAX,
        old(zct).ring.wf(),
    ensures
        zc_found(
            World {
                sched: *old(sched),
                drive: *old(drive),
                zct: *old(zct),
                motor: motor_trace(*old(hal)),
                obs: obs_trace(*old(obs)),
            },
            *duty,
            World {
                sched: *final(sched),
                drive: *final(drive),
                zct: *final(zct),
                motor: motor_trace(*final(hal)),
                obs: obs_trace(*final(obs)),
            },
        ),
        final(zct).ring.wf(),
{
    let ghost m0 = motor_trace(*hal);
    let ghost o0 = obs_trace(*obs);
    let (ci, wait) = zcfr_blend(sched, hal);
    let ghost m1 = motor_trace(*hal);
    let ghost s1 = *sched;
    let zc: u32 = drive.zero_crosses;
    zcfr_spin_wait(drive, zc, wait, hal);
    let ghost m2 = motor_trace(*hal);
    let ghost reads = m2.interval.skip(m1.interval.len() as int);
    let ghost spun = *drive;

    hal.com_timer().com_set_arr(low16(wait));
    commutate(sched, drive, hal, obs);
    let ghost commutated = *drive;
    zct.write(sched, drive, duty, &mut obs.cs);
    drive.bemf_counter = 0;
    drive.bad_count = 0;
    drive.zero_crosses = zc.saturating_add(1);

    if ci < POLLING_MODE_CHANGEOVER {
        drive.old_routine = false;
        hal.comp().enable_interrupts();
    }
    proof {
        let m9 = motor_trace(*hal);
        let n = m0.interval.len() as int;
        let count = count_at(m1.interval, n);
        assert(m9.interval == m1.interval + reads);
        assert(count_at(m9.interval, n) == count);
        assert(m9.interval.skip(n + 2) =~= reads);
        assert(m9 =~= found_motor(m0, *old(drive), ci as int, count, reads));
        assert(obs_trace(*obs) =~= (ObsTrace {
            cs: o0.cs + old(zct).write_sections(*sched, *zct),
            ..commutated_obs(o0, s1, spun)
        }));
        assert(*drive == found_drive(commutated, zc, ci as int));
    }
}

/// The run state of a started motor.
pub open spec fn started_drive(sched: Sched, drive: Drive) -> Drive {
    Drive {
        old_routine: true,
        bemf_counter: 0,
        running: true,
        ..commutated_drive(sched, drive)
    }
}

/// `after` is the schedule of a started motor.
pub open spec fn started_sched(sched: Sched, drive: Drive, after: Sched) -> bool {
    &&& after.commutation_interval == STARTUP_INTERVAL_TICKS
    &&& commutated_sched(
        sched,
        drive,
        Sched { commutation_interval: sched.commutation_interval, ..after },
    )
}

/// The motor traces of a start.
pub open spec fn started_motor(m: MotorTrace, drive: Drive) -> MotorTrace {
    let c = commutated_motor(m, drive);
    MotorTrace {
        interval: c.interval.push(HalEvent::SetCount(STARTUP_COUNT)),
        log: c.log.push(HalEvent::SetCount(STARTUP_COUNT)),
        ..c
    }
}

/// Starts a stopped motor in the polling mode. The comparator interrupt
/// stays masked until the changeover.
pub fn start_motor<M: MotorHal, B: Recorder, S: Cs, A: InjAdc, L: LoopTimer>(
    sched: &mut Sched,
    drive: &mut Drive,
    hal: &mut M,
    obs: &mut Observer<B, S, A, L>,
)
    requires
        old(drive).running || old(drive).current_step < u16::MAX,
    ensures
        old(drive).running ==> {
            &&& *final(sched) == *old(sched)
            &&& *final(drive) == *old(drive)
            &&& motor_trace(*final(hal)) == motor_trace(*old(hal))
            &&& obs_trace(*final(obs)) == obs_trace(*old(obs))
        },
        !old(drive).running ==> {
            &&& started_sched(*old(sched), *old(drive), *final(sched))
            &&& *final(drive) == started_drive(*old(sched), *old(drive))
            &&& motor_trace(*final(hal)) == started_motor(motor_trace(*old(hal)), *old(drive))
            &&& obs_trace(*final(obs)) == commutated_obs(
                obs_trace(*old(obs)),
                *old(sched),
                *old(drive),
            )
        },
{
    if !drive.running {
        commutate(sched, drive, hal, obs);
        sched.commutation_interval = STARTUP_INTERVAL_TICKS;
        hal.interval().set_count(STARTUP_COUNT);
        drive.old_routine = true;
        drive.bemf_counter = 0;
        drive.running = true;
    }
}

/// The motor traces of a stop: every switch off first, then comparator and
/// commutation timer masked.
pub open spec fn stopped_motor(m: MotorTrace) -> MotorTrace {
    MotorTrace {
        phase: m.phase.push(HalEvent::AllOff),
        comp: m.comp.push(HalEvent::MaskComp),
        com: m.com.push(HalEvent::ComOff),
        log: m.log.push(HalEvent::AllOff).push(HalEvent::MaskComp).push(HalEvent::ComOff),
        ..m
    }
}

/// The duty pipeline of a stop.
pub open spec fn stopped_duty(duty: Duty) -> Duty {
    Duty { duty_cycle_setpoint: 0, duty_cycle: 0, last_duty_cycle: 0, ..duty }
}

/// The run state of a safety kill.
pub open spec fn killed_drive(drive: Drive) -> Drive {
    Drive { running: false, old_routine: true, ..drive }
}

/// The duty pipeline of a safety kill.
pub open spec fn killed_duty(duty: Duty, reason: u16) -> Duty {
    Duty { kill_reason: reason, killed: true, ..stopped_duty(duty) }
}

/// Safety kill: float every leg, latch the reason, mask the interrupts and
/// freeze the black box.
pub fn safety_kill<M: MotorHal, B: Recorder, S: Cs, A: InjAdc, L: LoopTimer>(
    drive: &mut Drive,
    duty: &mut Duty,
    hal: &mut M,
    obs: &mut Observer<B, S, A, L>,
    reason: u16,
)
    ensures
        *final(drive) == killed_drive(*old(drive)),
        *final(duty) == killed_duty(*old(duty), reason),
        motor_trace(*final(hal)) == stopped_motor(motor_trace(*old(hal))),
        obs_trace(*final(obs)) == (ObsTrace {
            bb: obs_trace(*old(obs)).bb.push(HalEvent::Freeze),
            ..obs_trace(*old(obs))
        }),
{
    hal.phase().all_off();
    drive.running = false;
    duty.duty_cycle_setpoint = 0;
    duty.duty_cycle = 0;
    duty.last_duty_cycle = 0;
    drive.old_routine = true;
    hal.comp().mask_interrupts();
    hal.com_timer().disable_interrupt();
    duty.kill_reason = reason;
    duty.killed = true;
    obs.bb.freeze();
}

/// The state and the traces after a look at the stop request.
pub open spec fn stop_honored(
    bench: Bench,
    drive: Drive,
    duty: Duty,
    motor: MotorTrace,
    drive2: Drive,
    duty2: Duty,
    motor2: MotorTrace,
) -> bool {
    if bench.stop_req {
        &&& drive2 == (Drive { running: false, old_routine: true, zero_crosses: 0, ..drive })
        &&& duty2 == stopped_duty(duty)
        &&& motor2 == stopped_motor(motor)
    } else {
        drive2 == drive && duty2 == duty && motor2 == motor
    }
}

/// Honors a pending stop request, once: float, disarm, mask, and zero the
/// pipeline.
pub fn honor_stop<M: MotorHal>(
    drive: &mut Drive,
    duty: &mut Duty,
    bench: &mut Bench,
    hal: &mut M,
)
    ensures
        *final(bench) == (Bench { stop_req: false, ..*old(bench) }),
        stop_honored(
            *old(bench),
            *old(drive),
            *old(duty),
            motor_trace(*old(hal)),
            *final(drive),
            *final(duty),
            motor_trace(*final(hal)),
        ),
{
    if bench.stop_req {
        bench.stop_req = false;
        hal.phase().all_off();
        drive.running = false;
        drive.old_routine = true;
        drive.zero_crosses = 0;
        duty.duty_cycle_setpoint = 0;
        duty.duty_cycle = 0;
        duty.last_duty_cycle = 0;
        hal.comp().mask_interrupts();
        hal.com_timer().disable_interrupt();
    }
}

/// The carrier reload of a commutation interval.
pub open spec fn ridden_arr(ci: u32, base_arr: u16) -> int {
    mapped(signed32(ci), 96, 200, base_arr as int / 2, base_arr as int)
}

/// The carrier rides the commutation interval, between half the base reload
/// and the base. The reload is kept, so that duties are scaled to it.
pub fn variable_pwm_ride<M: MotorHal>(sched: &Sched, duty: &mut Duty, base_arr: u16, hal: &mut M)
    ensures
        *final(duty) == (Duty {
            tim1_arr: ridden_arr(sched.commutation_interval, base_arr) as u16,
            ..*old(duty)
        }),
        motor_trace(*final(hal)) == (MotorTrace {
            pwm: motor_trace(*old(hal)).pwm.push(
                HalEvent::AutoReload(ridden_arr(sched.commutation_interval, base_arr) as u16),
            ),
            log: motor_trace(*old(hal)).log.push(
                HalEvent::AutoReload(ridden_arr(sched.commutation_interval, base_arr) as u16),
            ),
            ..motor_trace(*old(hal))
        }),
{
    if VARIABLE_PWM == 1 {
        let ci: i32 = to_signed32(sched.commutation_interval);
        proof {
            lemma_map_fits(ci as int, 96, 200, base_arr as int / 2, base_arr as int);
            law_map_stays_in_range(ci as int, 96, 200, base_arr as int / 2, base_arr as int);
        }
        let arr: i32 = crate::am32::map(ci, 96, 200, (base_arr / 2) as i32, base_arr as i32);
        duty.tim1_arr = arr as u16;
        hal.pwm().set_auto_reload(arr as u16);
    }
}

/// The state from which a timed-out motor is kicked again: polling, no
/// zero-crosses, and stopped at the idle interval when the throttle is off.
pub open spec fn timed_out<const N: usize>(w: World<N>, input: u16, count: u32) -> World<N> {
    World {
        sched: if input < 48 {
            Sched { commutation_interval: IDLE_INTERVAL_TICKS, ..w.sched }
        } else {
            w.sched
        },
        drive: Drive {
            bemf_timeout_happened: w.drive.bemf_timeout_happened.wrapping_add(1),
            old_routine: true,
            running: w.drive.running && input >= 48,
            zero_crosses: 0,
            ..w.drive
        },
        motor: MotorTrace {
            interval: w.motor.interval.push(HalEvent::Count(count)),
            comp: w.motor.comp.push(HalEvent::MaskComp),
            log: w.motor.log.push(HalEvent::Count(count)).push(HalEvent::MaskComp),
            ..w.motor
        },
        ..w
    }
}

/// `after` follows from `before` by a look at the interval count: a running
/// motor past the timeout is kicked, and nothing else happens.
pub open spec fn rekick_served<const N: usize>(
    before: World<N>,
    duty: Duty,
    running: bool,
    after: World<N>,
) -> bool {
    let count = count_at(after.motor.interval, before.motor.interval.len() as int);
    if count > BEMF_TIMEOUT_TICKS && running {
        zc_found(timed_out(before, duty.input, count), duty, after)
    } else {
        &&& after.motor == (MotorTrace {
            interval: before.motor.interval.push(HalEvent::Count(count)),
            log: before.motor.log.push(HalEvent::Count(count)),
            ..before.motor
        })
        &&& after.sched == before.sched
        &&& after.drive == before.drive
        &&& after.zct == before.zct
        &&& after.obs == before.obs
    }
}

/// Kicks a running motor whose zero-cross did not come in time.
pub fn bemf_timeout_rekick<
    const N: usize,
    M: MotorHal<Com: ComTimerExt>,
    B: Recorder,
    S: Cs,
    A: InjAdc,
    L: LoopTimer,
>(
    sched: &mut Sched,
    drive: &mut Drive,
    duty: &Duty,
    zct: &mut ZctTrace<N>,
    hal: &mut M,
    obs: &mut Observer<B, S, A, L>,
    running: bool,
)
    requires
        running ==> {
            &&& duty.input < 48 || blend_fits(old(sched).commutation_interval)
            &&& old(drive).current_step < u16::MAX
            &&& old(zct).ring.wf()
        },
    ensures
        ({
            let before = World {
                sched: *old(sched),
                drive: *old(drive),
                zct: *old(zct),
                motor: motor_trace(*old(hal)),
                obs: obs_trace(*old(obs)),
            };
            let after = World {
                sched: *final(sched),
                drive: *final(drive),
                zct: *final(zct),
                motor: motor_trace(*final(hal)),
                obs: obs_trace(*final(obs)),
            };
            rekick_served(before, *duty, running, after)
        }),
        running ==> final(zct).ring.wf(),
{
    let ghost n = motor_trace(*hal).interval.len() as int;
    let count: u32 = hal.interval().count();
    let ghost m1 = motor_trace(*hal);
    if count > BEMF_TIMEOUT_TICKS && running {
        drive.bemf_timeout_happened = drive.bemf_timeout_happened.wrapping_add(1);
        hal.comp().mask_interrupts();
        drive.old_routine = true;
        if duty.input < 48 {
            drive.running = false;
            sched.commutation_interval = IDLE_INTERVAL_TICKS;
        }
        drive.zero_crosses = 0;
        let ghost mid = World {
            sched: *sched,
            drive: *drive,
            zct: *zct,
            motor: motor_trace(*hal),
            obs: obs_trace(*obs),
        };
        zcfoundroutine(sched, drive, zct, duty, hal, obs);
        proof {
            assert(mid.motor.interval[n] == HalEvent::Count(count));
            assert(motor_trace(*hal).interval[n] == mid.motor.interval[n]);
            assert(mid == timed_out(
                World {
                    sched: *old(sched),
                    drive: *old(drive),
                    zct: *old(zct),
                    motor: motor_trace(*old(hal)),
                    obs: obs_trace(*old(obs)),
                },
                duty.input,
                count,
            ));
        }
    }
}

/// A revolution completed with enough zero-crosses to judge by.
pub open spec fn desync_judged(drive: Drive) -> bool {
    drive.desync_check && drive.zero_crosses > 10
}

/// The average interval jumped by more than half of itself, above the speed
/// floor.
pub open spec fn interval_jumped(last: u32, avg: u32) -> bool {
    distance(signed32(last), signed32(avg)) > avg / 2 && avg < 2000
}

/// The state and the traces after a desync check.
pub open spec fn desync_served(
    sched: Sched,
    drive: Drive,
    duty: Duty,
    obs: ObsTrace,
    avg: u32,
    sched2: Sched,
    drive2: Drive,
    duty2: Duty,
    obs2: ObsTrace,
) -> bool {
    if !desync_judged(drive) {
        sched2 == sched && drive2 == drive && duty2 == duty && obs2 == obs
    } else {
        &&& sched2 == (Sched { last_average_interval: avg, ..sched })
        &&& if interval_jumped(sched.last_average_interval, avg) {
            &&& drive2 == (Drive {
                desync_check: false,
                zero_crosses: 0,
                desync_happened: drive.desync_happened.wrapping_add(1),
                running: drive.running && duty.input <= 47 && sched.commutation_interval <= 1000,
                old_routine: true,
                ..drive
            })
            &&& duty2 == (Duty { last_duty_cycle: MIN_STARTUP_DUTY / 2, ..duty })
            &&& obs2 == (ObsTrace {
                bb: obs.bb.push(
                    HalEvent::Record(
                        EV_DSY,
                        ((drive.current_step - 1) % 0x100) as u8,
                        (avg % 0x1_0000) as u16,
                    ),
                ),
                ..obs
            })
        } else {
            &&& drive2 == (Drive { desync_check: false, ..drive })
            &&& duty2 == duty
            &&& obs2 == obs
        }
    }
}

/// Checks for a desync once per revolution: a jump of the average interval
/// drops the motor back to polling at half the startup duty, and stops it
/// unless it is slow with the throttle off.
pub fn desync_check_band<B: Recorder, S: Cs, A: InjAdc, L: LoopTimer>(
    sched: &mut Sched,
    drive: &mut Drive,
    duty: &mut Duty,
    obs: &mut Observer<B, S, A, L>,
    average_interval: u32,
)
    requires
        desync_judged(*old(drive)) ==> {
            &&& i32::MIN <= signed32(old(sched).last_average_interval) - signed32(average_interval)
                <= i32::MAX
            &&& interval_jumped(old(sched).last_average_interval, average_interval) ==> old(
                drive,
            ).current_step >= 1
        },
    ensures
        desync_served(
            *old(sched),
            *old(drive),
            *old(duty),
            obs_trace(*old(obs)),
            average_interval,
            *final(sched),
            *final(drive),
            *final(duty),
            obs_trace(*final(obs)),
        ),
{
    if drive.desync_check && drive.zero_crosses > 10 {
        if desync_due(sched.last_average_interval, average_interval) {
            drive.zero_crosses = 0;
            drive.desync_happened = drive.desync_happened.wrapping_add(1);
            if duty.input > 47 || sched.commutation_interval > 1000 {
                drive.running = false;
            }
            drive.old_routine = true;
            duty.last_duty_cycle = MIN_STARTUP_DUTY / 2;
            obs.bb.record(EV_DSY, low8(drive.current_step - 1), low16(average_interval));
        }
        drive.desync_check = false;
        sched.last_average_interval = average_interval;
    }
}

/// An armed input starts a stopped motor of the interrupt mode.
pub open spec fn arming_starts(drive: Drive, input: u16) -> bool {
    input >= 47 && !drive.running && !drive.old_routine
}

/// Arms or disarms the drive for an input: an armed input sets a stopped
/// motor running from the startup duty, and starts it unless it polls
/// already; a low input keeps a stopped motor reset.
pub fn set_input_arming<M: MotorHal, B: Recorder, S: Cs, A: InjAdc, L: LoopTimer>(
    sched: &mut Sched,
    drive: &mut Drive,
    duty: &mut Duty,
    hal: &mut M,
    obs: &mut Observer<B, S, A, L>,
    input: u16,
)
    requires
        arming_starts(*old(drive), input) ==> old(drive).current_step < u16::MAX,
    ensures
        arming(
            *old(sched),
            *old(drive),
            motor_trace(*old(hal)),
            obs_trace(*old(obs)),
            input,
            *final(sched),
            *final(drive),
            motor_trace(*final(hal)),
            obs_trace(*final(obs)),
        ),
        *final(duty) == armed_duty(*old(duty), *old(drive), input),
{
    if input >= 47 {
        if !drive.running {
            hal.phase().all_off();
            if !drive.old_routine {
                start_motor(sched, drive, hal, obs);
            }
            drive.running = true;
            duty.last_duty_cycle = MIN_STARTUP_DUTY;
        }
    } else {
        if !drive.running {
            drive.old_routine = true;
            drive.zero_crosses = 0;
            drive.bad_count = 0;
            hal.phase().all_off();
        }
    }
}

/// The state and the traces after arming or disarming for an input.
pub open spec fn arming(
    sched: Sched,
    drive: Drive,
    motor: MotorTrace,
    obs: ObsTrace,
    input: u16,
    sched2: Sched,
    drive2: Drive,
    motor2: MotorTrace,
    obs2: ObsTrace,
) -> bool {
    let off = MotorTrace {
        phase: motor.phase.push(HalEvent::AllOff),
        log: motor.log.push(HalEvent::AllOff),
        ..motor
    };
    if drive.running {
        sched2 == sched && drive2 == drive && motor2 == motor && obs2 == obs
    } else if arming_starts(drive, input) {
        &&& started_sched(sched, drive, sched2)
        &&& drive2 == started_drive(sched, drive)
        &&& motor2 == started_motor(off, drive)
        &&& obs2 == commutated_obs(obs, sched, drive)
    } else {
        &&& sched2 == sched
        &&& drive2 == if input >= 47 {
            Drive { running: true, ..drive }
        } else {
            Drive { old_routine: true, zero_crosses: 0, bad_count: 0, ..drive }
        }
        &&& motor2 == off
        &&& obs2 == obs
    }
}

/// The duty pipeline after arming for an input.
pub open spec fn armed_duty(duty: Duty, drive: Drive, input: u16) -> Duty {
    if input >= 47 && !drive.running {
        Duty { last_duty_cycle: MIN_STARTUP_DUTY, ..duty }
    } else {
        duty
    }
}

/// The duty pipeline after the commanded throttle was taken, with the
/// zero-crosses as arming left them.
pub open spec fn input_duty(duty: Duty, drive: Drive, zero_crosses: u32) -> Duty {
    let input = duty.uart_duty_input;
    Duty {
        input,
        duty_cycle_setpoint: clamped_setpoint(
            input,
            zero_crosses,
            duty.duty_cycle_maximum,
        ) as u16,
        ..armed_duty(duty, drive, input)
    }
}

/// Takes the commanded throttle: arms or disarms, then sets the duty asked
/// for.
pub fn set_input<M: MotorHal, B: Recorder, S: Cs, A: InjAdc, L: LoopTimer>(
    sched: &mut Sched,
    drive: &mut Drive,
    duty: &mut Duty,
    hal: &mut M,
    obs: &mut Observer<B, S, A, L>,
)
    requires
        arming_starts(*old(drive), old(duty).uart_duty_input) ==> old(drive).current_step
            < u16::MAX,
    ensures
        ({
            let input = old(duty).uart_duty_input;
            &&& arming(
                *old(sched),
                *old(drive),
                motor_trace(*old(hal)),
                obs_trace(*old(obs)),
                input,
                *final(sched),
                *final(drive),
                motor_trace(*final(hal)),
                obs_trace(*final(obs)),
            )
            &&& *final(duty) == input_duty(*old(duty), *old(drive), final(drive).zero_crosses)
        }),
{
    let input: u16 = duty.uart_duty_input;
    duty.input = input;
    set_input_arming(sched, drive, duty, hal, obs, input);
    set_input_clamp(drive, duty, input);
}

/// The level read at place `i` of a trace.
pub open spec fn level_at(t: Seq<HalEvent>, i: int) -> bool {
    t[i]->Level_0
}

/// The run state after one polled level read.
pub open spec fn polled_drive(drive: Drive, level: bool) -> Drive {
    if level == drive.rising {
        Drive { bemf_counter: drive.bemf_counter.saturating_add(1), ..drive }
    } else {
        Drive {
            bemf_counter: if drive.bad_count + 1 > BAD_COUNT_THRESHOLD {
                0
            } else {
                drive.bemf_counter
            },
            bad_count: (drive.bad_count + 1) as u16,
            ..drive
        }
    }
}

/// Reads the level once: it counts when it matches the step's edge.
pub fn get_bemf_state<C: Comparator>(drive: &mut Drive, comp: &mut C)
    requires
        old(drive).bad_count < u16::MAX,
    ensures
        ({
            let level = level_at(final(comp).trace(), old(comp).trace().len() as int);
            &&& final(comp).trace() == old(comp).trace().push(HalEvent::Level(level))
            &&& *final(drive) == polled_drive(*old(drive), level)
        }),
{
    let level: bool = comp.output_level();
    let (bemf, bad) = bemf_count_step(
        drive.bemf_counter,
        drive.bad_count,
        level == drive.rising,
        BAD_COUNT_THRESHOLD,
    );
    drive.bemf_counter = bemf;
    drive.bad_count = bad;
}

/// Six commutations from any valid step come back to it, and exactly one of
/// them asks for a desync check.
pub proof fn law_six_steps_make_a_revolution(step: u16)
    requires
        1 <= step <= 6,
    ensures
        ({
            let s1 = next_step(step);
            let s2 = next_step(s1);
            let s3 = next_step(s2);
            let s4 = next_step(s3);
            let s5 = next_step(s4);
            &&& next_step(s5) == step
            &&& 1 <= s1 <= 6
            &&& s1 % 2 != step % 2
            &&& (step >= 6) as int + (s1 >= 6) as int + (s2 >= 6) as int + (s3 >= 6) as int + (s4
                >= 6) as int + (s5 >= 6) as int == 1
        }),
{
}

/// A spin wait always ends: it reads at most its bound, and it reports
/// giving up exactly when no read reached the wait.
pub proof fn law_spin_wait_is_bounded(reads: Seq<HalEvent>, zc: u32, wait: u32)
    requires
        spin_reads(reads, zc, wait),
        zc >= 5,
    ensures
        reads.len() <= SPIN_READS_MAX,
        spin_ran_out(reads, zc, wait) <==> forall|i: int|
            0 <= i < reads.len() ==> (#[trigger] count_at(reads, i)) < wait,
{
    let n = reads.len() as int;
    if spin_ran_out(reads, zc, wait) {
        assert forall|i: int| 0 <= i < n implies (#[trigger] count_at(reads, i)) < wait by {
            if i < n - 1 {
                assert(reads[i]->Count_0 < wait);
            }
        }
    } else {
        assert(count_at(reads, n - 1) >= wait);
    }
}

/// The carrier stays between half the base reload and the base.
pub proof fn law_carrier_ride_is_bounded(ci: u32, base_arr: u16)
    ensures
        base_arr / 2 <= ridden_arr(ci, base_arr) <= base_arr,
{
    law_map_stays_in_range(signed32(ci), 96, 200, base_arr as int / 2, base_arr as int);
}

/// A blend keeps the interval between the old one and the new zero-cross
/// time, up to rounding, so a history of sane times cannot run away.
pub proof fn law_blend_stays_between(ci: u32, thiszc: u16)
    ensures
        thiszc <= ci ==> thiszc <= polled_interval(ci, thiszc) <= ci,
        ci <= thiszc ==> ci <= polled_interval(ci, thiszc) <= thiszc,
{
}

/// A commutation moves the bridge to the next of the six steps, tells the
/// comparator that step and its edge (rising for odd steps), and files the
/// interval under the step's sector. It forgets the step's reads, asks for a
/// desync check when the sixth step wraps, and falls back to polling when the
/// average interval is over 2500 ticks. Nothing else of the schedule moves.
#[verifier::spinoff_prover]
#[verifier::rlimit(40)]
pub proof fn law_commutation_takes_the_next_step(
    sched: Sched,
    drive: Drive,
    motor: MotorTrace,
    obs: ObsTrace,
    sched2: Sched,
)
    requires
        1 <= drive.current_step <= 6,
        commutated_sched(sched, drive, sched2),
    ensures
        ({
            let k = drive.current_step as int % 6 + 1;
            let d = commutated_drive(sched, drive);
            let m = commutated_motor(motor, drive);
            &&& d.current_step == k
            &&& d.rising == (k == 1 || k == 3 || k == 5)
            &&& m.phase.last() == HalEvent::ComStep(k as u8)
            &&& m.phase.len() == motor.phase.len() + 1
            &&& m.comp.len() == motor.comp.len() + 2
            &&& m.comp[motor.comp.len() as int] == HalEvent::Step(k as u8, d.rising)
            &&& m.comp.last() == HalEvent::ChangeInput
            &&& m.log.len() == motor.log.len() + 3
            &&& m.log[motor.log.len() as int] == HalEvent::ComStep(k as u8)
            &&& m.pwm == motor.pwm && m.com == motor.com && m.interval == motor.interval
            &&& sched2.interval_hist@[k - 1] == sched.commutation_interval
            &&& forall|i: int|
                0 <= i < 6 && i != k - 1 ==> #[trigger] sched2.interval_hist@[i]
                    == sched.interval_hist@[i]
            &&& sched2.commutation_interval == sched.commutation_interval
            &&& sched2.this_zc == sched.this_zc && sched2.last_zc == sched.last_zc
            &&& sched2.wait_time == sched.wait_time
            &&& sched2.average_interval == sched.average_interval
            &&& d.bemf_counter == 0 && !d.zcfound
            &&& d.desync_check == (drive.desync_check || drive.current_step == 6)
            &&& d.old_routine == (drive.old_routine || sched.average_interval >= 2501)
            &&& d.running == drive.running && d.zero_crosses == drive.zero_crosses
            &&& commutated_obs(obs, sched, drive).bb.last() == HalEvent::Record(
                0,
                (k - 1) as u8,
                (sched.commutation_interval % 65_536) as u16,
            )
        }),
{
    assert(sched.interval_hist@.len() == 6);
}

/// The wait of an interval is a quarter of it, up to a rounding: half the
/// interval less an advance of a quarter.
pub proof fn law_wait_is_a_quarter(ci: int, longer: int)
    requires
        0 <= ci <= longer,
    ensures
        ci - 1 <= 4 * wait_of(ci) <= ci + 2,
        wait_of(ci) <= wait_of(longer) + 1,
{
}

/// A polled crossing blends one part of its time into three of the interval,
/// up to rounding down, waits a quarter of the result, takes the next step,
/// and counts. Under 2000 ticks the comparator interrupt takes over; from
/// there on the motor keeps polling if it did.
#[verifier::spinoff_prover]
#[verifier::rlimit(40)]
pub proof fn law_polled_crossing_follows_the_rotor<const N: usize>(
    before: World<N>,
    duty: Duty,
    after: World<N>,
)
    requires
        zc_found(before, duty, after),
        blend_fits(before.sched.commutation_interval),
        1 <= before.drive.current_step <= 6,
    ensures
        ({
            let time = count_at(after.motor.interval, before.motor.interval.len() as int) as int
                % 65_536;
            let was = before.sched.commutation_interval;
            let now = after.sched.commutation_interval;
            &&& after.sched.this_zc == time
            &&& after.sched.last_zc == before.sched.last_zc
            &&& 3 * was + time - 3 <= 4 * now <= 3 * was + time
            &&& now <= 200_000 ==> now - 1 <= 4 * after.sched.wait_time <= now + 2
            &&& after.drive.current_step == before.drive.current_step as int % 6 + 1
            &&& before.drive.zero_crosses < u32::MAX ==> after.drive.zero_crosses
                == before.drive.zero_crosses + 1
            &&& after.drive.bemf_counter == 0 && after.drive.bad_count == 0
            &&& now < 2000 ==> !after.drive.old_routine && after.motor.comp.last()
                == HalEvent::EnableComp
            &&& now >= 2000 ==> after.motor.comp.last() == HalEvent::ChangeInput && (
            before.drive.old_routine ==> after.drive.old_routine)
            &&& after.motor.interval[before.motor.interval.len() as int + 1] == HalEvent::SetCount(0)
            &&& after.motor.com.last() == HalEvent::ComReload(after.sched.wait_time)
            &&& after.drive.running == before.drive.running
        }),
{
}

/// A spin wait reads the timer until it shows the wait, and gives up after
/// 65 536 reads; a motor with fewer than five crossings reads once.
pub proof fn law_spin_wait_reaches_the_wait(reads: Seq<HalEvent>, zc: u32, wait: u32, drive: Drive)
    requires
        spin_reads(reads, zc, wait),
    ensures
        1 <= reads.len() <= 65_536,
        zc <= 4 ==> reads.len() == 1,
        forall|i: int| 0 <= i < reads.len() - 1 ==> (#[trigger] count_at(reads, i)) < wait,
        zc >= 5 && reads.len() < 65_536 ==> count_at(reads, reads.len() - 1) >= wait,
        spun_drive(drive, reads, zc, wait).zcfr_guard_hits != drive.zcfr_guard_hits ==> reads.len()
            == 65_536 && count_at(reads, reads.len() - 1) < wait,
        zc >= 5 && reads.len() == 65_536 && count_at(reads, reads.len() - 1) < wait
            ==> spun_drive(drive, reads, zc, wait).zcfr_guard_hits
            == drive.zcfr_guard_hits.wrapping_add(1),
        spun_drive(drive, reads, zc, wait) == (Drive {
            zcfr_guard_hits: spun_drive(drive, reads, zc, wait).zcfr_guard_hits,
            ..drive
        }),
{
    assert forall|i: int| 0 <= i < reads.len() - 1 implies (#[trigger] count_at(reads, i))
        < wait by {
        assert(reads[i]->Count_0 < wait);
    }
}

/// A start takes one step, polls, runs, and begins at an interval of 10 000
/// ticks with the interval count at 5000.
pub proof fn law_start_begins_slow(sched: Sched, drive: Drive, motor: MotorTrace, sched2: Sched)
    requires
        1 <= drive.current_step <= 6,
        started_sched(sched, drive, sched2),
    ensures
        ({
            let d = started_drive(sched, drive);
            let m = started_motor(motor, drive);
            &&& sched2.commutation_interval == 10_000
            &&& sched2.average_interval == sched.average_interval
            &&& d.running && d.old_routine
            &&& d.bemf_counter == 0 && !d.zcfound
            &&& d.current_step == drive.current_step as int % 6 + 1
            &&& m.interval == motor.interval.push(HalEvent::SetCount(5_000))
            &&& m.log.last() == HalEvent::SetCount(5_000)
            &&& m.phase == motor.phase.push(HalEvent::ComStep(d.current_step as u8))
            &&& m.comp.last() == HalEvent::ChangeInput
        }),
{
}

/// A kill and an honored stop both leave the motor off: the switches first,
/// then the comparator and the commutation timer, and no duty left. A kill
/// latches and names its reason; a stop does neither, and forgets the
/// crossings.
pub proof fn law_stops_leave_nothing_on(
    bench: Bench,
    drive: Drive,
    duty: Duty,
    motor: MotorTrace,
    reason: u16,
    drive2: Drive,
    duty2: Duty,
    motor2: MotorTrace,
)
    requires
        stop_honored(bench, drive, duty, motor, drive2, duty2, motor2),
    ensures
        stopped_motor(motor).log == motor.log + seq![
            HalEvent::AllOff,
            HalEvent::MaskComp,
            HalEvent::ComOff,
        ],
        stopped_motor(motor).phase.last() == HalEvent::AllOff,
        stopped_motor(motor).comp.last() == HalEvent::MaskComp,
        stopped_motor(motor).com.last() == HalEvent::ComOff,
        !killed_drive(drive).running && killed_drive(drive).old_routine,
        killed_duty(duty, reason).killed && killed_duty(duty, reason).kill_reason == reason,
        killed_duty(duty, reason).duty_cycle == 0,
        killed_duty(duty, reason).duty_cycle_setpoint == 0,
        killed_duty(duty, reason).last_duty_cycle == 0,
        killed_duty(duty, reason).uart_duty_input == duty.uart_duty_input,
        bench.stop_req ==> {
            &&& !drive2.running && drive2.old_routine && drive2.zero_crosses == 0
            &&& duty2.duty_cycle == 0 && duty2.duty_cycle_setpoint == 0
            &&& duty2.last_duty_cycle == 0
            &&& duty2.killed == duty.killed && duty2.kill_reason == duty.kill_reason
            &&& motor2.log.len() == motor.log.len() + 3
            &&& motor2.log[motor.log.len() as int] == HalEvent::AllOff
            &&& motor2.comp.last() == HalEvent::MaskComp && motor2.com.last() == HalEvent::ComOff
        },
        !bench.stop_req ==> drive2 == drive && duty2 == duty && motor2 == motor,
{
    assert(stopped_motor(motor).log =~= motor.log + seq![
        HalEvent::AllOff,
        HalEvent::MaskComp,
        HalEvent::ComOff,
    ]);
}

/// The carrier reload is half the base up to 96 ticks, the base from 200 on,
/// three quarters of it half way, and never shorter for a slower motor.
pub proof fn law_carrier_rides_the_interval(fast: u32, slow: u32, base_arr: u16)
    requires
        fast <= slow <= i32::MAX,
    ensures
        fast <= 96 ==> ridden_arr(fast, base_arr) == base_arr / 2,
        fast == 148 ==> ridden_arr(fast, base_arr) == (base_arr / 2 + base_arr) / 2,
        fast >= 200 ==> ridden_arr(fast, base_arr) == base_arr,
        ridden_arr(fast, base_arr) <= ridden_arr(slow, base_arr),
{
    let base = base_arr as int;
    law_map_meets_ends_and_middles(96, 200, base / 2, base, 0);
    law_map_is_monotone(fast as int, slow as int, 96, 200, base / 2, base);
}

/// A motor is kicked exactly when it runs and its count is over 45 000 ticks:
/// it polls with one crossing, and the timeout is counted. With the throttle
/// off (an input under 48) it stops, from an interval of 5000 ticks; otherwise
/// it runs on from its own.
#[verifier::spinoff_prover]
#[verifier::rlimit(40)]
pub proof fn law_rekick_restarts_a_lost_motor<const N: usize>(
    before: World<N>,
    duty: Duty,
    running: bool,
    after: World<N>,
)
    requires
        rekick_served(before, duty, running, after),
        duty.input < 48 || blend_fits(before.sched.commutation_interval),
        1 <= before.drive.current_step <= 6,
    ensures
        ({
            let count = count_at(after.motor.interval, before.motor.interval.len() as int);
            &&& running && count >= 45_001 ==> {
                let time = count_at(
                    after.motor.interval,
                    before.motor.interval.len() as int + 1,
                ) as int % 65_536;
                let from = if duty.input <= 47 {
                    5_000
                } else {
                    before.sched.commutation_interval as int
                };
                &&& after.drive.zero_crosses == 1
                &&& after.drive.bemf_timeout_happened
                    == before.drive.bemf_timeout_happened.wrapping_add(1)
                &&& after.drive.running == (before.drive.running && duty.input >= 48)
                &&& after.drive.current_step == before.drive.current_step as int % 6 + 1
                &&& 3 * from + time - 3 <= 4 * after.sched.commutation_interval <= 3 * from + time
                &&& after.sched.commutation_interval >= 2000 ==> after.drive.old_routine
                &&& after.motor.comp[before.motor.comp.len() as int] == HalEvent::MaskComp
            }
            &&& !running || count <= 45_000 ==> {
                &&& after.sched == before.sched && after.drive == before.drive
                &&& after.motor.phase == before.motor.phase
                &&& after.motor.comp == before.motor.comp
            }
        }),
{
    let n = before.motor.interval.len() as int;
    let count = count_at(after.motor.interval, n);
    if running && count > BEMF_TIMEOUT_TICKS {
        let mid = timed_out(before, duty.input, count);
        assert(mid.motor.interval.len() == n + 1);
        law_polled_crossing_follows_the_rotor(mid, duty, after);
        let reads = after.motor.interval.skip(n + 3);
        assert(after.motor.comp[before.motor.comp.len() as int] == mid.motor.comp.last());
    }
}

/// A desync is judged once per revolution, and only past ten crossings. A
/// fast motor whose average was over three halves or is over twice what it
/// was polls again from a duty of 72, with its crossings forgotten, and stops
/// under a throttle or at an interval over 1000; any other goes on as it was.
pub proof fn law_desync_drops_back_to_polling(
    sched: Sched,
    drive: Drive,
    duty: Duty,
    obs: ObsTrace,
    avg: u32,
    sched2: Sched,
    drive2: Drive,
    duty2: Duty,
    obs2: ObsTrace,
)
    requires
        desync_served(sched, drive, duty, obs, avg, sched2, drive2, duty2, obs2),
        sched.last_average_interval <= i32::MAX,
        avg <= i32::MAX,
    ensures
        ({
            let last = sched.last_average_interval;
            let judged = drive.desync_check && drive.zero_crosses >= 11;
            let lost = judged && avg < 2000 && (2 * last > 3 * avg || 2 * last < avg);
            &&& !judged ==> drive2 == drive && duty2 == duty && sched2 == sched && obs2 == obs
            &&& judged ==> !drive2.desync_check && sched2.last_average_interval == avg
            &&& sched2.commutation_interval == sched.commutation_interval
            &&& lost ==> {
                &&& drive2.zero_crosses == 0 && drive2.old_routine
                &&& drive2.desync_happened == drive.desync_happened.wrapping_add(1)
                &&& duty.input >= 48 || sched.commutation_interval >= 1001 ==> !drive2.running
                &&& duty.input <= 47 && sched.commutation_interval <= 1000 ==> drive2.running
                    == drive.running
                &&& duty2.last_duty_cycle == 72
                &&& duty2 == (Duty { last_duty_cycle: 72, ..duty })
                &&& obs2.bb.len() == obs.bb.len() + 1
                &&& obs2.bb.last() == HalEvent::Record(
                    6,
                    ((drive.current_step - 1) % 256) as u8,
                    (avg as int % 65_536) as u16,
                )
            }
            &&& judged && !lost ==> {
                &&& drive2 == (Drive { desync_check: false, ..drive })
                &&& duty2 == duty && obs2 == obs
            }
        }),
{
}

/// Arming: a running motor is left alone. A stopped one is floated; an input
/// from 47 up sets it running from a duty of 145, with a start unless it
/// polls already, and a lower input leaves it stopped, polling, and without
/// crossings or bad reads.
pub proof fn law_arming_takes_an_input_of_47(
    sched: Sched,
    drive: Drive,
    motor: MotorTrace,
    obs: ObsTrace,
    duty: Duty,
    input: u16,
    sched2: Sched,
    drive2: Drive,
    motor2: MotorTrace,
    obs2: ObsTrace,
)
    requires
        arming(sched, drive, motor, obs, input, sched2, drive2, motor2, obs2),
        1 <= drive.current_step <= 6,
    ensures
        drive.running ==> drive2 == drive && sched2 == sched && motor2 == motor && armed_duty(
            duty,
            drive,
            input,
        ) == duty,
        !drive.running ==> motor2.phase[motor.phase.len() as int] == HalEvent::AllOff,
        !drive.running && input >= 47 ==> {
            &&& drive2.running
            &&& armed_duty(duty, drive, input) == (Duty { last_duty_cycle: 145, ..duty })
            &&& drive.old_routine ==> motor2.phase.len() == motor.phase.len() + 1 && sched2 == sched
            &&& !drive.old_routine ==> drive2.old_routine && sched2.commutation_interval == 10_000
                && motor2.phase.last() == HalEvent::ComStep(
                (drive.current_step as int % 6 + 1) as u8,
            )
        },
        !drive.running && input <= 46 ==> {
            &&& !drive2.running && drive2.old_routine
            &&& drive2.zero_crosses == 0 && drive2.bad_count == 0
            &&& sched2 == sched && armed_duty(duty, drive, input) == duty
            &&& motor2.phase.len() == motor.phase.len() + 1
        },
{
}

/// Taking the throttle takes the commanded input, and asks for the duty that
/// it stands for: nothing below 47, never more than the ceiling, and for a
/// settled motor 45 at 47 and 2000 at full throttle.
pub proof fn law_input_asks_for_its_duty(duty: Duty, drive: Drive, zero_crosses: u32)
    ensures
        ({
            let d = input_duty(duty, drive, zero_crosses);
            let input = duty.uart_duty_input;
            &&& d.input == input && d.uart_duty_input == input
            &&& d.duty_cycle_setpoint <= duty.duty_cycle_maximum
            &&& input <= 46 ==> d.duty_cycle_setpoint == 0
            &&& zero_crosses >= 30 && duty.duty_cycle_maximum >= 2000 ==> {
                &&& input == 47 ==> d.duty_cycle_setpoint == 45
                &&& input == 1047 ==> d.duty_cycle_setpoint == 1022
                &&& input >= 2047 ==> d.duty_cycle_setpoint == 2000
            }
            &&& zero_crosses <= 29 && duty.duty_cycle_maximum >= 445 ==> {
                &&& input == 47 ==> d.duty_cycle_setpoint == 145
                &&& input >= 547 ==> d.duty_cycle_setpoint == 445
            }
            &&& d.duty_cycle == duty.duty_cycle && d.killed == duty.killed
        }),
{
    let input = duty.uart_duty_input;
    law_setpoint_follows_the_input(input, input, zero_crosses, duty.duty_cycle_maximum);
    crate::am32_loop::law_setpoint_is_held(input, zero_crosses, duty.duty_cycle_maximum);
}

/// The run state after `n` reads of the same level.
pub open spec fn polled_times(drive: Drive, level: bool, n: nat) -> Drive
    decreases n,
{
    if n == 0 {
        drive
    } else {
        polled_drive(polled_times(drive, level, (n - 1) as nat), level)
    }
}

/// Reads of the step's level count one by one. Reads of the other level never
/// count, and the fourth of them since the last crossing starts the count
/// over.
pub proof fn law_polled_reads_count(drive: Drive, n: nat)
    requires
        drive.bemf_counter + n <= u16::MAX,
        drive.bad_count + n <= u16::MAX,
    ensures
        polled_times(drive, drive.rising, n) == (Drive {
            bemf_counter: (drive.bemf_counter + n) as u16,
            ..drive
        }),
        polled_times(drive, !drive.rising, n) == (Drive {
            bad_count: (drive.bad_count + n) as u16,
            bemf_counter: if n > 0 && drive.bad_count + n >= 4 {
                0
            } else {
                drive.bemf_counter
            },
            ..drive
        }),
    decreases n,
{
    if n > 0 {
        law_polled_reads_count(drive, (n - 1) as nat);
    }
}

} // verus!

//! The interrupt bodies of the six-step drive: the comparator edge, the
//! commutation timer and the 20 kHz tick. They take their state and their
//! hardware as parameters; the vector table stays with the program.

use vstd::prelude::*;

use crate::am32::{advance_of, blend_interval, oc_step, wait_time};
use crate::am32::ramped;
use crate::am32_control::law_wait_is_a_quarter;
use crate::am32_control::{commutate, get_bemf_state, safety_kill, zcfoundroutine};
use crate::am32_control::{
    blend_fits, commutated_drive, commutated_motor, commutated_obs, commutated_sched, count_at,
    level_at, listening_motor, polled_drive, stopped_duty, stopped_motor, wait_of, zc_found, World,
};
use crate::am32_hal::{motor_trace, obs_trace, HalEvent, Held, MotorTrace, ObsTrace, SectionEvent};
use crate::am32_hal::{
    ComTimer, ComTimerExt, CompExti, Comparator, Cs, Guarded, InjAdc, IntervalTimer, LoopTimer,
    MotorHal, Observer, PwmOutput, Recorder,
};
use crate::am32_loop::{duty_ramp, uart_deadman_tick, Bench, Drive, Duty, Sched, TEMP_ADVANCE};
use crate::am32_loop::{ramp_of, silent_bench, silent_duty};
use crate::bits::{low16, low8};
use crate::blackbox::EV_ACC;
use crate::guards::VBAT_ABS_FLOOR_RAW;
use crate::zct_trace::ZctTrace;

verus! {

broadcast use crate::am32_hal::lemma_extended_by_a_call;

/// Overcurrent kill: average current sample over the window.
pub const OC_KILL_RAW_AVG: u32 = 205;

/// Overcurrent window, about 85 ms of ticks.
pub const OC_WINDOW_TICKS: u32 = 1_700;

/// Zero-crosses are counted up to this.
pub const ZERO_CROSSES_MAX: u32 = 10_000;

/// Kill reason: overcurrent.
pub const KILL_OVERCURRENT: u16 = 1;

/// Kill reason: low battery.
pub const KILL_LOW_BATTERY: u16 = 2;

/// The first `n` events are reads of this level.
pub open spec fn levels_hold(reads: Seq<HalEvent>, n: int, level: bool) -> bool {
    forall|i: int| 0 <= i < n ==> #[trigger] reads[i] == HalEvent::Level(level)
}

/// The comparator events of an edge that persisted: every filter read shows
/// the level after the crossing, then the interrupt is masked.
pub open spec fn edge_persists(reads: Seq<HalEvent>, filter: int, rising: bool) -> bool {
    &&& reads.len() == filter + 1
    &&& levels_hold(reads, filter, rising)
    &&& reads[filter] == HalEvent::MaskComp
}

/// The comparator events of an edge that was noise: some filter read shows
/// the level before the crossing, and it is the last.
pub open spec fn edge_fails(reads: Seq<HalEvent>, filter: int, rising: bool) -> bool {
    &&& 1 <= reads.len() <= filter
    &&& levels_hold(reads, reads.len() - 1, rising)
    &&& reads[reads.len() - 1] == HalEvent::Level(!rising)
}

/// The motor traces after these calls on the comparator.
pub open spec fn read_motor(m: MotorTrace, reads: Seq<HalEvent>) -> MotorTrace {
    MotorTrace { comp: m.comp + reads, log: m.log + reads, ..m }
}

/// What taking a comparator edge leads to: nothing when the level does not
/// persist, else the zero-cross is timed and its commutation scheduled, from
/// the masking on inside one critical section.
pub open spec fn edge_taken(
    sched: Sched,
    drive: Drive,
    motor: MotorTrace,
    obs: ObsTrace,
    sched2: Sched,
    motor2: MotorTrace,
    obs2: ObsTrace,
) -> bool {
    let reads = motor2.comp.skip(motor.comp.len() as int);
    let filter = drive.filter_level as int;
    &&& motor2.comp == motor.comp + reads
    &&& edge_fails(reads, filter, drive.rising) || edge_persists(reads, filter, drive.rising)
    &&& edge_fails(reads, filter, drive.rising) ==> {
        &&& sched2 == sched
        &&& motor2 == (MotorTrace { comp: motor2.comp, log: motor.log + reads, ..motor })
        &&& obs2 == obs
    }
    &&& edge_persists(reads, filter, drive.rising) ==> {
        let count = count_at(motor2.interval, motor.interval.len() as int);
        let thiszc = (count % 0x1_0000) as u16;
        &&& sched2 == (Sched { last_zc: sched.this_zc, this_zc: thiszc, ..sched })
        &&& motor2 == (MotorTrace {
            comp: motor2.comp,
            interval: motor.interval.push(HalEvent::Count(count)).push(HalEvent::SetCount(0)),
            com: motor.com.push(HalEvent::ComStart(sched.wait_time.wrapping_add(1))),
            log: (motor.log + reads).push(HalEvent::Count(count)).push(HalEvent::SetCount(0)).push(
                HalEvent::ComStart(sched.wait_time.wrapping_add(1)),
            ),
            ..motor
        })
        &&& obs2 == (ObsTrace {
            cs: obs.cs.push(
                SectionEvent::Enter(Held::Crossing(sched, read_motor(motor, reads.drop_last()))),
            ).push(SectionEvent::Leave(Held::Crossing(sched2, motor2))),
            bb: obs.bb.push(
                HalEvent::Record(EV_ACC, ((drive.current_step - 1) % 0x100) as u8, thiszc),
            ),
            ..obs
        })
    }
}

/// A zero-cross being timed, for the critical section around it.
pub struct Crossing<'a, M> {
    /// The schedule.
    pub sched: &'a Sched,
    /// The motor.
    pub hal: &'a M,
}

impl<'a, M: MotorHal> Guarded for Crossing<'a, M> {
    open spec fn held(&self) -> Held {
        Held::Crossing(*self.sched, motor_trace(*self.hal))
    }
}

/// Takes a comparator edge: every filter read must show the level after the
/// crossing; then the zero-cross is timed and the commutation scheduled.
pub fn interrupt_routine<M: MotorHal, B: Recorder, S: Cs, A: InjAdc, L: LoopTimer>(
    sched: &mut Sched,
    drive: &Drive,
    hal: &mut M,
    obs: &mut Observer<B, S, A, L>,
)
    ensures
        edge_taken(
            *old(sched),
            *drive,
            motor_trace(*old(hal)),
            obs_trace(*old(obs)),
            *final(sched),
            motor_trace(*final(hal)),
            obs_trace(*final(obs)),
        ),
{
    let ghost m0 = motor_trace(*hal);
    let ghost mut reads: Seq<HalEvent> = Seq::empty();
    let filter: u16 = drive.filter_level;
    let rising: bool = drive.rising;
    let mut k: u16 = 0;
    proof {
        assert(motor_trace(*hal) =~= read_motor(m0, reads));
    }
    while k < filter
        invariant
            k <= filter,
            filter == drive.filter_level,
            rising == drive.rising,
            reads.len() == k,
            levels_hold(reads, k as int, rising),
            m0 == motor_trace(*old(hal)),
            motor_trace(*hal) == read_motor(m0, reads),
            *sched == *old(sched),
            *obs == *old(obs),
        decreases filter - k,
    {
        let ghost so_far = reads;
        let level: bool = hal.comp().output_level();
        proof {
            reads = so_far.push(HalEvent::Level(level));
            assert(motor_trace(*hal) =~= read_motor(m0, reads));
            assert(levels_hold(reads, k as int, rising)) by {
                assert forall|i: int| 0 <= i < k implies #[trigger] reads[i] == HalEvent::Level(
                    rising,
                ) by {
                    assert(reads[i] == so_far[i]);
                }
            }
        }
        if level != rising {
            proof {
                assert((m0.comp + reads).skip(m0.comp.len() as int) =~= reads);
                assert(edge_fails(reads, filter as int, rising));
            }
            return;
        }
        k = k + 1;
    }
    obs.cs.enter(&Crossing { sched: &*sched, hal: &*hal });
    hal.comp().mask_interrupts();
    sched.last_zc = sched.this_zc;
    let count: u32 = hal.interval().count();
    sched.this_zc = low16(count);
    hal.interval().set_count(0);
    hal.com_timer().set_and_enable(sched.wait_time.wrapping_add(1));
    obs.cs.leave(&Crossing { sched: &*sched, hal: &*hal });
    obs.bb.record(EV_ACC, low8(drive.current_step.wrapping_sub(1)), sched.this_zc);
    proof {
        let m9 = motor_trace(*hal);
        let all = reads.push(HalEvent::MaskComp);
        assert(all.drop_last() =~= reads);
        assert(m9.comp =~= m0.comp + all);
        assert(m9.log =~= (m0.log + all).push(HalEvent::Count(count)).push(
            HalEvent::SetCount(0),
        ).push(HalEvent::ComStart(sched.wait_time.wrapping_add(1))));
        assert((m0.comp + all).skip(m0.comp.len() as int) =~= all);
        assert(levels_hold(all, filter as int, rising)) by {
            assert forall|i: int| 0 <= i < filter implies #[trigger] all[i] == HalEvent::Level(
                rising,
            ) by {
                assert(all[i] == reads[i]);
            }
        }
    }
}

/// The value of the pending bit read at place `i` of a trace.
pub open spec fn pending_at(t: Seq<HalEvent>, i: int) -> bool {
    t[i]->Pending_0
}

/// What a comparator interrupt leads to. Without a pending edge: nothing.
/// Past half the average interval: the edge is cleared and taken. Before
/// it: an edge that still shows the level before the crossing is cleared;
/// one that shows the level after it stays pending, to fire again.
pub open spec fn comp_served(
    sched: Sched,
    drive: Drive,
    motor: MotorTrace,
    obs: ObsTrace,
    sched2: Sched,
    motor2: MotorTrace,
    obs2: ObsTrace,
) -> bool {
    let n = motor.comp.len() as int;
    let pending = pending_at(motor2.comp, n);
    let count = count_at(motor2.interval, motor.interval.len() as int);
    let asked = motor.comp.push(HalEvent::Pending(pending));
    let timed = motor.interval.push(HalEvent::Count(count));
    let level = level_at(motor2.comp, n + 1);
    let log = motor.log.push(HalEvent::Pending(pending));
    let timed_log = log.push(HalEvent::Count(count));
    if !pending {
        sched2 == sched && obs2 == obs && motor2 == (MotorTrace { comp: asked, log, ..motor })
    } else if count > sched.average_interval / 2 {
        edge_taken(
            sched,
            drive,
            MotorTrace {
                comp: asked.push(HalEvent::ClearPending),
                interval: timed,
                log: timed_log.push(HalEvent::ClearPending),
                ..motor
            },
            obs,
            sched2,
            motor2,
            obs2,
        )
    } else {
        let seen = asked.push(HalEvent::Level(level));
        &&& sched2 == sched
        &&& obs2 == obs
        &&& motor2 == (MotorTrace {
            comp: if level != drive.rising {
                seen.push(HalEvent::ClearPending)
            } else {
                seen
            },
            interval: timed,
            log: if level != drive.rising {
                timed_log.push(HalEvent::Level(level)).push(HalEvent::ClearPending)
            } else {
                timed_log.push(HalEvent::Level(level))
            },
            ..motor
        })
    }
}

/// The comparator interrupt.
pub fn comp_isr<
    M: MotorHal<Comp: CompExti>,
    B: Recorder,
    S: Cs,
    A: InjAdc,
    L: LoopTimer,
>(sched: &mut Sched, drive: &Drive, hal: &mut M, obs: &mut Observer<B, S, A, L>)
    ensures
        comp_served(
            *old(sched),
            *drive,
            motor_trace(*old(hal)),
            obs_trace(*old(obs)),
            *final(sched),
            motor_trace(*final(hal)),
            obs_trace(*final(obs)),
        ),
{
    let ghost m0 = motor_trace(*hal);
    let ghost n = m0.comp.len() as int;
    if hal.comp().exti_pending() {
        let count: u32 = hal.interval().count();
        if count > sched.average_interval / 2 {
            hal.comp().clear_pending();
            let ghost m1 = motor_trace(*hal);
            interrupt_routine(sched, drive, hal, obs);
            proof {
                let m2 = motor_trace(*hal);
                assert(m2.comp[n] == m1.comp[n]);
                assert(m2.interval[m0.interval.len() as int] == m1.interval[m0.interval.len() as int]);
            }
        } else {
            if hal.comp().output_level() != drive.rising {
                hal.comp().clear_pending();
            }
        }
    }
}

/// The interval that an interrupt-mode commutation blends to.
pub open spec fn interrupt_interval(sched: Sched) -> int {
    (sched.commutation_interval + (sched.last_zc + sched.this_zc) / 2) / 2
}

/// The schedule after an interrupt-mode blend.
pub open spec fn reblended_sched(sched: Sched) -> Sched {
    let ci = interrupt_interval(sched);
    Sched {
        commutation_interval: ci as u32,
        wait_time: (wait_of(ci) % 0x1_0000) as u16,
        ..sched
    }
}

/// `after` follows from `before` by the commutation interrupt: acknowledge
/// and mask the timer, commutate, blend, trace, and in the interrupt mode
/// listen for the next edge.
pub open spec fn com_served<const N: usize>(
    before: World<N>,
    duty: Duty,
    after: World<N>,
) -> bool {
    let commutated = commutated_drive(before.sched, before.drive);
    let acked = commutated_motor(
        MotorTrace {
            com: before.motor.com.push(HalEvent::ComAck).push(HalEvent::ComOff),
            log: before.motor.log.push(HalEvent::ComAck).push(HalEvent::ComOff),
            ..before.motor
        },
        before.drive,
    );
    &&& exists|s: Sched|
        #[trigger] commutated_sched(before.sched, before.drive, s) && after.sched
            == reblended_sched(s)
    &&& before.zct.written(after.sched, commutated, duty, after.zct)
    &&& after.drive == (Drive {
        zero_crosses: if commutated.zero_crosses < ZERO_CROSSES_MAX {
            (commutated.zero_crosses + 1) as u32
        } else {
            commutated.zero_crosses
        },
        ..commutated
    })
    &&& after.motor == if commutated.old_routine {
        acked
    } else {
        listening_motor(acked)
    }
    &&& after.obs == (ObsTrace {
        cs: before.obs.cs + before.zct.write_sections(after.sched, after.zct),
        ..commutated_obs(before.obs, before.sched, before.drive)
    })
}

/// The commutation-timer interrupt.
pub fn tim1_up_tim16_isr<
    const N: usize,
    M: MotorHal<Com: ComTimerExt>,
    B: Recorder,
    S: Cs,
    A: InjAdc,
    L: LoopTimer,
>(
    sched: &mut Sched,
    drive: &mut Drive,
    zct: &mut ZctTrace<N>,
    duty: &Duty,
    hal: &mut M,
    obs: &mut Observer<B, S, A, L>,
)
    requires
        old(drive).current_step < u16::MAX,
        old(zct).ring.wf(),
        old(sched).commutation_interval + (old(sched).last_zc + old(sched).this_zc) / 2
            <= u32::MAX,
        interrupt_interval(*old(sched)) * TEMP_ADVANCE <= u32::MAX,
    ensures
        com_served(
            World {
                sched: *old(sched),
                drive: *old(drive),
                zct: *old(zct),
                motor: motor_trace(*old(hal)),
                obs: obs_trace(*old(obs)),
            },
            *duty,
            World {
                sched: *final(sched),
                drive: *final(drive),
                zct: *final(zct),
                motor: motor_trace(*final(hal)),
                obs: obs_trace(*final(obs)),
            },
        ),
        final(zct).ring.wf(),
{
    let ghost m0 = motor_trace(*hal);
    let ghost o0 = obs_trace(*obs);
    hal.com_timer().com_clear_flag();
    hal.com_timer().disable_interrupt();
    commutate(sched, drive, hal, obs);
    let ghost s1 = *sched;
    let ci: u32 = blend_interval(
        sched.commutation_interval,
        sched.last_zc as u32,
        sched.this_zc as u32,
    );
    sched.commutation_interval = ci;
    let advance: u32 = advance_of(ci, TEMP_ADVANCE);
    let wait: u32 = wait_time(ci, advance);
    sched.wait_time = low16(wait);
    zct.write(sched, drive, duty, &mut obs.cs);
    if !drive.old_routine {
        hal.comp().enable_interrupts();
    }
    let zc: u32 = drive.zero_crosses;
    if zc < ZERO_CROSSES_MAX {
        drive.zero_crosses = zc + 1;
    }
    proof {
        assert(commutated_sched(*old(sched), *old(drive), s1));
        assert(*sched == reblended_sched(s1));
        assert(obs_trace(*obs) =~= (ObsTrace {
            cs: o0.cs + old(zct).write_sections(*sched, *zct),
            ..commutated_obs(o0, *old(sched), *old(drive))
        }));
    }
}

/// The compare value of a duty under a carrier reload; a running motor with
/// an armed input gets one count more.
pub open spec fn scaled_duty(duty_val: u16, arr: u16, running: bool, input: u16) -> u16 {
    let base = duty_val as int * arr as int / 2000;
    ((if running && input > 47 {
        base + 1
    } else {
        base
    }) % 0x1_0000) as u16
}

/// The motor traces after a duty was applied: the carrier reload, then the
/// compare value.
pub open spec fn applied_motor(m: MotorTrace, drive: Drive, duty: Duty, duty_val: u16) -> MotorTrace {
    let compare = scaled_duty(duty_val, duty.tim1_arr, drive.running, duty.input);
    MotorTrace {
        pwm: m.pwm.push(HalEvent::AutoReload(duty.tim1_arr)).push(HalEvent::DutyAll(compare)),
        log: m.log.push(HalEvent::AutoReload(duty.tim1_arr)).push(HalEvent::DutyAll(compare)),
        ..m
    }
}

/// Applies a duty, scaled to the carrier in force; returns whether the
/// motor runs.
pub fn duty_apply<M: MotorHal>(
    drive: &Drive,
    duty: &mut Duty,
    duty_val: u16,
    hal: &mut M,
) -> (r: bool)
    ensures
        r == drive.running,
        *final(duty) == (Duty { last_duty_cycle: duty_val, ..*old(duty) }),
        motor_trace(*final(hal)) == applied_motor(
            motor_trace(*old(hal)),
            *drive,
            *old(duty),
            duty_val,
        ),
{
    let arr: u16 = duty.tim1_arr;
    let running: bool = drive.running;
    let input: u16 = duty.input;
    assert(0 <= duty_val as int * arr as int <= 0xFFFF * 0xFFFF) by (nonlinear_arith)
        requires
            duty_val <= 0xFFFF,
            arr <= 0xFFFF,
    ;
    let base: u32 = (duty_val as u32 * arr as u32) / 2000;
    let adjusted: u32 = if running && input > 47 {
        base + 1
    } else {
        base
    };
    duty.last_duty_cycle = duty_val;
    hal.pwm().set_auto_reload(arr);
    hal.pwm().set_duty_all(low16(adjusted));
    running
}

/// The matching reads that make a zero-cross of this step.
pub open spec fn bemf_threshold(drive: Drive) -> u16 {
    if drive.rising {
        drive.min_bemf_up
    } else {
        drive.min_bemf_down
    }
}

/// The level read of a poll.
pub open spec fn polled_level<const N: usize>(before: World<N>, after: World<N>) -> bool {
    level_at(after.motor.comp, before.motor.comp.len() as int + 1)
}

/// The world after a poll read this level.
pub open spec fn polled<const N: usize>(w: World<N>, level: bool) -> World<N> {
    World {
        drive: polled_drive(w.drive, level),
        motor: MotorTrace {
            comp: w.motor.comp.push(HalEvent::MaskComp).push(HalEvent::Level(level)),
            log: w.motor.log.push(HalEvent::MaskComp).push(HalEvent::Level(level)),
            ..w.motor
        },
        ..w
    }
}

/// `after` follows from `before` by one tick of the polling mode: one level
/// read, and the zero-cross when enough of them matched.
pub open spec fn poll_served<const N: usize>(
    before: World<N>,
    duty: Duty,
    running: bool,
    after: World<N>,
) -> bool {
    if !(before.drive.old_routine && running) {
        after == before
    } else {
        let p = polled(before, polled_level(before, after));
        if !p.drive.zcfound && p.drive.bemf_counter > bemf_threshold(p.drive) {
            zc_found(World { drive: Drive { zcfound: true, ..p.drive }, ..p }, duty, after)
        } else {
            after == p
        }
    }
}

/// What a poll of a running motor needs.
pub open spec fn poll_fits<const N: usize>(sched: Sched, drive: Drive, zct: ZctTrace<N>) -> bool {
    &&& drive.bad_count < u16::MAX
    &&& blend_fits(sched.commutation_interval)
    &&& drive.current_step < u16::MAX
    &&& zct.ring.wf()
}

/// One tick of the polling mode.
pub fn polling_bemf_check<
    const N: usize,
    M: MotorHal<Com: ComTimerExt>,
    B: Recorder,
    S: Cs,
    A: InjAdc,
    L: LoopTimer,
>(
    sched: &mut Sched,
    drive: &mut Drive,
    duty: &Duty,
    zct: &mut ZctTrace<N>,
    hal: &mut M,
    obs: &mut Observer<B, S, A, L>,
    running: bool,
)
    requires
        old(drive).old_routine && running ==> poll_fits(*old(sched), *old(drive), *old(zct)),
    ensures
        poll_served(
            World {
                sched: *old(sched),
                drive: *old(drive),
                zct: *old(zct),
                motor: motor_trace(*old(hal)),
                obs: obs_trace(*old(obs)),
            },
            *duty,
            running,
            World {
                sched: *final(sched),
                drive: *final(drive),
                zct: *final(zct),
                motor: motor_trace(*final(hal)),
                obs: obs_trace(*final(obs)),
            },
        ),
        old(zct).ring.wf() ==> final(zct).ring.wf(),
{
    let ghost m0 = motor_trace(*hal);
    let ghost n = m0.comp.len() as int;
    if drive.old_routine && running {
        hal.comp().mask_interrupts();
        get_bemf_state(drive, hal.comp());
        let ghost m1 = motor_trace(*hal);
        let ghost level = level_at(m1.comp, n + 1);
        assert(m1.comp =~= m0.comp.push(HalEvent::MaskComp).push(HalEvent::Level(level)));
        if !drive.zcfound {
            let thresh: u16 = if drive.rising {
                drive.min_bemf_up
            } else {
                drive.min_bemf_down
            };
            if drive.bemf_counter > thresh {
                drive.zcfound = true;
                zcfoundroutine(sched, drive, zct, duty, hal, obs);
                assert(motor_trace(*hal).comp[n + 1] == m1.comp[n + 1]);
            }
        }
    }
}

/// The burst read at place `i` of a trace: phase A, phase B, current,
/// battery.
pub open spec fn burst_at(t: Seq<HalEvent>, i: int) -> (u16, u16, u16, u16) {
    (t[i]->Burst_0, t[i]->Burst_1, t[i]->Burst_2, t[i]->Burst_3)
}

/// The overcurrent window completes over its limit with this sample.
pub open spec fn oc_trips(bench: Bench, cur: u16) -> bool {
    bench.oc_cnt + 1 >= OC_WINDOW_TICKS && (bench.oc_acc + cur) / OC_WINDOW_TICKS as int
        > OC_KILL_RAW_AVG
}

/// The bench state after a burst.
pub open spec fn harvested_bench(bench: Bench, cur: u16, vbat: u16) -> Bench {
    let done = bench.oc_cnt + 1 >= OC_WINDOW_TICKS;
    Bench {
        i_raw: cur,
        vbat_raw: vbat,
        oc_acc: if done {
            0
        } else {
            (bench.oc_acc + cur) as u32
        },
        oc_cnt: if done {
            0
        } else {
            (bench.oc_cnt + 1) as u32
        },
        ..bench
    }
}

/// Why a burst kills, if it does: overcurrent first, then a low battery
/// under a running motor.
pub open spec fn burst_kill(bench: Bench, running: bool, cur: u16, vbat: u16) -> Option<u16> {
    if oc_trips(bench, cur) {
        Some(KILL_OVERCURRENT)
    } else if vbat < VBAT_ABS_FLOOR_RAW && running {
        Some(KILL_LOW_BATTERY)
    } else {
        None
    }
}

/// The run state after a burst with this verdict.
pub open spec fn harvested_drive(drive: Drive, kill: Option<u16>) -> Drive {
    if kill is Some {
        Drive { running: false, old_routine: true, ..drive }
    } else {
        drive
    }
}

/// The duty pipeline after a burst with this verdict.
pub open spec fn harvested_duty(duty: Duty, kill: Option<u16>) -> Duty {
    match kill {
        Some(reason) => Duty { kill_reason: reason, killed: true, ..stopped_duty(duty) },
        None => duty,
    }
}

/// The motor traces after a burst with this verdict.
pub open spec fn harvested_motor(m: MotorTrace, kill: Option<u16>) -> MotorTrace {
    if kill is Some {
        stopped_motor(m)
    } else {
        m
    }
}

/// The observer traces after this burst with this verdict.
pub open spec fn harvested_obs(o: ObsTrace, burst: (u16, u16, u16, u16), kill: Option<u16>) -> ObsTrace {
    ObsTrace {
        adc: o.adc.push(HalEvent::Burst(burst.0, burst.1, burst.2, burst.3)),
        bb: if kill is Some {
            o.bb.push(HalEvent::Freeze)
        } else {
            o.bb
        },
        ..o
    }
}

/// Takes the newest burst of samples, and kills on overcurrent or a low
/// battery.
pub fn adc_harvest_and_safety<M: MotorHal, B: Recorder, S: Cs, A: InjAdc, L: LoopTimer>(
    drive: &mut Drive,
    duty: &mut Duty,
    bench: &mut Bench,
    hal: &mut M,
    obs: &mut Observer<B, S, A, L>,
)
    requires
        old(bench).oc_acc + u16::MAX <= u32::MAX,
        old(bench).oc_cnt < u32::MAX,
    ensures
        ({
            let o = obs_trace(*old(obs));
            let burst = burst_at(obs_trace(*final(obs)).adc, o.adc.len() as int);
            let kill = burst_kill(*old(bench), old(drive).running, burst.2, burst.3);
            &&& *final(bench) == harvested_bench(*old(bench), burst.2, burst.3)
            &&& *final(drive) == harvested_drive(*old(drive), kill)
            &&& *final(duty) == harvested_duty(*old(duty), kill)
            &&& motor_trace(*final(hal)) == harvested_motor(motor_trace(*old(hal)), kill)
            &&& obs_trace(*final(obs)) == harvested_obs(o, burst, kill)
        }),
{
    let (_a, _b, cur, vbat) = obs.adc.inj_read();
    bench.i_raw = cur;
    bench.vbat_raw = vbat;
    let (acc, cnt, tripped) = oc_step(
        bench.oc_acc,
        bench.oc_cnt,
        cur,
        OC_WINDOW_TICKS,
        OC_KILL_RAW_AVG,
    );
    bench.oc_acc = acc;
    bench.oc_cnt = cnt;
    if tripped {
        safety_kill(drive, duty, hal, obs, KILL_OVERCURRENT);
    }
    if vbat < VBAT_ABS_FLOOR_RAW && drive.running {
        safety_kill(drive, duty, hal, obs, KILL_LOW_BATTERY);
    }
}

/// The run state with the tick counted.
pub open spec fn ticked_drive(drive: Drive) -> Drive {
    Drive { tenkhz_counter: drive.tenkhz_counter.wrapping_add(1), ..drive }
}

/// The duty of this tick: one ramp step toward the setpoint.
pub open spec fn ticked_duty_value(sched: Sched, drive: Drive, duty: Duty) -> u16 {
    ramped(
        duty.last_duty_cycle as int,
        duty.duty_cycle_setpoint as int,
        ramp_of(sched, drive, duty.last_duty_cycle),
    ) as u16
}

/// The duty pipeline after ramp and apply; a latched kill stops both.
pub open spec fn ticked_duty(sched: Sched, drive: Drive, duty: Duty) -> Duty {
    let v = ticked_duty_value(sched, drive, duty);
    if duty.killed {
        duty
    } else {
        Duty {
            duty_cycle: v,
            last_duty_cycle: v,
            ramp_count: duty.ramp_count.wrapping_add(1),
            ..duty
        }
    }
}

/// The world in which a tick polls: the tick acknowledged and counted, and
/// the ramped duty applied unless a kill is latched.
pub open spec fn ticked<const N: usize>(w: World<N>, duty: Duty) -> World<N> {
    World {
        drive: ticked_drive(w.drive),
        motor: if duty.killed {
            w.motor
        } else {
            applied_motor(w.motor, w.drive, duty, ticked_duty_value(w.sched, w.drive, duty))
        },
        obs: ObsTrace { lt: w.obs.lt.push(HalEvent::LoopAck), ..w.obs },
        ..w
    }
}

/// `polled` is the world after the polling part of a tick, which a latched
/// kill skips.
pub open spec fn tick_polls<const N: usize>(w: World<N>, duty: Duty, polled: World<N>) -> bool {
    if duty.killed {
        polled == ticked(w, duty)
    } else {
        poll_served(
            ticked(w, duty),
            ticked_duty(w.sched, w.drive, duty),
            w.drive.running,
            polled,
        )
    }
}

/// The duty pipeline after the deadman part of a tick.
pub open spec fn watched_duty(duty: Duty, bench: Bench) -> Duty {
    silent_duty(duty, bench)
}

/// The bench state after the deadman part of a tick.
pub open spec fn watched_bench(bench: Bench) -> Bench {
    silent_bench(bench)
}

/// A tick took the world from `w` through `polled` to the final state: ramp
/// and apply, poll, deadman, and the safety kills.
pub open spec fn tick_served<const N: usize>(
    w: World<N>,
    duty: Duty,
    bench: Bench,
    polled: World<N>,
    after: World<N>,
    duty2: Duty,
    bench2: Bench,
) -> bool {
    let burst = burst_at(after.obs.adc, polled.obs.adc.len() as int);
    let kill = burst_kill(bench, polled.drive.running, burst.2, burst.3);
    &&& tick_polls(w, duty, polled)
    &&& after == (World {
        drive: harvested_drive(polled.drive, kill),
        motor: harvested_motor(polled.motor, kill),
        obs: harvested_obs(polled.obs, burst, kill),
        ..polled
    })
    &&& duty2 == harvested_duty(watched_duty(ticked_duty(w.sched, w.drive, duty), bench), kill)
    &&& bench2 == harvested_bench(watched_bench(bench), burst.2, burst.3)
}

/// The 20 kHz tick.
#[verifier::spinoff_prover]
#[verifier::rlimit(60)]
pub fn tim6_dacunder_isr<
    const N: usize,
    M: MotorHal<Com: ComTimerExt>,
    B: Recorder,
    S: Cs,
    A: InjAdc,
    L: LoopTimer,
>(
    sched: &mut Sched,
    drive: &mut Drive,
    duty: &mut Duty,
    bench: &mut Bench,
    zct: &mut ZctTrace<N>,
    hal: &mut M,
    obs: &mut Observer<B, S, A, L>,
)
    requires
        !old(duty).killed && old(drive).old_routine && old(drive).running ==> poll_fits(
            *old(sched),
            *old(drive),
            *old(zct),
        ),
        old(bench).uart_deadman_ticks < u32::MAX,
        old(bench).oc_acc + u16::MAX <= u32::MAX,
        old(bench).oc_cnt < u32::MAX,
    ensures
        exists|polled: World<N>| #[trigger]
            tick_served(
                World {
                    sched: *old(sched),
                    drive: *old(drive),
                    zct: *old(zct),
                    motor: motor_trace(*old(hal)),
                    obs: obs_trace(*old(obs)),
                },
                *old(duty),
                *old(bench),
                polled,
                World {
                    sched: *final(sched),
                    drive: *final(drive),
                    zct: *final(zct),
                    motor: motor_trace(*final(hal)),
                    obs: obs_trace(*final(obs)),
                },
                *final(duty),
                *final(bench),
            ),
        old(zct).ring.wf() ==> final(zct).ring.wf(),
{
    let ghost w = World {
        sched: *sched,
        drive: *drive,
        zct: *zct,
        motor: motor_trace(*hal),
        obs: obs_trace(*obs),
    };
    obs.lt.clear_flag();
    let setpoint: i32 = duty.duty_cycle_setpoint as i32;
    drive.tenkhz_counter = drive.tenkhz_counter.wrapping_add(1);
    if !duty.killed {
        let duty_val: u16 = duty_ramp(sched, drive, duty, setpoint);
        let running: bool = duty_apply(drive, duty, duty_val, hal);
        proof {
            let w1 = World {
                sched: *sched,
                drive: *drive,
                zct: *zct,
                motor: motor_trace(*hal),
                obs: obs_trace(*obs),
            };
            assert(w1 == ticked(w, *old(duty)));
        }
        polling_bemf_check(sched, drive, duty, zct, hal, obs, running);
    }
    let ghost polled = World {
        sched: *sched,
        drive: *drive,
        zct: *zct,
        motor: motor_trace(*hal),
        obs: obs_trace(*obs),
    };
    uart_deadman_tick(duty, bench);
    adc_harvest_and_safety(drive, duty, bench, hal, obs);
    proof {
        let after = World {
            sched: *sched,
            drive: *drive,
            zct: *zct,
            motor: motor_trace(*hal),
            obs: obs_trace(*obs),
        };
        assert(tick_polls(w, *old(duty), polled));
        assert(tick_served(w, *old(duty), *old(bench), polled, after, *duty, *bench));
    }
}

/// A latched kill keeps the drive still: no duty is ramped or applied and
/// nothing is polled, while the deadman and the samples go on.
pub proof fn law_latched_kill_holds<const N: usize>(
    w: World<N>,
    duty: Duty,
    bench: Bench,
    polled: World<N>,
    after: World<N>,
    duty2: Duty,
    bench2: Bench,
)
    requires
        duty.killed,
        tick_served(w, duty, bench, polled, after, duty2, bench2),
    ensures
        duty2.killed,
        after.motor.pwm == w.motor.pwm,
        after.motor.interval == w.motor.interval,
        after.sched == w.sched,
        after.zct == w.zct,
        after.drive.running ==> w.drive.running,
{
}

/// A kill by the samples leaves the motor off in the same tick: every
/// switch off, both interrupts masked, the duty zero and the reason kept.
pub proof fn law_burst_kill_is_complete<const N: usize>(
    w: World<N>,
    duty: Duty,
    bench: Bench,
    polled: World<N>,
    after: World<N>,
    duty2: Duty,
    bench2: Bench,
)
    requires
        tick_served(w, duty, bench, polled, after, duty2, bench2),
        duty2.killed && !duty.killed,
    ensures
        !after.drive.running,
        duty2.duty_cycle == 0 && duty2.duty_cycle_setpoint == 0,
        duty2.kill_reason == KILL_OVERCURRENT || duty2.kill_reason == KILL_LOW_BATTERY,
        after.motor.phase.last() == HalEvent::AllOff,
        after.motor.comp.last() == HalEvent::MaskComp,
        after.motor.com.last() == HalEvent::ComOff,
        after.obs.bb.last() == HalEvent::Freeze,
{
}

/// An edge before half the average interval is never taken: at most it is
/// cleared.
pub proof fn law_early_edges_are_not_taken(
    sched: Sched,
    drive: Drive,
    motor: MotorTrace,
    obs: ObsTrace,
    sched2: Sched,
    motor2: MotorTrace,
    obs2: ObsTrace,
)
    requires
        comp_served(sched, drive, motor, obs, sched2, motor2, obs2),
        count_at(motor2.interval, motor.interval.len() as int) <= sched.average_interval / 2,
    ensures
        sched2 == sched,
        obs2 == obs,
        motor2.com == motor.com,
{
}

/// The commutation interrupt sets the interval to the midpoint of what it was
/// and the mean of the last two zero-cross times: twice the interval and the
/// two times share out to four of it, up to rounding down. A steady motor
/// keeps its interval; any other comes to lie between the two. The wait is a
/// quarter of the new interval, up to a rounding.
#[verifier::spinoff_prover]
#[verifier::rlimit(40)]
pub proof fn law_commutation_blends_the_crossings<const N: usize>(
    before: World<N>,
    duty: Duty,
    after: World<N>,
)
    requires
        com_served(before, duty, after),
        before.sched.commutation_interval + (before.sched.last_zc + before.sched.this_zc) / 2
            <= u32::MAX,
    ensures
        ({
            let was = before.sched.commutation_interval;
            let a = before.sched.last_zc;
            let b = before.sched.this_zc;
            let now = after.sched.commutation_interval;
            &&& 2 * was + a + b - 3 <= 4 * now <= 2 * was + a + b
            &&& a == was && b == was ==> now == was
            &&& 2 * was <= a + b ==> was <= now && 2 * now <= a + b
            &&& a + b <= 2 * was ==> now <= was && a + b <= 2 * now + 1
            &&& now <= 200_000 ==> now - 1 <= 4 * after.sched.wait_time <= now + 2
            &&& after.sched.last_zc == a && after.sched.this_zc == b
            &&& after.sched.average_interval == before.sched.average_interval
        }),
{
    let s = choose|s: Sched|
        #[trigger] commutated_sched(before.sched, before.drive, s) && after.sched
            == reblended_sched(s);
    let was = before.sched.commutation_interval as int;
    let a = before.sched.last_zc as int;
    let b = before.sched.this_zc as int;
    assert(s.commutation_interval == was && s.last_zc == a && s.this_zc == b);
    let now = interrupt_interval(s);
    assert(now == (was + (a + b) / 2) / 2);
    lemma_blend_lies_between(was, a, b);
    assert(after.sched.commutation_interval == now);
    law_wait_is_a_quarter(now, now);
}

/// Where the blend of an interval and two times lies.
proof fn lemma_blend_lies_between(was: int, a: int, b: int)
    requires
        0 <= was && 0 <= a && 0 <= b,
    ensures
        ({
            let now = (was + (a + b) / 2) / 2;
            &&& 2 * was + a + b - 3 <= 4 * now <= 2 * was + a + b
            &&& a == was && b == was ==> now == was
            &&& 2 * was <= a + b ==> was <= now && 2 * now <= a + b
            &&& a + b <= 2 * was ==> now <= was && a + b <= 2 * now + 1
        }),
{
}

/// The commutation interrupt takes the next of the six steps and counts a
/// crossing, up to 10 000. It acknowledges and masks its timer first, and at
/// the end listens for the next edge, unless the motor polls.
#[verifier::spinoff_prover]
#[verifier::rlimit(40)]
pub proof fn law_commutation_interrupt_steps<const N: usize>(
    before: World<N>,
    duty: Duty,
    after: World<N>,
)
    requires
        com_served(before, duty, after),
        1 <= before.drive.current_step <= 6,
    ensures
        ({
            let k = before.drive.current_step as int % 6 + 1;
            let n = before.motor.log.len() as int;
            &&& after.drive.current_step == k
            &&& after.drive.rising == (k == 1 || k == 3 || k == 5)
            &&& after.motor.phase == before.motor.phase.push(HalEvent::ComStep(k as u8))
            &&& after.motor.com == before.motor.com.push(HalEvent::ComAck).push(HalEvent::ComOff)
            &&& after.motor.log[n] == HalEvent::ComAck
            &&& after.motor.log[n + 1] == HalEvent::ComOff
            &&& after.motor.log[n + 2] == HalEvent::ComStep(k as u8)
            &&& after.drive.old_routine == (before.drive.old_routine
                || before.sched.average_interval >= 2501)
            &&& !after.drive.old_routine ==> after.motor.comp.last() == HalEvent::EnableComp
            &&& after.drive.old_routine ==> after.motor.comp.last() == HalEvent::ChangeInput
            &&& before.drive.zero_crosses < 10_000 ==> after.drive.zero_crosses
                == before.drive.zero_crosses + 1
            &&& before.drive.zero_crosses >= 10_000 ==> after.drive.zero_crosses
                == before.drive.zero_crosses
            &&& after.drive.running == before.drive.running
            &&& after.zct.comm_n == before.zct.comm_n.wrapping_add(1)
            &&& after.motor.pwm == before.motor.pwm
        }),
{
}

/// A comparator edge past half the average interval that holds through every
/// filter read is timed and its commutation scheduled a wait and a tick
/// later: the time before becomes the last one, the interval count becomes
/// this one and starts over, and the comparator is masked. One read that does
/// not hold drops the edge.
#[verifier::spinoff_prover]
#[verifier::rlimit(40)]
pub proof fn law_late_edges_are_timed(
    sched: Sched,
    drive: Drive,
    motor: MotorTrace,
    obs: ObsTrace,
    sched2: Sched,
    motor2: MotorTrace,
    obs2: ObsTrace,
)
    requires
        comp_served(sched, drive, motor, obs, sched2, motor2, obs2),
        pending_at(motor2.comp, motor.comp.len() as int),
        2 * count_at(motor2.interval, motor.interval.len() as int) > sched.average_interval,
    ensures
        ({
            let n = motor.comp.len() as int;
            let reads = motor2.comp.skip(n + 2);
            let holds = reads.len() == drive.filter_level + 1;
            let time = count_at(motor2.interval, motor.interval.len() as int + 1) as int % 65_536;
            &&& motor2.comp[n + 1] == HalEvent::ClearPending
            &&& forall|i: int|
                0 <= i < reads.len() - 1 ==> #[trigger] reads[i] == HalEvent::Level(drive.rising)
            &&& holds ==> {
                &&& reads.last() == HalEvent::MaskComp
                &&& sched2.this_zc == time && sched2.last_zc == sched.this_zc
                &&& sched2.wait_time == sched.wait_time
                &&& sched2.commutation_interval == sched.commutation_interval
                &&& motor2.interval.last() == HalEvent::SetCount(0)
                &&& motor2.com.last() == HalEvent::ComStart(
                    ((sched.wait_time + 1) % 65_536) as u16,
                )
                &&& motor2.com.len() == motor.com.len() + 1
                &&& obs2.bb.last() == HalEvent::Record(
                    3,
                    ((drive.current_step - 1) % 256) as u8,
                    sched2.this_zc,
                )
            }
            &&& !holds ==> {
                &&& 1 <= reads.len() <= drive.filter_level
                &&& reads.last() == HalEvent::Level(!drive.rising)
                &&& sched2 == sched && motor2.com == motor.com && obs2 == obs
            }
        }),
{
    let n = motor.comp.len() as int;
    let cleared = motor.comp.push(HalEvent::Pending(pending_at(motor2.comp, n))).push(
        HalEvent::ClearPending,
    );
    assert(cleared.len() == n + 2);
    assert(motor2.comp[n + 1] == cleared[n + 1]);
}

/// An early edge stays pending exactly while it shows the level after the
/// crossing, and without a pending edge nothing is touched.
pub proof fn law_early_edges_wait(
    sched: Sched,
    drive: Drive,
    motor: MotorTrace,
    obs: ObsTrace,
    sched2: Sched,
    motor2: MotorTrace,
    obs2: ObsTrace,
)
    requires
        comp_served(sched, drive, motor, obs, sched2, motor2, obs2),
    ensures
        ({
            let n = motor.comp.len() as int;
            let pending = pending_at(motor2.comp, n);
            let early = 2 * count_at(motor2.interval, motor.interval.len() as int)
                <= sched.average_interval;
            &&& !pending ==> motor2.comp.len() == n + 1 && motor2.com == motor.com && sched2
                == sched
            &&& pending && early ==> {
                &&& sched2 == sched && motor2.com == motor.com
                &&& motor2.comp[n + 1] == HalEvent::Level(level_at(motor2.comp, n + 1))
                &&& level_at(motor2.comp, n + 1) == drive.rising ==> motor2.comp.len() == n + 2
                &&& level_at(motor2.comp, n + 1) != drive.rising ==> motor2.comp.len() == n + 3
                    && motor2.comp.last() == HalEvent::ClearPending
            }
        }),
{
}

/// The compare value is the duty's share of the carrier reload: 2000 times
/// the value is the duty times the reload, up to rounding down, and a running
/// motor under a throttle gets one count more. The reload goes out first.
pub proof fn law_compare_is_the_duty_share(m: MotorTrace, drive: Drive, duty: Duty, duty_val: u16)
    requires
        duty_val <= 2000,
        duty.tim1_arr < 0xFFFF,
    ensures
        ({
            let after = applied_motor(m, drive, duty, duty_val);
            let extra: int = if drive.running && duty.input >= 48 {
                1
            } else {
                0
            };
            let compare = after.pwm.last()->DutyAll_0 - extra;
            &&& after.pwm.last() is DutyAll && after.log.last() == after.pwm.last()
            &&& after.pwm.len() == m.pwm.len() + 2
            &&& after.pwm[m.pwm.len() as int] == HalEvent::AutoReload(duty.tim1_arr)
            &&& duty_val * duty.tim1_arr - 1999 <= 2000 * compare <= duty_val * duty.tim1_arr
            &&& duty_val == 0 ==> compare == 0
            &&& duty_val == 2000 ==> compare == duty.tim1_arr
            &&& 0 <= compare <= duty.tim1_arr
            &&& after.phase == m.phase && after.com == m.com && after.comp == m.comp
        }),
{
    let p = duty_val as int * duty.tim1_arr as int;
    assert(0 <= p <= 2000 * duty.tim1_arr) by (nonlinear_arith)
        requires
            p == duty_val as int * duty.tim1_arr as int,
            0 <= duty_val <= 2000,
            0 <= duty.tim1_arr,
    ;
    assert(duty_val == 0 ==> p == 0) by (nonlinear_arith)
        requires
            p == duty_val as int * duty.tim1_arr as int,
    ;
    assert(duty_val == 2000 ==> p == 2000 * duty.tim1_arr) by (nonlinear_arith)
        requires
            p == duty_val as int * duty.tim1_arr as int,
    ;
}

/// A larger duty never gets a smaller compare value.
pub proof fn law_compare_rises_with_the_duty(
    m: MotorTrace,
    drive: Drive,
    duty: Duty,
    less: u16,
    more: u16,
)
    requires
        less <= more <= 2000,
        duty.tim1_arr < 0xFFFF,
    ensures
        applied_motor(m, drive, duty, less).pwm.last()->DutyAll_0 <= applied_motor(
            m,
            drive,
            duty,
            more,
        ).pwm.last()->DutyAll_0,
{
    law_compare_is_the_duty_share(m, drive, duty, less);
    law_compare_is_the_duty_share(m, drive, duty, more);
    assert(less * duty.tim1_arr <= more * duty.tim1_arr) by (nonlinear_arith)
        requires
            less <= more,
            0 <= duty.tim1_arr,
    ;
}

/// A poll of a running motor in the polling mode reads the level once, with
/// the interrupt masked. A matching read counts; a crossing is found, and its
/// step taken, exactly when the count goes over the threshold of the step's
/// edge. Otherwise the schedule and the step stay.
#[verifier::spinoff_prover]
#[verifier::rlimit(40)]
pub proof fn law_poll_finds_the_crossing<const N: usize>(
    before: World<N>,
    duty: Duty,
    running: bool,
    after: World<N>,
)
    requires
        poll_served(before, duty, running, after),
        1 <= before.drive.current_step <= 6,
        !before.drive.zcfound,
        before.drive.bemf_counter < u16::MAX,
        before.drive.old_routine && running ==> poll_fits(before.sched, before.drive, before.zct),
    ensures
        ({
            let n = before.motor.comp.len() as int;
            let level = level_at(after.motor.comp, n + 1);
            let threshold = if before.drive.rising {
                before.drive.min_bemf_up
            } else {
                before.drive.min_bemf_down
            };
            let polls = before.drive.old_routine && running;
            let matches = level == before.drive.rising;
            &&& !polls ==> after == before
            &&& polls ==> after.motor.comp[n] == HalEvent::MaskComp && after.motor.comp[n + 1]
                == HalEvent::Level(level)
            &&& polls && matches && before.drive.bemf_counter >= threshold ==> {
                &&& after.drive.current_step == before.drive.current_step as int % 6 + 1
                &&& after.motor.phase.len() == before.motor.phase.len() + 1
                &&& after.drive.bemf_counter == 0
            }
            &&& polls && matches && before.drive.bemf_counter < threshold ==> {
                &&& after.drive == (Drive {
                    bemf_counter: (before.drive.bemf_counter + 1) as u16,
                    ..before.drive
                })
                &&& after.sched == before.sched && after.motor.phase == before.motor.phase
            }
            &&& polls && !matches && before.drive.bemf_counter <= threshold ==> {
                &&& after.drive.bemf_counter == if before.drive.bad_count >= 3 {
                    0
                } else {
                    before.drive.bemf_counter
                }
                &&& after.drive.bad_count == before.drive.bad_count + 1
                &&& after.drive.current_step == before.drive.current_step
                &&& after.sched == before.sched && after.motor.phase == before.motor.phase
            }
        }),
{
    let n = before.motor.comp.len() as int;
    if before.drive.old_routine && running {
        let p = polled(before, polled_level(before, after));
        assert(p.motor.comp.len() == n + 2);
        assert(after.motor.comp[n] == p.motor.comp[n]);
        assert(after.motor.comp[n + 1] == p.motor.comp[n + 1]);
    }
}

/// The bench state after `n` bursts of the same samples.
pub open spec fn harvested_times(bench: Bench, cur: u16, vbat: u16, n: nat) -> Bench
    decreases n,
{
    if n == 0 {
        bench
    } else {
        harvested_bench(harvested_times(bench, cur, vbat, (n - 1) as nat), cur, vbat)
    }
}

/// The overcurrent window is 1700 bursts: a fresh one adds them up, and kills
/// with its last one exactly when the current is over 205; then it starts
/// over. The latest samples are kept.
pub proof fn law_overcurrent_takes_a_window(bench: Bench, running: bool, cur: u16, vbat: u16, n: nat)
    requires
        bench.oc_acc == 0,
        bench.oc_cnt == 0,
        n < 1700,
    ensures
        harvested_times(bench, cur, vbat, n) == (Bench {
            oc_acc: (n * cur) as u32,
            oc_cnt: n as u32,
            i_raw: if n == 0 {
                bench.i_raw
            } else {
                cur
            },
            vbat_raw: if n == 0 {
                bench.vbat_raw
            } else {
                vbat
            },
            ..bench
        }),
        burst_kill(harvested_times(bench, cur, vbat, n), running, cur, vbat) == Some(1u16) <==> n
            == 1699 && cur >= 206,
        n == 1699 ==> {
            let next = harvested_bench(harvested_times(bench, cur, vbat, n), cur, vbat);
            next.oc_acc == 0 && next.oc_cnt == 0
        },
    decreases n,
{
    if n > 0 {
        law_overcurrent_takes_a_window(bench, running, cur, vbat, (n - 1) as nat);
    }
    assert((n - 1) * cur + cur == n * cur) by (nonlinear_arith);
    assert(0 <= n * cur <= 1700 * 0xFFFF) by (nonlinear_arith)
        requires
            0 <= n < 1700,
            0 <= cur <= 0xFFFF,
    ;
    assert(0 * cur == 0);
    if n == 1699 {
        assert(n * cur == 1699 * cur) by (nonlinear_arith)
            requires
                n == 1699,
        ;
    }
}

/// A full window kills on its sum, whatever the samples were; and a running
/// motor is killed by a battery sample under 793, a stopped one is not.
pub proof fn law_burst_kills(bench: Bench, running: bool, cur: u16, vbat: u16)
    ensures
        bench.oc_cnt >= 1699 ==> (burst_kill(bench, running, cur, vbat) == Some(1u16)
            <==> bench.oc_acc + cur >= 350_200),
        bench.oc_cnt < 1699 ==> (burst_kill(bench, running, cur, vbat) == Some(2u16) <==> running
            && vbat <= 792),
        bench.oc_cnt < 1699 && (!running || vbat >= 793) ==> burst_kill(
            bench,
            running,
            cur,
            vbat,
        ) is None,
{
}

/// A tick acknowledges itself, counts, and takes one ramp step of the duty,
/// which is the duty it applies; a latched kill takes none.
#[verifier::spinoff_prover]
#[verifier::rlimit(40)]
pub proof fn law_tick_applies_its_ramp<const N: usize>(w: World<N>, duty: Duty)
    requires
        duty.last_duty_cycle <= 2000,
        duty.duty_cycle_setpoint <= 2000,
        duty.tim1_arr < 0xFFFF,
    ensures
        ({
            let t = ticked(w, duty);
            let d = ticked_duty(w.sched, w.drive, duty);
            let last = duty.last_duty_cycle;
            let target = duty.duty_cycle_setpoint;
            let step: int = if w.drive.zero_crosses <= 149 || last <= 149 {
                2
            } else if w.sched.average_interval >= 501 {
                6
            } else {
                16
            };
            &&& t.obs.lt == w.obs.lt.push(HalEvent::LoopAck)
            &&& t.drive.tenkhz_counter == w.drive.tenkhz_counter.wrapping_add(1)
            &&& t.sched == w.sched
            &&& duty.killed ==> d == duty && t.motor == w.motor
            &&& !duty.killed ==> {
                let extra: int = if w.drive.running && duty.input >= 48 {
                    1
                } else {
                    0
                };
                let compare = t.motor.pwm.last()->DutyAll_0 - extra;
                &&& d.duty_cycle == d.last_duty_cycle
                &&& d.ramp_count == duty.ramp_count.wrapping_add(1)
                &&& last + step <= target ==> d.duty_cycle == last + step
                &&& target + step <= last ==> d.duty_cycle == last - step
                &&& last - step <= target <= last + step ==> d.duty_cycle == target
                &&& d.duty_cycle * duty.tim1_arr - 1999 <= 2000 * compare <= d.duty_cycle
                    * duty.tim1_arr
            }
        }),
{
    let v = ticked_duty_value(w.sched, w.drive, duty);
    crate::am32_loop::law_tick_ramps_the_duty(
        w.sched,
        w.drive,
        duty.last_duty_cycle,
        duty.duty_cycle_setpoint as int,
    );
    law_compare_is_the_duty_share(w.motor, w.drive, duty, v);
}

/// After the poll a tick feeds the deadman and looks at the samples: three
/// seconds of silence zero the throttle, and the verdict of the samples is
/// the last word.
#[verifier::spinoff_prover]
#[verifier::rlimit(40)]
pub proof fn law_tick_watches_link_and_samples<const N: usize>(
    w: World<N>,
    duty: Duty,
    bench: Bench,
    polled: World<N>,
    after: World<N>,
    duty2: Duty,
    bench2: Bench,
)
    requires
        tick_served(w, duty, bench, polled, after, duty2, bench2),
        bench.uart_deadman_ticks < u32::MAX,
    ensures
        ({
            let burst = burst_at(after.obs.adc, polled.obs.adc.len() as int);
            let kill = burst_kill(bench, polled.drive.running, burst.2, burst.3);
            &&& bench2.i_raw == burst.2 && bench2.vbat_raw == burst.3
            &&& bench.uart_deadman_ticks < 60_000 ==> bench2.uart_deadman_ticks
                == bench.uart_deadman_ticks + 1 && duty2.uart_duty_input == duty.uart_duty_input
            &&& bench.uart_deadman_ticks >= 60_000 ==> duty2.uart_duty_input == 0
                && duty2.adjusted_input == 0
            &&& after.obs.adc.len() == polled.obs.adc.len() + 1
            &&& kill is Some ==> {
                &&& duty2.killed && duty2.kill_reason == kill->0
                &&& duty2.duty_cycle == 0 && duty2.duty_cycle_setpoint == 0
                &&& duty2.last_duty_cycle == 0 && !after.drive.running
                &&& after.motor.log.len() == polled.motor.log.len() + 3
                &&& after.motor.log[polled.motor.log.len() as int] == HalEvent::AllOff
                &&& after.obs.bb.last() == HalEvent::Freeze
            }
            &&& kill is None ==> duty2.killed == duty.killed && after.motor == polled.motor
                && after.drive == polled.drive
        }),
{
}

/// A tick without a latched kill polls a running motor in the polling mode:
/// the comparator is masked and read once, and a read that takes the count
/// over the threshold commutates. Any other motor is left to the interrupts.
#[verifier::spinoff_prover]
#[verifier::rlimit(40)]
pub proof fn law_tick_polls_the_rotor<const N: usize>(
    w: World<N>,
    duty: Duty,
    bench: Bench,
    polled: World<N>,
    after: World<N>,
    duty2: Duty,
    bench2: Bench,
)
    requires
        tick_served(w, duty, bench, polled, after, duty2, bench2),
        !duty.killed,
        1 <= w.drive.current_step <= 6,
        !w.drive.zcfound,
        w.drive.bemf_counter < u16::MAX,
        w.drive.old_routine && w.drive.running ==> poll_fits(w.sched, w.drive, w.zct),
    ensures
        ({
            let n = w.motor.comp.len() as int;
            let level = level_at(polled.motor.comp, n + 1);
            let threshold = if w.drive.rising {
                w.drive.min_bemf_up
            } else {
                w.drive.min_bemf_down
            };
            let polls = w.drive.old_routine && w.drive.running;
            &&& polls ==> polled.motor.comp[n] == HalEvent::MaskComp && polled.motor.comp[n + 1]
                == HalEvent::Level(level)
            &&& polls && level == w.drive.rising && w.drive.bemf_counter >= threshold
                ==> polled.drive.current_step == w.drive.current_step as int % 6 + 1
            &&& polls && level == w.drive.rising && w.drive.bemf_counter < threshold
                ==> polled.drive.bemf_counter == w.drive.bemf_counter + 1
                && polled.drive.current_step == w.drive.current_step
            &&& !polls ==> polled.motor.comp == w.motor.comp && polled.motor.phase == w.motor.phase
                && polled.sched == w.sched
        }),
{
    let t = ticked(w, duty);
    assert(t.motor.comp == w.motor.comp && t.motor.phase == w.motor.phase);
    law_poll_finds_the_crossing(t, ticked_duty(w.sched, w.drive, duty), w.drive.running, polled);
}

} // verus!

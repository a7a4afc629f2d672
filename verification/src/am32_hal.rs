//! The hardware seams of the six-step drive, dispatched statically: the
//! control layer reaches hardware only through these traits.
//!
//! Every component keeps a ghost trace of the calls made on it, in order,
//! with the values that its reads returned, and a motor bundle keeps a log
//! of the calls on all its components, in order. A contract of the control
//! layer says what it adds to each. The seams beside the motor have traces
//! of their own, which are not merged with the motor's log. Both ends of a
//! critical section carry what it guards, so that a contract can say what
//! changed inside.

use vstd::prelude::*;

use crate::am32::ZCT_REC;
use crate::am32_loop::Sched;

verus! {

/// One call on a hardware component; a read carries the value it returned.
pub ghost enum HalEvent {
    /// All three duties.
    DutyAll(u16),
    /// Carrier reload.
    AutoReload(u16),
    /// Timer prescaler.
    Prescaler(u16),
    /// Compare value of channel 1.
    Compare1(u16),
    /// Compare value of channel 2.
    Compare2(u16),
    /// Compare value of channel 3.
    Compare3(u16),
    /// Update event.
    UpdateEvent,
    /// Dead-time override.
    DeadTime(u16),
    /// Bridge roles of a step.
    ComStep(u8),
    /// Every switch off.
    AllOff,
    /// Full brake.
    FullBrake,
    /// Every leg switching.
    AllPwm,
    /// Proportional brake.
    ProportionalBrake,
    /// Debug pulse of a step.
    Pulse(u8),
    /// Comparator level read.
    Level(bool),
    /// Step and edge to sense.
    Step(u8, bool),
    /// Input mux and edge applied.
    ChangeInput,
    /// Comparator interrupt on.
    EnableComp,
    /// Comparator interrupt off.
    MaskComp,
    /// Pending bit read.
    Pending(bool),
    /// Pending bit cleared.
    ClearPending,
    /// Interval count read.
    Count(u32),
    /// Interval count written.
    SetCount(u32),
    /// Commutation timer started with its interrupt.
    ComStart(u16),
    /// Commutation interrupt off.
    ComOff,
    /// Commutation interrupt on.
    ComOn,
    /// Commutation reload written.
    ComReload(u16),
    /// Commutation flag acknowledged.
    ComAck,
    /// Black-box event: type, sector, data.
    Record(u8, u8, u16),
    /// Black box frozen.
    Freeze,
    /// Injected burst read: phase A, phase B, current, battery.
    Burst(u16, u16, u16, u16),
    /// Loop-timer flag acknowledged.
    LoopAck,
}

/// The calls behind an implementation that does not say how it keeps them:
/// some function of its state, of which nothing is known.
pub open spec fn unseen<T: ?Sized, E>(x: &T) -> Seq<E> {
    let calls: spec_fn(&T) -> Seq<E> = arbitrary();
    calls(x)
}

/// A log with the calls that took a component's trace from `before` to
/// `after` added.
pub open spec fn extended(log: Seq<HalEvent>, before: Seq<HalEvent>, after: Seq<HalEvent>) -> Seq<
    HalEvent,
> {
    log + after.skip(before.len() as int)
}

/// One call on a component adds one event to the log.
pub broadcast proof fn lemma_extended_by_a_call(log: Seq<HalEvent>, before: Seq<HalEvent>, e: HalEvent)
    ensures
        #[trigger] extended(log, before, before.push(e)) == log.push(e),
{
    assert(before.push(e).skip(before.len() as int) =~= seq![e]);
    assert(log + seq![e] =~= log.push(e));
}

/// PWM output of the three phases.
pub trait PwmOutput {
    /// The calls made so far, for the contracts only: an implementation
    /// without proofs leaves it as it is.
    open spec fn trace(&self) -> Seq<HalEvent> {
        unseen(self)
    }

    /// Writes all three duties.
    fn set_duty_all(&mut self, duty: u16)
        ensures
            final(self).trace() == old(self).trace().push(HalEvent::DutyAll(duty)),
    ;

    /// Writes the carrier reload.
    fn set_auto_reload(&mut self, arr: u16)
        ensures
            final(self).trace() == old(self).trace().push(HalEvent::AutoReload(arr)),
    ;

    /// Writes the timer prescaler.
    fn set_prescaler(&mut self, psc: u16)
        ensures
            final(self).trace() == old(self).trace().push(HalEvent::Prescaler(psc)),
    ;

    /// Writes the compare value of channel 1.
    fn set_compare1(&mut self, val: u16)
        ensures
            final(self).trace() == old(self).trace().push(HalEvent::Compare1(val)),
    ;

    /// Writes the compare value of channel 2.
    fn set_compare2(&mut self, val: u16)
        ensures
            final(self).trace() == old(self).trace().push(HalEvent::Compare2(val)),
    ;

    /// Writes the compare value of channel 3.
    fn set_compare3(&mut self, val: u16)
        ensures
            final(self).trace() == old(self).trace().push(HalEvent::Compare3(val)),
    ;

    /// Generates an update event.
    fn generate_update_event(&mut self)
        ensures
            final(self).trace() == old(self).trace().push(HalEvent::UpdateEvent),
    ;

    /// Overrides the dead time, on top of the configured value.
    fn set_dead_time_override(&mut self, dtg: u16)
        ensures
            final(self).trace() == old(self).trace().push(HalEvent::DeadTime(dtg)),
    ;
}

/// Roles of the bridge legs.
pub trait PhaseOutput {
    /// The calls made so far, for the contracts only: an implementation
    /// without proofs leaves it as it is.
    open spec fn trace(&self) -> Seq<HalEvent> {
        unseen(self)
    }

    /// Applies the roles of a step, 1 to 6.
    fn com_step(&mut self, step: u8)
        ensures
            final(self).trace() == old(self).trace().push(HalEvent::ComStep(step)),
    ;

    /// Turns every switch off.
    fn all_off(&mut self)
        ensures
            final(self).trace() == old(self).trace().push(HalEvent::AllOff),
    ;

    /// Brakes fully.
    fn full_brake(&mut self)
        ensures
            final(self).trace() == old(self).trace().push(HalEvent::FullBrake),
    ;

    /// Switches every leg.
    fn all_pwm(&mut self)
        ensures
            final(self).trace() == old(self).trace().push(HalEvent::AllPwm),
    ;

    /// Brakes in proportion.
    fn proportional_brake(&mut self)
        ensures
            final(self).trace() == old(self).trace().push(HalEvent::ProportionalBrake),
    ;

    /// Toggles a debug pulse on a step; nothing on boards without the pin.
    fn pulse_toggle(&mut self, _step: u8)
        ensures
            final(self).trace() == old(self).trace() || final(self).trace() == old(
                self,
            ).trace().push(HalEvent::Pulse(_step)),
    {
    }
}

/// The comparator that senses the floating phase.
pub trait Comparator {
    /// The calls made so far, for the contracts only: an implementation
    /// without proofs leaves it as it is.
    open spec fn trace(&self) -> Seq<HalEvent> {
        unseen(self)
    }

    /// Reads the level.
    fn output_level(&mut self) -> (r: bool)
        ensures
            final(self).trace() == old(self).trace().push(HalEvent::Level(r)),
    ;

    /// Sets the step, 1 to 6, and the edge to sense.
    fn set_step(&mut self, step: u8, rising: bool)
        ensures
            final(self).trace() == old(self).trace().push(HalEvent::Step(step, rising)),
    ;

    /// Applies the step and the edge that were set.
    fn change_input(&mut self)
        ensures
            final(self).trace() == old(self).trace().push(HalEvent::ChangeInput),
    ;

    /// Unmasks the interrupt.
    fn enable_interrupts(&mut self)
        ensures
            final(self).trace() == old(self).trace().push(HalEvent::EnableComp),
    ;

    /// Masks the interrupt.
    fn mask_interrupts(&mut self)
        ensures
            final(self).trace() == old(self).trace().push(HalEvent::MaskComp),
    ;
}

/// The pending bit of the comparator's interrupt.
pub trait CompExti: Comparator {
    /// Reads the pending bit.
    fn exti_pending(&mut self) -> (r: bool)
        ensures
            final(self).trace() == old(self).trace().push(HalEvent::Pending(r)),
    ;

    /// Clears the pending bit.
    fn clear_pending(&mut self)
        ensures
            final(self).trace() == old(self).trace().push(HalEvent::ClearPending),
    ;
}

/// The timer that measures the commutation interval.
pub trait IntervalTimer {
    /// The calls made so far, for the contracts only: an implementation
    /// without proofs leaves it as it is.
    open spec fn trace(&self) -> Seq<HalEvent> {
        unseen(self)
    }

    /// Reads the count.
    fn count(&mut self) -> (r: u32)
        ensures
            final(self).trace() == old(self).trace().push(HalEvent::Count(r)),
    ;

    /// Writes the count.
    fn set_count(&mut self, val: u32)
        ensures
            final(self).trace() == old(self).trace().push(HalEvent::SetCount(val)),
    ;
}

/// The one-shot timer of the next commutation.
pub trait ComTimer {
    /// The calls made so far, for the contracts only: an implementation
    /// without proofs leaves it as it is.
    open spec fn trace(&self) -> Seq<HalEvent> {
        unseen(self)
    }

    /// Starts the timer with its interrupt.
    fn set_and_enable(&mut self, timeout: u16)
        ensures
            final(self).trace() == old(self).trace().push(HalEvent::ComStart(timeout)),
    ;

    /// Masks the interrupt.
    fn disable_interrupt(&mut self)
        ensures
            final(self).trace() == old(self).trace().push(HalEvent::ComOff),
    ;

    /// Unmasks the interrupt.
    fn enable_interrupt(&mut self)
        ensures
            final(self).trace() == old(self).trace().push(HalEvent::ComOn),
    ;
}

/// What the polling path and a shared interrupt vector need on top.
pub trait ComTimerExt: ComTimer {
    /// Writes the bare reload value.
    fn com_set_arr(&mut self, arr: u16)
        ensures
            final(self).trace() == old(self).trace().push(HalEvent::ComReload(arr)),
    ;

    /// Acknowledges the update flag.
    fn com_clear_flag(&mut self)
        ensures
            final(self).trace() == old(self).trace().push(HalEvent::ComAck),
    ;
}

/// The black box.
pub trait Recorder {
    /// The calls made so far, for the contracts only: an implementation
    /// without proofs leaves it as it is.
    open spec fn trace(&self) -> Seq<HalEvent> {
        unseen(self)
    }

    /// Records one event, timestamped by the recorder.
    fn record(&mut self, ty: u8, sector: u8, data: u16)
        ensures
            final(self).trace() == old(self).trace().push(HalEvent::Record(ty, sector, data)),
    ;

    /// Freezes the ring, so that it shows what led to a fault.
    fn freeze(&mut self)
        ensures
            final(self).trace() == old(self).trace().push(HalEvent::Freeze),
    ;
}

/// What a critical section guards, at one moment.
pub ghost enum Held {
    /// A trace ring: its records and its dropped count.
    Ring(Seq<[u8; ZCT_REC]>, u32),
    /// A zero-cross being timed: the schedule and the motor's calls.
    Crossing(Sched, MotorTrace),
}

/// Something that a critical section guards.
pub trait Guarded {
    /// What it is at this moment.
    spec fn held(&self) -> Held;
}

/// One end of a critical section, with what it guards at that moment. What
/// changed between the two ends changed inside.
pub ghost enum SectionEvent {
    /// Entered.
    Enter(Held),
    /// Left.
    Leave(Held),
}

/// Critical sections. Both ends are shown what the section guards.
pub trait Cs {
    /// The calls made so far, for the contracts only: an implementation
    /// without proofs leaves it as it is.
    open spec fn trace(&self) -> Seq<SectionEvent> {
        unseen(self)
    }

    /// Enters a critical section.
    fn enter<G: Guarded>(&mut self, guarded: &G)
        ensures
            final(self).trace() == old(self).trace().push(SectionEvent::Enter(guarded.held())),
    ;

    /// Leaves it.
    fn leave<G: Guarded>(&mut self, guarded: &G)
        ensures
            final(self).trace() == old(self).trace().push(SectionEvent::Leave(guarded.held())),
    ;
}

/// The injected ADC group, for telemetry and the two safety kills.
pub trait InjAdc {
    /// The calls made so far, for the contracts only: an implementation
    /// without proofs leaves it as it is.
    open spec fn trace(&self) -> Seq<HalEvent> {
        unseen(self)
    }

    /// Reads the newest burst: phase A, phase B, current, battery.
    fn inj_read(&mut self) -> (r: (u16, u16, u16, u16))
        ensures
            final(self).trace() == old(self).trace().push(HalEvent::Burst(r.0, r.1, r.2, r.3)),
    ;
}

/// The timer of the control loop.
pub trait LoopTimer {
    /// The calls made so far, for the contracts only: an implementation
    /// without proofs leaves it as it is.
    open spec fn trace(&self) -> Seq<HalEvent> {
        unseen(self)
    }

    /// Acknowledges the update flag.
    fn clear_flag(&mut self)
        ensures
            final(self).trace() == old(self).trace().push(HalEvent::LoopAck),
    ;
}

/// The motor peripherals of the interrupt level, bundled. An accessor lends
/// one component; the others stay as they are, and the calls made on it join
/// the log. The `_part` functions and the log are for the contracts only: an
/// implementation without proofs leaves them as they are.
pub trait MotorHal {
    /// PWM output.
    type Pwm: PwmOutput;

    /// Comparator.
    type Comp: Comparator;

    /// Bridge roles.
    type Phase: PhaseOutput;

    /// Interval timer.
    type Interval: IntervalTimer;

    /// Commutation timer.
    type Com: ComTimer;

    /// The PWM output.
    open spec fn pwm_part(&self) -> Self::Pwm {
        arbitrary()
    }

    /// The comparator.
    open spec fn comp_part(&self) -> Self::Comp {
        arbitrary()
    }

    /// The bridge roles.
    open spec fn phase_part(&self) -> Self::Phase {
        arbitrary()
    }

    /// The interval timer.
    open spec fn interval_part(&self) -> Self::Interval {
        arbitrary()
    }

    /// The commutation timer.
    open spec fn com_part(&self) -> Self::Com {
        arbitrary()
    }

    /// The calls made on the components through this bundle, in order.
    open spec fn log(&self) -> Seq<HalEvent> {
        unseen(self)
    }

    /// Lends the PWM output.
    fn pwm(&mut self) -> (r: &mut Self::Pwm)
        ensures
            *r == old(self).pwm_part(),
            final(self).pwm_part() == *final(r),
            final(self).log() == extended(
                old(self).log(),
                old(self).pwm_part().trace(),
                final(r).trace(),
            ),
            final(self).comp_part() == old(self).comp_part(),
            final(self).phase_part() == old(self).phase_part(),
            final(self).interval_part() == old(self).interval_part(),
            final(self).com_part() == old(self).com_part(),
    ;

    /// Lends the comparator.
    fn comp(&mut self) -> (r: &mut Self::Comp)
        ensures
            *r == old(self).comp_part(),
            final(self).comp_part() == *final(r),
            final(self).log() == extended(
                old(self).log(),
                old(self).comp_part().trace(),
                final(r).trace(),
            ),
            final(self).pwm_part() == old(self).pwm_part(),
            final(self).phase_part() == old(self).phase_part(),
            final(self).interval_part() == old(self).interval_part(),
            final(self).com_part() == old(self).com_part(),
    ;

    /// Lends the bridge roles.
    fn phase(&mut self) -> (r: &mut Self::Phase)
        ensures
            *r == old(self).phase_part(),
            final(self).phase_part() == *final(r),
            final(self).log() == extended(
                old(self).log(),
                old(self).phase_part().trace(),
                final(r).trace(),
            ),
            final(self).pwm_part() == old(self).pwm_part(),
            final(self).comp_part() == old(self).comp_part(),
            final(self).interval_part() == old(self).interval_part(),
            final(self).com_part() == old(self).com_part(),
    ;

    /// Lends the interval timer.
    fn interval(&mut self) -> (r: &mut Self::Interval)
        ensures
            *r == old(self).interval_part(),
            final(self).interval_part() == *final(r),
            final(self).log() == extended(
                old(self).log(),
                old(self).interval_part().trace(),
                final(r).trace(),
            ),
            final(self).pwm_part() == old(self).pwm_part(),
            final(self).comp_part() == old(self).comp_part(),
            final(self).phase_part() == old(self).phase_part(),
            final(self).com_part() == old(self).com_part(),
    ;

    /// Lends the commutation timer.
    fn com_timer(&mut self) -> (r: &mut Self::Com)
        ensures
            *r == old(self).com_part(),
            final(self).com_part() == *final(r),
            final(self).log() == extended(
                old(self).log(),
                old(self).com_part().trace(),
                final(r).trace(),
            ),
            final(self).pwm_part() == old(self).pwm_part(),
            final(self).comp_part() == old(self).comp_part(),
            final(self).phase_part() == old(self).phase_part(),
            final(self).interval_part() == old(self).interval_part(),
    ;
}

/// The components of a motor bundle.
pub ghost enum Part {
    /// PWM output.
    Pwm,
    /// Comparator.
    Comp,
    /// Bridge roles.
    Phase,
    /// Interval timer.
    Interval,
    /// Commutation timer.
    Com,
}

/// What a motor bundle needs to know for its log: the calls up to the last
/// lending, the component lent then, and the length of its trace at that
/// time. What the component's trace gained since comes after.
pub struct CallLog {
    /// The calls up to the last lending.
    pub settled: Ghost<Seq<HalEvent>>,
    /// The component lent last.
    pub lent: Ghost<Part>,
    /// The length of its trace at that time.
    pub mark: Ghost<nat>,
}

/// A motor bundle that holds its five components.
pub struct Motor<P, C, Ph, I, CT> {
    /// PWM output.
    pub pwm: P,
    /// Comparator.
    pub comp: C,
    /// Bridge roles.
    pub phase: Ph,
    /// Interval timer.
    pub interval: I,
    /// Commutation timer.
    pub com: CT,
    /// The calls so far.
    pub calls: CallLog,
}

impl<P: PwmOutput, C: Comparator, Ph: PhaseOutput, I: IntervalTimer, CT: ComTimer> Motor<
    P,
    C,
    Ph,
    I,
    CT,
> {
    /// A bundle of these components, with an empty log.
    pub fn new(pwm: P, comp: C, phase: Ph, interval: I, com: CT) -> (r: Self)
        ensures
            r.pwm == pwm,
            r.comp == comp,
            r.phase == phase,
            r.interval == interval,
            r.com == com,
            r.log() == Seq::<HalEvent>::empty(),
    {
        let calls = CallLog {
            settled: Ghost(Seq::empty()),
            lent: Ghost(Part::Pwm),
            mark: Ghost(pwm.trace().len()),
        };
        let r = Self { pwm, comp, phase, interval, com, calls };
        assert(r.log() =~= Seq::<HalEvent>::empty());
        r
    }

    /// The trace of the component lent last.
    pub open spec fn lent_trace(&self) -> Seq<HalEvent> {
        match self.calls.lent@ {
            Part::Pwm => self.pwm.trace(),
            Part::Comp => self.comp.trace(),
            Part::Phase => self.phase.trace(),
            Part::Interval => self.interval.trace(),
            Part::Com => self.com.trace(),
        }
    }
}

impl<P: PwmOutput, C: Comparator, Ph: PhaseOutput, I: IntervalTimer, CT: ComTimer> MotorHal for Motor<
    P,
    C,
    Ph,
    I,
    CT,
> {
    type Pwm = P;

    type Comp = C;

    type Phase = Ph;

    type Interval = I;

    type Com = CT;

    open spec fn pwm_part(&self) -> P {
        self.pwm
    }

    open spec fn comp_part(&self) -> C {
        self.comp
    }

    open spec fn phase_part(&self) -> Ph {
        self.phase
    }

    open spec fn interval_part(&self) -> I {
        self.interval
    }

    open spec fn com_part(&self) -> CT {
        self.com
    }

    open spec fn log(&self) -> Seq<HalEvent> {
        self.calls.settled@ + self.lent_trace().skip(self.calls.mark@ as int)
    }

    fn pwm(&mut self) -> (r: &mut P) {
        self.calls = CallLog {
            settled: Ghost(self.log()),
            lent: Ghost(Part::Pwm),
            mark: Ghost(self.pwm.trace().len()),
        };
        &mut self.pwm
    }

    fn comp(&mut self) -> (r: &mut C) {
        self.calls = CallLog {
            settled: Ghost(self.log()),
            lent: Ghost(Part::Comp),
            mark: Ghost(self.comp.trace().len()),
        };
        &mut self.comp
    }

    fn phase(&mut self) -> (r: &mut Ph) {
        self.calls = CallLog {
            settled: Ghost(self.log()),
            lent: Ghost(Part::Phase),
            mark: Ghost(self.phase.trace().len()),
        };
        &mut self.phase
    }

    fn interval(&mut self) -> (r: &mut I) {
        self.calls = CallLog {
            settled: Ghost(self.log()),
            lent: Ghost(Part::Interval),
            mark: Ghost(self.interval.trace().len()),
        };
        &mut self.interval
    }

    fn com_timer(&mut self) -> (r: &mut CT) {
        self.calls = CallLog {
            settled: Ghost(self.log()),
            lent: Ghost(Part::Com),
            mark: Ghost(self.com.trace().len()),
        };
        &mut self.com
    }
}

/// The seams beside the motor: black box, critical sections, injected ADC
/// and loop timer.
pub struct Observer<B, S, A, L> {
    /// Black box.
    pub bb: B,
    /// Critical sections.
    pub cs: S,
    /// Injected ADC.
    pub adc: A,
    /// Loop timer.
    pub lt: L,
}

/// The traces of the motor components.
#[verifier::ext_equal]
pub ghost struct MotorTrace {
    /// PWM output.
    pub pwm: Seq<HalEvent>,
    /// Comparator.
    pub comp: Seq<HalEvent>,
    /// Bridge roles.
    pub phase: Seq<HalEvent>,
    /// Interval timer.
    pub interval: Seq<HalEvent>,
    /// Commutation timer.
    pub com: Seq<HalEvent>,
    /// All of them, in order.
    pub log: Seq<HalEvent>,
}

/// The traces of a motor bundle.
pub open spec fn motor_trace<M: MotorHal>(m: M) -> MotorTrace {
    MotorTrace {
        pwm: m.pwm_part().trace(),
        comp: m.comp_part().trace(),
        phase: m.phase_part().trace(),
        interval: m.interval_part().trace(),
        com: m.com_part().trace(),
        log: m.log(),
    }
}

/// The traces of the seams beside the motor.
#[verifier::ext_equal]
pub ghost struct ObsTrace {
    /// Black box.
    pub bb: Seq<HalEvent>,
    /// Critical sections.
    pub cs: Seq<SectionEvent>,
    /// Injected ADC.
    pub adc: Seq<HalEvent>,
    /// Loop timer.
    pub lt: Seq<HalEvent>,
}

/// The traces of an observer bundle.
pub open spec fn obs_trace<B: Recorder, S: Cs, A: InjAdc, L: LoopTimer>(
    o: Observer<B, S, A, L>,
) -> ObsTrace {
    ObsTrace { bb: o.bb.trace(), cs: o.cs.trace(), adc: o.adc.trace(), lt: o.lt.trace() }
}

} // verus!

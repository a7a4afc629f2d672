//! The guard suite: every protective decision of the controller, as pure
//! logic. All of it is software and only helps while the core runs; the
//! hardware watchdog and the supply's current limit are the layers below.

use vstd::prelude::*;

use crate::bits::{max_of, min_of};

verus! {

/// Time in µs between two 10 µs tick counts, read last reference first: a
/// reference that is newer than `now` reads as no time at all.
pub open spec fn ticks_since(now: u32, last: u32) -> int {
    let d = now.wrapping_sub(last) as int;
    if d < u32::MAX / 2 {
        min_of(d * 10, u32::MAX as int)
    } else {
        0
    }
}

/// Wrapping time since a reference, in µs, with the top-bit clamp.
pub fn since_us(now_ticks_10us: u32, last_ticks_10us: u32) -> (r: u32)
    ensures
        r == ticks_since(now_ticks_10us, last_ticks_10us),
{
    let d: u32 = now_ticks_10us.wrapping_sub(last_ticks_10us);
    if d < u32::MAX / 2 {
        if d <= u32::MAX / 10 {
            d * 10
        } else {
            u32::MAX
        }
    } else {
        0
    }
}

/// Why a closed loop is lost.
#[derive(Debug, Clone, Copy, PartialEq, Eq, Structural)]
pub enum Kill {
    /// No accepted zero-cross for too long: the loop is flying blind.
    ZcStarved,
    /// Interval below the physical floor: the loop commutates its noise.
    Runaway,
    /// The commutation chain is silent.
    Desync,
}

/// What the watchdog asks for.
#[derive(Debug, Clone, Copy, PartialEq, Eq, Structural)]
pub enum WatchdogAction {
    /// Nothing to do.
    Nothing,
    /// Cut the duty, enter re-acquisition and ramp again; a strike.
    Reseed(Kill),
    /// Hard stop.
    Kill(Kill),
}

/// No accepted zero-cross for this long is no transient.
pub const BACKSTOP_NO_ZC_US: u32 = 22_500;

/// A re-seed ends after this many fresh accepts, one electrical turn.
pub const RESEED_EXIT_ACCEPTS: u8 = 6;

/// This many re-seeds without amnesty become a kill.
pub const RESEED_MAX_STRIKES: u8 = 4;

/// This many accepts since the last re-seed clear the strikes.
pub const RESEED_AMNESTY_ACCEPTS: u32 = 1_000;

/// Commanded amplitude while re-seeding, percent.
pub const RESEED_AMP_PCT: u16 = 6;

/// Intervals below this are a runaway, µs.
pub const RUNAWAY_US: u32 = 45;

/// The amplitude share left by the time since the last accept: whole up to
/// two and a half intervals, half up to five, a quarter beyond. The
/// interval counts as at least 100 µs.
pub open spec fn waited_amp(amp: int, since_qzc_us: int, interval_us: int) -> int {
    let iv = max_of(interval_us, 100);
    if interval_us == 0 {
        amp
    } else if since_qzc_us > iv * 5 {
        amp / 4
    } else if since_qzc_us * 2 > iv * 5 {
        amp / 2
    } else {
        amp
    }
}

/// Wait clamp: cuts the amplitude while a rotor-clocked loop waits for a
/// crossing that does not come.
pub fn wait_amp_clamp(amp: u16, since_qzc_us: u32, interval_us: u32) -> (r: u16)
    requires
        interval_us == 0 || {
            let iv = max_of(interval_us as int, 100);
            iv * 5 <= u32::MAX && (since_qzc_us > iv * 5 || since_qzc_us * 2 <= u32::MAX)
        },
    ensures
        r == waited_amp(amp as int, since_qzc_us as int, interval_us as int),
{
    if interval_us == 0 {
        return amp;
    }
    let iv: u32 = interval_us.max(100);
    if since_qzc_us > iv * 5 {
        amp / 4
    } else if since_qzc_us * 2 > iv * 5 {
        amp / 2
    } else {
        amp
    }
}

/// A window has run past its interval by more than an eighth.
pub open spec fn overdue(since_comm_us: u32, interval_us: u32) -> bool {
    interval_us != 0 && since_comm_us > interval_us + interval_us / 8
}

/// In-hold duty cut: the window has run an eighth past its interval.
pub fn wait_cut_due(since_comm_us: u32, interval_us: u32) -> (r: bool)
    requires
        interval_us + interval_us / 8 <= u32::MAX,
    ensures
        r == overdue(since_comm_us, interval_us),
{
    interval_us != 0 && since_comm_us > interval_us + interval_us / 8
}

/// No accept for twelve intervals (an interval counts as at least 500 µs).
pub open spec fn starved(interval_us: int, since_last_qzc_us: int, have_qzc_ref: bool) -> bool {
    have_qzc_ref && since_last_qzc_us > max_of(interval_us, 500) * 12
}

/// No commutation for three intervals (at least 1000 µs each).
pub open spec fn desynced(interval_us: int, since_last_comm_us: int) -> bool {
    since_last_comm_us > max_of(interval_us, 1_000) * 3
}

/// The bounds that the watchdogs compare with fit in 32 bits.
pub open spec fn watchdog_fits(interval_us: int, have_qzc_ref: bool) -> bool {
    &&& have_qzc_ref ==> max_of(interval_us, 500) * 12 <= u32::MAX
    &&& max_of(interval_us, 1_000) * 3 <= u32::MAX
}

/// The verdict of the re-seeding watchdog.
pub open spec fn reseed_action(
    interval_us: int,
    since_last_qzc_us: int,
    since_last_comm_us: int,
    have_qzc_ref: bool,
    strikes: int,
) -> WatchdogAction {
    let why = if starved(interval_us, since_last_qzc_us, have_qzc_ref) {
        Kill::ZcStarved
    } else {
        Kill::Desync
    };
    if interval_us == 0 {
        WatchdogAction::Nothing
    } else if have_qzc_ref && since_last_qzc_us > BACKSTOP_NO_ZC_US {
        WatchdogAction::Kill(Kill::ZcStarved)
    } else if interval_us < RUNAWAY_US {
        WatchdogAction::Kill(Kill::Runaway)
    } else if starved(interval_us, since_last_qzc_us, have_qzc_ref) || desynced(
        interval_us,
        since_last_comm_us,
    ) {
        if strikes >= RESEED_MAX_STRIKES {
            WatchdogAction::Kill(why)
        } else {
            WatchdogAction::Reseed(why)
        }
    } else {
        WatchdogAction::Nothing
    }
}

/// The re-seeding watchdog: recoverable losses of sync become re-seeds,
/// until the strikes run out.
pub fn cl_watchdog_r3(
    interval_us: u32,
    since_last_qzc_us: u32,
    since_last_comm_us: u32,
    have_qzc_ref: bool,
    strikes: u8,
) -> (r: WatchdogAction)
    requires
        interval_us < RUNAWAY_US || (have_qzc_ref && since_last_qzc_us > BACKSTOP_NO_ZC_US)
            || watchdog_fits(interval_us as int, have_qzc_ref),
    ensures
        r == reseed_action(
            interval_us as int,
            since_last_qzc_us as int,
            since_last_comm_us as int,
            have_qzc_ref,
            strikes as int,
        ),
{
    if interval_us == 0 {
        return WatchdogAction::Nothing;
    }
    if have_qzc_ref && since_last_qzc_us > BACKSTOP_NO_ZC_US {
        return WatchdogAction::Kill(Kill::ZcStarved);
    }
    if interval_us < RUNAWAY_US {
        return WatchdogAction::Kill(Kill::Runaway);
    }
    let starved: bool = have_qzc_ref && since_last_qzc_us > interval_us.max(500) * 12;
    let desynced: bool = since_last_comm_us > interval_us.max(1_000) * 3;
    if starved || desynced {
        let why: Kill = if starved {
            Kill::ZcStarved
        } else {
            Kill::Desync
        };
        if strikes >= RESEED_MAX_STRIKES {
            return WatchdogAction::Kill(why);
        }
        return WatchdogAction::Reseed(why);
    }
    WatchdogAction::Nothing
}

/// The verdict of the killing watchdog.
pub open spec fn kill_verdict(
    interval_us: int,
    since_last_qzc_us: int,
    since_last_comm_us: int,
    have_qzc_ref: bool,
) -> Option<Kill> {
    if interval_us == 0 {
        None
    } else if starved(interval_us, since_last_qzc_us, have_qzc_ref) {
        Some(Kill::ZcStarved)
    } else if interval_us < RUNAWAY_US {
        Some(Kill::Runaway)
    } else if desynced(interval_us, since_last_comm_us) {
        Some(Kill::Desync)
    } else {
        None
    }
}

/// The killing watchdog: every loss of sync is a kill.
pub fn cl_watchdog(
    interval_us: u32,
    since_last_qzc_us: u32,
    since_last_comm_us: u32,
    have_qzc_ref: bool,
) -> (r: Option<Kill>)
    requires
        interval_us < RUNAWAY_US || watchdog_fits(interval_us as int, have_qzc_ref) || (have_qzc_ref
            && max_of(interval_us as int, 500) * 12 <= u32::MAX && starved(
            interval_us as int,
            since_last_qzc_us as int,
            have_qzc_ref,
        )),
    ensures
        r == kill_verdict(
            interval_us as int,
            since_last_qzc_us as int,
            since_last_comm_us as int,
            have_qzc_ref,
        ),
{
    if interval_us == 0 {
        return None;
    }
    if have_qzc_ref && since_last_qzc_us > interval_us.max(500) * 12 {
        return Some(Kill::ZcStarved);
    }
    if interval_us < RUNAWAY_US {
        return Some(Kill::Runaway);
    }
    if since_last_comm_us > interval_us.max(1_000) * 3 {
        return Some(Kill::Desync);
    }
    None
}

/// About 5.95 V: below this the logic rail is one transient from a
/// brownout.
pub const VBAT_ABS_FLOOR_RAW: u16 = 793;

/// Consecutive samples under the threshold that make a sag.
pub const SAG_DEBOUNCE: u16 = 64;

/// Supply-sag kill: ten percent under the unloaded baseline or the
/// absolute floor, whichever is higher, debounced over consecutive
/// samples.
#[derive(Debug, Clone, Copy)]
pub struct SagGuard {
    /// Unloaded sample taken at arm.
    pub baseline_raw: u16,
    /// Consecutive samples under the threshold so far.
    pub run: u16,
    /// The sample that tripped.
    pub trip_raw: u16,
}

/// The sag threshold of a baseline.
pub open spec fn sag_threshold(baseline_raw: u16) -> int {
    max_of(baseline_raw - baseline_raw / 10, VBAT_ABS_FLOOR_RAW as int)
}

/// The run of low samples and the trip, after one sample.
pub open spec fn sag_next(baseline_raw: u16, run: int, raw: u16, debounce: int) -> (int, bool) {
    if raw >= sag_threshold(baseline_raw) {
        (0, false)
    } else if run + 1 >= debounce {
        (0, true)
    } else {
        (run + 1, false)
    }
}

impl SagGuard {
    /// A guard without a baseline.
    pub fn new() -> (r: Self)
        ensures
            r.baseline_raw == 0,
            r.run == 0,
            r.trip_raw == 0,
    {
        Self { baseline_raw: 0, run: 0, trip_raw: 0 }
    }

    /// Captures the unloaded baseline at arm.
    pub fn arm(&mut self, unloaded_raw: u16)
        ensures
            final(self).baseline_raw == unloaded_raw,
            final(self).run == 0,
            final(self).trip_raw == old(self).trip_raw,
    {
        self.baseline_raw = unloaded_raw;
        self.run = 0;
    }

    /// Samples under this count toward the trip.
    pub fn threshold_raw(&self) -> (r: u16)
        ensures
            r == sag_threshold(self.baseline_raw),
    {
        (self.baseline_raw - self.baseline_raw / 10).max(VBAT_ABS_FLOOR_RAW)
    }

    /// Takes one sample; true when the kill fires.
    pub fn sample(&mut self, raw: u16) -> (r: bool)
        requires
            raw < sag_threshold(old(self).baseline_raw) ==> old(self).run < u16::MAX,
        ensures
            (final(self).run as int, r) == sag_next(
                old(self).baseline_raw,
                old(self).run as int,
                raw,
                SAG_DEBOUNCE as int,
            ),
            final(self).run < SAG_DEBOUNCE,
            final(self).baseline_raw == old(self).baseline_raw,
            final(self).trip_raw == if r {
                raw
            } else {
                old(self).trip_raw
            },
    {
        if raw < self.threshold_raw() {
            self.run = self.run + 1;
            if self.run >= SAG_DEBOUNCE {
                self.trip_raw = raw;
                self.run = 0;
                return true;
            }
        } else {
            self.run = 0;
        }
        false
    }
}

impl Default for SagGuard {
    fn default() -> (r: Self)
        ensures
            r.baseline_raw == 0,
            r.run == 0,
            r.trip_raw == 0,
    {
        Self::new()
    }
}

/// The flags that an interrupt-level kill sets.
#[derive(Debug, Clone, Copy, PartialEq, Eq, Structural)]
pub struct KillFlags {
    /// The bridge may be driven.
    pub motor_enabled: bool,
    /// Closed loop engaged.
    pub cl_active: bool,
    /// Closed loop armed.
    pub cl_armed: bool,
    /// Report: sync lost.
    pub cl_desync: bool,
    /// The loss was a starvation.
    pub cl_starved: bool,
    /// Report: overcurrent.
    pub oc_tripped: bool,
    /// Report: supply sag.
    pub vbat_sagged: bool,
    /// The black box stopped recording.
    pub bb_frozen: bool,
    /// Cause of the last kill: 1 desync, 2 starved, 3 overcurrent, 4 sag;
    /// 0 for none yet.
    pub last_kill: u8,
}

/// The causes of an interrupt-level kill.
#[derive(Debug, Clone, Copy, PartialEq, Eq, Structural)]
pub enum IsrKillKind {
    /// Commutation silent.
    Desync,
    /// No zero-cross.
    Starved,
    /// Current over the limit.
    Overcurrent,
    /// Supply under the limit.
    Sag,
}

impl IsrKillKind {
    /// The code kept in [`KillFlags::last_kill`].
    pub open spec fn code(self) -> u8 {
        match self {
            IsrKillKind::Desync => 1,
            IsrKillKind::Starved => 2,
            IsrKillKind::Overcurrent => 3,
            IsrKillKind::Sag => 4,
        }
    }

    /// The kill is a loss of sync.
    pub open spec fn is_sync_loss(self) -> bool {
        self == IsrKillKind::Desync || self == IsrKillKind::Starved
    }
}

impl KillFlags {
    /// The flags after a kill.
    pub open spec fn killed(self, kind: IsrKillKind) -> KillFlags {
        KillFlags {
            motor_enabled: false,
            cl_active: false,
            cl_armed: false,
            last_kill: kind.code(),
            bb_frozen: self.bb_frozen || kind.is_sync_loss(),
            cl_starved: if kind.is_sync_loss() {
                kind == IsrKillKind::Starved
            } else {
                self.cl_starved
            },
            cl_desync: self.cl_desync || kind.is_sync_loss(),
            oc_tripped: self.oc_tripped || kind == IsrKillKind::Overcurrent,
            vbat_sagged: self.vbat_sagged || kind == IsrKillKind::Sag,
        }
    }
}

/// Sets the complete flag set of a kill. The flag that makes the main loop
/// report comes last, once the others are consistent.
pub fn apply_isr_kill(kf: &mut KillFlags, kind: IsrKillKind)
    ensures
        *final(kf) == old(kf).killed(kind),
{
    kf.motor_enabled = false;
    kf.cl_active = false;
    kf.cl_armed = false;
    kf.last_kill = match kind {
        IsrKillKind::Desync => 1,
        IsrKillKind::Starved => 2,
        IsrKillKind::Overcurrent => 3,
        IsrKillKind::Sag => 4,
    };
    match kind {
        IsrKillKind::Desync | IsrKillKind::Starved => {
            kf.bb_frozen = true;
            kf.cl_starved = kind == IsrKillKind::Starved;
            kf.cl_desync = true;
        },
        IsrKillKind::Overcurrent => {
            kf.oc_tripped = true;
        },
        IsrKillKind::Sag => {
            kf.vbat_sagged = true;
        },
    }
}

/// One sag sample with the debounce of the live carrier; returns the new
/// run and the trip.
pub fn sag_step_scaled(baseline_raw: u16, run: u16, raw: u16, debounce: u16) -> (r: (u16, bool))
    requires
        raw < sag_threshold(baseline_raw) ==> run < u16::MAX,
    ensures
        (r.0 as int, r.1) == sag_next(baseline_raw, run as int, raw, debounce as int),
{
    let threshold: u16 = (baseline_raw - baseline_raw / 10).max(VBAT_ABS_FLOOR_RAW);
    if raw < threshold {
        let run: u16 = run + 1;
        if run >= debounce {
            (0, true)
        } else {
            (run, false)
        }
    } else {
        (0, false)
    }
}

/// One sag sample on state kept outside a [`SagGuard`]; returns the new run
/// and the trip.
pub fn sag_step(baseline_raw: u16, run: u16, raw: u16) -> (r: (u16, bool))
    requires
        raw < sag_threshold(baseline_raw) ==> run < u16::MAX,
    ensures
        (r.0 as int, r.1) == sag_next(baseline_raw, run as int, raw, SAG_DEBOUNCE as int),
{
    let mut g = SagGuard { baseline_raw, run, trip_raw: 0 };
    let trip: bool = g.sample(raw);
    (g.run, trip)
}

/// The overcurrent average runs over two to this power PWM cycles.
pub const TRIP_WINDOW_SHIFT: u32 = 11;

/// PWM cycles of one overcurrent average.
pub const TRIP_WINDOW: u32 = 2_048;

/// The accumulator and the count after one sample, and the average when a
/// window completes.
pub open spec fn trip_stepped(acc: int, cnt: int, sample: int) -> (int, int, Option<int>) {
    if cnt + 1 < TRIP_WINDOW {
        (acc + sample, cnt + 1, None)
    } else {
        (0, 0, Some((acc + sample) / TRIP_WINDOW as int))
    }
}

/// One step of the windowed current average: the accumulator, the count,
/// and the average when a window completes.
pub fn trip_accum_step(acc: u32, cnt: u32, sample_raw: u16) -> (r: (u32, u32, Option<u32>))
    requires
        acc + sample_raw <= u32::MAX,
        cnt < u32::MAX,
    ensures
        ({
            let next = trip_stepped(acc as int, cnt as int, sample_raw as int);
            &&& r.0 == next.0
            &&& r.1 == next.1
            &&& r.2 == match next.2 {
                Some(avg) => Some(avg as u32),
                None => None,
            }
        }),
{
    let acc: u32 = acc + sample_raw as u32;
    let cnt: u32 = cnt + 1;
    if cnt >= TRIP_WINDOW {
        (0, 0, Some(acc / TRIP_WINDOW))
    } else {
        (acc, cnt, None)
    }
}

/// Overcurrent trip of an open loop, about 2 A of phase current.
pub const OC_OPEN_LOOP_RAW: u32 = 75;

/// Overcurrent trip under closed loop, about 4 A of phase current.
pub const OC_CLOSED_LOOP_RAW: u32 = 150;

/// The average is over the limit of the loop.
pub open spec fn over_limit(avg_phase_raw: u32, cl_active: bool) -> bool {
    if cl_active {
        avg_phase_raw > OC_CLOSED_LOOP_RAW
    } else {
        avg_phase_raw > OC_OPEN_LOOP_RAW
    }
}

/// Overcurrent decision on the windowed average of the phase current.
pub fn overcurrent(avg_phase_raw: u32, cl_active: bool) -> (r: bool)
    ensures
        r == over_limit(avg_phase_raw, cl_active),
{
    if cl_active {
        avg_phase_raw > OC_CLOSED_LOOP_RAW
    } else {
        avg_phase_raw > OC_OPEN_LOOP_RAW
    }
}

/// A field is fast below this interval, µs.
pub const ZOMBIE_IV_US: u32 = 125;

/// Current that no spinning rotor draws this little of under a fast field.
pub const ZOMBIE_I_RAW: u16 = 15;

/// Consecutive samples that make a zombie: 500 ms at 24 kHz.
pub const ZOMBIE_RUN: u16 = 12_000;

/// A fast field over a current that no spinning rotor draws.
pub open spec fn zombie_like(cl_active: bool, interval_us: u32, i_raw: u16) -> bool {
    cl_active && 0 < interval_us < ZOMBIE_IV_US && i_raw < ZOMBIE_I_RAW
}

/// The run of implausible samples after one cycle, and the trip.
pub open spec fn zombie_stepped(run: u16, cl_active: bool, interval_us: u32, i_raw: u16) -> (
    u16,
    bool,
) {
    if zombie_like(cl_active, interval_us, i_raw) {
        (run.saturating_add(1), run.saturating_add(1) >= ZOMBIE_RUN)
    } else {
        (0, false)
    }
}

/// One PWM cycle of the zombie-field detector: the run of implausible
/// samples, and the trip.
pub fn zombie_step(run: u16, cl_active: bool, interval_us: u32, i_raw: u16) -> (r: (u16, bool))
    ensures
        r == zombie_stepped(run, cl_active, interval_us, i_raw),
{
    if cl_active && interval_us > 0 && interval_us < ZOMBIE_IV_US && i_raw < ZOMBIE_I_RAW {
        let run: u16 = run.saturating_add(1);
        (run, run >= ZOMBIE_RUN)
    } else {
        (0, false)
    }
}

/// Current at or above this counts toward a burst, about 5 A.
pub const BURST_TRIP_RAW: u16 = 185;

/// Current below this counts toward its end, about 3 A.
pub const BURST_RELEASE_RAW: u16 = 110;

/// Cycles that engage the clamp.
pub const BURST_ON_RUN: u16 = 8;

/// Cycles that release it.
pub const BURST_OFF_RUN: u16 = 48;

/// Cycles after which a clamp that did not help becomes a kill.
pub const BURST_MAX_HOLD: u16 = 960;

/// State of the burst responder after a step.
#[derive(Debug, Clone, Copy, PartialEq, Eq, Structural)]
pub struct BurstStep {
    /// Consecutive high cycles, while not clamping.
    pub run: u16,
    /// Consecutive low cycles, while clamping.
    pub cool: u16,
    /// Cycles of the clamp so far.
    pub hold: u16,
    /// The clamp is on.
    pub active: bool,
    /// The clamp did not bring the current down: kill.
    pub kill: bool,
}

impl BurstStep {
    /// The responder at rest.
    pub open spec fn idle() -> BurstStep {
        BurstStep { run: 0, cool: 0, hold: 0, active: false, kill: false }
    }

    /// The state after one cycle with current `i_raw`.
    pub open spec fn after(self, i_raw: u16) -> BurstStep {
        if !self.active {
            let run = if i_raw >= BURST_TRIP_RAW {
                self.run.saturating_add(1)
            } else {
                0
            };
            BurstStep {
                run: if run >= BURST_ON_RUN {
                    0
                } else {
                    run
                },
                active: run >= BURST_ON_RUN,
                ..BurstStep::idle()
            }
        } else {
            let hold = self.hold.saturating_add(1);
            let cool = if i_raw < BURST_RELEASE_RAW {
                self.cool.saturating_add(1)
            } else {
                0
            };
            if hold >= BURST_MAX_HOLD {
                BurstStep { hold, active: true, kill: true, ..BurstStep::idle() }
            } else if cool >= BURST_OFF_RUN {
                BurstStep::idle()
            } else {
                BurstStep { cool, hold, active: true, ..BurstStep::idle() }
            }
        }
    }

    /// The state after a train of cycles.
    pub open spec fn after_all(self, samples: Seq<u16>) -> BurstStep
        decreases samples.len(),
    {
        if samples.len() == 0 {
            self
        } else {
            self.after_all(samples.drop_last()).after(samples.last())
        }
    }
}

/// One PWM cycle of the burst responder, which clamps the amplitude while a
/// current burst lasts.
pub fn burst_step(run: u16, cool: u16, hold: u16, active: bool, i_raw: u16) -> (r: BurstStep)
    ensures
        r == (BurstStep { run, cool, hold, active, kill: false }).after(i_raw),
{
    if !active {
        let run: u16 = if i_raw >= BURST_TRIP_RAW {
            run.saturating_add(1)
        } else {
            0
        };
        if run >= BURST_ON_RUN {
            BurstStep { run: 0, cool: 0, hold: 0, active: true, kill: false }
        } else {
            BurstStep { run, cool: 0, hold: 0, active: false, kill: false }
        }
    } else {
        let hold: u16 = hold.saturating_add(1);
        if hold >= BURST_MAX_HOLD {
            return BurstStep { run: 0, cool: 0, hold, active: true, kill: true };
        }
        if i_raw < BURST_RELEASE_RAW {
            let cool: u16 = cool.saturating_add(1);
            if cool >= BURST_OFF_RUN {
                BurstStep { run: 0, cool: 0, hold: 0, active: false, kill: false }
            } else {
                BurstStep { run: 0, cool, hold, active: true, kill: false }
            }
        } else {
            BurstStep { run: 0, cool: 0, hold, active: true, kill: false }
        }
    }
}

/// Two thirds of an amplitude, at least 1.
pub open spec fn two_thirds(amp: int) -> int {
    max_of(amp * 2 / 3, 1)
}

/// The amplitude through the burst clamp.
pub open spec fn burst_amp(base_amp: u16, burst_active: bool) -> int {
    if burst_active {
        two_thirds(base_amp as int)
    } else {
        base_amp as int
    }
}

/// Amplitude through the burst clamp: two thirds while a burst is live.
pub fn burst_amp_clamp(base_amp: u16, burst_active: bool) -> (r: u16)
    requires
        burst_active ==> base_amp * 2 <= u16::MAX,
    ensures
        r == burst_amp(base_amp, burst_active),
{
    if burst_active {
        (base_amp * 2 / 3).max(1)
    } else {
        base_amp
    }
}

/// The amplitude of a loop that missed `noz_run` zero-crosses in a row:
/// whole below three, two thirds below six, a third from there.
pub open spec fn blind_amp(base_amp: int, noz_run: int) -> int {
    if noz_run < 3 {
        base_amp
    } else if noz_run < 6 {
        two_thirds(base_amp)
    } else {
        max_of(base_amp / 3, 1)
    }
}

/// Amplitude clamp of a loop that is flying blind.
pub fn blind_amp_clamp(base_amp: u16, noz_run: u8) -> (r: u16)
    requires
        3 <= noz_run < 6 ==> base_amp * 2 <= u16::MAX,
    ensures
        r == blind_amp(base_amp as int, noz_run as int),
{
    if noz_run < 3 {
        base_amp
    } else if noz_run < 6 {
        (base_amp * 2 / 3).max(1)
    } else {
        (base_amp / 3).max(1)
    }
}

/// A reference taken up to half the clock's range ahead of `now` reads as
/// no time: the race that makes it newer cannot fire a watchdog.
pub proof fn law_newer_reference_reads_as_no_time(now: u32, ahead: u32)
    requires
        1 <= ahead <= u32::MAX / 2 + 1,
    ensures
        ticks_since(now, now.wrapping_add(ahead)) == 0,
{
}

/// Elapsed ticks are read exactly, across the wrap of the clock, as long as
/// the µs value fits.
pub proof fn law_since_is_exact(last: u32, ticks: u32)
    requires
        ticks * 10 <= u32::MAX,
    ensures
        ticks_since(last.wrapping_add(ticks), last) == ticks * 10,
{
}

/// Every re-seed stands for a kill of the plain watchdog, for the same
/// reason; and where the plain watchdog is content, only the backstop acts.
pub proof fn law_reseeds_replace_kills(iv: int, qzc: int, comm: int, have: bool, strikes: int)
    ensures
        reseed_action(iv, qzc, comm, have, strikes) matches WatchdogAction::Reseed(why)
            ==> kill_verdict(iv, qzc, comm, have) == Some(why),
        kill_verdict(iv, qzc, comm, have) is None && !(have && qzc > BACKSTOP_NO_ZC_US)
            ==> reseed_action(iv, qzc, comm, have, strikes) == WatchdogAction::Nothing,
        kill_verdict(iv, qzc, comm, have) is Some ==> reseed_action(iv, qzc, comm, have, strikes)
            != WatchdogAction::Nothing,
{
}

/// Strikes escalate: at the limit nothing is re-seeded any more, and what
/// was re-seeded is killed for the same reason.
pub proof fn law_strikes_escalate(iv: int, qzc: int, comm: int, have: bool, strikes: int)
    ensures
        strikes >= RESEED_MAX_STRIKES ==> !(reseed_action(iv, qzc, comm, have, strikes) is Reseed),
        reseed_action(iv, qzc, comm, have, 0) matches WatchdogAction::Reseed(why)
            ==> reseed_action(iv, qzc, comm, have, RESEED_MAX_STRIKES as int)
            == WatchdogAction::Kill(why),
{
}

/// No kill leaves the drive half alive: the bridge, the loop and its arm
/// are off whatever the cause, and the cause is recorded.
pub proof fn law_kill_leaves_nothing_alive(kf: KillFlags, kind: IsrKillKind)
    ensures
        !kf.killed(kind).motor_enabled,
        !kf.killed(kind).cl_active,
        !kf.killed(kind).cl_armed,
        kf.killed(kind).last_kill == kind.code(),
        kf.killed(kind).last_kill != 0,
        kf.killed(kind).killed(kind) == kf.killed(kind),
{
}

/// The run of low samples, and whether any tripped, after a train of sag
/// samples.
pub open spec fn sag_train(baseline_raw: u16, run: int, samples: Seq<u16>, debounce: int) -> (
    int,
    bool,
)
    decreases samples.len(),
{
    if samples.len() == 0 {
        (run, false)
    } else {
        let before = sag_train(baseline_raw, run, samples.drop_last(), debounce);
        let now = sag_next(baseline_raw, before.0, samples.last(), debounce);
        (now.0, before.1 || now.1)
    }
}

/// A sustained sag trips at exactly the debounce count, and not before.
pub proof fn law_sag_trips_at_the_debounce(baseline_raw: u16, samples: Seq<u16>, debounce: int)
    requires
        debounce > 0,
        samples.len() <= debounce,
        forall|k: int| 0 <= k < samples.len() ==> samples[k] < sag_threshold(baseline_raw),
    ensures
        sag_train(baseline_raw, 0, samples, debounce).1 == (samples.len() == debounce),
        samples.len() < debounce ==> sag_train(baseline_raw, 0, samples, debounce).0
            == samples.len(),
    decreases samples.len(),
{
    if samples.len() > 0 {
        law_sag_trips_at_the_debounce(baseline_raw, samples.drop_last(), debounce);
    }
}

/// One recovered sample forgets the run: what follows is as if the guard
/// were fresh.
pub proof fn law_recovery_resets_the_sag(baseline_raw: u16, run: int, raw: u16, debounce: int)
    requires
        raw >= sag_threshold(baseline_raw),
    ensures
        sag_next(baseline_raw, run, raw, debounce) == (0int, false),
{
}

/// The zombie detector after `n` equal samples in a row, from its start.
pub open spec fn zombie_train(interval_us: u32, i_raw: u16, n: nat) -> (u16, bool)
    decreases n,
{
    if n == 0 {
        (0, false)
    } else {
        zombie_stepped(zombie_train(interval_us, i_raw, (n - 1) as nat).0, true, interval_us, i_raw)
    }
}

/// The zombie detector trips at its 12 000th sample in a row of a current
/// under 15 and an interval under 125 µs, and not before. Any other sample,
/// and an open loop, starts it over.
pub proof fn law_zombie_trips_at_its_run(interval_us: u32, i_raw: u16, run: u16, n: nat)
    requires
        n <= u16::MAX,
    ensures
        1 <= interval_us <= 124 && i_raw <= 14 ==> zombie_train(interval_us, i_raw, n) == (
            n as u16,
            n >= 12_000,
        ),
        interval_us == 0 || interval_us >= 125 || i_raw >= 15 ==> zombie_stepped(
            run,
            true,
            interval_us,
            i_raw,
        ) == (0u16, false),
        zombie_stepped(run, false, interval_us, i_raw) == (0u16, false),
    decreases n,
{
    if n > 0 {
        law_zombie_trips_at_its_run(interval_us, i_raw, run, (n - 1) as nat);
    }
}

/// The eight cycles from `i` on are all over the burst threshold.
pub open spec fn burst_at(samples: Seq<u16>, i: int) -> bool {
    0 <= i && i + BURST_ON_RUN <= samples.len() && (forall|k: int|
        i <= k < i + BURST_ON_RUN ==> samples[k] >= BURST_TRIP_RAW)
}

/// Some eight cycles in a row are all over the burst threshold.
pub open spec fn has_burst(samples: Seq<u16>) -> bool {
    exists|i: int| burst_at(samples, i)
}

/// While no eight cycles in a row were high, the responder is off and its
/// run counts the high cycles at the end.
proof fn lemma_quiet_train(samples: Seq<u16>)
    requires
        !has_burst(samples),
    ensures
        ({
            let s = BurstStep::idle().after_all(samples);
            &&& !s.active && !s.kill
            &&& s.run < BURST_ON_RUN && s.run <= samples.len()
            &&& forall|k: int|
                samples.len() - s.run <= k < samples.len() ==> samples[k] >= BURST_TRIP_RAW
        }),
    decreases samples.len(),
{
    if samples.len() > 0 {
        let front = samples.drop_last();
        assert(!has_burst(front)) by {
            if has_burst(front) {
                let i = choose|i: int| burst_at(front, i);
                assert forall|k: int| i <= k < i + BURST_ON_RUN implies samples[k]
                    >= BURST_TRIP_RAW by {
                    assert(front[k] == samples[k]);
                }
                assert(burst_at(samples, i));
            }
        }
        lemma_quiet_train(front);
        let s = BurstStep::idle().after_all(front);
        if samples.last() >= BURST_TRIP_RAW {
            assert forall|k: int| samples.len() - (s.run + 1) <= k < samples.len() implies samples[k]
                >= BURST_TRIP_RAW by {
                if k < front.len() {
                    assert(front[k] == samples[k]);
                }
            }
            if s.run + 1 >= BURST_ON_RUN {
                let i = samples.len() - BURST_ON_RUN;
                assert(burst_at(samples, i));
            }
        }
    }
}

/// The clamp never engages without eight high cycles in a row: shorter
/// spikes pass untouched, however many there are.
pub proof fn law_burst_needs_a_sustained_run(samples: Seq<u16>)
    requires
        !has_burst(samples),
    ensures
        !BurstStep::idle().after_all(samples).active,
        !BurstStep::idle().after_all(samples).kill,
{
    lemma_quiet_train(samples);
}

/// Eight high cycles in a row engage a responder that is off.
pub proof fn law_sustained_burst_engages(s: BurstStep, samples: Seq<u16>)
    requires
        !s.active,
        samples.len() == BURST_ON_RUN,
        forall|k: int| 0 <= k < samples.len() ==> samples[k] >= BURST_TRIP_RAW,
    ensures
        exists|n: int|
            #![trigger samples.take(n)]
            0 <= n <= samples.len() && s.after_all(samples.take(n)).active,
{
    lemma_high_cycles_count(s, samples, samples.len() as int);
}

/// High cycles count up until the clamp engages.
proof fn lemma_high_cycles_count(s: BurstStep, samples: Seq<u16>, n: int)
    requires
        !s.active,
        samples.len() == BURST_ON_RUN,
        forall|k: int| 0 <= k < samples.len() ==> samples[k] >= BURST_TRIP_RAW,
        0 <= n <= samples.len(),
    ensures
        (exists|m: int|
            #![trigger samples.take(m)]
            0 <= m <= n && s.after_all(samples.take(m)).active) || (s.after_all(
            samples.take(n),
        ).run >= n && !s.after_all(samples.take(n)).active && n < BURST_ON_RUN),
    decreases n,
{
    if n > 0 {
        lemma_high_cycles_count(s, samples, n - 1);
        assert(samples.take(n).drop_last() =~= samples.take(n - 1));
        assert(samples.take(n).last() == samples[n - 1]);
    }
}

/// While it stays on without a kill, the clamp counts its cycles.
proof fn lemma_clamp_counts(s: BurstStep, samples: Seq<u16>)
    requires
        s.active,
        forall|n: int|
            0 <= n <= samples.len() ==> (#[trigger] s.after_all(samples.take(n))).active
                && !s.after_all(samples.take(n)).kill,
    ensures
        s.after_all(samples).hold == s.hold + samples.len(),
        s.after_all(samples).active && !s.after_all(samples).kill,
        samples.len() > 0 ==> s.hold + samples.len() < BURST_MAX_HOLD,
    decreases samples.len(),
{
    assert(samples.take(samples.len() as int) =~= samples);
    if samples.len() > 0 {
        let front = samples.drop_last();
        assert forall|n: int| 0 <= n <= front.len() implies (#[trigger] s.after_all(
            front.take(n),
        )).active && !s.after_all(front.take(n)).kill by {
            assert(front.take(n) =~= samples.take(n));
        }
        lemma_clamp_counts(s, front);
    }
}

/// A clamp is not kept up for ever: within its longest hold it either lets
/// go or becomes a kill, whatever the current does.
pub proof fn law_clamp_releases_or_kills(s: BurstStep, samples: Seq<u16>)
    requires
        s.active,
        s.hold == 0,
        samples.len() == BURST_MAX_HOLD,
    ensures
        exists|n: int|
            0 <= n <= samples.len() && (!(#[trigger] s.after_all(samples.take(n))).active
                || s.after_all(samples.take(n)).kill),
{
    if forall|n: int|
        0 <= n <= samples.len() ==> (#[trigger] s.after_all(samples.take(n))).active
            && !s.after_all(samples.take(n)).kill {
        lemma_clamp_counts(s, samples);
    }
}

/// The clamps only ever reduce an amplitude. (An amplitude of 0 would come
/// out of a live clamp as 1.)
pub proof fn law_clamps_only_reduce(amp: int, noz_run: int, since: int, interval: int)
    requires
        amp >= 1,
    ensures
        1 <= two_thirds(amp) <= amp,
        1 <= blind_amp(amp, noz_run) <= amp,
        0 <= waited_amp(amp, since, interval) <= amp,
{
}

/// A longer blind run, or a longer wait, never raises the amplitude.
pub proof fn law_clamps_deepen(amp: int, run: int, longer: int, since: int, later: int, interval: int)
    requires
        amp >= 1,
        run <= longer,
        since <= later,
        interval >= 0,
    ensures
        blind_amp(amp, longer) <= blind_amp(amp, run),
        waited_amp(amp, later, interval) <= waited_amp(amp, since, interval),
{
}

/// The wait clamp: whole up to two and a half intervals since the last
/// accept, half up to five, a quarter beyond, an interval counting as 100 µs
/// at least; none before the first interval.
pub proof fn law_wait_clamp_has_two_steps(amp: int, since: int, interval: int)
    requires
        0 <= amp,
        0 <= since,
        0 <= interval,
    ensures
        waited_amp(amp, since, 0) == amp,
        1 <= interval <= 100 ==> waited_amp(amp, since, interval) == waited_amp(amp, since, 100),
        interval >= 100 ==> {
            let left = waited_amp(amp, since, interval);
            &&& 2 * since <= 5 * interval ==> left == amp
            &&& 2 * since > 5 * interval && since <= 5 * interval ==> amp - 1 <= 2 * left <= amp
            &&& since > 5 * interval ==> amp - 3 <= 4 * left <= amp
        },
{
}

/// The in-hold cut is due past nine eighths of the interval, and never
/// without one.
pub proof fn law_cut_is_due_past_nine_eighths(since_us: u32, interval_us: u32)
    ensures
        !overdue(since_us, 0),
        8 * since_us <= 8 * interval_us ==> !overdue(since_us, interval_us),
        interval_us != 0 && 8 * since_us > 9 * interval_us ==> overdue(since_us, interval_us),
        8 * since_us + 8 <= 9 * interval_us ==> !overdue(since_us, interval_us),
{
}

/// When a loop is lost: starved past twelve intervals without an accept (of
/// 500 µs at least), desynced past three without a commutation (of 1000 µs
/// at least), a runaway under 45 µs. The plain watchdog kills for the first
/// of starvation, runaway and desync that holds; without an interval it is
/// content, and without a reference nothing starves.
pub proof fn law_watchdog_kills_a_lost_loop(iv: int, qzc: int, comm: int, have: bool)
    requires
        0 <= iv,
    ensures
        kill_verdict(0, qzc, comm, have) is None,
        iv > 0 ==> {
            let starving = have && qzc > 12 * iv && qzc > 6_000;
            let silent = comm > 3 * iv && comm > 3_000;
            let v = kill_verdict(iv, qzc, comm, have);
            &&& v == Some(Kill::ZcStarved) <==> starving
            &&& v == Some(Kill::Runaway) <==> !starving && iv <= 44
            &&& v == Some(Kill::Desync) <==> !starving && iv >= 45 && silent
            &&& v is None <==> !starving && iv >= 45 && !silent
        },
{
}

/// The re-seeding watchdog kills at once past 22.5 ms without an accept and
/// on a runaway. A starved or desynced loop is re-seeded up to four strikes,
/// and killed from the fourth on.
pub proof fn law_watchdog_reseeds_a_lost_loop(
    iv: int,
    qzc: int,
    comm: int,
    have: bool,
    strikes: int,
)
    requires
        0 <= iv,
    ensures
        reseed_action(0, qzc, comm, have, strikes) == WatchdogAction::Nothing,
        iv > 0 ==> {
            let blind = have && qzc > 22_500;
            let starving = have && qzc > 12 * iv && qzc > 6_000;
            let silent = comm > 3 * iv && comm > 3_000;
            let a = reseed_action(iv, qzc, comm, have, strikes);
            &&& blind ==> a == WatchdogAction::Kill(Kill::ZcStarved)
            &&& !blind && iv <= 44 ==> a == WatchdogAction::Kill(Kill::Runaway)
            &&& !blind && iv >= 45 && starving ==> a == if strikes >= 4 {
                WatchdogAction::Kill(Kill::ZcStarved)
            } else {
                WatchdogAction::Reseed(Kill::ZcStarved)
            }
            &&& !blind && iv >= 45 && !starving && silent ==> a == if strikes >= 4 {
                WatchdogAction::Kill(Kill::Desync)
            } else {
                WatchdogAction::Reseed(Kill::Desync)
            }
            &&& !blind && iv >= 45 && !starving && !silent ==> a == WatchdogAction::Nothing
        },
{
}

/// The sag threshold is nine tenths of the baseline, up to rounding up, but
/// 793 at least; a sample under it counts, and one at it starts over. The
/// plain guard takes 64 samples.
pub proof fn law_sag_threshold_is_nine_tenths(baseline: u16, run: int, raw: u16, debounce: int)
    requires
        0 <= run,
        run + 1 < debounce,
    ensures
        sag_threshold(baseline) >= 793,
        sag_threshold(baseline) > 793 ==> 9 * baseline <= 10 * sag_threshold(baseline) <= 9
            * baseline + 9,
        sag_threshold(baseline) == 793 ==> 9 * baseline <= 7_930,
        raw < sag_threshold(baseline) ==> sag_next(baseline, run, raw, debounce) == (
            run + 1,
            false,
        ),
        raw >= sag_threshold(baseline) ==> sag_next(baseline, run, raw, debounce) == (0int, false),
        SAG_DEBOUNCE == 64,
{
}

/// Each kill has its own report: a loss of sync freezes the black box and
/// says whether it starved; an overcurrent and a sag set their own flag and
/// leave the others alone. The codes are 1 to 4 in that order.
pub proof fn law_kills_report_their_cause(kf: KillFlags)
    ensures
        ({
            let d = kf.killed(IsrKillKind::Desync);
            let s = kf.killed(IsrKillKind::Starved);
            let o = kf.killed(IsrKillKind::Overcurrent);
            let v = kf.killed(IsrKillKind::Sag);
            &&& d.last_kill == 1 && s.last_kill == 2 && o.last_kill == 3 && v.last_kill == 4
            &&& d.cl_desync && !d.cl_starved && d.bb_frozen
            &&& s.cl_desync && s.cl_starved && s.bb_frozen
            &&& d.oc_tripped == kf.oc_tripped && d.vbat_sagged == kf.vbat_sagged
            &&& s.oc_tripped == kf.oc_tripped && s.vbat_sagged == kf.vbat_sagged
            &&& o.oc_tripped && o.vbat_sagged == kf.vbat_sagged && o.cl_desync == kf.cl_desync
            &&& v.vbat_sagged && v.oc_tripped == kf.oc_tripped && v.cl_desync == kf.cl_desync
            &&& o.bb_frozen == kf.bb_frozen && v.bb_frozen == kf.bb_frozen
            &&& o.cl_starved == kf.cl_starved && v.cl_starved == kf.cl_starved
        }),
{
}

/// The current average after `n` equal samples from its start.
pub open spec fn trip_train(sample: int, n: nat) -> (int, int, Option<int>)
    decreases n,
{
    if n == 0 {
        (0, 0, None)
    } else {
        let before = trip_train(sample, (n - 1) as nat);
        trip_stepped(before.0, before.1, sample)
    }
}

/// The current is averaged over 2048 cycles: equal samples average to
/// themselves at the last of them, and say nothing before.
pub proof fn law_current_is_averaged_over_its_window(sample: int, n: nat)
    requires
        0 <= sample,
        n <= 2048,
    ensures
        n < 2048 ==> trip_train(sample, n) == (n * sample, n as int, None::<int>),
        n == 2048 ==> trip_train(sample, n) == (0int, 0int, Some(sample)),
    decreases n,
{
    if n > 0 {
        law_current_is_averaged_over_its_window(sample, (n - 1) as nat);
    }
    assert((n - 1) * sample + sample == n * sample) by (nonlinear_arith);
    assert(0 * sample == 0);
    if n == 2048 {
        assert(n * sample == 2048 * sample) by (nonlinear_arith)
            requires
                n == 2048,
        ;
    }
}

/// Whatever the samples were, a full window averages their sum, up to
/// rounding down.
pub proof fn law_full_window_averages_its_sum(acc: int, cnt: int, sample: int)
    requires
        cnt >= 2047,
    ensures
        trip_stepped(acc, cnt, sample).2 is Some,
        ({
            let avg = trip_stepped(acc, cnt, sample).2->0;
            acc + sample - 2047 <= 2048 * avg <= acc + sample
        }),
{
}

/// An average trips over 75 in an open loop and over 150 in a closed one.
pub proof fn law_closed_loop_allows_twice_the_current(avg: u32)
    ensures
        over_limit(avg, false) <==> avg >= 76,
        over_limit(avg, true) <==> avg >= 151,
        over_limit(avg, true) ==> over_limit(avg, false),
{
}

/// A cycle of the burst responder that is off: a current from 185 up counts,
/// any other starts over, and the eighth in a row engages the clamp.
pub proof fn law_burst_engages_at_eight(run: u16, i_raw: u16)
    requires
        run <= 7,
    ensures
        ({
            let s = BurstStep { run, cool: 0, hold: 0, active: false, kill: false };
            &&& i_raw <= 184 ==> s.after(i_raw) == BurstStep::idle()
            &&& i_raw >= 185 && run <= 6 ==> s.after(i_raw) == (BurstStep {
                run: (run + 1) as u16,
                ..s
            })
            &&& i_raw >= 185 && run == 7 ==> s.after(i_raw) == (BurstStep {
                run: 0,
                active: true,
                ..s
            })
        }),
{
}

/// A cycle of the clamp: a current under 110 cools, any other starts the
/// cooling over; the 48th in a row lets go, and the 960th cycle of the clamp
/// is a kill.
pub proof fn law_clamp_cools_or_kills(cool: u16, hold: u16, i_raw: u16)
    requires
        cool <= 47,
        hold <= 959,
    ensures
        ({
            let s = BurstStep { run: 0, cool, hold, active: true, kill: false };
            let t = s.after(i_raw);
            &&& hold == 959 ==> t.kill && t.active
            &&& hold <= 958 ==> !t.kill
            &&& hold <= 958 && i_raw >= 110 ==> t.active && t.cool == 0 && t.hold == hold + 1
            &&& hold <= 958 && i_raw <= 109 && cool <= 46 ==> t.active && t.cool == cool + 1
                && t.hold == hold + 1
            &&& hold <= 958 && i_raw <= 109 && cool == 47 ==> t == BurstStep::idle()
        }),
{
}

/// The clamps take their share: a burst leaves two thirds; three misses in a
/// row leave two thirds, six leave one third, fewer all of it; each up to
/// rounding down, but one at least.
pub proof fn law_clamps_take_their_share(amp: u16, run: int)
    requires
        amp >= 3,
        0 <= run,
    ensures
        burst_amp(amp, false) == amp,
        2 * amp - 2 <= 3 * burst_amp(amp, true) <= 2 * amp,
        run <= 2 ==> blind_amp(amp as int, run) == amp,
        3 <= run <= 5 ==> 2 * amp - 2 <= 3 * blind_amp(amp as int, run) <= 2 * amp,
        run >= 6 ==> amp - 2 <= 3 * blind_amp(amp as int, run) <= amp,
        burst_amp(0, true) == 1 && burst_amp(1, true) == 1,
{
}

/// Time beyond what 32 bits of microseconds hold reads as the most they do,
/// up to half the clock's range.
pub proof fn law_since_saturates(last: u32, ticks: u32)
    requires
        ticks * 10 > u32::MAX,
        ticks < 0x7FFF_FFFF,
    ensures
        ticks_since(last.wrapping_add(ticks), last) == 0xFFFF_FFFF,
{
}

} // verus!

//! The zero-cross candidate, confirm and accept state machine, with its
//! discrimination arithmetic.
//!
//! Three entry points serve three interrupt contexts: [`on_held_edge`] for
//! a comparator edge that persisted, [`confirm_step`] with
//! [`accept_gen_current`] for the PWM-wrap confirm, and [`accept_publish`]
//! for the accept itself. A confirm captures the candidate and its window
//! generation together ([`confirm_snapshot`]) and settles it against the
//! live state ([`confirm_resolve`]), so a window that closes and re-arms in
//! between can neither lose its fresh candidate nor take a stale one.

use vstd::prelude::*;

use crate::estimator::{Estimator, Reject};
use crate::timing::confirm_need;
use crate::timing::confirm_depth;
use crate::window::{sector_counts, WindowControl};
use crate::window::TOPEND_US;

verus! {

/// The sign rule of the confirm: whether the floating phase is below the
/// neutral of the driven pair. Phase B floats in sectors 1 and 4, phase A
/// in 2 and 5; the neutral is half the driven phase when the other leg is
/// low (1, 2), and the middle of the bus and the low leg otherwise (4, 5).
/// Phase C (every other sector) has no ADC route: the comparator bit
/// passes through.
pub open spec fn below_neutral(sector: u8, a: int, b: int, vbus: int, comp_value: bool) -> bool {
    if sector == 1 {
        2 * b < a
    } else if sector == 4 {
        2 * b < vbus + a
    } else if sector == 2 {
        2 * a < b
    } else if sector == 5 {
        2 * a < vbus + b
    } else {
        comp_value
    }
}

/// The sign rule of the confirm; `true` is the comparator's "below".
pub fn adc_sign_observed(
    sector: u8,
    pa_a: u16,
    pa_b: u16,
    vbus_est: u16,
    comp_value: bool,
) -> (r: bool)
    ensures
        r == below_neutral(sector, pa_a as int, pa_b as int, vbus_est as int, comp_value),
        sector == 1 ==> (r <==> pa_b < pa_a - pa_b),
        sector == 4 ==> (r <==> pa_b - pa_a < vbus_est - pa_b),
        sector == 2 ==> (r <==> pa_a < pa_b - pa_a),
        sector == 5 ==> (r <==> pa_a - pa_b < vbus_est - pa_a),
{
    let a: u32 = pa_a as u32;
    let b: u32 = pa_b as u32;
    let v: u32 = vbus_est as u32;
    match sector {
        1 => b * 2 < a,
        4 => b * 2 < v + a,
        2 => a * 2 < b,
        5 => a * 2 < v + b,
        _ => comp_value,
    }
}

/// The bus estimate after one PWM cycle: the larger phase sample when it
/// exceeds the estimate, else a decay of a 512th, at least one count.
pub open spec fn vbus_next(est: int, m: int) -> int {
    if m > est {
        m
    } else if est > 0 {
        est - (if est / 512 > 1 {
            est / 512
        } else {
            1
        })
    } else {
        0
    }
}

/// The bus estimate after one PWM cycle with these phase samples.
pub open spec fn vbus_stepped(est: u16, pa_a: u16, pa_b: u16) -> int {
    vbus_next(est as int, if pa_a >= pa_b {
        pa_a as int
    } else {
        pa_b as int
    })
}

/// One step of the decaying-maximum bus estimate.
pub fn vbus_decay_step(est: u16, pa_a: u16, pa_b: u16) -> (r: u16)
    ensures
        r == vbus_stepped(est, pa_a, pa_b),
{
    let m: u16 = pa_a.max(pa_b);
    if m > est {
        m
    } else if est > 0 {
        est.saturating_sub((est / 512).max(1))
    } else {
        0
    }
}

/// The comparator level after the crossing of a sector.
pub open spec fn post_level(sector: u8) -> bool {
    sector % 2 == 0
}

/// Comparator level after the crossing: below neutral in even sectors,
/// above in odd ones.
pub fn expected_post_zc(sector: u8) -> (r: bool)
    ensures
        r == post_level(sector),
{
    sector % 2 == 0
}

/// The state of the machine and of what it drives.
#[derive(Debug, Clone, Copy, PartialEq, Eq, Structural)]
pub struct ZcState {
    /// Commutation is clocked by the rotor alone: there is no free-run to
    /// dead-reckon a phase-C window, so it must arm at every speed.
    pub zc_clocked: bool,
    /// Pending candidate edge; `u32::MAX` is none.
    pub cand_zc_us: u32,
    /// The level the candidate expects after its crossing.
    pub cand_expected: bool,
    /// Confirms the candidate has.
    pub cand_confirms: u8,
    /// Window generation the candidate was armed in.
    pub cand_gen: u8,
    /// Generation of the open window.
    pub window_gen: u8,
    /// Qualified zero-cross of the open window; `u32::MAX` is none.
    pub window_qzc_us: u32,
    /// Smoothed sector interval, µs; 0 is unseeded.
    pub interval_us: u32,
    /// Last accepted zero-cross; `u32::MAX` is a broken chain.
    pub last_qzc_us: u32,
    /// Window closes since the last accepted zero-cross.
    pub windows_since_qzc: u8,
    /// Time of the last accept, 10 µs ticks.
    pub last_qzc_10us: u32,
    /// Closed loop engaged.
    pub cl_active: bool,
    /// Closed loop armed: the next accept in an A or B window engages it.
    pub cl_armed: bool,
    /// Re-acquisition mode.
    pub cl_reacq: bool,
    /// Consecutive missed A and B windows.
    pub cl_noz_run: u8,
    /// Accept at the edge itself, without a wrap confirm.
    pub cl_fast_path: bool,
    /// Accepts the estimator took or had nothing to measure from.
    pub est_acc: u32,
    /// Accepts refused by the floor.
    pub est_rej_floor: u32,
    /// Accepts refused by the ceiling.
    pub est_rej_ceiling: u32,
    /// Accepts refused by the rate bound.
    pub est_rej_rate: u32,
    /// Accepts refused by the re-seed rule.
    pub est_rej_reseed: u32,
    /// Accepts refused as a harmonic.
    pub est_rej_harmonic: u32,
    /// Geometry mode of the estimator.
    pub cl_am32_geom: bool,
    /// Previous zero-cross period of the geometry mode.
    pub est_prev_period: u32,
    /// Six times the stiff average of the accepted intervals.
    pub avg_interval_acc: u32,
}

/// What to do with a comparator edge that persisted.
#[derive(Debug, Clone, Copy, PartialEq, Eq, Structural)]
pub enum HeldEdge {
    /// Accept it now.
    AcceptNow,
    /// It became the candidate.
    Armed,
    /// A candidate is already pending.
    Ignored,
}

/// The outcome of one confirm.
#[derive(Debug, Clone, Copy, PartialEq, Eq, Structural)]
pub enum ConfirmAction {
    /// No candidate, or it was replaced.
    Idle,
    /// One confirm more, not enough yet.
    Progress,
    /// Depth reached, candidate consumed. The accept still has to pass
    /// [`accept_gen_current`].
    AcceptPending {
        /// Time of the crossing.
        zc_us: u32,
        /// Generation the candidate was armed in.
        gen_snap: u8,
    },
    /// The observation contradicted the candidate.
    Discarded {
        /// Confirms it had.
        confirms: u8,
        /// Closed loop engaged.
        cl_active: bool,
    },
}

/// What to do after a published accept.
#[derive(Debug, Clone, Copy, PartialEq, Eq, Structural)]
pub struct AcceptPlan {
    /// This accept engaged the closed loop.
    pub engaged: bool,
    /// Re-time the commutation from this accept.
    pub schedule: bool,
    /// The interval after the accept.
    pub interval_us: u32,
}

/// The stiff accumulator after an interval: seeded by the first, then a sixth
/// of the way to each.
pub open spec fn average_after(acc: u32, interval_us: u32) -> u32 {
    if acc == 0 {
        if interval_us * 6 <= u32::MAX {
            (interval_us * 6) as u32
        } else {
            u32::MAX
        }
    } else {
        acc.wrapping_add(interval_us).wrapping_sub((acc / 6) as u32)
    }
}

/// Takes an interval into the stiff accumulator.
pub(crate) fn average_step(acc: u32, interval_us: u32) -> (r: u32)
    ensures
        r == average_after(acc, interval_us),
{
    if acc == 0 {
        if interval_us <= u32::MAX / 6 {
            interval_us * 6
        } else {
            u32::MAX
        }
    } else {
        acc.wrapping_add(interval_us).wrapping_sub(acc / 6)
    }
}

impl ZcState {
    /// Re-acquisition at the top end, where an unconfirmed edge must not
    /// count.
    pub open spec fn reacq_topend(self) -> bool {
        self.cl_reacq && 0 < self.interval_us < TOPEND_US
    }

    /// Edges are accepted without a confirm.
    pub open spec fn accepts_edges(self) -> bool {
        self.cl_fast_path && self.cl_active && !self.reacq_topend()
    }

    /// What a held edge does.
    pub open spec fn held_edge(self) -> HeldEdge {
        if self.accepts_edges() {
            HeldEdge::AcceptNow
        } else if self.cand_zc_us == u32::MAX {
            HeldEdge::Armed
        } else {
            HeldEdge::Ignored
        }
    }

    /// The state with a fresh candidate.
    pub open spec fn armed_with(self, expected: bool, now_us: u32) -> ZcState {
        ZcState {
            cand_expected: expected,
            cand_confirms: 0,
            cand_gen: self.window_gen,
            cand_zc_us: now_us,
            ..self
        }
    }

    /// The confirms that an accept takes now.
    pub open spec fn need(self) -> u32 {
        confirm_depth(self.cl_active, self.cl_reacq, self.interval_us)
    }

    /// The outcome of settling candidate `cand` of generation `gen_snap`
    /// against this state.
    pub open spec fn confirm_action(self, cand: u32, gen_snap: u8, observed: bool) -> ConfirmAction {
        if cand == u32::MAX {
            ConfirmAction::Idle
        } else if observed != self.cand_expected {
            ConfirmAction::Discarded { confirms: self.cand_confirms, cl_active: self.cl_active }
        } else if self.cand_confirms + 1 < self.need() {
            ConfirmAction::Progress
        } else if self.cand_zc_us == cand {
            ConfirmAction::AcceptPending { zc_us: cand, gen_snap }
        } else {
            ConfirmAction::Idle
        }
    }

    /// The state after settling candidate `cand`: a candidate that was
    /// consumed or discarded is gone, unless it was replaced meanwhile.
    pub open spec fn confirmed(self, cand: u32, observed: bool) -> ZcState {
        if cand == u32::MAX {
            self
        } else if observed == self.cand_expected && self.cand_confirms + 1 < self.need() {
            ZcState { cand_confirms: (self.cand_confirms + 1) as u8, ..self }
        } else if self.cand_zc_us == cand {
            ZcState { cand_zc_us: u32::MAX, ..self }
        } else {
            self
        }
    }

    /// A confirm counter that can count one more, where it has to.
    pub open spec fn confirm_fits(self, cand: u32, observed: bool) -> bool {
        cand != u32::MAX && observed == self.cand_expected ==> self.cand_confirms < u8::MAX
    }

    /// The window already has its zero-cross.
    pub open spec fn masked(self) -> bool {
        self.window_qzc_us != u32::MAX
    }

    /// The estimator that the state holds.
    pub open spec fn estimator(self) -> Estimator {
        Estimator {
            interval_us: self.interval_us,
            last_qzc_us: if self.last_qzc_us == u32::MAX {
                None
            } else {
                Some(self.last_qzc_us)
            },
            windows_since_qzc: self.windows_since_qzc as u32,
            reacq: self.cl_reacq,
            am32_geom: self.cl_am32_geom,
            prev_period_us: self.est_prev_period,
        }
    }

    /// The estimator after an accept at `zc_us`.
    pub open spec fn estimate(self, zc_us: u32) -> Estimator {
        self.estimator().after_accept(zc_us, self.cl_active)
    }

    /// The stiff accumulator after an accept: it takes a sixth of the way
    /// to the new interval, in geometry mode and once seeded.
    pub open spec fn next_acc(self, interval_us: u32) -> u32 {
        if interval_us == 0 || !self.cl_am32_geom {
            self.avg_interval_acc
        } else {
            average_after(self.avg_interval_acc, interval_us)
        }
    }

    /// The accept census with one accept of this verdict more.
    pub open spec fn counted(self, verdict: Option<Reject>) -> ZcState {
        match verdict {
            None => ZcState { est_acc: self.est_acc.wrapping_add(1), ..self },
            Some(Reject::Floor) => ZcState {
                est_rej_floor: self.est_rej_floor.wrapping_add(1),
                ..self
            },
            Some(Reject::Ceiling) => ZcState {
                est_rej_ceiling: self.est_rej_ceiling.wrapping_add(1),
                ..self
            },
            Some(Reject::RateBound) => ZcState {
                est_rej_rate: self.est_rej_rate.wrapping_add(1),
                ..self
            },
            Some(Reject::Reseed) => ZcState {
                est_rej_reseed: self.est_rej_reseed.wrapping_add(1),
                ..self
            },
            Some(Reject::Harmonic) => ZcState {
                est_rej_harmonic: self.est_rej_harmonic.wrapping_add(1),
                ..self
            },
        }
    }

    /// An accept in this sector with this interval engages the loop.
    pub open spec fn engages(self, sector: u8, interval_us: u32) -> bool {
        interval_us != 0 && sector_counts(sector) && self.cl_armed
    }

    /// A phase-C window is re-timed from its crossing.
    pub open spec fn retimes_c(self, interval_us: u32) -> bool {
        self.cl_fast_path && (self.zc_clocked || interval_us < TOPEND_US)
    }

    /// What follows an accept in `sector` at `zc_us`.
    pub open spec fn plan(self, sector: u8, zc_us: u32) -> AcceptPlan {
        let iv = self.estimate(zc_us).interval_us;
        let engaged = self.engages(sector, iv);
        AcceptPlan {
            engaged,
            schedule: iv != 0 && (self.cl_active || engaged) && (sector_counts(sector)
                || self.retimes_c(iv)),
            interval_us: iv,
        }
    }

    /// The state after an accept in `sector` at `zc_us`.
    pub open spec fn published(self, sector: u8, zc_us: u32, now_10us: u32) -> ZcState {
        let est = self.estimate(zc_us);
        let engaged = self.engages(sector, est.interval_us);
        ZcState {
            window_qzc_us: zc_us,
            interval_us: est.interval_us,
            last_qzc_us: zc_us,
            windows_since_qzc: 0,
            cl_reacq: est.reacq,
            est_prev_period: est.prev_period_us,
            avg_interval_acc: self.next_acc(est.interval_us),
            cl_noz_run: 0,
            last_qzc_10us: now_10us,
            cl_armed: self.cl_armed && !engaged,
            cl_active: self.cl_active || engaged,
            ..self.counted(self.estimator().verdict(zc_us, self.cl_active))
        }
    }

    /// The interval to schedule from ahead of the accept, when the accept
    /// will re-time the commutation.
    pub open spec fn precheck(self, sector: u8) -> Option<u32> {
        let iv = self.interval_us;
        let ok = if sector_counts(sector) {
            self.cl_active || self.cl_armed
        } else {
            self.cl_active && self.retimes_c(iv)
        };
        if !self.masked() && iv != 0 && ok {
            Some(iv)
        } else {
            None
        }
    }
}

/// A comparator edge persisted at `now_us`, in the direction whose level
/// after the crossing is `expected`.
pub fn on_held_edge(zs: &mut ZcState, expected: bool, now_us: u32) -> (r: HeldEdge)
    ensures
        r == old(zs).held_edge(),
        r == HeldEdge::Armed ==> *final(zs) == old(zs).armed_with(expected, now_us),
        r != HeldEdge::Armed ==> *final(zs) == *old(zs),
{
    let reacq_topend: bool = zs.cl_reacq && zs.interval_us > 0 && zs.interval_us < TOPEND_US;
    if zs.cl_fast_path && zs.cl_active && !reacq_topend {
        HeldEdge::AcceptNow
    } else if zs.cand_zc_us == u32::MAX {
        zs.cand_expected = expected;
        zs.cand_confirms = 0;
        zs.cand_gen = zs.window_gen;
        zs.cand_zc_us = now_us;
        HeldEdge::Armed
    } else {
        HeldEdge::Ignored
    }
}

/// The pending candidate with the generation it was armed in.
pub fn confirm_snapshot(zs: &ZcState) -> (r: (u32, u8))
    ensures
        r == (zs.cand_zc_us, zs.cand_gen),
{
    (zs.cand_zc_us, zs.cand_gen)
}

/// Settles a snapshot against the live state, which may have moved on
/// since: the candidate is only ever cleared while it is still the one of
/// the snapshot.
pub fn confirm_resolve(zs: &mut ZcState, cand: u32, gen_snap: u8, observed: bool) -> (r:
    ConfirmAction)
    requires
        old(zs).confirm_fits(cand, observed),
    ensures
        r == old(zs).confirm_action(cand, gen_snap, observed),
        *final(zs) == old(zs).confirmed(cand, observed),
{
    if cand == u32::MAX {
        return ConfirmAction::Idle;
    }
    if observed == zs.cand_expected {
        let need: u32 = confirm_need(zs.cl_active, zs.cl_reacq, zs.interval_us);
        let n: u8 = zs.cand_confirms + 1;
        if n as u32 >= need {
            if zs.cand_zc_us == cand {
                zs.cand_zc_us = u32::MAX;
                ConfirmAction::AcceptPending { zc_us: cand, gen_snap }
            } else {
                ConfirmAction::Idle
            }
        } else {
            zs.cand_confirms = n;
            ConfirmAction::Progress
        }
    } else {
        let confirms: u8 = zs.cand_confirms;
        if zs.cand_zc_us == cand {
            zs.cand_zc_us = u32::MAX;
        }
        ConfirmAction::Discarded { confirms, cl_active: zs.cl_active }
    }
}

/// One wrap-sample confirm of the pending candidate.
pub fn confirm_step(zs: &mut ZcState, observed: bool) -> (r: ConfirmAction)
    requires
        old(zs).confirm_fits(old(zs).cand_zc_us, observed),
    ensures
        r == old(zs).confirm_action(old(zs).cand_zc_us, old(zs).cand_gen, observed),
        *final(zs) == old(zs).confirmed(old(zs).cand_zc_us, observed),
{
    let (cand, gen_snap) = confirm_snapshot(zs);
    confirm_resolve(zs, cand, gen_snap, observed)
}

/// A captured generation is the open window's.
pub open spec fn gen_is_current(zs: ZcState, gen_snap: u8) -> bool {
    gen_snap == zs.window_gen
}

/// The generation a confirm captured is still the open window's.
pub fn accept_gen_current(zs: &ZcState, gen_snap: u8) -> (r: bool)
    ensures
        r == gen_is_current(*zs, gen_snap),
{
    gen_snap == zs.window_gen
}

/// The estimator can take a zero-cross at `zc_us`, or has none to take since
/// the window is marked.
pub fn accept_can_run(zs: &ZcState, zc_us: u32) -> (r: bool)
    ensures
        r == (zs.masked() || zs.estimator().accept_fits(zc_us, zs.cl_active)),
{
    if zs.window_qzc_us != u32::MAX {
        return true;
    }
    let est = Estimator {
        interval_us: zs.interval_us,
        last_qzc_us: if zs.last_qzc_us == u32::MAX {
            None
        } else {
            Some(zs.last_qzc_us)
        },
        windows_since_qzc: zs.windows_since_qzc as u32,
        reacq: zs.cl_reacq,
        am32_geom: zs.cl_am32_geom,
        prev_period_us: zs.est_prev_period,
    };
    est.can_accept(zc_us, zs.cl_active)
}

/// Takes an accepted zero-cross: marks the window, runs the estimator, and
/// decides whether the loop engages and the commutation is re-timed.
/// `None` when the window already has its zero-cross.
pub fn accept_publish(zs: &mut ZcState, sector: u8, zc_us: u32, now_10us: u32) -> (r: Option<
    AcceptPlan,
>)
    requires
        old(zs).masked() || old(zs).estimator().accept_fits(zc_us, old(zs).cl_active),
    ensures
        old(zs).masked() ==> r is None && *final(zs) == *old(zs),
        !old(zs).masked() ==> r == Some(old(zs).plan(sector, zc_us)) && *final(zs) == old(
            zs,
        ).published(sector, zc_us, now_10us),
{
    if zs.window_qzc_us != u32::MAX {
        return None;
    }
    let ghost was = *zs;
    zs.window_qzc_us = zc_us;

    let mut est = Estimator {
        interval_us: zs.interval_us,
        last_qzc_us: if zs.last_qzc_us == u32::MAX {
            None
        } else {
            Some(zs.last_qzc_us)
        },
        windows_since_qzc: zs.windows_since_qzc as u32,
        reacq: zs.cl_reacq,
        am32_geom: zs.cl_am32_geom,
        prev_period_us: zs.est_prev_period,
    };
    assert(est == was.estimator());
    let (_, reject) = est.on_accept_traced(zc_us, zs.cl_active);
    match reject {
        None => {
            zs.est_acc = zs.est_acc.wrapping_add(1);
        },
        Some(Reject::Floor) => {
            zs.est_rej_floor = zs.est_rej_floor.wrapping_add(1);
        },
        Some(Reject::Ceiling) => {
            zs.est_rej_ceiling = zs.est_rej_ceiling.wrapping_add(1);
        },
        Some(Reject::RateBound) => {
            zs.est_rej_rate = zs.est_rej_rate.wrapping_add(1);
        },
        Some(Reject::Reseed) => {
            zs.est_rej_reseed = zs.est_rej_reseed.wrapping_add(1);
        },
        Some(Reject::Harmonic) => {
            zs.est_rej_harmonic = zs.est_rej_harmonic.wrapping_add(1);
        },
    }
    zs.interval_us = est.interval_us;
    zs.last_qzc_us = match est.last_qzc_us {
        Some(t) => t,
        None => u32::MAX,
    };
    zs.windows_since_qzc = est.windows_since_qzc.min(255) as u8;
    zs.cl_reacq = est.reacq;
    zs.est_prev_period = est.prev_period_us;
    let iv: u32 = zs.interval_us;
    if iv != 0 && zs.cl_am32_geom {
        zs.avg_interval_acc = average_step(zs.avg_interval_acc, iv);
    }
    zs.cl_noz_run = 0;
    zs.last_qzc_10us = now_10us;

    let mut engaged: bool = false;
    let mut schedule: bool = false;
    let is_ab: bool = sector != 0 && sector != 3;
    if iv != 0 {
        if is_ab && zs.cl_armed {
            zs.cl_armed = false;
            zs.cl_active = true;
            engaged = true;
        }
        if zs.cl_active {
            let c_retime: bool = zs.cl_fast_path && (zs.zc_clocked || iv < TOPEND_US);
            schedule = is_ab || c_retime;
        }
    }
    Some(AcceptPlan { engaged, schedule, interval_us: iv })
}

/// The stiff average of the accepted intervals in µs.
pub open spec fn stiff_average(zs: ZcState) -> u32 {
    (zs.avg_interval_acc / 6) as u32
}

/// The stiff average of the accepted intervals in µs; 0 when unseeded.
pub fn avg_interval_us(zs: &ZcState) -> (r: u32)
    ensures
        r == stiff_average(*zs),
{
    zs.avg_interval_acc / 6
}

/// Decides ahead of the accept whether it will re-time the commutation, and
/// hands back the interval to compute the delay from.
pub fn schedule_precheck(zs: &ZcState, sector: u8) -> (r: Option<u32>)
    ensures
        r == zs.precheck(sector),
{
    if zs.window_qzc_us != u32::MAX {
        return None;
    }
    let iv: u32 = zs.interval_us;
    if iv == 0 {
        return None;
    }
    let is_ab: bool = sector != 0 && sector != 3;
    let ok: bool = if is_ab {
        zs.cl_active || zs.cl_armed
    } else {
        zs.cl_active && zs.cl_fast_path && (zs.zc_clocked || iv < TOPEND_US)
    };
    if ok {
        Some(iv)
    } else {
        None
    }
}

/// The control state after the windows of `closes` (sector, 10 µs tick, µs)
/// have closed in turn.
pub open spec fn closed_all(c: WindowControl, closes: Seq<(u8, u32, u32)>) -> WindowControl
    decreases closes.len(),
{
    if closes.len() == 0 {
        c
    } else {
        let last = closes.last();
        closed_all(c, closes.drop_last()).closed(last.0, last.1, last.2)
    }
}

/// Every close moves the generation by one.
proof fn lemma_generation_counts_closes(c: WindowControl, closes: Seq<(u8, u32, u32)>)
    ensures
        closed_all(c, closes).window_gen == (c.window_gen + closes.len()) % 0x100,
    decreases closes.len(),
{
    if closes.len() > 0 {
        lemma_generation_counts_closes(c, closes.drop_last());
    }
}

/// A confirm whose window has closed is refused, whatever was armed since:
/// the captured generation differs from the live one after any 1 to 255
/// closes.
pub proof fn law_stale_confirm_is_refused(
    armed: ZcState,
    live: ZcState,
    c: WindowControl,
    closes: Seq<(u8, u32, u32)>,
)
    requires
        armed.cand_gen == armed.window_gen == c.window_gen,
        1 <= closes.len() <= 255,
        live.window_gen == closed_all(c, closes).window_gen,
    ensures
        armed.cand_gen != live.window_gen,
        !gen_is_current(live, armed.cand_gen),
        gen_is_current(armed, armed.cand_gen),
{
    lemma_generation_counts_closes(c, closes);
}

/// Settling a snapshot never touches a candidate that replaced it.
pub proof fn law_fresh_candidate_survives(live: ZcState, cand: u32, gen_snap: u8, observed: bool)
    requires
        live.cand_zc_us != cand,
    ensures
        live.confirmed(cand, observed).cand_zc_us == live.cand_zc_us,
        !(live.confirm_action(cand, gen_snap, observed) is AcceptPending),
{
}

/// A pending accept always has the depth it needs: two confirms in a row
/// outside a lock, one under it.
pub proof fn law_accept_takes_the_confirm_depth(z: ZcState, expected: bool, now_us: u32)
    requires
        now_us != u32::MAX,
    ensures
        ({
            let z0 = z.armed_with(expected, now_us);
            let z1 = z0.confirmed(now_us, expected);
            &&& z.need() == 1 ==> z0.confirm_action(now_us, z.window_gen, expected)
                == (ConfirmAction::AcceptPending { zc_us: now_us, gen_snap: z.window_gen })
            &&& z.need() == 2 ==> z0.confirm_action(now_us, z.window_gen, expected)
                == ConfirmAction::Progress && z1.confirm_action(now_us, z.window_gen, expected) == (
            ConfirmAction::AcceptPending { zc_us: now_us, gen_snap: z.window_gen })
            &&& z0.confirm_action(now_us, z.window_gen, !expected) is Discarded
        }),
{
}

/// One accept per window: an accept masks the window, and a masked window
/// neither accepts nor schedules. (The time `u32::MAX` stands for "none"
/// and masks nothing.)
pub proof fn law_accept_masks_the_window(z: ZcState, sector: u8, zc_us: u32, now_10us: u32)
    requires
        zc_us != u32::MAX,
    ensures
        z.published(sector, zc_us, now_10us).masked(),
        forall|s: u8| #[trigger] z.published(sector, zc_us, now_10us).precheck(s) is None,
{
}

/// The early schedule decision is the accept's own, whenever the accept
/// does not move the interval.
pub proof fn law_precheck_mirrors_the_accept(z: ZcState, sector: u8, zc_us: u32)
    requires
        !z.masked(),
        z.estimate(zc_us).interval_us == z.interval_us,
    ensures
        (z.precheck(sector) is Some) == z.plan(sector, zc_us).schedule,
        z.precheck(sector) is Some ==> z.precheck(sector) == Some(z.plan(sector, zc_us).interval_us),
{
}

/// The accept that seeds the interval and engages the loop also asks for a
/// schedule, though the early decision could not see it.
pub proof fn law_seeding_engage_schedules(z: ZcState, sector: u8, zc_us: u32)
    requires
        !z.masked(),
        z.interval_us == 0,
        z.estimate(zc_us).interval_us != 0,
        z.cl_armed,
        sector_counts(sector),
    ensures
        z.precheck(sector) is None,
        z.plan(sector, zc_us).engaged,
        z.plan(sector, zc_us).schedule,
{
}

/// Phase-C windows never engage the loop nor consume its arm.
pub proof fn law_c_windows_never_engage(z: ZcState, sector: u8, zc_us: u32, now_10us: u32)
    requires
        !sector_counts(sector),
    ensures
        !z.plan(sector, zc_us).engaged,
        z.published(sector, zc_us, now_10us).cl_armed == z.cl_armed,
        z.published(sector, zc_us, now_10us).cl_active == z.cl_active,
{
}

/// The stiff average moves a sixth of the way to the new interval, up to
/// rounding: a single bad accept cannot drag it.
pub proof fn law_stiff_average_moves_a_sixth(z: ZcState, interval_us: u32)
    requires
        z.cl_am32_geom,
        interval_us != 0,
        z.avg_interval_acc != 0,
        z.avg_interval_acc + interval_us <= u32::MAX,
    ensures
        ({
            let before = z.avg_interval_acc as int / 6;
            let after = z.next_acc(interval_us) as int / 6;
            (interval_us - before) / 6 <= after - before <= (interval_us - before) / 6 + 1
        }),
{
}

/// Outside geometry mode the stiff average stands still.
pub proof fn law_stiff_average_is_geometry_only(z: ZcState, interval_us: u32)
    requires
        !z.cl_am32_geom,
    ensures
        z.next_acc(interval_us) == z.avg_interval_acc,
{
}

/// The sign is scale free: samples that are all `k` times as large have the
/// same verdict in every sector. The two phases trade places: sector 2 reads
/// the swapped samples as sector 1, and sector 5 as sector 4.
pub proof fn law_sign_is_scale_free(
    sector: u8,
    a: int,
    b: int,
    vbus: int,
    comp_value: bool,
    k: int,
)
    requires
        k > 0,
    ensures
        below_neutral(sector, k * a, k * b, k * vbus, comp_value) == below_neutral(
            sector,
            a,
            b,
            vbus,
            comp_value,
        ),
        below_neutral(2, a, b, vbus, comp_value) == below_neutral(1, b, a, vbus, comp_value),
        below_neutral(5, a, b, vbus, comp_value) == below_neutral(4, b, a, vbus, comp_value),
{
    assert(2 * (k * b) < k * a <==> 2 * b < a) by (nonlinear_arith)
        requires
            k > 0,
    ;
    assert(2 * (k * a) < k * b <==> 2 * a < b) by (nonlinear_arith)
        requires
            k > 0,
    ;
    assert(2 * (k * b) < k * vbus + k * a <==> 2 * b < vbus + a) by (nonlinear_arith)
        requires
            k > 0,
    ;
    assert(2 * (k * a) < k * vbus + k * b <==> 2 * a < vbus + b) by (nonlinear_arith)
        requires
            k > 0,
    ;
}

/// In sectors 1 and 2 the floating phase reads as below exactly when it is
/// under half of the driven one, and in sectors 4 and 5 when it is nearer to
/// the low leg than to the bus. A phase-C
/// sector is the comparator's to say, whatever the samples.
pub proof fn law_sign_compares_with_the_neutral(a: int, b: int, vbus: int, comp_value: bool, c: u8)
    requires
        !(c == 1 || c == 2 || c == 4 || c == 5),
    ensures
        below_neutral(1, a, b, vbus, comp_value) <==> b < a - b,
        below_neutral(2, a, b, vbus, comp_value) <==> a < b - a,
        below_neutral(4, a, b, vbus, comp_value) <==> b - a < vbus - b,
        below_neutral(5, a, b, vbus, comp_value) <==> a - b < vbus - a,
        below_neutral(c, a, b, vbus, comp_value) == comp_value,
{
}

/// The bus estimate jumps up to the larger phase sample and decays
/// otherwise: by a 512th of itself, but by one count at least, down to zero.
pub proof fn law_bus_estimate_follows_the_peak(est: u16, a: u16, b: u16)
    ensures
        vbus_stepped(est, a, b) == vbus_stepped(est, b, a),
        a > est && a >= b ==> vbus_stepped(est, a, b) == a,
        a <= est && b <= est ==> {
            let fall = est - vbus_stepped(est, a, b);
            &&& est == 0 ==> fall == 0
            &&& 1 <= est <= 1023 ==> fall == 1
            &&& est >= 1024 ==> est - 511 <= 512 * fall <= est
        },
{
}

/// The level after the crossing alternates from sector to sector, and is
/// below the neutral in sector 0.
pub proof fn law_post_levels_alternate(sector: u8)
    requires
        sector < u8::MAX,
    ensures
        post_level(0),
        post_level(sector) != post_level((sector + 1) as u8),
{
}

/// An edge is accepted at once only under a lock with the fast path, and
/// then always, but for re-acquisition under 125 µs. Otherwise it becomes the
/// candidate when there is none, and is ignored when there is.
pub proof fn law_edges_are_confirmed_outside_the_fast_path(z: ZcState)
    ensures
        !z.cl_active || !z.cl_fast_path ==> z.held_edge() != HeldEdge::AcceptNow,
        z.cl_active && z.cl_fast_path && !z.cl_reacq ==> z.held_edge() == HeldEdge::AcceptNow,
        z.cl_active && z.cl_fast_path && z.cl_reacq ==> (z.held_edge() == HeldEdge::AcceptNow
            <==> z.interval_us == 0 || z.interval_us >= 125),
        z.held_edge() != HeldEdge::AcceptNow ==> (z.held_edge() == HeldEdge::Armed
            <==> z.cand_zc_us == 0xFFFF_FFFF),
{
}

/// A fresh candidate has the edge's time and level, the open window's
/// generation, and no confirms; nothing else of the state moves.
pub proof fn law_candidate_is_stamped(z: ZcState, expected: bool, now_us: u32)
    ensures
        ({
            let t = z.armed_with(expected, now_us);
            &&& t.cand_zc_us == now_us && t.cand_expected == expected
            &&& t.cand_gen == z.window_gen && t.cand_confirms == 0
            &&& t.window_qzc_us == z.window_qzc_us && t.interval_us == z.interval_us
            &&& gen_is_current(t, t.cand_gen)
            &&& t == (ZcState {
                cand_zc_us: t.cand_zc_us,
                cand_expected: t.cand_expected,
                cand_gen: t.cand_gen,
                cand_confirms: t.cand_confirms,
                ..z
            })
        }),
{
}

/// Confirms of one candidate: agreeing observations count until the depth is
/// reached, and only then is it consumed; a contradicting one discards it
/// with the confirms it had. The depth is one under a lock, and in its
/// re-acquisition under 125 µs; two otherwise.
pub proof fn law_confirms_reach_their_depth(z: ZcState, observed: bool)
    requires
        z.cand_zc_us != u32::MAX,
        z.cand_confirms < u8::MAX,
    ensures
        ({
            let one = z.cl_active && (!z.cl_reacq || 1 <= z.interval_us <= 124);
            let depth: int = if one {
                1
            } else {
                2
            };
            let action = z.confirm_action(z.cand_zc_us, z.cand_gen, observed);
            let t = z.confirmed(z.cand_zc_us, observed);
            &&& observed != z.cand_expected ==> action == (ConfirmAction::Discarded {
                confirms: z.cand_confirms,
                cl_active: z.cl_active,
            }) && t.cand_zc_us == u32::MAX
            &&& observed == z.cand_expected && z.cand_confirms + 1 < depth ==> action
                == ConfirmAction::Progress && t.cand_confirms == z.cand_confirms + 1
                && t.cand_zc_us == z.cand_zc_us
            &&& observed == z.cand_expected && z.cand_confirms + 1 >= depth ==> action == (
            ConfirmAction::AcceptPending { zc_us: z.cand_zc_us, gen_snap: z.cand_gen })
                && t.cand_zc_us == u32::MAX
            &&& t == (ZcState {
                cand_zc_us: t.cand_zc_us,
                cand_confirms: t.cand_confirms,
                ..z
            })
        }),
        z.confirm_action(u32::MAX, z.cand_gen, observed) == ConfirmAction::Idle,
        z.confirmed(u32::MAX, observed) == z,
{
}

/// An accept marks the window and restarts the chain at its time, clears the
/// misses, keeps the time of day, and counts once: as taken, or under the
/// rule that refused it.
pub proof fn law_accept_is_counted_once(z: ZcState, sector: u8, zc_us: u32, now_10us: u32)
    requires
        z.est_acc < u32::MAX,
        z.est_rej_floor < u32::MAX,
        z.est_rej_ceiling < u32::MAX,
        z.est_rej_rate < u32::MAX,
        z.est_rej_reseed < u32::MAX,
        z.est_rej_harmonic < u32::MAX,
    ensures
        ({
            let t = z.published(sector, zc_us, now_10us);
            let verdict = z.estimator().verdict(zc_us, z.cl_active);
            &&& t.window_qzc_us == zc_us && t.last_qzc_us == zc_us
            &&& t.windows_since_qzc == 0 && t.cl_noz_run == 0 && t.last_qzc_10us == now_10us
            &&& t.est_acc + t.est_rej_floor + t.est_rej_ceiling + t.est_rej_rate
                + t.est_rej_reseed + t.est_rej_harmonic == z.est_acc + z.est_rej_floor
                + z.est_rej_ceiling + z.est_rej_rate + z.est_rej_reseed + z.est_rej_harmonic + 1
            &&& t.est_acc == z.est_acc + 1 <==> verdict is None
            &&& t.est_rej_floor == z.est_rej_floor + 1 <==> verdict == Some(Reject::Floor)
            &&& t.est_rej_ceiling == z.est_rej_ceiling + 1 <==> verdict == Some(Reject::Ceiling)
            &&& t.est_rej_rate == z.est_rej_rate + 1 <==> verdict == Some(Reject::RateBound)
            &&& t.est_rej_reseed == z.est_rej_reseed + 1 <==> verdict == Some(Reject::Reseed)
            &&& t.est_rej_harmonic == z.est_rej_harmonic + 1 <==> verdict == Some(Reject::Harmonic)
            &&& t.interval_us == z.plan(sector, zc_us).interval_us
            &&& t.cand_zc_us == z.cand_zc_us && t.window_gen == z.window_gen
            &&& t.cl_fast_path == z.cl_fast_path && t.zc_clocked == z.zc_clocked
            &&& t.cl_am32_geom == z.cl_am32_geom
        }),
{
}

/// The estimator that an accept runs is the state's own: its interval, chain,
/// windows and modes, with `u32::MAX` for a broken chain. What it gives is
/// what the accept publishes.
pub proof fn law_accept_runs_the_states_estimator(
    z: ZcState,
    sector: u8,
    zc_us: u32,
    now_10us: u32,
)
    ensures
        ({
            let e = z.estimator();
            let t = z.published(sector, zc_us, now_10us);
            let now = e.after_accept(zc_us, z.cl_active);
            &&& e.interval_us == z.interval_us && e.reacq == z.cl_reacq
            &&& e.windows_since_qzc == z.windows_since_qzc && e.am32_geom == z.cl_am32_geom
            &&& e.prev_period_us == z.est_prev_period
            &&& e.last_qzc_us == if z.last_qzc_us == 0xFFFF_FFFF {
                None
            } else {
                Some(z.last_qzc_us)
            }
            &&& t.interval_us == now.interval_us && t.cl_reacq == now.reacq
            &&& t.est_prev_period == now.prev_period_us
        }),
{
}

/// An accept with an interval engages an armed loop in sectors 1, 2, 4 and 5,
/// which uses up the arm. It re-times the commutation under the loop in those
/// sectors; in sectors 0 and 3 only on the fast path, and there always when
/// the rotor clocks it, else under 125 µs.
pub proof fn law_accept_engages_and_schedules(z: ZcState, sector: u8, zc_us: u32, now_10us: u32)
    requires
        sector <= 5,
    ensures
        ({
            let p = z.plan(sector, zc_us);
            let t = z.published(sector, zc_us, now_10us);
            let iv = p.interval_us;
            let ab = sector == 1 || sector == 2 || sector == 4 || sector == 5;
            &&& p.engaged <==> iv != 0 && ab && z.cl_armed
            &&& p.engaged ==> t.cl_active && !t.cl_armed
            &&& !p.engaged ==> t.cl_active == z.cl_active && t.cl_armed == z.cl_armed
            &&& ab ==> (p.schedule <==> iv != 0 && t.cl_active)
            &&& !ab ==> (p.schedule <==> iv != 0 && t.cl_active && z.cl_fast_path && (z.zc_clocked
                || iv <= 124))
        }),
{
}

/// Ahead of an accept, a window without its zero-cross and with an interval
/// schedules from that interval: in sectors 1, 2, 4 and 5 when the loop is on
/// or armed, in sectors 0 and 3 when it is on with the fast path, clocked or
/// under 125 µs.
pub proof fn law_precheck_decides_early(z: ZcState, sector: u8)
    requires
        sector <= 5,
    ensures
        ({
            let ab = sector == 1 || sector == 2 || sector == 4 || sector == 5;
            let open = z.window_qzc_us == 0xFFFF_FFFF && z.interval_us != 0;
            &&& z.precheck(sector) is Some ==> z.precheck(sector) == Some(z.interval_us)
            &&& ab ==> (z.precheck(sector) is Some <==> open && (z.cl_active || z.cl_armed))
            &&& !ab ==> (z.precheck(sector) is Some <==> open && z.cl_active && z.cl_fast_path && (
            z.zc_clocked || z.interval_us <= 124))
        }),
{
}

/// The first interval seeds the stiff average with itself; equal intervals
/// keep it.
pub proof fn law_stiff_average_seeds_and_holds(z: ZcState, interval_us: u32)
    requires
        z.cl_am32_geom,
        1 <= interval_us,
        7 * interval_us <= u32::MAX,
    ensures
        z.avg_interval_acc == 0 ==> z.next_acc(interval_us) == 6 * interval_us,
        z.avg_interval_acc == 6 * interval_us ==> z.next_acc(interval_us) == 6 * interval_us,
        stiff_average(z) * 6 <= z.avg_interval_acc < stiff_average(z) * 6 + 6,
{
}

} // verus!

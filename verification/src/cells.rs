//! The machines' state in shared atomic cells, one bundle of references per
//! machine. A method reads each cell where the machine needs its value, and
//! writes what the machine gives.
//!
//! A contract here speaks of the accesses that joined the [`Bus`]'s trace:
//! which cells were read and written, in which order and with which values.
//! The answer is the machine's for the values that were read. A cell that is
//! read twice may have changed in between; where nothing did, the laws say
//! that the answer is the machine's for one state.

use crate::bus::{Access, Bus};
use crate::edgebuf::{on_rev_wrap, EdgeHalves, FlipPlan};
use crate::estimator::{Estimator, Reject};
use crate::guards::{apply_isr_kill, IsrKillKind, KillFlags};
use crate::mode::{step, stepped, Actions, Cmd, Mirror, ModeState, Msg};
use crate::timing::confirm_need;
use crate::window::{
    build_window_rec, cap16, offset_us, pred_err, prediction_error, sector_counts, streams,
    CloseOutcome, CloseScalars, WindowControl, WindowDiag, WindowState, EV_NOZ, EV_RAQ,
    HIGH_SPEED_US, I_MIN_IDLE, TOPEND_US,
};
use crate::wire::{WindowRec, PRED_NONE};
use crate::zc::{average_step, AcceptPlan, ConfirmAction, HeldEdge, ZcState};
use portable_atomic::{AtomicBool, AtomicU16, AtomicU32, AtomicU8};
use vstd::prelude::*;

verus! {

/// The cells behind a [`ZcState`].
pub struct ZcCells<'a> {
    /// Commutation is clocked by the rotor alone: there is no free-run to
    /// dead-reckon a phase-C window, so it must arm at every speed.
    pub zc_clocked: &'a AtomicBool,
    /// Pending candidate edge; `u32::MAX` is none.
    pub cand_zc_us: &'a AtomicU32,
    /// The level the candidate expects after its crossing.
    pub cand_expected: &'a AtomicBool,
    /// Confirms the candidate has.
    pub cand_confirms: &'a AtomicU8,
    /// Window generation the candidate was armed in.
    pub cand_gen: &'a AtomicU8,
    /// Generation of the open window.
    pub window_gen: &'a AtomicU8,
    /// Qualified zero-cross of the open window; `u32::MAX` is none.
    pub window_qzc_us: &'a AtomicU32,
    /// Smoothed sector interval, µs; 0 is unseeded.
    pub interval_us: &'a AtomicU32,
    /// Last accepted zero-cross; `u32::MAX` is a broken chain.
    pub last_qzc_us: &'a AtomicU32,
    /// Window closes since the last accepted zero-cross.
    pub windows_since_qzc: &'a AtomicU8,
    /// Time of the last accept, 10 µs ticks.
    pub last_qzc_10us: &'a AtomicU32,
    /// Closed loop engaged.
    pub cl_active: &'a AtomicBool,
    /// Closed loop armed: the next accept in an A or B window engages it.
    pub cl_armed: &'a AtomicBool,
    /// Re-acquisition mode.
    pub cl_reacq: &'a AtomicBool,
    /// Consecutive missed A and B windows.
    pub cl_noz_run: &'a AtomicU8,
    /// Accept at the edge itself, without a wrap confirm.
    pub cl_fast_path: &'a AtomicBool,
    /// Accepts the estimator took or had nothing to measure from.
    pub est_acc: &'a AtomicU32,
    /// Accepts refused by the floor.
    pub est_rej_floor: &'a AtomicU32,
    /// Accepts refused by the ceiling.
    pub est_rej_ceiling: &'a AtomicU32,
    /// Accepts refused by the rate bound.
    pub est_rej_rate: &'a AtomicU32,
    /// Accepts refused by the re-seed rule.
    pub est_rej_reseed: &'a AtomicU32,
    /// Accepts refused as a harmonic.
    pub est_rej_harmonic: &'a AtomicU32,
    /// Geometry mode of the estimator.
    pub cl_am32_geom: &'a AtomicBool,
    /// Previous zero-cross period of the geometry mode.
    pub est_prev_period: &'a AtomicU32,
    /// Six times the stiff average of the accepted intervals.
    pub avg_interval_acc: &'a AtomicU32,
}

impl<'a> ZcCells<'a> {
    /// The trace after a held edge: the flags that decide on an accept are
    /// read first, the candidate word only when they do not. A candidate's
    /// word is written last, so that who sees it finds the rest in place.
    pub open spec fn after_edge(
        &self,
        log: Seq<Access>,
        s: ZcState,
        expected: bool,
        now_us: u32,
    ) -> Seq<Access> {
        let t = s.armed_with(expected, now_us);
        let asked = log.push(Access::LoadBool(*self.cl_reacq, s.cl_reacq));
        let gauged = if s.cl_reacq {
            asked.push(Access::LoadU32(*self.interval_us, s.interval_us))
        } else {
            asked
        };
        let fast = gauged.push(Access::LoadBool(*self.cl_fast_path, s.cl_fast_path));
        let judged = if s.cl_fast_path {
            fast.push(Access::LoadBool(*self.cl_active, s.cl_active))
        } else {
            fast
        };
        if s.accepts_edges() {
            judged
        } else if s.cand_zc_us != u32::MAX {
            judged.push(Access::LoadU32(*self.cand_zc_us, s.cand_zc_us))
        } else {
            judged
                .push(Access::LoadU32(*self.cand_zc_us, s.cand_zc_us))
                .push(Access::StoreBool(*self.cand_expected, t.cand_expected))
                .push(Access::StoreU8(*self.cand_confirms, t.cand_confirms))
                .push(Access::LoadU8(*self.window_gen, s.window_gen))
                .push(Access::StoreU8(*self.cand_gen, t.cand_gen))
                .push(Access::StoreU32(*self.cand_zc_us, t.cand_zc_us))
        }
    }

    /// A held edge took the trace from `log` to `log2` with answer `r`: `s`
    /// holds what was read.
    pub open spec fn edge_held(
        &self,
        log: Seq<Access>,
        s: ZcState,
        expected: bool,
        now_us: u32,
        r: HeldEdge,
        log2: Seq<Access>,
    ) -> bool {
        &&& r == s.held_edge()
        &&& log2 == self.after_edge(log, s, expected, now_us)
    }

    /// [`crate::zc::on_held_edge`] on the cells.
    pub fn on_held_edge(&self, bus: &mut Bus, expected: bool, now_us: u32) -> (r: HeldEdge)
        ensures
            exists|s: ZcState| #[trigger]
                self.edge_held(old(bus)@, s, expected, now_us, r, final(bus)@),
    {
        let ghost mut s: ZcState = arbitrary();
        let reacq: bool = bus.load_bool(self.cl_reacq);
        let mut reacq_topend: bool = false;
        proof {
            s = ZcState { cl_reacq: reacq, ..s };
        }
        if reacq {
            let iv: u32 = bus.load_u32(self.interval_us);
            reacq_topend = iv > 0 && iv < TOPEND_US;
            proof {
                s = ZcState { interval_us: iv, ..s };
            }
        }
        let fast: bool = bus.load_bool(self.cl_fast_path);
        let mut active: bool = false;
        if fast {
            active = bus.load_bool(self.cl_active);
        }
        proof {
            s = ZcState { cl_fast_path: fast, cl_active: active, ..s };
        }
        let r: HeldEdge = if fast && active && !reacq_topend {
            HeldEdge::AcceptNow
        } else {
            let cand: u32 = bus.load_u32(self.cand_zc_us);
            proof {
                s = ZcState { cand_zc_us: cand, ..s };
            }
            if cand == u32::MAX {
                bus.store_bool(self.cand_expected, expected);
                bus.store_u8(self.cand_confirms, 0);
                let window_gen: u8 = bus.load_u8(self.window_gen);
                proof {
                    s = ZcState { window_gen, ..s };
                }
                bus.store_u8(self.cand_gen, window_gen);
                bus.store_u32(self.cand_zc_us, now_us);
                HeldEdge::Armed
            } else {
                HeldEdge::Ignored
            }
        };
        assert(self.edge_held(old(bus)@, s, expected, now_us, r, bus@));
        r
    }

    /// The trace after a confirm step on candidate `cand` of generation
    /// `gen_snap`, which are read first; `s` holds what was read after them,
    /// and as its candidate word what an exchange found.
    pub open spec fn after_confirm(
        &self,
        log: Seq<Access>,
        s: ZcState,
        cand: u32,
        gen_snap: u8,
        observed: bool,
    ) -> Seq<Access> {
        let seen = log
            .push(Access::LoadU32(*self.cand_zc_us, cand))
            .push(Access::LoadU8(*self.cand_gen, gen_snap));
        let exchange = Access::ExchangeU32(*self.cand_zc_us, cand, u32::MAX, s.cand_zc_us);
        if cand == u32::MAX {
            seen
        } else if observed == s.cand_expected {
            let judged = seen
                .push(Access::LoadBool(*self.cand_expected, s.cand_expected))
                .push(Access::LoadBool(*self.cl_active, s.cl_active))
                .push(Access::LoadBool(*self.cl_reacq, s.cl_reacq))
                .push(Access::LoadU32(*self.interval_us, s.interval_us))
                .push(Access::LoadU8(*self.cand_confirms, s.cand_confirms));
            if s.cand_confirms + 1 < s.need() {
                judged.push(
                    Access::StoreU8(*self.cand_confirms, s.confirmed(cand, observed).cand_confirms),
                )
            } else {
                judged.push(exchange)
            }
        } else {
            seen
                .push(Access::LoadBool(*self.cand_expected, s.cand_expected))
                .push(Access::LoadU8(*self.cand_confirms, s.cand_confirms))
                .push(Access::LoadBool(*self.cl_active, s.cl_active))
                .push(exchange)
        }
    }

    /// A confirm step took the trace from `log` to `log2` with answer `r`.
    pub open spec fn confirmed(
        &self,
        log: Seq<Access>,
        s: ZcState,
        cand: u32,
        gen_snap: u8,
        observed: bool,
        r: ConfirmAction,
        log2: Seq<Access>,
    ) -> bool {
        &&& r == s.confirm_action(cand, gen_snap, observed)
        &&& log2 == self.after_confirm(log, s, cand, gen_snap, observed)
    }

    /// One confirm step on the cells. The candidate is cleared by an
    /// exchange, so one that was armed in between survives.
    pub fn confirm_step(&self, bus: &mut Bus, observed: bool) -> (r: ConfirmAction)
        ensures
            exists|s: ZcState, cand: u32, gen_snap: u8| #[trigger]
                self.confirmed(old(bus)@, s, cand, gen_snap, observed, r, final(bus)@),
    {
        let ghost mut s: ZcState = arbitrary();
        let cand: u32 = bus.load_u32(self.cand_zc_us);
        let gen_snap: u8 = bus.load_u8(self.cand_gen);
        if cand == u32::MAX {
            assert(self.confirmed(
                old(bus)@,
                s,
                cand,
                gen_snap,
                observed,
                ConfirmAction::Idle,
                bus@,
            ));
            return ConfirmAction::Idle;
        }
        let expected: bool = bus.load_bool(self.cand_expected);
        let r: ConfirmAction = if observed == expected {
            let active: bool = bus.load_bool(self.cl_active);
            let reacq: bool = bus.load_bool(self.cl_reacq);
            let interval: u32 = bus.load_u32(self.interval_us);
            let need: u32 = confirm_need(active, reacq, interval);
            let confirms: u8 = bus.load_u8(self.cand_confirms);
            proof {
                s = ZcState {
                    cand_expected: expected,
                    cl_active: active,
                    cl_reacq: reacq,
                    interval_us: interval,
                    cand_confirms: confirms,
                    ..s
                };
            }
            if confirms as u32 + 1 >= need {
                match bus.compare_exchange_u32(self.cand_zc_us, cand, u32::MAX) {
                    Ok(before) => {
                        proof {
                            s = ZcState { cand_zc_us: before, ..s };
                        }
                        ConfirmAction::AcceptPending { zc_us: cand, gen_snap }
                    },
                    Err(before) => {
                        proof {
                            s = ZcState { cand_zc_us: before, ..s };
                        }
                        ConfirmAction::Idle
                    },
                }
            } else {
                bus.store_u8(self.cand_confirms, confirms + 1);
                ConfirmAction::Progress
            }
        } else {
            let confirms: u8 = bus.load_u8(self.cand_confirms);
            let active: bool = bus.load_bool(self.cl_active);
            let exchanged: Result<u32, u32> = bus.compare_exchange_u32(
                self.cand_zc_us,
                cand,
                u32::MAX,
            );
            proof {
                let found = match exchanged {
                    Ok(before) => before,
                    Err(before) => before,
                };
                s = ZcState {
                    cand_expected: expected,
                    cand_confirms: confirms,
                    cl_active: active,
                    cand_zc_us: found,
                    ..s
                };
            }
            ConfirmAction::Discarded { confirms, cl_active: active }
        };
        assert(self.confirmed(old(bus)@, s, cand, gen_snap, observed, r, bus@));
        r
    }

    /// Whether the generation that a confirm captured is still the open
    /// window's, on the cells.
    pub fn accept_gen_current(&self, bus: &mut Bus, gen_snap: u8) -> (r: bool)
        ensures
            exists|live: u8|
                final(bus)@ == #[trigger] old(bus)@.push(Access::LoadU8(*self.window_gen, live))
                    && r == (gen_snap == live),
    {
        let live: u8 = bus.load_u8(self.window_gen);
        gen_snap == live
    }

    /// The census counter of a verdict.
    pub open spec fn census(&self, verdict: Option<Reject>) -> AtomicU32 {
        match verdict {
            None => *self.est_acc,
            Some(Reject::Floor) => *self.est_rej_floor,
            Some(Reject::Ceiling) => *self.est_rej_ceiling,
            Some(Reject::RateBound) => *self.est_rej_rate,
            Some(Reject::Reseed) => *self.est_rej_reseed,
            Some(Reject::Harmonic) => *self.est_rej_harmonic,
        }
    }

    /// The trace after an open window was marked, and the estimator's state
    /// read: the mark comes right after the check.
    pub open spec fn after_mark(&self, log: Seq<Access>, s: ZcState, zc_us: u32) -> Seq<Access> {
        log
            .push(Access::LoadU32(*self.window_qzc_us, s.window_qzc_us))
            .push(Access::StoreU32(*self.window_qzc_us, zc_us))
            .push(Access::LoadU32(*self.interval_us, s.interval_us))
            .push(Access::LoadU32(*self.last_qzc_us, s.last_qzc_us))
            .push(Access::LoadU8(*self.windows_since_qzc, s.windows_since_qzc))
            .push(Access::LoadBool(*self.cl_reacq, s.cl_reacq))
            .push(Access::LoadBool(*self.cl_am32_geom, s.cl_am32_geom))
            .push(Access::LoadU32(*self.est_prev_period, s.est_prev_period))
            .push(Access::LoadBool(*self.cl_active, s.cl_active))
    }

    /// The trace after the estimator took the zero-cross: the verdict is
    /// counted, on a counter that held `before`, and its state written.
    pub open spec fn after_estimate(
        &self,
        log: Seq<Access>,
        s: ZcState,
        zc_us: u32,
        before: u32,
    ) -> Seq<Access> {
        let est = s.estimate(zc_us);
        log
            .push(Access::AddU32(self.census(s.estimator().verdict(zc_us, s.cl_active)), 1, before))
            .push(Access::StoreU32(*self.interval_us, est.interval_us))
            .push(Access::StoreU32(*self.last_qzc_us, zc_us))
            .push(Access::StoreU8(*self.windows_since_qzc, 0))
            .push(Access::StoreBool(*self.cl_reacq, est.reacq))
            .push(Access::StoreU32(*self.est_prev_period, est.prev_period_us))
    }

    /// The trace after the stiff average took the interval found in `a`, in
    /// geometry mode.
    pub open spec fn after_average(&self, log: Seq<Access>, a: ZcState) -> Seq<Access> {
        let seen = log
            .push(Access::LoadU32(*self.avg_interval_acc, a.avg_interval_acc))
            .push(Access::LoadU32(*self.interval_us, a.interval_us));
        if a.interval_us == 0 {
            seen
        } else if !a.cl_am32_geom {
            seen.push(Access::LoadBool(*self.cl_am32_geom, a.cl_am32_geom))
        } else {
            seen
                .push(Access::LoadBool(*self.cl_am32_geom, a.cl_am32_geom))
                .push(Access::StoreU32(*self.avg_interval_acc, a.next_acc(a.interval_us)))
        }
    }

    /// The trace after the engage and schedule decisions on what `e` holds.
    /// The loop's flag is read after an engage has set it.
    pub open spec fn after_engage(&self, log: Seq<Access>, e: ZcState, sector: u8) -> Seq<Access> {
        let seen = log.push(Access::LoadU32(*self.interval_us, e.interval_us));
        let armed = if !sector_counts(sector) {
            seen
        } else if !e.cl_armed {
            seen.push(Access::LoadBool(*self.cl_armed, e.cl_armed))
        } else {
            seen
                .push(Access::LoadBool(*self.cl_armed, e.cl_armed))
                .push(Access::StoreBool(*self.cl_armed, false))
                .push(Access::StoreBool(*self.cl_active, true))
        };
        let active = armed.push(Access::LoadBool(*self.cl_active, e.cl_active));
        if e.interval_us == 0 {
            seen
        } else if !e.cl_active {
            active
        } else if !e.cl_fast_path {
            active.push(Access::LoadBool(*self.cl_fast_path, e.cl_fast_path))
        } else {
            active
                .push(Access::LoadBool(*self.cl_fast_path, e.cl_fast_path))
                .push(Access::LoadBool(*self.zc_clocked, e.zc_clocked))
        }
    }

    /// The trace after an accept: `s` holds what the estimator ran on, `a`
    /// what the average, and `e` what the decisions were taken on.
    pub open spec fn after_accept(
        &self,
        log: Seq<Access>,
        s: ZcState,
        a: ZcState,
        e: ZcState,
        before: u32,
        sector: u8,
        zc_us: u32,
        now_10us: u32,
    ) -> Seq<Access> {
        let marked = self.after_mark(log, s, zc_us);
        if s.masked() {
            log.push(Access::LoadU32(*self.window_qzc_us, s.window_qzc_us))
        } else if !s.estimator().accept_fits(zc_us, s.cl_active) {
            marked
        } else {
            let averaged = self.after_average(self.after_estimate(marked, s, zc_us, before), a);
            self.after_engage(
                averaged
                    .push(Access::StoreU8(*self.cl_noz_run, 0))
                    .push(Access::StoreU32(*self.last_qzc_10us, now_10us)),
                e,
                sector,
            )
        }
    }

    /// An accept took the trace from `log` to `log2` with answer `r`.
    pub open spec fn published(
        &self,
        log: Seq<Access>,
        s: ZcState,
        a: ZcState,
        e: ZcState,
        before: u32,
        sector: u8,
        zc_us: u32,
        now_10us: u32,
        r: Option<AcceptPlan>,
        log2: Seq<Access>,
    ) -> bool {
        &&& r == if s.masked() || !s.estimator().accept_fits(zc_us, s.cl_active) {
            None
        } else {
            Some(decided_plan(e, sector))
        }
        &&& log2 == self.after_accept(log, s, a, e, before, sector, zc_us, now_10us)
    }

    /// Takes the interval cell into the stiff average, in geometry mode.
    fn average(&self, bus: &mut Bus)
        ensures
            exists|a: ZcState| final(bus)@ == #[trigger] self.after_average(old(bus)@, a),
    {
        let acc: u32 = bus.load_u32(self.avg_interval_acc);
        let iv: u32 = bus.load_u32(self.interval_us);
        let mut geom: bool = false;
        if iv != 0 {
            geom = bus.load_bool(self.cl_am32_geom);
        }
        let ghost a = ZcState {
            avg_interval_acc: acc,
            interval_us: iv,
            cl_am32_geom: geom,
            ..arbitrary()
        };
        if geom {
            bus.store_u32(self.avg_interval_acc, average_step(acc, iv));
        }
        assert(bus@ == self.after_average(old(bus)@, a));
    }

    /// Engages an armed loop and decides on a schedule, from the cells as
    /// they are now.
    fn engage(&self, bus: &mut Bus, sector: u8) -> (r: AcceptPlan)
        ensures
            exists|e: ZcState|
                final(bus)@ == #[trigger] self.after_engage(old(bus)@, e, sector) && r
                    == decided_plan(e, sector),
    {
        let interval_us: u32 = bus.load_u32(self.interval_us);
        let is_ab: bool = sector != 0 && sector != 3;
        let mut armed: bool = false;
        let mut active: bool = false;
        let mut fast: bool = false;
        let mut clocked: bool = false;
        if interval_us != 0 {
            if is_ab {
                armed = bus.load_bool(self.cl_armed);
                if armed {
                    bus.store_bool(self.cl_armed, false);
                    bus.store_bool(self.cl_active, true);
                }
            }
            active = bus.load_bool(self.cl_active);
            if active {
                fast = bus.load_bool(self.cl_fast_path);
                if fast {
                    clocked = bus.load_bool(self.zc_clocked);
                }
            }
        }
        let ghost e = ZcState {
            interval_us,
            cl_armed: armed,
            cl_active: active,
            cl_fast_path: fast,
            zc_clocked: clocked,
            ..arbitrary()
        };
        assert(bus@ == self.after_engage(old(bus)@, e, sector));
        AcceptPlan {
            engaged: armed,
            schedule: active && (is_ab || (fast && (clocked || interval_us < TOPEND_US))),
            interval_us,
        }
    }

    /// [`crate::zc::accept_publish`] on the cells. Each part reads its cells
    /// where it needs them, so the average and the decisions see what other
    /// contexts wrote meanwhile. Intervals too large for the estimator's
    /// arithmetic answer `None`, with the window marked.
    pub fn accept_publish(
        &self,
        bus: &mut Bus,
        sector: u8,
        zc_us: u32,
        now_10us: u32,
    ) -> (r: Option<AcceptPlan>)
        ensures
            exists|s: ZcState, a: ZcState, e: ZcState, before: u32| #[trigger]
                self.published(
                    old(bus)@,
                    s,
                    a,
                    e,
                    before,
                    sector,
                    zc_us,
                    now_10us,
                    r,
                    final(bus)@,
                ),
    {
        let ghost log = bus@;
        let ghost any: ZcState = arbitrary();
        let window: u32 = bus.load_u32(self.window_qzc_us);
        if window != u32::MAX {
            let ghost s = ZcState { window_qzc_us: window, ..any };
            assert(self.published(log, s, any, any, 0, sector, zc_us, now_10us, None, bus@));
            return None;
        }
        bus.store_u32(self.window_qzc_us, zc_us);
        let interval_us: u32 = bus.load_u32(self.interval_us);
        let last_qzc_us: u32 = bus.load_u32(self.last_qzc_us);
        let windows_since_qzc: u8 = bus.load_u8(self.windows_since_qzc);
        let cl_reacq: bool = bus.load_bool(self.cl_reacq);
        let cl_am32_geom: bool = bus.load_bool(self.cl_am32_geom);
        let est_prev_period: u32 = bus.load_u32(self.est_prev_period);
        let cl_active: bool = bus.load_bool(self.cl_active);
        let ghost s = ZcState {
            window_qzc_us: window,
            interval_us,
            last_qzc_us,
            windows_since_qzc,
            cl_reacq,
            cl_am32_geom,
            est_prev_period,
            cl_active,
            ..any
        };
        let mut est = Estimator {
            interval_us,
            last_qzc_us: if last_qzc_us == u32::MAX {
                None
            } else {
                Some(last_qzc_us)
            },
            windows_since_qzc: windows_since_qzc as u32,
            reacq: cl_reacq,
            am32_geom: cl_am32_geom,
            prev_period_us: est_prev_period,
        };
        assert(est == s.estimator());
        assert(bus@ == self.after_mark(log, s, zc_us));
        if !est.can_accept(zc_us, cl_active) {
            assert(self.published(log, s, any, any, 0, sector, zc_us, now_10us, None, bus@));
            return None;
        }
        let ghost marked = bus@;
        let (_, reject) = est.on_accept_traced(zc_us, cl_active);
        let counter: &AtomicU32 = match reject {
            None => self.est_acc,
            Some(Reject::Floor) => self.est_rej_floor,
            Some(Reject::Ceiling) => self.est_rej_ceiling,
            Some(Reject::RateBound) => self.est_rej_rate,
            Some(Reject::Reseed) => self.est_rej_reseed,
            Some(Reject::Harmonic) => self.est_rej_harmonic,
        };
        let before: u32 = bus.fetch_add_u32(counter, 1);
        bus.store_u32(self.interval_us, est.interval_us);
        bus.store_u32(self.last_qzc_us, zc_us);
        bus.store_u8(self.windows_since_qzc, 0);
        bus.store_bool(self.cl_reacq, est.reacq);
        bus.store_u32(self.est_prev_period, est.prev_period_us);
        assert(bus@ == self.after_estimate(marked, s, zc_us, before));
        let ghost estimated = bus@;
        self.average(bus);
        let ghost a = choose|a: ZcState| bus@ == #[trigger] self.after_average(estimated, a);
        bus.store_u8(self.cl_noz_run, 0);
        bus.store_u32(self.last_qzc_10us, now_10us);
        let ghost settled = bus@;
        let plan: AcceptPlan = self.engage(bus, sector);
        let ghost e = choose|e: ZcState|
            bus@ == #[trigger] self.after_engage(settled, e, sector) && plan == decided_plan(
                e,
                sector,
            );
        assert(self.published(log, s, a, e, before, sector, zc_us, now_10us, Some(plan), bus@));
        Some(plan)
    }

    /// The stiff average in µs, on the cells; 0 when unseeded.
    pub fn avg_interval_us(&self, bus: &mut Bus) -> (r: u32)
        ensures
            exists|acc: u32|
                final(bus)@ == #[trigger] old(bus)@.push(Access::LoadU32(*self.avg_interval_acc, acc))
                    && r == acc / 6,
    {
        let acc: u32 = bus.load_u32(self.avg_interval_acc);
        acc / 6
    }

    /// The trace after an early schedule decision: each flag is read where
    /// it is needed.
    pub open spec fn after_precheck(
        &self,
        log: Seq<Access>,
        s: ZcState,
        sector: u8,
    ) -> Seq<Access> {
        let checked = log.push(Access::LoadU32(*self.window_qzc_us, s.window_qzc_us));
        let gauged = checked.push(Access::LoadU32(*self.interval_us, s.interval_us));
        let active = gauged.push(Access::LoadBool(*self.cl_active, s.cl_active));
        if s.masked() {
            checked
        } else if s.interval_us == 0 {
            gauged
        } else if sector_counts(sector) {
            if s.cl_active {
                active
            } else {
                active.push(Access::LoadBool(*self.cl_armed, s.cl_armed))
            }
        } else if !s.cl_active {
            active
        } else if !s.cl_fast_path {
            active.push(Access::LoadBool(*self.cl_fast_path, s.cl_fast_path))
        } else {
            active
                .push(Access::LoadBool(*self.cl_fast_path, s.cl_fast_path))
                .push(Access::LoadBool(*self.zc_clocked, s.zc_clocked))
        }
    }

    /// An early schedule decision took the trace from `log` to `log2`.
    pub open spec fn prechecked(
        &self,
        log: Seq<Access>,
        s: ZcState,
        sector: u8,
        r: Option<u32>,
        log2: Seq<Access>,
    ) -> bool {
        &&& r == s.precheck(sector)
        &&& log2 == self.after_precheck(log, s, sector)
    }

    /// [`crate::zc::schedule_precheck`] on the cells.
    pub fn schedule_precheck(&self, bus: &mut Bus, sector: u8) -> (r: Option<u32>)
        ensures
            exists|s: ZcState| #[trigger] self.prechecked(old(bus)@, s, sector, r, final(bus)@),
    {
        let ghost log = bus@;
        let ghost mut s: ZcState = arbitrary();
        let window: u32 = bus.load_u32(self.window_qzc_us);
        proof {
            s = ZcState { window_qzc_us: window, ..s };
        }
        if window != u32::MAX {
            assert(self.prechecked(log, s, sector, None, bus@));
            return None;
        }
        let iv: u32 = bus.load_u32(self.interval_us);
        proof {
            s = ZcState { interval_us: iv, ..s };
        }
        if iv == 0 {
            assert(self.prechecked(log, s, sector, None, bus@));
            return None;
        }
        let active: bool = bus.load_bool(self.cl_active);
        proof {
            s = ZcState { cl_active: active, ..s };
        }
        let mut ok: bool = active;
        if sector != 0 && sector != 3 {
            if !active {
                ok = bus.load_bool(self.cl_armed);
                proof {
                    s = ZcState { cl_armed: ok, ..s };
                }
            }
        } else if active {
            let fast: bool = bus.load_bool(self.cl_fast_path);
            proof {
                s = ZcState { cl_fast_path: fast, ..s };
            }
            ok = false;
            if fast {
                let clocked: bool = bus.load_bool(self.zc_clocked);
                proof {
                    s = ZcState { zc_clocked: clocked, ..s };
                }
                ok = clocked || iv < TOPEND_US;
            }
        }
        let r: Option<u32> = if ok {
            Some(iv)
        } else {
            None
        };
        assert(self.prechecked(log, s, sector, r, bus@));
        r
    }
}

/// The engage and schedule decisions on a state, its loop flag taken as it is
/// after an engage.
pub open spec fn decided_plan(e: ZcState, sector: u8) -> AcceptPlan {
    AcceptPlan {
        engaged: e.engages(sector, e.interval_us),
        schedule: e.interval_us != 0 && e.cl_active && (sector_counts(sector) || e.retimes_c(
            e.interval_us,
        )),
        interval_us: e.interval_us,
    }
}

/// An accept that no other context disturbs answers as the machine does, and
/// moves the average as the machine does: the average and the decisions then
/// see what the estimator wrote, and nothing else has changed.
pub proof fn law_undisturbed_accept_is_the_machines(
    s: ZcState,
    a: ZcState,
    e: ZcState,
    sector: u8,
    zc_us: u32,
    now_10us: u32,
)
    requires
        ({
            let t = s.published(sector, zc_us, now_10us);
            &&& a == (ZcState { interval_us: t.interval_us, ..s })
            &&& e == (ZcState { interval_us: t.interval_us, cl_active: t.cl_active, ..s })
        }),
    ensures
        decided_plan(e, sector) == s.plan(sector, zc_us),
        a.next_acc(a.interval_us) == s.published(sector, zc_us, now_10us).avg_interval_acc,
{
}

/// The intervals that a close found, at each place where it looks.
pub ghost struct IntervalReads {
    /// For the boundary prediction.
    pub at_prediction: u32,
    /// For the run of misses that enters re-acquisition.
    pub at_miss: u32,
    /// For the report of a broken chain.
    pub at_break: u32,
    /// For the streaming decision.
    pub at_stream: u32,
}

/// A state with the interval that was found at one place.
pub open spec fn with_interval(s: WindowControl, interval_us: u32) -> WindowControl {
    WindowControl { interval_us, ..s }
}

/// The values the record half needs, on what a close found.
pub open spec fn close_scalars(
    s: WindowControl,
    iv: IntervalReads,
    sector: u8,
    now_us: u32,
) -> CloseScalars {
    CloseScalars {
        pred_err_us: prediction_error(s.qzc_us, iv.at_prediction, now_us),
        ..with_interval(s, iv.at_stream).scalars(sector, now_us)
    }
}

/// What a close finds before it resets anything.
struct Judgement {
    start_us: u32,
    qzc_us: u32,
    pred_err_us: i16,
    noz: Option<(u8, u16)>,
    raq: Option<(u8, u16)>,
    record: bool,
}

/// The cells behind a [`WindowControl`].
pub struct ControlCells<'a> {
    /// Start of the open window, µs; 0 before the first commutation.
    pub sector_start_us: &'a AtomicU32,
    /// Qualified zero-cross of the open window; `u32::MAX` is none.
    pub qzc_us: &'a AtomicU32,
    /// First edge of the open window; `u32::MAX` is none.
    pub first_zc_us: &'a AtomicU32,
    /// Pending candidate edge; `u32::MAX` is none.
    pub cand_zc_us: &'a AtomicU32,
    /// Window generation.
    pub window_gen: &'a AtomicU8,
    /// Smoothed sector interval, µs; 0 is unseeded.
    pub interval_us: &'a AtomicU32,
    /// Last accepted zero-cross; `u32::MAX` is a broken chain.
    pub last_qzc_us: &'a AtomicU32,
    /// Window closes since the last accepted zero-cross.
    pub windows_since_qzc: &'a AtomicU8,
    /// Closed loop engaged.
    pub cl_active: &'a AtomicBool,
    /// Consecutive missed A and B windows.
    pub cl_noz_run: &'a AtomicU8,
    /// Re-acquisition mode.
    pub cl_reacq: &'a AtomicBool,
    /// Telemetry on.
    pub stream_on: &'a AtomicBool,
    /// Window counter of the decimation.
    pub wrec_decim: &'a AtomicU32,
    /// Sequence number of the next record.
    pub wrec_seq: &'a AtomicU8,
    /// Last commutation, 10 µs ticks.
    pub last_comm_10us: &'a AtomicU32,
    /// Raw edges of the closing window: read for the miss event, not reset
    /// here.
    pub raw: &'a AtomicU32,
}

impl<'a> ControlCells<'a> {
    /// The trace after the boundary prediction.
    pub open spec fn after_prediction(
        &self,
        log: Seq<Access>,
        s: WindowControl,
        iv: IntervalReads,
    ) -> Seq<Access> {
        let seen = log
            .push(Access::LoadU32(*self.sector_start_us, s.sector_start_us))
            .push(Access::LoadU32(*self.qzc_us, s.qzc_us));
        if s.qzc_us == u32::MAX {
            seen
        } else {
            seen.push(Access::LoadU32(*self.interval_us, iv.at_prediction))
        }
    }

    /// The trace after a miss was looked for, and counted.
    pub open spec fn after_miss(
        &self,
        log: Seq<Access>,
        s: WindowControl,
        iv: IntervalReads,
        sector: u8,
    ) -> Seq<Access> {
        let asked = log.push(Access::LoadBool(*self.cl_active, s.cl_active));
        let noted = asked.push(Access::LoadU32(*self.raw, s.raw));
        let counted = noted
            .push(Access::LoadU8(*self.cl_noz_run, s.cl_noz_run))
            .push(Access::StoreU8(*self.cl_noz_run, s.miss_run()))
            .push(Access::LoadU32(*self.interval_us, iv.at_miss));
        let widened = if s.miss_run() < with_interval(s, iv.at_miss).reacq_at() {
            counted
        } else if s.cl_reacq {
            counted.push(Access::LoadBool(*self.cl_reacq, s.cl_reacq))
        } else {
            counted
                .push(Access::LoadBool(*self.cl_reacq, s.cl_reacq))
                .push(Access::StoreBool(*self.cl_reacq, true))
        };
        let chained = widened.push(Access::LoadU32(*self.last_qzc_us, s.last_qzc_us));
        if s.qzc_us != u32::MAX {
            log
        } else if !s.cl_active {
            asked
        } else if !sector_counts(sector) {
            noted
        } else if s.miss_run() < 2 {
            widened
        } else if s.last_qzc_us == u32::MAX {
            chained
        } else {
            chained
                .push(Access::StoreU32(*self.last_qzc_us, u32::MAX))
                .push(Access::LoadU32(*self.interval_us, iv.at_break))
        }
    }

    /// The trace after a close was judged: prediction, miss, the span
    /// counter, and the streaming decision, for which the window counter
    /// advances in one step.
    pub open spec fn after_judging(
        &self,
        log: Seq<Access>,
        s: WindowControl,
        iv: IntervalReads,
        sector: u8,
    ) -> Seq<Access> {
        self.after_miss(self.after_prediction(log, s, iv), s, iv, sector)
            .push(Access::LoadU8(*self.windows_since_qzc, s.windows_since_qzc))
            .push(Access::StoreU8(*self.windows_since_qzc, s.windows_since_qzc.saturating_add(1)))
            .push(Access::AddU32(*self.wrec_decim, 1, s.wrec_decim))
            .push(Access::LoadU32(*self.interval_us, iv.at_stream))
            .push(Access::LoadBool(*self.stream_on, s.stream_on))
    }

    /// The trace after a close: judged, numbered when the window is
    /// streamed, and reset for the next one.
    pub open spec fn after_close(
        &self,
        log: Seq<Access>,
        s: WindowControl,
        iv: IntervalReads,
        sector: u8,
        now_10us: u32,
        now_us: u32,
    ) -> Seq<Access> {
        let t = s.closed(sector, now_10us, now_us);
        let judged = self.after_judging(log, s, iv, sector).push(
            Access::LoadU32(*self.first_zc_us, s.first_zc_us),
        );
        let numbered = if with_interval(s, iv.at_stream).records() {
            judged.push(Access::AddU8(*self.wrec_seq, 1, s.wrec_seq))
        } else {
            judged
        };
        numbered
            .push(Access::StoreU32(*self.first_zc_us, t.first_zc_us))
            .push(Access::StoreU32(*self.qzc_us, t.qzc_us))
            .push(Access::StoreU32(*self.cand_zc_us, t.cand_zc_us))
            .push(Access::LoadU8(*self.window_gen, s.window_gen))
            .push(Access::StoreU8(*self.window_gen, t.window_gen))
            .push(Access::StoreU32(*self.sector_start_us, t.sector_start_us))
            .push(Access::StoreU32(*self.last_comm_10us, t.last_comm_10us))
    }

    /// A close took the trace from `log` to `log2` with answer `r`: `s` and
    /// `iv` hold what was read.
    pub open spec fn closed(
        &self,
        log: Seq<Access>,
        s: WindowControl,
        iv: IntervalReads,
        sector: u8,
        now_10us: u32,
        now_us: u32,
        r: ([Option<(u8, u16)>; 2], CloseScalars),
        log2: Seq<Access>,
    ) -> bool {
        &&& r.0@ == with_interval(s, iv.at_break).events(sector)
        &&& r.1 == close_scalars(s, iv, sector, now_us)
        &&& log2 == self.after_close(log, s, iv, sector, now_10us, now_us)
    }

    /// Judging took the trace from `log` to `log2` with answer `r`.
    spec fn judged(
        &self,
        log: Seq<Access>,
        s: WindowControl,
        iv: IntervalReads,
        sector: u8,
        now_us: u32,
        r: Judgement,
        log2: Seq<Access>,
    ) -> bool {
        &&& r.start_us == s.sector_start_us
        &&& r.qzc_us == s.qzc_us
        &&& r.pred_err_us == prediction_error(s.qzc_us, iv.at_prediction, now_us)
        &&& seq![r.noz, r.raq] == with_interval(s, iv.at_break).events(sector)
        &&& r.record == with_interval(s, iv.at_stream).records()
        &&& log2 == self.after_judging(log, s, iv, sector)
    }

    fn judge(&self, bus: &mut Bus, prev_sector: u8, now_us: u32) -> (r: Judgement)
        ensures
            exists|s: WindowControl, iv: IntervalReads| #[trigger]
                self.judged(old(bus)@, s, iv, prev_sector, now_us, r, final(bus)@),
    {
        let ghost log = bus@;
        let ghost mut s: WindowControl = arbitrary();
        let ghost mut iv: IntervalReads = arbitrary();
        let start_us: u32 = bus.load_u32(self.sector_start_us);
        let qzc_us: u32 = bus.load_u32(self.qzc_us);
        let mut pred_err_us: i16 = PRED_NONE;
        proof {
            s = WindowControl { sector_start_us: start_us, qzc_us, ..s };
        }
        if qzc_us != u32::MAX {
            let interval_us: u32 = bus.load_u32(self.interval_us);
            pred_err_us = pred_err(qzc_us, interval_us, now_us);
            proof {
                iv = IntervalReads { at_prediction: interval_us, ..iv };
            }
        }
        let ghost predicted = bus@;
        let (noz, raq) = self.look_for_miss(bus, qzc_us, prev_sector);
        proof {
            let (m, miv) = choose|m: WindowControl, miv: IntervalReads| #[trigger]
                self.missed(predicted, m, miv, qzc_us, prev_sector, (noz, raq), bus@);
            s = WindowControl {
                cl_active: m.cl_active,
                raw: m.raw,
                cl_noz_run: m.cl_noz_run,
                cl_reacq: m.cl_reacq,
                last_qzc_us: m.last_qzc_us,
                ..s
            };
            iv = IntervalReads { at_miss: miv.at_miss, at_break: miv.at_break, ..iv };
            assert(bus@ == self.after_miss(predicted, s, iv, prev_sector));
            assert(predicted == self.after_prediction(log, s, iv));
        }
        let windows_since_qzc: u8 = bus.load_u8(self.windows_since_qzc);
        bus.store_u8(self.windows_since_qzc, windows_since_qzc.saturating_add(1));
        let wrec_decim: u32 = bus.fetch_add_u32(self.wrec_decim, 1);
        let interval_us: u32 = bus.load_u32(self.interval_us);
        let stream_on: bool = bus.load_bool(self.stream_on);
        proof {
            s = WindowControl { windows_since_qzc, wrec_decim, stream_on, ..s };
            iv = IntervalReads { at_stream: interval_us, ..iv };
        }
        let record: bool = stream_on && start_us != 0 && streams(interval_us, wrec_decim);
        let r = Judgement { start_us, qzc_us, pred_err_us, noz, raq, record };
        assert(seq![r.noz, r.raq] =~= with_interval(s, iv.at_break).events(prev_sector));
        assert(self.judged(log, s, iv, prev_sector, now_us, r, bus@));
        r
    }

    /// Looking for a miss took the trace from `log` to `log2` with the
    /// events `r`.
    spec fn missed(
        &self,
        log: Seq<Access>,
        s: WindowControl,
        iv: IntervalReads,
        qzc_us: u32,
        sector: u8,
        r: (Option<(u8, u16)>, Option<(u8, u16)>),
        log2: Seq<Access>,
    ) -> bool {
        &&& s.qzc_us == qzc_us
        &&& r.0 == with_interval(s, iv.at_break).events(sector)[0]
        &&& r.1 == with_interval(s, iv.at_break).events(sector)[1]
        &&& log2 == self.after_miss(log, s, iv, sector)
    }

    fn look_for_miss(&self, bus: &mut Bus, qzc_us: u32, prev_sector: u8) -> (r: (
        Option<(u8, u16)>,
        Option<(u8, u16)>,
    ))
        ensures
            exists|s: WindowControl, iv: IntervalReads| #[trigger]
                self.missed(old(bus)@, s, iv, qzc_us, prev_sector, r, final(bus)@),
    {
        let ghost log = bus@;
        let ghost mut s: WindowControl = WindowControl { qzc_us, ..arbitrary() };
        let ghost mut iv: IntervalReads = arbitrary();
        let mut noz: Option<(u8, u16)> = None;
        let mut raq: Option<(u8, u16)> = None;
        let mut cl_active: bool = false;
        if qzc_us == u32::MAX {
            cl_active = bus.load_bool(self.cl_active);
        }
        proof {
            s = WindowControl { cl_active, ..s };
        }
        if cl_active {
            let raw: u32 = bus.load_u32(self.raw);
            noz = Some((EV_NOZ, cap16(raw)));
            proof {
                s = WindowControl { raw, ..s };
            }
            // Only A and B windows count: phase-C windows legitimately close
            // without a zero-cross.
            if prev_sector != 0 && prev_sector != 3 {
                let cl_noz_run: u8 = bus.load_u8(self.cl_noz_run);
                let run: u8 = cl_noz_run.saturating_add(1);
                bus.store_u8(self.cl_noz_run, run);
                let interval_us: u32 = bus.load_u32(self.interval_us);
                proof {
                    s = WindowControl { cl_noz_run, ..s };
                    iv = IntervalReads { at_miss: interval_us, ..iv };
                }
                let trip: u8 = if interval_us > 0 && interval_us < HIGH_SPEED_US {
                    1
                } else {
                    2
                };
                if run >= trip {
                    let cl_reacq: bool = bus.load_bool(self.cl_reacq);
                    proof {
                        s = WindowControl { cl_reacq, ..s };
                    }
                    if !cl_reacq {
                        bus.store_bool(self.cl_reacq, true);
                    }
                }
                if run >= 2 {
                    let last_qzc_us: u32 = bus.load_u32(self.last_qzc_us);
                    proof {
                        s = WindowControl { last_qzc_us, ..s };
                    }
                    if last_qzc_us != u32::MAX {
                        bus.store_u32(self.last_qzc_us, u32::MAX);
                        let interval_us: u32 = bus.load_u32(self.interval_us);
                        raq = Some((EV_RAQ, cap16(interval_us)));
                        proof {
                            iv = IntervalReads { at_break: interval_us, ..iv };
                        }
                    }
                }
            }
        }
        assert(self.missed(log, s, iv, qzc_us, prev_sector, (noz, raq), bus@));
        (noz, raq)
    }

    /// [`window_control_step`](crate::window::window_control_step) on the
    /// cells.
    pub fn window_control_step(
        &self,
        bus: &mut Bus,
        prev_sector: u8,
        now_10us: u32,
        now_us: u32,
    ) -> (r: ([Option<(u8, u16)>; 2], CloseScalars))
        ensures
            exists|s: WindowControl, iv: IntervalReads| #[trigger]
                self.closed(old(bus)@, s, iv, prev_sector, now_10us, now_us, r, final(bus)@),
    {
        let ghost log = bus@;
        let j: Judgement = self.judge(bus, prev_sector, now_us);
        let ghost (m, iv) = choose|m: WindowControl, iv: IntervalReads| #[trigger]
            self.judged(log, m, iv, prev_sector, now_us, j, bus@);
        let first_zc_us: u32 = bus.load_u32(self.first_zc_us);
        let mut wrec_seq: u8 = 0;
        if j.record {
            wrec_seq = bus.fetch_add_u8(self.wrec_seq, 1);
        }
        let sc = CloseScalars {
            prev_sector,
            record: j.record,
            start_10us: j.start_us / 10,
            len_us: cap16(now_us.wrapping_sub(j.start_us)),
            zc_off_us: offset_us(first_zc_us, j.start_us),
            qzc_off_us: offset_us(j.qzc_us, j.start_us),
            pred_err_us: j.pred_err_us,
            seq: wrec_seq,
        };
        bus.store_u32(self.first_zc_us, u32::MAX);
        bus.store_u32(self.qzc_us, u32::MAX);
        bus.store_u32(self.cand_zc_us, u32::MAX);
        let window_gen: u8 = bus.load_u8(self.window_gen);
        bus.store_u8(self.window_gen, window_gen.wrapping_add(1));
        bus.store_u32(self.sector_start_us, now_us);
        bus.store_u32(self.last_comm_10us, now_10us);
        let bb: [Option<(u8, u16)>; 2] = [j.noz, j.raq];
        let ghost s = WindowControl { first_zc_us, wrec_seq, window_gen, ..m };
        assert(bb@ =~= seq![j.noz, j.raq]);
        assert(self.after_judging(log, m, iv, prev_sector) == self.after_judging(
            log,
            s,
            iv,
            prev_sector,
        ));
        assert(self.closed(log, s, iv, prev_sector, now_10us, now_us, (bb, sc), bus@));
        (bb, sc)
    }
}

/// The cells behind a [`WindowDiag`].
pub struct DiagCells<'a> {
    /// Raw comparator edges.
    pub raw: &'a AtomicU32,
    /// Edges late enough to count.
    pub valid: &'a AtomicU32,
    /// Sum of the current samples.
    pub i_sum: &'a AtomicU32,
    /// Number of current samples.
    pub i_n: &'a AtomicU32,
    /// Smallest current sample.
    pub i_min: &'a AtomicU16,
    /// Largest current sample.
    pub i_max: &'a AtomicU16,
    /// Lowest battery sample; `u16::MAX` is none.
    pub vbat_min: &'a AtomicU16,
    /// Latest battery sample.
    pub vbat_live: &'a AtomicU16,
}

impl<'a> DiagCells<'a> {
    /// The trace after the bank was read, giving `s`. The battery minimum is
    /// taken out in one step. The smallest current is read only of samples,
    /// the latest battery sample only for want of a minimum.
    pub open spec fn after_read(&self, log: Seq<Access>, s: WindowDiag) -> Seq<Access> {
        let counted = log
            .push(Access::LoadU32(*self.i_n, s.i_n))
            .push(Access::LoadU32(*self.raw, s.raw))
            .push(Access::LoadU32(*self.valid, s.valid));
        let sampled = if s.i_n == 0 {
            counted
        } else {
            counted.push(Access::LoadU16(*self.i_min, s.i_min))
        };
        let taken = sampled
            .push(Access::LoadU16(*self.i_max, s.i_max))
            .push(Access::LoadU32(*self.i_sum, s.i_sum))
            .push(Access::SwapU16(*self.vbat_min, u16::MAX, s.vbat_min));
        if s.vbat_min == u16::MAX {
            taken.push(Access::LoadU16(*self.vbat_live, s.vbat_live))
        } else {
            taken
        }
    }

    fn read(&self, bus: &mut Bus) -> (r: WindowDiag)
        ensures
            final(bus)@ == self.after_read(old(bus)@, r),
    {
        let i_n: u32 = bus.load_u32(self.i_n);
        let raw: u32 = bus.load_u32(self.raw);
        let valid: u32 = bus.load_u32(self.valid);
        let i_min: u16 = if i_n == 0 {
            0
        } else {
            bus.load_u16(self.i_min)
        };
        let i_max: u16 = bus.load_u16(self.i_max);
        let i_sum: u32 = bus.load_u32(self.i_sum);
        let vbat_min: u16 = bus.swap_u16(self.vbat_min, u16::MAX);
        let vbat_live: u16 = if vbat_min == u16::MAX {
            bus.load_u16(self.vbat_live)
        } else {
            0
        };
        WindowDiag { raw, valid, i_sum, i_n, i_min, i_max, vbat_min, vbat_live }
    }

    /// The trace after a record: the bank is read when the window is
    /// streamed, and cleared in any case.
    pub open spec fn after_build(&self, log: Seq<Access>, s: WindowDiag, streamed: bool) -> Seq<
        Access,
    > {
        let t = s.cleared();
        let read = if streamed {
            self.after_read(log, s)
        } else {
            log
        };
        read
            .push(Access::StoreU32(*self.raw, t.raw))
            .push(Access::StoreU32(*self.valid, t.valid))
            .push(Access::StoreU32(*self.i_sum, t.i_sum))
            .push(Access::StoreU32(*self.i_n, t.i_n))
            .push(Access::StoreU16(*self.i_min, t.i_min))
            .push(Access::StoreU16(*self.i_max, t.i_max))
            .push(Access::StoreU16(*self.vbat_min, t.vbat_min))
    }

    /// A record took the trace from `log` to `log2` with answer `r`.
    pub open spec fn built(
        &self,
        log: Seq<Access>,
        s: WindowDiag,
        sc: CloseScalars,
        r: Option<WindowRec>,
        log2: Seq<Access>,
    ) -> bool {
        &&& r == s.record(sc)
        &&& log2 == self.after_build(log, s, sc.record)
    }

    /// [`build_window_rec`] on the cells.
    pub fn build_window_rec(&self, bus: &mut Bus, sc: &CloseScalars) -> (r: Option<WindowRec>)
        ensures
            exists|s: WindowDiag| #[trigger] self.built(old(bus)@, s, *sc, r, final(bus)@),
    {
        let mut r: Option<WindowRec> = None;
        let ghost mut s: WindowDiag = arbitrary();
        if sc.record {
            let mut diag: WindowDiag = self.read(bus);
            proof {
                s = diag;
            }
            r = build_window_rec(&mut diag, sc);
        }
        bus.store_u32(self.raw, 0);
        bus.store_u32(self.valid, 0);
        bus.store_u32(self.i_sum, 0);
        bus.store_u32(self.i_n, 0);
        bus.store_u16(self.i_min, I_MIN_IDLE);
        bus.store_u16(self.i_max, 0);
        bus.store_u16(self.vbat_min, u16::MAX);
        assert(self.built(old(bus)@, s, *sc, r, bus@));
        r
    }
}

/// The cells behind a [`WindowState`].
pub struct WindowCells<'a> {
    /// Start of the open window, µs; 0 before the first commutation.
    pub sector_start_us: &'a AtomicU32,
    /// Qualified zero-cross of the open window; `u32::MAX` is none.
    pub qzc_us: &'a AtomicU32,
    /// First edge of the open window; `u32::MAX` is none.
    pub first_zc_us: &'a AtomicU32,
    /// Raw comparator edges.
    pub raw: &'a AtomicU32,
    /// Edges late enough to count.
    pub valid: &'a AtomicU32,
    /// Sum of the current samples.
    pub i_sum: &'a AtomicU32,
    /// Number of current samples.
    pub i_n: &'a AtomicU32,
    /// Smallest current sample.
    pub i_min: &'a AtomicU16,
    /// Largest current sample.
    pub i_max: &'a AtomicU16,
    /// Pending candidate edge; `u32::MAX` is none.
    pub cand_zc_us: &'a AtomicU32,
    /// Window generation; stamps candidates against stale confirms.
    pub window_gen: &'a AtomicU8,
    /// Smoothed sector interval, µs; 0 is unseeded.
    pub interval_us: &'a AtomicU32,
    /// Last accepted zero-cross; `u32::MAX` is a broken chain.
    pub last_qzc_us: &'a AtomicU32,
    /// Window closes since the last accepted zero-cross.
    pub windows_since_qzc: &'a AtomicU8,
    /// Closed loop engaged.
    pub cl_active: &'a AtomicBool,
    /// Consecutive missed A and B windows.
    pub cl_noz_run: &'a AtomicU8,
    /// Re-acquisition mode.
    pub cl_reacq: &'a AtomicBool,
    /// Telemetry on.
    pub stream_on: &'a AtomicBool,
    /// Window counter of the decimation.
    pub wrec_decim: &'a AtomicU32,
    /// Sequence number of the next record.
    pub wrec_seq: &'a AtomicU8,
    /// Lowest battery sample since the last record; `u16::MAX` is none.
    pub vbat_min: &'a AtomicU16,
    /// Latest battery sample.
    pub vbat_live: &'a AtomicU16,
    /// Last commutation, 10 µs ticks.
    pub last_comm_10us: &'a AtomicU32,
}

impl<'a> WindowCells<'a> {
    /// The control part.
    pub open spec fn control_cells(&self) -> ControlCells<'a> {
        ControlCells {
            sector_start_us: self.sector_start_us,
            qzc_us: self.qzc_us,
            first_zc_us: self.first_zc_us,
            cand_zc_us: self.cand_zc_us,
            window_gen: self.window_gen,
            interval_us: self.interval_us,
            last_qzc_us: self.last_qzc_us,
            windows_since_qzc: self.windows_since_qzc,
            cl_active: self.cl_active,
            cl_noz_run: self.cl_noz_run,
            cl_reacq: self.cl_reacq,
            stream_on: self.stream_on,
            wrec_decim: self.wrec_decim,
            wrec_seq: self.wrec_seq,
            last_comm_10us: self.last_comm_10us,
            raw: self.raw,
        }
    }

    /// The diagnostic part.
    pub open spec fn diag_cells(&self) -> DiagCells<'a> {
        DiagCells {
            raw: self.raw,
            valid: self.valid,
            i_sum: self.i_sum,
            i_n: self.i_n,
            i_min: self.i_min,
            i_max: self.i_max,
            vbat_min: self.vbat_min,
            vbat_live: self.vbat_live,
        }
    }

    fn control(&self) -> (r: ControlCells<'a>)
        ensures
            r == self.control_cells(),
    {
        ControlCells {
            sector_start_us: self.sector_start_us,
            qzc_us: self.qzc_us,
            first_zc_us: self.first_zc_us,
            cand_zc_us: self.cand_zc_us,
            window_gen: self.window_gen,
            interval_us: self.interval_us,
            last_qzc_us: self.last_qzc_us,
            windows_since_qzc: self.windows_since_qzc,
            cl_active: self.cl_active,
            cl_noz_run: self.cl_noz_run,
            cl_reacq: self.cl_reacq,
            stream_on: self.stream_on,
            wrec_decim: self.wrec_decim,
            wrec_seq: self.wrec_seq,
            last_comm_10us: self.last_comm_10us,
            raw: self.raw,
        }
    }

    fn diag(&self) -> (r: DiagCells<'a>)
        ensures
            r == self.diag_cells(),
    {
        DiagCells {
            raw: self.raw,
            valid: self.valid,
            i_sum: self.i_sum,
            i_n: self.i_n,
            i_min: self.i_min,
            i_max: self.i_max,
            vbat_min: self.vbat_min,
            vbat_live: self.vbat_live,
        }
    }

    /// The trace after a close: judged; the first edge, the bank and the
    /// sequence number taken when the window is streamed; and reset for the
    /// next one.
    pub open spec fn after_close(
        &self,
        log: Seq<Access>,
        s: WindowControl,
        iv: IntervalReads,
        d: WindowDiag,
        sector: u8,
        now_10us: u32,
        now_us: u32,
    ) -> Seq<Access> {
        let t = s.closed(sector, now_10us, now_us);
        let bank = d.cleared();
        let judged = self.control_cells().after_judging(log, s, iv, sector);
        let taken = if with_interval(s, iv.at_stream).records() {
            self.diag_cells().after_read(
                judged.push(Access::LoadU32(*self.first_zc_us, s.first_zc_us)),
                d,
            ).push(Access::AddU8(*self.wrec_seq, 1, s.wrec_seq))
        } else {
            judged
        };
        taken
            .push(Access::StoreU32(*self.raw, bank.raw))
            .push(Access::StoreU32(*self.valid, bank.valid))
            .push(Access::StoreU32(*self.first_zc_us, t.first_zc_us))
            .push(Access::StoreU32(*self.qzc_us, t.qzc_us))
            .push(Access::StoreU32(*self.i_sum, bank.i_sum))
            .push(Access::StoreU32(*self.i_n, bank.i_n))
            .push(Access::StoreU16(*self.i_min, bank.i_min))
            .push(Access::StoreU16(*self.i_max, bank.i_max))
            .push(Access::StoreU32(*self.cand_zc_us, t.cand_zc_us))
            .push(Access::LoadU8(*self.window_gen, s.window_gen))
            .push(Access::StoreU8(*self.window_gen, t.window_gen))
            .push(Access::StoreU32(*self.sector_start_us, t.sector_start_us))
            .push(Access::StoreU32(*self.last_comm_10us, t.last_comm_10us))
    }

    /// A close took the trace from `log` to `log2` with answer `r`: `s`,
    /// `iv` and `d` hold what was read.
    pub open spec fn closed(
        &self,
        log: Seq<Access>,
        s: WindowControl,
        iv: IntervalReads,
        d: WindowDiag,
        sector: u8,
        now_10us: u32,
        now_us: u32,
        r: CloseOutcome,
        log2: Seq<Access>,
    ) -> bool {
        &&& r.bb@ == with_interval(s, iv.at_break).events(sector)
        &&& r.rec == d.record(close_scalars(s, iv, sector, now_us))
        &&& log2 == self.after_close(log, s, iv, d, sector, now_10us, now_us)
    }

    /// [`close_float_window`](crate::window::close_float_window) on the
    /// cells.
    pub fn close_float_window(
        &self,
        bus: &mut Bus,
        prev_sector: u8,
        now_10us: u32,
        now_us: u32,
    ) -> (r: CloseOutcome)
        ensures
            exists|s: WindowControl, iv: IntervalReads, d: WindowDiag| #[trigger]
                self.closed(old(bus)@, s, iv, d, prev_sector, now_10us, now_us, r, final(bus)@),
    {
        let ghost log = bus@;
        let control: ControlCells = self.control();
        let j: Judgement = control.judge(bus, prev_sector, now_us);
        let ghost (m, iv) = choose|m: WindowControl, iv: IntervalReads| #[trigger]
            control.judged(log, m, iv, prev_sector, now_us, j, bus@);
        let mut rec: Option<WindowRec> = None;
        let ghost mut s: WindowControl = m;
        let ghost mut d: WindowDiag = arbitrary();
        if j.record {
            let first_zc_us: u32 = bus.load_u32(self.first_zc_us);
            let mut bank: WindowDiag = self.diag().read(bus);
            let wrec_seq: u8 = bus.fetch_add_u8(self.wrec_seq, 1);
            proof {
                s = WindowControl { first_zc_us, wrec_seq, ..s };
                d = bank;
            }
            let sc = CloseScalars {
                prev_sector,
                record: true,
                start_10us: j.start_us / 10,
                len_us: cap16(now_us.wrapping_sub(j.start_us)),
                zc_off_us: offset_us(first_zc_us, j.start_us),
                qzc_off_us: offset_us(j.qzc_us, j.start_us),
                pred_err_us: j.pred_err_us,
                seq: wrec_seq,
            };
            rec = build_window_rec(&mut bank, &sc);
        }
        bus.store_u32(self.raw, 0);
        bus.store_u32(self.valid, 0);
        bus.store_u32(self.first_zc_us, u32::MAX);
        bus.store_u32(self.qzc_us, u32::MAX);
        bus.store_u32(self.i_sum, 0);
        bus.store_u32(self.i_n, 0);
        bus.store_u16(self.i_min, I_MIN_IDLE);
        bus.store_u16(self.i_max, 0);
        bus.store_u32(self.cand_zc_us, u32::MAX);
        let window_gen: u8 = bus.load_u8(self.window_gen);
        bus.store_u8(self.window_gen, window_gen.wrapping_add(1));
        bus.store_u32(self.sector_start_us, now_us);
        bus.store_u32(self.last_comm_10us, now_10us);
        let r = CloseOutcome { rec, bb: [j.noz, j.raq] };
        proof {
            s = WindowControl { window_gen, ..s };
            assert(r.bb@ =~= seq![j.noz, j.raq]);
            assert(control.after_judging(log, m, iv, prev_sector) == control.after_judging(
                log,
                s,
                iv,
                prev_sector,
            ));
            assert(r.rec == d.record(close_scalars(s, iv, prev_sector, now_us)));
            assert(self.closed(log, s, iv, d, prev_sector, now_10us, now_us, r, bus@));
        }
        r
    }
}

/// A close that no other context disturbs answers as the machine does, in
/// two halves or whole.
pub proof fn law_undisturbed_close_is_the_machines(
    w: WindowState,
    iv: IntervalReads,
    sector: u8,
    now_us: u32,
)
    requires
        iv.at_prediction == w.interval_us,
        iv.at_miss == w.interval_us,
        iv.at_break == w.interval_us,
        iv.at_stream == w.interval_us,
    ensures
        ({
            let s = w.control();
            &&& with_interval(s, iv.at_break).events(sector) == s.events(sector)
            &&& with_interval(s, iv.at_miss).reacq_at() == s.reacq_at()
            &&& close_scalars(s, iv, sector, now_us) == s.scalars(sector, now_us)
            &&& w.diag().record(close_scalars(s, iv, sector, now_us)) == w.diag().record(
                s.scalars(sector, now_us),
            )
        }),
{
    assert(with_interval(w.control(), iv.at_break) == w.control());
}

/// The cells behind a [`ModeState`].
pub struct ModeCells<'a> {
    /// The bridge may be driven.
    pub motor_enabled: &'a AtomicBool,
    /// Closed loop engaged.
    pub cl_active: &'a AtomicBool,
    /// Closed loop armed.
    pub cl_armed: &'a AtomicBool,
    /// Re-acquisition mode.
    pub cl_reacq: &'a AtomicBool,
    /// Consecutive missed A and B windows.
    pub cl_noz_run: &'a AtomicU8,
    /// Smoothed sector interval, µs; 0 is unseeded.
    pub interval_us: &'a AtomicU32,
    /// Six times the stiff average.
    pub avg_interval_acc: &'a AtomicU32,
    /// Last accepted zero-cross; `u32::MAX` is a broken chain.
    pub last_qzc_us: &'a AtomicU32,
    /// Window closes since the last accepted zero-cross.
    pub windows_since_qzc: &'a AtomicU8,
    /// Applied amplitude, percent.
    pub amplitude_pct: &'a AtomicU8,
    /// Commanded amplitude, percent.
    pub amp_target_pct: &'a AtomicU8,
    /// Unloaded battery sample taken at arm.
    pub vbat_baseline_raw: &'a AtomicU16,
    /// Latest battery sample.
    pub vbat_live: &'a AtomicU16,
}

impl<'a> ModeCells<'a> {
    /// The trace after the reads of a command. A kill reads nothing.
    pub open spec fn after_read(&self, log: Seq<Access>, cmd: Cmd, s: ModeState) -> Seq<Access> {
        let active = log.push(Access::LoadBool(*self.cl_active, s.cl_active));
        match cmd {
            Cmd::Arm { hz: _, amp_pct: _ } => if s.cl_active {
                active
            } else {
                active.push(Access::LoadU16(*self.vbat_live, s.vbat_live))
            },
            Cmd::Kill => log,
            Cmd::ClToggle => active,
            Cmd::ModeToggle => if s.cl_active {
                active
            } else {
                active.push(Access::LoadBool(*self.cl_armed, s.cl_armed))
            },
        }
    }

    /// The trace after the flags of a stop were written.
    pub open spec fn after_stop(&self, log: Seq<Access>, t: ModeState) -> Seq<Access> {
        log
            .push(Access::StoreBool(*self.cl_active, t.cl_active))
            .push(Access::StoreBool(*self.cl_armed, t.cl_armed))
            .push(Access::StoreBool(*self.motor_enabled, t.motor_enabled))
    }

    /// The trace after a command was written: `t` is the state and `a` the
    /// actions that the machine gave.
    pub open spec fn after_command(
        &self,
        log: Seq<Access>,
        cmd: Cmd,
        t: ModeState,
        a: Actions,
    ) -> Seq<Access> {
        match cmd {
            Cmd::Arm { hz: _, amp_pct: _ } => {
                if a.msg == Msg::ClBlocked {
                    log
                } else {
                    let snapped = log
                        .push(Access::StoreU16(*self.vbat_baseline_raw, t.vbat_baseline_raw))
                        .push(Access::StoreU8(*self.amplitude_pct, t.amplitude_pct))
                        .push(Access::StoreU8(*self.amp_target_pct, t.amp_target_pct));
                    if a.arm_output {
                        snapped.push(Access::StoreBool(*self.motor_enabled, t.motor_enabled))
                    } else {
                        snapped
                    }
                }
            },
            Cmd::Kill => self.after_stop(log, t),
            Cmd::ClToggle => if a.all_off {
                self.after_stop(log, t)
            } else if a.msg == Msg::ClArmed {
                log
                    .push(Access::StoreU32(*self.interval_us, t.interval_us))
                    .push(Access::StoreU32(*self.avg_interval_acc, t.avg_interval_acc))
                    .push(Access::StoreU32(*self.last_qzc_us, t.last_qzc_us))
                    .push(Access::StoreU8(*self.windows_since_qzc, t.windows_since_qzc))
                    .push(Access::StoreBool(*self.cl_reacq, t.cl_reacq))
                    .push(Access::StoreU8(*self.cl_noz_run, t.cl_noz_run))
                    .push(Access::StoreBool(*self.cl_armed, t.cl_armed))
            } else {
                log
            },
            Cmd::ModeToggle => log,
        }
    }

    /// A command took the trace from `log` to `log2`, and the mirror from
    /// `mir` to `mir2`, with answer `r`.
    pub open spec fn commanded(
        &self,
        log: Seq<Access>,
        s: ModeState,
        mir: Mirror,
        cmd: Cmd,
        mir2: Mirror,
        r: Actions,
        log2: Seq<Access>,
    ) -> bool {
        &&& stepped(s, mir, cmd).1 == mir2
        &&& stepped(s, mir, cmd).2 == r
        &&& log2 == self.after_command(
            self.after_read(log, cmd, s),
            cmd,
            stepped(s, mir, cmd).0,
            r,
        )
    }

    /// [`step`] on the cells. What a command does not read does not decide;
    /// a kill is the same whatever the cells hold.
    pub fn step(&self, bus: &mut Bus, mir: &mut Mirror, cmd: Cmd) -> (r: Actions)
        ensures
            exists|s: ModeState| #[trigger]
                self.commanded(old(bus)@, s, *old(mir), cmd, *final(mir), r, final(bus)@),
            cmd == Cmd::Kill ==> forall|s: ModeState| #[trigger]
                self.commanded(old(bus)@, s, *old(mir), cmd, *final(mir), r, final(bus)@),
    {
        let mut ms = ModeState {
            motor_enabled: false,
            cl_active: false,
            cl_armed: false,
            cl_reacq: false,
            cl_noz_run: 0,
            interval_us: 0,
            avg_interval_acc: 0,
            last_qzc_us: 0,
            windows_since_qzc: 0,
            amplitude_pct: 0,
            amp_target_pct: 0,
            vbat_baseline_raw: 0,
            vbat_live: 0,
        };
        match cmd {
            Cmd::Arm { hz: _, amp_pct: _ } => {
                ms.cl_active = bus.load_bool(self.cl_active);
                if !ms.cl_active {
                    ms.vbat_live = bus.load_u16(self.vbat_live);
                }
            },
            Cmd::Kill => {},
            Cmd::ClToggle => {
                ms.cl_active = bus.load_bool(self.cl_active);
            },
            Cmd::ModeToggle => {
                ms.cl_active = bus.load_bool(self.cl_active);
                if !ms.cl_active {
                    ms.cl_armed = bus.load_bool(self.cl_armed);
                }
            },
        }
        let ghost was = ms;
        let r: Actions = step(&mut ms, mir, cmd);
        match cmd {
            Cmd::Arm { hz: _, amp_pct: _ } => {
                if r.msg != Msg::ClBlocked {
                    bus.store_u16(self.vbat_baseline_raw, ms.vbat_baseline_raw);
                    bus.store_u8(self.amplitude_pct, ms.amplitude_pct);
                    bus.store_u8(self.amp_target_pct, ms.amp_target_pct);
                    if r.arm_output {
                        bus.store_bool(self.motor_enabled, ms.motor_enabled);
                    }
                }
            },
            Cmd::Kill => {
                self.write_stop(bus, &ms);
            },
            Cmd::ClToggle => {
                if r.all_off {
                    self.write_stop(bus, &ms);
                } else if r.msg == Msg::ClArmed {
                    bus.store_u32(self.interval_us, ms.interval_us);
                    bus.store_u32(self.avg_interval_acc, ms.avg_interval_acc);
                    bus.store_u32(self.last_qzc_us, ms.last_qzc_us);
                    bus.store_u8(self.windows_since_qzc, ms.windows_since_qzc);
                    bus.store_bool(self.cl_reacq, ms.cl_reacq);
                    bus.store_u8(self.cl_noz_run, ms.cl_noz_run);
                    bus.store_bool(self.cl_armed, ms.cl_armed);
                }
            },
            Cmd::ModeToggle => {},
        }
        assert(stepped(was, *old(mir), cmd) == (ms, *mir, r));
        assert(self.commanded(old(bus)@, was, *old(mir), cmd, *mir, r, bus@));
        r
    }

    fn write_stop(&self, bus: &mut Bus, ms: &ModeState)
        ensures
            final(bus)@ == self.after_stop(old(bus)@, *ms),
    {
        bus.store_bool(self.cl_active, ms.cl_active);
        bus.store_bool(self.cl_armed, ms.cl_armed);
        bus.store_bool(self.motor_enabled, ms.motor_enabled);
    }
}

/// The cells behind a [`KillFlags`].
pub struct KillCells<'a> {
    /// The bridge may be driven.
    pub motor_enabled: &'a AtomicBool,
    /// Closed loop engaged.
    pub cl_active: &'a AtomicBool,
    /// Closed loop armed.
    pub cl_armed: &'a AtomicBool,
    /// Report: sync lost.
    pub cl_desync: &'a AtomicBool,
    /// The loss was a starvation.
    pub cl_starved: &'a AtomicBool,
    /// Report: overcurrent.
    pub oc_tripped: &'a AtomicBool,
    /// Report: supply sag.
    pub vbat_sagged: &'a AtomicBool,
    /// The black box stopped recording.
    pub bb_frozen: &'a AtomicBool,
    /// Cause of the last kill: 1 desync, 2 starved, 3 overcurrent, 4 sag;
    /// 0 for none yet.
    pub last_kill: &'a AtomicU8,
}

impl<'a> KillCells<'a> {
    /// The trace after a kill was written: `t` are the flags that the kill
    /// gives. The flag that makes the main loop report comes last.
    pub open spec fn after_kill(&self, log: Seq<Access>, kind: IsrKillKind, t: KillFlags) -> Seq<
        Access,
    > {
        let dead = log
            .push(Access::StoreBool(*self.motor_enabled, t.motor_enabled))
            .push(Access::StoreBool(*self.cl_active, t.cl_active))
            .push(Access::StoreBool(*self.cl_armed, t.cl_armed))
            .push(Access::StoreU8(*self.last_kill, t.last_kill));
        match kind {
            IsrKillKind::Desync | IsrKillKind::Starved => {
                dead
                    .push(Access::StoreBool(*self.bb_frozen, t.bb_frozen))
                    .push(Access::StoreBool(*self.cl_starved, t.cl_starved))
                    .push(Access::StoreBool(*self.cl_desync, t.cl_desync))
            },
            IsrKillKind::Overcurrent => dead
                .push(Access::StoreBool(*self.oc_tripped, t.oc_tripped)),
            IsrKillKind::Sag => dead.push(Access::StoreBool(*self.vbat_sagged, t.vbat_sagged)),
        }
    }

    /// [`apply_isr_kill`] on the cells. No cell is read: what a kill writes
    /// does not depend on the flags before, `flags` stands for any of them.
    pub fn apply_isr_kill(&self, bus: &mut Bus, kind: IsrKillKind)
        ensures
            forall|flags: KillFlags|
                final(bus)@ == self.after_kill(old(bus)@, kind, #[trigger] flags.killed(kind)),
    {
        let mut kf = KillFlags {
            motor_enabled: false,
            cl_active: false,
            cl_armed: false,
            cl_desync: false,
            cl_starved: false,
            oc_tripped: false,
            vbat_sagged: false,
            bb_frozen: false,
            last_kill: 0,
        };
        apply_isr_kill(&mut kf, kind);
        bus.store_bool(self.motor_enabled, kf.motor_enabled);
        bus.store_bool(self.cl_active, kf.cl_active);
        bus.store_bool(self.cl_armed, kf.cl_armed);
        bus.store_u8(self.last_kill, kf.last_kill);
        match kind {
            IsrKillKind::Desync | IsrKillKind::Starved => {
                bus.store_bool(self.bb_frozen, kf.bb_frozen);
                bus.store_bool(self.cl_starved, kf.cl_starved);
                bus.store_bool(self.cl_desync, kf.cl_desync);
            },
            IsrKillKind::Overcurrent => {
                bus.store_bool(self.oc_tripped, kf.oc_tripped);
            },
            IsrKillKind::Sag => {
                bus.store_bool(self.vbat_sagged, kf.vbat_sagged);
            },
        }
    }
}

/// The cells behind an [`EdgeHalves`].
pub struct EdgeCells<'a> {
    /// Which revolution of the pair is in progress, 0 or 1.
    pub rev_phase: &'a AtomicU8,
    /// Which half is written, 0 or 1.
    pub active_half: &'a AtomicU8,
    /// 10 µs tick at which the active pair started.
    pub half_start_tick: &'a AtomicU32,
    /// Flips are suppressed, so that a half can be dumped again.
    pub freeze: &'a AtomicBool,
}

impl<'a> EdgeCells<'a> {
    /// The trace after a wrap: the phase flips in one step, and the rest is
    /// read and written where a flip needs it.
    pub open spec fn after_wrap(&self, log: Seq<Access>, s: EdgeHalves, now_10us: u32) -> Seq<
        Access,
    > {
        let t = s.wrapped(now_10us);
        let turned = log.push(Access::XorU8(*self.rev_phase, 1, s.rev_phase));
        if s.rev_phase != 1 {
            turned
        } else if s.freeze {
            turned.push(Access::LoadBool(*self.freeze, s.freeze))
        } else {
            turned
                .push(Access::LoadBool(*self.freeze, s.freeze))
                .push(Access::LoadU8(*self.active_half, s.active_half))
                .push(Access::LoadU32(*self.half_start_tick, s.half_start_tick))
                .push(Access::StoreU32(*self.half_start_tick, t.half_start_tick))
                .push(Access::StoreU8(*self.active_half, t.active_half))
        }
    }

    /// A wrap took the trace from `log` to `log2` with answer `r`: `s` holds
    /// what was read.
    pub open spec fn wrapped(
        &self,
        log: Seq<Access>,
        s: EdgeHalves,
        now_10us: u32,
        r: Option<FlipPlan>,
        log2: Seq<Access>,
    ) -> bool {
        &&& r == s.flip_plan()
        &&& log2 == self.after_wrap(log, s, now_10us)
    }

    /// [`on_rev_wrap`] on the cells, for a caller that keeps the other
    /// contexts out meanwhile.
    pub fn on_rev_wrap(&self, bus: &mut Bus, now_10us: u32) -> (r: Option<FlipPlan>)
        ensures
            exists|s: EdgeHalves| #[trigger]
                self.wrapped(old(bus)@, s, now_10us, r, final(bus)@),
    {
        let mut eh = EdgeHalves {
            rev_phase: bus.fetch_xor_u8(self.rev_phase, 1),
            active_half: 0,
            half_start_tick: 0,
            freeze: false,
        };
        if eh.rev_phase == 1 {
            eh.freeze = bus.load_bool(self.freeze);
            if !eh.freeze {
                eh.active_half = bus.load_u8(self.active_half);
                eh.half_start_tick = bus.load_u32(self.half_start_tick);
            }
        }
        let ghost was = eh;
        let r: Option<FlipPlan> = on_rev_wrap(&mut eh, now_10us);
        if r.is_some() {
            bus.store_u32(self.half_start_tick, eh.half_start_tick);
            bus.store_u8(self.active_half, eh.active_half);
        }
        assert(self.wrapped(old(bus)@, was, now_10us, r, bus@));
        r
    }
}

/// The word that shows a candidate is the last thing written of it.
pub proof fn law_candidate_word_comes_last(
    c: ZcCells<'_>,
    log: Seq<Access>,
    s: ZcState,
    expected: bool,
    now_us: u32,
)
    requires
        s.held_edge() == HeldEdge::Armed,
    ensures
        c.after_edge(log, s, expected, now_us).last() == Access::StoreU32(*c.cand_zc_us, now_us),
{
}

/// The flag that makes the main loop report a kill is the last thing
/// written of it.
pub proof fn law_kill_reports_last(
    c: KillCells<'_>,
    log: Seq<Access>,
    kind: IsrKillKind,
    flags: KillFlags,
)
    ensures
        c.after_kill(log, kind, flags.killed(kind)).last() == match kind {
            IsrKillKind::Overcurrent => Access::StoreBool(*c.oc_tripped, true),
            IsrKillKind::Sag => Access::StoreBool(*c.vbat_sagged, true),
            _ => Access::StoreBool(*c.cl_desync, true),
        },
{
}

/// What a kill writes: bridge, loop and arm off first, then the code of the
/// cause, then its report; five accesses for a current or a supply kill, and
/// seven for a loss of sync, which also freezes the black box.
pub proof fn law_kill_writes_everything_off(
    c: KillCells<'_>,
    log: Seq<Access>,
    kind: IsrKillKind,
    flags: KillFlags,
)
    ensures
        ({
            let t = c.after_kill(log, kind, flags.killed(kind));
            let n = log.len() as int;
            let sync = kind is Desync || kind is Starved;
            &&& t.len() == n + if sync {
                7int
            } else {
                5int
            }
            &&& t.take(n) == log
            &&& t[n] == Access::StoreBool(*c.motor_enabled, false)
            &&& t[n + 1] == Access::StoreBool(*c.cl_active, false)
            &&& t[n + 2] == Access::StoreBool(*c.cl_armed, false)
            &&& kind is Desync ==> t[n + 3] == Access::StoreU8(*c.last_kill, 1)
            &&& kind is Starved ==> t[n + 3] == Access::StoreU8(*c.last_kill, 2)
            &&& kind is Overcurrent ==> t[n + 3] == Access::StoreU8(*c.last_kill, 3) && t[n + 4]
                == Access::StoreBool(*c.oc_tripped, true)
            &&& kind is Sag ==> t[n + 3] == Access::StoreU8(*c.last_kill, 4) && t[n + 4]
                == Access::StoreBool(*c.vbat_sagged, true)
            &&& sync ==> {
                &&& t[n + 4] == Access::StoreBool(*c.bb_frozen, true)
                &&& t[n + 5] == Access::StoreBool(*c.cl_starved, kind is Starved)
                &&& t[n + 6] == Access::StoreBool(*c.cl_desync, true)
            }
        }),
{
    assert(c.after_kill(log, kind, flags.killed(kind)).take(log.len() as int) =~= log);
}

/// What a candidate writes, in order: its level, no confirms, the open
/// window's generation as it is read then, and its time.
pub proof fn law_candidate_is_written_whole(
    c: ZcCells<'_>,
    log: Seq<Access>,
    s: ZcState,
    expected: bool,
    now_us: u32,
)
    requires
        s.held_edge() == HeldEdge::Armed,
    ensures
        ({
            let t = c.after_edge(log, s, expected, now_us);
            let n = t.len() as int;
            &&& t[n - 1] == Access::StoreU32(*c.cand_zc_us, now_us)
            &&& t[n - 2] == Access::StoreU8(*c.cand_gen, s.window_gen)
            &&& t[n - 3] == Access::LoadU8(*c.window_gen, s.window_gen)
            &&& t[n - 4] == Access::StoreU8(*c.cand_confirms, 0)
            &&& t[n - 5] == Access::StoreBool(*c.cand_expected, expected)
            &&& t[n - 6] == Access::LoadU32(*c.cand_zc_us, 0xFFFF_FFFF)
        }),
{
}

/// An accept looks at its window first, and marks an open one at once with
/// its own time. Then it counts its verdict, and writes the interval that the
/// estimator gives, the restarted chain and the modes, in that order.
pub proof fn law_accept_marks_first(
    c: ZcCells<'_>,
    log: Seq<Access>,
    s: ZcState,
    zc_us: u32,
    before: u32,
)
    ensures
        ({
            let m = c.after_mark(log, s, zc_us);
            let n = log.len() as int;
            let t = c.after_estimate(m, s, zc_us, before);
            let k = m.len() as int;
            let now = s.estimator().after_accept(zc_us, s.cl_active);
            &&& m[n] == Access::LoadU32(*c.window_qzc_us, s.window_qzc_us)
            &&& m[n + 1] == Access::StoreU32(*c.window_qzc_us, zc_us)
            &&& m.len() == n + 9
            &&& t.len() == k + 6
            &&& t[k] == Access::AddU32(
                c.census(s.estimator().verdict(zc_us, s.cl_active)),
                1,
                before,
            )
            &&& t[k + 1] == Access::StoreU32(*c.interval_us, now.interval_us)
            &&& t[k + 2] == Access::StoreU32(*c.last_qzc_us, zc_us)
            &&& t[k + 3] == Access::StoreU8(*c.windows_since_qzc, 0)
            &&& t[k + 4] == Access::StoreBool(*c.cl_reacq, now.reacq)
            &&& t[k + 5] == Access::StoreU32(*c.est_prev_period, now.prev_period_us)
        }),
        c.census(None) == *c.est_acc,
        c.census(Some(Reject::Floor)) == *c.est_rej_floor,
        c.census(Some(Reject::Ceiling)) == *c.est_rej_ceiling,
        c.census(Some(Reject::RateBound)) == *c.est_rej_rate,
        c.census(Some(Reject::Reseed)) == *c.est_rej_reseed,
        c.census(Some(Reject::Harmonic)) == *c.est_rej_harmonic,
{
}

/// An accept engages an armed loop in sectors 1, 2, 4 and 5 when there is an
/// interval: the arm is cleared and the loop set, in that order. It schedules
/// as the loop flag says afterwards.
pub proof fn law_engage_sets_the_loop(c: ZcCells<'_>, log: Seq<Access>, e: ZcState, sector: u8)
    requires
        sector <= 5,
    ensures
        ({
            let ab = sector == 1 || sector == 2 || sector == 4 || sector == 5;
            let p = decided_plan(e, sector);
            let t = c.after_engage(log, e, sector);
            let n = log.len() as int;
            &&& p.interval_us == e.interval_us
            &&& p.engaged <==> e.interval_us != 0 && ab && e.cl_armed
            &&& p.engaged ==> {
                &&& t[n + 2] == Access::StoreBool(*c.cl_armed, false)
                &&& t[n + 3] == Access::StoreBool(*c.cl_active, true)
                &&& t[n + 4] == Access::LoadBool(*c.cl_active, e.cl_active)
            }
            &&& ab ==> (p.schedule <==> e.interval_us != 0 && e.cl_active)
            &&& !ab ==> (p.schedule <==> e.interval_us != 0 && e.cl_active && e.cl_fast_path && (
            e.zc_clocked || e.interval_us <= 124))
            &&& e.interval_us == 0 ==> t.len() == n + 1
        }),
{
}

/// What a close leaves behind, in order, after it has judged the window: no
/// edge, no zero-cross, no candidate, the next generation, and the new
/// window's start in both clocks.
pub proof fn law_close_writes_a_clean_window(
    c: ControlCells<'_>,
    log: Seq<Access>,
    s: WindowControl,
    iv: IntervalReads,
    sector: u8,
    now_10us: u32,
    now_us: u32,
)
    ensures
        ({
            let t = c.after_close(log, s, iv, sector, now_10us, now_us);
            let n = t.len() as int;
            &&& t[n - 1] == Access::StoreU32(*c.last_comm_10us, now_10us)
            &&& t[n - 2] == Access::StoreU32(*c.sector_start_us, now_us)
            &&& t[n - 3] == Access::StoreU8(*c.window_gen, ((s.window_gen + 1) % 256) as u8)
            &&& t[n - 4] == Access::LoadU8(*c.window_gen, s.window_gen)
            &&& t[n - 5] == Access::StoreU32(*c.cand_zc_us, 0xFFFF_FFFF)
            &&& t[n - 6] == Access::StoreU32(*c.qzc_us, 0xFFFF_FFFF)
            &&& t[n - 7] == Access::StoreU32(*c.first_zc_us, 0xFFFF_FFFF)
        }),
{
}

/// A counted miss stores one more, enters re-acquisition at the second, or at
/// the first under 160 µs, and breaks a live chain at the second.
pub proof fn law_close_writes_its_misses(
    c: ControlCells<'_>,
    log: Seq<Access>,
    s: WindowControl,
    iv: IntervalReads,
    sector: u8,
)
    requires
        s.qzc_us == 0xFFFF_FFFF && s.cl_active,
        sector == 1 || sector == 2 || sector == 4 || sector == 5,
        s.cl_noz_run < u8::MAX,
    ensures
        ({
            let t = c.after_miss(log, s, iv, sector);
            let n = log.len() as int;
            let early = 1 <= iv.at_miss <= 159;
            &&& t[n + 3] == Access::StoreU8(*c.cl_noz_run, (s.cl_noz_run + 1) as u8)
            &&& !s.cl_reacq && (early || s.cl_noz_run >= 1) ==> t[n + 6] == Access::StoreBool(
                *c.cl_reacq,
                true,
            )
            &&& s.cl_noz_run == 0 && !early ==> t.len() == n + 5
            &&& s.cl_noz_run >= 1 && s.last_qzc_us != 0xFFFF_FFFF ==> t[t.len() - 2]
                == Access::StoreU32(*c.last_qzc_us, 0xFFFF_FFFF)
        }),
{
}

/// What a stop writes, and what arming the loop writes: a fresh estimator
/// first, and the arm last.
pub proof fn law_mode_writes_stop_and_arm(
    c: ModeCells<'_>,
    log: Seq<Access>,
    s: ModeState,
    mir: Mirror,
)
    ensures
        ({
            let t = c.after_stop(log, s.stopped());
            let n = log.len() as int;
            &&& t.len() == n + 3
            &&& t[n] == Access::StoreBool(*c.cl_active, false)
            &&& t[n + 1] == Access::StoreBool(*c.cl_armed, false)
            &&& t[n + 2] == Access::StoreBool(*c.motor_enabled, false)
        }),
        !s.cl_active && mir.output_enabled && mir.six_step ==> {
            let (s2, mir2, act) = stepped(s, mir, Cmd::ClToggle);
            let t = c.after_command(log, Cmd::ClToggle, s2, act);
            let n = log.len() as int;
            &&& t.len() == n + 7
            &&& t[n] == Access::StoreU32(*c.interval_us, 0)
            &&& t[n + 1] == Access::StoreU32(*c.avg_interval_acc, 0)
            &&& t[n + 2] == Access::StoreU32(*c.last_qzc_us, 0xFFFF_FFFF)
            &&& t[n + 3] == Access::StoreU8(*c.windows_since_qzc, 0)
            &&& t[n + 4] == Access::StoreBool(*c.cl_reacq, false)
            &&& t[n + 5] == Access::StoreU8(*c.cl_noz_run, 0)
            &&& t[n + 6] == Access::StoreBool(*c.cl_armed, true)
        },
{
}

/// A confirm that reaches its depth takes the candidate out with one
/// exchange, for none, and so does one that is contradicted; one that does
/// not reach it writes one confirm more; without a candidate nothing is
/// written.
pub proof fn law_confirm_takes_the_candidate_out(
    c: ZcCells<'_>,
    log: Seq<Access>,
    s: ZcState,
    cand: u32,
    gen_snap: u8,
    observed: bool,
)
    requires
        s.cand_confirms < u8::MAX,
    ensures
        ({
            let t = c.after_confirm(log, s, cand, gen_snap, observed);
            let n = log.len() as int;
            let one = s.cl_active && (!s.cl_reacq || 1 <= s.interval_us <= 124);
            let deep = one || s.cand_confirms >= 1;
            &&& t[n] == Access::LoadU32(*c.cand_zc_us, cand)
            &&& t[n + 1] == Access::LoadU8(*c.cand_gen, gen_snap)
            &&& cand == 0xFFFF_FFFF ==> t.len() == n + 2
            &&& cand != 0xFFFF_FFFF && (observed != s.cand_expected || deep) ==> t.last()
                == Access::ExchangeU32(*c.cand_zc_us, cand, 0xFFFF_FFFF, s.cand_zc_us)
            &&& cand != 0xFFFF_FFFF && observed == s.cand_expected && !deep ==> t.last()
                == Access::StoreU8(*c.cand_confirms, (s.cand_confirms + 1) as u8)
        }),
{
}

/// A wrap flips the phase in one step, and a flip of the halves writes its
/// own tick and then the other half.
pub proof fn law_wrap_writes_the_flip(
    c: EdgeCells<'_>,
    log: Seq<Access>,
    s: EdgeHalves,
    now_10us: u32,
)
    requires
        s.wf(),
    ensures
        ({
            let t = c.after_wrap(log, s, now_10us);
            let n = log.len() as int;
            &&& t[n] == Access::XorU8(*c.rev_phase, 1, s.rev_phase)
            &&& s.rev_phase == 0 ==> t.len() == n + 1
            &&& s.rev_phase == 1 && s.freeze ==> t.len() == n + 2
            &&& s.rev_phase == 1 && !s.freeze ==> {
                &&& t.len() == n + 6
                &&& t[n + 4] == Access::StoreU32(*c.half_start_tick, now_10us)
                &&& t[n + 5] == Access::StoreU8(*c.active_half, (1 - s.active_half) as u8)
            }
        }),
{
}

/// A record clears its bank at the end, whatever it read: counts, sums and
/// bounds at rest, and no battery minimum.
pub proof fn law_record_writes_a_clean_bank(
    c: DiagCells<'_>,
    log: Seq<Access>,
    s: WindowDiag,
    streamed: bool,
)
    ensures
        ({
            let t = c.after_build(log, s, streamed);
            let n = t.len() as int;
            &&& t[n - 7] == Access::StoreU32(*c.raw, 0)
            &&& t[n - 6] == Access::StoreU32(*c.valid, 0)
            &&& t[n - 5] == Access::StoreU32(*c.i_sum, 0)
            &&& t[n - 4] == Access::StoreU32(*c.i_n, 0)
            &&& t[n - 3] == Access::StoreU16(*c.i_min, 4095)
            &&& t[n - 2] == Access::StoreU16(*c.i_max, 0)
            &&& t[n - 1] == Access::StoreU16(*c.vbat_min, 65_535)
            &&& !streamed ==> n == log.len() + 7
        }),
{
}

/// A whole close leaves behind a clean window and a clean bank; the battery
/// minimum stays, unless the window was streamed.
pub proof fn law_whole_close_writes_a_clean_window(
    c: WindowCells<'_>,
    log: Seq<Access>,
    s: WindowControl,
    iv: IntervalReads,
    d: WindowDiag,
    sector: u8,
    now_10us: u32,
    now_us: u32,
)
    ensures
        ({
            let t = c.after_close(log, s, iv, d, sector, now_10us, now_us);
            let n = t.len() as int;
            &&& t[n - 1] == Access::StoreU32(*c.last_comm_10us, now_10us)
            &&& t[n - 2] == Access::StoreU32(*c.sector_start_us, now_us)
            &&& t[n - 3] == Access::StoreU8(*c.window_gen, ((s.window_gen + 1) % 256) as u8)
            &&& t[n - 4] == Access::LoadU8(*c.window_gen, s.window_gen)
            &&& t[n - 5] == Access::StoreU32(*c.cand_zc_us, 0xFFFF_FFFF)
            &&& t[n - 6] == Access::StoreU16(*c.i_max, 0)
            &&& t[n - 7] == Access::StoreU16(*c.i_min, 4095)
            &&& t[n - 8] == Access::StoreU32(*c.i_n, 0)
            &&& t[n - 9] == Access::StoreU32(*c.i_sum, 0)
            &&& t[n - 10] == Access::StoreU32(*c.qzc_us, 0xFFFF_FFFF)
            &&& t[n - 11] == Access::StoreU32(*c.first_zc_us, 0xFFFF_FFFF)
            &&& t[n - 12] == Access::StoreU32(*c.valid, 0)
            &&& t[n - 13] == Access::StoreU32(*c.raw, 0)
        }),
{
}

/// The average cell takes an interval only in geometry mode: the first one
/// six times, and equal ones keep it.
pub proof fn law_average_cell_holds_steady(c: ZcCells<'_>, log: Seq<Access>, a: ZcState)
    requires
        1 <= a.interval_us,
        7 * a.interval_us <= u32::MAX,
    ensures
        ({
            let t = c.after_average(log, a);
            let n = log.len() as int;
            &&& !a.cl_am32_geom ==> t.len() == n + 3
            &&& a.cl_am32_geom && (a.avg_interval_acc == 0 || a.avg_interval_acc == 6
                * a.interval_us) ==> t.last() == Access::StoreU32(
                *c.avg_interval_acc,
                (6 * a.interval_us) as u32,
            )
        }),
{
}

} // verus!

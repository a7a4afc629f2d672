//! The sector-interval estimator: a smoothed zero-cross spacing with
//! three update rules (tracking, re-acquisition re-seed, geometry) and a
//! reported verdict for every sample it refuses.

use vstd::arithmetic::power2::{
    lemma2_to64, lemma_pow2_strictly_increases, lemma_pow2_unfold, pow2,
};
use vstd::prelude::*;

verus! {

/// Absurdity bound on a measured interval while tracking, in µs. It is no
/// speed limit: below it only junk remains.
pub const INT_MIN: u32 = 40;

/// Lowest interval an unseeded estimator accepts, in µs. Without a
/// reference there is no rate bound, so the bar is higher than
/// [`INT_MIN`].
pub const SEED_MIN: u32 = 100;

/// Upper absurdity bound, in µs.
pub const INT_MAX: u32 = 30_000;

/// A chain of zero-crosses is broken beyond this many window closes.
pub const SPAN_MAX: u32 = 3;

/// Why the estimator refused to move on an accepted zero-cross.
#[derive(Debug, Clone, Copy, PartialEq, Eq, Structural)]
pub enum Reject {
    /// At or below [`INT_MIN`] ([`SEED_MIN`] when unseeded).
    Floor,
    /// At or above [`INT_MAX`].
    Ceiling,
    /// Outside the per-window rate bound.
    RateBound,
    /// Re-acquisition re-seed refused: more than one window spanned, or
    /// outside the open range from half to twice the old interval.
    Reseed,
    /// Geometry mode: the interval halved in one accept.
    Harmonic,
}

/// The estimator state.
#[derive(Debug, Clone, Copy, PartialEq, Eq, Structural)]
pub struct Estimator {
    /// Smoothed sector interval in µs; 0 means unseeded.
    pub interval_us: u32,
    /// Timestamp of the last accepted zero-cross; `None` is a broken chain.
    pub last_qzc_us: Option<u32>,
    /// Window closes since the last accepted zero-cross.
    pub windows_since_qzc: u32,
    /// Re-acquisition mode.
    pub reacq: bool,
    /// Geometry mode: under an established lock the interval is blended
    /// from the average of the last two periods.
    pub am32_geom: bool,
    /// Previous zero-cross period in µs, 0 when there is none yet.
    pub prev_period_us: u32,
}

/// The verdict of the geometry rule on a measured interval `m`: a halving
/// is refused, and so is anything outside `[2/3, 3/2]` of `old`.
pub open spec fn geometry_verdict(old: int, m: int) -> Option<Reject> {
    if m < old / 2 {
        Some(Reject::Harmonic)
    } else if m < old * 2 / 3 || m > old * 3 / 2 {
        Some(Reject::RateBound)
    } else {
        None
    }
}

/// The verdict of the re-acquisition rule: a single-window measurement
/// strictly between half and twice the old interval, and not absurd.
pub open spec fn reseed_verdict(old: int, m: int, spans: int) -> Option<Reject> {
    if spans == 1 && INT_MIN < m < INT_MAX && old / 2 < m < 2 * old {
        None
    } else {
        Some(Reject::Reseed)
    }
}

/// The verdict of the tracking rule: above the floor, below the ceiling
/// and, once seeded, strictly inside 4/5 to 5/4 of the old interval.
pub open spec fn tracking_verdict(old: int, m: int) -> Option<Reject> {
    if m <= (if old == 0 {
        SEED_MIN as int
    } else {
        INT_MIN as int
    }) {
        Some(Reject::Floor)
    } else if m >= INT_MAX {
        Some(Reject::Ceiling)
    } else if old != 0 && !(4 * old / 5 < m < 5 * old / 4) {
        Some(Reject::RateBound)
    } else {
        None
    }
}

/// A time over the windows it spans.
fn per_window(d: u32, spans: u32) -> (r: u32)
    requires
        1 <= spans <= SPAN_MAX,
    ensures
        spans == 1 ==> r == d,
        spans == 2 ==> r == d / 2,
        spans == 3 ==> r == d / 3,
{
    assert(spans == 1 ==> d / spans == d) by (nonlinear_arith);
    assert(spans == 2 ==> d / spans == d / 2) by (nonlinear_arith);
    assert(spans == 3 ==> d / spans == d / 3) by (nonlinear_arith);
    d / spans
}

impl Estimator {
    /// The per-window interval that an accept at `zc_us` measures, if the
    /// chain is intact: the wrapping time since the last zero-cross, over
    /// the windows spanned, one to [`SPAN_MAX`].
    pub open spec fn measured(self, zc_us: u32) -> Option<u32> {
        match self.last_qzc_us {
            Some(last) => {
                let d = zc_us.wrapping_sub(last);
                if self.windows_since_qzc == 1 {
                    Some(d)
                } else if self.windows_since_qzc == 2 {
                    Some((d / 2) as u32)
                } else if self.windows_since_qzc == 3 {
                    Some((d / 3) as u32)
                } else {
                    None
                }
            },
            None => None,
        }
    }

    /// Whether the geometry rule is in force.
    pub open spec fn uses_geometry(self, cl_active: bool) -> bool {
        self.am32_geom && cl_active && self.interval_us != 0
    }

    /// Whether the re-acquisition rule is in force.
    pub open spec fn uses_reseed(self, cl_active: bool) -> bool {
        !self.uses_geometry(cl_active) && self.reacq && cl_active
    }

    /// The period that the geometry rule averages with the measured one.
    pub open spec fn paired_period(self, m: u32) -> u32 {
        if self.prev_period_us != 0 {
            self.prev_period_us
        } else {
            m
        }
    }

    /// Why an accept at `zc_us` does not move the interval, if a rule
    /// refuses it. An accept that measures nothing is not refused.
    pub open spec fn verdict(self, zc_us: u32, cl_active: bool) -> Option<Reject> {
        match self.measured(zc_us) {
            None => None,
            Some(m) => if self.uses_geometry(cl_active) {
                geometry_verdict(self.interval_us as int, m as int)
            } else if self.uses_reseed(cl_active) {
                reseed_verdict(self.interval_us as int, m as int, self.windows_since_qzc as int)
            } else {
                tracking_verdict(self.interval_us as int, m as int)
            },
        }
    }

    /// The interval after an accept at `zc_us`.
    pub open spec fn next_interval(self, zc_us: u32, cl_active: bool) -> int {
        let old = self.interval_us as int;
        match self.measured(zc_us) {
            Some(m) => if self.verdict(zc_us, cl_active) is Some {
                old
            } else if self.uses_geometry(cl_active) {
                (old + (self.paired_period(m) + m) / 2) / 2
            } else if self.uses_reseed(cl_active) || old == 0 {
                m as int
            } else {
                (3 * old + m) / 4
            },
            None => old,
        }
    }

    /// Whether an accept at `zc_us` is taken by a rule that ends
    /// re-acquisition.
    pub open spec fn ends_reacq(self, zc_us: u32, cl_active: bool) -> bool {
        &&& self.measured(zc_us) is Some
        &&& self.verdict(zc_us, cl_active) is None
        &&& self.uses_geometry(cl_active) || self.uses_reseed(cl_active)
    }

    /// The state after an accept at `zc_us`: the chain restarts there, and
    /// a sample that a rule takes moves the interval.
    pub open spec fn after_accept(self, zc_us: u32, cl_active: bool) -> Estimator {
        Estimator {
            interval_us: self.next_interval(zc_us, cl_active) as u32,
            last_qzc_us: Some(zc_us),
            windows_since_qzc: 0,
            reacq: self.reacq && !self.ends_reacq(zc_us, cl_active),
            am32_geom: self.am32_geom,
            prev_period_us: if self.uses_geometry(cl_active) && self.ends_reacq(zc_us, cl_active) {
                self.measured(zc_us)->0
            } else {
                self.prev_period_us
            },
        }
    }

    /// The intermediate values of the geometry rule fit in 32 bits. Every
    /// other rule fits on all inputs.
    pub open spec fn accept_fits(self, zc_us: u32, cl_active: bool) -> bool {
        let old = self.interval_us as int;
        (self.measured(zc_us) matches Some(m) && self.uses_geometry(cl_active)) ==> {
            let m = self.measured(zc_us)->0 as int;
            ||| m < old / 2
            ||| old * 2 <= u32::MAX && m < old * 2 / 3
            ||| old * 3 <= u32::MAX && m > old * 3 / 2
            ||| {
                &&& old * 3 <= u32::MAX
                &&& self.paired_period(m as u32) + m <= u32::MAX
                &&& old + (self.paired_period(m as u32) + m) / 2 <= u32::MAX
            }
        }
    }

    /// The arithmetic of an accept at `zc_us` stays in range.
    pub fn can_accept(&self, zc_us: u32, cl_active: bool) -> (r: bool)
        ensures
            r == self.accept_fits(zc_us, cl_active),
    {
        let spans: u32 = self.windows_since_qzc;
        match self.last_qzc_us {
            Some(last) if spans >= 1 && spans <= SPAN_MAX && self.am32_geom && cl_active
                && self.interval_us != 0 => {
                let limit: u64 = u32::MAX as u64;
                let old: u64 = self.interval_us as u64;
                let m: u64 = per_window(zc_us.wrapping_sub(last), spans) as u64;
                let prev: u64 = if self.prev_period_us != 0 {
                    self.prev_period_us as u64
                } else {
                    m
                };
                assert(self.measured(zc_us) == Some(m as u32));
                m < old / 2 || (old * 2 <= limit && m < old * 2 / 3) || (old * 3 <= limit && (m
                    > old * 3 / 2 || (prev + m <= limit && old + (prev + m) / 2 <= limit)))
            },
            _ => true,
        }
    }

    /// An unseeded estimator.
    pub fn new() -> (r: Self)
        ensures
            r == (Estimator {
                interval_us: 0,
                last_qzc_us: None,
                windows_since_qzc: 0,
                reacq: false,
                am32_geom: false,
                prev_period_us: 0,
            }),
    {
        Self {
            interval_us: 0,
            last_qzc_us: None,
            windows_since_qzc: 0,
            reacq: false,
            am32_geom: false,
            prev_period_us: 0,
        }
    }

    /// Arm-time reset. A poisoned interval is otherwise unrecoverable: the
    /// rate bound refuses every honest sample. The mode and the previous
    /// period stay.
    pub fn reset_for_arm(&mut self)
        ensures
            *final(self) == old(self).after_reset(),
    {
        self.interval_us = 0;
        self.last_qzc_us = None;
        self.windows_since_qzc = 0;
        self.reacq = false;
    }

    /// Counts a float-window close, saturating.
    pub fn on_window_close(&mut self)
        ensures
            *final(self) == old(self).after_close(),
    {
        self.windows_since_qzc = self.windows_since_qzc.saturating_add(1);
    }

    /// Enters re-acquisition and breaks the chain: recovery is measured
    /// from two fresh zero-crosses, never from a stale one.
    pub fn enter_reacq(&mut self)
        ensures
            *final(self) == old(self).after_loss(),
    {
        self.reacq = true;
        self.last_qzc_us = None;
    }

    /// Takes an accepted zero-cross at `zc_us` and returns the interval.
    pub fn on_accept(&mut self, zc_us: u32, cl_active: bool) -> (r: u32)
        requires
            old(self).accept_fits(zc_us, cl_active),
        ensures
            *final(self) == old(self).after_accept(zc_us, cl_active),
            r == old(self).next_interval(zc_us, cl_active),
    {
        self.on_accept_traced(zc_us, cl_active).0
    }

    /// Takes an accepted zero-cross at `zc_us`; returns the interval and
    /// why it did not move, if a rule refused the sample.
    pub fn on_accept_traced(&mut self, zc_us: u32, cl_active: bool) -> (r: (u32, Option<Reject>))
        requires
            old(self).accept_fits(zc_us, cl_active),
        ensures
            *final(self) == old(self).after_accept(zc_us, cl_active),
            r.0 == old(self).next_interval(zc_us, cl_active),
            r.1 == old(self).verdict(zc_us, cl_active),
    {
        let ghost was = *self;
        let mut reject: Option<Reject> = None;
        let spans: u32 = self.windows_since_qzc;
        self.windows_since_qzc = 0;
        if let Some(last) = self.last_qzc_us {
            if spans >= 1 && spans <= SPAN_MAX {
                let m: u32 = per_window(zc_us.wrapping_sub(last), spans);
                let old: u32 = self.interval_us;
                assert(was.measured(zc_us) == Some(m));
                if self.am32_geom && cl_active && old != 0 {
                    if m < old / 2 {
                        reject = Some(Reject::Harmonic);
                    } else if m < old * 2 / 3 || m > old * 3 / 2 {
                        reject = Some(Reject::RateBound);
                    } else {
                        let prev: u32 = if self.prev_period_us != 0 {
                            self.prev_period_us
                        } else {
                            m
                        };
                        self.interval_us = (old + (prev + m) / 2) / 2;
                        self.prev_period_us = m;
                        self.reacq = false;
                    }
                } else if self.reacq && cl_active {
                    if spans == 1 && m > INT_MIN && m < INT_MAX && m > old / 2 && (old >= INT_MAX
                        || m < old * 2) {
                        self.interval_us = m;
                        self.reacq = false;
                    } else {
                        reject = Some(Reject::Reseed);
                    }
                } else {
                    let floor: u32 = if old == 0 {
                        SEED_MIN
                    } else {
                        INT_MIN
                    };
                    if m <= floor {
                        reject = Some(Reject::Floor);
                    } else if m >= INT_MAX {
                        reject = Some(Reject::Ceiling);
                    } else if old == 0 {
                        self.interval_us = m;
                    } else if old <= 2 * INT_MAX && m < old * 5 / 4 && m > old * 4 / 5 {
                        self.interval_us = (3 * old + m) / 4;
                    } else {
                        reject = Some(Reject::RateBound);
                    }
                }
            }
        }
        self.last_qzc_us = Some(zc_us);
        (self.interval_us, reject)
    }
}

impl Default for Estimator {
    fn default() -> (r: Self)
        ensures
            r.interval_us == 0 && r.last_qzc_us is None && r.windows_since_qzc == 0,
            !r.reacq && !r.am32_geom && r.prev_period_us == 0,
    {
        Self::new()
    }
}

impl Estimator {
    /// The state after a float-window close.
    pub open spec fn after_close(self) -> Estimator {
        Estimator { windows_since_qzc: self.windows_since_qzc.saturating_add(1), ..self }
    }

    /// The state after an arm-time reset.
    pub open spec fn after_reset(self) -> Estimator {
        Estimator {
            interval_us: 0,
            last_qzc_us: None,
            windows_since_qzc: 0,
            reacq: false,
            ..self
        }
    }

    /// The state after re-acquisition was entered.
    pub open spec fn after_loss(self) -> Estimator {
        Estimator { reacq: true, last_qzc_us: None, ..self }
    }

    /// The state after one window close and an accept `period` later than
    /// the last one.
    pub open spec fn after_period(self, period: u32, cl_active: bool) -> Estimator {
        self.after_close().after_accept((self.last_qzc_us->0).wrapping_add(period), cl_active)
    }

    /// The state after `n` accepts, each one window and `period` apart.
    pub open spec fn after_train(self, period: u32, n: nat, cl_active: bool) -> Estimator
        decreases n,
    {
        if n == 0 {
            self
        } else {
            self.after_train(period, (n - 1) as nat, cl_active).after_period(period, cl_active)
        }
    }

    /// The state after `n` pairs of accepts, spaced `a` and then `b`.
    pub open spec fn after_pairs(self, a: u32, b: u32, n: nat, cl_active: bool) -> Estimator
        decreases n,
    {
        if n == 0 {
            self
        } else {
            self.after_pairs(a, b, (n - 1) as nat, cl_active).after_period(a, cl_active)
                .after_period(b, cl_active)
        }
    }
}

/// An accept one window and `period` after the last one measures exactly
/// `period`, whatever the clock wrapped to.
pub proof fn law_one_window_measures_the_period(e: Estimator, period: u32)
    requires
        e.last_qzc_us is Some,
        e.windows_since_qzc == 0,
    ensures
        e.after_close().measured((e.last_qzc_us->0).wrapping_add(period)) == Some(period),
{
    let last = e.last_qzc_us->0;
    assert(last.wrapping_add(period).wrapping_sub(last) == period);
}

/// A refused sample leaves the interval, the previous period and the
/// re-acquisition flag as they were; only the chain restarts.
pub proof fn law_refused_sample_moves_nothing(e: Estimator, zc_us: u32, cl_active: bool)
    requires
        e.verdict(zc_us, cl_active) is Some,
    ensures
        e.after_accept(zc_us, cl_active) == (Estimator {
            last_qzc_us: Some(zc_us),
            windows_since_qzc: 0,
            ..e
        }),
{
}

/// Tracking a seeded interval moves it by less than 1/16 up and by at most
/// 1/20 (and a rounding) down in one accept.
pub proof fn law_tracking_step_is_bounded(e: Estimator, zc_us: u32, cl_active: bool)
    requires
        e.interval_us != 0,
        !e.uses_geometry(cl_active),
        !e.uses_reseed(cl_active),
        e.measured(zc_us) is Some,
        e.verdict(zc_us, cl_active) is None,
    ensures
        16 * e.after_accept(zc_us, cl_active).interval_us < 17 * e.interval_us,
        20 * e.after_accept(zc_us, cl_active).interval_us > 19 * e.interval_us - 20,
{
}

/// The geometry rule never takes a sample that halves the interval: any
/// number of noise accepts spaced under half the interval leave it where
/// it was, and each is refused as harmonic.
pub proof fn law_harmonic_train_never_walks(e: Estimator, period: u32, n: nat)
    requires
        e.am32_geom,
        e.interval_us != 0,
        e.last_qzc_us is Some,
        e.windows_since_qzc == 0,
        period < e.interval_us / 2,
    ensures
        e.after_train(period, n, true).interval_us == e.interval_us,
        e.after_train(period, n, true).am32_geom,
        e.after_train(period, n, true).last_qzc_us is Some,
        e.after_train(period, n, true).windows_since_qzc == 0,
        e.after_train(period, n, true).after_close().verdict(
            (e.after_train(period, n, true).last_qzc_us->0).wrapping_add(period),
            true,
        ) == Some(Reject::Harmonic),
    decreases n,
{
    if n > 0 {
        law_harmonic_train_never_walks(e, period, (n - 1) as nat);
    }
    law_one_window_measures_the_period(e.after_train(period, n, true), period);
}

/// A train spaced exactly at the interval holds it, outside geometry mode.
pub proof fn law_steady_train_holds(e: Estimator, n: nat, cl_active: bool)
    requires
        INT_MIN < e.interval_us < INT_MAX,
        !e.uses_geometry(cl_active),
        e.last_qzc_us is Some,
        e.windows_since_qzc == 0,
    ensures
        e.after_train(e.interval_us, n, cl_active).interval_us == e.interval_us,
        e.after_train(e.interval_us, n, cl_active).am32_geom == e.am32_geom,
        e.after_train(e.interval_us, n, cl_active).last_qzc_us is Some,
        e.after_train(e.interval_us, n, cl_active).windows_since_qzc == 0,
    decreases n,
{
    if n > 0 {
        law_steady_train_holds(e, (n - 1) as nat, cl_active);
        law_one_window_measures_the_period(
            e.after_train(e.interval_us, (n - 1) as nat, cl_active),
            e.interval_us,
        );
    }
}

/// In geometry mode a sector alternation cancels before it is filtered:
/// periods that alternate `a`, `b` around the interval leave it without
/// ripple, after every accept.
pub proof fn law_geometry_cancels_alternation(e: Estimator, a: u32, b: u32, n: nat)
    requires
        e.am32_geom,
        e.interval_us != 0,
        e.interval_us as int == (a + b) / 2,
        e.prev_period_us == b,
        b != 0,
        a != 0,
        e.last_qzc_us is Some,
        e.windows_since_qzc == 0,
        geometry_verdict(e.interval_us as int, a as int) is None,
        geometry_verdict(e.interval_us as int, b as int) is None,
    ensures
        e.after_pairs(a, b, n, true).interval_us == e.interval_us,
        e.after_pairs(a, b, n, true).after_period(a, true).interval_us == e.interval_us,
        e.after_pairs(a, b, n, true).prev_period_us == b,
        e.after_pairs(a, b, n, true).am32_geom,
        e.after_pairs(a, b, n, true).last_qzc_us is Some,
        e.after_pairs(a, b, n, true).windows_since_qzc == 0,
    decreases n,
{
    if n > 0 {
        let m = (n - 1) as nat;
        law_geometry_cancels_alternation(e, a, b, m);
        let x = e.after_pairs(a, b, m, true);
        law_one_window_measures_the_period(x, a);
        law_one_window_measures_the_period(x.after_period(a, true), b);
    }
    law_one_window_measures_the_period(e.after_pairs(a, b, n, true), a);
}

/// Whatever a runaway left behind, an arm-time reset recovers: two accepts
/// one window and an honest period apart seed exactly that period.
pub proof fn law_reset_then_two_accepts_seed(
    e: Estimator,
    first_us: u32,
    period: u32,
    cl_active: bool,
)
    requires
        SEED_MIN < period < INT_MAX,
    ensures
        ({
            let reset = e.after_reset();
            reset.after_accept(first_us, cl_active).after_period(period, cl_active).interval_us
                == period
        }),
{
    let reset = e.after_reset();
    law_one_window_measures_the_period(reset.after_accept(first_us, cl_active), period);
}

/// Re-acquisition is measured from two fresh zero-crosses: the first
/// accept after entering it moves nothing and does not end it.
pub proof fn law_reacq_first_accept_only_restarts_the_chain(
    e: Estimator,
    zc_us: u32,
    cl_active: bool,
)
    ensures
        e.after_loss().after_accept(zc_us, cl_active) == (Estimator { reacq: true, last_qzc_us: Some(zc_us), windows_since_qzc: 0, ..e }),
{
}

/// A measurement shares the time since the last zero-cross among the one to
/// three windows spanned, up to rounding down; a broken chain, no window or
/// more than three measure nothing.
pub proof fn law_windows_share_the_time(e: Estimator, zc_us: u32)
    ensures
        e.last_qzc_us is None ==> e.measured(zc_us) is None,
        e.windows_since_qzc == 0 || e.windows_since_qzc >= 4 ==> e.measured(zc_us) is None,
        e.last_qzc_us is Some && 1 <= e.windows_since_qzc <= 3 ==> {
            let time = zc_us.wrapping_sub(e.last_qzc_us->0);
            &&& e.measured(zc_us) is Some
            &&& e.windows_since_qzc == 1 ==> e.measured(zc_us)->0 == time
            &&& e.windows_since_qzc == 2 ==> time - 1 <= 2 * (e.measured(zc_us)->0) <= time
            &&& e.windows_since_qzc == 3 ==> time - 2 <= 3 * (e.measured(zc_us)->0) <= time
        },
{
}

/// In geometry mode a taken sample moves the interval half of the way to the
/// mean of the last two periods, up as well as down: twice the interval and
/// the two periods share out to four of it, up to rounding down. The sample
/// becomes the last period, and re-acquisition is over.
pub proof fn law_geometry_moves_half_way(e: Estimator, zc_us: u32)
    requires
        e.am32_geom,
        e.interval_us != 0,
        e.accept_fits(zc_us, true),
        e.measured(zc_us) is Some,
        e.verdict(zc_us, true) is None,
    ensures
        ({
            let m = e.measured(zc_us)->0;
            let p = if e.prev_period_us == 0 {
                m
            } else {
                e.prev_period_us
            };
            let now = e.after_accept(zc_us, true);
            &&& 2 * e.interval_us + p + m - 3 <= 4 * now.interval_us <= 2 * e.interval_us + p + m
            &&& p == e.interval_us && m == e.interval_us ==> now.interval_us == e.interval_us
            &&& p + m >= 2 * e.interval_us + 4 ==> now.interval_us > e.interval_us
            &&& p + m + 2 <= 2 * e.interval_us ==> now.interval_us < e.interval_us
            &&& now.prev_period_us == m
            &&& !now.reacq
        }),
{
}

/// A steady train closes in on its period in geometry mode: above the
/// interval and within the rate bound, every sample halves what is missing,
/// up to rounding up, so the interval comes to the period or one below it.
#[verifier::spinoff_prover]
#[verifier::rlimit(40)]
pub proof fn law_geometry_train_closes_in(e: Estimator, period: u32, n: nat)
    requires
        e.am32_geom,
        e.interval_us != 0,
        e.last_qzc_us is Some,
        e.windows_since_qzc == 0,
        e.prev_period_us == 0 || e.prev_period_us == period,
        e.interval_us <= period,
        2 * period <= 3 * e.interval_us,
        3 * period <= u32::MAX,
    ensures
        ({
            let now = e.after_train(period, n, true);
            let missing = period - now.interval_us;
            &&& 0 <= missing
            &&& pow2(n) * missing <= period - e.interval_us + pow2(n) - 1
            &&& e.interval_us <= now.interval_us
            &&& now.am32_geom && now.last_qzc_us is Some && now.windows_since_qzc == 0
            &&& now.prev_period_us == 0 || now.prev_period_us == period
            &&& n > 0 ==> now.prev_period_us == period
            &&& n >= 32 ==> period - 1 <= now.interval_us <= period
        }),
    decreases n,
{
    lemma2_to64();
    if n == 0 {
        assert(pow2(0) * (period - e.interval_us) == period - e.interval_us) by (nonlinear_arith)
            requires
                pow2(0) == 1,
        ;
    } else {
        let k = (n - 1) as nat;
        law_geometry_train_closes_in(e, period, k);
        let x = e.after_train(period, k, true);
        law_one_window_measures_the_period(x, period);
        let now = x.after_period(period, true);
        lemma_pow2_unfold(n);
        let d = period - x.interval_us;
        let d2 = period - now.interval_us;
        assert(2 * d2 <= d + 1 && d2 >= 0);
        assert(pow2(n) * d2 <= pow2(k) * d + pow2(k)) by (nonlinear_arith)
            requires
                pow2(n) == 2 * pow2(k),
                2 * d2 <= d + 1,
                pow2(k) >= 0,
        ;
    }
    if n >= 32 {
        let missing = period - e.after_train(period, n, true).interval_us;
        assert(pow2(n) >= pow2(32)) by {
            if n > 32 {
                lemma_pow2_strictly_increases(32, n);
            }
        }
        if missing >= 2 {
            assert(pow2(n) * missing >= pow2(n) * 2) by (nonlinear_arith)
                requires
                    missing >= 2,
                    pow2(n) >= 0,
            ;
        }
    }
}

/// Tracking a seeded interval takes three parts of it and one of the sample,
/// up to rounding down; a sample of the interval keeps it. The geometry
/// period and re-acquisition are left alone.
pub proof fn law_tracking_moves_a_quarter(e: Estimator, zc_us: u32, cl_active: bool)
    requires
        e.interval_us != 0,
        !e.uses_geometry(cl_active),
        !e.uses_reseed(cl_active),
        e.measured(zc_us) is Some,
        e.verdict(zc_us, cl_active) is None,
    ensures
        ({
            let m = e.measured(zc_us)->0;
            let now = e.after_accept(zc_us, cl_active);
            &&& 3 * e.interval_us + m - 3 <= 4 * now.interval_us <= 3 * e.interval_us + m
            &&& m == e.interval_us ==> now.interval_us == e.interval_us
            &&& now.prev_period_us == e.prev_period_us && now.reacq == e.reacq
        }),
{
}

/// A taken sample of an unseeded estimator, and of re-acquisition under a
/// lock, is the interval; the latter ends re-acquisition.
pub proof fn law_seeds_take_the_sample(e: Estimator, zc_us: u32, cl_active: bool)
    requires
        e.measured(zc_us) is Some,
        e.verdict(zc_us, cl_active) is None,
        e.interval_us == 0 || (e.reacq && cl_active && !e.am32_geom),
    ensures
        e.after_accept(zc_us, cl_active).interval_us == e.measured(zc_us)->0,
        e.reacq && cl_active ==> !e.after_accept(zc_us, cl_active).reacq,
        e.after_accept(zc_us, cl_active).prev_period_us == e.prev_period_us,
{
}

/// Which samples the rules take. Geometry under a lock: from about two thirds
/// to three halves of the interval, and less than half reads as a harmonic.
/// Re-acquisition under a lock: one window, from 41 to 29 999, more than half
/// and less than twice the interval. Otherwise: from 41 to 29 999, and more
/// than four fifths, less than five quarters; the first one from 101 up.
#[verifier::spinoff_prover]
#[verifier::rlimit(40)]
pub proof fn law_samples_are_taken_in_range(e: Estimator, zc_us: u32, cl_active: bool)
    requires
        e.measured(zc_us) is Some,
    ensures
        ({
            let m = e.measured(zc_us)->0;
            let old = e.interval_us;
            let verdict = e.verdict(zc_us, cl_active);
            let geometry = e.am32_geom && cl_active && old != 0;
            let reseed = !geometry && e.reacq && cl_active;
            &&& geometry ==> {
                &&& verdict is None <==> 3 * m + 3 > 2 * old && 2 * m <= 3 * old
                &&& verdict == Some(Reject::Harmonic) <==> 2 * m + 2 <= old
                &&& verdict is Some ==> verdict == Some(Reject::Harmonic) || verdict == Some(
                    Reject::RateBound,
                )
            }
            &&& reseed ==> {
                &&& verdict is None <==> e.windows_since_qzc == 1 && 41 <= m <= 29_999 && 2 * m
                    > old && m < 2 * old
                &&& verdict is Some ==> verdict == Some(Reject::Reseed)
            }
            &&& !geometry && !reseed && old == 0 ==> {
                &&& verdict is None <==> 101 <= m <= 29_999
                &&& verdict == Some(Reject::Floor) <==> m <= 100
                &&& verdict == Some(Reject::Ceiling) <==> m >= 30_000
            }
            &&& !geometry && !reseed && old != 0 ==> {
                &&& verdict is None <==> 41 <= m <= 29_999 && 5 * m > 4 * old && 4 * m + 4 <= 5
                    * old
                &&& verdict == Some(Reject::Floor) <==> m <= 40
                &&& verdict == Some(Reject::Ceiling) <==> m >= 30_000
            }
        }),
{
}

/// Every accept restarts the chain at its own time, and leaves the mode; one
/// that measures nothing is not refused and moves nothing.
pub proof fn law_accept_restarts_the_chain(e: Estimator, zc_us: u32, cl_active: bool)
    ensures
        e.after_accept(zc_us, cl_active).last_qzc_us == Some(zc_us),
        e.after_accept(zc_us, cl_active).windows_since_qzc == 0,
        e.after_accept(zc_us, cl_active).am32_geom == e.am32_geom,
        e.measured(zc_us) is None ==> {
            &&& e.verdict(zc_us, cl_active) is None
            &&& e.after_accept(zc_us, cl_active).interval_us == e.interval_us
            &&& e.after_accept(zc_us, cl_active).prev_period_us == e.prev_period_us
            &&& e.after_accept(zc_us, cl_active).reacq == e.reacq
        },
{
}

/// A reset unseeds the interval, breaks the chain and leaves re-acquisition;
/// a loss enters it and breaks the chain, and keeps the interval; a close
/// counts one window. The mode and the last period outlive all of them.
pub proof fn law_resets_and_losses(e: Estimator)
    requires
        e.windows_since_qzc < u32::MAX,
    ensures
        ({
            let r = e.after_reset();
            let l = e.after_loss();
            let c = e.after_close();
            &&& r.interval_us == 0 && r.last_qzc_us is None && r.windows_since_qzc == 0 && !r.reacq
            &&& l.reacq && l.last_qzc_us is None && l.interval_us == e.interval_us
            &&& l.windows_since_qzc == e.windows_since_qzc
            &&& c.windows_since_qzc == e.windows_since_qzc + 1 && c.last_qzc_us == e.last_qzc_us
            &&& c.interval_us == e.interval_us && c.reacq == e.reacq
            &&& r.am32_geom == e.am32_geom && l.am32_geom == e.am32_geom && c.am32_geom
                == e.am32_geom
            &&& r.prev_period_us == e.prev_period_us && l.prev_period_us == e.prev_period_us
                && c.prev_period_us == e.prev_period_us
        }),
{
}

} // verus!

//! The float-window close that runs at every commutation: miss detection,
//! the re-acquisition trigger, the boundary prediction error, telemetry
//! decimation, and the reset of every accumulator for the next window.
//!
//! The close exists whole ([`close_float_window`]) and in two halves: the
//! control half for the commutation interrupt ([`window_control_step`]) and
//! the record half for the main loop ([`build_window_rec`]).

use vstd::prelude::*;

use crate::bits::low16;
use crate::bits::{clamp_of, min_of};
use crate::wire::{WindowRec, PRED_NONE};

pub use crate::blackbox::{EV_NOZ, EV_RAQ};

verus! {

/// Below this interval in µs the first missed window already enters
/// re-acquisition; at or above it the second one does.
pub const HIGH_SPEED_US: u32 = 160;

/// Below this interval in µs the top-end rules apply: an edge seen in
/// re-acquisition is confirmed before it counts, and a phase-C window is
/// re-timed from its crossing.
pub const TOPEND_US: u32 = 125;

/// At or above this interval in µs every window is streamed.
pub const STREAM_ALL_US: u32 = 180;

/// Below [`STREAM_ALL_US`], one window in this many is streamed. Coprime
/// with six, so the sample rotates through all sectors.
pub const STREAM_EVERY: u32 = 5;

/// The idle value of the smallest-current accumulator.
pub const I_MIN_IDLE: u16 = 0x0FFF;

/// Everything the close touches.
#[derive(Debug, Clone, Copy, PartialEq, Eq, Structural)]
pub struct WindowState {
    /// Start of the open window, µs; 0 before the first commutation.
    pub sector_start_us: u32,
    /// Qualified zero-cross of the open window; `u32::MAX` is none.
    pub qzc_us: u32,
    /// First edge of the open window; `u32::MAX` is none.
    pub first_zc_us: u32,
    /// Raw comparator edges.
    pub raw: u32,
    /// Edges late enough to count.
    pub valid: u32,
    /// Sum of the current samples.
    pub i_sum: u32,
    /// Number of current samples.
    pub i_n: u32,
    /// Smallest current sample.
    pub i_min: u16,
    /// Largest current sample.
    pub i_max: u16,
    /// Pending candidate edge; `u32::MAX` is none.
    pub cand_zc_us: u32,
    /// Window generation; stamps candidates against stale confirms.
    pub window_gen: u8,
    /// Smoothed sector interval, µs; 0 is unseeded.
    pub interval_us: u32,
    /// Last accepted zero-cross; `u32::MAX` is a broken chain.
    pub last_qzc_us: u32,
    /// Window closes since the last accepted zero-cross.
    pub windows_since_qzc: u8,
    /// Closed loop engaged.
    pub cl_active: bool,
    /// Consecutive missed A and B windows.
    pub cl_noz_run: u8,
    /// Re-acquisition mode.
    pub cl_reacq: bool,
    /// Telemetry on.
    pub stream_on: bool,
    /// Window counter of the decimation.
    pub wrec_decim: u32,
    /// Sequence number of the next record.
    pub wrec_seq: u8,
    /// Lowest battery sample since the last record; `u16::MAX` is none.
    pub vbat_min: u16,
    /// Latest battery sample.
    pub vbat_live: u16,
    /// Last commutation, 10 µs ticks.
    pub last_comm_10us: u32,
}

/// The control part of [`WindowState`], reset at the commutation instant.
#[derive(Debug, Clone, Copy, PartialEq, Eq, Structural)]
pub struct WindowControl {
    /// Start of the open window, µs; 0 before the first commutation.
    pub sector_start_us: u32,
    /// Qualified zero-cross of the open window; `u32::MAX` is none.
    pub qzc_us: u32,
    /// First edge of the open window; `u32::MAX` is none.
    pub first_zc_us: u32,
    /// Pending candidate edge; `u32::MAX` is none.
    pub cand_zc_us: u32,
    /// Window generation.
    pub window_gen: u8,
    /// Smoothed sector interval, µs; 0 is unseeded.
    pub interval_us: u32,
    /// Last accepted zero-cross; `u32::MAX` is a broken chain.
    pub last_qzc_us: u32,
    /// Window closes since the last accepted zero-cross.
    pub windows_since_qzc: u8,
    /// Closed loop engaged.
    pub cl_active: bool,
    /// Consecutive missed A and B windows.
    pub cl_noz_run: u8,
    /// Re-acquisition mode.
    pub cl_reacq: bool,
    /// Telemetry on.
    pub stream_on: bool,
    /// Window counter of the decimation.
    pub wrec_decim: u32,
    /// Sequence number of the next record.
    pub wrec_seq: u8,
    /// Last commutation, 10 µs ticks.
    pub last_comm_10us: u32,
    /// Raw edges of the closing window: read for the miss event, not reset
    /// here.
    pub raw: u32,
}

/// The diagnostic accumulators of one bank. The writers move to the other
/// bank at each commutation, so the main loop reads a bank at rest.
#[derive(Debug, Clone, Copy, PartialEq, Eq, Structural)]
pub struct WindowDiag {
    /// Raw comparator edges.
    pub raw: u32,
    /// Edges late enough to count.
    pub valid: u32,
    /// Sum of the current samples.
    pub i_sum: u32,
    /// Number of current samples.
    pub i_n: u32,
    /// Smallest current sample.
    pub i_min: u16,
    /// Largest current sample.
    pub i_max: u16,
    /// Lowest battery sample; `u16::MAX` is none.
    pub vbat_min: u16,
    /// Latest battery sample.
    pub vbat_live: u16,
}

/// What the caller does after a close: send `rec`, and log the black-box
/// events with the closed window's sector.
#[derive(Debug, Clone, Copy, PartialEq, Eq)]
pub struct CloseOutcome {
    /// The record of the closed window, when it is streamed.
    pub rec: Option<WindowRec>,
    /// Event codes with their data.
    pub bb: [Option<(u8, u16)>; 2],
}

/// What the control half hands to the record half: the values its resets
/// destroy. `record` is false when the window is not streamed.
#[derive(Debug, Clone, Copy, PartialEq, Eq, Structural)]
pub struct CloseScalars {
    /// Sector of the closed window.
    pub prev_sector: u8,
    /// The window is streamed.
    pub record: bool,
    /// Window start, 10 µs ticks.
    pub start_10us: u32,
    /// Window length, µs.
    pub len_us: u16,
    /// First edge, µs from the start; `0xFFFF` is none.
    pub zc_off_us: u16,
    /// Qualified zero-cross, µs from the start; `0xFFFF` is none.
    pub qzc_off_us: u16,
    /// Boundary prediction error, µs.
    pub pred_err_us: i16,
    /// Sequence number, 0 when not streamed.
    pub seq: u8,
}

/// `x` held to what a 16-bit field can carry.
pub open spec fn capped16(x: u32) -> u16 {
    min_of(x as int, 0xFFFF) as u16
}

/// How far the boundary at `now_us` lies from the predicted one, half an
/// interval after the qualified zero-cross.
pub open spec fn prediction_error(qzc_us: u32, interval_us: u32, now_us: u32) -> i16 {
    if qzc_us == u32::MAX || interval_us == 0 {
        PRED_NONE
    } else {
        clamp_of(now_us.wrapping_sub(qzc_us) - interval_us / 2, -0x7FFF, 0x7FFF) as i16
    }
}

/// The offset of an edge from the window start, `0xFFFF` for no edge.
pub open spec fn edge_offset(at_us: u32, start_us: u32) -> u16 {
    if at_us == u32::MAX {
        0xFFFF
    } else {
        min_of(at_us.wrapping_sub(start_us) as int, 0xFFFE) as u16
    }
}

/// Phase-C windows (sectors 0 and 3) are dead-reckoned: closing without a
/// zero-cross is no miss there.
pub open spec fn sector_counts(sector: u8) -> bool {
    sector != 0 && sector != 3
}

impl WindowControl {
    /// A closed-loop window closes without a qualified zero-cross.
    pub open spec fn misses(self) -> bool {
        self.qzc_us == u32::MAX && self.cl_active
    }

    /// The miss counts toward re-acquisition.
    pub open spec fn counts_miss(self, sector: u8) -> bool {
        self.misses() && sector_counts(sector)
    }

    /// The run of misses with this one.
    pub open spec fn miss_run(self) -> u8 {
        self.cl_noz_run.saturating_add(1)
    }

    /// The run of misses that enters re-acquisition: the first at high speed,
    /// the second otherwise.
    pub open spec fn reacq_at(self) -> int {
        if 0 < self.interval_us < HIGH_SPEED_US {
            1
        } else {
            2
        }
    }

    /// The second miss in a row breaks a live chain.
    pub open spec fn breaks_chain(self, sector: u8) -> bool {
        self.counts_miss(sector) && self.miss_run() >= 2 && self.last_qzc_us != u32::MAX
    }

    /// The window is streamed: all at low speed, one in five above.
    pub open spec fn records(self) -> bool {
        &&& self.stream_on
        &&& self.sector_start_us != 0
        &&& (self.interval_us == 0 || self.interval_us >= STREAM_ALL_US || self.wrec_decim
            % STREAM_EVERY == 0)
    }

    /// The black-box events of the close.
    pub open spec fn events(self, sector: u8) -> Seq<Option<(u8, u16)>> {
        seq![
            if self.misses() {
                Some((EV_NOZ, capped16(self.raw)))
            } else {
                None
            },
            if self.breaks_chain(sector) {
                Some((EV_RAQ, capped16(self.interval_us)))
            } else {
                None
            },
        ]
    }

    /// The values the record half needs.
    pub open spec fn scalars(self, sector: u8, now_us: u32) -> CloseScalars {
        CloseScalars {
            prev_sector: sector,
            record: self.records(),
            start_10us: self.sector_start_us / 10,
            len_us: capped16(now_us.wrapping_sub(self.sector_start_us)),
            zc_off_us: edge_offset(self.first_zc_us, self.sector_start_us),
            qzc_off_us: edge_offset(self.qzc_us, self.sector_start_us),
            pred_err_us: prediction_error(self.qzc_us, self.interval_us, now_us),
            seq: if self.records() {
                self.wrec_seq
            } else {
                0
            },
        }
    }

    /// The control state of the window that opens at the close.
    pub open spec fn closed(self, sector: u8, now_10us: u32, now_us: u32) -> WindowControl {
        WindowControl {
            sector_start_us: now_us,
            qzc_us: u32::MAX,
            first_zc_us: u32::MAX,
            cand_zc_us: u32::MAX,
            window_gen: self.window_gen.wrapping_add(1),
            last_qzc_us: if self.breaks_chain(sector) {
                u32::MAX
            } else {
                self.last_qzc_us
            },
            windows_since_qzc: self.windows_since_qzc.saturating_add(1),
            cl_noz_run: if self.counts_miss(sector) {
                self.miss_run()
            } else {
                self.cl_noz_run
            },
            cl_reacq: self.cl_reacq || (self.counts_miss(sector) && self.miss_run()
                >= self.reacq_at()),
            wrec_decim: self.wrec_decim.wrapping_add(1),
            wrec_seq: if self.records() {
                self.wrec_seq.wrapping_add(1)
            } else {
                self.wrec_seq
            },
            last_comm_10us: now_10us,
            ..self
        }
    }
}

impl WindowDiag {
    /// The record of the bank, when the window is streamed.
    pub open spec fn record(self, sc: CloseScalars) -> Option<WindowRec> {
        if sc.record {
            Some(
                WindowRec {
                    start_10us: sc.start_10us,
                    len_us: sc.len_us,
                    zc_off_us: sc.zc_off_us,
                    raw: capped16(self.raw),
                    valid: capped16(self.valid),
                    i_min: if self.i_n == 0 {
                        0
                    } else {
                        self.i_min
                    },
                    i_max: self.i_max,
                    i_avg: if self.i_n == 0 {
                        0
                    } else {
                        (self.i_sum / self.i_n % 0x1_0000) as u16
                    },
                    qzc_off_us: sc.qzc_off_us,
                    pred_err_us: sc.pred_err_us,
                    vbat_raw: if self.vbat_min == u16::MAX {
                        self.vbat_live
                    } else {
                        self.vbat_min
                    },
                    sector: sc.prev_sector,
                    seq: sc.seq,
                },
            )
        } else {
            None
        }
    }

    /// The bank ready for reuse.
    pub open spec fn cleared(self) -> WindowDiag {
        WindowDiag {
            raw: 0,
            valid: 0,
            i_sum: 0,
            i_n: 0,
            i_min: I_MIN_IDLE,
            i_max: 0,
            vbat_min: u16::MAX,
            ..self
        }
    }
}

impl WindowState {
    /// The control part.
    pub open spec fn control(self) -> WindowControl {
        WindowControl {
            sector_start_us: self.sector_start_us,
            qzc_us: self.qzc_us,
            first_zc_us: self.first_zc_us,
            cand_zc_us: self.cand_zc_us,
            window_gen: self.window_gen,
            interval_us: self.interval_us,
            last_qzc_us: self.last_qzc_us,
            windows_since_qzc: self.windows_since_qzc,
            cl_active: self.cl_active,
            cl_noz_run: self.cl_noz_run,
            cl_reacq: self.cl_reacq,
            stream_on: self.stream_on,
            wrec_decim: self.wrec_decim,
            wrec_seq: self.wrec_seq,
            last_comm_10us: self.last_comm_10us,
            raw: self.raw,
        }
    }

    /// The diagnostic part.
    pub open spec fn diag(self) -> WindowDiag {
        WindowDiag {
            raw: self.raw,
            valid: self.valid,
            i_sum: self.i_sum,
            i_n: self.i_n,
            i_min: self.i_min,
            i_max: self.i_max,
            vbat_min: self.vbat_min,
            vbat_live: self.vbat_live,
        }
    }

    /// The state of the window that opens at the close. The battery minimum
    /// folds across windows that are not streamed.
    pub open spec fn closed(self, sector: u8, now_10us: u32, now_us: u32) -> WindowState {
        let c = self.control();
        WindowState {
            sector_start_us: now_us,
            qzc_us: u32::MAX,
            first_zc_us: u32::MAX,
            raw: 0,
            valid: 0,
            i_sum: 0,
            i_n: 0,
            i_min: I_MIN_IDLE,
            i_max: 0,
            cand_zc_us: u32::MAX,
            window_gen: self.window_gen.wrapping_add(1),
            last_qzc_us: if c.breaks_chain(sector) {
                u32::MAX
            } else {
                self.last_qzc_us
            },
            windows_since_qzc: self.windows_since_qzc.saturating_add(1),
            cl_noz_run: if c.counts_miss(sector) {
                c.miss_run()
            } else {
                self.cl_noz_run
            },
            cl_reacq: self.cl_reacq || (c.counts_miss(sector) && c.miss_run() >= c.reacq_at()),
            wrec_decim: self.wrec_decim.wrapping_add(1),
            wrec_seq: if c.records() {
                self.wrec_seq.wrapping_add(1)
            } else {
                self.wrec_seq
            },
            vbat_min: if c.records() {
                u16::MAX
            } else {
                self.vbat_min
            },
            last_comm_10us: now_10us,
            ..self
        }
    }
}

impl Default for CloseOutcome {
    /// No record, no events.
    fn default() -> (r: Self)
        ensures
            r.rec is None,
            r.bb@ == seq![None::<(u8, u16)>, None::<(u8, u16)>],
    {
        let r = CloseOutcome { rec: None, bb: [None, None] };
        assert(r.bb@ =~= seq![None::<(u8, u16)>, None::<(u8, u16)>]);
        r
    }
}

impl Default for CloseScalars {
    /// All zero, not streamed.
    fn default() -> (r: Self)
        ensures
            r == (CloseScalars {
                prev_sector: 0,
                record: false,
                start_10us: 0,
                len_us: 0,
                zc_off_us: 0,
                qzc_off_us: 0,
                pred_err_us: 0,
                seq: 0,
            }),
    {
        CloseScalars {
            prev_sector: 0,
            record: false,
            start_10us: 0,
            len_us: 0,
            zc_off_us: 0,
            qzc_off_us: 0,
            pred_err_us: 0,
            seq: 0,
        }
    }
}

pub(crate) fn cap16(x: u32) -> (r: u16)
    ensures
        r == capped16(x),
{
    if x > 0xFFFF {
        0xFFFF
    } else {
        x as u16
    }
}

pub(crate) fn offset_us(at_us: u32, start_us: u32) -> (r: u16)
    ensures
        r == edge_offset(at_us, start_us),
{
    let off: u32 = at_us.wrapping_sub(start_us);
    if at_us == u32::MAX {
        0xFFFF
    } else if off > 0xFFFE {
        0xFFFE
    } else {
        off as u16
    }
}

pub(crate) fn pred_err(qzc_us: u32, interval_us: u32, now_us: u32) -> (r: i16)
    ensures
        r == prediction_error(qzc_us, interval_us, now_us),
{
    if qzc_us == u32::MAX || interval_us == 0 {
        return PRED_NONE;
    }
    let err: i64 = now_us.wrapping_sub(qzc_us) as i64 - (interval_us / 2) as i64;
    if err > 0x7FFF {
        0x7FFF
    } else if err < -0x7FFF {
        -0x7FFF
    } else {
        err as i16
    }
}

pub(crate) fn streams(interval_us: u32, decim: u32) -> (r: bool)
    ensures
        r == (interval_us == 0 || interval_us >= STREAM_ALL_US || decim % STREAM_EVERY == 0),
{
    interval_us == 0 || interval_us >= STREAM_ALL_US || decim % STREAM_EVERY == 0
}

fn mean16(sum: u32, n: u32) -> (r: u16)
    ensures
        n == 0 ==> r == 0,
        n != 0 ==> r == sum / n % 0x1_0000,
{
    if n == 0 {
        0
    } else {
        low16(sum / n)
    }
}

/// The control half of the close, for the commutation interrupt: miss
/// detection, the re-acquisition trigger, the span counter, the record's
/// scalars, and the control resets. The diagnostic bank is left alone.
pub fn window_control_step(
    ws: &mut WindowControl,
    prev_sector: u8,
    now_10us: u32,
    now_us: u32,
) -> (r: ([Option<(u8, u16)>; 2], CloseScalars))
    ensures
        *final(ws) == old(ws).closed(prev_sector, now_10us, now_us),
        r.0@ == old(ws).events(prev_sector),
        r.1 == old(ws).scalars(prev_sector, now_us),
{
    let start_us: u32 = ws.sector_start_us;
    let qzc: u32 = ws.qzc_us;
    let mut noz: Option<(u8, u16)> = None;
    let mut raq: Option<(u8, u16)> = None;
    let pred: i16 = pred_err(qzc, ws.interval_us, now_us);

    if qzc == u32::MAX && ws.cl_active {
        noz = Some((EV_NOZ, cap16(ws.raw)));
        if prev_sector != 0 && prev_sector != 3 {
            let run: u8 = ws.cl_noz_run.saturating_add(1);
            ws.cl_noz_run = run;
            let trip: u8 = if ws.interval_us > 0 && ws.interval_us < HIGH_SPEED_US {
                1
            } else {
                2
            };
            if run >= trip {
                ws.cl_reacq = true;
            }
            if run >= 2 && ws.last_qzc_us != u32::MAX {
                ws.last_qzc_us = u32::MAX;
                raq = Some((EV_RAQ, cap16(ws.interval_us)));
            }
        }
    }
    ws.windows_since_qzc = ws.windows_since_qzc.saturating_add(1);

    let decim: u32 = ws.wrec_decim;
    ws.wrec_decim = decim.wrapping_add(1);
    let record: bool = ws.stream_on && start_us != 0 && streams(ws.interval_us, decim);
    let mut seq: u8 = 0;
    if record {
        seq = ws.wrec_seq;
        ws.wrec_seq = seq.wrapping_add(1);
    }
    let sc = CloseScalars {
        prev_sector,
        record,
        start_10us: start_us / 10,
        len_us: cap16(now_us.wrapping_sub(start_us)),
        zc_off_us: offset_us(ws.first_zc_us, start_us),
        qzc_off_us: offset_us(qzc, start_us),
        pred_err_us: pred,
        seq,
    };

    ws.first_zc_us = u32::MAX;
    ws.qzc_us = u32::MAX;
    ws.cand_zc_us = u32::MAX;
    ws.window_gen = ws.window_gen.wrapping_add(1);
    ws.sector_start_us = now_us;
    ws.last_comm_10us = now_10us;
    let bb: [Option<(u8, u16)>; 2] = [noz, raq];
    assert(bb@ =~= old(ws).events(prev_sector));
    (bb, sc)
}

/// The record half of the close, for the main loop: reads the bank at rest,
/// builds the record when the window is streamed, and clears the bank.
pub fn build_window_rec(diag: &mut WindowDiag, sc: &CloseScalars) -> (r: Option<WindowRec>)
    ensures
        r == old(diag).record(*sc),
        *final(diag) == old(diag).cleared(),
{
    let mut out: Option<WindowRec> = None;
    if sc.record {
        let i_n: u32 = diag.i_n;
        out = Some(
            WindowRec {
                start_10us: sc.start_10us,
                len_us: sc.len_us,
                zc_off_us: sc.zc_off_us,
                raw: cap16(diag.raw),
                valid: cap16(diag.valid),
                i_min: if i_n == 0 {
                    0
                } else {
                    diag.i_min
                },
                i_max: diag.i_max,
                i_avg: mean16(diag.i_sum, i_n),
                qzc_off_us: sc.qzc_off_us,
                pred_err_us: sc.pred_err_us,
                vbat_raw: if diag.vbat_min == u16::MAX {
                    diag.vbat_live
                } else {
                    diag.vbat_min
                },
                sector: sc.prev_sector,
                seq: sc.seq,
            },
        );
    }
    diag.raw = 0;
    diag.valid = 0;
    diag.i_sum = 0;
    diag.i_n = 0;
    diag.i_min = I_MIN_IDLE;
    diag.i_max = 0;
    diag.vbat_min = u16::MAX;
    out
}

/// Closes the window of `prev_sector`, packages it, and resets every
/// accumulator for the next one.
pub fn close_float_window(
    ws: &mut WindowState,
    prev_sector: u8,
    now_10us: u32,
    now_us: u32,
) -> (r: CloseOutcome)
    ensures
        *final(ws) == old(ws).closed(prev_sector, now_10us, now_us),
        r.bb@ == old(ws).control().events(prev_sector),
        r.rec == old(ws).diag().record(old(ws).control().scalars(prev_sector, now_us)),
{
    let start_us: u32 = ws.sector_start_us;
    let qzc: u32 = ws.qzc_us;
    let mut noz: Option<(u8, u16)> = None;
    let mut raq: Option<(u8, u16)> = None;
    let pred: i16 = pred_err(qzc, ws.interval_us, now_us);

    if qzc == u32::MAX && ws.cl_active {
        noz = Some((EV_NOZ, cap16(ws.raw)));
        // Only A and B windows count: phase-C windows legitimately close
        // without a zero-cross.
        if prev_sector != 0 && prev_sector != 3 {
            let run: u8 = ws.cl_noz_run.saturating_add(1);
            ws.cl_noz_run = run;
            let trip: u8 = if ws.interval_us > 0 && ws.interval_us < HIGH_SPEED_US {
                1
            } else {
                2
            };
            if run >= trip {
                ws.cl_reacq = true;
            }
            // Breaking the chain is kept for the second miss in a row:
            // recovery is then measured from two fresh zero-crosses.

            if run >= 2 && ws.last_qzc_us != u32::MAX {
                ws.last_qzc_us = u32::MAX;
                raq = Some((EV_RAQ, cap16(ws.interval_us)));
            }
        }
    }
    ws.windows_since_qzc = ws.windows_since_qzc.saturating_add(1);

    let decim: u32 = ws.wrec_decim;
    ws.wrec_decim = decim.wrapping_add(1);
    let mut rec: Option<WindowRec> = None;
    if ws.stream_on && start_us != 0 && streams(ws.interval_us, decim) {
        let i_n: u32 = ws.i_n;
        let vbat: u16 = if ws.vbat_min == u16::MAX {
            ws.vbat_live
        } else {
            ws.vbat_min
        };
        ws.vbat_min = u16::MAX;
        let seq: u8 = ws.wrec_seq;
        ws.wrec_seq = seq.wrapping_add(1);
        rec =
        Some(
            WindowRec {
                start_10us: start_us / 10,
                len_us: cap16(now_us.wrapping_sub(start_us)),
                zc_off_us: offset_us(ws.first_zc_us, start_us),
                raw: cap16(ws.raw),
                valid: cap16(ws.valid),
                i_min: if i_n == 0 {
                    0
                } else {
                    ws.i_min
                },
                i_max: ws.i_max,
                i_avg: mean16(ws.i_sum, i_n),
                qzc_off_us: offset_us(qzc, start_us),
                pred_err_us: pred,
                vbat_raw: vbat,
                sector: prev_sector,
                seq,
            },
        );
    }
    ws.raw = 0;
    ws.valid = 0;
    ws.first_zc_us = u32::MAX;
    ws.qzc_us = u32::MAX;
    ws.i_sum = 0;
    ws.i_n = 0;
    ws.i_min = I_MIN_IDLE;
    ws.i_max = 0;
    ws.cand_zc_us = u32::MAX;
    ws.window_gen = ws.window_gen.wrapping_add(1);
    ws.sector_start_us = now_us;
    ws.last_comm_10us = now_10us;
    let bb: [Option<(u8, u16)>; 2] = [noz, raq];
    assert(bb@ =~= old(ws).control().events(prev_sector));
    CloseOutcome { rec, bb }
}

/// The two halves do what the whole does: the same control state, the same
/// bank apart from its battery minimum, and that too when the window is
/// streamed or no minimum was pending. (The whole keeps a pending minimum
/// across windows that are not streamed; the record half drops it.)
pub proof fn law_split_matches_whole(ws: WindowState, sector: u8, now_10us: u32, now_us: u32)
    ensures
        ({
            let whole = ws.closed(sector, now_10us, now_us);
            let control = ws.control().closed(sector, now_10us, now_us);
            let bank = ws.diag().cleared();
            &&& whole.control() == (WindowControl { raw: 0, ..control })
            &&& whole.diag() == (WindowDiag { vbat_min: whole.vbat_min, ..bank })
            &&& (ws.control().records() || ws.vbat_min == u16::MAX) ==> whole.diag() == bank
        }),
{
}

/// Nothing of a closed window leaks into the next: two states that agree on
/// what a close keeps (the estimator, the closed-loop and the telemetry
/// state) open equal windows whatever their accumulators held.
pub proof fn law_accumulators_do_not_leak(
    a: WindowState,
    b: WindowState,
    sector: u8,
    now_10us: u32,
    now_us: u32,
)
    requires
        b == (WindowState {
            raw: b.raw,
            valid: b.valid,
            i_sum: b.i_sum,
            i_n: b.i_n,
            i_min: b.i_min,
            i_max: b.i_max,
            first_zc_us: b.first_zc_us,
            cand_zc_us: b.cand_zc_us,
            ..a
        }),
    ensures
        a.closed(sector, now_10us, now_us) == b.closed(sector, now_10us, now_us),
{
}

/// A window with a qualified zero-cross, an open-loop window and a phase-C
/// window neither enter re-acquisition nor break the chain.
pub proof fn law_only_counted_misses_reacquire(
    c: WindowControl,
    sector: u8,
    now_10us: u32,
    now_us: u32,
)
    requires
        c.qzc_us != u32::MAX || !c.cl_active || sector == 0 || sector == 3,
    ensures
        c.closed(sector, now_10us, now_us).cl_reacq == c.cl_reacq,
        c.closed(sector, now_10us, now_us).cl_noz_run == c.cl_noz_run,
        c.closed(sector, now_10us, now_us).last_qzc_us == c.last_qzc_us,
        c.events(sector)[1] is None,
{
}

/// Two counted misses in a row always end in re-acquisition with the chain
/// broken, and the break is reported exactly once.
pub proof fn law_two_misses_break_the_chain(
    c: WindowControl,
    s1: u8,
    s2: u8,
    t1: u32,
    u1: u32,
    t2: u32,
    u2: u32,
)
    requires
        c.misses(),
        c.last_qzc_us != u32::MAX,
        sector_counts(s1),
        sector_counts(s2),
    ensures
        ({
            let c1 = c.closed(s1, t1, u1);
            let c2 = c1.closed(s2, t2, u2);
            &&& c2.cl_reacq
            &&& c2.last_qzc_us == u32::MAX
            &&& (c.events(s1)[1] is Some) != (c1.events(s2)[1] is Some)
            &&& c2.events(s2)[1] is None
        }),
{
}

/// In any five consecutive window counts exactly one is streamed at high
/// speed, away from the wrap of the counter.
pub proof fn law_one_in_five_streams(c: WindowControl, n: u32)
    requires
        c.stream_on,
        c.sector_start_us != 0,
        0 < c.interval_us < STREAM_ALL_US,
        n <= u32::MAX - 4,
    ensures
        exists|k: u32|
            #![trigger (WindowControl { wrec_decim: k, ..c }).records()]
            n <= k <= n + 4 && (WindowControl { wrec_decim: k, ..c }).records(),
        forall|j: u32, k: u32|
            #![trigger (WindowControl { wrec_decim: j, ..c }).records(), (WindowControl {
                wrec_decim: k,
                ..c
            }).records()]
            n <= j <= n + 4 && n <= k <= n + 4 && (WindowControl { wrec_decim: j, ..c }).records()
                && (WindowControl { wrec_decim: k, ..c }).records() ==> j == k,
{
    let k: u32 = if n % 5 == 0 {
        n
    } else {
        (n + 5 - n % 5) as u32
    };
    assert(k % STREAM_EVERY == 0);
    assert((WindowControl { wrec_decim: k, ..c }).records());
}

/// The prediction error is the time from the zero-cross to the boundary less
/// half an interval, up to rounding up, held to what its field can carry;
/// without a zero-cross or an interval there is none.
pub proof fn law_prediction_is_half_an_interval(qzc_us: u32, interval_us: u32, now_us: u32)
    ensures
        ({
            let err = prediction_error(qzc_us, interval_us, now_us);
            let late = 2 * now_us.wrapping_sub(qzc_us) - interval_us;
            &&& qzc_us == 0xFFFF_FFFF || interval_us == 0 ==> err == -32_768
            &&& qzc_us != 0xFFFF_FFFF && interval_us != 0 ==> {
                &&& -32_767 <= err <= 32_767
                &&& -32_767 < err < 32_767 ==> late <= 2 * err <= late + 1
                &&& err == 32_767 ==> late >= 65_533
                &&& err == -32_767 ==> late <= -65_534
            }
        }),
{
}

/// An offset is the time of the edge from the window's start, across the
/// wrap of the clock, held under the value that means none.
pub proof fn law_offset_is_from_the_start(start_us: u32, after: u32)
    ensures
        edge_offset(0xFFFF_FFFF, start_us) == 0xFFFF,
        start_us.wrapping_add(after) != 0xFFFF_FFFF ==> {
            let off = edge_offset(start_us.wrapping_add(after), start_us);
            &&& after <= 65_534 ==> off == after
            &&& after > 65_534 ==> off == 65_534
        },
{
}

/// A close without a zero-cross in the loop is a miss, and reports its raw
/// edges. In sectors 1, 2, 4 and 5 misses in a row are counted; the second
/// one enters re-acquisition, and under 160 µs the first one does; the second
/// breaks a live chain and reports the interval. Every close counts a span.
pub proof fn law_close_counts_its_misses(c: WindowControl, sector: u8, now_10us: u32, now_us: u32)
    requires
        sector <= 5,
        c.cl_noz_run < u8::MAX,
        c.windows_since_qzc < u8::MAX,
    ensures
        ({
            let t = c.closed(sector, now_10us, now_us);
            let miss = c.qzc_us == 0xFFFF_FFFF && c.cl_active;
            let ab = sector == 1 || sector == 2 || sector == 4 || sector == 5;
            let fast = 1 <= c.interval_us <= 159;
            let breaks = miss && ab && c.cl_noz_run >= 1 && c.last_qzc_us != 0xFFFF_FFFF;
            &&& miss && ab ==> t.cl_noz_run == c.cl_noz_run + 1
            &&& !(miss && ab) ==> t.cl_noz_run == c.cl_noz_run && t.cl_reacq == c.cl_reacq
            &&& miss && ab ==> (t.cl_reacq <==> c.cl_reacq || fast || c.cl_noz_run >= 1)
            &&& breaks ==> t.last_qzc_us == 0xFFFF_FFFF
            &&& !breaks ==> t.last_qzc_us == c.last_qzc_us
            &&& c.events(sector).len() == 2
            &&& c.events(sector)[0] is Some <==> miss
            &&& miss && c.raw <= 0xFFFF ==> c.events(sector)[0] == Some((4u8, c.raw as u16))
            &&& c.events(sector)[1] is Some <==> breaks
            &&& breaks && c.interval_us <= 0xFFFF ==> c.events(sector)[1] == Some(
                (9u8, c.interval_us as u16),
            )
            &&& t.windows_since_qzc == c.windows_since_qzc + 1
        }),
{
}

/// A close opens a clean window at its own time under the next generation,
/// with no zero-cross, no edge and no candidate, and leaves the loop and the
/// interval as they were.
pub proof fn law_close_opens_a_clean_window(w: WindowState, sector: u8, now_10us: u32, now_us: u32)
    ensures
        ({
            let t = w.closed(sector, now_10us, now_us);
            &&& t.sector_start_us == now_us && t.last_comm_10us == now_10us
            &&& t.qzc_us == 0xFFFF_FFFF && t.first_zc_us == 0xFFFF_FFFF
            &&& t.cand_zc_us == 0xFFFF_FFFF
            &&& t.window_gen == (w.window_gen + 1) % 256
            &&& t.raw == 0 && t.valid == 0 && t.i_sum == 0 && t.i_n == 0
            &&& t.i_min == 4095 && t.i_max == 0
            &&& t.interval_us == w.interval_us && t.cl_active == w.cl_active
            &&& t.stream_on == w.stream_on && t.vbat_live == w.vbat_live
            &&& t.wrec_decim == w.wrec_decim.wrapping_add(1)
            &&& t.control() == (WindowControl {
                raw: 0,
                ..w.control().closed(sector, now_10us, now_us)
            })
        }),
{
}

/// A window is streamed when telemetry is on and it has a start: every one
/// without an interval or from 180 µs up, and one count in five below. A
/// streamed window takes a sequence number.
pub proof fn law_windows_are_streamed(c: WindowControl, sector: u8, now_10us: u32, now_us: u32)
    ensures
        ({
            let sc = c.scalars(sector, now_us);
            let t = c.closed(sector, now_10us, now_us);
            let all = c.interval_us == 0 || c.interval_us >= 180;
            &&& sc.record <==> c.stream_on && c.sector_start_us != 0 && (all || c.wrec_decim as int
                % 5 == 0)
            &&& sc.record ==> sc.seq == c.wrec_seq && t.wrec_seq == c.wrec_seq.wrapping_add(1)
            &&& !sc.record ==> sc.seq == 0 && t.wrec_seq == c.wrec_seq
        }),
{
}

/// The scalars of a close: its sector, its start in 10 µs, its length in µs
/// as far as the field carries it, and where its edge and its zero-cross lay.
pub proof fn law_scalars_measure_the_window(c: WindowControl, sector: u8, length: u32)
    ensures
        ({
            let sc = c.scalars(sector, c.sector_start_us.wrapping_add(length));
            &&& sc.prev_sector == sector
            &&& 10 * sc.start_10us <= c.sector_start_us < 10 * sc.start_10us + 10
            &&& length <= 65_535 ==> sc.len_us == length
            &&& length > 65_535 ==> sc.len_us == 65_535
            &&& c.first_zc_us == 0xFFFF_FFFF <==> sc.zc_off_us == 65_535
            &&& c.qzc_us == 0xFFFF_FFFF <==> sc.qzc_off_us == 65_535
            &&& c.qzc_us != 0xFFFF_FFFF && c.qzc_us.wrapping_sub(c.sector_start_us) <= 65_534
                ==> sc.qzc_off_us == c.qzc_us.wrapping_sub(c.sector_start_us)
            &&& c.first_zc_us != 0xFFFF_FFFF && c.first_zc_us.wrapping_sub(c.sector_start_us)
                <= 65_534 ==> sc.zc_off_us == c.first_zc_us.wrapping_sub(c.sector_start_us)
        }),
{
}

/// A record carries the window's scalars, the edge counts as far as their
/// fields reach, the current's bounds and its mean, up to rounding down, and
/// the lowest battery sample, or the latest for want of one.
pub proof fn law_record_sums_up_the_bank(d: WindowDiag, sc: CloseScalars)
    ensures
        d.record(sc) is Some <==> sc.record,
        sc.record ==> {
            let r = d.record(sc)->0;
            &&& r.start_10us == sc.start_10us && r.len_us == sc.len_us
            &&& r.zc_off_us == sc.zc_off_us && r.qzc_off_us == sc.qzc_off_us
            &&& r.pred_err_us == sc.pred_err_us && r.sector == sc.prev_sector && r.seq == sc.seq
            &&& d.raw <= 65_535 ==> r.raw == d.raw
            &&& d.raw > 65_535 ==> r.raw == 65_535
            &&& d.valid <= 65_535 ==> r.valid == d.valid
            &&& d.valid > 65_535 ==> r.valid == 65_535
            &&& d.i_n == 0 ==> r.i_min == 0 && r.i_avg == 0
            &&& d.i_n != 0 ==> r.i_min == d.i_min
            &&& r.i_max == d.i_max
            &&& d.i_n != 0 && d.i_sum / d.i_n <= 65_535 ==> r.i_avg * d.i_n <= d.i_sum < (r.i_avg
                + 1) * d.i_n
            &&& d.vbat_min != 65_535 ==> r.vbat_raw == d.vbat_min
            &&& d.vbat_min == 65_535 ==> r.vbat_raw == d.vbat_live
        },
{
    if d.i_n != 0 {
        let n = d.i_n as int;
        let q = d.i_sum as int / n;
        vstd::arithmetic::div_mod::lemma_fundamental_div_mod(d.i_sum as int, n);
        assert(n * q == q * n && (q + 1) * n == q * n + n) by (nonlinear_arith);
        assert(q >= 0) by (nonlinear_arith)
            requires
                q == d.i_sum as int / n,
                n > 0,
        ;
    }
}

} // verus!

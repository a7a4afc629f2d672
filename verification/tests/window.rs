use minz_core::window::{
    EV_NOZ, EV_RAQ, CloseOutcome, WindowControl, WindowDiag, WindowState, build_window_rec,
    close_float_window, window_control_step,
};
use minz_core::wire::WindowRec;

fn rig() -> WindowState {
    WindowState {
        sector_start_us: 10_000,
        qzc_us: 10_300,
        first_zc_us: 10_250,
        raw: 40,
        valid: 6,
        i_sum: 3_000,
        i_n: 30,
        i_min: 80,
        i_max: 140,
        cand_zc_us: 10_310,
        window_gen: 7,
        interval_us: 600,
        last_qzc_us: 10_300,
        windows_since_qzc: 0,
        cl_active: false,
        cl_noz_run: 0,
        cl_reacq: false,
        stream_on: true,
        wrec_decim: 0,
        wrec_seq: 0,
        vbat_min: u16::MAX,
        vbat_live: 1_083,
        last_comm_10us: 1_000,
    }
}

fn close(r: &mut WindowState, sector: u8, now_10us: u32, now_us: u32) -> CloseOutcome {
    close_float_window(r, sector, now_10us, now_us)
}

fn close_in_halves(
    r: &mut WindowState,
    sector: u8,
    now_10us: u32,
    now_us: u32,
) -> ([Option<(u8, u16)>; 2], Option<WindowRec>) {
    let mut c = WindowControl {
        sector_start_us: r.sector_start_us,
        qzc_us: r.qzc_us,
        first_zc_us: r.first_zc_us,
        cand_zc_us: r.cand_zc_us,
        window_gen: r.window_gen,
        interval_us: r.interval_us,
        last_qzc_us: r.last_qzc_us,
        windows_since_qzc: r.windows_since_qzc,
        cl_active: r.cl_active,
        cl_noz_run: r.cl_noz_run,
        cl_reacq: r.cl_reacq,
        stream_on: r.stream_on,
        wrec_decim: r.wrec_decim,
        wrec_seq: r.wrec_seq,
        last_comm_10us: r.last_comm_10us,
        raw: r.raw,
    };
    let mut d = WindowDiag {
        raw: r.raw,
        valid: r.valid,
        i_sum: r.i_sum,
        i_n: r.i_n,
        i_min: r.i_min,
        i_max: r.i_max,
        vbat_min: r.vbat_min,
        vbat_live: r.vbat_live,
    };
    let (bb, sc) = window_control_step(&mut c, sector, now_10us, now_us);
    let rec = build_window_rec(&mut d, &sc);
    *r = WindowState {
        sector_start_us: c.sector_start_us,
        qzc_us: c.qzc_us,
        first_zc_us: c.first_zc_us,
        raw: d.raw,
        valid: d.valid,
        i_sum: d.i_sum,
        i_n: d.i_n,
        i_min: d.i_min,
        i_max: d.i_max,
        cand_zc_us: c.cand_zc_us,
        window_gen: c.window_gen,
        interval_us: c.interval_us,
        last_qzc_us: c.last_qzc_us,
        windows_since_qzc: c.windows_since_qzc,
        cl_active: c.cl_active,
        cl_noz_run: c.cl_noz_run,
        cl_reacq: c.cl_reacq,
        stream_on: c.stream_on,
        wrec_decim: c.wrec_decim,
        wrec_seq: c.wrec_seq,
        vbat_min: d.vbat_min,
        vbat_live: d.vbat_live,
        last_comm_10us: c.last_comm_10us,
    };
    (bb, rec)
}

#[test]
fn split_matches_monolith() {
    let cases: &[(u32, u32, bool, u8, bool, u8, u32, bool, u32)] = &[
        (10_300, 10_250, true, 0, false, 2, 600, true, 0),
        (u32::MAX, u32::MAX, true, 0, false, 1, 120, true, 0),
        (u32::MAX, u32::MAX, true, 1, true, 4, 120, true, 0),
        (u32::MAX, u32::MAX, true, 0, false, 0, 600, true, 0),
        (10_300, 10_250, true, 0, false, 5, 600, false, 0),
        (10_300, 10_250, true, 0, false, 2, 120, true, 3),
    ];
    for &(qzc, fz, act, noz, reacq, sec, iv, stream, decim) in cases {
        let seed = |r: &mut WindowState| {
            r.qzc_us = qzc;
            r.first_zc_us = fz;
            r.cl_active = act;
            r.cl_noz_run = noz;
            r.cl_reacq = reacq;
            r.interval_us = iv;
            r.stream_on = stream;
            r.wrec_decim = decim;
        };
        let mut a = rig();
        seed(&mut a);
        let mono = close(&mut a, sec, 5_000, 50_000);

        let mut b = rig();
        seed(&mut b);
        let (bb, rec) = close_in_halves(&mut b, sec, 5_000, 50_000);

        assert_eq!(bb, mono.bb, "bb mismatch case sec={sec} qzc={qzc}");
        assert_eq!(rec, mono.rec, "rec mismatch case sec={sec} qzc={qzc}");
        assert_eq!(a.qzc_us, b.qzc_us, "qzc reset");
        assert_eq!(a.cand_zc_us, b.cand_zc_us, "cand_zc reset");
        assert_eq!(a.first_zc_us, b.first_zc_us, "first_zc reset");
        assert_eq!(a.sector_start_us, b.sector_start_us, "sector_start");
        assert_eq!(a.last_comm_10us, b.last_comm_10us, "last_comm");
        assert_eq!(a.last_qzc_us, b.last_qzc_us, "last_qzc");
        assert_eq!(a.window_gen, b.window_gen, "window_gen");
        assert_eq!(a.cl_noz_run, b.cl_noz_run, "cl_noz_run");
        assert_eq!(a.cl_reacq, b.cl_reacq, "cl_reacq");
        assert_eq!(a.windows_since_qzc, b.windows_since_qzc, "windows_since_qzc");
        assert_eq!(a.raw, b.raw, "raw reset");
        assert_eq!(a.valid, b.valid, "valid reset");
        assert_eq!(a.i_sum, b.i_sum, "i_sum reset");
        assert_eq!(a.i_n, b.i_n, "i_n reset");
        assert_eq!(a.i_min, b.i_min, "i_min reset");
        assert_eq!(a.vbat_min, b.vbat_min, "vbat_min reset");
    }
}

#[test]
fn healthy_window_packages_record_and_pred_err() {
    let mut r = rig();
    let out = close(&mut r, 1, 2_000, 10_600);
    let rec = out.rec.expect("record");
    assert_eq!(rec.sector, 1);
    assert_eq!(rec.start_10us, 1_000);
    assert_eq!(rec.len_us, 600);
    assert_eq!(rec.zc_off_us, 250);
    assert_eq!(rec.qzc_off_us, 300);
    assert_eq!(rec.pred_err_us, 0);
    assert_eq!(rec.raw, 40);
    assert_eq!(rec.valid, 6);
    assert_eq!(rec.i_avg, 100);
    assert_eq!(rec.i_min, 80);
    assert_eq!(rec.vbat_raw, 1_083, "vbat falls back to live sample");
    assert_eq!(rec.seq, 0);
    assert!(out.bb.iter().all(Option::is_none), "no bb events");
}

#[test]
fn accumulators_fully_reset_for_next_window() {
    let mut r = rig();
    r.vbat_min = 900;
    close(&mut r, 1, 2_000, 10_600);
    assert_eq!(r.raw, 0);
    assert_eq!(r.valid, 0);
    assert_eq!(r.first_zc_us, u32::MAX);
    assert_eq!(r.qzc_us, u32::MAX);
    assert_eq!(r.i_sum, 0);
    assert_eq!(r.i_n, 0);
    assert_eq!(r.i_min, 0x0FFF);
    assert_eq!(r.i_max, 0);
    assert_eq!(r.cand_zc_us, u32::MAX);
    assert_eq!(r.window_gen, 8, "gen bumped");
    assert_eq!(r.sector_start_us, 10_600);
    assert_eq!(r.last_comm_10us, 2_000);
    assert_eq!(r.vbat_min, u16::MAX, "min-fold consumed");
    assert_eq!(r.windows_since_qzc, 1);
}

#[test]
fn no_qzc_no_interval_pred_err_is_sentinel() {
    let mut r = rig();
    r.qzc_us = u32::MAX;
    let out = close(&mut r, 1, 2_000, 10_600);
    assert_eq!(out.rec.unwrap().pred_err_us, i16::MIN);
    let mut r = rig();
    r.interval_us = 0;
    let out = close(&mut r, 1, 2_000, 10_600);
    assert_eq!(out.rec.unwrap().pred_err_us, i16::MIN);
}

#[test]
fn reacq_first_miss_widen_only_at_high_speed() {
    let mut r = rig();
    r.cl_active = true;
    r.interval_us = 130;
    r.qzc_us = u32::MAX;
    let out = close(&mut r, 1, 2_000, 10_600);
    assert_eq!(out.bb[0], Some((EV_NOZ, 40)));
    assert_eq!(out.bb[1], None, "no chain-break on the first miss");
    assert!(r.cl_reacq, "gate widened at once");
    assert_ne!(
        r.last_qzc_us,
        u32::MAX,
        "chain intact after a single miss"
    );
    r.qzc_us = u32::MAX;
    let out = close(&mut r, 2, 2_060, 11_200);
    assert_eq!(out.bb[1], Some((EV_RAQ, 130)));
    assert_eq!(r.last_qzc_us, u32::MAX);
}

#[test]
fn reacq_first_miss_widen_suppressed_at_low_speed_engage() {
    let mut r = rig();
    r.cl_active = true;
    r.qzc_us = u32::MAX;
    let out = close(&mut r, 1, 2_000, 10_600);
    assert_eq!(out.bb[0], Some((EV_NOZ, 40)));
    assert!(
        !r.cl_reacq,
        "no first-miss widen at low speed / engage"
    );
    r.qzc_us = u32::MAX;
    let out = close(&mut r, 2, 2_060, 11_200);
    assert!(r.cl_reacq);
    assert_eq!(out.bb[1], Some((EV_RAQ, 600)));
}

#[test]
fn dead_reckoned_c_windows_exempt_from_reacq() {
    let mut r = rig();
    r.cl_active = true;
    for (i, sec) in [0u8, 3, 0, 3].iter().enumerate() {
        r.qzc_us = u32::MAX;
        let out = close(&mut r, *sec, 2_000 + i as u32, 10_600 + 600 * i as u32);
        assert_eq!(out.bb[0].map(|e| e.0), Some(EV_NOZ), "NOZ still logged");
        assert_eq!(out.bb[1], None);
    }
    assert_eq!(r.cl_noz_run, 0);
    assert!(!r.cl_reacq);
}

#[test]
fn open_loop_zcless_windows_do_not_reacq() {
    let mut r = rig();
    for i in 0..4u32 {
        r.qzc_us = u32::MAX;
        let out = close(&mut r, 1, 2_000 + i, 10_600 + 600 * i);
        assert!(out.bb.iter().all(Option::is_none));
    }
    assert!(!r.cl_reacq);
}

#[test]
fn decimation_full_rate_below_925hz_fifth_above() {
    let mut r = rig();
    for i in 0..7u32 {
        let out = close(&mut r, 1, 2_000 + i, 10_600 + 600 * i);
        assert!(out.rec.is_some(), "window {i} dropped at low speed");
    }
    r.interval_us = 150;
    let mut streamed = 0;
    for i in 0..20u32 {
        if close(&mut r, 1, 3_000 + i, 20_000 + 150 * i).rec.is_some() {
            streamed += 1;
        }
    }
    assert_eq!(streamed, 4, "every 5th of 20");
}

#[test]
fn stream_off_or_unseeded_start_still_resets() {
    let mut r = rig();
    r.stream_on = false;
    let out = close(&mut r, 1, 2_000, 10_600);
    assert!(out.rec.is_none());
    assert_eq!(r.sector_start_us, 10_600);
    let mut r = rig();
    r.sector_start_us = 0;
    let out = close(&mut r, 1, 2_000, 10_600);
    assert!(out.rec.is_none(), "boot window (start=0) never streams");
}

#[test]
fn zero_current_samples_yield_zero_not_stale_or_panic() {
    let mut r = rig();
    r.i_n = 0;
    let rec = close(&mut r, 1, 2_000, 10_600).rec.unwrap();
    assert_eq!(rec.i_avg, 0);
    assert_eq!(rec.i_min, 0, "sentinel 0x0FFF must not leak");
}

#[test]
fn vbat_min_fold_prefers_worst_since_last_stream() {
    let mut r = rig();
    r.vbat_min = 620;
    let rec = close(&mut r, 1, 2_000, 10_600).rec.unwrap();
    assert_eq!(
        rec.vbat_raw, 620,
        "sag must reach the wire, not the live value"
    );
}

#[test]
fn windows_since_qzc_saturates() {
    let mut r = rig();
    r.windows_since_qzc = 255;
    close(&mut r, 1, 2_000, 10_600);
    assert_eq!(r.windows_since_qzc, 255);
}

use minz_core::zc::{
    ConfirmAction, HeldEdge, ZcState, accept_gen_current, accept_publish, adc_sign_observed,
    avg_interval_us, confirm_resolve, confirm_step, on_held_edge, schedule_precheck,
    vbus_decay_step,
};

fn rig() -> ZcState {
    ZcState {
        zc_clocked: false,
        cand_zc_us: u32::MAX,
        cand_expected: false,
        cand_confirms: 0,
        cand_gen: 0,
        window_gen: 0,
        window_qzc_us: u32::MAX,
        interval_us: 600,
        last_qzc_us: 9_400,
        windows_since_qzc: 0,
        last_qzc_10us: 0,
        cl_active: false,
        cl_armed: false,
        cl_reacq: false,
        cl_noz_run: 3,
        cl_fast_path: false,
        est_acc: 0,
        est_rej_floor: 0,
        est_rej_ceiling: 0,
        est_rej_rate: 0,
        est_rej_reseed: 0,
        est_rej_harmonic: 0,
        cl_am32_geom: false,
        est_prev_period: 0,
        avg_interval_acc: 0,
    }
}

fn close_window(z: &mut ZcState) {
    z.cand_zc_us = u32::MAX;
    z.window_gen = z.window_gen.wrapping_add(1);
    z.window_qzc_us = u32::MAX;
}

#[test]
fn ab_sectors_compare_float_to_neutral() {
    assert!(adc_sign_observed(1, 1000, 499, 0, false));
    assert!(!adc_sign_observed(1, 1000, 500, 0, false));
    assert!(adc_sign_observed(2, 499, 1000, 0, false));
    assert!(!adc_sign_observed(2, 501, 1000, 0, false));
    assert!(adc_sign_observed(4, 100, 900, 1900, false));
    assert!(!adc_sign_observed(4, 100, 1100, 1900, false));
    assert!(adc_sign_observed(5, 900, 100, 1900, false));
    assert!(!adc_sign_observed(5, 1100, 100, 1900, false));
}

#[test]
fn c_sectors_pass_comp_bit_through() {
    for sec in [0u8, 3] {
        assert!(adc_sign_observed(sec, 0, 0, 0, true));
        assert!(!adc_sign_observed(sec, 4000, 4000, 4000, false));
    }
}

#[test]
fn regression_sector2_zc_boundary_48khz() {
    let vbus = 1900u16;
    let b_driven = vbus;
    assert!(!adc_sign_observed(2, b_driven / 2, b_driven, vbus, false));
    assert!(adc_sign_observed(
        2,
        b_driven / 2 - 1,
        b_driven,
        vbus,
        false
    ));
}

#[test]
fn vbus_tracks_max_and_decays() {
    assert_eq!(vbus_decay_step(0, 1900, 100), 1900);
    assert_eq!(vbus_decay_step(1800, 100, 1900), 1900);
    assert_eq!(vbus_decay_step(1900, 0, 0), 1900 - 3);
    assert_eq!(vbus_decay_step(511, 0, 0), 510);
    assert_eq!(vbus_decay_step(0, 0, 0), 0);
    assert_eq!(vbus_decay_step(1, 0, 0), 0);
}



#[test]
fn swift_accepts_in_comp_only_under_active_fast_path() {
    let mut r = rig();
    r.cl_fast_path = true;
    r.cl_active = true;
    assert_eq!(on_held_edge(&mut r, true, 10_000), HeldEdge::AcceptNow);
    r.cl_reacq = true;
    r.interval_us = 110;
    assert_eq!(on_held_edge(&mut r, true, 10_000), HeldEdge::Armed);
    assert_eq!(r.cand_zc_us, 10_000);
    close_window(&mut r);
    r.interval_us = 300;
    assert_eq!(on_held_edge(&mut r, true, 10_000), HeldEdge::AcceptNow);
    r.cl_reacq = false;
    r.interval_us = 0;
    close_window(&mut r);
    r.cl_active = false;
    assert_eq!(on_held_edge(&mut r, true, 10_000), HeldEdge::Armed);
    assert_eq!(r.cand_zc_us, 10_000);
    assert!(r.cand_expected);
    assert_eq!(r.cand_confirms, 0);
    assert_eq!(on_held_edge(&mut r, false, 10_050), HeldEdge::Ignored);
    assert_eq!(r.cand_zc_us, 10_000);
}

#[test]
fn confirm_depth_two_open_loop_one_under_lock() {
    let mut r = rig();
    on_held_edge(&mut r, true, 10_000);
    assert_eq!(confirm_step(&mut r, true), ConfirmAction::Progress);
    assert_eq!(
        confirm_step(&mut r, true),
        ConfirmAction::AcceptPending {
            zc_us: 10_000,
            gen_snap: 0
        }
    );
    assert_eq!(r.cand_zc_us, u32::MAX);
    let mut r = rig();
    r.cl_active = true;
    on_held_edge(&mut r, true, 10_000);
    assert_eq!(
        confirm_step(&mut r, true),
        ConfirmAction::AcceptPending {
            zc_us: 10_000,
            gen_snap: 0
        }
    );
    let mut r = rig();
    r.cl_active = true;
    r.cl_reacq = true;
    on_held_edge(&mut r, true, 10_000);
    assert_eq!(confirm_step(&mut r, true), ConfirmAction::Progress);
}

#[test]
fn discard_logs_and_clears_but_spares_a_fresh_candidate() {
    let mut r = rig();
    r.cl_active = true;
    on_held_edge(&mut r, true, 10_000);
    let a = confirm_step(&mut r, false);
    assert_eq!(
        a,
        ConfirmAction::Discarded {
            confirms: 0,
            cl_active: true
        }
    );
    assert_eq!(r.cand_zc_us, u32::MAX);
    on_held_edge(&mut r, true, 11_000);
    let stale = 10_000u32;
    confirm_resolve(&mut r, stale, 0, false);
    assert_eq!(
        r.cand_zc_us,
        11_000,
        "fresh candidate destroyed by a stale discard"
    );
}

#[test]
fn gen_snapshot_current_on_happy_path() {
    let mut r = rig();
    r.cl_active = true;
    on_held_edge(&mut r, true, 10_000);
    match confirm_step(&mut r, true) {
        ConfirmAction::AcceptPending { zc_us, gen_snap } => {
            assert_eq!(zc_us, 10_000);
            assert!(accept_gen_current(&r, gen_snap));
        }
        other => panic!("unexpected {other:?}"),
    }
}

#[test]
fn regression_b1_toctou_close_plus_rearm_defeats_gen_guard() {
    let mut r = rig();
    r.cl_active = true;
    on_held_edge(&mut r, true, 10_000);
    let (stale_zc, stale_gen) = match confirm_step(&mut r, true) {
        ConfirmAction::AcceptPending { zc_us, gen_snap } => (zc_us, gen_snap),
        other => panic!("unexpected {other:?}"),
    };
    assert_eq!(stale_zc, 10_000);
    close_window(&mut r);
    assert_eq!(on_held_edge(&mut r, false, 10_640), HeldEdge::Armed);
    assert_eq!(
        r.cand_gen,
        r.window_gen,
        "precondition: a CAND_GEN re-check would pass here"
    );
    assert!(
        !accept_gen_current(&r, stale_gen),
        "stale candidate accepted across a window close"
    );
    assert_eq!(
        r.cand_zc_us,
        10_640,
        "fresh candidate must survive"
    );
}

#[test]
fn depth_consume_spares_a_candidate_replaced_under_us() {
    let mut r = rig();
    r.cl_active = true;
    on_held_edge(&mut r, true, 10_000);
    close_window(&mut r);
    on_held_edge(&mut r, true, 10_640);
    let stale = 10_000u32;
    assert_eq!(
        confirm_resolve(&mut r, stale, 0, true),
        ConfirmAction::Idle,
        "a stale consume must fail against the fresh candidate"
    );
    assert_eq!(r.cand_zc_us, 10_640);
}

#[test]
fn r2_stiff_average_is_unwalkable() {
    let mut r = rig();
    r.cl_active = true;
    r.cl_am32_geom = true;
    r.interval_us = 345;
    r.est_prev_period = 345;
    let mut zc = 10_000u32;
    for _ in 0..30 {
        zc += 345;
        r.window_qzc_us = u32::MAX;
        r.windows_since_qzc = 1;
        accept_publish(&mut r, 2, zc, 1_000).unwrap();
    }
    let avg_before = avg_interval_us(&r);
    assert!((330..=350).contains(&avg_before), "avg {avg_before}");
    zc += 240;
    r.window_qzc_us = u32::MAX;
    r.windows_since_qzc = 1;
    accept_publish(&mut r, 2, zc, 1_000).unwrap();
    let avg_after = avg_interval_us(&r);
    assert!(avg_after >= avg_before - 30, "avg collapsed: {avg_after}");
    let fast = r.interval_us;
    assert!(fast < avg_after, "fast {fast} avg {avg_after}");
}

#[test]
fn accept_publish_masks_estimates_and_engages() {
    let mut r = rig();
    r.cl_armed = true;
    r.windows_since_qzc = 1;
    let plan = accept_publish(&mut r, 2, 10_000, 1_000).unwrap();
    assert!(plan.engaged, "armed + A/B sector engages");
    assert!(plan.schedule);
    assert!(r.cl_active);
    assert!(!r.cl_armed);
    assert_eq!(r.window_qzc_us, 10_000);
    assert_eq!(r.cl_noz_run, 0, "NOZ run resets");
    assert_eq!(r.last_qzc_10us, 1_000);
    assert_eq!(plan.interval_us, 600);
    assert_eq!(accept_publish(&mut r, 2, 10_050, 1_001), None);
}

#[test]
fn accept_publish_c_windows_never_engage_and_reckon_without_swift() {
    for sec in [0u8, 3] {
        let mut r = rig();
        r.cl_armed = true;
        r.cl_active = true;
        let plan = accept_publish(&mut r, sec, 10_000, 1_000).unwrap();
        assert!(!plan.engaged, "sector {sec} engaged");
        assert!(!plan.schedule, "sector {sec} scheduled without SWIFT");
        assert!(r.cl_armed, "arm must survive");
    }
    let mut r = rig();
    r.cl_active = true;
    r.interval_us = 0;
    r.last_qzc_us = u32::MAX;
    let plan = accept_publish(&mut r, 2, 10_000, 1_000).unwrap();
    assert!(!plan.schedule);
}

#[test]
fn regression_invert2_c_windows_must_arm_when_rotor_clocked() {
    let mut r = rig();
    r.cl_active = true;
    r.cl_fast_path = true;
    r.interval_us = 450;
    r.window_qzc_us = u32::MAX;
    r.zc_clocked = false;
    assert_eq!(schedule_precheck(&r, 0), None);
    assert_eq!(schedule_precheck(&r, 3), None);
    r.zc_clocked = true;
    assert_eq!(schedule_precheck(&r, 0), Some(450));
    assert_eq!(schedule_precheck(&r, 3), Some(450));
    assert_eq!(schedule_precheck(&r, 1), Some(450));
}

#[test]
fn schedule_precheck_agrees_with_accept_publish() {
    for sector in [0u8, 1, 2, 3, 4, 5] {
        for &(active, armed, fast) in &[
            (false, false, false),
            (true, false, false),
            (false, true, false),
            (true, false, true),
            (false, true, true),
            (true, true, true),
        ] {
            for &iv in &[0u32, 110, 600] {
                let mut r = rig();
                r.cl_active = active;
                r.cl_armed = armed;
                r.cl_fast_path = fast;
                r.interval_us = iv;
                let pre = schedule_precheck(&r, sector);
                let plan = accept_publish(&mut r, sector, 10_000, 1_000).unwrap();
                assert_eq!(
                    pre.is_some(),
                    plan.schedule,
                    "mismatch: sec={sector} active={active} armed={armed} fast={fast} iv={iv}"
                );
                if let Some(p) = pre {
                    assert_eq!(p, iv, "precheck must return the PRE-update interval");
                }
            }
        }
    }
    let mut r = rig();
    r.cl_active = true;
    r.window_qzc_us = 9_000;
    assert!(schedule_precheck(&r, 2).is_none());
    assert!(accept_publish(&mut r, 2, 10_000, 1_000).is_none());
}

#[test]
fn regression_engage_lottery_seeding_accept_2026_07_15() {
    let mut r = rig();
    r.cl_armed = true;
    r.interval_us = 0;
    r.windows_since_qzc = 1;
    assert!(
        schedule_precheck(&r, 2).is_none(),
        "precheck must refuse the unseeded interval"
    );
    let plan = accept_publish(&mut r, 2, 10_000, 1_000).unwrap();
    assert!(plan.engaged, "the seeding A/B accept engages");
    assert!(plan.schedule, "and demands a schedule");
    assert_eq!(plan.interval_us, 600, "seeded by this very accept");
}

#[test]
fn accept_publish_c_windows_reschedule_only_swift_topend() {
    for sec in [0u8, 3] {
        let mut r = rig();
        r.cl_active = true;
        r.cl_fast_path = true;
        r.cl_armed = true;
        r.interval_us = 110;
        let plan = accept_publish(&mut r, sec, 10_000, 1_000).unwrap();
        assert!(!plan.engaged, "sector {sec} engaged under SWIFT");
        assert!(plan.schedule, "sector {sec} must re-time (SWIFT, top end)");
        assert!(r.cl_armed, "C must not consume arm");
    }
    for sec in [0u8, 3] {
        let mut r = rig();
        r.cl_active = true;
        r.cl_fast_path = true;
        let plan = accept_publish(&mut r, sec, 10_000, 1_000).unwrap();
        assert!(!plan.schedule, "sector {sec} must dead-reckon at mid speed");
    }
}

#[test]
fn vbus_decay_timescale_rides_through_no_rail_sectors() {
    let mut est = 1900u16;
    let mut cycles = 0u32;
    while est > (1900.0 / core::f32::consts::E) as u16 {
        est = vbus_decay_step(est, 0, 0);
        cycles += 1;
    }
    assert!((600..=800).contains(&cycles), "decay cycles = {cycles}");
    let mut est = 1900u16;
    for _ in 0..10 {
        est = vbus_decay_step(est, 0, 0);
    }
    assert!(est >= 1870);
}

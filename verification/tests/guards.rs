use minz_core::guards::{
    BURST_MAX_HOLD, BURST_OFF_RUN, BurstStep, IsrKillKind, Kill, KillFlags, RESEED_MAX_STRIKES,
    SAG_DEBOUNCE, SagGuard, TRIP_WINDOW_SHIFT, VBAT_ABS_FLOOR_RAW, WatchdogAction, ZOMBIE_RUN,
    apply_isr_kill, blind_amp_clamp, burst_amp_clamp, burst_step, cl_watchdog, cl_watchdog_r3,
    overcurrent, sag_step, sag_step_scaled, since_us, trip_accum_step, wait_amp_clamp, wait_cut_due,
    zombie_step,
};

#[test]
fn regression_zombie_field_2026_07_16() {
    let mut run = 0u16;
    let mut tripped_at = None;
    for n in 0..13_000u32 {
        let (r, trip) = zombie_step(run, true, 83, 8);
        run = r;
        if trip {
            tripped_at = Some(n);
            break;
        }
    }
    assert_eq!(tripped_at, Some(ZOMBIE_RUN as u32 - 1));
    let mut run = 0u16;
    for _ in 0..100_000 {
        let (r, trip) = zombie_step(run, true, 90, 70);
        run = r;
        assert!(!trip);
    }
    let mut run = 0u16;
    for _ in 0..100_000 {
        let (r, trip) = zombie_step(run, true, 600, 5);
        run = r;
        assert!(!trip);
    }
    let (r, _) = zombie_step(ZOMBIE_RUN - 1, true, 83, 70);
    assert_eq!(r, 0);
}

#[test]
fn burst_never_trips_on_benign_single_window_spikes() {
    let mut s = BurstStep {
        run: 0,
        cool: 0,
        hold: 0,
        active: false,
        kill: false,
    };
    for _ in 0..100 {
        for _ in 0..3 {
            s = burst_step(s.run, s.cool, s.hold, s.active, 300);
            assert!(!s.active && !s.kill);
        }
        for _ in 0..20 {
            s = burst_step(s.run, s.cool, s.hold, s.active, 60);
            assert!(!s.active && !s.kill);
        }
    }
}

#[test]
fn burst_trips_clamps_and_releases_on_decay() {
    let mut s = BurstStep {
        run: 0,
        cool: 0,
        hold: 0,
        active: false,
        kill: false,
    };
    for i in 0..8 {
        assert!(!s.active, "active early at cycle {i}");
        s = burst_step(s.run, s.cool, s.hold, s.active, 220);
    }
    assert!(s.active && !s.kill);
    assert_eq!(burst_amp_clamp(78, true), 52);
    assert_eq!(burst_amp_clamp(78, false), 78);
    for _ in 0..120 {
        s = burst_step(s.run, s.cool, s.hold, s.active, 200);
        assert!(s.active && !s.kill);
    }
    for _ in 0..(BURST_OFF_RUN - 1) {
        s = burst_step(s.run, s.cool, s.hold, s.active, 50);
        assert!(s.active);
    }
    s = burst_step(s.run, s.cool, s.hold, s.active, 50);
    assert!(!s.active && !s.kill);
}

#[test]
fn burst_release_hysteresis_needs_consecutive_cool() {
    let mut s = BurstStep {
        run: 0,
        cool: 0,
        hold: 0,
        active: false,
        kill: false,
    };
    for _ in 0..8 {
        s = burst_step(s.run, s.cool, s.hold, s.active, 220);
    }
    assert!(s.active);
    for _ in 0..200 {
        s = burst_step(s.run, s.cool, s.hold, s.active, 50);
        s = burst_step(s.run, s.cool, s.hold, s.active, 150);
        assert!(s.active, "released on non-consecutive cool");
    }
}

#[test]
fn burst_anti_burnout_kills_at_max_hold() {
    let mut s = BurstStep {
        run: 0,
        cool: 0,
        hold: 0,
        active: false,
        kill: false,
    };
    for _ in 0..8 {
        s = burst_step(s.run, s.cool, s.hold, s.active, 220);
    }
    assert!(s.active);
    let mut killed_at = None;
    for n in 0..BURST_MAX_HOLD + 10 {
        s = burst_step(s.run, s.cool, s.hold, s.active, 220);
        if s.kill {
            killed_at = Some(n);
            break;
        }
    }
    let n = killed_at.expect("must escalate to kill");
    assert!(
        n as u32 <= BURST_MAX_HOLD as u32,
        "kill within 40 ms, got {n}"
    );
}

#[test]
fn burst_clamp_only_ever_reduces() {
    for amp in 0..=96u16 {
        assert!(burst_amp_clamp(amp, true) <= amp.max(1));
        assert_eq!(burst_amp_clamp(amp, false), amp);
    }
}

#[test]
fn blind_amp_clamp_rides_isolated_misses_caps_cascade() {
    assert_eq!(blind_amp_clamp(30, 0), 30);
    assert_eq!(blind_amp_clamp(30, 2), 30);
    assert_eq!(blind_amp_clamp(30, 3), 20);
    assert_eq!(blind_amp_clamp(30, 5), 20);
    assert_eq!(blind_amp_clamp(30, 6), 10);
    assert_eq!(blind_amp_clamp(30, 20), 10);
    assert_eq!(blind_amp_clamp(1, 20), 1);
}

#[test]
fn regression_watchdog_underflow_race_v3x() {
    let now = 1_000_000u32;
    let last_newer = 1_000_002u32;
    assert_eq!(since_us(now, last_newer), 0);
}

#[test]
fn since_normal_and_wrap() {
    assert_eq!(since_us(1000, 900), 1000);
    assert_eq!(since_us(5, u32::MAX - 4), 100);
}

#[test]
fn starvation_fires_at_12_intervals() {
    let iv = 650;
    assert_eq!(cl_watchdog(iv, iv * 12, 0, true), None);
    assert_eq!(cl_watchdog(iv, iv * 12 + 1, 0, true), Some(Kill::ZcStarved));
}

#[test]
fn starvation_needs_a_reference() {
    assert_eq!(cl_watchdog(650, u32::MAX / 4, 0, false), None);
}

#[test]
fn r3_watchdog_reseeds_where_it_killed() {
    assert_eq!(
        cl_watchdog_r3(90, 6_100, 0, true, 0),
        WatchdogAction::Reseed(Kill::ZcStarved)
    );
    assert_eq!(
        cl_watchdog_r3(600, 0, 3_100 * 3, true, 1),
        WatchdogAction::Reseed(Kill::Desync)
    );
    assert_eq!(
        cl_watchdog_r3(90, 23_000, 0, true, 0),
        WatchdogAction::Kill(Kill::ZcStarved)
    );
    assert_eq!(cl_watchdog_r3(40, 0, 0, true, 0), WatchdogAction::Kill(Kill::Runaway));
    assert_eq!(
        cl_watchdog_r3(90, 6_100, 0, true, RESEED_MAX_STRIKES),
        WatchdogAction::Kill(Kill::ZcStarved)
    );
    assert_eq!(cl_watchdog_r3(90, 100, 100, true, 0), WatchdogAction::Nothing);
}

#[test]
fn regression_runaway_floor_regime_2026_07_10() {
    assert_eq!(cl_watchdog(158, 0, 0, true), None);
    assert_eq!(cl_watchdog(50, 0, 0, true), None);
    assert_eq!(cl_watchdog(44, 0, 0, true), Some(Kill::Runaway));
    assert_eq!(cl_watchdog(30, 0, 0, true), Some(Kill::Runaway));
}

#[test]
fn desync_fires_on_chain_silence() {
    assert_eq!(cl_watchdog(650, 0, 3001 * 3, true), Some(Kill::Desync));
    assert_eq!(cl_watchdog(650, 0, 2_500, true), None);
}

#[test]
fn no_interval_no_opinion() {
    assert_eq!(cl_watchdog(0, u32::MAX / 4, u32::MAX / 4, true), None);
}

#[test]
fn sag_baseline_relative_threshold() {
    let mut g = SagGuard::new();
    g.arm(1080);
    assert_eq!(g.threshold_raw(), 972);
}

#[test]
fn regression_single_glitch_no_trip_2026_07_11() {
    let mut g = SagGuard::new();
    g.arm(1080);
    assert!(!g.sample(700));
    assert!(!g.sample(1075));
    for _ in 0..1000 {
        assert!(!g.sample(1075));
    }
}

#[test]
fn sustained_sag_trips_and_latches_trip_value() {
    let mut g = SagGuard::new();
    g.arm(1080);
    let mut fired = false;
    for i in 0..SAG_DEBOUNCE {
        fired = g.sample(750 - i);
        if fired {
            break;
        }
    }
    assert!(fired);
    assert!(g.trip_raw < g.threshold_raw());
}

#[test]
fn abs_floor_governs_low_baselines() {
    let mut g = SagGuard::new();
    g.arm(820);
    assert_eq!(g.threshold_raw(), VBAT_ABS_FLOOR_RAW);
}

#[test]
fn debounce_resets_on_recovery() {
    let mut g = SagGuard::new();
    g.arm(1080);
    for _ in 0..SAG_DEBOUNCE - 1 {
        assert!(!g.sample(900));
    }
    assert!(!g.sample(1050));
    for _ in 0..SAG_DEBOUNCE - 1 {
        assert!(!g.sample(900));
    }
}



fn driving_cl() -> KillFlags {
    KillFlags {
        motor_enabled: true,
        cl_active: true,
        cl_armed: true,
        cl_desync: false,
        cl_starved: false,
        oc_tripped: false,
        vbat_sagged: false,
        bb_frozen: false,
        last_kill: 0,
    }
}

#[test]
fn regression_no_zombie_flags_after_any_kill_kind() {
    for kind in [
        IsrKillKind::Desync,
        IsrKillKind::Starved,
        IsrKillKind::Overcurrent,
        IsrKillKind::Sag,
    ] {
        let mut r = driving_cl();
        apply_isr_kill(&mut r, kind);
        assert!(!r.motor_enabled, "{kind:?}");
        assert!(!r.cl_active, "{kind:?} zombie CL_ACTIVE");
        assert!(!r.cl_armed, "{kind:?} zombie CL_ARMED");
    }
}

#[test]
fn kill_matrix_per_kind_reports() {
    let mut r = driving_cl();
    apply_isr_kill(&mut r, IsrKillKind::Starved);
    assert!(r.cl_desync && r.cl_starved);
    assert!(r.bb_frozen, "bb must freeze the lead-up");
    assert!(!r.oc_tripped && !r.vbat_sagged);

    let mut r = driving_cl();
    apply_isr_kill(&mut r, IsrKillKind::Desync);
    assert!(r.cl_desync && !r.cl_starved);
    assert!(r.bb_frozen);

    let mut r = driving_cl();
    apply_isr_kill(&mut r, IsrKillKind::Overcurrent);
    assert!(r.oc_tripped);
    assert!(!r.cl_desync && !r.bb_frozen);

    let mut r = driving_cl();
    apply_isr_kill(&mut r, IsrKillKind::Sag);
    assert!(r.vbat_sagged);
    assert!(!r.cl_desync && !r.bb_frozen);
}

#[test]
fn r4a_sag_step_scaled_matches_legacy_at_64_and_stretches_at_128() {
    let base = 1000u16;
    let sagged = 850u16;
    let mut run = 0u16;
    let mut tripped_at = 0u32;
    for i in 1..=200u32 {
        let (r, t) = sag_step_scaled(base, run, sagged, 64);
        run = r;
        if t {
            tripped_at = i;
            break;
        }
    }
    assert_eq!(tripped_at, 64);
    let mut run = 0u16;
    for _ in 0..100 {
        let (r, t) = sag_step_scaled(base, run, sagged, 128);
        assert!(!t);
        run = r;
    }
    let mut tripped_at = 100u32;
    loop {
        let (r, t) = sag_step_scaled(base, run, sagged, 128);
        run = r;
        tripped_at += 1;
        if t {
            break;
        }
    }
    assert_eq!(tripped_at, 128);
    let (r, _) = sag_step_scaled(base, 120, base, 128);
    assert_eq!(r, 0);
}

#[test]
fn wait_cut_fires_past_one_interval_only() {
    assert!(!wait_cut_due(105, 100));
    assert!(!wait_cut_due(112, 100));
    assert!(wait_cut_due(113, 100));
    assert!(!wait_cut_due(10_000, 0));
}

#[test]
fn wait_clamp_halves_then_quarters_with_wait_length() {
    assert_eq!(wait_amp_clamp(60, 200, 100), 60);
    assert_eq!(wait_amp_clamp(60, 300, 100), 30);
    assert_eq!(wait_amp_clamp(60, 501, 100), 15);
    assert_eq!(wait_amp_clamp(60, 10_000, 0), 60);
}

#[test]
fn sag_step_matches_sagguard_semantics() {
    let base = 1080;
    let mut run = 0;
    for _ in 0..SAG_DEBOUNCE - 1 {
        let (r, trip) = sag_step(base, run, 900);
        assert!(!trip);
        run = r;
    }
    let (_, trip) = sag_step(base, run, 900);
    assert!(trip, "64th consecutive sub-threshold sample kills");
    let (r, _) = sag_step(base, 50, 1075);
    assert_eq!(r, 0);
}

#[test]
fn trip_accum_windows_and_resets() {
    let mut acc = 0u32;
    let mut cnt = 0u32;
    let mut avg = None;
    for _ in 0..(1 << TRIP_WINDOW_SHIFT) {
        let (a, c, v) = trip_accum_step(acc, cnt, 100);
        acc = a;
        cnt = c;
        avg = v;
    }
    assert_eq!(avg, Some(100), "flat 100-count input averages to 100");
    assert_eq!((acc, cnt), (0, 0), "window resets");
    assert_eq!(trip_accum_step(0, 0, 4095).2, None);
}

#[test]
fn oc_open_loop_stall_guard() {
    assert!(!overcurrent(75, false));
    assert!(overcurrent(76, false));
}

#[test]
fn regression_cl_backstop_rides_the_knee() {
    let raw_2p7a = 101;
    let raw_4p2a = 157;
    assert!(!overcurrent(raw_2p7a, true));
    assert!(overcurrent(raw_4p2a, true));
}

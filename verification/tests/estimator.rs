use minz_core::estimator::{Estimator, Reject};

#[test]
fn am32_geometry_rule_verbatim() {
    let mut e = Estimator::new();
    e.am32_geom = true;
    e.interval_us = 100;
    e.prev_period_us = 90;
    e.last_qzc_us = Some(1000);
    e.windows_since_qzc = 1;
    let (iv, rej) = e.on_accept_traced(1110, true);
    assert_eq!(iv, 100);
    assert_eq!(rej, None);
    assert_eq!(e.prev_period_us, 110);
    e.last_qzc_us = Some(2000);
    e.windows_since_qzc = 1;
    let (iv2, rej2) = e.on_accept_traced(2400, true);
    assert_eq!(rej2, Some(Reject::RateBound));
    assert_eq!(iv2, 100);
    e.last_qzc_us = Some(3000);
    e.windows_since_qzc = 1;
    let (_, rej2b) = e.on_accept_traced(3140, true);
    assert_eq!(rej2b, None);
    e.prev_period_us = 140;
    e.reacq = true;
    e.last_qzc_us = Some(3000);
    e.windows_since_qzc = 1;
    let (_, rej3) = e.on_accept_traced(3150, true);
    assert_eq!(rej3, None);
    assert!(!e.reacq);
}

#[test]
fn am32_geometry_cancels_sector_alternation() {
    let mut e = Estimator::new();
    e.am32_geom = true;
    e.interval_us = 90;
    e.prev_period_us = 100;
    e.last_qzc_us = Some(0);
    let mut zc = 0u32;
    for i in 0..100 {
        let period = if i % 2 == 0 { 80 } else { 100 };
        zc += period;
        e.windows_since_qzc = 1;
        e.on_accept_traced(zc, true);
        assert_eq!(e.interval_us, 90, "ripple at step {i}");
    }
}

#[test]
fn regression_pwm_subharmonic_ratchet_2026_07_16() {
    let mut e = Estimator::new();
    e.am32_geom = true;
    e.interval_us = 305;
    e.prev_period_us = 305;
    e.last_qzc_us = Some(0);
    let mut zc = 0u32;
    for _ in 0..1000 {
        zc += 83;
        e.windows_since_qzc = 1;
        let (_, rej) = e.on_accept_traced(zc, true);
        assert_eq!(rej, Some(Reject::Harmonic));
        assert_eq!(e.interval_us, 305, "estimate walked toward the attractor");
    }
    e.last_qzc_us = Some(zc);
    e.windows_since_qzc = 1;
    let (_, rej) = e.on_accept_traced(zc + 214, true);
    assert_eq!(rej, None);
}

#[test]
fn am32_geometry_off_during_engage() {
    let mut e = Estimator::new();
    e.am32_geom = true;
    e.interval_us = 100;
    e.last_qzc_us = Some(1000);
    e.windows_since_qzc = 1;
    assert_eq!(e.on_accept_traced(1140, false).1, Some(Reject::RateBound));
}

#[test]
fn rejection_census_kinds_2026_07_16() {
    let mut e = Estimator::new();
    e.interval_us = 100;
    e.last_qzc_us = Some(1000);
    e.windows_since_qzc = 1;
    assert_eq!(e.on_accept_traced(1140, true).1, Some(Reject::RateBound));
    e.interval_us = 50;
    e.last_qzc_us = Some(2000);
    e.windows_since_qzc = 1;
    assert_eq!(e.on_accept_traced(2030, true).1, Some(Reject::Floor));
    e.interval_us = 100;
    e.last_qzc_us = Some(3000);
    e.windows_since_qzc = 1;
    assert_eq!(e.on_accept_traced(3110, true).1, None);
    e.reacq = true;
    e.interval_us = 100;
    e.last_qzc_us = Some(4000);
    e.windows_since_qzc = 2;
    assert_eq!(e.on_accept_traced(4200, true).1, Some(Reject::Reseed));
}

fn run_train(e: &mut Estimator, start_us: u32, period: u32, n: u32, cl: bool) -> u32 {
    let mut iv = e.interval_us;
    for k in 0..n {
        e.on_window_close();
        iv = e.on_accept(start_us + k * period, cl);
    }
    iv
}

#[test]
fn seeds_from_first_chain_delta() {
    let mut e = Estimator::new();
    run_train(&mut e, 0, 650, 3, false);
    assert_eq!(e.interval_us, 650);
}

#[test]
fn smooths_three_quarters() {
    let mut e = Estimator::new();
    run_train(&mut e, 0, 600, 5, false);
    let iv1 = e.interval_us;
    e.on_window_close();
    let iv2 = e.on_accept(4 * 600 + 700, false);
    assert!(iv2 > iv1 && iv2 < 700, "iv1={iv1} iv2={iv2}");
}

#[test]
fn regression_estimator_tracks_below_100us_2026_07_14() {
    let mut e = Estimator::new();
    run_train(&mut e, 0, 600, 3, false);
    let mut t = 3 * 600;
    let mut iv = e.interval_us;
    let mut period = 600u32;
    for _ in 0..80 {
        period = (period * 97 / 100).max(94);
        e.on_window_close();
        t += period;
        iv = e.on_accept(t, true);
    }
    for _ in 0..20 {
        e.on_window_close();
        t += 94;
        iv = e.on_accept(t, true);
    }
    assert!(
        (90..=96).contains(&iv),
        "estimator failed to track 94 µs (got {iv})"
    );
}

#[test]
fn regression_unseeded_cannot_seed_below_100us() {
    let mut e = Estimator::new();
    e.on_window_close();
    e.on_accept(10_000, false);
    e.on_window_close();
    let iv = e.on_accept(10_094, false);
    assert_eq!(iv, 0, "unseeded estimator seeded from sub-100 junk");
    let mut e = Estimator::new();
    e.on_window_close();
    e.on_accept(10_000, false);
    e.on_window_close();
    assert_eq!(e.on_accept(10_000 + 1_667, false), 1_667);
}

#[test]
fn regression_harmonic_lock_walkdown_blocked() {
    let mut e = Estimator::new();
    run_train(&mut e, 0, 650, 4, true);
    e.on_window_close();
    let iv = e.on_accept(4 * 650 + 325, true);
    assert_eq!(iv, 650, "junk half-period accepted");
}

#[test]
fn regression_aliased_growth_blocked() {
    let mut e = Estimator::new();
    run_train(&mut e, 0, 351, 4, true);
    e.on_window_close();
    let iv = e.on_accept(4 * 351 + 527, true);
    assert_eq!(iv, 351);
}

#[test]
fn regression_poisoned_interval_unrecoverable_then_reset() {
    let mut e = Estimator::new();
    run_train(&mut e, 0, 144, 3, false);
    assert_eq!(e.interval_us, 144);
    let iv = run_train(&mut e, 10_000, 1_667, 8, false);
    assert_eq!(iv, 144, "poison should be sticky without reset");
    e.reset_for_arm();
    let iv = run_train(&mut e, 50_000, 1_667, 3, false);
    assert_eq!(iv, 1_667);
}

#[test]
fn span_division_bridges_missed_windows() {
    let mut e = Estimator::new();
    run_train(&mut e, 0, 600, 3, false);
    e.on_window_close();
    e.on_window_close();
    let iv = e.on_accept(3 * 600 + 1_200, false);
    assert_eq!(iv, 600);
}

#[test]
fn chain_breaks_beyond_span_max() {
    let mut e = Estimator::new();
    run_train(&mut e, 0, 600, 3, false);
    for _ in 0..5 {
        e.on_window_close();
    }
    let iv = e.on_accept(99_999, false);
    assert_eq!(iv, 600);
    assert_eq!(e.last_qzc_us, Some(99_999));
}

#[test]
fn regression_reacq_reseed_bounded_2026_07_09() {
    let mut e = Estimator::new();
    run_train(&mut e, 0, 527, 4, true);
    e.enter_reacq();
    assert_eq!(e.last_qzc_us, None, "chain must break on entry");
    e.on_window_close();
    e.on_accept(10_000, true);
    assert!(e.reacq);
    e.on_window_close();
    e.on_accept(10_162, true);
    assert!(e.reacq, "aliased re-seed accepted");
    assert_eq!(e.interval_us, 527);
    e.on_window_close();
    let iv = e.on_accept(10_162 + 351, true);
    assert_eq!(iv, 351);
    assert!(!e.reacq);
}

#[test]
fn reacq_reseed_requires_cl() {
    let mut e = Estimator::new();
    run_train(&mut e, 0, 527, 4, false);
    e.enter_reacq();
    e.on_window_close();
    e.on_accept(20_000, false);
    e.on_window_close();
    e.on_accept(20_351, false);
    assert!(e.reacq, "open-loop accept must not clear reacq");
}

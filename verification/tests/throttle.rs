use minz_core::throttle::{SAG_HOLD_FLOOR_RAW, STEP_TICKS, Slew, step_sag_aware, step_ticks_for};

fn run_ticks(s: &mut Slew, from: u32, n: u32) -> u32 {
    for t in from..from + n {
        s.tick(t);
    }
    from + n
}

#[test]
fn steps_one_percent_per_step_ticks() {
    let mut s = Slew::new(15);
    s.set_target(18);
    run_ticks(&mut s, 1, STEP_TICKS * 3 + 10);
    assert_eq!(s.applied, 18);
}

#[test]
fn slews_down_too() {
    let mut s = Slew::new(50);
    s.set_target(47);
    run_ticks(&mut s, 1, STEP_TICKS * 5);
    assert_eq!(s.applied, 47);
}

#[test]
fn no_overshoot_or_oscillation() {
    let mut s = Slew::new(20);
    s.set_target(22);
    run_ticks(&mut s, 0, STEP_TICKS * 50);
    assert_eq!(s.applied, 22);
}

#[test]
fn regression_snap_on_arm_2026_07_11() {
    let mut s = Slew::new(15);
    s.set_target(50);
    run_ticks(&mut s, 0, STEP_TICKS * 40);
    assert_eq!(s.applied, 50);
    s.snap(15);
    assert_eq!(s.applied, 15);
    assert_eq!(s.target, 15);
}

#[test]
fn duty_scaled_cadence_slows_at_the_top() {
    assert_eq!(step_ticks_for(15), STEP_TICKS);
    assert_eq!(step_ticks_for(69), STEP_TICKS);
    assert_eq!(step_ticks_for(70), STEP_TICKS * 2);
    assert_eq!(step_ticks_for(84), STEP_TICKS * 2);
    assert_eq!(step_ticks_for(85), STEP_TICKS * 3);
    assert_eq!(step_ticks_for(96), STEP_TICKS * 3);
}

#[test]
fn sag_hold_pauses_up_allows_down() {
    assert_eq!(step_sag_aware(50, 60, SAG_HOLD_FLOOR_RAW - 1), 50);
    assert_eq!(step_sag_aware(50, 40, SAG_HOLD_FLOOR_RAW - 1), 49);
    assert_eq!(step_sag_aware(50, 60, SAG_HOLD_FLOOR_RAW + 10), 51);
}

#[test]
fn mid_slew_retarget_converges() {
    let mut s = Slew::new(15);
    s.set_target(30);
    run_ticks(&mut s, 0, STEP_TICKS * 5);
    assert!(s.applied > 15 && s.applied < 30);
    s.set_target(10);
    run_ticks(&mut s, STEP_TICKS * 5, STEP_TICKS * 30);
    assert_eq!(s.applied, 10);
}

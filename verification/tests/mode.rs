use minz_core::mode::{Cmd, Mirror, ModeState, Msg, step};

fn rig() -> ModeState {
    ModeState {
        motor_enabled: false,
        cl_active: false,
        cl_armed: false,
        cl_reacq: false,
        cl_noz_run: 0,
        interval_us: 0,
        avg_interval_acc: 0,
        last_qzc_us: u32::MAX,
        windows_since_qzc: 0,
        amplitude_pct: 15,
        amp_target_pct: 15,
        vbat_baseline_raw: 0,
        vbat_live: 1080,
    }
}

fn idle_mirror() -> Mirror {
    Mirror {
        output_enabled: false,
        six_step: true,
        hz: 0,
        amp_pct: 15,
    }
}

const ARM: Cmd = Cmd::Arm {
    hz: 60,
    amp_pct: 15,
};

#[test]
fn arm_snaps_baselines_and_enables() {
    let mut r = rig();
    let mut mir = idle_mirror();
    r.amplitude_pct = 50;
    r.amp_target_pct = 50;
    let a = step(&mut r, &mut mir, ARM);
    assert!(a.arm_output);
    assert_eq!(a.exti, Some(true));
    assert_eq!(a.msg, Msg::Armed);
    assert!(mir.output_enabled);
    assert!(r.motor_enabled);
    assert_eq!(r.amplitude_pct, 15);
    assert_eq!(r.amp_target_pct, 15);
    assert_eq!(r.vbat_baseline_raw, 1080);
}

#[test]
fn arm_while_running_retunes_without_rearming() {
    let mut r = rig();
    let mut mir = idle_mirror();
    step(&mut r, &mut mir, ARM);
    let a = step(
        &mut r,
        &mut mir,
        Cmd::Arm {
            hz: 50,
            amp_pct: 15,
        },
    );
    assert!(!a.arm_output, "already armed: no double arm_output");
    assert_eq!(a.exti, None, "no EXTI churn while running");
    assert_eq!(mir.hz, 50);
}

#[test]
fn kill_is_unconditional_and_idempotent() {
    let mut r = rig();
    let mut mir = idle_mirror();
    r.motor_enabled = true;
    r.cl_active = true;
    r.cl_armed = true;
    let a = step(&mut r, &mut mir, Cmd::Kill);
    assert!(a.all_off);
    assert_eq!(a.exti, Some(false));
    assert!(!r.motor_enabled);
    assert!(!r.cl_active, "zombie CL_ACTIVE");
    assert!(!r.cl_armed, "zombie CL_ARMED");
    let a = step(&mut r, &mut mir, Cmd::Kill);
    assert!(a.all_off);
    assert_eq!(a.msg, Msg::Silent);
}

#[test]
fn regression_cl_arm_resets_poisoned_estimator() {
    let mut r = rig();
    let mut mir = idle_mirror();
    step(&mut r, &mut mir, ARM);
    r.interval_us = 144;
    r.last_qzc_us = 12345;
    r.windows_since_qzc = 7;
    r.cl_reacq = true;
    r.cl_noz_run = 2;
    let a = step(&mut r, &mut mir, Cmd::ClToggle);
    assert_eq!(a.msg, Msg::ClArmed);
    assert!(r.cl_armed);
    assert_eq!(r.interval_us, 0);
    assert_eq!(r.last_qzc_us, u32::MAX);
    assert_eq!(r.windows_since_qzc, 0);
    assert!(!r.cl_reacq);
    assert_eq!(r.cl_noz_run, 0);
}

#[test]
fn cl_toggle_gating_matrix() {
    let mut r = rig();
    let mut mir = idle_mirror();
    assert_eq!(
        step(&mut r, &mut mir, Cmd::ClToggle).msg,
        Msg::ClNeedsDrive
    );
    step(&mut r, &mut mir, ARM);
    mir.six_step = false;
    assert_eq!(
        step(&mut r, &mut mir, Cmd::ClToggle).msg,
        Msg::ClNeedsDrive
    );
    mir.six_step = true;
    r.cl_active = true;
    let a = step(&mut r, &mut mir, Cmd::ClToggle);
    assert_eq!(a.msg, Msg::ClOffKilled);
    assert!(a.all_off);
    assert!(!mir.output_enabled);
}

#[test]
fn regression_b4_mode_toggle_blocked_while_cl_armed() {
    let mut r = rig();
    let mut mir = idle_mirror();
    step(&mut r, &mut mir, ARM);
    step(&mut r, &mut mir, Cmd::ClToggle);
    let a = step(&mut r, &mut mir, Cmd::ModeToggle);
    assert_eq!(a.msg, Msg::ClBlocked);
    assert!(mir.six_step, "mode unchanged");
    step(&mut r, &mut mir, Cmd::Kill);
    assert_eq!(
        step(&mut r, &mut mir, Cmd::ModeToggle).msg,
        Msg::ModeToggled
    );
    assert!(!mir.six_step);
}

#[test]
fn arm_blocked_while_cl_active() {
    let mut r = rig();
    let mut mir = idle_mirror();
    r.cl_active = true;
    let a = step(&mut r, &mut mir, ARM);
    assert_eq!(a.msg, Msg::ClBlocked);
    assert!(!a.arm_output);
    assert!(!mir.output_enabled);
}

#[test]
fn property_mirror_never_diverges_from_motor_enabled() {
    let mut r = rig();
    let mut mir = idle_mirror();
    let cmds = [
        ARM,
        Cmd::ClToggle,
        Cmd::ModeToggle,
        Cmd::Kill,
        Cmd::ModeToggle,
        Cmd::ClToggle,
        ARM,
        ARM,
        Cmd::ClToggle,
        Cmd::Kill,
        Cmd::Kill,
        ARM,
    ];
    for (i, c) in cmds.iter().enumerate() {
        if r.cl_armed && i % 2 == 0 {
            r.cl_armed = false;
            r.cl_active = true;
        }
        step(&mut r, &mut mir, *c);
        assert_eq!(
            mir.output_enabled,
            r.motor_enabled,
            "diverged after cmd {i}: {c:?}"
        );
    }
}

#[test]
fn exti_only_enabled_when_transitioning_to_driving() {
    let mut r = rig();
    let mut mir = idle_mirror();
    for cmd in [Cmd::ClToggle, Cmd::ModeToggle, Cmd::Kill] {
        let a = step(&mut r, &mut mir, cmd);
        assert_ne!(a.exti, Some(true), "{cmd:?} enabled EXTI while dead");
    }
    assert_eq!(step(&mut r, &mut mir, ARM).exti, Some(true));
    assert_eq!(step(&mut r, &mut mir, ARM).exti, None);
}

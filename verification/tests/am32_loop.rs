use minz_core::am32_loop::{
    Bench, DELAY_BUMP_CYC, DELAY_CAP_CYC, DUTY_FULL, Drive, Duty, LOW_RPM_THROTTLE_LIMIT,
    MIN_STARTUP_DUTY, STARTUP_MAX_DUTY_CYCLE, Sched, TARGET_MIN_BEMF_COUNTS, UART_DEADMAN_LIMIT,
    apply_uart_cmd, bemf_timeout_resets, duty_ramp, filter_and_duty_max, min_bemf_schedule,
    set_input_clamp, store_average_interval, uart_deadman_tick,
};
use minz_core::am32::UartCmd;

#[test]
fn min_bemf_schedule_doubles_below_five_zcs() {
    let mut drive = Drive::default();
    drive.zero_crosses = 4;
    min_bemf_schedule(&mut drive);
    assert_eq!(drive.min_bemf_up, TARGET_MIN_BEMF_COUNTS * 2);
    assert_eq!(drive.min_bemf_down, TARGET_MIN_BEMF_COUNTS * 2);
    drive.zero_crosses = 5;
    min_bemf_schedule(&mut drive);
    assert_eq!(drive.min_bemf_up, TARGET_MIN_BEMF_COUNTS);
    assert_eq!(drive.min_bemf_down, TARGET_MIN_BEMF_COUNTS);
}

#[test]
fn store_average_interval_thirds_and_zeroes_nonpositive() {
    let mut sched = Sched::default();
    assert_eq!(store_average_interval(&mut sched, 900), 300);
    assert_eq!(sched.average_interval, 300);
    assert_eq!(store_average_interval(&mut sched, 0), 0);
    assert_eq!(store_average_interval(&mut sched, -6), 0);
    assert_eq!(sched.average_interval, 0);
}

#[test]
fn filter_and_duty_max_returns_loads_and_maps_filter() {
    let mut sched = Sched::default();
    let mut drive = Drive::default();
    let mut duty = Duty::default();

    drive.running = true;
    drive.zero_crosses = 50;
    sched.commutation_interval = 600;
    let (running, zc) = filter_and_duty_max(&sched, &mut drive, &mut duty, 100, 300);
    assert!(running);
    assert_eq!(zc, 50);
    assert_eq!(drive.filter_level, 12);
    assert_eq!(
        duty.duty_cycle_maximum,
        minz_core::am32::low_rpm_duty_ceiling(100, true, LOW_RPM_THROTTLE_LIMIT)
    );

    sched.commutation_interval = 40;
    filter_and_duty_max(&sched, &mut drive, &mut duty, 100, 300);
    assert_eq!(drive.filter_level, 2);

    drive.zero_crosses = 200;
    sched.commutation_interval = 600;
    let (_, zc) = filter_and_duty_max(&sched, &mut drive, &mut duty, 100, 300);
    assert_eq!(zc, 200);
    assert_eq!(
        drive.filter_level as i32,
        minz_core::am32::map(300, 100, 500, 3, 12)
    );
}

#[test]
fn bemf_timeout_resets_on_conditions_only() {
    let mut drive = Drive::default();
    let mut duty = Duty::default();

    drive.bemf_timeout_happened = 7;
    duty.adjusted_input = 500;
    bemf_timeout_resets(&mut drive, &duty, 500);
    assert_eq!(drive.bemf_timeout_happened, 7);

    bemf_timeout_resets(&mut drive, &duty, 1001);
    assert_eq!(drive.bemf_timeout_happened, 0);

    drive.bemf_timeout_happened = 7;
    duty.adjusted_input = 0;
    bemf_timeout_resets(&mut drive, &duty, 50);
    assert_eq!(drive.bemf_timeout_happened, 0);

    drive.bemf_timeout_happened = 7;
    duty.adjusted_input = 199;
    bemf_timeout_resets(&mut drive, &duty, 150);
    assert_eq!(drive.bemf_timeout_happened, 0);
}

#[test]
fn set_input_clamp_startup_window_and_max_cap() {
    let mut drive = Drive::default();
    let mut duty = Duty::default();
    duty.duty_cycle_maximum = DUTY_FULL;

    drive.zero_crosses = 0;
    set_input_clamp(&drive, &mut duty, 100);
    assert_eq!(duty.duty_cycle_setpoint, MIN_STARTUP_DUTY);

    set_input_clamp(&drive, &mut duty, 2047);
    assert_eq!(
        duty.duty_cycle_setpoint,
        STARTUP_MAX_DUTY_CYCLE
    );

    drive.zero_crosses = 100;
    duty.duty_cycle_maximum = 300;
    set_input_clamp(&drive, &mut duty, 2047);
    assert_eq!(duty.duty_cycle_setpoint, 300);

    duty.duty_cycle_maximum = DUTY_FULL;
    set_input_clamp(&drive, &mut duty, 0);
    assert_eq!(duty.duty_cycle_setpoint, 0);
}

#[test]
fn uart_deadman_latches_at_limit_and_zeroes_throttle() {
    let mut duty = Duty::default();
    let mut bench = Bench::default();

    duty.uart_duty_input = 999;
    duty.adjusted_input = 999;
    uart_deadman_tick(&mut duty, &mut bench);
    assert_eq!(bench.uart_deadman_ticks, 1);
    assert_eq!(duty.uart_duty_input, 999);

    bench.uart_deadman_ticks = UART_DEADMAN_LIMIT;
    uart_deadman_tick(&mut duty, &mut bench);
    assert_eq!(bench.uart_deadman_ticks, UART_DEADMAN_LIMIT + 1);
    assert_eq!(duty.uart_duty_input, 0);
    assert_eq!(duty.adjusted_input, 0);

    uart_deadman_tick(&mut duty, &mut bench);
    assert_eq!(bench.uart_deadman_ticks, UART_DEADMAN_LIMIT + 1);
}

#[test]
fn duty_ramp_stores_and_returns_duty_cycle() {
    let sched = Sched::default();
    let mut drive = Drive::default();
    let mut duty = Duty::default();

    drive.zero_crosses = 0;
    duty.last_duty_cycle = 100;
    let v = duty_ramp(&sched, &drive, &mut duty, 200);
    assert_eq!(v, 102);
    assert_eq!(duty.duty_cycle, 102);
    assert_eq!(duty.ramp_count, 1);
    assert_eq!(duty.last_duty_cycle, 100);
}

#[test]
fn apply_uart_cmd_per_variant() {
    let mut duty = Duty::default();
    let mut bench = Bench::default();

    duty.uart_duty_input = 555;
    duty.adjusted_input = 555;
    bench.uart_deadman_ticks = 10;
    apply_uart_cmd(&mut duty, &mut bench, Some(UartCmd::Stop));
    assert_eq!(duty.uart_duty_input, 0);
    assert_eq!(duty.adjusted_input, 0);
    assert_eq!(bench.uart_deadman_ticks, 0);
    assert!(bench.stop_req);

    bench.uart_deadman_ticks = 10;
    apply_uart_cmd(&mut duty, &mut bench, Some(UartCmd::SetThrottle(48)));
    assert_eq!(duty.uart_duty_input, 48);
    assert_eq!(duty.adjusted_input, 0);
    assert_eq!(bench.uart_deadman_ticks, 0);
    apply_uart_cmd(&mut duty, &mut bench, Some(UartCmd::SetThrottle(1047)));
    assert_eq!(duty.uart_duty_input, 1047);
    assert_eq!(duty.adjusted_input, 1047);

    assert!(!bench.zct_stream_on);
    apply_uart_cmd(&mut duty, &mut bench, Some(UartCmd::TraceToggle));
    assert!(bench.zct_stream_on);
    apply_uart_cmd(&mut duty, &mut bench, Some(UartCmd::TraceToggle));
    assert!(!bench.zct_stream_on);

    apply_uart_cmd(&mut duty, &mut bench, Some(UartCmd::Info));
    assert!(bench.info_req);
    apply_uart_cmd(&mut duty, &mut bench, Some(UartCmd::BbDump));
    assert!(bench.dump_req);
    apply_uart_cmd(&mut duty, &mut bench, Some(UartCmd::GeckoDump));
    assert!(bench.gecko_req);
    apply_uart_cmd(&mut duty, &mut bench, Some(UartCmd::WaxDump));
    assert!(bench.wax_req);
    apply_uart_cmd(&mut duty, &mut bench, Some(UartCmd::HistDump));
    assert!(bench.hist_req);

    bench.stop_req = false;
    apply_uart_cmd(&mut duty, &mut bench, None);
    assert!(!bench.stop_req);
    assert_eq!(duty.uart_duty_input, 1047);
}

#[test]
fn apply_uart_cmd_delay_bumps_and_clamps() {
    let mut duty = Duty::default();
    let mut bench = Bench::default();

    assert_eq!(bench.delay_in_free, 0);
    assert_eq!(bench.delay_out_free, 0);

    apply_uart_cmd(&mut duty, &mut bench, Some(UartCmd::DelayInFreeUp));
    assert_eq!(bench.delay_in_free, DELAY_BUMP_CYC);
    apply_uart_cmd(&mut duty, &mut bench, Some(UartCmd::DelayInFreeUp));
    assert_eq!(bench.delay_in_free, 2 * DELAY_BUMP_CYC);
    assert_eq!(bench.delay_out_free, 0);

    for _ in 0..10 {
        apply_uart_cmd(&mut duty, &mut bench, Some(UartCmd::DelayInFreeDown));
    }
    assert_eq!(bench.delay_in_free, 0);

    apply_uart_cmd(&mut duty, &mut bench, Some(UartCmd::DelayOutFreeUp));
    assert_eq!(bench.delay_out_free, DELAY_BUMP_CYC);
    assert_eq!(bench.delay_in_free, 0);
    for _ in 0..1000 {
        apply_uart_cmd(&mut duty, &mut bench, Some(UartCmd::DelayOutFreeUp));
    }
    assert_eq!(bench.delay_out_free, DELAY_CAP_CYC);
    apply_uart_cmd(&mut duty, &mut bench, Some(UartCmd::DelayOutFreeDown));
    assert_eq!(bench.delay_out_free, DELAY_CAP_CYC - DELAY_BUMP_CYC);
}

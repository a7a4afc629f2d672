use std::cell::{Cell, RefCell};

use minz_core::am32_control::{
    bemf_timeout_rekick, commutate, desync_check_band, get_bemf_state, honor_stop, safety_kill,
    set_input, set_input_arming, start_motor, variable_pwm_ride, zcfoundroutine, zcfr_blend,
    zcfr_spin_wait,
};
use minz_core::am32_hal::{
    ComTimer, ComTimerExt, CompExti, Comparator, Cs, Guarded, InjAdc, IntervalTimer, LoopTimer,
    Motor, MotorHal, Observer, PhaseOutput, PwmOutput, Recorder,
};
use minz_core::am32_isr::{
    OC_KILL_RAW_AVG, OC_WINDOW_TICKS, adc_harvest_and_safety, comp_isr, duty_apply,
    interrupt_routine, polling_bemf_check, tim1_up_tim16_isr, tim6_dacunder_isr,
};
use minz_core::am32_loop::{
    BAD_COUNT_THRESHOLD, BEMF_TIMEOUT_TICKS, Bench, DUTY_FULL, Drive, Duty, INIT_INTERVAL_TICKS,
    MIN_STARTUP_DUTY, POLLING_MODE_CHANGEOVER, STARTUP_INTERVAL_TICKS, STARTUP_MAX_DUTY_CYCLE,
    Sched, TEMP_ADVANCE,
};
use minz_core::am32::{ZctRing, ZCT_REC};
use minz_core::blackbox::{EV_ACC, EV_DSY, EV_REF};
use minz_core::guards::VBAT_ABS_FLOOR_RAW;
use minz_core::zct_trace::ZctTrace;

#[derive(Default)]
struct MockHal {
    calls: RefCell<Vec<&'static str>>,
    roles: RefCell<Vec<u8>>,
    steps: RefCell<Vec<(u8, bool)>>,
    carrier_arrs: RefCell<Vec<u16>>,
    duties: RefCell<Vec<u16>>,
    com_arrs: RefCell<Vec<u16>>,
    events: RefCell<Vec<(u8, u8, u16)>>,
    frozen: Cell<bool>,
    comp_value: Cell<bool>,
    comp_seq: RefCell<Vec<bool>>,
    pending: Cell<bool>,
    inj: Cell<(u16, u16, u16, u16)>,
    interval: Cell<u32>,
    interval_step: Cell<u32>,
    sections: Cell<i32>,
}

type MockMotor<'a> = Motor<&'a MockHal, &'a MockHal, &'a MockHal, &'a MockHal, &'a MockHal>;
type MockObserver<'a> = Observer<&'a MockHal, &'a MockHal, &'a MockHal, &'a MockHal>;

impl MockHal {
    fn new() -> Self {
        Self::default()
    }
    fn motor(&self) -> MockMotor<'_> {
        Motor::new(self, self, self, self, self)
    }
    fn observer(&self) -> MockObserver<'_> {
        Observer { bb: self, cs: self, adc: self, lt: self }
    }
    fn called(&self, name: &'static str) -> bool {
        self.calls.borrow().iter().any(|c| *c == name)
    }
    fn clear_calls(&self) {
        self.calls.borrow_mut().clear();
    }
    fn log(&self, name: &'static str) {
        self.calls.borrow_mut().push(name);
    }
}

impl PwmOutput for &MockHal {
    fn set_duty_all(&mut self, duty: u16) {
        self.log("set_duty_all");
        self.duties.borrow_mut().push(duty);
    }
    fn set_auto_reload(&mut self, arr: u16) {
        self.log("set_auto_reload");
        self.carrier_arrs.borrow_mut().push(arr);
    }
    fn set_prescaler(&mut self, _psc: u16) {
        self.log("set_prescaler");
    }
    fn set_compare1(&mut self, _val: u16) {
        self.log("set_compare1");
    }
    fn set_compare2(&mut self, _val: u16) {
        self.log("set_compare2");
    }
    fn set_compare3(&mut self, _val: u16) {
        self.log("set_compare3");
    }
    fn generate_update_event(&mut self) {
        self.log("generate_update_event");
    }
    fn set_dead_time_override(&mut self, _dtg: u16) {
        self.log("set_dead_time_override");
    }
}

impl PhaseOutput for &MockHal {
    fn com_step(&mut self, step: u8) {
        self.log("com_step");
        self.roles.borrow_mut().push(step);
    }
    fn all_off(&mut self) {
        self.log("all_off");
    }
    fn full_brake(&mut self) {
        self.log("full_brake");
    }
    fn all_pwm(&mut self) {
        self.log("all_pwm");
    }
    fn proportional_brake(&mut self) {
        self.log("proportional_brake");
    }
}

impl Comparator for &MockHal {
    fn output_level(&mut self) -> bool {
        let mut seq = self.comp_seq.borrow_mut();
        if seq.is_empty() { self.comp_value.get() } else { seq.remove(0) }
    }
    fn set_step(&mut self, step: u8, rising: bool) {
        self.log("set_step");
        self.steps.borrow_mut().push((step, rising));
    }
    fn change_input(&mut self) {
        self.log("change_input");
    }
    fn enable_interrupts(&mut self) {
        self.log("enable_interrupts");
    }
    fn mask_interrupts(&mut self) {
        self.log("mask_interrupts");
    }
}

impl CompExti for &MockHal {
    fn exti_pending(&mut self) -> bool {
        self.pending.get()
    }
    fn clear_pending(&mut self) {
        self.log("clear_pending");
        self.pending.set(false);
    }
}

impl IntervalTimer for &MockHal {
    fn count(&mut self) -> u32 {
        let v = self.interval.get();
        self.interval.set(v + self.interval_step.get());
        v
    }
    fn set_count(&mut self, val: u32) {
        self.log("set_interval_cnt");
        self.interval.set(val);
    }
}

impl ComTimer for &MockHal {
    fn set_and_enable(&mut self, timeout: u16) {
        self.log("set_and_enable_com_int");
        self.com_arrs.borrow_mut().push(timeout);
    }
    fn disable_interrupt(&mut self) {
        self.log("disable_com_timer_int");
    }
    fn enable_interrupt(&mut self) {
        self.log("enable_com_timer_int");
    }
}

impl ComTimerExt for &MockHal {
    fn com_set_arr(&mut self, arr: u16) {
        self.log("com_set_arr");
        self.com_arrs.borrow_mut().push(arr);
    }
    fn com_clear_flag(&mut self) {
        self.log("com_clear_flag");
    }
}

impl Recorder for &MockHal {
    fn record(&mut self, ty: u8, sector: u8, data: u16) {
        self.events.borrow_mut().push((ty, sector, data));
    }
    fn freeze(&mut self) {
        self.frozen.set(true);
    }
}

impl Cs for &MockHal {
    fn enter<G: Guarded>(&mut self, _guarded: &G) {
        self.sections.set(self.sections.get() + 1);
    }
    fn leave<G: Guarded>(&mut self, _guarded: &G) {
        self.sections.set(self.sections.get() - 1);
    }
}

impl InjAdc for &MockHal {
    fn inj_read(&mut self) -> (u16, u16, u16, u16) {
        self.inj.get()
    }
}

impl LoopTimer for &MockHal {
    fn clear_flag(&mut self) {
        self.log("tim6_clear_flag");
    }
}

fn trace() -> ZctTrace<8> {
    ZctTrace {
        ring: ZctRing { ring: [[0u8; ZCT_REC]; 8], head: 0, tail: 0, drop: 0 },
        comm_n: 0,
        batching: false,
    }
}

fn records(z: &ZctTrace<8>) -> usize {
    (z.ring.head + 8 - z.ring.tail) % 8
}

#[test]
fn commutate_wraps_step_and_flags_desync_check() {
    let m = MockHal::new();
    let mut sched = Sched::default();
    let mut drive = Drive::default();
    let mut hal = m.motor();
    let mut obs = m.observer();
    drive.current_step = 6;
    sched.commutation_interval = 746;
    commutate(&mut sched, &mut drive, &mut hal, &mut obs);
    assert_eq!(drive.current_step, 1);
    assert!(drive.desync_check);
    assert!(drive.rising);
    assert_eq!(*m.roles.borrow(), [1]);
    assert_eq!(*m.steps.borrow(), [(1u8, true)]);
    assert_eq!(
        m.calls.borrow().iter().position(|c| *c == "set_step").unwrap() + 1,
        m.calls.borrow().iter().position(|c| *c == "change_input").unwrap()
    );
    assert_eq!(drive.bemf_counter, 0);
    assert!(!drive.zcfound);
    assert_eq!(sched.interval_hist[0], 746);
    assert_eq!(*m.events.borrow(), [(EV_REF, 0, 746)]);
}

#[test]
fn commutate_no_wrap_even_step_and_polling_fallback() {
    let m = MockHal::new();
    let mut sched = Sched::default();
    let mut drive = Drive::default();
    let mut hal = m.motor();
    let mut obs = m.observer();
    drive.current_step = 1;
    commutate(&mut sched, &mut drive, &mut hal, &mut obs);
    assert_eq!(drive.current_step, 2);
    assert!(!drive.desync_check);
    assert!(!drive.rising);
    assert_eq!(m.steps.borrow()[0], (2u8, false));
    assert!(!drive.old_routine);
    sched.average_interval = POLLING_MODE_CHANGEOVER + 501;
    commutate(&mut sched, &mut drive, &mut hal, &mut obs);
    assert!(drive.old_routine);
    drive.old_routine = false;
    sched.average_interval = POLLING_MODE_CHANGEOVER + 500;
    commutate(&mut sched, &mut drive, &mut hal, &mut obs);
    assert!(!drive.old_routine);
}

#[test]
fn zcfr_blend_matches_polling_blend_and_stores_wait() {
    let m = MockHal::new();
    let mut sched = Sched::default();
    let mut hal = m.motor();
    m.interval.set(700);
    sched.commutation_interval = 746;
    let (ci, wait) = zcfr_blend(&mut sched, &mut hal);
    assert_eq!(ci, minz_core::am32::polling_blend(700, 746));
    assert_eq!(sched.commutation_interval, ci);
    assert_eq!(sched.this_zc, 700);
    assert!(m.called("set_interval_cnt"));
    assert_eq!(m.interval.get(), 0);
    let advance = minz_core::am32::advance_of(ci, TEMP_ADVANCE);
    assert_eq!(wait, minz_core::am32::wait_time(ci, advance));
    assert_eq!(sched.wait_time, wait as u16);
}

#[test]
fn zcfr_spin_wait_breaks_on_cnt_reaching_wait() {
    let m = MockHal::new();
    let mut drive = Drive::default();
    let mut hal = m.motor();
    m.interval.set(0);
    m.interval_step.set(100);
    zcfr_spin_wait(&mut drive, 5, 250, &mut hal);
    assert_eq!(m.interval.get(), 400);
    assert_eq!(drive.zcfr_guard_hits, 0);
}

#[test]
fn zcfr_spin_wait_breaks_immediately_below_five_zcs() {
    let m = MockHal::new();
    let mut drive = Drive::default();
    let mut hal = m.motor();
    m.interval.set(0);
    zcfr_spin_wait(&mut drive, 4, 1000, &mut hal);
    assert_eq!(drive.zcfr_guard_hits, 0);
}

#[test]
fn zcfr_spin_wait_guard_trips_on_wedged_timer() {
    let m = MockHal::new();
    let mut drive = Drive::default();
    let mut hal = m.motor();
    m.interval.set(0);
    zcfr_spin_wait(&mut drive, 5, 1000, &mut hal);
    assert_eq!(drive.zcfr_guard_hits, 1);
}

#[test]
fn zcfoundroutine_full_sequence_with_changeover() {
    let m = MockHal::new();
    let mut sched = Sched::default();
    let mut drive = Drive::default();
    let duty = Duty::default();
    let mut zct = trace();
    let mut hal = m.motor();
    let mut obs = m.observer();
    m.interval.set(100);
    m.interval_step.set(1);
    sched.commutation_interval = 100;
    drive.zero_crosses = 7;
    drive.old_routine = true;
    drive.current_step = 1;
    drive.bad_count = 3;
    zcfoundroutine(&mut sched, &mut drive, &mut zct, &duty, &mut hal, &mut obs);
    let wait = sched.wait_time;
    assert_eq!(*m.com_arrs.borrow(), [wait]);
    assert_eq!(m.roles.borrow().len(), 1);
    assert_eq!(m.events.borrow().len(), 1);
    assert_eq!(records(&zct), 1);
    assert_eq!(drive.bemf_counter, 0);
    assert_eq!(drive.bad_count, 0);
    assert_eq!(drive.zero_crosses, 8);
    assert!(!drive.old_routine);
    assert!(m.called("enable_interrupts"));
}

#[test]
fn zcfoundroutine_no_changeover_at_slow_interval() {
    let m = MockHal::new();
    let mut sched = Sched::default();
    let mut drive = Drive::default();
    let duty = Duty::default();
    let mut zct = trace();
    let mut hal = m.motor();
    let mut obs = m.observer();
    m.interval.set(4000);
    sched.commutation_interval = 4000;
    drive.zero_crosses = 0;
    drive.old_routine = true;
    zcfoundroutine(&mut sched, &mut drive, &mut zct, &duty, &mut hal, &mut obs);
    assert!(drive.old_routine);
    assert!(!m.called("enable_interrupts"));
    assert_eq!(drive.zero_crosses, 1);
}

#[test]
fn start_motor_seeds_only_when_not_running() {
    let m = MockHal::new();
    let mut sched = Sched::default();
    let mut drive = Drive::default();
    let mut hal = m.motor();
    let mut obs = m.observer();
    sched.commutation_interval = INIT_INTERVAL_TICKS;
    drive.bemf_counter = 9;
    start_motor(&mut sched, &mut drive, &mut hal, &mut obs);
    assert_eq!(m.roles.borrow().len(), 1);
    assert_eq!(
        sched.commutation_interval,
        STARTUP_INTERVAL_TICKS
    );
    assert!(m.called("set_interval_cnt"));
    assert_eq!(m.interval.get(), 5000);
    assert!(drive.old_routine);
    assert_eq!(drive.bemf_counter, 0);
    assert!(drive.running);
    m.clear_calls();
    sched.commutation_interval = 777;
    start_motor(&mut sched, &mut drive, &mut hal, &mut obs);
    assert!(m.calls.borrow().is_empty());
    assert_eq!(sched.commutation_interval, 777);
}

#[test]
fn safety_kill_full_off_mask_disable_freeze_latch() {
    let m = MockHal::new();
    let mut drive = Drive::default();
    let mut duty = Duty::default();
    let mut hal = m.motor();
    let mut obs = m.observer();
    drive.running = true;
    duty.duty_cycle_setpoint = 500;
    duty.duty_cycle = 400;
    duty.last_duty_cycle = 300;
    safety_kill(&mut drive, &mut duty, &mut hal, &mut obs, 2);
    assert!(m.called("all_off"));
    assert!(m.called("mask_interrupts"));
    assert!(m.called("disable_com_timer_int"));
    assert!(m.frozen.get());
    assert!(!drive.running);
    assert!(drive.old_routine);
    assert_eq!(duty.duty_cycle_setpoint, 0);
    assert_eq!(duty.duty_cycle, 0);
    assert_eq!(duty.last_duty_cycle, 0);
    assert_eq!(duty.kill_reason, 2);
    assert!(duty.killed);
}

#[test]
fn honor_stop_swaps_flag_and_acts_once() {
    let m = MockHal::new();
    let mut drive = Drive::default();
    let mut duty = Duty::default();
    let mut bench = Bench::default();
    let mut hal = m.motor();
    drive.running = true;
    drive.zero_crosses = 42;
    duty.duty_cycle_setpoint = 500;
    bench.stop_req = true;
    honor_stop(&mut drive, &mut duty, &mut bench, &mut hal);
    assert!(!bench.stop_req);
    assert!(m.called("all_off"));
    assert!(m.called("mask_interrupts"));
    assert!(m.called("disable_com_timer_int"));
    assert!(!drive.running);
    assert!(drive.old_routine);
    assert_eq!(drive.zero_crosses, 0);
    assert_eq!(duty.duty_cycle_setpoint, 0);
    m.clear_calls();
    honor_stop(&mut drive, &mut duty, &mut bench, &mut hal);
    assert!(m.calls.borrow().is_empty());
}

#[test]
fn variable_pwm_ride_maps_interval_to_carrier_endpoints() {
    let m = MockHal::new();
    let mut sched = Sched::default();
    let mut duty = Duty::default();
    let mut hal = m.motor();
    sched.commutation_interval = 50;
    variable_pwm_ride(&sched, &mut duty, 3332, &mut hal);
    assert_eq!(duty.tim1_arr, 3332 / 2);
    sched.commutation_interval = 500;
    variable_pwm_ride(&sched, &mut duty, 3332, &mut hal);
    assert_eq!(duty.tim1_arr, 3332);
    assert_eq!(*m.carrier_arrs.borrow(), [3332 / 2, 3332]);
}

#[test]
fn variable_pwm_shadow_feeds_duty_apply() {
    let m = MockHal::new();
    let mut sched = Sched::default();
    let drive = Drive::default();
    let mut duty = Duty::default();
    let mut hal = m.motor();
    sched.commutation_interval = 50;
    variable_pwm_ride(&sched, &mut duty, 3332, &mut hal);
    assert_eq!(duty.tim1_arr, 1666);
    duty_apply(&drive, &mut duty, 1000, &mut hal);
    assert_eq!(*m.duties.borrow(), [833]);
    assert_eq!(*m.carrier_arrs.borrow(), [1666, 1666]);
}

#[test]
fn bemf_timeout_rekick_fires_only_over_threshold_and_running() {
    let m = MockHal::new();
    let mut sched = Sched::default();
    let mut drive = Drive::default();
    let duty = Duty::default();
    let mut zct = trace();
    let mut hal = m.motor();
    let mut obs = m.observer();
    m.interval.set(BEMF_TIMEOUT_TICKS);
    bemf_timeout_rekick(&mut sched, &mut drive, &duty, &mut zct, &mut hal, &mut obs, true);
    assert_eq!(drive.bemf_timeout_happened, 0);
    m.interval.set(46_000);
    bemf_timeout_rekick(&mut sched, &mut drive, &duty, &mut zct, &mut hal, &mut obs, false);
    assert_eq!(drive.bemf_timeout_happened, 0);
    assert!(!m.called("mask_interrupts"));
}

#[test]
fn bemf_timeout_rekick_high_input_keeps_running() {
    let m = MockHal::new();
    let mut sched = Sched::default();
    let mut drive = Drive::default();
    let mut duty = Duty::default();
    let mut zct = trace();
    let mut hal = m.motor();
    let mut obs = m.observer();
    m.interval.set(46_000);
    sched.commutation_interval = 1000;
    drive.running = true;
    duty.input = 100;
    drive.zero_crosses = 50;
    bemf_timeout_rekick(&mut sched, &mut drive, &duty, &mut zct, &mut hal, &mut obs, true);
    assert_eq!(drive.bemf_timeout_happened, 1);
    assert!(m.called("mask_interrupts"));
    assert!(drive.old_routine);
    assert!(drive.running);
    assert_eq!(
        sched.commutation_interval,
        minz_core::am32::polling_blend(46_000, 1000)
    );
    assert_eq!(drive.zero_crosses, 1);
}

#[test]
fn bemf_timeout_rekick_low_input_kills_running_and_reseeds() {
    let m = MockHal::new();
    let mut sched = Sched::default();
    let mut drive = Drive::default();
    let mut duty = Duty::default();
    let mut zct = trace();
    let mut hal = m.motor();
    let mut obs = m.observer();
    m.interval.set(46_000);
    sched.commutation_interval = 1000;
    drive.running = true;
    duty.input = 40;
    bemf_timeout_rekick(&mut sched, &mut drive, &duty, &mut zct, &mut hal, &mut obs, true);
    assert!(!drive.running);
    assert_eq!(
        sched.commutation_interval,
        minz_core::am32::polling_blend(46_000, 5000)
    );
}

#[test]
fn desync_check_band_trips_resets_and_records() {
    let m = MockHal::new();
    let mut sched = Sched::default();
    let mut drive = Drive::default();
    let mut duty = Duty::default();
    let mut obs = m.observer();
    drive.desync_check = true;
    drive.zero_crosses = 11;
    drive.running = true;
    drive.current_step = 4;
    sched.last_average_interval = 1600;
    sched.commutation_interval = 500;
    duty.input = 100;
    desync_check_band(&mut sched, &mut drive, &mut duty, &mut obs, 1000);
    assert_eq!(drive.zero_crosses, 0);
    assert_eq!(drive.desync_happened, 1);
    assert!(!drive.running);
    assert!(drive.old_routine);
    assert_eq!(
        duty.last_duty_cycle,
        MIN_STARTUP_DUTY / 2
    );
    assert_eq!(*m.events.borrow(), [(EV_DSY, 3, 1000)]);
    assert!(!drive.desync_check);
    assert_eq!(sched.last_average_interval, 1000);
}

#[test]
fn desync_check_band_low_input_slow_ci_keeps_running() {
    let m = MockHal::new();
    let mut sched = Sched::default();
    let mut drive = Drive::default();
    let mut duty = Duty::default();
    let mut obs = m.observer();
    drive.desync_check = true;
    drive.zero_crosses = 11;
    drive.running = true;
    drive.current_step = 1;
    sched.last_average_interval = 1600;
    sched.commutation_interval = 500;
    duty.input = 0;
    desync_check_band(&mut sched, &mut drive, &mut duty, &mut obs, 1000);
    assert_eq!(drive.desync_happened, 1);
    assert!(drive.running);
}

#[test]
fn desync_check_band_not_due_clears_flag_only() {
    let m = MockHal::new();
    let mut sched = Sched::default();
    let mut drive = Drive::default();
    let mut duty = Duty::default();
    let mut obs = m.observer();
    drive.desync_check = true;
    drive.zero_crosses = 11;
    sched.last_average_interval = 1000;
    desync_check_band(&mut sched, &mut drive, &mut duty, &mut obs, 1000);
    assert_eq!(drive.desync_happened, 0);
    assert!(m.events.borrow().is_empty());
    assert!(!drive.desync_check);
    sched.last_average_interval = 1234;
    desync_check_band(&mut sched, &mut drive, &mut duty, &mut obs, 999);
    assert_eq!(sched.last_average_interval, 1234);
}

#[test]
fn set_input_arms_and_starts_motor_when_interrupt_mode() {
    let m = MockHal::new();
    let mut sched = Sched::default();
    let mut drive = Drive::default();
    let mut duty = Duty::default();
    let mut hal = m.motor();
    let mut obs = m.observer();
    duty.duty_cycle_maximum = DUTY_FULL;
    duty.uart_duty_input = 1047;
    drive.old_routine = false;
    set_input(&mut sched, &mut drive, &mut duty, &mut hal, &mut obs);
    assert_eq!(duty.input, 1047);
    assert!(m.called("all_off"));
    assert_eq!(m.roles.borrow().len(), 1);
    assert_eq!(
        sched.commutation_interval,
        STARTUP_INTERVAL_TICKS
    );
    assert!(drive.running);
    assert_eq!(duty.last_duty_cycle, MIN_STARTUP_DUTY);
    let sp = duty.duty_cycle_setpoint;
    assert!((MIN_STARTUP_DUTY..=STARTUP_MAX_DUTY_CYCLE).contains(&sp));
}

#[test]
fn set_input_arming_old_routine_skips_start_motor() {
    let m = MockHal::new();
    let mut sched = Sched::default();
    let mut drive = Drive::default();
    let mut duty = Duty::default();
    let mut hal = m.motor();
    let mut obs = m.observer();
    sched.commutation_interval = INIT_INTERVAL_TICKS;
    drive.old_routine = true;
    set_input_arming(&mut sched, &mut drive, &mut duty, &mut hal, &mut obs, 1047);
    assert!(m.called("all_off"));
    assert!(m.roles.borrow().is_empty());
    assert_eq!(sched.commutation_interval, INIT_INTERVAL_TICKS);
    assert!(drive.running);
    assert_eq!(duty.last_duty_cycle, MIN_STARTUP_DUTY);
    m.clear_calls();
    set_input_arming(&mut sched, &mut drive, &mut duty, &mut hal, &mut obs, 1047);
    assert!(m.calls.borrow().is_empty());
}

#[test]
fn set_input_arming_disarm_resets_when_not_running() {
    let m = MockHal::new();
    let mut sched = Sched::default();
    let mut drive = Drive::default();
    let mut duty = Duty::default();
    let mut hal = m.motor();
    let mut obs = m.observer();
    drive.zero_crosses = 42;
    drive.bad_count = 3;
    set_input_arming(&mut sched, &mut drive, &mut duty, &mut hal, &mut obs, 0);
    assert!(drive.old_routine);
    assert_eq!(drive.zero_crosses, 0);
    assert_eq!(drive.bad_count, 0);
    assert!(m.called("all_off"));
    m.clear_calls();
    drive.running = true;
    drive.zero_crosses = 9;
    set_input_arming(&mut sched, &mut drive, &mut duty, &mut hal, &mut obs, 0);
    assert!(m.calls.borrow().is_empty());
    assert_eq!(drive.zero_crosses, 9);
}

#[test]
fn get_bemf_state_counts_matches_and_resets_on_bad_run() {
    let m = MockHal::new();
    let mut drive = Drive::default();
    drive.rising = true;
    m.comp_value.set(true);
    get_bemf_state(&mut drive, &mut &m);
    get_bemf_state(&mut drive, &mut &m);
    assert_eq!(drive.bemf_counter, 2);
    assert_eq!(drive.bad_count, 0);
    m.comp_value.set(false);
    for _ in 0..BAD_COUNT_THRESHOLD {
        get_bemf_state(&mut drive, &mut &m);
    }
    assert_eq!(drive.bemf_counter, 2);
    get_bemf_state(&mut drive, &mut &m);
    assert_eq!(drive.bemf_counter, 0);
    assert_eq!(
        drive.bad_count,
        BAD_COUNT_THRESHOLD + 1
    );
}

#[test]
fn zct_write_records_and_batch_skips() {
    let m = MockHal::new();
    let mut sched = Sched::default();
    let mut drive = Drive::default();
    let duty = Duty::default();
    let mut zct = trace();
    let mut obs = m.observer();
    drive.current_step = 3;
    sched.commutation_interval = 300;
    sched.this_zc = 0x1234;
    zct.write(&sched, &drive, &duty, &mut obs.cs);
    assert_eq!(records(&zct), 1);
    assert_eq!(zct.comm_n, 1);
    assert_eq!(zct.ring.ring[0][0], 0x5B);
    assert_eq!(zct.ring.ring[0][1], 0xA9);
    assert_eq!(zct.ring.ring[0][2] & 0x07, 3);
    zct.comm_n = 50;
    sched.commutation_interval = 150;
    zct.write(&sched, &drive, &duty, &mut obs.cs);
    assert_eq!(records(&zct), 1);
    assert!(zct.batching);
}


#[test]
fn comp_isr_not_pending_does_nothing() {
    let m = MockHal::new();
    let mut hal = m.motor();
    let mut obs = m.observer();
    let mut sched = Sched::default();
    let drive = Drive::default();
    m.interval.set(1000);
    comp_isr(&mut sched, &drive, &mut hal, &mut obs);
    assert!(m.calls.borrow().is_empty());
    assert!(m.events.borrow().is_empty());
    assert_eq!(m.interval.get(), 1000);
}

#[test]
fn comp_isr_gate_open_clears_pending_and_runs_interrupt_routine() {
    let m = MockHal::new();
    let mut hal = m.motor();
    let mut obs = m.observer();
    let mut sched = Sched::default();
    let mut drive = Drive::default();
    m.pending.set(true);
    m.interval.set(200);
    sched.average_interval = 100;
    drive.rising = true;
    m.comp_value.set(true);
    drive.filter_level = 5;
    drive.current_step = 3;
    sched.this_zc = 42;
    sched.wait_time = 300;
    comp_isr(&mut sched, &drive, &mut hal, &mut obs);
    assert_eq!(
        *m.calls.borrow(),
        ["clear_pending", "mask_interrupts", "set_interval_cnt", "set_and_enable_com_int"]
    );
    assert!(!m.pending.get());
    assert_eq!(sched.last_zc, 42);
    assert_eq!(sched.this_zc, 200);
    assert_eq!(m.interval.get(), 0);
    assert_eq!(*m.com_arrs.borrow(), [301]);
    assert_eq!(*m.events.borrow(), [(EV_ACC, 2, 200)]);
}

#[test]
fn comp_isr_gate_closed_pre_zc_level_clears_only() {
    let m = MockHal::new();
    let mut hal = m.motor();
    let mut obs = m.observer();
    let mut sched = Sched::default();
    let mut drive = Drive::default();
    m.pending.set(true);
    m.interval.set(100);
    sched.average_interval = 1000;
    drive.rising = true;
    m.comp_value.set(false);
    comp_isr(&mut sched, &drive, &mut hal, &mut obs);
    assert_eq!(*m.calls.borrow(), ["clear_pending"]);
    assert!(!m.pending.get());
    assert!(m.events.borrow().is_empty());
}

#[test]
fn comp_isr_gate_closed_post_zc_leaves_pending_set() {
    let m = MockHal::new();
    let mut hal = m.motor();
    let mut obs = m.observer();
    let mut sched = Sched::default();
    let mut drive = Drive::default();
    m.pending.set(true);
    m.interval.set(100);
    sched.average_interval = 1000;
    drive.rising = true;
    m.comp_value.set(true);
    comp_isr(&mut sched, &drive, &mut hal, &mut obs);
    assert!(!m.called("clear_pending"));
    assert!(m.pending.get());
    assert!(m.calls.borrow().is_empty());
    assert!(m.events.borrow().is_empty());
}

#[test]
fn interrupt_routine_persistence_rejects_on_any_flip() {
    let m = MockHal::new();
    let mut hal = m.motor();
    let mut obs = m.observer();
    let mut sched = Sched::default();
    let mut drive = Drive::default();
    drive.filter_level = 5;
    drive.rising = true;
    *m.comp_seq.borrow_mut() = vec![true, true, false];
    sched.this_zc = 42;
    interrupt_routine(&mut sched, &drive, &mut hal, &mut obs);
    assert!(m.calls.borrow().is_empty());
    assert!(m.events.borrow().is_empty());
    assert_eq!(sched.this_zc, 42);
    assert_eq!(sched.last_zc, 0);
}

#[test]
fn interrupt_routine_accept_masks_shifts_timestamps_and_arms() {
    let m = MockHal::new();
    let mut hal = m.motor();
    let mut obs = m.observer();
    let mut sched = Sched::default();
    let mut drive = Drive::default();
    drive.filter_level = 5;
    drive.rising = false;
    m.comp_value.set(false);
    drive.current_step = 1;
    m.interval.set(777);
    sched.this_zc = 55;
    sched.wait_time = 1000;
    interrupt_routine(&mut sched, &drive, &mut hal, &mut obs);
    assert_eq!(
        *m.calls.borrow(),
        ["mask_interrupts", "set_interval_cnt", "set_and_enable_com_int"]
    );
    assert_eq!(sched.last_zc, 55);
    assert_eq!(sched.this_zc, 777);
    assert_eq!(m.interval.get(), 0);
    assert_eq!(*m.com_arrs.borrow(), [1001]);
    assert_eq!(*m.events.borrow(), [(EV_ACC, 0, 777)]);
}

#[test]
fn tim1_up_tim16_isr_full_com_sequence() {
    let m = MockHal::new();
    let mut hal = m.motor();
    let mut obs = m.observer();
    let mut sched = Sched::default();
    let mut drive = Drive::default();
    let duty = Duty::default();
    let mut zct = trace();
    drive.current_step = 1;
    drive.old_routine = false;
    drive.zero_crosses = 5;
    sched.commutation_interval = 1000;
    sched.last_zc = 400;
    sched.this_zc = 600;
    tim1_up_tim16_isr(&mut sched, &mut drive, &mut zct, &duty, &mut hal, &mut obs);
    assert_eq!(m.calls.borrow()[0], "com_clear_flag");
    assert_eq!(m.calls.borrow()[1], "disable_com_timer_int");
    assert_eq!(m.calls.borrow()[2], "com_step");
    assert_eq!(m.calls.borrow()[3], "set_step");
    assert_eq!(m.calls.borrow()[4], "change_input");
    let ci = minz_core::am32::blend_interval(1000, 400, 600);
    assert_eq!(sched.commutation_interval, ci);
    let advance = minz_core::am32::advance_of(ci, TEMP_ADVANCE);
    assert_eq!(
        sched.wait_time,
        minz_core::am32::wait_time(ci, advance) as u16
    );
    assert_eq!(records(&zct), 1);
    assert_eq!(m.events.borrow()[0].0, EV_REF);
    assert!(m.called("enable_interrupts"));
    assert_eq!(drive.zero_crosses, 6);
}

#[test]
fn tim1_up_tim16_isr_old_routine_skips_comp_enable_and_zc_saturates() {
    let m = MockHal::new();
    let mut hal = m.motor();
    let mut obs = m.observer();
    let mut sched = Sched::default();
    let mut drive = Drive::default();
    let duty = Duty::default();
    let mut zct = trace();
    drive.current_step = 2;
    drive.old_routine = true;
    drive.zero_crosses = 10000;
    tim1_up_tim16_isr(&mut sched, &mut drive, &mut zct, &duty, &mut hal, &mut obs);
    assert!(!m.called("enable_interrupts"));
    assert_eq!(drive.zero_crosses, 10000);
}

#[test]
fn tim6_killed_skips_duty_and_polling_but_deadman_and_harvest_run() {
    let m = MockHal::new();
    let mut hal = m.motor();
    let mut obs = m.observer();
    let mut sched = Sched::default();
    let mut drive = Drive::default();
    let mut duty = Duty::default();
    let mut bench = Bench::default();
    let mut zct = trace();
    duty.killed = true;
    drive.old_routine = true;
    drive.running = true;
    m.inj.set((1, 2, 3, 900));
    tim6_dacunder_isr(&mut sched, &mut drive, &mut duty, &mut bench, &mut zct, &mut hal, &mut obs);
    assert_eq!(m.calls.borrow()[0], "tim6_clear_flag");
    assert_eq!(drive.tenkhz_counter, 1);
    assert!(!m.called("set_duty_all"));
    assert!(!m.called("set_auto_reload"));
    assert!(!m.called("mask_interrupts"));
    assert_eq!(duty.ramp_count, 0);
    assert_eq!(bench.uart_deadman_ticks, 1);
    assert_eq!(bench.i_raw, 3);
    assert_eq!(bench.vbat_raw, 900);
    assert_eq!(bench.oc_cnt, 1);
}

#[test]
fn tim6_not_killed_ramps_and_applies_duty() {
    let m = MockHal::new();
    let mut hal = m.motor();
    let mut obs = m.observer();
    let mut sched = Sched::default();
    let mut drive = Drive::default();
    let mut duty = Duty::default();
    let mut bench = Bench::default();
    let mut zct = trace();
    m.inj.set((0, 0, 0, 900));
    tim6_dacunder_isr(&mut sched, &mut drive, &mut duty, &mut bench, &mut zct, &mut hal, &mut obs);
    assert_eq!(duty.ramp_count, 1);
    assert!(m.called("set_auto_reload"));
    assert!(m.called("set_duty_all"));
}

#[test]
fn duty_apply_plus_one_only_when_running_and_input_over_47() {
    let m = MockHal::new();
    let mut hal = m.motor();
    let mut drive = Drive::default();
    let mut duty = Duty::default();
    duty.tim1_arr = 3332;
    drive.running = true;
    duty.input = 48;
    assert!(duty_apply(&drive, &mut duty, 1000, &mut hal));
    assert_eq!(*m.duties.borrow(), [1667]);
    assert_eq!(*m.carrier_arrs.borrow(), [3332]);
    assert_eq!(duty.last_duty_cycle, 1000);
    duty.input = 47;
    duty_apply(&drive, &mut duty, 1000, &mut hal);
    assert_eq!(m.duties.borrow()[1], 1666);
    drive.running = false;
    duty.input = 100;
    assert!(!duty_apply(&drive, &mut duty, 1000, &mut hal));
    assert_eq!(m.duties.borrow()[2], 1666);
}

#[test]
fn polling_bemf_check_gates_on_old_routine_and_running() {
    let m = MockHal::new();
    let mut hal = m.motor();
    let mut obs = m.observer();
    let mut sched = Sched::default();
    let mut drive = Drive::default();
    let duty = Duty::default();
    let mut zct = trace();
    drive.old_routine = false;
    polling_bemf_check(&mut sched, &mut drive, &duty, &mut zct, &mut hal, &mut obs, true);
    assert!(m.calls.borrow().is_empty());
    drive.old_routine = true;
    polling_bemf_check(&mut sched, &mut drive, &duty, &mut zct, &mut hal, &mut obs, false);
    assert!(m.calls.borrow().is_empty());
}

#[test]
fn polling_bemf_check_accepts_over_threshold_rising_uses_min_bemf_up() {
    let m = MockHal::new();
    let mut hal = m.motor();
    let mut obs = m.observer();
    let mut sched = Sched::default();
    let mut drive = Drive::default();
    let duty = Duty::default();
    let mut zct = trace();
    drive.old_routine = true;
    drive.current_step = 1;
    drive.rising = true;
    m.comp_value.set(true);
    drive.bemf_counter = 10;
    drive.min_bemf_up = 3;
    drive.min_bemf_down = 1000;
    sched.commutation_interval = 100;
    m.interval.set(100);
    polling_bemf_check(&mut sched, &mut drive, &duty, &mut zct, &mut hal, &mut obs, true);
    assert_eq!(m.calls.borrow()[0], "mask_interrupts");
    assert_eq!(m.calls.borrow().iter().filter(|c| **c == "com_set_arr").count(), 1);
    assert_eq!(m.roles.borrow().len(), 1);
    assert_eq!(drive.zero_crosses, 1);
}

#[test]
fn polling_bemf_check_zcfound_latch_and_falling_threshold() {
    let m = MockHal::new();
    let mut hal = m.motor();
    let mut obs = m.observer();
    let mut sched = Sched::default();
    let mut drive = Drive::default();
    let duty = Duty::default();
    let mut zct = trace();
    drive.old_routine = true;
    drive.current_step = 1;
    drive.zcfound = true;
    drive.rising = true;
    m.comp_value.set(true);
    drive.bemf_counter = 100;
    drive.min_bemf_up = 3;
    polling_bemf_check(&mut sched, &mut drive, &duty, &mut zct, &mut hal, &mut obs, true);
    assert!(!m.called("com_set_arr"));
    assert!(m.roles.borrow().is_empty());
    drive.zcfound = false;
    drive.rising = false;
    m.comp_value.set(false);
    drive.bemf_counter = 10;
    drive.min_bemf_up = 1000;
    drive.min_bemf_down = 3;
    m.interval.set(100);
    polling_bemf_check(&mut sched, &mut drive, &duty, &mut zct, &mut hal, &mut obs, true);
    assert!(m.called("com_set_arr"));
}

#[test]
fn adc_harvest_oc_trip_kills_with_reason_1() {
    let m = MockHal::new();
    let mut hal = m.motor();
    let mut obs = m.observer();
    let mut drive = Drive::default();
    let mut duty = Duty::default();
    let mut bench = Bench::default();
    bench.oc_cnt = OC_WINDOW_TICKS - 1;
    bench.oc_acc = (OC_KILL_RAW_AVG + 1) * OC_WINDOW_TICKS;
    m.inj.set((0, 0, 500, 900));
    adc_harvest_and_safety(&mut drive, &mut duty, &mut bench, &mut hal, &mut obs);
    assert_eq!(bench.i_raw, 500);
    assert!(m.called("all_off"));
    assert!(m.called("mask_interrupts"));
    assert!(m.called("disable_com_timer_int"));
    assert!(m.frozen.get());
    assert!(duty.killed);
    assert_eq!(duty.kill_reason, 1);
    assert_eq!(bench.oc_acc, 0);
    assert_eq!(bench.oc_cnt, 0);
}

#[test]
fn adc_harvest_vbat_floor_kills_only_when_running() {
    let m = MockHal::new();
    let mut hal = m.motor();
    let mut obs = m.observer();
    let mut drive = Drive::default();
    let mut duty = Duty::default();
    let mut bench = Bench::default();
    m.inj.set((0, 0, 0, VBAT_ABS_FLOOR_RAW - 1));
    adc_harvest_and_safety(&mut drive, &mut duty, &mut bench, &mut hal, &mut obs);
    assert_eq!(bench.vbat_raw, VBAT_ABS_FLOOR_RAW - 1);
    assert!(!duty.killed);
    assert!(!m.called("all_off"));
    drive.running = true;
    adc_harvest_and_safety(&mut drive, &mut duty, &mut bench, &mut hal, &mut obs);
    assert!(m.called("all_off"));
    assert!(duty.killed);
    assert_eq!(duty.kill_reason, 2);
}

#[test]
fn six_commutations_make_a_revolution() {
    let m = MockHal::new();
    let mut sched = Sched::default();
    let mut drive = Drive::default();
    let mut hal = m.motor();
    let mut obs = m.observer();
    drive.current_step = 4;
    let mut checks = 0;
    for _ in 0..6 {
        drive.desync_check = false;
        commutate(&mut sched, &mut drive, &mut hal, &mut obs);
        if drive.desync_check {
            checks += 1;
        }
    }
    assert_eq!(drive.current_step, 4);
    assert_eq!(checks, 1);
    assert_eq!(*m.roles.borrow(), [5, 6, 1, 2, 3, 4]);
}

#[test]
fn carrier_ride_is_bounded() {
    let m = MockHal::new();
    let mut sched = Sched::default();
    let mut duty = Duty::default();
    let mut hal = m.motor();
    for ci in [0u32, 96, 148, 200, 60_000] {
        sched.commutation_interval = ci;
        variable_pwm_ride(&sched, &mut duty, 3_332, &mut hal);
        assert!((1_666..=3_332).contains(&duty.tim1_arr));
    }
    assert_eq!(*m.carrier_arrs.borrow().last().unwrap(), 3_332);
}

#[test]
fn latched_kill_holds_the_drive() {
    let m = MockHal::new();
    let mut sched = Sched::default();
    let mut drive = Drive::default();
    let mut duty = Duty::default();
    let mut bench = Bench::default();
    let mut zct = trace();
    let mut hal = m.motor();
    let mut obs = m.observer();
    duty.killed = true;
    duty.duty_cycle_setpoint = 500;
    drive.running = true;
    m.inj.set((1, 2, 3, VBAT_ABS_FLOOR_RAW));
    tim6_dacunder_isr(
        &mut sched, &mut drive, &mut duty, &mut bench, &mut zct, &mut hal, &mut obs,
    );
    assert!(m.duties.borrow().is_empty());
    assert_eq!(duty.last_duty_cycle, 0);
    assert_eq!((bench.i_raw, bench.uart_deadman_ticks), (3, 1));
    assert_eq!(drive.tenkhz_counter, 1);
}

#[test]
fn low_battery_kill_is_complete() {
    let m = MockHal::new();
    let mut sched = Sched::default();
    let mut drive = Drive::default();
    let mut duty = Duty::default();
    let mut bench = Bench::default();
    let mut zct = trace();
    let mut hal = m.motor();
    let mut obs = m.observer();
    drive.running = true;
    duty.tim1_arr = 3_332;
    m.inj.set((1, 2, 3, VBAT_ABS_FLOOR_RAW - 1));
    tim6_dacunder_isr(
        &mut sched, &mut drive, &mut duty, &mut bench, &mut zct, &mut hal, &mut obs,
    );
    assert!(duty.killed && !drive.running);
    assert_eq!((duty.duty_cycle, duty.duty_cycle_setpoint), (0, 0));
    assert!(m.called("all_off") && m.called("mask_interrupts"));
    assert!(m.called("disable_com_timer_int") && m.frozen.get());
}

#[test]
fn early_edges_are_only_cleared() {
    let m = MockHal::new();
    let mut sched = Sched::default();
    let mut drive = Drive::default();
    let mut hal = m.motor();
    let mut obs = m.observer();
    drive.current_step = 3;
    drive.filter_level = 5;
    sched.average_interval = 1_000;
    m.pending.set(true);
    m.interval.set(500);
    let before = sched;
    comp_isr(&mut sched, &drive, &mut hal, &mut obs);
    assert_eq!(sched, before);
    assert!(m.com_arrs.borrow().is_empty() && m.events.borrow().is_empty());
}

#[test]
fn batches_are_consecutive() {
    let mut zct = trace();
    let m = MockHal::new();
    let mut obs = m.observer();
    let mut sched = Sched::default();
    sched.commutation_interval = 100;
    let drive = Drive::default();
    let duty = Duty::default();
    let mut recorded = Vec::new();
    for _ in 0..200 {
        let before = zct.ring.head;
        zct.write(&sched, &drive, &duty, &mut obs.cs);
        recorded.push(zct.ring.head != before);
    }
    let expected: Vec<bool> = (0..200).map(|n| n / 50 % 2 == 0).collect();
    assert_eq!(recorded, expected);
    assert_eq!(m.sections.get(), 0);
}

struct Board<'a> {
    parts: MockMotor<'a>,
}

impl<'a> MotorHal for Board<'a> {
    type Pwm = &'a MockHal;
    type Comp = &'a MockHal;
    type Phase = &'a MockHal;
    type Interval = &'a MockHal;
    type Com = &'a MockHal;

    fn pwm(&mut self) -> &mut &'a MockHal {
        &mut self.parts.pwm
    }
    fn comp(&mut self) -> &mut &'a MockHal {
        &mut self.parts.comp
    }
    fn phase(&mut self) -> &mut &'a MockHal {
        &mut self.parts.phase
    }
    fn interval(&mut self) -> &mut &'a MockHal {
        &mut self.parts.interval
    }
    fn com_timer(&mut self) -> &mut &'a MockHal {
        &mut self.parts.com
    }
}

#[test]
fn stop_works_on_a_board_of_ones_own() {
    let m = MockHal::new();
    let mut board = Board { parts: m.motor() };
    let mut drive = Drive::default();
    let mut duty = Duty::default();
    let mut bench = Bench::default();
    drive.running = true;
    bench.stop_req = true;
    honor_stop(&mut drive, &mut duty, &mut bench, &mut board);
    assert!(!drive.running && !bench.stop_req);
    assert_eq!(*m.calls.borrow(), ["all_off", "mask_interrupts", "disable_com_timer_int"]);
}

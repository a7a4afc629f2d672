use minz_core::am32::{
    Am32Intervals, MAX_RAMP_HIGH_RPM, MAX_RAMP_LOW_RPM, MAX_RAMP_STARTUP, RxRing, UartCmd, UartDuty,
    ZCT_REC, ZctRing, advance_of, bemf_count_step, blend_interval, desync_due, duty_setpoint,
    get_abs_dif, low_rpm_duty_ceiling, oc_step, polling_blend, ramp_rate, ramp_toward, wait_time,
    zct_batch_gate, zct_pack,
};

#[test]
fn zct_ring_drops_oldest_when_full_and_drains_bounded() {
    let mut z = ZctRing { ring: [[0u8; ZCT_REC]; 4], head: 0, tail: 0, drop: 0 };
    let mk = |v: u8| {
        let mut r = [0u8; ZCT_REC];
        r[0] = 0x5B;
        r[1] = 0xA9;
        r[2] = v;
        r
    };
    for v in 0..5u8 {
        z.push_rec(&mk(v));
    }
    assert_eq!(z.drop, 2);
    let mut out = Vec::new();
    z.drain(2, &mut out);
    assert_eq!(out.len(), 2 * ZCT_REC);
    assert_eq!(out[2], 2);
    assert_eq!(out[ZCT_REC + 2], 3);
    let mut rest = Vec::new();
    z.drain(10, &mut rest);
    assert_eq!(rest.len(), ZCT_REC);
}

#[test]
fn rx_ring_push_pop_wraps_and_drops_when_full() {
    let mut rx = RxRing { ring: [0u16; 4], head: 0, tail: 0 };
    assert_eq!(rx.pop(), None);
    rx.push(b'a' as u16);
    rx.push(b'b' as u16);
    rx.push(b'c' as u16);
    rx.push(b'd' as u16);
    assert_eq!(rx.pop(), Some(b'a'));
    assert_eq!(rx.pop(), Some(b'b'));
    assert_eq!(rx.pop(), Some(b'c'));
    assert_eq!(rx.pop(), None);
    for k in 0..10u16 {
        rx.push(k);
        assert_eq!(rx.pop(), Some(k as u8));
    }
}

#[test]
fn map_endpoints_mid_and_am32_cases() {
    assert_eq!(minz_core::am32::map(0, 96, 200, 1666, 3332), 1666);
    assert_eq!(minz_core::am32::map(300, 96, 200, 1666, 3332), 3332);
    assert_eq!(minz_core::am32::map(96, 96, 200, 1666, 3332), 1666);
    assert_eq!(minz_core::am32::map(200, 96, 200, 1666, 3332), 3332);
    let mid = minz_core::am32::map(148, 96, 200, 1666, 3332);
    assert!((2470..=2530).contains(&mid), "mid {mid}");
    assert_eq!(minz_core::am32::map(150, 96, 200, 1666, 3332), minz_core::am32::map(150, 96, 200, 1666, 3332));
    let c150 = minz_core::am32::map(150, 96, 200, 1666, 3332);
    assert!((2500..=2600).contains(&c150), "c150 {c150}");
    assert_eq!(minz_core::am32::map(47, 47, 2047, 45, 2000), 45);
    assert_eq!(minz_core::am32::map(2047, 47, 2047, 45, 2000), 2000);
}

#[test]
fn get_abs_dif_symmetric() {
    assert_eq!(get_abs_dif(10, 3), 7);
    assert_eq!(get_abs_dif(3, 10), 7);
    assert_eq!(get_abs_dif(-5, 5), 10);
    assert_eq!(get_abs_dif(100, 100), 0);
}

#[test]
fn advance_and_wait_bench_validated() {
    let a = advance_of(746, 16);
    assert_eq!(a, 186);
    assert_eq!(wait_time(746, a), 187);
    let a2 = advance_of(204, 16);
    assert_eq!(a2, 51);
    assert_eq!(wait_time(204, a2), 51);
    let a3 = advance_of(10_000, 16);
    assert_eq!(a3, 2500);
    assert_eq!(wait_time(10_000, a3), 2500);
}

#[test]
fn wait_time_saturates_not_underflows() {
    assert_eq!(wait_time(200, 400), 0);
}

#[test]
fn blend_forms_match_source() {
    assert_eq!(blend_interval(746, 700, 720), (746 + ((700 + 720) >> 1)) >> 1);
    assert_eq!(blend_interval(1000, 0, 0), 500);
    assert_eq!(polling_blend(700, 746), (700 + 3 * 746) / 4);
    assert_eq!(polling_blend(0, 10_000), 7500);
}

#[test]
fn duty_setpoint_maps_and_gates() {
    assert_eq!(duty_setpoint(46, 45, 2000), 0);
    assert_eq!(duty_setpoint(47, 45, 2000), 45);
    assert_eq!(duty_setpoint(2047, 45, 2000), 2000);
    let m = duty_setpoint(1047, 45, 2000);
    assert!((1000..=1050).contains(&m), "m {m}");
}

#[test]
fn ramp_rate_regimes() {
    assert_eq!(ramp_rate(0, 500, 300), MAX_RAMP_STARTUP);
    assert_eq!(ramp_rate(149, 500, 300), MAX_RAMP_STARTUP);
    assert_eq!(ramp_rate(1000, 149, 300), MAX_RAMP_STARTUP);
    assert_eq!(ramp_rate(1000, 500, 600), MAX_RAMP_LOW_RPM);
    assert_eq!(ramp_rate(1000, 500, 400), MAX_RAMP_HIGH_RPM);
}

#[test]
fn ramp_toward_clamps_step_and_domain() {
    assert_eq!(ramp_toward(1000, 2000, 16), 1016);
    assert_eq!(ramp_toward(2000, 1000, 16), 1984);
    assert_eq!(ramp_toward(1000, 1010, 16), 1010);
    assert_eq!(ramp_toward(1999, 5000, 100), 2000);
    assert_eq!(ramp_toward(10, 0, 100), 0);
}

#[test]
fn low_rpm_ceiling_map_and_off() {
    assert_eq!(low_rpm_duty_ceiling(1000, true, false), 2000);
    assert_eq!(low_rpm_duty_ceiling(1000, false, true), 400);
    assert_eq!(low_rpm_duty_ceiling(100, true, true), 2000);
    assert_eq!(low_rpm_duty_ceiling(15000, true, true), 400);
}

#[test]
fn desync_boundary_both_sides() {
    assert!(desync_due(1600, 1000));
    assert!(!desync_due(1400, 1000));
    assert!(desync_due(1501, 1000));
    assert!(!desync_due(1500, 1000));
    assert!(!desync_due(5000, 2000));
    assert!(!desync_due(5000, 2500));
}

#[test]
fn bemf_count_step_climb_and_reset() {
    assert_eq!(bemf_count_step(4, 1, true, 3), (5, 1));
    assert_eq!(bemf_count_step(u16::MAX, 0, true, 3), (u16::MAX, 0));
    assert_eq!(bemf_count_step(4, 0, false, 3), (4, 1));
    assert_eq!(bemf_count_step(4, 2, false, 3), (4, 3));
    assert_eq!(bemf_count_step(4, 3, false, 3), (0, 4));
}

#[test]
fn oc_step_accumulates_and_trips() {
    assert_eq!(oc_step(100, 5, 20, 1700, 205), (120, 6, false));
    let (s, n, trip) = oc_step(1700 * 100, 1699, 100, 1700, 205);
    assert_eq!((s, n), (0, 0));
    assert!(!trip);
    let (_s, _n, trip2) = oc_step(1700 * 300, 1699, 300, 1700, 205);
    assert!(trip2);
}

#[test]
fn zct_pack_golden_bytes() {
    let rec = zct_pack(3, true, false, 0x1234, 0x0102, 0x00BB, 0x02C8, 0xABCD, 0x0304);
    assert_eq!(rec[0], 0x5B);
    assert_eq!(rec[1], 0xA9);
    assert_eq!(rec[2], 0x03 | 0x80);
    assert_eq!([rec[3], rec[4]], [0x34, 0x12]);
    assert_eq!([rec[5], rec[6]], [0x02, 0x01]);
    assert_eq!([rec[7], rec[8]], [0xBB, 0x00]);
    assert_eq!([rec[9], rec[10]], [0xC8, 0x02]);
    assert_eq!([rec[11], rec[12]], [0xCD, 0xAB]);
    assert_eq!([rec[13], rec[14]], [0x04, 0x03]);
    let rec2 = zct_pack(0x0F, false, true, 0, 0, 0, 0, 0, 0);
    assert_eq!(rec2[2], 0x07 | 0x40);
}

#[test]
fn zct_batch_gate_thresholds_and_boundaries() {
    let (rec, batch) = zct_batch_gate(0, 300, false);
    assert!(rec && !batch);
    let (rec, batch) = zct_batch_gate(0, 150, false);
    assert!(rec && batch);
    let (rec, batch) = zct_batch_gate(25, 300, true);
    assert!(rec && batch);
    let (rec, batch) = zct_batch_gate(50, 150, false);
    assert!(!rec && batch);
    let (rec, batch) = zct_batch_gate(75, 300, true);
    assert!(!rec && batch);
    let (rec, _batch) = zct_batch_gate(100, 150, false);
    assert!(rec);
}

#[test]
fn intervals_push_sum_and_e_com_time() {
    let mut iv = Am32Intervals::new([0; 6]);
    for i in 0..6 {
        iv.push(i, 12500);
    }
    assert_eq!(iv.sum(), 75_000);
    assert_eq!(iv.e_com_time(), (75_000 + 4) >> 1);
    iv.push(0, 6000);
    assert_eq!(iv.sum(), 75_000 - 12_500 + 6_000);
    for step in 0..12 {
        iv.push(step % 6, step as u32 + 1);
    }
    assert_eq!(iv.sum(), (7 + 8 + 9 + 10 + 11 + 12) as u32);
}

#[test]
fn uart_digit_accumulate_and_commit() {
    let mut u = UartDuty::new();
    assert_eq!(u.step(b'5'), None);
    assert_eq!(u.step(b'0'), None);
    assert_eq!(u.step(b'\n'), Some(UartCmd::SetThrottle(1047)));
    assert_eq!(u.step(b'\n'), None);
}

#[test]
fn uart_zero_commit_is_stop() {
    let mut u = UartDuty::new();
    u.step(b'0');
    assert_eq!(u.step(b'\n'), Some(UartCmd::Stop));
}

#[test]
fn uart_permille_and_clamps() {
    let mut u = UartDuty::new();
    for c in b"500" {
        u.step(*c);
    }
    assert_eq!(u.step(b'\n'), Some(UartCmd::SetThrottle(1047)));
    for c in b"2000" {
        u.step(*c);
    }
    assert_eq!(u.step(b'\n'), Some(UartCmd::SetThrottle(48)));
    for c in b"1000" {
        u.step(*c);
    }
    assert_eq!(u.step(b'\n'), Some(UartCmd::SetThrottle(2047)));
}

#[test]
fn uart_command_bytes() {
    let mut u = UartDuty::new();
    assert_eq!(u.step(b's'), Some(UartCmd::Stop));
    assert_eq!(u.step(b'w'), Some(UartCmd::Stop));
    assert_eq!(u.step(b'Z'), Some(UartCmd::TraceToggle));
    assert_eq!(u.step(b'i'), Some(UartCmd::Info));
    assert_eq!(u.step(b'b'), Some(UartCmd::BbDump));
    assert_eq!(u.step(b'G'), Some(UartCmd::GeckoDump));
}

#[test]
fn uart_control_byte_does_not_disturb_accumulator() {
    let mut u = UartDuty::new();
    u.step(b'5');
    u.step(b'0');
    assert_eq!(u.step(b'Z'), Some(UartCmd::TraceToggle));
    assert_eq!(u.step(b'\n'), Some(UartCmd::SetThrottle(1047)));
}

#[test]
fn uart_empty_terminator_and_digit_cap() {
    let mut u = UartDuty::new();
    assert_eq!(u.step(b'\n'), None);
    for c in b"12345" {
        u.step(*c);
    }
    assert_eq!(u.step(b'\n'), Some(UartCmd::SetThrottle(48)));
    u.step(b'9');
    assert_eq!(u.step(b's'), Some(UartCmd::Stop));
    assert_eq!(u.step(b'\n'), None);
}

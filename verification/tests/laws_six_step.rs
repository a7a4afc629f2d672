use minz_core::am32::{
    polling_blend, ramp_toward, zct_pack, RxRing, UartCmd, UartDuty, ZctRing, ZCT_REC,
};
use minz_core::am32_loop::{
    apply_uart_cmd, filter_and_duty_max, set_input_clamp, uart_deadman_tick, Bench, Drive, Duty,
    Sched, DELAY_CAP_CYC, MIN_STARTUP_DUTY, STARTUP_MAX_DUTY_CYCLE, UART_DEADMAN_LIMIT,
};

fn feed(p: &mut UartDuty, bytes: &[u8]) -> Vec<UartCmd> {
    bytes.iter().filter_map(|b| p.step(*b)).collect()
}

#[test]
fn map_stays_in_range_and_is_monotone() {
    let mut last = 3;
    for x in -50..700 {
        let y = minz_core::am32::map(x, 100, 500, 3, 12);
        assert!((3..=12).contains(&y) && y >= last);
        last = y;
        let down = minz_core::am32::map(x, 20, 70, 2_000, 400);
        assert!((400..=2_000).contains(&down));
    }
    assert_eq!(last, 12);
}

#[test]
fn ramp_reaches_a_near_target() {
    assert_eq!(ramp_toward(100, 2_000, 16), 116);
    assert_eq!(ramp_toward(100, 0, 16), 84);
    assert_eq!(ramp_toward(100, 110, 16), 110);
    assert_eq!(ramp_toward(100, 95, 16), 95);
}

#[test]
fn trace_record_reads_back() {
    let r = zct_pack(5, true, false, 1, 0x0203, 0x0405, 2_000, 0xFFFF, 0x0607);
    assert_eq!((r[0], r[1], r[2]), (0x5B, 0xA9, 0x85));
    let word = |i: usize| u16::from_le_bytes([r[i], r[i + 1]]);
    assert_eq!((word(3), word(5), word(7)), (1, 0x0203, 0x0405));
    assert_eq!((word(9), word(11), word(13)), (2_000, 0xFFFF, 0x0607));
    assert_eq!(zct_pack(14, false, true, 0, 0, 0, 0, 0, 0)[2], 6 + 0x40);
}

#[test]
fn digits_commit_their_value() {
    let mut p = UartDuty::new();
    assert_eq!(feed(&mut p, b"50\r"), [UartCmd::SetThrottle(1_047)]);
    assert_eq!(feed(&mut p, b"0\n"), [UartCmd::Stop]);
    assert_eq!(feed(&mut p, b"1000 "), feed(&mut p, b"100 "));
    assert_eq!(feed(&mut p, b"\r\n"), []);
}

#[test]
fn keys_and_extra_digits_leave_the_number() {
    let mut p = UartDuty::new();
    feed(&mut p, b"12");
    let before = p;
    assert_eq!(feed(&mut p, b"i"), [UartCmd::Info]);
    assert_eq!(p, before);
    feed(&mut p, b"34");
    let full = p;
    feed(&mut p, b"5");
    assert_eq!(p, full);
}

#[test]
fn commits_are_running_inputs_or_a_stop() {
    for v in 1..=9_999u32 {
        let mut p = UartDuty::new();
        let text = format!("{v}\r");
        for c in feed(&mut p, text.as_bytes()) {
            match c {
                UartCmd::SetThrottle(t) => assert!((48..=2_047).contains(&t)),
                _ => panic!("{v}"),
            }
        }
    }
}

#[test]
fn receive_ring_keeps_the_oldest() {
    let mut rx = RxRing { ring: [0u16; 8], head: 6, tail: 6 };
    for c in 0..20u16 {
        rx.push(0x100 + c);
    }
    for c in 0..7u8 {
        assert_eq!(rx.pop(), Some(c));
    }
    assert_eq!(rx.pop(), None);
}

#[test]
fn trace_ring_keeps_the_newest() {
    let mut z = ZctRing { ring: [[0u8; ZCT_REC]; 4], head: 0, tail: 0, drop: 0 };
    for v in 0..10u8 {
        z.push_rec(&[v; ZCT_REC]);
    }
    let mut out = Vec::new();
    z.drain(9, &mut out);
    let kept: Vec<u8> = out.chunks(ZCT_REC).map(|r| r[0]).collect();
    assert_eq!(kept, [7, 8, 9]);
    assert_eq!(z.drop, 7);
}

#[test]
fn filter_reads_are_bounded() {
    let sched = Sched::default();
    for zc in [0u32, 99, 101, 5_000] {
        for average in [0u32, 50, 300, 5_000, 60_000] {
            let mut drive = Drive::default();
            let mut duty = Duty::default();
            drive.zero_crosses = zc;
            filter_and_duty_max(&sched, &mut drive, &mut duty, 300, average);
            assert!((2..=12).contains(&drive.filter_level));
        }
    }
}

#[test]
fn setpoint_is_held() {
    let mut drive = Drive::default();
    let mut duty = Duty::default();
    duty.duty_cycle_maximum = 2_000;
    for (input, setpoint) in [(46u16, 0u16), (47, MIN_STARTUP_DUTY), (2_047, STARTUP_MAX_DUTY_CYCLE)]
    {
        set_input_clamp(&drive, &mut duty, input);
        assert_eq!(duty.duty_cycle_setpoint, setpoint);
    }
    drive.zero_crosses = 200;
    set_input_clamp(&drive, &mut duty, 2_047);
    assert_eq!(duty.duty_cycle_setpoint, 2_000);
    duty.duty_cycle_maximum = 700;
    set_input_clamp(&drive, &mut duty, 2_047);
    assert_eq!(duty.duty_cycle_setpoint, 700);
}

#[test]
fn delays_stay_capped() {
    let mut duty = Duty::default();
    let mut bench = Bench::default();
    for _ in 0..40 {
        apply_uart_cmd(&mut duty, &mut bench, Some(UartCmd::DelayInFreeUp));
        assert!(bench.delay_in_free <= DELAY_CAP_CYC);
    }
    assert_eq!(bench.delay_in_free, DELAY_CAP_CYC);
    for _ in 0..40 {
        apply_uart_cmd(&mut duty, &mut bench, Some(UartCmd::DelayInFreeDown));
    }
    assert_eq!(bench.delay_in_free, 0);
}

#[test]
fn deadman_takes_three_seconds() {
    let mut duty = Duty::default();
    let mut bench = Bench::default();
    duty.uart_duty_input = 500;
    for _ in 0..UART_DEADMAN_LIMIT {
        uart_deadman_tick(&mut duty, &mut bench);
        assert_eq!(duty.uart_duty_input, 500);
    }
    uart_deadman_tick(&mut duty, &mut bench);
    assert_eq!(duty.uart_duty_input, 0);
}

#[test]
fn blend_stays_between() {
    for (zc, ci) in [(700u32, 746u32), (800, 746), (5, 60_000), (60_000, 5)] {
        let b = polling_blend(zc, ci);
        assert!(zc.min(ci) <= b && b <= zc.max(ci));
    }
}

#[test]
fn nothing_taken_changes_nothing() {
    let mut rx = RxRing { ring: [9u16; 4], head: 2, tail: 2 };
    assert_eq!(rx.pop(), None);
    assert_eq!((rx.ring, rx.head, rx.tail), ([9; 4], 2, 2));
    for c in 1..=4u16 {
        rx.push(c);
    }
    assert_eq!((rx.ring, rx.head, rx.tail), ([3, 9, 1, 2], 1, 2));
    assert_eq!(rx.pop(), Some(1));
    assert_eq!((rx.ring, rx.head, rx.tail), ([3, 9, 1, 2], 1, 3));
}

use minz_core::a85::encode_group;
use minz_core::blackbox::{ev_name, format_dump, BlackBox, Event, BB_LEN, EV_EMPTY};
use minz_core::drive::edges_for;
use minz_core::dump::{edge_glyph, pwm_rev_span, pwm_sector_dump, wax_cdump};
use minz_core::rates::{rate_per_s, RateWindow};
use minz_core::sense::{adc_mv_nominal, isns_ma, vbat_mv};
use minz_core::start::{StartAction, StartState, BLIND_STEP_POLLS};
use minz_core::throttle::{step, step_sag_aware, step_ticks_for, Slew, STEP_TICKS};
use minz_core::ticks::compose_1us;
use minz_core::timing::{
    auto_advance_deg, auto_advance_deg_am32, blank_us, carrier_arr, climb_lead_iv,
    commutation_delay_us, duty_slew, gate_us, gate_us_am32, parity_ema_step, parity_trim_us,
    persistence_reads, persistence_reads_r2, sag_debounce_samples,
};
use minz_core::ui::{
    advance_adjust, blank_adjust, clamp_hz, clamp_pct, edge_mode_name, edge_mode_short, hyst_name,
    next_edge_mode, next_hyst,
};
use minz_core::wire::WindowRec;

fn record() -> WindowRec {
    WindowRec {
        start_10us: 0xFFFF_FFFF,
        len_us: 2_000,
        zc_off_us: 0,
        raw: 0xFFFF,
        valid: 3,
        i_min: 0,
        i_max: 0x0FFF,
        i_avg: 7,
        qzc_off_us: 900,
        pred_err_us: i16::MIN,
        vbat_raw: 793,
        sector: 5,
        seq: 255,
    }
}

#[test]
fn extreme_record_reads_back() {
    let r = record();
    assert_eq!(WindowRec::decode(&r.encode()), Some(r));
}

#[test]
fn impossible_sectors_are_refused() {
    for sector in 6..=15u8 {
        let mut r = record();
        r.sector = sector;
        assert_eq!(WindowRec::decode(&r.encode()), None);
    }
}

#[test]
fn decoded_frame_encodes_to_itself() {
    let f = record().encode();
    assert_eq!(WindowRec::decode(&f).unwrap().encode(), f);
    assert_eq!(WindowRec::decode(&f[1..]), None);
    for (high, first_edge, head) in [(0x00, 7, 0x80), (0x70, 7, 0x80), (0xF0, 0xFFFF, 0x00)] {
        let r = WindowRec { zc_off_us: first_edge, valid: 0, ..record() };
        let mut g = r.encode();
        g[3] = high + g[3] % 16;
        let again = WindowRec::decode(&g).unwrap().encode();
        assert_eq!(again[3], head + g[3] % 16);
        assert_eq!((&again[..3], &again[4..]), (&g[..3], &g[4..]));
    }
}

#[test]
fn group_reads_back() {
    let g = encode_group([0xDE, 0xAD, 0xBE, 0xEF]);
    let mut n: u64 = 0;
    for c in g {
        assert!((0x21..0x21 + 85).contains(&c));
        n = n * 85 + (c - 0x21) as u64;
    }
    assert_eq!(n, 0xDEAD_BEEF);
    assert_eq!(encode_group([0; 4]), *b"!!!!!");
}

#[test]
fn frame_lines_have_their_length() {
    for n in [0usize, 1, 7, 8, 9, 16, 17] {
        let mut out = Vec::new();
        wax_cdump(n, |k| [k as u16, 1, 2, 3], &mut out);
        let line_ends = n.div_ceil(8);
        assert_eq!(out.len(), 10 * n + 2 * line_ends + 5);
    }
}

#[test]
fn span_covers_exactly_two_revolutions() {
    let snap: Vec<u8> = (0..64u8).map(|i| ((i / 3) % 6) << 1).collect();
    let (start, length) = pwm_rev_span(&snap, 10).unwrap();
    let sector = |i: usize| (snap[i % 64] >> 1) & 7;
    let begins = |i: usize| sector(i) == 0 && sector(i + 63) != 0;
    assert!(begins(start) && begins(start + length));
    let between = (start + 1..start + length).filter(|i| begins(*i)).count();
    assert_eq!(between, 1);
}

#[test]
fn edge_glyphs() {
    let glyphs: Vec<u8> = (0..5).map(edge_glyph).collect();
    assert_eq!(glyphs, b".oO*#");
    assert_eq!(edge_glyph(255), b'#');
}

#[test]
fn ring_keeps_the_newest_events() {
    let mut bb = BlackBox::new();
    for t in 0..(3 * BB_LEN as u16 + 7) {
        bb.record(Event { t, ty: 3, sector: 0, data: 0 });
    }
    let kept: Vec<u16> = bb.replay().iter().map(|e| e.t).filter(|t| *t != 0).collect();
    let newest: Vec<u16> = (2 * BB_LEN as u16 + 7..3 * BB_LEN as u16 + 7).collect();
    assert_eq!(kept, newest);
}

#[test]
fn empty_slots_leave_no_trace() {
    let real = Event { t: 12_345, ty: 3, sector: 5, data: 60_000 };
    let empty = Event { t: 9, ty: EV_EMPTY, sector: 1, data: 1 };
    let (mut with, mut without) = (Vec::new(), Vec::new());
    format_dump(&[empty, real, empty, empty, real], &mut with);
    format_dump(&[real, real], &mut without);
    assert_eq!(with, without);
    let text = String::from_utf8(without).unwrap();
    assert!(text.contains("60000"));
    assert_eq!(ev_name(3), "ACC");
}

#[test]
fn edge_modes_mirror() {
    for sector in 0..6u8 {
        let (rise, fall) = edges_for(3, sector);
        assert_ne!(rise, fall);
        assert_eq!(edges_for(4, sector), (fall, rise));
        for mode in 0..7u8 {
            let (rise, fall) = edges_for(mode, sector);
            assert!(rise || fall);
        }
    }
}

#[test]
fn latches_add_up_across_the_wrap() {
    let mut w = RateWindow::new(u32::MAX - 5);
    assert_eq!(w.latch(10), 16);
    assert_eq!(w.latch(25), 15);
    assert_eq!(RateWindow::new(u32::MAX - 5).latch(25), 31);
    assert_eq!(rate_per_s(5, 0), None);
    assert_eq!(rate_per_s(u32::MAX, 1), Some(4_294_867_296));
}

#[test]
fn nominal_readings_convert() {
    assert_eq!(adc_mv_nominal(4_095), 3_300);
    assert_eq!(vbat_mv(adc_mv_nominal(1_067)), 8_014);
    assert_eq!(isns_ma(adc_mv_nominal(u16::MAX)), 1_760_400);
}

#[test]
fn handoff_is_earned_and_a_start_never_stalls() {
    let mut s = StartState::new();
    let mut t = 0u32;
    let mut crossings = 0;
    let mut handed = false;
    for _ in 0..2_000 {
        t += 166;
        match s.poll(true, true, t) {
            StartAction::Wait => {},
            StartAction::Handoff { interval_us } => {
                assert!(interval_us > 0 && interval_us < 2_500);
                handed = true;
                break;
            },
            StartAction::Commutate => crossings += 1,
            _ => {},
        }
    }
    assert!(handed && crossings >= 8);
    let mut s = StartState::new();
    for k in 1..=BLIND_STEP_POLLS {
        let a = s.poll(false, true, 166 * k as u32);
        assert_eq!(a != StartAction::Wait, k == BLIND_STEP_POLLS);
    }
    assert_eq!(s.fast_streak, 0);
    for k in 1..=2 * BLIND_STEP_POLLS {
        let a = s.poll(k % 2 == 0, true, 166 * k as u32);
        assert_eq!(a != StartAction::Wait, k % BLIND_STEP_POLLS == 0);
        assert!(s.polls_since_comm < BLIND_STEP_POLLS);
        assert!(s.skip_left == 0 || s.polls_since_comm + s.skip_left as u16 <= 6);
    }
}

#[test]
fn throttle_steps_converge() {
    let mut applied = 10;
    for k in 1..=20u8 {
        applied = step(applied, 25);
        assert_eq!(applied, (10 + k).min(25));
    }
    assert_eq!(step_sag_aware(10, 25, 972), 10);
    assert_eq!(step_sag_aware(10, 25, 973), 11);
    assert_eq!(step_sag_aware(25, 10, 0), 24);
    assert_eq!((step_ticks_for(69), step_ticks_for(70), step_ticks_for(85)), (300, 600, 900));
    let mut s = Slew::new(10);
    s.set_target(20);
    for tick in 1..=3 * STEP_TICKS {
        s.tick(tick);
    }
    assert_eq!(s.applied, 13);
}

#[test]
fn clock_composes() {
    assert_eq!(compose_1us(5, 799, 5), Some(50));
    assert_eq!(compose_1us(5, 0, 5), Some(59));
    assert_eq!(compose_1us(6, 799, 6), Some(60));
    assert_eq!(compose_1us(5, 400, 6), None);
    let late = compose_1us(u32::MAX, 100, u32::MAX).unwrap();
    let next = compose_1us(0, 100, 0).unwrap();
    assert_eq!(next.wrapping_sub(late), 10);
}

#[test]
fn advance_follows_the_speed() {
    assert_eq!(auto_advance_deg(600, 0), 0);
    assert_eq!(auto_advance_deg(555, 0), 1);
    assert_eq!(auto_advance_deg(130, 0), 16);
    assert_eq!(auto_advance_deg(40, 0), 18);
    assert_eq!(auto_advance_deg(40, 7), 7);
    assert_eq!(auto_advance_deg_am32(0, 0), 13);
    assert_eq!(auto_advance_deg_am32(200, 0), 23);
    let mut last = 0;
    for iv in (0..700u32).rev() {
        let a = auto_advance_deg(iv, 0);
        assert!(a >= last);
        last = a;
    }
}

#[test]
fn delay_is_monotone() {
    assert_eq!(commutation_delay_us(600, 15, 10), 140);
    assert_eq!(commutation_delay_us(660, 15, 10), 155);
    assert_eq!(commutation_delay_us(600, 12, 10), 170);
    assert_eq!(commutation_delay_us(600, 15, 0), 150);
    assert_eq!(commutation_delay_us(600, 30, 10), 2);
}

#[test]
fn windows_open_where_they_should() {
    assert_eq!(gate_us(600, false), 180);
    assert_eq!(gate_us(600, true), 48);
    assert_eq!(gate_us_am32(0, 600, false), 300);
    assert_eq!(gate_us_am32(500, 600, false), 250);
    assert_eq!(blank_us(12, 0), 12);
    assert_eq!(blank_us(12, 600), 8);
    assert_eq!((persistence_reads(5, false), persistence_reads(4, false)), (5, 12));
    assert_eq!(persistence_reads_r2(300, true, false), 7);
}

#[test]
fn parity_trims_cancel() {
    let a = parity_trim_us(610, 590, 600);
    let b = parity_trim_us(590, 610, 600);
    assert_eq!((a, b), (-10, 10));
    assert_eq!(parity_trim_us(900, 500, 600), -80);
    assert_eq!(parity_trim_us(900, 500, 199), 0);
    assert_eq!(parity_ema_step(0, 600), 600);
    assert_eq!(parity_ema_step(800, 600), 775);
}

#[test]
fn slew_reaches_its_target() {
    let mut duty = 0;
    let mut writes = 0;
    while duty != 3_000 {
        let out = duty_slew(duty, 3_000, 1_000, 3_332, false, 0);
        assert!(out.duty > duty && out.duty - duty <= 66 && out.duty <= 3_000);
        assert_eq!(out.clamped, out.duty != 3_000);
        duty = out.duty;
        writes += 1;
    }
    assert_eq!(writes, 46);
    assert_eq!(duty_slew(3_000, 100, 200_000, 3_332, true, 300).duty, 66);
}

#[test]
fn carrier_is_bounded_and_monotone() {
    let mut last = 0;
    for iv in 0..2_000u32 {
        let arr = carrier_arr(iv, 3_332);
        if iv != 0 {
            assert!((1_666..=3_332).contains(&arr) && arr >= last);
            last = arr;
        }
    }
    assert!(sag_debounce_samples(1_666) >= sag_debounce_samples(3_332));
    assert_eq!(climb_lead_iv(500, false), 500);
}

#[test]
fn cyclers_go_around() {
    for h in [0u8, 1, 3] {
        assert_ne!(next_hyst(h), 2);
        assert_eq!(next_hyst(next_hyst(next_hyst(h))), h);
    }
    for m in 0..6u8 {
        let mut n = m;
        for _ in 0..6 {
            n = next_edge_mode(n);
        }
        assert_eq!(n, m);
    }
    assert_eq!((hyst_name(0), hyst_name(1), hyst_name(2)), ("0/none", "1/low", "3/high"));
    assert_eq!(edge_mode_name(5), "value-gated (both edges, VALUE=1 only)");
    assert_eq!(edge_mode_short(4), "phys_anti");
}

#[test]
fn clamps_hold_their_bounds() {
    assert_eq!((clamp_pct(-5, 3, 60), clamp_pct(500, 3, 60)), (3, 60));
    assert_eq!((clamp_hz(-5, 10, 400), clamp_hz(77, 10, 400)), (10, 77));
    assert_eq!((blank_adjust(0, b'N'), blank_adjust(45, b'.'), blank_adjust(9, b'x')), (0, 50, 0));
    assert_eq!((advance_adjust(27, true), advance_adjust(1, false)), (28, 0));
}

#[test]
fn long_gaps_allow_the_whole_range() {
    let out = duty_slew(2_000, 4_096, 100_000, 4_096, true, 90);
    assert_eq!((out.duty, out.clamped), (4_096, false));
    let out = duty_slew(0, u16::MAX, 100_000, u16::MAX, true, 90);
    assert_eq!((out.duty, out.clamped), (65_535, false));
    let out = duty_slew(u16::MAX, 0, 99_999, 40_960, true, 90);
    assert_eq!((out.duty, out.clamped), (0, false));
    let out = duty_slew(5, 9, 0, 4_096, true, 90);
    assert_eq!((out.duty, out.clamped), (6, true));
}

#[test]
fn sag_debounce_is_held_to_its_range() {
    let samples: Vec<u16> = [0u16, 1, 2, 3, 3_332, u16::MAX]
        .iter()
        .map(|arr| sag_debounce_samples(*arr))
        .collect();
    assert_eq!(samples, [65_535, 65_535, 65_535, 53_400, 64, 16]);
}

#[test]
fn crossing_is_marked_at_the_middle_of_a_long_sector() {
    let mut snap = vec![0u8; 512];
    for s in snap.iter_mut().take(300) {
        *s = (2 << 1) | 1;
    }
    let mut out = Vec::new();
    pwm_sector_dump(&snap, 0, 300, 2, 5, &mut out);
    let label = b"[rev 0 sec 2]: ".len();
    assert_eq!(out.len(), label + 300 + 2);
    let marks: Vec<usize> =
        out.iter().enumerate().filter(|(_, c)| **c == b'*').map(|(i, _)| i - label).collect();
    assert_eq!(marks, [150]);
    for length in [199usize, 200, 201] {
        let mut out = Vec::new();
        pwm_sector_dump(&snap, 0, length, 2, 5, &mut out);
        assert_eq!(out[label + length / 2], b'*');
    }
}

#[test]
fn frozen_ring_stays_as_it_is() {
    let mut bb = BlackBox::new();
    bb.record(Event { t: 1, ty: 3, sector: 0, data: 0 });
    bb.freeze();
    let before = bb.clone();
    bb.record(Event { t: 2, ty: 3, sector: 0, data: 0 });
    assert_eq!((bb.idx, bb.len, bb.ring, bb.frozen), (1, 1, before.ring, true));
    bb.thaw();
    bb.record(Event { t: 3, ty: 3, sector: 0, data: 0 });
    assert_eq!(bb.replay().len(), 2);
}

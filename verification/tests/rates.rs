use minz_core::rates::{RateWindow, rate_per_s};

#[test]
fn latch_returns_delta_and_restarts() {
    let mut w = RateWindow::new(100);
    assert_eq!(w.latch(150), 50);
    assert_eq!(w.latch(150), 0);
    assert_eq!(w.latch(400), 250);
}

#[test]
fn latch_survives_u32_wrap() {
    let mut w = RateWindow::new(u32::MAX - 5);
    assert_eq!(w.latch(4), 10);
}

#[test]
fn rate_math_and_zero_dt_guard() {
    assert_eq!(rate_per_s(20_000, 100_000), Some(20_000));
    assert_eq!(rate_per_s(20_000, 50_000), Some(40_000));
    assert_eq!(rate_per_s(123, 0), None);
    assert_eq!(rate_per_s(u32::MAX, 100_000), Some(u32::MAX));
}

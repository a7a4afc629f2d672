use minz_core::sense::{adc_mv_nominal, isns_ma, vbat_mv};

#[test]
fn anchors_from_the_bench() {
    let v = vbat_mv(adc_mv_nominal(1080));
    assert!((8_050..=8_180).contains(&v), "got {v} mV");
    let v = vbat_mv(adc_mv_nominal(minz_core::guards::VBAT_ABS_FLOOR_RAW));
    assert!((5_900..=6_020).contains(&v), "got {v} mV");
    assert_eq!(isns_ma(30), 1_000);
    assert_eq!(isns_ma(0), 0);
}

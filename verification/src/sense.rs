//! Sense-channel conversions, from the ADC pin voltage on.

use vstd::prelude::*;

verus! {

/// Battery divider ratio, in hundredths.
pub const VBAT_DIVIDER_X100: u32 = 933;

/// Current-sense voltage per ampere, mV.
pub const ISNS_MV_PER_AMP: u32 = 30;

/// The battery voltage of a pin voltage, mV.
pub open spec fn battery_of(adc_mv: int) -> int {
    adc_mv * VBAT_DIVIDER_X100 / 100
}

/// The phase current of a pin voltage, mA.
pub open spec fn current_of(adc_mv: int) -> int {
    adc_mv * 1000 / ISNS_MV_PER_AMP as int
}

/// The nominal pin voltage of a count, mV.
pub open spec fn pin_of(raw: int) -> int {
    raw * 3300 / 4095
}

/// Battery voltage in mV from the pin voltage in mV.
pub fn vbat_mv(adc_mv: u32) -> (r: u32)
    requires
        adc_mv * VBAT_DIVIDER_X100 <= u32::MAX,
    ensures
        r == battery_of(adc_mv as int),
{
    adc_mv * VBAT_DIVIDER_X100 / 100
}

/// Phase current in mA from the pin voltage in mV.
pub fn isns_ma(adc_mv: u32) -> (r: u32)
    requires
        adc_mv * 1000 <= u32::MAX,
    ensures
        r == current_of(adc_mv as int),
{
    adc_mv * 1000 / ISNS_MV_PER_AMP
}

/// Nominal pin voltage in mV of a 12-bit ADC count at 3.3 V.
pub fn adc_mv_nominal(raw: u16) -> (r: u32)
    ensures
        r == pin_of(raw as int),
{
    raw as u32 * 3300 / 4095
}

/// A nominal reading of any 16-bit count is in the range of both
/// conversions.
pub proof fn law_nominal_readings_convert(raw: u16)
    ensures
        pin_of(raw as int) * VBAT_DIVIDER_X100 <= u32::MAX,
        pin_of(raw as int) * 1000 <= u32::MAX,
{
}

/// The conversions are shares, up to rounding down: the battery is 9.33 times
/// the pin, an ampere is 30 mV of it, and 4095 counts are 3300 mV.
pub proof fn law_conversions_are_shares(adc_mv: int, raw: int)
    requires
        0 <= adc_mv,
        0 <= raw,
    ensures
        933 * adc_mv - 99 <= 100 * battery_of(adc_mv) <= 933 * adc_mv,
        1000 * adc_mv - 29 <= 30 * current_of(adc_mv) <= 1000 * adc_mv,
        3300 * raw - 4094 <= 4095 * pin_of(raw) <= 3300 * raw,
{
}

} // verus!

//! Key-handler arithmetic: the clamps that are safety bounds, the cyclers,
//! and their display names.

use vstd::prelude::*;

use crate::bits::{clamp_of, signed32};
use crate::bits::{to_signed32, to_unsigned32};

verus! {

/// ASCII `n`: blank up by one.
pub const KEY_BLANK_UP: u8 = 0x6E;

/// ASCII `N`: blank down by one.
pub const KEY_BLANK_DOWN: u8 = 0x4E;

/// ASCII `.`: blank up by ten. Every other key takes it down by ten.
pub const KEY_BLANK_UP_10: u8 = 0x2E;

/// A throttle percent held to `[min, max]`.
pub fn clamp_pct(v: i32, min: u16, max: u16) -> (r: u16)
    requires
        min <= max,
    ensures
        r == clamp_of(v as int, min as int, max as int),
{
    v.max(min as i32).min(max as i32) as u16
}

/// A frequency held to `[min, max]`; the bounds are read as signed.
pub fn clamp_hz(v: i32, min: u32, max: u32) -> (r: u32)
    requires
        signed32(min) <= signed32(max),
    ensures
        signed32(r) == clamp_of(v as int, signed32(min), signed32(max)),
{
    to_unsigned32(v.max(to_signed32(min)).min(to_signed32(max)))
}

/// The hysteresis after `cur`.
pub open spec fn hyst_after(cur: u8) -> u8 {
    if cur == 0 {
        1
    } else if cur == 1 {
        3
    } else {
        0
    }
}

/// The next comparator hysteresis: none, low, high, and around; medium is
/// skipped.
pub fn next_hyst(cur: u8) -> (r: u8)
    ensures
        r == hyst_after(cur),
{
    match cur {
        0 => 1,
        1 => 3,
        _ => 0,
    }
}

/// The display name of a hysteresis.
pub open spec fn hyst_text(level: u8) -> Seq<char> {
    if level == 0 {
        "0/none"@
    } else if level == 1 {
        "1/low"@
    } else {
        "3/high"@
    }
}

/// Display name of a hysteresis.
pub fn hyst_name(level: u8) -> (r: &'static str)
    ensures
        r@ == hyst_text(level),
{
    match level {
        0 => "0/none",
        1 => "1/low",
        _ => "3/high",
    }
}

/// The edge mode after `cur`.
pub open spec fn edge_mode_after(cur: u8) -> u8 {
    if cur >= 5 {
        0
    } else {
        (cur + 1) as u8
    }
}

/// The next edge mode, 0 to 5 and around (see [`crate::drive::edges_for`]).
pub fn next_edge_mode(cur: u8) -> (r: u8)
    ensures
        r == edge_mode_after(cur),
{
    if cur >= 5 {
        0
    } else {
        cur + 1
    }
}

/// The display name of an edge mode.
pub open spec fn edge_mode_text(mode: u8) -> Seq<char> {
    if mode == 0 {
        "both"@
    } else if mode == 1 {
        "raw rise"@
    } else if mode == 2 {
        "raw fall"@
    } else if mode == 3 {
        "phys ZC (rise even / fall odd)"@
    } else if mode == 4 {
        "phys anti-ZC (fall even / rise odd)"@
    } else {
        "value-gated (both edges, VALUE=1 only)"@
    }
}

/// The short name of an edge mode.
pub open spec fn edge_mode_tag(mode: u8) -> Seq<char> {
    if mode == 0 {
        "both"@
    } else if mode == 1 {
        "raw_rise"@
    } else if mode == 2 {
        "raw_fall"@
    } else if mode == 3 {
        "phys_ZC"@
    } else if mode == 4 {
        "phys_anti"@
    } else {
        "val_gated"@
    }
}

/// Display name of an edge mode.
pub fn edge_mode_name(mode: u8) -> (r: &'static str)
    ensures
        r@ == edge_mode_text(mode),
{
    match mode {
        0 => "both",
        1 => "raw rise",
        2 => "raw fall",
        3 => "phys ZC (rise even / fall odd)",
        4 => "phys anti-ZC (fall even / rise odd)",
        _ => "value-gated (both edges, VALUE=1 only)",
    }
}

/// Short name of an edge mode, for dump headers.
pub fn edge_mode_short(mode: u8) -> (r: &'static str)
    ensures
        r@ == edge_mode_tag(mode),
{
    match mode {
        0 => "both",
        1 => "raw_rise",
        2 => "raw_fall",
        3 => "phys_ZC",
        4 => "phys_anti",
        _ => "val_gated",
    }
}

/// What a key adds to the comparator blank.
pub open spec fn blank_delta(key: u8) -> int {
    if key == KEY_BLANK_UP {
        1
    } else if key == KEY_BLANK_DOWN {
        -1
    } else if key == KEY_BLANK_UP_10 {
        10
    } else {
        -10
    }
}

/// The comparator blank after a key.
pub open spec fn blank_after(cur: u16, key: u8) -> int {
    clamp_of(cur + blank_delta(key), 0, 50)
}

/// The manual advance after a key.
pub open spec fn advance_after(cur: i8, up: bool) -> int {
    clamp_of(if up {
        cur + 2
    } else {
        cur - 2
    }, 0, 28)
}

/// The comparator blank after a key, held to 0 to 50 µs: above that whole
/// PWM cycles are blanked.
pub fn blank_adjust(cur: u16, key: u8) -> (r: u16)
    ensures
        r == blank_after(cur, key),
{
    let delta: i32 = if key == KEY_BLANK_UP {
        1
    } else if key == KEY_BLANK_DOWN {
        -1
    } else if key == KEY_BLANK_UP_10 {
        10
    } else {
        -10
    };
    (cur as i32 + delta).max(0).min(50) as u16
}

/// The manual advance after a key, two degrees up or down, held to 0 to 28:
/// a negative advance collapses the rotor.
pub fn advance_adjust(cur: i8, up: bool) -> (r: i8)
    requires
        up ==> cur + 2 <= i8::MAX,
        !up ==> cur - 2 >= i8::MIN,
    ensures
        r == advance_after(cur, up),
{
    let next: i8 = if up {
        cur + 2
    } else {
        cur - 2
    };
    next.max(0).min(28)
}

/// The cyclers go around: three presses bring a hysteresis back, none of
/// them through medium, and six bring an edge mode back.
pub proof fn law_cyclers_go_around(hyst: u8, mode: u8)
    requires
        hyst == 0 || hyst == 1 || hyst == 3,
        mode <= 5,
    ensures
        hyst_after(hyst) != 2,
        hyst_after(hyst_after(hyst_after(hyst))) == hyst,
        edge_mode_after(
            edge_mode_after(
                edge_mode_after(edge_mode_after(edge_mode_after(edge_mode_after(mode)))),
            ),
        ) == mode,
{
}

/// The blank keys: `n` one up, `N` one down, `.` ten up, any other ten down,
/// between 0 and 50.
pub proof fn law_blank_keys(cur: u16, key: u8)
    requires
        cur <= 50,
    ensures
        0 <= blank_after(cur, key) <= 50,
        cur <= 49 ==> blank_after(cur, 0x6E) == cur + 1,
        cur >= 1 ==> blank_after(cur, 0x4E) == cur - 1,
        cur <= 40 ==> blank_after(cur, 0x2E) == cur + 10,
        cur >= 40 ==> blank_after(cur, 0x2E) == 50,
        key != 0x6E && key != 0x4E && key != 0x2E && cur >= 10 ==> blank_after(cur, key) == cur
            - 10,
        key != 0x6E && key != 0x4E && key != 0x2E && cur <= 10 ==> blank_after(cur, key) == 0,
        blank_after(50, 0x6E) == 50 && blank_after(0, 0x4E) == 0,
{
}

/// The advance keys move by two degrees between 0 and 28, and undo each
/// other inside.
pub proof fn law_advance_keys(cur: i8)
    requires
        0 <= cur <= 28,
    ensures
        cur <= 26 ==> advance_after(cur, true) == cur + 2 && advance_after((cur + 2) as i8, false)
            == cur,
        cur >= 26 ==> advance_after(cur, true) == 28,
        cur >= 2 ==> advance_after(cur, false) == cur - 2,
        cur <= 2 ==> advance_after(cur, false) == 0,
{
}

/// The cyclers in order: none, low, high; and the edge modes one by one up to
/// the sixth.
pub proof fn law_cyclers_in_order(hyst: u8, mode: u8)
    ensures
        hyst_after(0) == 1 && hyst_after(1) == 3,
        hyst >= 2 ==> hyst_after(hyst) == 0,
        mode <= 4 ==> edge_mode_after(mode) == mode + 1,
        mode >= 5 ==> edge_mode_after(mode) == 0,
{
}

/// Every level and every mode has a name of its own.
pub proof fn law_names_are_distinct(a: u8, b: u8)
    requires
        a < b <= 5,
    ensures
        edge_mode_text(a) != edge_mode_text(b),
        edge_mode_tag(a) != edge_mode_tag(b),
        hyst_text(0) != hyst_text(1) && hyst_text(1) != hyst_text(3) && hyst_text(0) != hyst_text(
            3,
        ),
{
    reveal_strlit("both");
    reveal_strlit("raw rise");
    reveal_strlit("raw fall");
    reveal_strlit("phys ZC (rise even / fall odd)");
    reveal_strlit("phys anti-ZC (fall even / rise odd)");
    reveal_strlit("value-gated (both edges, VALUE=1 only)");
    reveal_strlit("raw_rise");
    reveal_strlit("raw_fall");
    reveal_strlit("phys_ZC");
    reveal_strlit("phys_anti");
    reveal_strlit("val_gated");
    reveal_strlit("0/none");
    reveal_strlit("1/low");
    reveal_strlit("3/high");
    assert("both"@.len() == 4 && "raw rise"@.len() == 8 && "raw fall"@.len() == 8);
    assert("phys ZC (rise even / fall odd)"@.len() == 30);
    assert("phys anti-ZC (fall even / rise odd)"@.len() == 35);
    assert("value-gated (both edges, VALUE=1 only)"@.len() == 38);
    assert("raw_rise"@.len() == 8 && "raw_fall"@.len() == 8 && "phys_ZC"@.len() == 7);
    assert("phys_anti"@.len() == 9 && "val_gated"@.len() == 9);
    assert("raw rise"@[4] != "raw fall"@[4]);
    assert("raw_rise"@[4] != "raw_fall"@[4]);
    assert("phys_anti"@[0] != "val_gated"@[0]);
    assert("0/none"@[0] != "3/high"@[0]);
}

} // verus!
